//! The row model that carries a JSON text and a thumbnail image.
use vstd::prelude::*;
use crate::hex_text::{decode_or_empty, hex_decode, hex_encode, hex_encode_chars, lemma_hex_round_trip};
use crate::text::{copy_opt, opt_chars, str_equal};

verus! {

/// The properties of a `RowData`.
#[derive(Clone, Copy, Debug, PartialEq, Eq, Structural)]
pub enum RowDataProperty {
    Data,
    Thumbnail,
}

impl RowDataProperty {
    /// The property's name.
    pub open spec fn spec_name(self) -> Seq<char> {
        match self {
            RowDataProperty::Data => "data"@,
            RowDataProperty::Thumbnail => "thumbnail"@,
        }
    }

    /// The property's name.
    pub fn name(&self) -> (res: &'static str)
        ensures
            res@ == self.spec_name(),
    {
        match self {
            RowDataProperty::Data => "data",
            RowDataProperty::Thumbnail => "thumbnail",
        }
    }

    /// The property that has the given name, if any.
    pub fn from_name(name: &str) -> (res: Option<RowDataProperty>)
        ensures
            match res {
                Some(p) => p.spec_name() == name@,
                None => forall|p: RowDataProperty| p.spec_name() != name@,
            },
    {
        if str_equal(name, "data") {
            Some(RowDataProperty::Data)
        } else if str_equal(name, "thumbnail") {
            Some(RowDataProperty::Thumbnail)
        } else {
            proof {
                assert forall|p: RowDataProperty| p.spec_name() != name@ by {
                    match p {
                        RowDataProperty::Data => {},
                        RowDataProperty::Thumbnail => {},
                    }
                }
            }
            None
        }
    }
}

/// No two properties of a `RowData` share a name, so `from_name` finds
/// every property again by its name.
pub proof fn lemma_row_data_property_names(p: RowDataProperty, q: RowDataProperty)
    ensures
        p.spec_name() == q.spec_name() ==> p == q,
{
    reveal_strlit("data");
    reveal_strlit("thumbnail");
    if p != q {
        assert(p.spec_name().len() != q.spec_name().len());
    }
}

/// A row of a list: a JSON text (`data`) and the hexadecimal text of an
/// image (`thumbnail`).
pub struct RowData {
    data: Option<String>,
    thumbnail: Option<String>,
}

/// What a `RowData` holds.
pub struct RowDataView {
    pub data: Option<Seq<char>>,
    pub thumbnail: Option<Seq<char>>,
}

impl RowDataView {
    /// The value of a property.
    pub open spec fn get(self, p: RowDataProperty) -> Option<Seq<char>> {
        match p {
            RowDataProperty::Data => self.data,
            RowDataProperty::Thumbnail => self.thumbnail,
        }
    }

    /// The same row with one property set to `v`.
    pub open spec fn with(self, p: RowDataProperty, v: Option<Seq<char>>) -> RowDataView {
        match p {
            RowDataProperty::Data => RowDataView { data: v, ..self },
            RowDataProperty::Thumbnail => RowDataView { thumbnail: v, ..self },
        }
    }

    /// The image that the thumbnail stands for: its hexadecimal text decoded,
    /// or nothing where there is no thumbnail or it does not decode.
    pub open spec fn image(self) -> Seq<u8> {
        match self.thumbnail {
            Some(t) => decode_or_empty(t),
            None => Seq::empty(),
        }
    }
}

impl View for RowData {
    type V = RowDataView;

    closed spec fn view(&self) -> RowDataView {
        RowDataView { data: opt_chars(self.data), thumbnail: opt_chars(self.thumbnail) }
    }
}

impl RowData {
    /// A row with neither property set.
    pub fn empty() -> (res: RowData)
        ensures
            res@.data is None,
            res@.thumbnail is None,
    {
        RowData { data: None, thumbnail: None }
    }

    /// A row for an object given by its JSON text, with the image stored as
    /// lowercase hexadecimal text.
    pub fn new(data: String, image: Vec<u8>) -> (res: RowData)
        ensures
            res@.data == Some(data@),
            res@.thumbnail == Some(hex_encode_chars(image@)),
    {
        let thumbnail = hex_encode(image.as_slice());
        RowData { data: Some(data), thumbnail: Some(thumbnail) }
    }

    /// Sets a property.
    pub fn set_property(&mut self, property: RowDataProperty, value: Option<String>)
        ensures
            final(self)@ == old(self)@.with(property, opt_chars(value)),
    {
        match property {
            RowDataProperty::Data => {
                self.data = value;
            },
            RowDataProperty::Thumbnail => {
                self.thumbnail = value;
            },
        }
    }

    /// The value of a property.
    pub fn property(&self, property: RowDataProperty) -> (res: Option<String>)
        ensures
            opt_chars(res) == self@.get(property),
    {
        match property {
            RowDataProperty::Data => copy_opt(&self.data),
            RowDataProperty::Thumbnail => copy_opt(&self.thumbnail),
        }
    }

    /// The JSON text of the row's object.
    pub fn data(&self) -> (res: Option<String>)
        ensures
            opt_chars(res) == self@.data,
    {
        copy_opt(&self.data)
    }

    /// The image: the thumbnail's hexadecimal text decoded; empty where there
    /// is no thumbnail or its text is not hexadecimal.
    pub fn image(&self) -> (res: Vec<u8>)
        ensures
            res@ == self@.image(),
    {
        match &self.thumbnail {
            None => Vec::new(),
            Some(img) => {
                let bytes = img.as_str().as_bytes();
                match hex_decode(bytes) {
                    Ok(v) => v,
                    Err(_) => Vec::new(),
                }
            },
        }
    }
}

/// What a write of a property gives back on a read: the value written,
/// and every other property as it was.
pub proof fn lemma_row_data_read_after_write(
    r: RowDataView,
    p: RowDataProperty,
    q: RowDataProperty,
    v: Option<Seq<char>>,
)
    ensures
        r.with(p, v).get(p) == v,
        p != q ==> r.with(p, v).get(q) == r.get(q),
{
}

/// The image of a new row is the image it was made with.
pub proof fn lemma_row_data_image_round_trip(data: Seq<char>, image: Seq<u8>)
    ensures
        (RowDataView { data: Some(data), thumbnail: Some(hex_encode_chars(image)) }).image()
            == image,
{
    lemma_hex_round_trip(image);
}

} // verus!
