use epic_asset_manager::hex_text::{hex_decode, hex_encode};
use epic_asset_manager::row_data::{RowData, RowDataProperty};

#[test]
fn new_row_keeps_data_and_encodes_image() {
    let row = RowData::new("{\"id\":\"abc\"}".to_string(), vec![1, 2, 3, 15, 16]);
    assert_eq!(row.data(), Some("{\"id\":\"abc\"}".to_string()));
    assert_eq!(row.property(RowDataProperty::Thumbnail), Some("0102030f10".to_string()));
    assert_eq!(row.image(), vec![1, 2, 3, 15, 16]);
}

#[test]
fn image_round_trips_every_byte() {
    let image: Vec<u8> = (0..=255u8).collect();
    let row = RowData::new(String::new(), image.clone());
    assert_eq!(row.image(), image);
}

#[test]
fn empty_image_round_trips() {
    let row = RowData::new("null".to_string(), vec![]);
    assert_eq!(row.property(RowDataProperty::Thumbnail), Some(String::new()));
    assert_eq!(row.image(), Vec::<u8>::new());
}

#[test]
fn image_without_thumbnail_is_empty() {
    let row = RowData::empty();
    assert_eq!(row.data(), None);
    assert_eq!(row.image(), Vec::<u8>::new());
}

#[test]
fn image_of_bad_thumbnail_is_empty() {
    let mut row = RowData::empty();
    row.set_property(RowDataProperty::Thumbnail, Some("zz".to_string()));
    assert_eq!(row.image(), Vec::<u8>::new());
    row.set_property(RowDataProperty::Thumbnail, Some("123".to_string()));
    assert_eq!(row.image(), Vec::<u8>::new());
    row.set_property(RowDataProperty::Thumbnail, Some("é1".to_string()));
    assert_eq!(row.image(), Vec::<u8>::new());
}

#[test]
fn image_accepts_upper_case_digits() {
    let mut row = RowData::empty();
    row.set_property(RowDataProperty::Thumbnail, Some("0AfF".to_string()));
    assert_eq!(row.image(), vec![10, 255]);
}

#[test]
fn row_property_read_after_write() {
    let mut row = RowData::new("{}".to_string(), vec![7]);
    row.set_property(RowDataProperty::Data, Some("[1]".to_string()));
    assert_eq!(row.property(RowDataProperty::Data), Some("[1]".to_string()));
    assert_eq!(row.property(RowDataProperty::Thumbnail), Some("07".to_string()));
    row.set_property(RowDataProperty::Data, None);
    assert_eq!(row.property(RowDataProperty::Data), None);
}

#[test]
fn row_property_names() {
    assert_eq!(RowDataProperty::from_name("data"), Some(RowDataProperty::Data));
    assert_eq!(RowDataProperty::from_name("thumbnail"), Some(RowDataProperty::Thumbnail));
    assert_eq!(RowDataProperty::from_name("Data"), None);
    assert_eq!(RowDataProperty::from_name(""), None);
    assert_eq!(RowDataProperty::Data.name(), "data");
    assert_eq!(RowDataProperty::from_name(RowDataProperty::Thumbnail.name()), Some(RowDataProperty::Thumbnail));
}

#[test]
fn hex_wrappers_match_the_crate() {
    assert_eq!(hex_encode(&[0xbe, 0xef]), "beef");
    assert_eq!(hex_decode(b"BEEF").unwrap(), vec![0xbe, 0xef]);
    assert!(hex_decode(b"abc").is_err());
    assert!(hex_decode(b"ag").is_err());
}
