//! The download details panel: the list of an asset's versions to pick
//! from, and the details of the picked version.
use vstd::prelude::*;
use crate::release::{
    AssetInfo, ReleaseInfo, day_text, deref_all, find_release, id_text, newest_first,
};
use crate::text::{
    chars_of_all, copy_opt, join_with, opt_chars, replace_all, replace_text, seq_join, str_equal,
};

verus! {

/// The properties of the download details panel.
#[derive(Clone, Copy, Debug, PartialEq, Eq, Structural)]
pub enum DownloadDetailsProperty {
    SupportedVersions,
    Platforms,
    ReleaseDate,
    ReleaseNotes,
}

impl DownloadDetailsProperty {
    /// The property's name.
    pub open spec fn spec_name(self) -> Seq<char> {
        match self {
            DownloadDetailsProperty::SupportedVersions => "supported-versions"@,
            DownloadDetailsProperty::Platforms => "platforms"@,
            DownloadDetailsProperty::ReleaseDate => "release-date"@,
            DownloadDetailsProperty::ReleaseNotes => "release-notes"@,
        }
    }

    /// The property's name.
    pub fn name(&self) -> (res: &'static str)
        ensures
            res@ == self.spec_name(),
    {
        match self {
            DownloadDetailsProperty::SupportedVersions => "supported-versions",
            DownloadDetailsProperty::Platforms => "platforms",
            DownloadDetailsProperty::ReleaseDate => "release-date",
            DownloadDetailsProperty::ReleaseNotes => "release-notes",
        }
    }

    /// The property that has the given name, if any.
    pub fn from_name(name: &str) -> (res: Option<DownloadDetailsProperty>)
        ensures
            match res {
                Some(p) => p.spec_name() == name@,
                None => forall|p: DownloadDetailsProperty| p.spec_name() != name@,
            },
    {
        if str_equal(name, "supported-versions") {
            Some(DownloadDetailsProperty::SupportedVersions)
        } else if str_equal(name, "platforms") {
            Some(DownloadDetailsProperty::Platforms)
        } else if str_equal(name, "release-date") {
            Some(DownloadDetailsProperty::ReleaseDate)
        } else if str_equal(name, "release-notes") {
            Some(DownloadDetailsProperty::ReleaseNotes)
        } else {
            proof {
                assert forall|p: DownloadDetailsProperty| p.spec_name() != name@ by {
                    match p {
                        DownloadDetailsProperty::SupportedVersions => {},
                        DownloadDetailsProperty::Platforms => {},
                        DownloadDetailsProperty::ReleaseDate => {},
                        DownloadDetailsProperty::ReleaseNotes => {},
                    }
                }
            }
            None
        }
    }
}

/// No two properties of the panel share a name.
pub proof fn lemma_download_details_property_names(
    p: DownloadDetailsProperty,
    q: DownloadDetailsProperty,
)
    ensures
        p.spec_name() == q.spec_name() ==> p == q,
{
    reveal_strlit("supported-versions");
    reveal_strlit("platforms");
    reveal_strlit("release-date");
    reveal_strlit("release-notes");
    if p != q && p.spec_name() == q.spec_name() {
        assert(p.spec_name().len() == q.spec_name().len());
        match p {
            DownloadDetailsProperty::Platforms => {
                assert(q.spec_name()[0] != p.spec_name()[0]);
            },
            DownloadDetailsProperty::ReleaseDate => {
                assert(q.spec_name()[8] != p.spec_name()[8]);
            },
            DownloadDetailsProperty::ReleaseNotes => {
                assert(q.spec_name()[8] != p.spec_name()[8]);
            },
            _ => {},
        }
    }
}

/// A row of the version list: the release id and the text shown.
#[derive(Clone, Debug, PartialEq, Eq)]
pub struct VersionEntry {
    pub id: String,
    pub label: String,
}

/// The icon and tooltip of the button that shows or hides the details.
#[derive(Clone, Copy, Debug, PartialEq, Eq)]
pub struct DetailsButton {
    pub icon_name: &'static str,
    pub tooltip: &'static str,
}

/// The download details panel.
pub struct EpicDownloadDetails {
    supported_versions: Option<String>,
    platforms: Option<String>,
    release_date: Option<String>,
    release_notes: Option<String>,
    asset: Option<AssetInfo>,
    versions: Vec<VersionEntry>,
    active: Option<usize>,
    supported_row_visible: bool,
    platforms_row_visible: bool,
    release_date_row_visible: bool,
    release_notes_row_visible: bool,
    details_revealed: bool,
}

/// What the panel holds and shows.
pub struct DownloadDetailsView {
    pub supported_versions: Option<Seq<char>>,
    pub platforms: Option<Seq<char>>,
    pub release_date: Option<Seq<char>>,
    pub release_notes: Option<Seq<char>>,
    pub asset: Option<AssetInfo>,
    /// The rows of the version list: release id and text shown.
    pub versions: Seq<(Seq<char>, Seq<char>)>,
    /// The row picked in the version list.
    pub active: Option<int>,
    pub supported_row_visible: bool,
    pub platforms_row_visible: bool,
    pub release_date_row_visible: bool,
    pub release_notes_row_visible: bool,
    pub details_revealed: bool,
}

/// The text of an optional string, empty where there is none.
pub open spec fn text_or_empty(o: Option<String>) -> Seq<char> {
    match o {
        Some(s) => s@,
        None => Seq::empty(),
    }
}

/// The title of a release: its version title, or where that is missing or
/// empty its app id.
pub open spec fn release_title(r: ReleaseInfo) -> Seq<char> {
    if text_or_empty(r.version_title).len() == 0 {
        text_or_empty(r.app_id)
    } else {
        text_or_empty(r.version_title)
    }
}

/// The text shown for the release at `index` of the newest-first list; the
/// first is marked as the latest.
pub open spec fn version_label(r: ReleaseInfo, index: int) -> Seq<char> {
    if index == 0 {
        release_title(r) + " (latest)"@
    } else {
        release_title(r)
    }
}

/// The rows of the version list for releases listed newest first.
pub open spec fn version_rows(sorted: Seq<ReleaseInfo>) -> Seq<(Seq<char>, Seq<char>)> {
    Seq::new(sorted.len(), |i: int| (id_text(sorted[i]), version_label(sorted[i], i)))
}

/// The rows of the version list for an asset.
pub open spec fn asset_version_rows(asset: AssetInfo) -> Seq<(Seq<char>, Seq<char>)> {
    match asset.release_info {
        Some(v) => version_rows(newest_first(v@)),
        None => Seq::empty(),
    }
}

/// The text shown for a list of compatible engine versions: the versions
/// joined with ", " and every "UE_" taken out.
pub open spec fn supported_text(apps: Seq<String>) -> Seq<char> {
    replace_all(seq_join(chars_of_all(apps), ", "@), "UE_"@, Seq::empty())
}

/// The text shown for a list of platforms: joined with ", ".
pub open spec fn platforms_text(platforms: Seq<String>) -> Seq<char> {
    seq_join(chars_of_all(platforms), ", "@)
}

impl DownloadDetailsView {
    /// The value of a property.
    pub open spec fn get(self, p: DownloadDetailsProperty) -> Option<Seq<char>> {
        match p {
            DownloadDetailsProperty::SupportedVersions => self.supported_versions,
            DownloadDetailsProperty::Platforms => self.platforms,
            DownloadDetailsProperty::ReleaseDate => self.release_date,
            DownloadDetailsProperty::ReleaseNotes => self.release_notes,
        }
    }

    /// The same panel with one property set to `v`.
    pub open spec fn with(self, p: DownloadDetailsProperty, v: Option<Seq<char>>) -> Self {
        match p {
            DownloadDetailsProperty::SupportedVersions => Self { supported_versions: v, ..self },
            DownloadDetailsProperty::Platforms => Self { platforms: v, ..self },
            DownloadDetailsProperty::ReleaseDate => Self { release_date: v, ..self },
            DownloadDetailsProperty::ReleaseNotes => Self { release_notes: v, ..self },
        }
    }

    /// The id of the picked row of the version list.
    pub open spec fn active_id(self) -> Option<Seq<char>> {
        match self.active {
            Some(i) => Some(self.versions[i].0),
            None => None,
        }
    }

    /// The release that the picked row stands for.
    pub open spec fn selected_release(self) -> Option<ReleaseInfo> {
        match self.active_id() {
            None => None,
            Some(id) => match self.asset {
                None => None,
                Some(a) => match a.release_info {
                    None => None,
                    Some(v) => find_release(v@, id),
                },
            },
        }
    }

    /// The panel showing the details of release `r`: each detail that the
    /// release has is written and its row shown; the row of a detail that it
    /// lacks (or, for the notes, has empty) is hidden and its text kept.
    pub open spec fn showing(self, r: ReleaseInfo) -> Self {
        let s1 = match r.compatible_apps {
            Some(c) => Self {
                supported_versions: Some(supported_text(c@)),
                supported_row_visible: true,
                ..self
            },
            None => Self { supported_row_visible: false, ..self },
        };
        let s2 = match r.platform {
            Some(p) => Self { platforms: Some(platforms_text(p@)), platforms_row_visible: true, ..s1 },
            None => Self { platforms_row_visible: false, ..s1 },
        };
        let s3 = match r.date_added {
            Some(d) => Self {
                release_date: Some(day_text(d)),
                release_date_row_visible: true,
                ..s2
            },
            None => Self { release_date_row_visible: false, ..s2 },
        };
        match r.release_note {
            Some(n) => if n@.len() > 0 {
                Self { release_notes: Some(n@), release_notes_row_visible: true, ..s3 }
            } else {
                Self { release_notes_row_visible: false, ..s3 }
            },
            None => Self { release_notes_row_visible: false, ..s3 },
        }
    }

    /// The panel after the picked version changed: the details of the
    /// picked release, or the panel unchanged where no release is picked
    /// or none has the picked id.
    pub open spec fn after_selection(self) -> Self {
        match self.selected_release() {
            Some(r) => self.showing(r),
            None => self,
        }
    }

    /// The panel listing the versions of `asset`, the newest picked.
    pub open spec fn listing(self, asset: AssetInfo) -> Self {
        let rows = asset_version_rows(asset);
        Self {
            asset: Some(asset),
            versions: rows,
            active: if rows.len() > 0 {
                Some(0)
            } else {
                None
            },
            ..self
        }
    }

    /// The panel with the details shown where they were hidden and hidden
    /// where they were shown.
    pub open spec fn toggled(self) -> Self {
        Self { details_revealed: !self.details_revealed, ..self }
    }
}

impl View for EpicDownloadDetails {
    type V = DownloadDetailsView;

    closed spec fn view(&self) -> DownloadDetailsView {
        DownloadDetailsView {
            supported_versions: opt_chars(self.supported_versions),
            platforms: opt_chars(self.platforms),
            release_date: opt_chars(self.release_date),
            release_notes: opt_chars(self.release_notes),
            asset: self.asset,
            versions: self.versions@.map_values(|e: VersionEntry| (e.id@, e.label@)),
            active: match self.active {
                Some(i) => Some(i as int),
                None => None,
            },
            supported_row_visible: self.supported_row_visible,
            platforms_row_visible: self.platforms_row_visible,
            release_date_row_visible: self.release_date_row_visible,
            release_notes_row_visible: self.release_notes_row_visible,
            details_revealed: self.details_revealed,
        }
    }
}

/// The rows of the version list for releases listed newest first.
fn rows_for(sorted: &Vec<&ReleaseInfo>) -> (res: Vec<VersionEntry>)
    ensures
        res@.map_values(|e: VersionEntry| (e.id@, e.label@)) == version_rows(
            sorted@.map_values(|r: &ReleaseInfo| *r),
        ),
{
    let ghost rel = sorted@.map_values(|r: &ReleaseInfo| *r);
    let mut rows: Vec<VersionEntry> = Vec::new();
    let mut i: usize = 0;
    while i < sorted.len()
        invariant
            i <= sorted.len(),
            rel == deref_all(sorted@),
            rows@.len() == i,
            forall|j: int|
                0 <= j < i ==> (#[trigger] rows@[j]).id@ == id_text(rel[j]) && rows@[j].label@
                    == version_label(rel[j], j),
        decreases sorted.len() - i,
    {
        let r: &ReleaseInfo = sorted[i];
        let id = match &r.id {
            Some(s) => s.clone(),
            None => String::new(),
        };
        let title: &str = match &r.version_title {
            Some(s) => s.as_str(),
            None => "",
        };
        let app: &str = match &r.app_id {
            Some(s) => s.as_str(),
            None => "",
        };
        proof {
            reveal_strlit("");
            assert(""@ =~= Seq::<char>::empty());
        }
        let mut label = if title.is_empty() {
            app.to_owned()
        } else {
            title.to_owned()
        };
        if i == 0 {
            label.append(" (latest)");
        }
        assert(label@ == version_label(rel[i as int], i as int));
        rows.push(VersionEntry { id, label });
        i = i + 1;
    }
    let ghost view = rows@.map_values(|e: VersionEntry| (e.id@, e.label@));
    assert(view =~= version_rows(rel));
    rows
}

impl EpicDownloadDetails {
    #[verifier::type_invariant]
    spec fn picked_row_exists(self) -> bool {
        self.active matches Some(i) ==> i < self.versions.len()
    }

    /// A panel with no asset, no properties set, its rows shown and its
    /// details hidden.
    pub fn new() -> (res: EpicDownloadDetails)
        ensures
            res@.supported_versions is None,
            res@.platforms is None,
            res@.release_date is None,
            res@.release_notes is None,
            res@.asset is None,
            res@.versions.len() == 0,
            res@.active is None,
            res@.supported_row_visible,
            res@.platforms_row_visible,
            res@.release_date_row_visible,
            res@.release_notes_row_visible,
            !res@.details_revealed,
    {
        EpicDownloadDetails {
            supported_versions: None,
            platforms: None,
            release_date: None,
            release_notes: None,
            asset: None,
            versions: Vec::new(),
            active: None,
            supported_row_visible: true,
            platforms_row_visible: true,
            release_date_row_visible: true,
            release_notes_row_visible: true,
            details_revealed: false,
        }
    }

    /// Sets a property.
    pub fn set_property(&mut self, property: DownloadDetailsProperty, value: Option<String>)
        ensures
            final(self)@ == old(self)@.with(property, opt_chars(value)),
    {
        proof {
            use_type_invariant(&*self);
        }
        match property {
            DownloadDetailsProperty::SupportedVersions => {
                self.supported_versions = value;
            },
            DownloadDetailsProperty::Platforms => {
                self.platforms = value;
            },
            DownloadDetailsProperty::ReleaseDate => {
                self.release_date = value;
            },
            DownloadDetailsProperty::ReleaseNotes => {
                self.release_notes = value;
            },
        }
    }

    /// The value of a property.
    pub fn property(&self, property: DownloadDetailsProperty) -> (res: Option<String>)
        ensures
            opt_chars(res) == self@.get(property),
    {
        match property {
            DownloadDetailsProperty::SupportedVersions => copy_opt(&self.supported_versions),
            DownloadDetailsProperty::Platforms => copy_opt(&self.platforms),
            DownloadDetailsProperty::ReleaseDate => copy_opt(&self.release_date),
            DownloadDetailsProperty::ReleaseNotes => copy_opt(&self.release_notes),
        }
    }

    /// The rows of the version list.
    pub fn versions(&self) -> (res: &Vec<VersionEntry>)
        ensures
            res@.map_values(|e: VersionEntry| (e.id@, e.label@)) == self@.versions,
    {
        &self.versions
    }

    /// The picked row of the version list.
    pub fn active(&self) -> (res: Option<usize>)
        ensures
            match res {
                Some(i) => self@.active == Some(i as int),
                None => self@.active is None,
            },
    {
        self.active
    }

    /// Whether each detail row is shown: compatible versions, platforms,
    /// release date, release notes.
    pub fn rows_visible(&self) -> (res: (bool, bool, bool, bool))
        ensures
            res == (
                self@.supported_row_visible,
                self@.platforms_row_visible,
                self@.release_date_row_visible,
                self@.release_notes_row_visible,
            ),
    {
        (
            self.supported_row_visible,
            self.platforms_row_visible,
            self.release_date_row_visible,
            self.release_notes_row_visible,
        )
    }

    /// Whether the details are shown.
    pub fn details_revealed(&self) -> (res: bool)
        ensures
            res == self@.details_revealed,
    {
        self.details_revealed
    }

    /// Shows the asset: lists its versions newest first, the newest marked
    /// as the latest and picked, and shows the details of the picked one.
    pub fn set_asset(&mut self, asset: AssetInfo)
        ensures
            final(self)@ == old(self)@.listing(asset).after_selection(),
    {
        self.active = None;
        let rows = match asset.sorted_releases() {
            Some(sorted) => rows_for(&sorted),
            None => Vec::new(),
        };
        let ghost mid = old(self)@.listing(asset);
        let has_rows = rows.len() > 0;
        self.versions = rows;
        self.asset = Some(asset);
        if has_rows {
            self.active = Some(0);
        }
        assert(self@.versions =~= mid.versions);
        assert(self@ == mid);
        self.version_selected();
    }

    /// Picks a row of the version list and shows the details of its release.
    pub fn select_version(&mut self, index: usize)
        requires
            index < old(self)@.versions.len(),
        ensures
            final(self)@ == (DownloadDetailsView { active: Some(index as int), ..old(self)@ }).after_selection(),
    {
        proof {
            use_type_invariant(&*self);
        }
        self.active = Some(index);
        self.version_selected();
    }

    /// Shows the details of the release whose id the picked row holds; where
    /// no row is picked, no asset is shown or no release has that id, the
    /// panel stays as it is.
    pub fn version_selected(&mut self)
        ensures
            final(self)@ == old(self)@.after_selection(),
    {
        proof {
            use_type_invariant(&*self);
        }
        let id: String = match self.active {
            Some(i) => self.versions[i].id.clone(),
            None => {
                return ;
            },
        };
        let found: Option<&ReleaseInfo> = match &self.asset {
            Some(a) => a.release_info(id.as_str()),
            None => None,
        };
        let r: &ReleaseInfo = match found {
            Some(r) => r,
            None => {
                return ;
            },
        };
        proof {
            reveal_strlit("UE_");
            reveal_strlit("");
        }
        let supported: Option<String> = match &r.compatible_apps {
            Some(c) => {
                let joined = join_with(c, ", ");
                let replaced = replace_text(joined.as_str(), "UE_", "");
                assert(""@ == Seq::<char>::empty());
                assert(replaced@ == supported_text(c@));
                Some(replaced)
            },
            None => None,
        };
        let platforms: Option<String> = match &r.platform {
            Some(p) => Some(join_with(p, ", ")),
            None => None,
        };
        let date: Option<String> = match &r.date_added {
            Some(d) => Some(d.day()),
            None => None,
        };
        let notes: Option<String> = match &r.release_note {
            Some(n) => if n.as_str().is_empty() {
                None
            } else {
                Some(n.clone())
            },
            None => None,
        };
        let ghost rel = *r;
        match supported {
            Some(s) => {
                self.supported_versions = Some(s);
                self.supported_row_visible = true;
            },
            None => {
                self.supported_row_visible = false;
            },
        }
        match platforms {
            Some(p) => {
                self.platforms = Some(p);
                self.platforms_row_visible = true;
            },
            None => {
                self.platforms_row_visible = false;
            },
        }
        match date {
            Some(d) => {
                self.release_date = Some(d);
                self.release_date_row_visible = true;
            },
            None => {
                self.release_date_row_visible = false;
            },
        }
        match notes {
            Some(n) => {
                self.release_notes_row_visible = true;
                self.release_notes = Some(n);
            },
            None => {
                self.release_notes_row_visible = false;
            },
        }
        let ghost sh = old(self)@.showing(rel);
        assert(self@.versions =~= sh.versions);
        assert(self@ == sh);
    }

    /// The "show" action: shows the details where they were hidden and hides
    /// them where they were shown, and gives the button's new icon and
    /// tooltip.
    pub fn toggle_details(&mut self) -> (res: DetailsButton)
        ensures
            final(self)@ == old(self)@.toggled(),
            res.icon_name@ == (if old(self)@.details_revealed {
                "go-down-symbolic"@
            } else {
                "go-up-symbolic"@
            }),
            res.tooltip@ == (if old(self)@.details_revealed {
                "Show details"@
            } else {
                "Hide details"@
            }),
    {
        proof {
            use_type_invariant(&*self);
        }
        if self.details_revealed {
            self.details_revealed = false;
            DetailsButton { icon_name: "go-down-symbolic", tooltip: "Show details" }
        } else {
            self.details_revealed = true;
            DetailsButton { icon_name: "go-up-symbolic", tooltip: "Hide details" }
        }
    }
}

/// What a write of a property gives back on a read: the value written, and
/// every other property as it was.
pub proof fn lemma_download_details_read_after_write(
    d: DownloadDetailsView,
    p: DownloadDetailsProperty,
    q: DownloadDetailsProperty,
    v: Option<Seq<char>>,
)
    ensures
        d.with(p, v).get(p) == v,
        p != q ==> d.with(p, v).get(q) == d.get(q),
{
}

/// The title a release is listed by: its version title where that is
/// present and not empty; otherwise (no title, or an empty one alike) its
/// app id, or nothing where it has none.
pub proof fn lemma_release_title(r: ReleaseInfo)
    ensures
        r.version_title is Some && r.version_title.unwrap()@.len() > 0 ==> release_title(r)
            == r.version_title.unwrap()@,
        r.version_title is None || r.version_title.unwrap()@.len() == 0 ==> release_title(r) == (
        if r.app_id is Some {
            r.app_id.unwrap()@
        } else {
            Seq::<char>::empty()
        }),
{
}

/// After the panel shows an asset, it lists one row per release, newest
/// first: each holds the release's id (empty where it has none) and is
/// labelled by the release's version title, or where the title is missing
/// or empty by its app id (empty where it has none); the first row's label
/// is followed by " (latest)" and the first row is picked. An asset without
/// a release list gives no rows and nothing picked.
pub proof fn lemma_set_asset_rows(d: DownloadDetailsView, asset: AssetInfo)
    ensures
        asset.release_info is None ==> d.listing(asset).after_selection().versions.len() == 0
            && d.listing(asset).after_selection().active is None,
        asset.release_info is Some ==> d.listing(asset).after_selection().versions.len()
            == asset.release_info.unwrap()@.len(),
        asset.release_info is Some && asset.release_info.unwrap()@.len() > 0 ==> d.listing(
            asset,
        ).after_selection().active == Some(0int),
        forall|i: int|
            #![trigger d.listing(asset).after_selection().versions[i]]
            asset.release_info is Some && 0 <= i < asset.release_info.unwrap()@.len() ==> {
                let r = newest_first(asset.release_info.unwrap()@)[i];
                let row = d.listing(asset).after_selection().versions[i];
                &&& row.0 == (if r.id is Some {
                    r.id.unwrap()@
                } else {
                    Seq::<char>::empty()
                })
                &&& row.1 == (if r.version_title is Some && r.version_title.unwrap()@.len() > 0 {
                    r.version_title.unwrap()@
                } else if r.app_id is Some {
                    r.app_id.unwrap()@
                } else {
                    Seq::<char>::empty()
                }) + (if i == 0 {
                    " (latest)"@
                } else {
                    Seq::<char>::empty()
                })
            },
{
    let l = d.listing(asset);
    let s = l.after_selection();
    assert(s.versions == l.versions && s.active == l.active);
    match asset.release_info {
        Some(v) => {
            crate::release::lemma_newest_first_sorted(v@);
            let nf = newest_first(v@);
            assert forall|i: int|
                #![trigger s.versions[i]]
                0 <= i < v@.len() implies {
                let r = nf[i];
                let row = s.versions[i];
                &&& row.0 == (if r.id is Some {
                    r.id.unwrap()@
                } else {
                    Seq::<char>::empty()
                })
                &&& row.1 == (if r.version_title is Some && r.version_title.unwrap()@.len() > 0 {
                    r.version_title.unwrap()@
                } else if r.app_id is Some {
                    r.app_id.unwrap()@
                } else {
                    Seq::<char>::empty()
                }) + (if i == 0 {
                    " (latest)"@
                } else {
                    Seq::<char>::empty()
                })
            } by {
                lemma_release_title(nf[i]);
                if i != 0 {
                    assert(release_title(nf[i]) + Seq::<char>::empty() =~= release_title(nf[i]));
                }
            }
        },
        None => {},
    }
}

/// Running the "show" action twice leaves the panel as it was.
pub proof fn lemma_toggle_twice(d: DownloadDetailsView)
    ensures
        d.toggled().toggled() == d,
{
}

/// Showing the details of the picked version a second time changes nothing.
pub proof fn lemma_after_selection_idempotent(d: DownloadDetailsView)
    ensures
        d.after_selection().after_selection() == d.after_selection(),
{
    match d.selected_release() {
        Some(r) => {
            let s = d.showing(r);
            assert(s.selected_release() == Some(r));
            assert(s.showing(r) == s);
        },
        None => {},
    }
}

} // verus!
