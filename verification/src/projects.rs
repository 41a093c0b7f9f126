//! The projects page: the Unreal projects found on disk, one row per
//! project directory.
use vstd::prelude::*;
use crate::text::{chars_of, copy_opt, opt_chars, str_equal};

verus! {

broadcast use vstd::seq::group_seq_axioms;

/// The directory that holds the file or directory at a path, as
/// `std::path::Path::parent` gives it; `None` for a root or an empty path.
pub uninterp spec fn path_parent(path: Seq<char>) -> Option<Seq<char>>;

/// The file name of a path without its extension, as
/// `std::path::Path::file_stem` gives it.
pub uninterp spec fn path_file_stem(path: Seq<char>) -> Option<Seq<char>>;

/// The extension of a path's file name, as `std::path::Path::extension`
/// gives it.
pub uninterp spec fn path_extension(path: Seq<char>) -> Option<Seq<char>>;

/// A string lowercased, as `str::to_lowercase` gives it.
pub uninterp spec fn lowercase(text: Seq<char>) -> Seq<char>;

/// `std::path::Path::parent`, as text. The parent of a path given as text
/// is a part of that text, so it is text too.
#[verifier::external_body]
pub fn parent_of(path: &str) -> (res: Option<String>)
    ensures
        opt_chars(res) == path_parent(path@),
{
    match std::path::Path::new(path).parent() {
        Some(p) => p.to_str().map(String::from),
        None => None,
    }
}

/// `std::path::Path::file_stem`, as text.
#[verifier::external_body]
pub fn file_stem_of(path: &str) -> (res: Option<String>)
    ensures
        opt_chars(res) == path_file_stem(path@),
{
    match std::path::Path::new(path).file_stem() {
        Some(s) => s.to_str().map(String::from),
        None => None,
    }
}

/// `std::path::Path::extension`, as text.
#[verifier::external_body]
pub fn extension_of(path: &str) -> (res: Option<String>)
    ensures
        opt_chars(res) == path_extension(path@),
{
    match std::path::Path::new(path).extension() {
        Some(s) => s.to_str().map(String::from),
        None => None,
    }
}

/// `str::to_lowercase`.
#[verifier::external_body]
pub fn to_lowercase(text: &str) -> (res: String)
    ensures
        res@ == lowercase(text@),
{
    text.to_lowercase()
}

/// How two project rows are ordered in the grid.
#[derive(Clone, Copy, Debug, PartialEq, Eq, Structural)]
pub enum NameOrder {
    Smaller,
    Equal,
    Larger,
}

/// Whether `a` comes before `b` character by character, a proper prefix
/// coming first. For characters this is the order of their code points,
/// which is also the order of their UTF-8 bytes, so it is how `String`s
/// compare.
pub open spec fn lex_less(a: Seq<char>, b: Seq<char>) -> bool
    decreases a.len(),
{
    if a.len() == 0 {
        b.len() > 0
    } else if b.len() == 0 {
        false
    } else if a[0] != b[0] {
        a[0] < b[0]
    } else {
        lex_less(a.drop_first(), b.drop_first())
    }
}

/// The order of two texts.
pub open spec fn text_order(a: Seq<char>, b: Seq<char>) -> NameOrder {
    if a == b {
        NameOrder::Equal
    } else if lex_less(a, b) {
        NameOrder::Smaller
    } else {
        NameOrder::Larger
    }
}

/// The order of two project rows by name: by their lowercased names; a row
/// without a name comes after every row when it is the first one compared,
/// and a named row comes before an unnamed one.
pub open spec fn name_order(a: Option<Seq<char>>, b: Option<Seq<char>>) -> NameOrder {
    match a {
        None => NameOrder::Larger,
        Some(x) => match b {
            None => NameOrder::Smaller,
            Some(y) => text_order(lowercase(x), lowercase(y)),
        },
    }
}

proof fn lemma_lex_less_common_prefix(a: Seq<char>, b: Seq<char>, i: int)
    requires
        0 <= i <= a.len(),
        i <= b.len(),
        a.take(i) == b.take(i),
    ensures
        lex_less(a, b) == lex_less(a.skip(i), b.skip(i)),
    decreases i,
{
    if i > 0 {
        assert(a[0] == a.take(i)[0]);
        assert(b[0] == b.take(i)[0]);
        assert(a.drop_first().take(i - 1) =~= a.take(i).drop_first());
        assert(b.drop_first().take(i - 1) =~= b.take(i).drop_first());
        lemma_lex_less_common_prefix(a.drop_first(), b.drop_first(), i - 1);
        assert(a.drop_first().skip(i - 1) =~= a.skip(i));
        assert(b.drop_first().skip(i - 1) =~= b.skip(i));
    } else {
        assert(a.skip(0) =~= a);
        assert(b.skip(0) =~= b);
    }
}

/// The order of two texts, compared character by character.
pub fn compare_text(a: &str, b: &str) -> (res: NameOrder)
    ensures
        res == text_order(a@, b@),
{
    let x = chars_of(a);
    let y = chars_of(b);
    let mut i: usize = 0;
    while i < x.len() && i < y.len() && x[i] == y[i]
        invariant
            x@ == a@,
            y@ == b@,
            i <= x.len(),
            i <= y.len(),
            x@.take(i as int) == y@.take(i as int),
        decreases x.len() - i,
    {
        assert(x@.take(i + 1) =~= x@.take(i as int).push(x@[i as int]));
        assert(y@.take(i + 1) =~= y@.take(i as int).push(y@[i as int]));
        i = i + 1;
    }
    proof {
        lemma_lex_less_common_prefix(x@, y@, i as int);
    }
    if i == x.len() && i == y.len() {
        assert(x@ =~= x@.take(i as int));
        assert(y@ =~= y@.take(i as int));
        NameOrder::Equal
    } else if i == x.len() {
        assert(a@ != b@) by {
            if a@ == b@ {
                assert(x@.len() == y@.len());
            }
        }
        NameOrder::Smaller
    } else if i == y.len() {
        assert(a@ != b@) by {
            if a@ == b@ {
                assert(x@.len() == y@.len());
            }
        }
        NameOrder::Larger
    } else {
        assert(x@.skip(i as int)[0] == x@[i as int]);
        assert(y@.skip(i as int)[0] == y@[i as int]);
        assert(a@ != b@) by {
            if a@ == b@ {
                assert(x@[i as int] == y@[i as int]);
            }
        }
        if x[i] < y[i] {
            NameOrder::Smaller
        } else {
            NameOrder::Larger
        }
    }
}

/// A row of the projects grid: the path of the project's `.uproject` file
/// and the project's name.
#[derive(Clone, Debug, PartialEq, Eq)]
pub struct ProjectData {
    pub path: Option<String>,
    pub name: Option<String>,
}

impl ProjectData {
    /// The row's path and name.
    pub open spec fn spec_view(self) -> (Option<Seq<char>>, Option<Seq<char>>) {
        (opt_chars(self.path), opt_chars(self.name))
    }
}

/// The order of two project rows in the grid (see `name_order`).
pub fn compare_projects(a: &ProjectData, b: &ProjectData) -> (res: NameOrder)
    ensures
        res == name_order(opt_chars(a.name), opt_chars(b.name)),
{
    match &a.name {
        None => NameOrder::Larger,
        Some(x) => match &b.name {
            None => NameOrder::Smaller,
            Some(y) => {
                let lx = to_lowercase(x.as_str());
                let ly = to_lowercase(y.as_str());
                compare_text(lx.as_str(), ly.as_str())
            },
        },
    }
}

proof fn lemma_lex_less_asymmetric(a: Seq<char>, b: Seq<char>)
    ensures
        a != b ==> (lex_less(a, b) != lex_less(b, a)),
        lex_less(a, b) ==> a != b,
    decreases a.len(),
{
    if a.len() > 0 && b.len() > 0 && a[0] == b[0] {
        lemma_lex_less_asymmetric(a.drop_first(), b.drop_first());
        if a != b {
            assert(a.drop_first() != b.drop_first()) by {
                if a.drop_first() == b.drop_first() {
                    assert(a =~= seq![a[0]] + a.drop_first());
                    assert(b =~= seq![b[0]] + b.drop_first());
                }
            }
        }
    } else if a.len() == 0 && b.len() == 0 {
        assert(a =~= b);
    }
}

/// Comparing two named rows the other way round gives the opposite order,
/// and two named rows compare equal exactly when their lowercased names
/// are the same.
pub proof fn lemma_name_order_antisymmetric(a: Seq<char>, b: Seq<char>)
    ensures
        name_order(Some(a), Some(b)) == NameOrder::Smaller <==> name_order(Some(b), Some(a))
            == NameOrder::Larger,
        name_order(Some(a), Some(b)) == NameOrder::Equal <==> lowercase(a) == lowercase(b),
{
    lemma_lex_less_asymmetric(lowercase(a), lowercase(b));
}

proof fn lemma_lex_less_transitive(a: Seq<char>, b: Seq<char>, c: Seq<char>)
    requires
        lex_less(a, b),
        lex_less(b, c),
    ensures
        lex_less(a, c),
    decreases a.len(),
{
    if a.len() > 0 && a[0] == b[0] && b[0] == c[0] {
        lemma_lex_less_transitive(a.drop_first(), b.drop_first(), c.drop_first());
    }
}

/// The grid's order is transitive: a row before a second row that is
/// before (or as high as) a third is before the third, and rows as high
/// as each other are ordered alike against every other named row.
pub proof fn lemma_name_order_transitive(
    a: Option<Seq<char>>,
    b: Option<Seq<char>>,
    c: Option<Seq<char>>,
)
    ensures
        name_order(a, b) == NameOrder::Smaller && name_order(b, c) == NameOrder::Smaller
            ==> name_order(a, c) == NameOrder::Smaller,
        name_order(a, b) == NameOrder::Smaller && name_order(b, c) == NameOrder::Equal
            ==> name_order(a, c) == NameOrder::Smaller,
        name_order(a, b) == NameOrder::Equal && name_order(b, c) == NameOrder::Smaller
            ==> name_order(a, c) == NameOrder::Smaller,
        name_order(a, b) == NameOrder::Equal && name_order(b, c) == NameOrder::Equal
            ==> name_order(a, c) == NameOrder::Equal,
{
    if a is Some && b is Some && c is Some {
        let x = lowercase(a.unwrap());
        let y = lowercase(b.unwrap());
        let z = lowercase(c.unwrap());
        if lex_less(x, y) && lex_less(y, z) {
            lemma_lex_less_transitive(x, y, z);
            lemma_lex_less_asymmetric(x, z);
        }
        lemma_lex_less_asymmetric(x, y);
        lemma_lex_less_asymmetric(y, z);
    }
}

/// The message the directory scan sends: a project file was found.
#[derive(Clone, Debug, PartialEq, Eq)]
pub enum Msg {
    AddProject { uproject_file: String },
}

/// An entry of a directory listing: its path and whether it is a file.
#[derive(Clone, Debug, PartialEq, Eq)]
pub struct DirEntry {
    pub path: String,
    pub is_file: bool,
}

/// Whether a directory entry is an Unreal project file: a file whose
/// extension is `uproject`.
pub open spec fn is_uproject_entry(path: Seq<char>, is_file: bool) -> bool {
    is_file && path_extension(path) == Some("uproject"@)
}

/// The properties of the projects page.
#[derive(Clone, Copy, Debug, PartialEq, Eq, Structural)]
pub enum ProjectsBoxProperty {
    Expanded,
    Selected,
}

impl ProjectsBoxProperty {
    /// The property's name.
    pub open spec fn spec_name(self) -> Seq<char> {
        match self {
            ProjectsBoxProperty::Expanded => "expanded"@,
            ProjectsBoxProperty::Selected => "selected"@,
        }
    }

    /// The property's name.
    pub fn name(&self) -> (res: &'static str)
        ensures
            res@ == self.spec_name(),
    {
        match self {
            ProjectsBoxProperty::Expanded => "expanded",
            ProjectsBoxProperty::Selected => "selected",
        }
    }

    /// The property that has the given name, if any.
    pub fn from_name(name: &str) -> (res: Option<ProjectsBoxProperty>)
        ensures
            match res {
                Some(p) => p.spec_name() == name@,
                None => forall|p: ProjectsBoxProperty| p.spec_name() != name@,
            },
    {
        if str_equal(name, "expanded") {
            Some(ProjectsBoxProperty::Expanded)
        } else if str_equal(name, "selected") {
            Some(ProjectsBoxProperty::Selected)
        } else {
            proof {
                assert forall|p: ProjectsBoxProperty| p.spec_name() != name@ by {
                    match p {
                        ProjectsBoxProperty::Expanded => {},
                        ProjectsBoxProperty::Selected => {},
                    }
                }
            }
            None
        }
    }
}

/// A value of a property of the projects page.
#[derive(Clone, Debug, PartialEq, Eq)]
pub enum ProjectsBoxValue {
    Expanded(bool),
    Selected(Option<String>),
}

/// A value of a property of the projects page, as text.
pub enum ProjectsBoxValueView {
    Expanded(bool),
    Selected(Option<Seq<char>>),
}

impl ProjectsBoxValue {
    /// The property the value is for.
    pub open spec fn spec_property(self) -> ProjectsBoxProperty {
        match self {
            ProjectsBoxValue::Expanded(_) => ProjectsBoxProperty::Expanded,
            ProjectsBoxValue::Selected(_) => ProjectsBoxProperty::Selected,
        }
    }

    /// The property the value is for.
    pub fn property(&self) -> (res: ProjectsBoxProperty)
        ensures
            res == self.spec_property(),
    {
        match self {
            ProjectsBoxValue::Expanded(_) => ProjectsBoxProperty::Expanded,
            ProjectsBoxValue::Selected(_) => ProjectsBoxProperty::Selected,
        }
    }

    /// The value, as text.
    pub open spec fn spec_view(self) -> ProjectsBoxValueView {
        match self {
            ProjectsBoxValue::Expanded(b) => ProjectsBoxValueView::Expanded(b),
            ProjectsBoxValue::Selected(s) => ProjectsBoxValueView::Selected(opt_chars(s)),
        }
    }
}

impl ProjectsBoxValueView {
    /// The property the value is for.
    pub open spec fn property(self) -> ProjectsBoxProperty {
        match self {
            ProjectsBoxValueView::Expanded(_) => ProjectsBoxProperty::Expanded,
            ProjectsBoxValueView::Selected(_) => ProjectsBoxProperty::Selected,
        }
    }
}

/// No two properties of the projects page share a name.
pub proof fn lemma_projects_box_property_names(p: ProjectsBoxProperty, q: ProjectsBoxProperty)
    ensures
        p.spec_name() == q.spec_name() ==> p == q,
{
    reveal_strlit("expanded");
    reveal_strlit("selected");
    if p != q && p.spec_name() == q.spec_name() {
        assert(p.spec_name()[0] != q.spec_name()[0]);
    }
}


/// The first entry of a directory listing that is an Unreal project file.
pub fn find_uproject(entries: &Vec<DirEntry>) -> (res: Option<usize>)
    ensures
        match res {
            Some(i) => i < entries@.len() && is_uproject_entry(
                entries@[i as int].path@,
                entries@[i as int].is_file,
            ) && forall|j: int|
                0 <= j < i ==> !is_uproject_entry(
                    #[trigger] entries@[j].path@,
                    entries@[j].is_file,
                ),
            None => forall|j: int|
                0 <= j < entries@.len() ==> !is_uproject_entry(
                    #[trigger] entries@[j].path@,
                    entries@[j].is_file,
                ),
        },
        forall|j: int|
            0 <= j < entries@.len() && (#[trigger] entries@[j]).is_file && path_extension(
                entries@[j].path@,
            ) == Some("uproject"@) ==> res is Some && res.unwrap() <= j,
        res matches Some(i) ==> entries@[i as int].is_file && path_extension(
            entries@[i as int].path@,
        ) == Some("uproject"@),
{
    let mut i: usize = 0;
    while i < entries.len()
        invariant
            i <= entries@.len(),
            forall|j: int|
                0 <= j < i ==> !is_uproject_entry(#[trigger] entries@[j].path@, entries@[j].is_file),
        decreases entries.len() - i,
    {
        let entry = &entries[i];
        if entry.is_file {
            match extension_of(entry.path.as_str()) {
                Some(ext) => {
                    if str_equal(ext.as_str(), "uproject") {
                        return Some(i);
                    }
                },
                None => {},
            }
        }
        i = i + 1;
    }
    None
}

/// What the directory scan does with an entry of a directory it walks.
#[derive(Clone, Debug, PartialEq, Eq)]
pub enum ScanAction {
    /// The entry is no directory: nothing.
    Skip,
    /// The entry is a directory holding this project file: report it.
    Report(Msg),
    /// The entry is a directory without a project file: walk into it.
    Descend,
}

/// The scan's decision for a directory entry: a directory that holds a
/// project file (the first one its listing shows) is reported, any other
/// directory is walked into, and anything else is skipped.
pub fn scan_entry(is_dir: bool, listing: &Vec<DirEntry>) -> (res: ScanAction)
    ensures
        !is_dir ==> res == ScanAction::Skip,
        is_dir ==> match res {
            ScanAction::Report(Msg::AddProject { uproject_file }) => exists|i: int|
                0 <= i < listing@.len() && is_uproject_entry(
                    #[trigger] listing@[i].path@,
                    listing@[i].is_file,
                ) && uproject_file@ == listing@[i].path@ && forall|j: int|
                    0 <= j < i ==> !is_uproject_entry(
                        #[trigger] listing@[j].path@,
                        listing@[j].is_file,
                    ),
            ScanAction::Descend => forall|j: int|
                0 <= j < listing@.len() ==> !is_uproject_entry(
                    #[trigger] listing@[j].path@,
                    listing@[j].is_file,
                ),
            ScanAction::Skip => false,
        },
        forall|j: int|
            is_dir && 0 <= j < listing@.len() && (#[trigger] listing@[j]).is_file
                && path_extension(listing@[j].path@) == Some("uproject"@) ==> res is Report,
{
    if !is_dir {
        return ScanAction::Skip;
    }
    match find_uproject(listing) {
        Some(i) => {
            let uproject_file = listing[i].path.clone();
            ScanAction::Report(Msg::AddProject { uproject_file })
        },
        None => ScanAction::Descend,
    }
}

/// A directory entry counts as a project file exactly when it is a file
/// whose extension is `uproject`, whatever its name and its directory.
pub proof fn lemma_uproject_entry_any_name(path: Seq<char>, is_file: bool)
    ensures
        is_file && path_extension(path) == Some("uproject"@) ==> is_uproject_entry(path, is_file),
        !is_file ==> !is_uproject_entry(path, is_file),
        path_extension(path) != Some("uproject"@) ==> !is_uproject_entry(path, is_file),
{
}

/// What a row of the projects page holds: the project's directory and
/// name as the page keys them, and the grid row's path and name.
pub struct ProjectRowView {
    pub directory: Seq<char>,
    pub name: Seq<char>,
    pub path: Option<Seq<char>>,
    pub title: Option<Seq<char>>,
}

/// The rows of `s` whose mark is set, in order.
pub open spec fn keep_marked<A>(s: Seq<A>, marks: Seq<bool>) -> Seq<A>
    decreases s.len(),
{
    if s.len() == 0 {
        Seq::empty()
    } else {
        let rest = keep_marked(s.drop_last(), marks.take(s.len() - 1));
        if marks[s.len() - 1] {
            rest.push(s.last())
        } else {
            rest
        }
    }
}

/// What the projects page holds.
pub struct ProjectsBoxView {
    pub rows: Seq<ProjectRowView>,
    pub expanded: bool,
    pub selected: Option<Seq<char>>,
    /// The descriptor (the `.uproject` file's text) of the picked project,
    /// where it could be read.
    pub selected_uproject: Option<Seq<char>>,
    /// The position in the grid of the project the details show, once one
    /// was picked.
    pub details_position: Option<u32>,
}

impl ProjectsBoxView {
    /// No two rows are for the same directory, and each row's path is a
    /// file in the row's directory.
    pub open spec fn well_formed(self) -> bool {
        &&& forall|i: int, j: int|
            0 <= i < j < self.rows.len() ==> #[trigger] self.rows[i].directory
                != #[trigger] self.rows[j].directory
        &&& forall|i: int|
            0 <= i < self.rows.len() ==> (#[trigger] self.rows[i]).path is Some && path_parent(
                self.rows[i].path.unwrap(),
            ) == Some(self.rows[i].directory)
    }

    /// Whether a row is for directory `d`.
    pub open spec fn has_directory(self, d: Seq<char>) -> bool {
        exists|i: int| 0 <= i < self.rows.len() && #[trigger] self.rows[i].directory == d
    }

    /// The project names by directory.
    pub open spec fn projects(self) -> Map<Seq<char>, Seq<char>> {
        Map::new(
            |d: Seq<char>| self.has_directory(d),
            |d: Seq<char>|
                self.rows[choose|i: int|
                    0 <= i < self.rows.len() && #[trigger] self.rows[i].directory == d].name,
        )
    }

    /// The page after the project file `file` was found: where a row is for
    /// the file's directory already, that row is given the file's name as
    /// the project's name and the grid is left as it is; otherwise a row for
    /// the file is added at the end. A file without a directory or a name
    /// changes nothing.
    pub open spec fn adding(self, file: Seq<char>) -> Self {
        match path_parent(file) {
            None => self,
            Some(d) => match path_file_stem(file) {
                None => self,
                Some(n) => if self.has_directory(d) {
                    let i = choose|i: int|
                        0 <= i < self.rows.len() && #[trigger] self.rows[i].directory == d;
                    Self { rows: self.rows.update(i, ProjectRowView { name: n, ..self.rows[i] }), ..self }
                } else {
                    Self {
                        rows: self.rows.push(
                            ProjectRowView { directory: d, name: n, path: Some(file), title: Some(n) },
                        ),
                        ..self
                    }
                },
            },
        }
    }

    /// The value of a property.
    pub open spec fn get(self, p: ProjectsBoxProperty) -> ProjectsBoxValueView {
        match p {
            ProjectsBoxProperty::Expanded => ProjectsBoxValueView::Expanded(self.expanded),
            ProjectsBoxProperty::Selected => ProjectsBoxValueView::Selected(self.selected),
        }
    }

    /// The page with the property of `v` set to `v`.
    pub open spec fn with(self, v: ProjectsBoxValueView) -> Self {
        match v {
            ProjectsBoxValueView::Expanded(b) => Self { expanded: b, ..self },
            ProjectsBoxValueView::Selected(s) => Self { selected: s, ..self },
        }
    }

    /// The page without its row at `i`.
    pub open spec fn removing(self, i: int) -> Self {
        Self { rows: self.rows.remove(i), ..self }
    }

    /// Which rows stay when `present` tells which paths exist: those with a
    /// path that exists.
    pub open spec fn kept_marks(self, present: Seq<bool>) -> Seq<bool> {
        Seq::new(self.rows.len(), |i: int| present[i] && self.rows[i].path is Some)
    }

    /// The page keeping only the rows whose path exists.
    pub open spec fn keeping(self, present: Seq<bool>) -> Self {
        Self { rows: keep_marked(self.rows, self.kept_marks(present)), ..self }
    }

    /// Whether a row that goes is the one the project details show.
    pub open spec fn drops_path(self, present: Seq<bool>, shown: Option<Seq<char>>) -> bool {
        exists|i: int|
            0 <= i < self.rows.len() && !self.kept_marks(present)[i] && #[trigger] self.rows[i].path
                is Some && shown == self.rows[i].path
    }
}

/// A row of the projects page.
struct ProjectRow {
    directory: String,
    name: String,
    data: ProjectData,
}

impl ProjectRow {
    spec fn row_view(self) -> ProjectRowView {
        ProjectRowView {
            directory: self.directory@,
            name: self.name@,
            path: opt_chars(self.data.path),
            title: opt_chars(self.data.name),
        }
    }

    fn duplicate(&self) -> (res: ProjectRow)
        ensures
            res.row_view() == self.row_view(),
    {
        ProjectRow {
            directory: self.directory.clone(),
            name: self.name.clone(),
            data: ProjectData { path: copy_opt(&self.data.path), name: copy_opt(&self.data.name) },
        }
    }
}

/// The projects page: the projects found, one row per project directory,
/// and which one is picked.
pub struct EpicProjectsBox {
    rows: Vec<ProjectRow>,
    expanded: bool,
    selected: Option<String>,
    selected_uproject: Option<String>,
    details_position: Option<u32>,
}

impl View for EpicProjectsBox {
    type V = ProjectsBoxView;

    closed spec fn view(&self) -> ProjectsBoxView {
        ProjectsBoxView {
            rows: self.rows@.map_values(|r: ProjectRow| r.row_view()),
            expanded: self.expanded,
            selected: opt_chars(self.selected),
            selected_uproject: opt_chars(self.selected_uproject),
            details_position: self.details_position,
        }
    }
}

impl EpicProjectsBox {
    #[verifier::type_invariant]
    spec fn rows_well_formed(self) -> bool {
        self@.well_formed()
    }

    /// A page with no projects, not expanded, nothing picked.
    pub fn new() -> (res: EpicProjectsBox)
        ensures
            res@.rows.len() == 0,
            !res@.expanded,
            res@.selected is None,
            res@.selected_uproject is None,
            res@.details_position is None,
            res@.well_formed(),
    {
        let res = EpicProjectsBox {
            rows: Vec::new(),
            expanded: false,
            selected: None,
            selected_uproject: None,
            details_position: None,
        };
        assert(res@.rows =~= Seq::<ProjectRowView>::empty());
        res
    }

    /// The grid rows: path and name of each project, in order.
    pub fn grid(&self) -> (res: Vec<ProjectData>)
        ensures
            res@.len() == self@.rows.len(),
            forall|i: int|
                0 <= i < res@.len() ==> (#[trigger] res@[i]).spec_view() == (
                    self@.rows[i].path,
                    self@.rows[i].title,
                ),
    {
        let mut res: Vec<ProjectData> = Vec::new();
        let mut i: usize = 0;
        while i < self.rows.len()
            invariant
                i <= self.rows@.len(),
                res@.len() == i,
                forall|j: int|
                    0 <= j < i ==> (#[trigger] res@[j]).spec_view() == (
                        self@.rows[j].path,
                        self@.rows[j].title,
                    ),
            decreases self.rows.len() - i,
        {
            let d = &self.rows[i].data;
            res.push(ProjectData { path: copy_opt(&d.path), name: copy_opt(&d.name) });
            i = i + 1;
        }
        res
    }

    /// The projects by directory: each row's directory and project name, in
    /// the order of the rows.
    pub fn projects(&self) -> (res: Vec<(String, String)>)
        ensures
            res@.len() == self@.rows.len(),
            forall|i: int|
                0 <= i < res@.len() ==> (#[trigger] res@[i]).0@ == self@.rows[i].directory
                    && res@[i].1@ == self@.rows[i].name,
    {
        let mut res: Vec<(String, String)> = Vec::new();
        let mut i: usize = 0;
        while i < self.rows.len()
            invariant
                i <= self.rows@.len(),
                res@.len() == i,
                forall|j: int|
                    0 <= j < i ==> (#[trigger] res@[j]).0@ == self@.rows[j].directory
                        && res@[j].1@ == self@.rows[j].name,
            decreases self.rows.len() - i,
        {
            let r = &self.rows[i];
            res.push((r.directory.clone(), r.name.clone()));
            i = i + 1;
        }
        res
    }

    /// Whether the page shows the details of a project.
    pub fn expanded(&self) -> (res: bool)
        ensures
            res == self@.expanded,
    {
        self.expanded
    }

    /// Sets whether the page shows the details of a project.
    pub fn set_expanded(&mut self, expanded: bool)
        ensures
            final(self)@ == (ProjectsBoxView { expanded, ..old(self)@ }),
    {
        proof {
            use_type_invariant(&*self);
        }
        self.expanded = expanded;
    }

    /// The path of the picked project.
    pub fn selected(&self) -> (res: Option<String>)
        ensures
            opt_chars(res) == self@.selected,
    {
        copy_opt(&self.selected)
    }

    /// Sets the path of the picked project.
    pub fn set_selected(&mut self, selected: Option<String>)
        ensures
            final(self)@ == (ProjectsBoxView { selected: opt_chars(selected), ..old(self)@ }),
    {
        proof {
            use_type_invariant(&*self);
        }
        self.selected = selected;
    }

    /// Sets the property that `value` is for.
    pub fn set_property(&mut self, value: ProjectsBoxValue)
        ensures
            final(self)@ == old(self)@.with(value.spec_view()),
    {
        proof {
            use_type_invariant(&*self);
        }
        match value {
            ProjectsBoxValue::Expanded(b) => {
                self.expanded = b;
            },
            ProjectsBoxValue::Selected(s) => {
                self.selected = s;
            },
        }
    }

    /// The value of a property.
    pub fn property(&self, property: ProjectsBoxProperty) -> (res: ProjectsBoxValue)
        ensures
            res.spec_view() == self@.get(property),
    {
        match property {
            ProjectsBoxProperty::Expanded => ProjectsBoxValue::Expanded(self.expanded),
            ProjectsBoxProperty::Selected => ProjectsBoxValue::Selected(copy_opt(&self.selected)),
        }
    }

    /// A project of the grid was picked at `position` of the grid, with
    /// `uproject` the text of its descriptor where that could be read: its
    /// path and descriptor become the picked ones, the details are at that
    /// position and the page shows them. Gives whether the details are to
    /// show the project, which they are where it has a descriptor.
    pub fn project_selected(
        &mut self,
        project: &ProjectData,
        uproject: Option<String>,
        position: u32,
    ) -> (show_project: bool)
        ensures
            show_project == (uproject is Some),
            final(self)@ == (ProjectsBoxView {
                selected: opt_chars(project.path),
                selected_uproject: opt_chars(uproject),
                details_position: Some(position),
                expanded: true,
                ..old(self)@
            }),
    {
        proof {
            use_type_invariant(&*self);
        }
        let show_project = uproject.is_some();
        self.details_position = Some(position);
        self.selected = copy_opt(&project.path);
        self.selected_uproject = uproject;
        self.expanded = true;
        show_project
    }

    /// The descriptor of the picked project.
    pub fn selected_uproject(&self) -> (res: Option<String>)
        ensures
            opt_chars(res) == self@.selected_uproject,
    {
        copy_opt(&self.selected_uproject)
    }

    /// The position in the grid of the project the details show.
    pub fn details_position(&self) -> (res: Option<u32>)
        ensures
            res == self@.details_position,
    {
        self.details_position
    }

    /// The index of the row for directory `d`, if any.
    fn directory_index(&self, d: &str) -> (res: Option<usize>)
        ensures
            match res {
                Some(i) => i < self@.rows.len() && self@.rows[i as int].directory == d@,
                None => !self@.has_directory(d@),
            },
    {
        let mut i: usize = 0;
        while i < self.rows.len()
            invariant
                i <= self.rows@.len(),
                forall|j: int| 0 <= j < i ==> #[trigger] self@.rows[j].directory != d@,
            decreases self.rows.len() - i,
        {
            if str_equal(self.rows[i].directory.as_str(), d) {
                return Some(i);
            }
            i = i + 1;
        }
        None
    }

    /// A project file was found: records the project under the file's
    /// directory, and adds a grid row for it where the directory had none.
    pub fn add_project(&mut self, uproject_file: &str)
        ensures
            final(self)@ == old(self)@.adding(uproject_file@),
            final(self)@.well_formed(),
    {
        proof {
            use_type_invariant(&*self);
        }
        let directory = match parent_of(uproject_file) {
            Some(d) => d,
            None => {
                return ;
            },
        };
        let name = match file_stem_of(uproject_file) {
            Some(n) => n,
            None => {
                return ;
            },
        };
        let ghost old_view = self@;
        match self.directory_index(directory.as_str()) {
            Some(i) => {
                proof {
                    assert forall|j: int| 0 <= j < old_view.rows.len() && #[trigger] old_view.rows[j].directory == directory@
                        implies j == i by {
                        if j != i {
                            if j < i {
                                assert(old_view.rows[j].directory != old_view.rows[i as int].directory);
                            } else {
                                assert(old_view.rows[i as int].directory != old_view.rows[j].directory);
                            }
                        }
                    }
                }
                let mut rows: Vec<ProjectRow> = Vec::new();
                std::mem::swap(&mut rows, &mut self.rows);
                rows[i].name = name;
                assert(rows@.map_values(|r: ProjectRow| r.row_view()) =~= old_view.adding(
                    uproject_file@,
                ).rows);
                std::mem::swap(&mut rows, &mut self.rows);
                assert(self@.rows =~= old_view.adding(uproject_file@).rows);
            },
            None => {
                let row = ProjectRow {
                    directory,
                    name: name.clone(),
                    data: ProjectData {
                        path: Some(uproject_file.to_owned()),
                        name: Some(name),
                    },
                };
                let mut rows: Vec<ProjectRow> = Vec::new();
                std::mem::swap(&mut rows, &mut self.rows);
                rows.push(row);
                assert(rows@.map_values(|r: ProjectRow| r.row_view()) =~= old_view.adding(
                    uproject_file@,
                ).rows);
                std::mem::swap(&mut rows, &mut self.rows);
                assert(self@.rows =~= old_view.adding(uproject_file@).rows);
            },
        }
    }

    /// Handles a message of the directory scan.
    pub fn update(&mut self, msg: Msg)
        ensures
            match msg {
                Msg::AddProject { uproject_file } => final(self)@ == old(self)@.adding(
                    uproject_file@,
                ),
            },
            final(self)@.well_formed(),
    {
        match msg {
            Msg::AddProject { uproject_file } => self.add_project(uproject_file.as_str()),
        }
    }

    /// Removes the row at `index`, with its directory; gives whether the
    /// project details, which show the project at `shown`, are to be
    /// collapsed because they show the removed project.
    pub fn remove_item(&mut self, index: usize, shown: &Option<String>) -> (collapse: bool)
        requires
            index < old(self)@.rows.len(),
        ensures
            final(self)@ == old(self)@.removing(index as int),
            final(self)@.well_formed(),
            collapse == (old(self)@.rows[index as int].path is Some && opt_chars(*shown)
                == old(self)@.rows[index as int].path),
    {
        proof {
            use_type_invariant(&*self);
        }
        let ghost old_view = self@;
        let collapse = match &self.rows[index].data.path {
            Some(p) => match shown {
                Some(s) => str_equal(s.as_str(), p.as_str()),
                None => false,
            },
            None => false,
        };
        let mut rows: Vec<ProjectRow> = Vec::new();
        std::mem::swap(&mut rows, &mut self.rows);
        rows.remove(index);
        assert(rows@.map_values(|r: ProjectRow| r.row_view()) =~= old_view.rows.remove(
            index as int,
        ));
        std::mem::swap(&mut rows, &mut self.rows);
        assert(self@.rows =~= old_view.rows.remove(index as int));
        collapse
    }

    /// Drops the rows whose project file is gone: `present` tells, row by
    /// row, whether the row's path exists. Gives whether the project
    /// details, which show the project at `shown`, are to be collapsed
    /// because they show a dropped project.
    pub fn remove_invalid(&mut self, present: &Vec<bool>, shown: &Option<String>) -> (collapse: bool)
        requires
            present@.len() == old(self)@.rows.len(),
        ensures
            final(self)@ == old(self)@.keeping(present@),
            final(self)@.well_formed(),
            collapse == old(self)@.drops_path(present@, opt_chars(*shown)),
    {
        proof {
            use_type_invariant(&*self);
        }
        let ghost old_view = self@;
        let ghost marks = old_view.kept_marks(present@);
        let mut kept: Vec<ProjectRow> = Vec::new();
        let mut collapse = false;
        let mut i: usize = 0;
        while i < self.rows.len()
            invariant
                i <= self.rows@.len(),
                present@.len() == self.rows@.len(),
                self@ == old_view,
                old_view.well_formed(),
                marks == old_view.kept_marks(present@),
                kept@.map_values(|r: ProjectRow| r.row_view()) == keep_marked(
                    old_view.rows.take(i as int),
                    marks.take(i as int),
                ),
                forall|t: int|
                    0 <= t < kept@.len() ==> exists|j: int|
                        0 <= j < i && marks[j] && (#[trigger] kept@[t]).row_view() == old_view.rows[j],
                forall|t: int, u: int|
                    0 <= t < u < kept@.len() ==> (#[trigger] kept@[t]).row_view().directory
                        != (#[trigger] kept@[u]).row_view().directory,
                forall|t: int|
                    0 <= t < kept@.len() ==> (#[trigger] kept@[t]).row_view().path is Some && path_parent(
                        kept@[t].row_view().path.unwrap(),
                    ) == Some(kept@[t].row_view().directory),
                collapse == exists|j: int|
                    0 <= j < i && !marks[j] && #[trigger] old_view.rows[j].path is Some
                        && opt_chars(*shown) == old_view.rows[j].path,
            decreases self.rows.len() - i,
        {
            let row = &self.rows[i];
            let ghost before = kept@.map_values(|r: ProjectRow| r.row_view());
            assert(old_view.rows.take(i + 1).drop_last() =~= old_view.rows.take(i as int));
            assert(marks.take(i + 1).take(i as int) =~= marks.take(i as int));
            assert(row.row_view() == old_view.rows[i as int]);
            match &row.data.path {
                Some(p) => {
                    if present[i] {
                        let copy = row.duplicate();
                        proof {
                            assert forall|t: int| 0 <= t < kept@.len() implies (#[trigger] kept@[t]).row_view().directory
                                != copy.row_view().directory by {
                                let j = choose|j: int|
                                    0 <= j < i && marks[j] && kept@[t].row_view() == old_view.rows[j];
                                assert(old_view.rows[j].directory != old_view.rows[i as int].directory);
                            }
                        }
                        let ghost kept_before = kept@;
                        kept.push(copy);
                        assert(kept@.map_values(|r: ProjectRow| r.row_view()) =~= before.push(
                            old_view.rows[i as int],
                        ));
                        proof {
                            assert forall|t: int| 0 <= t < kept@.len() implies exists|j: int|
                                0 <= j < i + 1 && marks[j] && (#[trigger] kept@[t]).row_view()
                                    == old_view.rows[j] by {
                                if t < kept_before.len() {
                                    assert(kept@[t] == kept_before[t]);
                                    let j = choose|j: int|
                                        0 <= j < i && marks[j] && (#[trigger] kept_before[t]).row_view()
                                            == old_view.rows[j];
                                    assert(marks[j] && kept@[t].row_view() == old_view.rows[j]);
                                } else {
                                    assert(marks[i as int] && kept@[t].row_view() == old_view.rows[i as int]);
                                }
                            }
                        }
                    } else {
                        let hit = match shown {
                            Some(s) => str_equal(s.as_str(), p.as_str()),
                            None => false,
                        };
                        if hit {
                            collapse = true;
                        }
                    }
                },
                None => {},
            }
            i = i + 1;
        }
        assert(old_view.rows.take(self.rows@.len() as int) =~= old_view.rows);
        assert(marks.take(self.rows@.len() as int) =~= marks);
        self.rows = kept;
        collapse
    }

    /// Whether the page may rescan the disk: only when no scan is queued or
    /// running.
    pub fn can_be_refreshed(queued: usize, active: usize) -> (res: bool)
        ensures
            res == (queued + active == 0),
    {
        queued == 0 && active == 0
    }
}

/// What a write of a property gives back on a read: the value written, and
/// the other property as it was.
pub proof fn lemma_projects_box_read_after_write(
    v: ProjectsBoxView,
    value: ProjectsBoxValueView,
    q: ProjectsBoxProperty,
)
    ensures
        v.with(value).get(value.property()) == value,
        q != value.property() ==> v.with(value).get(q) == v.get(q),
        v.with(value).rows == v.rows,
{
}

/// Finding the same project file twice is the same as finding it once.
pub proof fn lemma_adding_twice(v: ProjectsBoxView, file: Seq<char>)
    requires
        v.well_formed(),
    ensures
        v.adding(file).adding(file) == v.adding(file),
{
    match path_parent(file) {
        None => {},
        Some(d) => match path_file_stem(file) {
            None => {},
            Some(n) => {
                let a = v.adding(file);
                if v.has_directory(d) {
                    let i = choose|i: int| 0 <= i < v.rows.len() && #[trigger] v.rows[i].directory == d;
                    assert(a.rows[i].directory == d);
                    assert(a.has_directory(d));
                    let k = choose|k: int| 0 <= k < a.rows.len() && #[trigger] a.rows[k].directory == d;
                    if k != i {
                        assert(a.rows[k] == v.rows[k]);
                        if k < i {
                            assert(v.rows[k].directory != v.rows[i].directory);
                        } else {
                            assert(v.rows[i].directory != v.rows[k].directory);
                        }
                    }
                    assert(a.adding(file).rows =~= a.rows);
                } else {
                    let last = v.rows.len() as int;
                    assert(a.rows[last].directory == d);
                    assert(a.has_directory(d));
                    let k = choose|k: int| 0 <= k < a.rows.len() && #[trigger] a.rows[k].directory == d;
                    if k != last {
                        assert(a.rows[k] == v.rows[k]);
                    }
                    assert(a.adding(file).rows =~= a.rows);
                }
            },
        },
    }
}

/// Removing the row at `i` drops that row and keeps every other row in
/// its order: the rows before it stay where they are and the rows after
/// it move up by one; nothing else of the page changes.
pub proof fn lemma_removing_keeps_order(v: ProjectsBoxView, i: int)
    requires
        0 <= i < v.rows.len(),
    ensures
        v.removing(i).rows.len() == v.rows.len() - 1,
        forall|j: int| 0 <= j < i ==> #[trigger] v.removing(i).rows[j] == v.rows[j],
        forall|j: int| i <= j < v.rows.len() - 1 ==> #[trigger] v.removing(i).rows[j] == v.rows[j + 1],
        v.removing(i).expanded == v.expanded,
        v.removing(i).selected == v.selected,
        v.removing(i).selected_uproject == v.selected_uproject,
        v.removing(i).details_position == v.details_position,
{
}

/// Finding a project file in a directory that has a row already only
/// renames that row's project to the file's stem: the row's directory,
/// path and title, every other row, and the rest of the page stay as they
/// were.
pub proof fn lemma_adding_known_directory(v: ProjectsBoxView, file: Seq<char>, k: int)
    requires
        v.well_formed(),
        0 <= k < v.rows.len(),
        path_parent(file) == Some(v.rows[k].directory),
        path_file_stem(file) is Some,
    ensures
        v.adding(file).rows.len() == v.rows.len(),
        v.adding(file).rows[k].name == path_file_stem(file).unwrap(),
        v.adding(file).rows[k].directory == v.rows[k].directory,
        v.adding(file).rows[k].path == v.rows[k].path,
        v.adding(file).rows[k].title == v.rows[k].title,
        forall|j: int| 0 <= j < v.rows.len() && j != k ==> #[trigger] v.adding(file).rows[j] == v.rows[j],
        v.adding(file).expanded == v.expanded,
        v.adding(file).selected == v.selected,
{
    let d = v.rows[k].directory;
    assert(v.rows[k].directory == d);
    assert(v.has_directory(d));
    let i = choose|i: int| 0 <= i < v.rows.len() && #[trigger] v.rows[i].directory == d;
    if i != k {
        if i < k {
            assert(v.rows[i].directory != v.rows[k].directory);
        } else {
            assert(v.rows[k].directory != v.rows[i].directory);
        }
    }
}

/// Finding a project file in a directory that has no row yet adds one row
/// at the end, for that file, named by the file's stem; the other rows
/// stay as they were.
pub proof fn lemma_adding_new_directory(v: ProjectsBoxView, file: Seq<char>)
    requires
        path_parent(file) is Some,
        path_file_stem(file) is Some,
        forall|j: int| 0 <= j < v.rows.len() ==> #[trigger] v.rows[j].directory != path_parent(file).unwrap(),
    ensures
        v.adding(file).rows.len() == v.rows.len() + 1,
        forall|j: int| 0 <= j < v.rows.len() ==> #[trigger] v.adding(file).rows[j] == v.rows[j],
        v.adding(file).rows[v.rows.len() as int].path == Some(file),
        v.adding(file).rows[v.rows.len() as int].directory == path_parent(file).unwrap(),
        v.adding(file).rows[v.rows.len() as int].name == path_file_stem(file).unwrap(),
        v.adding(file).rows[v.rows.len() as int].title == Some(path_file_stem(file).unwrap()),
{
}

/// How many marks of a list are set.
pub open spec fn count_marked(marks: Seq<bool>) -> nat
    decreases marks.len(),
{
    if marks.len() == 0 {
        0
    } else {
        count_marked(marks.drop_last()) + if marks.last() {
            1nat
        } else {
            0nat
        }
    }
}

proof fn lemma_count_take_lt(m: Seq<bool>, j: int)
    requires
        0 <= j < m.len(),
        m[j],
    ensures
        count_marked(m.take(j)) < count_marked(m),
    decreases m.len(),
{
    let n = m.len() - 1;
    if j == n {
        assert(m.drop_last() =~= m.take(j));
    } else {
        assert(m.drop_last().take(j) =~= m.take(j));
        lemma_count_take_lt(m.drop_last(), j);
    }
}

proof fn lemma_keep_marked_index<A>(s: Seq<A>, marks: Seq<bool>)
    requires
        marks.len() == s.len(),
    ensures
        keep_marked(s, marks).len() == count_marked(marks),
        forall|j: int|
            0 <= j < s.len() && marks[j] ==> keep_marked(s, marks)[count_marked(marks.take(j)) as int]
                == #[trigger] s[j],
    decreases s.len(),
{
    if s.len() > 0 {
        let n = s.len() - 1;
        let init = s.drop_last();
        let im = marks.take(n);
        assert(im =~= marks.drop_last());
        lemma_keep_marked_index(init, im);
        let r = keep_marked(init, im);
        let k = keep_marked(s, marks);
        assert forall|j: int| 0 <= j < s.len() && marks[j] implies k[count_marked(
            marks.take(j),
        ) as int] == #[trigger] s[j] by {
            if j < n {
                assert(marks.take(j) =~= im.take(j));
                assert(im[j] == marks[j]);
                lemma_count_take_lt(im, j);
                assert(init[j] == s[j]);
            } else {
                assert(marks.take(j) =~= im);
            }
        }
    } else {
        assert(marks =~= Seq::<bool>::empty());
    }
}

/// Whether `r` stands at position `t` of `rows`.
pub open spec fn row_at(rows: Seq<ProjectRowView>, t: int, r: ProjectRowView) -> bool {
    0 <= t < rows.len() && rows[t] == r
}

/// Dropping the rows whose project file is gone keeps every row whose path
/// exists, and keeps them in their order.
pub proof fn lemma_keeping_keeps_present_rows(v: ProjectsBoxView, present: Seq<bool>)
    requires
        present.len() == v.rows.len(),
    ensures
        forall|j: int|
            0 <= j < v.rows.len() && present[j] && (#[trigger] v.rows[j]).path is Some
                ==> exists|t: int| #[trigger] row_at(v.keeping(present).rows, t, v.rows[j]),
        forall|j: int, k: int|
            0 <= j < k < v.rows.len() && present[j] && (#[trigger] v.rows[j]).path is Some
                && present[k] && (#[trigger] v.rows[k]).path is Some ==> exists|t: int, u: int|
                t < u && #[trigger] row_at(v.keeping(present).rows, t, v.rows[j])
                    && #[trigger] row_at(v.keeping(present).rows, u, v.rows[k]),
{
    let marks = v.kept_marks(present);
    let kept = v.keeping(present).rows;
    lemma_keep_marked_index(v.rows, marks);
    assert forall|j: int|
        0 <= j < v.rows.len() && present[j] && (#[trigger] v.rows[j]).path is Some implies exists|t: int|
        #[trigger] row_at(kept, t, v.rows[j]) by {
        assert(marks[j]);
        lemma_count_take_lt(marks, j);
        assert(row_at(kept, count_marked(marks.take(j)) as int, v.rows[j]));
    }
    assert forall|j: int, k: int|
        0 <= j < k < v.rows.len() && present[j] && (#[trigger] v.rows[j]).path is Some && present[k]
            && (#[trigger] v.rows[k]).path is Some implies exists|t: int, u: int|
        t < u && #[trigger] row_at(kept, t, v.rows[j]) && #[trigger] row_at(kept, u, v.rows[k]) by {
        assert(marks[j] && marks[k]);
        lemma_count_take_lt(marks, k);
        let mk = marks.take(k);
        assert(mk[j]);
        lemma_count_take_lt(mk, j);
        assert(mk.take(j) =~= marks.take(j));
        let t = count_marked(marks.take(j)) as int;
        let u = count_marked(marks.take(k)) as int;
        assert(row_at(kept, t, v.rows[j]));
        assert(row_at(kept, u, v.rows[k]));
    }
}

/// Removing the row that finding a new project added gives the page back
/// as it was.
pub proof fn lemma_add_then_remove(v: ProjectsBoxView, file: Seq<char>)
    requires
        path_parent(file) is Some,
        path_file_stem(file) is Some,
        !v.has_directory(path_parent(file).unwrap()),
    ensures
        v.adding(file).rows.len() == v.rows.len() + 1,
        v.adding(file).removing(v.rows.len() as int) == v,
{
    assert(v.adding(file).removing(v.rows.len() as int).rows =~= v.rows);
}

/// Whether `x` is a row of `v` whose path exists.
pub open spec fn is_present_row(v: ProjectsBoxView, present: Seq<bool>, x: ProjectRowView) -> bool {
    exists|j: int|
        0 <= j < v.rows.len() && present[j] && v.rows[j].path is Some && x == #[trigger] v.rows[j]
}

/// After dropping the rows whose project file is gone, every row left is
/// a row of the page before whose path exists.
pub proof fn lemma_keeping_only_present(v: ProjectsBoxView, present: Seq<bool>)
    requires
        present.len() == v.rows.len(),
    ensures
        forall|t: int|
            0 <= t < v.keeping(present).rows.len() ==> is_present_row(
                v,
                present,
                #[trigger] v.keeping(present).rows[t],
            ),
{
    let marks = v.kept_marks(present);
    let p = |x: ProjectRowView| is_present_row(v, present, x);
    assert forall|j: int| 0 <= j < v.rows.len() && marks[j] implies #[trigger] p(v.rows[j]) by {
        assert(present[j] && v.rows[j].path is Some && v.rows[j] == v.rows[j]);
    }
    lemma_keep_marked_keeps(v.rows, marks, p);
}

proof fn lemma_keep_marked_keeps<A>(s: Seq<A>, marks: Seq<bool>, p: spec_fn(A) -> bool)
    requires
        marks.len() == s.len(),
        forall|j: int| 0 <= j < s.len() && marks[j] ==> #[trigger] p(s[j]),
    ensures
        forall|t: int| 0 <= t < keep_marked(s, marks).len() ==> p(#[trigger] keep_marked(s, marks)[t]),
    decreases s.len(),
{
    if s.len() > 0 {
        let n = s.len() - 1;
        let init = s.drop_last();
        let im = marks.take(n);
        assert forall|j: int| 0 <= j < init.len() && im[j] implies #[trigger] p(init[j]) by {
            assert(init[j] == s[j]);
            assert(im[j] == marks[j]);
        }
        lemma_keep_marked_keeps(init, im, p);
        let r = keep_marked(init, im);
        assert forall|t: int| 0 <= t < keep_marked(s, marks).len() implies p(
            #[trigger] keep_marked(s, marks)[t],
        ) by {
            if t < r.len() {
                assert(keep_marked(s, marks)[t] == r[t]);
            } else {
                assert(keep_marked(s, marks)[t] == s[n]);
            }
        }
    }
}

} // verus!
