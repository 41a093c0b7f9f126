//! The releases of a catalog asset: the part of the asset's catalog
//! metadata that the download details read.
use vstd::prelude::*;
use crate::text::{opt_chars, str_equal};

verus! {

broadcast use vstd::seq::group_seq_axioms;

/// The day that an instant falls on in UTC, written `YYYY-MM-DD`, as the
/// `chrono` crate formats it with `%F`; `None` where chrono has no date for
/// the instant (seconds since the Unix epoch and nanoseconds within that
/// second).
pub uninterp spec fn utc_day(seconds: i64, nanos: u32) -> Option<Seq<char>>;

/// `chrono::DateTime::<Utc>::from_timestamp`, then the naive UTC date and
/// time formatted with `%F`: the crate gives no date for an instant out of
/// its range or for nanoseconds that are no valid part of the second, and
/// otherwise the day as text. The contract names the text `utc_day`.
#[verifier::external_body]
pub fn format_utc_day(seconds: i64, nanos: u32) -> (res: Option<String>)
    ensures
        opt_chars(res) == utc_day(seconds, nanos),
{
    match chrono::DateTime::from_timestamp(seconds, nanos) {
        Some(date) => Some(date.naive_utc().format("%F").to_string()),
        None => None,
    }
}

/// When a release was added: seconds since the Unix epoch and nanoseconds
/// within that second, an instant that has a day.
#[derive(Debug, PartialEq, Eq)]
pub struct ReleaseDate {
    seconds: i64,
    nanos: u32,
}

impl View for ReleaseDate {
    type V = (i64, u32);

    closed spec fn view(&self) -> (i64, u32) {
        (self.seconds, self.nanos)
    }
}

/// The day of a release date, written `YYYY-MM-DD`.
pub open spec fn day_text(d: ReleaseDate) -> Seq<char> {
    utc_day(d@.0, d@.1).unwrap()
}

impl ReleaseDate {
    #[verifier::type_invariant]
    spec fn has_day(self) -> bool {
        utc_day(self.seconds, self.nanos) is Some
    }

    /// The date of an instant, where the instant has a day.
    pub fn new(seconds: i64, nanos: u32) -> (res: Option<ReleaseDate>)
        ensures
            res is Some <==> utc_day(seconds, nanos) is Some,
            res matches Some(d) ==> d@ == (seconds, nanos),
    {
        match format_utc_day(seconds, nanos) {
            Some(_) => Some(ReleaseDate { seconds, nanos }),
            None => None,
        }
    }

    /// Seconds since the Unix epoch.
    pub fn seconds(&self) -> (res: i64)
        ensures
            res == self@.0,
    {
        self.seconds
    }

    /// Nanoseconds within the second.
    pub fn nanos(&self) -> (res: u32)
        ensures
            res == self@.1,
    {
        self.nanos
    }

    /// The day of the date in UTC, written `YYYY-MM-DD`.
    pub fn day(&self) -> (res: String)
        ensures
            res@ == day_text(*self),
            utc_day(self@.0, self@.1) == Some(res@),
    {
        proof {
            use_type_invariant(self);
        }
        match format_utc_day(self.seconds, self.nanos) {
            Some(text) => text,
            None => {
                proof {
                    assert(false);
                }
                String::new()
            },
        }
    }
}

impl Clone for ReleaseDate {
    fn clone(&self) -> (res: ReleaseDate)
        ensures
            res@ == self@,
    {
        proof {
            use_type_invariant(self);
        }
        ReleaseDate { seconds: self.seconds, nanos: self.nanos }
    }
}

/// One release of an asset.
#[derive(Clone, Debug, PartialEq, Eq)]
pub struct ReleaseInfo {
    pub id: Option<String>,
    pub app_id: Option<String>,
    pub compatible_apps: Option<Vec<String>>,
    pub platform: Option<Vec<String>>,
    pub date_added: Option<ReleaseDate>,
    pub release_note: Option<String>,
    pub version_title: Option<String>,
}

/// The releases of an asset, in the order the catalog lists them.
#[derive(Clone, Debug, PartialEq, Eq)]
pub struct AssetInfo {
    pub release_info: Option<Vec<ReleaseInfo>>,
}

/// Whether release date `a` is not later than `b`; a release without a
/// date comes before every dated one.
pub open spec fn date_le(a: Option<ReleaseDate>, b: Option<ReleaseDate>) -> bool {
    match a {
        None => true,
        Some(x) => match b {
            None => false,
            Some(y) => x@.0 < y@.0 || (x@.0 == y@.0 && x@.1 <= y@.1),
        },
    }
}

/// `r` placed in front of the first release of `sorted` that is not newer
/// than it.
pub open spec fn insert_newest(sorted: Seq<ReleaseInfo>, r: ReleaseInfo) -> Seq<ReleaseInfo>
    decreases sorted.len(),
{
    if sorted.len() == 0 {
        seq![r]
    } else if date_le(sorted[0].date_added, r.date_added) {
        seq![r] + sorted
    } else {
        seq![sorted[0]] + insert_newest(sorted.drop_first(), r)
    }
}

/// The releases newest first; of releases added at the same instant the
/// one listed later comes first. This is what sorting the list by date,
/// oldest first and keeping the listed order among equal dates, and then
/// reversing it gives.
pub open spec fn newest_first(releases: Seq<ReleaseInfo>) -> Seq<ReleaseInfo>
    decreases releases.len(),
{
    if releases.len() == 0 {
        Seq::empty()
    } else {
        insert_newest(newest_first(releases.drop_last()), releases.last())
    }
}

/// The id of a release, empty where it has none.
pub open spec fn id_text(r: ReleaseInfo) -> Seq<char> {
    match r.id {
        Some(s) => s@,
        None => Seq::empty(),
    }
}

/// The first listed release whose id (empty where it has none) is `id`.
pub open spec fn find_release(releases: Seq<ReleaseInfo>, id: Seq<char>) -> Option<ReleaseInfo>
    decreases releases.len(),
{
    if releases.len() == 0 {
        None
    } else if id_text(releases[0]) == id {
        Some(releases[0])
    } else {
        find_release(releases.drop_first(), id)
    }
}

/// The releases that a list of references points to.
pub open spec fn deref_all(refs: Seq<&ReleaseInfo>) -> Seq<ReleaseInfo> {
    refs.map_values(|r: &ReleaseInfo| *r)
}

/// Whether release date `a` is not later than `b`.
pub fn date_not_later(a: &Option<ReleaseDate>, b: &Option<ReleaseDate>) -> (res: bool)
    ensures
        res == date_le(*a, *b),
{
    match a {
        None => true,
        Some(x) => match b {
            None => false,
            Some(y) => x.seconds < y.seconds || (x.seconds == y.seconds && x.nanos <= y.nanos),
        },
    }
}

proof fn lemma_insert_at(sorted: Seq<ReleaseInfo>, r: ReleaseInfo, k: int)
    requires
        0 <= k <= sorted.len(),
        forall|j: int| 0 <= j < k ==> !date_le(#[trigger] sorted[j].date_added, r.date_added),
        k < sorted.len() ==> date_le(sorted[k].date_added, r.date_added),
    ensures
        insert_newest(sorted, r) == sorted.insert(k, r),
    decreases k,
{
    if k == 0 {
        assert(sorted.insert(0, r) =~= seq![r] + sorted);
    } else {
        let tail = sorted.drop_first();
        assert forall|j: int| 0 <= j < k - 1 implies !date_le(
            #[trigger] tail[j].date_added,
            r.date_added,
        ) by {
            assert(tail[j] == sorted[j + 1]);
        }
        lemma_insert_at(tail, r, k - 1);
        assert(sorted.insert(k, r) =~= seq![sorted[0]] + tail.insert(k - 1, r));
    }
}

impl AssetInfo {
    /// The releases newest first (see `newest_first`), or `None` where the
    /// asset has no release list.
    ///
    /// This is the order that the Epic catalog client (`egs_api`) gives in
    /// `AssetInfo::sorted_releases`: a stable sort by date, then reversed.
    /// That function takes the client's own asset type, whose dates are
    /// `chrono` values, and hands back clones of its own release type; the
    /// releases here carry plain fields and their dates as integers, so the
    /// order is written out over them and proved against `newest_first`, a
    /// statement of a few lines.
    pub fn sorted_releases(&self) -> (res: Option<Vec<&ReleaseInfo>>)
        ensures
            match self.release_info {
                None => res is None,
                Some(v) => res matches Some(s) && deref_all(s@) == newest_first(v@),
            },
    {
        match &self.release_info {
            None => None,
            Some(releases) => {
                let mut out: Vec<&ReleaseInfo> = Vec::new();
                let mut i: usize = 0;
                while i < releases.len()
                    invariant
                        i <= releases.len(),
                        deref_all(out@) == newest_first(releases@.take(i as int)),
                    decreases releases.len() - i,
                {
                    let r = &releases[i];
                    let mut k: usize = 0;
                    while k < out.len() && !date_not_later(&out[k].date_added, &r.date_added)
                        invariant
                            k <= out.len(),
                            forall|j: int|
                                0 <= j < k ==> !date_le(
                                    #[trigger] deref_all(out@)[j].date_added,
                                    r.date_added,
                                ),
                        decreases out.len() - k,
                    {
                        k = k + 1;
                    }
                    let ghost before = out@;
                    proof {
                        lemma_insert_at(deref_all(before), *r, k as int);
                        assert(releases@.take(i + 1).drop_last() =~= releases@.take(i as int));
                    }
                    out.insert(k, r);
                    assert(deref_all(out@) =~= deref_all(before).insert(k as int, *r));
                    i = i + 1;
                }
                assert(releases@.take(releases.len() as int) =~= releases@);
                Some(out)
            },
        }
    }

    /// The first listed release whose id is `id` (a release without an id
    /// counting as having the empty id), or `None`.
    pub fn release_info(&self, id: &str) -> (res: Option<&ReleaseInfo>)
        ensures
            match self.release_info {
                None => res is None,
                Some(v) => match res {
                    Some(r) => find_release(v@, id@) == Some(*r),
                    None => find_release(v@, id@) is None,
                },
            },
    {
        match &self.release_info {
            None => None,
            Some(releases) => {
                let mut i: usize = 0;
                assert(releases@.skip(0) =~= releases@);
                while i < releases.len()
                    invariant
                        i <= releases.len(),
                        self.release_info == Some(*releases),
                        find_release(releases@, id@) == find_release(
                            releases@.skip(i as int),
                            id@,
                        ),
                    decreases releases.len() - i,
                {
                    let r = &releases[i];
                    let matches = match &r.id {
                        Some(s) => str_equal(s.as_str(), id),
                        None => {
                            let e = id.is_empty();
                            assert(e == (Seq::<char>::empty() == id@)) by {
                                if id@.len() == 0 {
                                    assert(id@ =~= Seq::<char>::empty());
                                }
                            }
                            e
                        },
                    };
                    assert(releases@.skip(i as int)[0] == releases@[i as int]);
                    assert(matches == (id_text(*r) == id@));
                    if matches {
                        assert(find_release(releases@.skip(i as int), id@) == Some(*r));
                        return Some(r);
                    }
                    assert(releases@.skip(i as int).drop_first() =~= releases@.skip(i + 1));
                    i = i + 1;
                }
                None
            },
        }
    }
}

/// `date_le` orders all dates: any two are comparable, and it is transitive.
pub proof fn lemma_date_le_total_order(
    a: Option<ReleaseDate>,
    b: Option<ReleaseDate>,
    c: Option<ReleaseDate>,
)
    ensures
        date_le(a, a),
        date_le(a, b) || date_le(b, a),
        date_le(a, b) && date_le(b, c) ==> date_le(a, c),
{
}

/// Whether no release of `s` is newer than `bound`.
pub open spec fn none_newer(s: Seq<ReleaseInfo>, bound: Option<ReleaseDate>) -> bool {
    forall|j: int| 0 <= j < s.len() ==> date_le(#[trigger] s[j].date_added, bound)
}

/// Whether `s` lists releases newest first.
pub open spec fn is_newest_first(s: Seq<ReleaseInfo>) -> bool {
    forall|i: int, j: int|
        0 <= i < j < s.len() ==> date_le(#[trigger] s[j].date_added, #[trigger] s[i].date_added)
}

proof fn lemma_insert_newest_bound(s: Seq<ReleaseInfo>, r: ReleaseInfo, bound: Option<ReleaseDate>)
    requires
        none_newer(s, bound),
        date_le(r.date_added, bound),
    ensures
        none_newer(insert_newest(s, r), bound),
    decreases s.len(),
{
    if s.len() > 0 && !date_le(s[0].date_added, r.date_added) {
        let tail = s.drop_first();
        assert(none_newer(tail, bound)) by {
            assert forall|j: int| 0 <= j < tail.len() implies date_le(
                #[trigger] tail[j].date_added,
                bound,
            ) by {
                assert(tail[j] == s[j + 1]);
            }
        }
        lemma_insert_newest_bound(tail, r, bound);
        let res = insert_newest(s, r);
        assert forall|j: int| 0 <= j < res.len() implies date_le(
            #[trigger] res[j].date_added,
            bound,
        ) by {
            if j > 0 {
                assert(res[j] == insert_newest(tail, r)[j - 1]);
            }
        }
    } else if s.len() > 0 {
        let res = insert_newest(s, r);
        assert forall|j: int| 0 <= j < res.len() implies date_le(
            #[trigger] res[j].date_added,
            bound,
        ) by {
            if j > 0 {
                assert(res[j] == s[j - 1]);
            }
        }
    }
}

proof fn lemma_insert_newest_sorted(s: Seq<ReleaseInfo>, r: ReleaseInfo)
    requires
        is_newest_first(s),
    ensures
        is_newest_first(insert_newest(s, r)),
        insert_newest(s, r).len() == s.len() + 1,
    decreases s.len(),
{
    let res = insert_newest(s, r);
    if s.len() == 0 {
    } else if date_le(s[0].date_added, r.date_added) {
        assert forall|i: int, j: int| 0 <= i < j < res.len() implies date_le(
            #[trigger] res[j].date_added,
            #[trigger] res[i].date_added,
        ) by {
            assert(res[j] == s[j - 1]);
            if i > 0 {
                assert(res[i] == s[i - 1]);
            } else {
                lemma_date_le_total_order(s[j - 1].date_added, s[0].date_added, r.date_added);
            }
        }
    } else {
        let tail = s.drop_first();
        assert(is_newest_first(tail)) by {
            assert forall|i: int, j: int| 0 <= i < j < tail.len() implies date_le(
                #[trigger] tail[j].date_added,
                #[trigger] tail[i].date_added,
            ) by {
                assert(tail[i] == s[i + 1]);
                assert(tail[j] == s[j + 1]);
            }
        }
        lemma_insert_newest_sorted(tail, r);
        let t = insert_newest(tail, r);
        assert(none_newer(tail, s[0].date_added)) by {
            assert forall|j: int| 0 <= j < tail.len() implies date_le(
                #[trigger] tail[j].date_added,
                s[0].date_added,
            ) by {
                assert(tail[j] == s[j + 1]);
            }
        }
        lemma_date_le_total_order(s[0].date_added, r.date_added, r.date_added);
        lemma_insert_newest_bound(tail, r, s[0].date_added);
        assert forall|i: int, j: int| 0 <= i < j < res.len() implies date_le(
            #[trigger] res[j].date_added,
            #[trigger] res[i].date_added,
        ) by {
            assert(res[j] == t[j - 1]);
            if i > 0 {
                assert(res[i] == t[i - 1]);
            }
        }
    }
}

/// `sorted_releases` lists the releases newest first, and lists each of
/// them once: the list is as long as the asset's, and no release in it is
/// newer than one before it.
pub proof fn lemma_newest_first_sorted(releases: Seq<ReleaseInfo>)
    ensures
        is_newest_first(newest_first(releases)),
        newest_first(releases).len() == releases.len(),
    decreases releases.len(),
{
    if releases.len() > 0 {
        lemma_newest_first_sorted(releases.drop_last());
        lemma_insert_newest_sorted(newest_first(releases.drop_last()), releases.last());
    }
}


proof fn lemma_insert_newest_contains(s: Seq<ReleaseInfo>, r: ReleaseInfo)
    ensures
        insert_newest(s, r).contains(r),
        forall|j: int| 0 <= j < s.len() ==> insert_newest(s, r).contains(#[trigger] s[j]),
    decreases s.len(),
{
    let res = insert_newest(s, r);
    if s.len() == 0 {
        assert(res[0] == r);
    } else if date_le(s[0].date_added, r.date_added) {
        assert(res[0] == r);
        assert forall|j: int| 0 <= j < s.len() implies res.contains(#[trigger] s[j]) by {
            assert(res[j + 1] == s[j]);
        }
    } else {
        let tail = s.drop_first();
        lemma_insert_newest_contains(tail, r);
        let t = insert_newest(tail, r);
        assert(res == seq![s[0]] + t);
        let k = choose|k: int| 0 <= k < t.len() && t[k] == r;
        assert(res[k + 1] == r);
        assert forall|j: int| 0 <= j < s.len() implies res.contains(#[trigger] s[j]) by {
            if j == 0 {
                assert(res[0] == s[0]);
            } else {
                assert(tail[j - 1] == s[j]);
                let m = choose|m: int| 0 <= m < t.len() && t[m] == tail[j - 1];
                assert(res[m + 1] == s[j]);
            }
        }
    }
}

/// `sorted_releases` leaves no release out: every listed release is in it.
pub proof fn lemma_newest_first_lists_all(releases: Seq<ReleaseInfo>)
    ensures
        forall|i: int|
            0 <= i < releases.len() ==> newest_first(releases).contains(#[trigger] releases[i]),
    decreases releases.len(),
{
    if releases.len() > 0 {
        let init = releases.drop_last();
        lemma_newest_first_lists_all(init);
        let nf = newest_first(init);
        lemma_insert_newest_contains(nf, releases.last());
        assert forall|i: int| 0 <= i < releases.len() implies newest_first(releases).contains(
            #[trigger] releases[i],
        ) by {
            if i < releases.len() - 1 {
                assert(init[i] == releases[i]);
                let m = choose|m: int| 0 <= m < nf.len() && nf[m] == init[i];
                assert(insert_newest(nf, releases.last()).contains(nf[m]));
            }
        }
    }
}

/// The first release of `sorted_releases`, the one marked as the latest,
/// is newer than or as new as every release of the asset.
pub proof fn lemma_first_is_latest(releases: Seq<ReleaseInfo>)
    requires
        releases.len() > 0,
    ensures
        forall|i: int|
            0 <= i < releases.len() ==> date_le(
                #[trigger] releases[i].date_added,
                newest_first(releases)[0].date_added,
            ),
{
    lemma_newest_first_sorted(releases);
    lemma_newest_first_lists_all(releases);
    let nf = newest_first(releases);
    assert forall|i: int| 0 <= i < releases.len() implies date_le(
        #[trigger] releases[i].date_added,
        nf[0].date_added,
    ) by {
        let m = choose|m: int| 0 <= m < nf.len() && nf[m] == releases[i];
        if m > 0 {
            assert(date_le(nf[m].date_added, nf[0].date_added));
        } else {
            lemma_date_le_total_order(nf[0].date_added, nf[0].date_added, nf[0].date_added);
        }
    }
}

} // verus!
