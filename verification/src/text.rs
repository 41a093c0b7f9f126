use vstd::prelude::*;
use vstd::string::StringExecFns;

verus! {

/// Whether two strings hold the same characters.
pub fn str_equal(a: &str, b: &str) -> (res: bool)
    ensures
        res == (a@ == b@),
{
    let a_chars = chars_of(a);
    let b_chars = chars_of(b);
    if a_chars.len() != b_chars.len() {
        return false;
    }
    let mut i: usize = 0;
    while i < a_chars.len()
        invariant
            a_chars@ == a@,
            b_chars@ == b@,
            a_chars.len() == b_chars.len(),
            i <= a_chars.len(),
            forall|j: int| 0 <= j < i ==> a_chars@[j] == b_chars@[j],
        decreases a_chars.len() - i,
    {
        if a_chars[i] != b_chars[i] {
            return false;
        }
        i = i + 1;
    }
    assert(a_chars@ =~= b_chars@);
    true
}

/// The characters of a string, in order.
pub fn chars_of(s: &str) -> (res: Vec<char>)
    ensures
        res@ == s@,
{
    let mut res: Vec<char> = Vec::new();
    for c in it: s.chars()
        invariant
            res@ == it.seq().take(it.index() as int),
            it.seq() == s@,
    {
        res.push(c);
    }
    res
}


/// The characters of an optional string.
pub open spec fn opt_chars(o: Option<String>) -> Option<Seq<char>> {
    match o {
        Some(s) => Some(s@),
        None => None,
    }
}

/// A copy of an optional string.
pub fn copy_opt(o: &Option<String>) -> (res: Option<String>)
    ensures
        res == *o,
{
    match o {
        Some(s) => Some(s.clone()),
        None => None,
    }
}


/// `String::push`: appends one character.
#[verifier::external_body]
pub fn push_char(s: &mut String, c: char)
    ensures
        final(s)@ == old(s)@.push(c),
{
    s.push(c);
}

/// The parts written one after another with `sep` between each two,
/// as `[String]::join` writes them.
pub open spec fn seq_join(parts: Seq<Seq<char>>, sep: Seq<char>) -> Seq<char>
    decreases parts.len(),
{
    if parts.len() == 0 {
        Seq::empty()
    } else if parts.len() == 1 {
        parts[0]
    } else {
        seq_join(parts.drop_last(), sep) + sep + parts.last()
    }
}

/// The characters of each string of a list.
pub open spec fn chars_of_all(list: Seq<String>) -> Seq<Seq<char>> {
    list.map_values(|s: String| s@)
}

/// Joins the strings of a list with a separator.
pub fn join_with(parts: &Vec<String>, sep: &str) -> (res: String)
    ensures
        res@ == seq_join(chars_of_all(parts@), sep@),
{
    let mut res = String::new();
    let ghost all = chars_of_all(parts@);
    let mut i: usize = 0;
    while i < parts.len()
        invariant
            i <= parts.len(),
            all == chars_of_all(parts@),
            res@ == seq_join(all.take(i as int), sep@),
        decreases parts.len() - i,
    {
        assert(all.take(i + 1).drop_last() =~= all.take(i as int));
        if i != 0 {
            res.append(sep);
        }
        res.append(parts[i].as_str());
        i = i + 1;
    }
    assert(all.take(parts.len() as int) =~= all);
    res
}

/// Whether `pat` stands at the start of `s`.
pub open spec fn starts_with(s: Seq<char>, pat: Seq<char>) -> bool {
    pat.len() <= s.len() && s.subrange(0, pat.len() as int) == pat
}

/// `s` with every occurrence of the non-empty `pat` replaced by `with`,
/// occurrences being found from the left and not overlapping, as
/// `str::replace` finds them.
pub open spec fn replace_all(s: Seq<char>, pat: Seq<char>, with: Seq<char>) -> Seq<char>
    decreases s.len(),
{
    if s.len() == 0 {
        Seq::empty()
    } else if pat.len() > 0 && starts_with(s, pat) {
        with + replace_all(s.skip(pat.len() as int), pat, with)
    } else {
        seq![s[0]] + replace_all(s.drop_first(), pat, with)
    }
}

/// Whether `pat` occurs in `text` at position `at`.
fn occurs_at(text: &Vec<char>, at: usize, pat: &Vec<char>) -> (res: bool)
    requires
        at <= text.len(),
    ensures
        res == starts_with(text@.skip(at as int), pat@),
{
    if pat.len() > text.len() - at {
        return false;
    }
    let mut j: usize = 0;
    while j < pat.len()
        invariant
            j <= pat.len(),
            at + pat.len() <= text.len(),
            forall|k: int| 0 <= k < j ==> text@[at + k] == pat@[k],
        decreases pat.len() - j,
    {
        if text[at + j] != pat[j] {
            assert(text@.skip(at as int).subrange(0, pat.len() as int)[j as int] != pat@[j as int]);
            return false;
        }
        j = j + 1;
    }
    assert(text@.skip(at as int).subrange(0, pat.len() as int) =~= pat@);
    true
}

/// Replaces every occurrence of a non-empty pattern, as `str::replace` does.
pub fn replace_text(text: &str, pat: &str, with: &str) -> (res: String)
    requires
        pat@.len() > 0,
    ensures
        res@ == replace_all(text@, pat@, with@),
{
    let t = chars_of(text);
    let p = chars_of(pat);
    let mut res = String::new();
    let mut i: usize = 0;
    assert(t@.skip(0) =~= t@);
    while i < t.len()
        invariant
            i <= t.len(),
            t@ == text@,
            p@ == pat@,
            p@.len() > 0,
            replace_all(text@, pat@, with@) == res@ + replace_all(t@.skip(i as int), pat@, with@),
        decreases t.len() - i,
    {
        let ghost rest = t@.skip(i as int);
        if occurs_at(&t, i, &p) {
            assert(rest.skip(p@.len() as int) =~= t@.skip(i + p@.len()));
            res.append(with);
            i = i + p.len();
        } else {
            assert(rest.drop_first() =~= t@.skip(i + 1));
            assert(rest[0] == t@[i as int]);
            push_char(&mut res, t[i]);
            i = i + 1;
        }
    }
    assert(t@.skip(i as int) =~= Seq::<char>::empty());
    res
}

} // verus!
