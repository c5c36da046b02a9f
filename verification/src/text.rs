//! Character-level text helpers shared by the library: predicates on
//! characters, trimming, comparison, suffix tests and path joining, each with a
//! specification over `Seq<char>`.
use vstd::prelude::*;
use vstd::string::*;

verus! {

/// `String::push`: appends one character to the end of the string.
#[verifier::external_body]
pub(crate) fn push_char(s: &mut String, c: char)
    ensures
        final(s)@ == old(s)@.push(c),
{
    s.push(c);
}

/// `String::pop`: removes the last character of the string and returns it, or
/// returns `None` and leaves the string as it is when it is empty.
#[verifier::external_body]
pub(crate) fn pop_char(s: &mut String) -> (r: Option<char>)
    ensures
        old(s)@.len() == 0 ==> r is None && final(s)@ == old(s)@,
        old(s)@.len() > 0 ==> r == Some(old(s)@.last()) && final(s)@ == old(s)@.drop_last(),
{
    s.pop()
}

/// The characters of `s`, in order.
pub fn chars_of(s: &str) -> (out: Vec<char>)
    ensures
        out@ == s@,
{
    let mut out: Vec<char> = Vec::new();
    for c in it: s.chars()
        invariant
            out@ == it.seq().take(it.index() as int),
            it.seq() == s@,
    {
        out.push(c);
    }
    out
}

/// A string holding exactly the characters of `v`.
pub fn string_from_chars(v: &Vec<char>) -> (s: String)
    ensures
        s@ == v@,
{
    let mut s = String::new();
    let mut i: usize = 0;
    while i < v.len()
        invariant
            i <= v.len(),
            s@ == v@.take(i as int),
        decreases v.len() - i,
    {
        push_char(&mut s, v[i]);
        assert(v@.take(i as int).push(v@[i as int]) =~= v@.take(i + 1));
        i += 1;
    }
    assert(v@.take(v.len() as int) =~= v@);
    s
}

/// Whether two character vectors hold the same characters.
pub fn chars_equal(a: &Vec<char>, b: &Vec<char>) -> (r: bool)
    ensures
        r == (a@ == b@),
{
    if a.len() != b.len() {
        return false;
    }
    let mut i: usize = 0;
    while i < a.len()
        invariant
            i <= a.len(),
            a.len() == b.len(),
            forall|k: int| 0 <= k < i ==> a@[k] == b@[k],
        decreases a.len() - i,
    {
        if a[i] != b[i] {
            return false;
        }
        i += 1;
    }
    assert(a@ =~= b@);
    true
}

/// Whether two strings hold the same characters.
pub fn text_eq(a: &str, b: &str) -> (r: bool)
    ensures
        r == (a@ == b@),
{
    let va = chars_of(a);
    let vb = chars_of(b);
    chars_equal(&va, &vb)
}

/// The characters of each string.
pub open spec fn strings_view(v: Seq<String>) -> Seq<Seq<char>> {
    v.map_values(|s: String| s@)
}

/// ASCII letters and digits.
pub open spec fn is_ascii_alnum(c: char) -> bool {
    ('a' <= c && c <= 'z') || ('A' <= c && c <= 'Z') || ('0' <= c && c <= '9')
}

pub fn ascii_alnum(c: char) -> (r: bool)
    ensures
        r == is_ascii_alnum(c),
{
    ('a' <= c && c <= 'z') || ('A' <= c && c <= 'Z') || ('0' <= c && c <= '9')
}

/// An ASCII upper-case letter mapped to its lower-case form; any other
/// character unchanged.
pub open spec fn ascii_lower(c: char) -> char {
    if 'A' <= c && c <= 'Z' {
        ((c as u32) + 32) as char
    } else {
        c
    }
}

pub fn to_ascii_lower(c: char) -> (r: char)
    ensures
        r == ascii_lower(c),
{
    if 'A' <= c && c <= 'Z' {
        ((c as u8) + 32) as char
    } else {
        c
    }
}

/// An ASCII lower-case letter mapped to its upper-case form; any other
/// character unchanged.
pub open spec fn ascii_upper(c: char) -> char {
    if 'a' <= c && c <= 'z' {
        ((c as u32) - 32) as char
    } else {
        c
    }
}

pub fn to_ascii_upper(c: char) -> (r: char)
    ensures
        r == ascii_upper(c),
{
    if 'a' <= c && c <= 'z' {
        ((c as u8) - 32) as char
    } else {
        c
    }
}

/// The characters with the Unicode `White_Space` property.
pub open spec fn is_white(c: char) -> bool {
    let u = c as u32;
    ||| 0x09 <= u && u <= 0x0d
    ||| u == 0x20
    ||| u == 0x85
    ||| u == 0xa0
    ||| u == 0x1680
    ||| 0x2000 <= u && u <= 0x200a
    ||| u == 0x2028
    ||| u == 0x2029
    ||| u == 0x202f
    ||| u == 0x205f
    ||| u == 0x3000
}

pub fn white(c: char) -> (r: bool)
    ensures
        r == is_white(c),
{
    let u = c as u32;
    (0x09 <= u && u <= 0x0d) || u == 0x20 || u == 0x85 || u == 0xa0 || u == 0x1680 || (0x2000
        <= u && u <= 0x200a) || u == 0x2028 || u == 0x2029 || u == 0x202f || u == 0x205f || u
        == 0x3000
}

/// The characters that a trim removes: white space, or `-` when `dash` holds.
pub open spec fn is_trimmed(c: char, dash: bool) -> bool {
    if dash {
        c == '-'
    } else {
        is_white(c)
    }
}

fn trimmed(c: char, dash: bool) -> (r: bool)
    ensures
        r == is_trimmed(c, dash),
{
    if dash {
        c == '-'
    } else {
        white(c)
    }
}

/// `s` without its leading trimmed characters.
pub open spec fn trim_start(s: Seq<char>, dash: bool) -> Seq<char>
    decreases s.len(),
{
    if s.len() > 0 && is_trimmed(s[0], dash) {
        trim_start(s.drop_first(), dash)
    } else {
        s
    }
}

/// `s` without its trailing trimmed characters.
pub open spec fn trim_end(s: Seq<char>, dash: bool) -> Seq<char>
    decreases s.len(),
{
    if s.len() > 0 && is_trimmed(s.last(), dash) {
        trim_end(s.drop_last(), dash)
    } else {
        s
    }
}

/// `s` without its leading and trailing trimmed characters.
pub open spec fn trim_both(s: Seq<char>, dash: bool) -> Seq<char> {
    trim_end(trim_start(s, dash), dash)
}

/// `str::trim`: `s` without leading and trailing white space.
pub open spec fn trim_spec(s: Seq<char>) -> Seq<char> {
    trim_both(s, false)
}

proof fn lemma_trim_start_skip(s: Seq<char>, i: int, dash: bool)
    requires
        0 <= i <= s.len(),
        forall|k: int| 0 <= k < i ==> is_trimmed(#[trigger] s[k], dash),
    ensures
        trim_start(s, dash) == trim_start(s.skip(i), dash),
    decreases i,
{
    if i > 0 {
        lemma_trim_start_skip(s, i - 1, dash);
        assert(s.skip(i - 1).drop_first() =~= s.skip(i));
        assert(s.skip(i - 1)[0] == s[i - 1]);
    } else {
        assert(s.skip(0) =~= s);
    }
}

proof fn lemma_trim_end_take(s: Seq<char>, j: int, dash: bool)
    requires
        0 <= j <= s.len(),
        forall|k: int| j <= k < s.len() ==> is_trimmed(#[trigger] s[k], dash),
    ensures
        trim_end(s, dash) == trim_end(s.take(j), dash),
    decreases s.len() - j,
{
    if j < s.len() {
        lemma_trim_end_take(s, j + 1, dash);
        assert(s.take(j + 1).drop_last() =~= s.take(j));
        assert(s.take(j + 1).last() == s[j]);
    } else {
        assert(s.take(j) =~= s);
    }
}

/// What `trim_start` leaves is a suffix of `s` that does not start with a
/// trimmed character.
pub proof fn lemma_trim_start_suffix(s: Seq<char>, dash: bool) -> (k: int)
    ensures
        0 <= k <= s.len(),
        trim_start(s, dash) == s.skip(k),
        trim_start(s, dash).len() > 0 ==> !is_trimmed(trim_start(s, dash)[0], dash),
    decreases s.len(),
{
    if s.len() > 0 && is_trimmed(s[0], dash) {
        let k = lemma_trim_start_suffix(s.drop_first(), dash);
        assert(s.drop_first().skip(k) =~= s.skip(k + 1));
        k + 1
    } else {
        assert(s.skip(0) =~= s);
        0
    }
}

/// What `trim_end` leaves is a prefix of `s` that does not end with a
/// trimmed character.
pub proof fn lemma_trim_end_prefix(s: Seq<char>, dash: bool) -> (j: int)
    ensures
        0 <= j <= s.len(),
        trim_end(s, dash) == s.take(j),
        trim_end(s, dash).len() > 0 ==> !is_trimmed(trim_end(s, dash).last(), dash),
    decreases s.len(),
{
    if s.len() > 0 && is_trimmed(s.last(), dash) {
        let j = lemma_trim_end_prefix(s.drop_last(), dash);
        assert(s.drop_last().take(j) =~= s.take(j));
        j
    } else {
        assert(s.take(s.len() as int) =~= s);
        s.len() as int
    }
}

/// The characters of `v` from `lo` up to `hi`.
pub fn sub_chars(v: &Vec<char>, lo: usize, hi: usize) -> (out: Vec<char>)
    requires
        lo <= hi <= v.len(),
    ensures
        out@ == v@.subrange(lo as int, hi as int),
{
    let mut out: Vec<char> = Vec::new();
    let mut i = lo;
    while i < hi
        invariant
            lo <= i <= hi,
            hi <= v.len(),
            out@ == v@.subrange(lo as int, i as int),
        decreases hi - i,
    {
        out.push(v[i]);
        assert(v@.subrange(lo as int, i as int).push(v@[i as int]) =~= v@.subrange(
            lo as int,
            i + 1,
        ));
        i += 1;
    }
    out
}

/// `v` without its leading and trailing trimmed characters.
pub fn trim_chars(v: &Vec<char>, dash: bool) -> (out: Vec<char>)
    ensures
        out@ == trim_both(v@, dash),
{
    let mut lo: usize = 0;
    while lo < v.len() && trimmed(v[lo], dash)
        invariant
            lo <= v.len(),
            forall|k: int| 0 <= k < lo ==> is_trimmed(#[trigger] v@[k], dash),
        decreases v.len() - lo,
    {
        lo += 1;
    }
    proof {
        lemma_trim_start_skip(v@, lo as int, dash);
    }
    let ghost rest = v@.skip(lo as int);
    assert(trim_start(rest, dash) == rest);
    let mut hi: usize = v.len();
    while hi > lo && trimmed(v[hi - 1], dash)
        invariant
            lo <= hi <= v.len(),
            rest == v@.skip(lo as int),
            forall|k: int| hi <= k < v.len() ==> is_trimmed(#[trigger] v@[k], dash),
        decreases hi,
    {
        hi -= 1;
    }
    proof {
        assert forall|k: int| hi - lo <= k < rest.len() implies is_trimmed(
            #[trigger] rest[k],
            dash,
        ) by {
            assert(rest[k] == v@[k + lo]);
        }
        lemma_trim_end_take(rest, hi - lo, dash);
        let t = rest.take(hi - lo);
        if t.len() > 0 {
            assert(t.last() == v@[hi - 1]);
        }
        assert(trim_end(t, dash) == t);
        assert(t =~= v@.subrange(lo as int, hi as int));
    }
    sub_chars(v, lo, hi)
}

/// `str::trim`: `s` without leading and trailing white space.
pub fn trim(s: &str) -> (out: String)
    ensures
        out@ == trim_spec(s@),
{
    let v = chars_of(s);
    let t = trim_chars(&v, false);
    string_from_chars(&t)
}

/// Whether `s` ends with `suffix`.
pub open spec fn ends_with_spec(s: Seq<char>, suffix: Seq<char>) -> bool {
    s.len() >= suffix.len() && s.subrange(s.len() - suffix.len(), s.len() as int) == suffix
}

/// `str::ends_with` for a string suffix.
pub fn ends_with(s: &str, suffix: &str) -> (r: bool)
    ensures
        r == ends_with_spec(s@, suffix@),
{
    let v = chars_of(s);
    let w = chars_of(suffix);
    if v.len() < w.len() {
        return false;
    }
    let tail = sub_chars(&v, v.len() - w.len(), v.len());
    chars_equal(&tail, &w)
}

/// `Path::join` on Unix, for paths held as text: an absolute `rel` replaces
/// `base`; otherwise `rel` is appended, with a `/` between the two unless
/// `base` is empty or already ends with one.
pub open spec fn join_path(base: Seq<char>, rel: Seq<char>) -> Seq<char> {
    if rel.len() > 0 && rel[0] == '/' {
        rel
    } else if base.len() == 0 || base.last() == '/' {
        base + rel
    } else {
        base.push('/') + rel
    }
}

/// Joins the relative or absolute path `rel` onto `base`.
pub fn join(base: &str, rel: &str) -> (out: String)
    ensures
        out@ == join_path(base@, rel@),
{
    let b = chars_of(base);
    let r = chars_of(rel);
    if r.len() > 0 && r[0] == '/' {
        return String::from_str(rel);
    }
    let mut out = String::from_str(base);
    if b.len() > 0 && b[b.len() - 1] != '/' {
        push_char(&mut out, '/');
    }
    out.append(rel);
    out
}

} // verus!
