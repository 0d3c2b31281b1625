//! Reading the progress lines of `bugreportz -p`.
use vstd::prelude::*;
use crate::wire::{decimal_value, parse_u64};

verus! {

/// Whether `needle` occurs in `hay` at index `i`.
pub open spec fn occurs_at(hay: Seq<char>, needle: Seq<char>, i: int) -> bool {
    0 <= i && i + needle.len() <= hay.len() && hay.subrange(i, i + needle.len()) == needle
}

/// The first index at or after `i` where `needle` occurs in `hay`.
pub open spec fn find_from(hay: Seq<char>, needle: Seq<char>, i: int) -> Option<int>
    decreases hay.len() + 1 - i,
{
    if i < 0 || i + needle.len() > hay.len() {
        None
    } else if occurs_at(hay, needle, i) {
        Some(i)
    } else {
        find_from(hay, needle, i + 1)
    }
}

/// A found occurrence lies inside the text.
pub proof fn lemma_find_from_bound(hay: Seq<char>, needle: Seq<char>, i: int)
    ensures
        find_from(hay, needle, i) matches Some(k) ==> i <= k && k + needle.len() <= hay.len(),
    decreases hay.len() + 1 - i,
{
    if !(i < 0 || i + needle.len() > hay.len()) && !occurs_at(hay, needle, i) {
        lemma_find_from_bound(hay, needle, i + 1);
    }
}

/// Where `needle` first occurs in `hay`.
pub fn find(hay: &str, needle: &str) -> (r: Option<usize>)
    ensures
        match r {
            Some(i) => find_from(hay@, needle@, 0) == Some(i as int) && i + needle@.len() <= hay@.len(),
            None => find_from(hay@, needle@, 0) is None,
        },
{
    proof {
        lemma_find_from_bound(hay@, needle@, 0);
    }
    let n = hay.unicode_len();
    let m = needle.unicode_len();
    if m == 0 {
        assert(hay@.subrange(0, 0) =~= needle@);
        return Some(0);
    }
    let target = String::from_str(needle);
    let mut i: usize = 0;
    while m <= n && i <= n - m
        invariant
            m >= 1,
            n == hay@.len(),
            m == needle@.len(),
            target@ == needle@,
            find_from(hay@, needle@, 0) == find_from(hay@, needle@, i as int),
        decreases n - i,
    {
        let part = hay.substring_char(i, i + m).to_owned();
        if part == target {
            return Some(i);
        }
        i = i + 1;
    }
    None
}

/// Whether `t` is a contiguous part of `s`.
pub open spec fn is_part_of(t: Seq<char>, s: Seq<char>) -> bool {
    exists|i: int, j: int| 0 <= i <= j <= s.len() && t == s.subrange(i, j)
}

/// What `str::trim` gives for a text.
pub uninterp spec fn trimmed_of(s: Seq<char>) -> Seq<char>;

/// Relies on `str::trim`: the text without its leading and trailing white
/// space, a contiguous part of the input.
#[verifier::external_body]
pub(crate) fn trim_text(s: &str) -> (r: String)
    ensures
        r@ == trimmed_of(s@),
        is_part_of(r@, s@),
{
    s.trim().to_string()
}

/// One line of `bugreportz -p` output.
#[derive(Debug, PartialEq, Eq)]
pub enum BugreportLine {
    /// `PROGRESS:<n>/<total>`; the count, when it is a number.
    Progress(Option<u64>),
    /// `OK:<path>` or `XOK:<path>`: where the finished report lies.
    ZipPath(String),
    /// Any other non-empty line but `INFO:` ones, to show to the user.
    Message(String),
    /// An empty or `INFO:` line.
    Ignored,
}

/// The characters of `s` before its first `/`.
pub open spec fn before_slash(s: Seq<char>) -> Seq<char> {
    match find_from(s, "/"@, 0) {
        Some(i) => s.take(i),
        None => s,
    }
}

/// What a trimmed line of `bugreportz -p` output is: a progress count, the
/// path of the finished report (itself trimmed), a message, or nothing.
pub open spec fn classified_as(t: Seq<char>, r: BugreportLine) -> bool {
    match find_from(t, "PROGRESS:"@, 0) {
        Some(i) => {
            let count = before_slash(t.subrange(i + 9, t.len() as int));
            r == BugreportLine::Progress(
                if decimal_value(count) is Some && decimal_value(count)->0 <= u64::MAX {
                    Some(decimal_value(count)->0 as u64)
                } else {
                    None
                },
            )
        },
        None => match find_from(t, "OK:"@, 0) {
            Some(i) => r matches BugreportLine::ZipPath(p) && p@ == trimmed_of(t.subrange(i + 3, t.len() as int)),
            None => match find_from(t, "XOK:"@, 0) {
                Some(i) => r matches BugreportLine::ZipPath(p) && p@ == trimmed_of(t.subrange(i + 4, t.len() as int)),
                None => if t.len() > 0 && !(t.len() >= 5 && t.take(5) == "INFO:"@) {
                    r matches BugreportLine::Message(m) && m@ == t
                } else {
                    r is Ignored
                },
            },
        },
    }
}

/// Reads one line of `bugreportz -p` output.
pub fn classify_bugreport_line(line: &str) -> (r: BugreportLine)
    ensures
        classified_as(trimmed_of(line@), r),
{
    let t = trim_text(line);
    classify_trimmed_line(t)
}

/// Reads one line of `bugreportz -p` output that is already trimmed.
pub fn classify_trimmed_line(t: String) -> (r: BugreportLine)
    ensures
        classified_as(t@, r),
{
    proof {
        reveal_strlit("PROGRESS:");
        reveal_strlit("OK:");
        reveal_strlit("XOK:");
        reveal_strlit("INFO:");
    }
    let n = t.as_str().unicode_len();
    match find(t.as_str(), "PROGRESS:") {
        Some(i) => {
            let rest = t.as_str().substring_char(i + 9, n);
            let count = match find(rest, "/") {
                Some(j) => rest.substring_char(0, j),
                None => rest,
            };
            proof {
                if let Some(j) = find_from(rest@, "/"@, 0) {
                    assert(rest@.subrange(0, j) =~= rest@.take(j));
                }
            }
            return match parse_u64(count) {
                Some(v) => BugreportLine::Progress(Some(v)),
                None => BugreportLine::Progress(None),
            };
        },
        None => {},
    }
    match find(t.as_str(), "OK:") {
        Some(i) => {
            return BugreportLine::ZipPath(trim_text(t.as_str().substring_char(i + 3, n)));
        },
        None => {},
    }
    match find(t.as_str(), "XOK:") {
        Some(i) => {
            return BugreportLine::ZipPath(trim_text(t.as_str().substring_char(i + 4, n)));
        },
        None => {},
    }
    if n == 0 {
        return BugreportLine::Ignored;
    }
    if n >= 5 {
        let head = t.as_str().substring_char(0, 5).to_owned();
        assert(head@ =~= t@.take(5));
        if head == String::from_str("INFO:") {
            return BugreportLine::Ignored;
        }
    }
    BugreportLine::Message(t)
}

/// The file name of a report saved into a directory, from the local time
/// stamp `%Y-%m-%d-%H-%M-%S`.
pub fn bugreport_file_name(stamp: &str) -> (r: String)
    ensures
        r@ == "bugreport-"@ + stamp@ + ".zip"@,
{
    String::from_str("bugreport-").concat(stamp).concat(".zip")
}

} // verus!
