//! Character-level text helpers: blank detection and timestamp display.
use vstd::prelude::*;
use vstd::string::StrSliceExecFns;
use vstd::string::StringExecFns;

verus! {

/// Whether a character has the Unicode `White_Space` property.
pub uninterp spec fn white_space(c: char) -> bool;

/// Relies on `char::is_whitespace`: true exactly for characters with the
/// Unicode `White_Space` property.
#[verifier::external_body]
fn char_is_whitespace(c: char) -> (r: bool)
    ensures
        r == white_space(c),
{
    c.is_whitespace()
}

/// A text is blank when it is empty or made of whitespace only
/// (what `trim` would reduce to nothing).
pub open spec fn blank(s: Seq<char>) -> bool {
    forall|i: int| 0 <= i < s.len() ==> white_space(#[trigger] s[i])
}

/// Whether `s` is empty or whitespace only.
pub fn is_blank(s: &str) -> (r: bool)
    ensures
        r == blank(s@),
{
    let n = s.unicode_len();
    let mut i: usize = 0;
    while i < n
        invariant
            n == s@.len(),
            i <= n,
            forall|j: int| 0 <= j < i ==> white_space(#[trigger] s@[j]),
        decreases n - i,
    {
        if !char_is_whitespace(s.get_char(i)) {
            return false;
        }
        i = i + 1;
    }
    true
}

/// Index of the first occurrence of `c` in `s`, or `s.len()` when absent.
pub open spec fn first_index_of(s: Seq<char>, c: char) -> int
    decreases s.len(),
{
    if s.len() == 0 {
        0
    } else if s[0] == c {
        0
    } else {
        1 + first_index_of(s.drop_first(), c)
    }
}

proof fn lemma_first_index_of(s: Seq<char>, c: char, i: int)
    requires
        0 <= i <= s.len(),
        forall|j: int| 0 <= j < i ==> s[j] != c,
        i == s.len() || s[i] == c,
    ensures
        first_index_of(s, c) == i,
    decreases s.len(),
{
    if s.len() > 0 && s[0] != c {
        assert forall|j: int| 0 <= j < i - 1 implies s.drop_first()[j] != c by {
            assert(s.drop_first()[j] == s[j + 1]);
        }
        lemma_first_index_of(s.drop_first(), c, i - 1);
    }
}

/// The displayed time of an ISO-8601 timestamp: a space, then the text after
/// the first `T` up to the first `.` that follows it. Without a `T` the
/// display is empty.
pub open spec fn timestamp_display(ts: Seq<char>) -> Seq<char> {
    let t = first_index_of(ts, 'T');
    if t == ts.len() {
        Seq::empty()
    } else {
        let rest = ts.subrange(t + 1, ts.len() as int);
        seq![' '] + rest.subrange(0, first_index_of(rest, '.'))
    }
}

/// Position of the first `c` at or after `from`, or the length of `s`.
fn find_char(s: &str, n: usize, from: usize, c: char) -> (r: usize)
    requires
        n == s@.len(),
        from <= n,
    ensures
        from <= r <= n,
        forall|j: int| from <= j < r ==> s@[j] != c,
        r == n || s@[r as int] == c,
{
    let mut i = from;
    while i < n
        invariant
            n == s@.len(),
            from <= i <= n,
            forall|j: int| from <= j < i ==> s@[j] != c,
        decreases n - i,
    {
        if s.get_char(i) == c {
            return i;
        }
        i = i + 1;
    }
    i
}

/// Formats a message timestamp for display (a lossy projection, no parsing).
pub fn format_timestamp(timestamp: &str) -> (r: String)
    ensures
        r@ == timestamp_display(timestamp@),
{
    let ghost ts = timestamp@;
    let n = timestamp.unicode_len();
    let t = find_char(timestamp, n, 0, 'T');
    proof {
        lemma_first_index_of(ts, 'T', t as int);
    }
    if t == n {
        return String::new();
    }
    let d = find_char(timestamp, n, t + 1, '.');
    let ghost rest = ts.subrange(t + 1, n as int);
    proof {
        assert forall|j: int| 0 <= j < d - (t + 1) implies rest[j] != '.' by {
            assert(rest[j] == ts[j + t + 1]);
        }
        if d < n {
            assert(rest[d - (t + 1)] == ts[d as int]);
        }
        lemma_first_index_of(rest, '.', d - (t + 1));
        assert(rest.subrange(0, d - (t + 1)) =~= ts.subrange(t + 1, d as int));
        reveal_strlit(" ");
    }
    let time = timestamp.substring_char(t + 1, d);
    String::from_str(" ").concat(time)
}

} // verus!
