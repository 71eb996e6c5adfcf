//! The boot-parameter reader: finds `agent.aa_kbc_params=<kind>::<host>` on
//! the kernel command line.
//!
//! The command line is a sequence of characters. A token is a maximal run of
//! characters that are not ASCII whitespace. The reader takes the first token
//! that starts with the parameter's prefix, and splits what follows the prefix
//! at the separator `::`, which must occur exactly once.

use vstd::prelude::*;
use vstd::string::*;
use crate::error::ClientError;

verus! {

/// The backend's kind token and its host argument, as the command line gives them.
#[derive(Debug, Clone, PartialEq, Eq)]
pub struct BootParameters {
    pub kind_token: String,
    pub host_argument: String,
}

/// What the reader finds on a command line.
pub enum Reading {
    /// The parameter is there, with exactly one separator.
    Parameters { kind: Seq<char>, host: Seq<char> },
    /// No token starts with the prefix.
    Missing,
    /// The parameter is there, but its value has no separator, or several.
    Malformed,
}

/// The characters that separate tokens: space, tab, line feed, form feed,
/// carriage return.
pub open spec fn is_ascii_space(c: char) -> bool {
    c == ' ' || c == '\t' || c == '\n' || c == '\x0C' || c == '\r'
}

/// The prefix that marks the parameter.
pub open spec fn prefix() -> Seq<char> {
    "agent.aa_kbc_params="@
}

/// `s[a..b]` is a token of `s`: not empty, free of whitespace, and bounded on
/// both sides by whitespace or by an end of `s`.
pub open spec fn token_at(s: Seq<char>, a: int, b: int) -> bool {
    &&& 0 <= a < b <= s.len()
    &&& (a == 0 || is_ascii_space(s[a - 1]))
    &&& (b == s.len() || is_ascii_space(s[b]))
    &&& forall|i: int| a <= i < b ==> !is_ascii_space(#[trigger] s[i])
}

/// `t` begins with `p`.
pub open spec fn starts_with(t: Seq<char>, p: Seq<char>) -> bool {
    p.len() <= t.len() && t.subrange(0, p.len() as int) == p
}

/// `s[a..b]` is a token of `s` that starts with the prefix.
pub open spec fn param_token_at(s: Seq<char>, a: int, b: int) -> bool {
    token_at(s, a, b) && starts_with(s.subrange(a, b), prefix())
}

/// `s[a..b]` is the first token of `s` that starts with the prefix.
pub open spec fn first_param_token(s: Seq<char>, a: int, b: int) -> bool {
    &&& param_token_at(s, a, b)
    &&& forall|c: int, d: int| #[trigger] param_token_at(s, c, d) ==> a <= c
}

/// The separator `::` stands at index `i` of `v`.
pub open spec fn separator_at(v: Seq<char>, i: int) -> bool {
    0 <= i && i + 1 < v.len() && v[i] == ':' && v[i + 1] == ':'
}

/// The leftmost separator of `v` stands at `p`.
pub open spec fn first_separator(v: Seq<char>, p: int) -> bool {
    separator_at(v, p) && forall|i: int| 0 <= i < p ==> !separator_at(v, i)
}

/// Splitting `v` at each separator, left to right, gives exactly two parts,
/// and the separator between them stands at `p`: it is the leftmost one, and
/// no other begins behind it.
pub open spec fn splits_in_two(v: Seq<char>, p: int) -> bool {
    first_separator(v, p) && forall|i: int| p + 2 <= i ==> !separator_at(v, i)
}

/// What the reader makes of the value that follows the prefix.
pub open spec fn value_reading(v: Seq<char>) -> Reading {
    if exists|p: int| splits_in_two(v, p) {
        let p = choose|p: int| splits_in_two(v, p);
        Reading::Parameters { kind: v.subrange(0, p), host: v.subrange(p + 2, v.len() as int) }
    } else {
        Reading::Malformed
    }
}

/// What the reader makes of the command line `s`.
pub open spec fn reading_of(s: Seq<char>) -> Reading {
    if exists|a: int, b: int| first_param_token(s, a, b) {
        let (a, b) = choose|a: int, b: int| first_param_token(s, a, b);
        value_reading(s.subrange(a + prefix().len(), b))
    } else {
        Reading::Missing
    }
}

/// The result `r` reports the reading: the two parts on success, and
/// otherwise the error that belongs to the reading.
pub open spec fn reports(r: Result<BootParameters, ClientError>, reading: Reading) -> bool {
    match reading {
        Reading::Parameters { kind, host } => r matches Ok(p) && p.kind_token@ == kind
            && p.host_argument@ == host,
        Reading::Missing => r == Err::<BootParameters, ClientError>(ClientError::MissingParameter),
        Reading::Malformed => r == Err::<BootParameters, ClientError>(
            ClientError::MalformedParameter,
        ),
    }
}

/// A token that begins at `a` ends in one place only.
pub proof fn lemma_token_end_unique(s: Seq<char>, a: int, b: int, d: int)
    requires
        token_at(s, a, b),
        token_at(s, a, d),
    ensures
        b == d,
{
    if b < d {
        assert(is_ascii_space(s[b]));
    }
    if d < b {
        assert(is_ascii_space(s[d]));
    }
}

/// The reading of a value with exactly two parts is those two parts.
pub proof fn lemma_value_splits(v: Seq<char>, p: int)
    requires
        splits_in_two(v, p),
    ensures
        value_reading(v) == (Reading::Parameters {
            kind: v.subrange(0, p),
            host: v.subrange(p + 2, v.len() as int),
        }),
{
    let q = choose|q: int| splits_in_two(v, q);
    assert(splits_in_two(v, q));
    if q < p {
        assert(separator_at(v, q));
    }
    if p < q {
        assert(separator_at(v, p));
    }
}

/// The reading of a command line whose first parameter token is `s[a..b]` is
/// the reading of that token's value.
pub proof fn lemma_reading_of_first_token(s: Seq<char>, a: int, b: int)
    requires
        first_param_token(s, a, b),
    ensures
        reading_of(s) == value_reading(s.subrange(a + prefix().len(), b)),
{
    let (c, d) = choose|c: int, d: int| first_param_token(s, c, d);
    assert(first_param_token(s, c, d));
    assert(param_token_at(s, a, b));
    assert(param_token_at(s, c, d));
    lemma_token_end_unique(s, a, b, d);
}

/// Tells whether `c` separates tokens.
pub fn is_ascii_whitespace(c: char) -> (r: bool)
    ensures
        r == is_ascii_space(c),
{
    c == ' ' || c == '\t' || c == '\n' || c == '\x0C' || c == '\r'
}

/// The end of the token that begins at `start`.
fn token_end(cmdline: &str, start: usize) -> (end: usize)
    requires
        start < cmdline@.len(),
        !is_ascii_space(cmdline@[start as int]),
    ensures
        start < end <= cmdline@.len(),
        end == cmdline@.len() || is_ascii_space(cmdline@[end as int]),
        forall|i: int| start <= i < end ==> !is_ascii_space(#[trigger] cmdline@[i]),
{
    let n: usize = cmdline.unicode_len();
    let mut end: usize = start + 1;
    while end < n && !is_ascii_whitespace(cmdline.get_char(end))
        invariant
            n == cmdline@.len(),
            start < end <= n,
            forall|i: int| start <= i < end ==> !is_ascii_space(#[trigger] cmdline@[i]),
        decreases n - end,
    {
        end += 1;
    }
    end
}

/// Tells whether `cmdline[start..end]` starts with the prefix.
fn token_has_prefix(cmdline: &str, start: usize, end: usize) -> (r: bool)
    requires
        start <= end <= cmdline@.len(),
    ensures
        r == starts_with(cmdline@.subrange(start as int, end as int), prefix()),
{
    let marker = "agent.aa_kbc_params=";
    let m: usize = marker.unicode_len();
    if end - start < m {
        return false;
    }
    let ghost token = cmdline@.subrange(start as int, end as int);
    let mut j: usize = 0;
    while j < m
        invariant
            j <= m,
            m == marker@.len(),
            marker@ == prefix(),
            start + m <= end <= cmdline@.len(),
            token == cmdline@.subrange(start as int, end as int),
            forall|k: int| 0 <= k < j ==> token[k] == marker@[k],
        decreases m - j,
    {
        if cmdline.get_char(start + j) != marker.get_char(j) {
            assert(token.subrange(0, m as int)[j as int] != marker@[j as int]);
            return false;
        }
        j += 1;
    }
    assert(token.subrange(0, m as int) =~= marker@);
    true
}

/// The first separator of `value` at or behind `from`, if there is one.
fn find_separator(value: &str, from: usize) -> (r: Option<usize>)
    ensures
        match r {
            Some(p) => from <= p && separator_at(value@, p as int) && forall|i: int|
                from <= i < p ==> !separator_at(value@, i),
            None => forall|i: int| from <= i ==> !separator_at(value@, i),
        },
{
    let n: usize = value.unicode_len();
    if n < 2 || from >= n - 1 {
        return None;
    }
    let mut p: usize = from;
    while p < n - 1
        invariant
            n == value@.len(),
            n >= 2,
            from <= p <= n - 1,
            forall|i: int| from <= i < p ==> !separator_at(value@, i),
        decreases n - p,
    {
        if value.get_char(p) == ':' && value.get_char(p + 1) == ':' {
            return Some(p);
        }
        p += 1;
    }
    None
}

/// Splits the parameter's value into kind token and host argument. Succeeds
/// where the value holds the separator `::` exactly once, counted from the
/// left without overlap.
pub fn split_kind_and_host(value: &str) -> (r: Option<BootParameters>)
    ensures
        match value_reading(value@) {
            Reading::Parameters { kind, host } => r matches Some(p) && p.kind_token@ == kind
                && p.host_argument@ == host,
            _ => r is None,
        },
{
    let n: usize = value.unicode_len();
    match find_separator(value, 0) {
        None => {
            assert forall|p: int| !splits_in_two(value@, p) by {
                if splits_in_two(value@, p) {
                    assert(separator_at(value@, p));
                }
            }
            None
        },
        Some(p) => {
            match find_separator(value, p + 2) {
                Some(q) => {
                    assert forall|x: int| !splits_in_two(value@, x) by {
                        if splits_in_two(value@, x) {
                            if x < p {
                                assert(separator_at(value@, x));
                            } else if p < x {
                                assert(separator_at(value@, p as int));
                            } else {
                                assert(separator_at(value@, q as int));
                            }
                        }
                    }
                    None
                },
                None => {
                    proof {
                        assert(splits_in_two(value@, p as int));
                        lemma_value_splits(value@, p as int);
                    }
                    Some(
                        BootParameters {
                            kind_token: value.substring_char(0, p).to_owned(),
                            host_argument: value.substring_char(p + 2, n).to_owned(),
                        },
                    )
                },
            }
        },
    }
}

/// Reads the backend's kind token and host argument from the text of the
/// kernel command line.
///
/// The first whitespace-separated token that starts with
/// `agent.aa_kbc_params=` decides: its value must split at `::` into exactly
/// two parts. Without such a token the parameter is missing; with any other
/// number of parts it is malformed.
///
/// Characters are reached by their position, which costs a pass over the text
/// each time; a kernel command line is a few thousand bytes at most.
pub fn parse_boot_parameters(cmdline: &str) -> (r: Result<BootParameters, ClientError>)
    ensures
        reports(r, reading_of(cmdline@)),
{
    let n: usize = cmdline.unicode_len();
    let m: usize = "agent.aa_kbc_params=".unicode_len();
    let ghost s = cmdline@;
    let mut i: usize = 0;
    while i < n
        invariant
            n == s.len(),
            s == cmdline@,
            m == prefix().len(),
            i <= n,
            i < n ==> (i == 0 || is_ascii_space(s[i - 1])),
            forall|a: int, b: int| #[trigger] param_token_at(s, a, b) ==> i <= a,
        decreases n - i,
    {
        if is_ascii_whitespace(cmdline.get_char(i)) {
            assert forall|a: int, b: int| #[trigger] param_token_at(s, a, b) implies i + 1 <= a by {
                if a == i {
                    assert(!is_ascii_space(s[a]));
                }
            }
            i += 1;
        } else {
            let end: usize = token_end(cmdline, i);
            assert(token_at(s, i as int, end as int));
            if token_has_prefix(cmdline, i, end) {
                let value = cmdline.substring_char(i + m, end);
                proof {
                    assert(first_param_token(s, i as int, end as int));
                    lemma_reading_of_first_token(s, i as int, end as int);
                }
                return match split_kind_and_host(value) {
                    Some(parameters) => Ok(parameters),
                    None => Err(ClientError::MalformedParameter),
                };
            }
            let next: usize = if end < n { end + 1 } else { end };
            assert forall|a: int, b: int| #[trigger] param_token_at(s, a, b) implies next <= a by {
                if a == i {
                    lemma_token_end_unique(s, a, b, end as int);
                } else if a < next {
                    if a < end {
                        assert(!is_ascii_space(s[a - 1]));
                    } else {
                        assert(!is_ascii_space(s[a]));
                    }
                }
            }
            i = next;
        }
    }
    assert(!exists|a: int, b: int| first_param_token(s, a, b));
    Err(ClientError::MissingParameter)
}

} // verus!
