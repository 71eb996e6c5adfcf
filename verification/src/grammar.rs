//! The grammar of the command line, stated of whole command lines: what the
//! reader makes of a parameter that stands among other tokens.

use vstd::prelude::*;
use crate::boot::{
    first_param_token, first_separator, is_ascii_space, lemma_reading_of_first_token,
    lemma_value_splits, param_token_at, prefix, reading_of, separator_at, splits_in_two,
    token_at, value_reading, Reading,
};

verus! {

/// No character of `t` separates tokens.
pub open spec fn free_of_space(t: Seq<char>) -> bool {
    forall|i: int| 0 <= i < t.len() ==> !is_ascii_space(#[trigger] t[i])
}

/// No separator stands anywhere in `t`.
pub open spec fn free_of_separator(t: Seq<char>) -> bool {
    forall|i: int| !separator_at(t, i)
}

/// `before` can stand in front of a token, and `after` behind one: the first
/// is empty or ends in whitespace, the second is empty or begins with it.
pub open spec fn surrounds(before: Seq<char>, after: Seq<char>) -> bool {
    &&& before.len() == 0 || is_ascii_space(before.last())
    &&& after.len() == 0 || is_ascii_space(after.first())
}

/// No token of `before` starts with the prefix.
pub open spec fn free_of_parameter(before: Seq<char>) -> bool {
    forall|a: int, b: int| !param_token_at(before, a, b)
}

/// The value has several separators: a leftmost one, and another that begins
/// behind it.
pub open spec fn has_several_separators(v: Seq<char>) -> bool {
    exists|p: int, q: int| first_separator(v, p) && p + 2 <= q && separator_at(v, q)
}

/// The prefix has twenty characters, none of them whitespace.
pub proof fn lemma_prefix_shape()
    ensures
        prefix().len() == 20,
        free_of_space(prefix()),
{
    reveal_strlit("agent.aa_kbc_params=");
    let p = prefix();
    assert(p.len() == 20);
    assert(!is_ascii_space(p[0]) && !is_ascii_space(p[1]) && !is_ascii_space(p[2])
        && !is_ascii_space(p[3]) && !is_ascii_space(p[4]));
    assert(!is_ascii_space(p[5]) && !is_ascii_space(p[6]) && !is_ascii_space(p[7])
        && !is_ascii_space(p[8]) && !is_ascii_space(p[9]));
    assert(!is_ascii_space(p[10]) && !is_ascii_space(p[11]) && !is_ascii_space(p[12])
        && !is_ascii_space(p[13]) && !is_ascii_space(p[14]));
    assert(!is_ascii_space(p[15]) && !is_ascii_space(p[16]) && !is_ascii_space(p[17])
        && !is_ascii_space(p[18]) && !is_ascii_space(p[19]));
}

/// Where a separator stands, a leftmost separator stands at or before it.
pub proof fn lemma_first_separator_exists(v: Seq<char>, i: int)
    requires
        separator_at(v, i),
    ensures
        exists|p: int| first_separator(v, p) && p <= i,
    decreases i,
{
    if exists|j: int| 0 <= j < i && separator_at(v, j) {
        let j = choose|j: int| 0 <= j < i && separator_at(v, j);
        lemma_first_separator_exists(v, j);
        let p = choose|p: int| first_separator(v, p) && p <= j;
        assert(first_separator(v, p) && p <= i);
    } else {
        assert(first_separator(v, i));
    }
}

/// A parameter token that stands behind tokens without the prefix is the one
/// the reader takes: whatever surrounds it, the command line reads as the
/// token's value does.
pub proof fn lemma_embedded_value(before: Seq<char>, value: Seq<char>, after: Seq<char>)
    requires
        surrounds(before, after),
        free_of_parameter(before),
        free_of_space(value),
    ensures
        reading_of(before + prefix() + value + after) == value_reading(value),
{
    lemma_prefix_shape();
    let s = before + prefix() + value + after;
    let a = before.len() as int;
    let b = a + 20 + value.len();
    assert forall|i: int| 0 <= i < a implies s[i] == before[i] by {}
    assert forall|i: int| a <= i < a + 20 implies s[i] == prefix()[i - a] by {}
    assert forall|i: int| a + 20 <= i < b implies s[i] == value[i - a - 20] by {}
    assert forall|i: int| b <= i < s.len() implies s[i] == after[i - b] by {}
    assert forall|i: int| a <= i < b implies !is_ascii_space(#[trigger] s[i]) by {
        if i < a + 20 {
            assert(!is_ascii_space(prefix()[i - a]));
        } else {
            assert(!is_ascii_space(value[i - a - 20]));
        }
    }
    assert(token_at(s, a, b));
    assert(s.subrange(a, b).subrange(0, 20) =~= prefix());
    assert forall|c: int, d: int| #[trigger] param_token_at(s, c, d) implies a <= c by {
        if c < a {
            assert(is_ascii_space(s[a - 1]));
            assert(d <= a - 1);
            assert(token_at(before, c, d)) by {
                assert(is_ascii_space(s[d]));
                assert forall|i: int| c <= i < d implies !is_ascii_space(#[trigger] before[i]) by {
                    assert(!is_ascii_space(s[i]));
                }
            }
            assert(before.subrange(c, d) =~= s.subrange(c, d));
            assert(param_token_at(before, c, d));
        }
    }
    assert(first_param_token(s, a, b));
    lemma_reading_of_first_token(s, a, b);
    assert(s.subrange(a + 20, b) =~= value);
}

/// A kind and a host joined by one separator read as that kind and that host,
/// provided that neither holds a separator and the kind does not end in a
/// colon (which would move the leftmost separator one place to the left).
pub proof fn lemma_kind_and_host(kind: Seq<char>, host: Seq<char>)
    requires
        free_of_separator(kind),
        free_of_separator(host),
        kind.len() == 0 || kind.last() != ':',
    ensures
        value_reading(kind + "::"@ + host) == (Reading::Parameters { kind, host }),
{
    reveal_strlit("::");
    let v = kind + "::"@ + host;
    let p = kind.len() as int;
    assert(v[p] == ':' && v[p + 1] == ':');
    assert forall|i: int| 0 <= i < p implies !separator_at(v, i) by {
        if separator_at(v, i) {
            if i + 1 < p {
                assert(separator_at(kind, i));
            } else {
                assert(v[i] == kind.last());
            }
        }
    }
    assert forall|i: int| p + 2 <= i implies !separator_at(v, i) by {
        if separator_at(v, i) {
            assert(v[i] == host[i - p - 2]);
            assert(v[i + 1] == host[i - p - 1]);
            assert(separator_at(host, i - p - 2));
        }
    }
    assert(splits_in_two(v, p));
    lemma_value_splits(v, p);
    assert(v.subrange(0, p) =~= kind);
    assert(v.subrange(p + 2, v.len() as int) =~= host);
}

/// A value is malformed exactly where it holds no separator, or several.
pub proof fn lemma_malformed_value(v: Seq<char>)
    ensures
        value_reading(v) is Malformed <==> free_of_separator(v) || has_several_separators(v),
{
    if free_of_separator(v) {
        assert forall|x: int| !splits_in_two(v, x) by {
            assert(!separator_at(v, x));
        }
    } else if has_several_separators(v) {
        let (p, q) = choose|p: int, q: int|
            first_separator(v, p) && p + 2 <= q && separator_at(v, q);
        assert forall|x: int| !splits_in_two(v, x) by {
            if splits_in_two(v, x) {
                if x < p {
                    assert(separator_at(v, x));
                } else if p < x {
                    assert(separator_at(v, p));
                } else {
                    assert(separator_at(v, q));
                }
            }
        }
    } else {
        let i = choose|i: int| separator_at(v, i);
        assert(separator_at(v, i));
        lemma_first_separator_exists(v, i);
        let p = choose|p: int| first_separator(v, p) && p <= i;
        if !splits_in_two(v, p) {
            let q = choose|q: int| p + 2 <= q && separator_at(v, q);
            assert(first_separator(v, p) && p + 2 <= q && separator_at(v, q));
            assert(false);
        }
        assert(splits_in_two(v, p));
    }
}

/// The parameter `agent.aa_kbc_params=<kind>::<host>`, among tokens of which
/// none before it starts with the prefix, reads as `(kind, host)`.
pub proof fn lemma_embedded_parameter(
    before: Seq<char>,
    kind: Seq<char>,
    host: Seq<char>,
    after: Seq<char>,
)
    requires
        surrounds(before, after),
        free_of_parameter(before),
        free_of_space(kind),
        free_of_space(host),
        free_of_separator(kind),
        free_of_separator(host),
        kind.len() == 0 || kind.last() != ':',
    ensures
        reading_of(before + prefix() + (kind + "::"@ + host) + after) == (Reading::Parameters {
            kind,
            host,
        }),
{
    reveal_strlit("::");
    let value = kind + "::"@ + host;
    assert forall|i: int| 0 <= i < value.len() implies !is_ascii_space(#[trigger] value[i]) by {
        if i < kind.len() {
            assert(!is_ascii_space(kind[i]));
        } else if i >= kind.len() + 2 {
            assert(!is_ascii_space(host[i - kind.len() - 2]));
        }
    }
    lemma_embedded_value(before, value, after);
    lemma_kind_and_host(kind, host);
}

/// A parameter whose value holds no separator, or several, reads as
/// malformed, whatever surrounds it.
pub proof fn lemma_embedded_malformed(before: Seq<char>, value: Seq<char>, after: Seq<char>)
    requires
        surrounds(before, after),
        free_of_parameter(before),
        free_of_space(value),
        free_of_separator(value) || has_several_separators(value),
    ensures
        reading_of(before + prefix() + value + after) == Reading::Malformed,
{
    lemma_embedded_value(before, value, after);
    lemma_malformed_value(value);
}

/// A command line without a token that starts with the prefix reads as
/// missing the parameter.
pub proof fn lemma_missing_parameter(s: Seq<char>)
    requires
        free_of_parameter(s),
    ensures
        reading_of(s) == Reading::Missing,
{
    assert forall|a: int, b: int| !first_param_token(s, a, b) by {
        assert(!param_token_at(s, a, b));
    }
}

} // verus!
