//! Verified text utilities: splitting a string on a separator character and
//! comparing two strings, together with the sequence-level model of both.

use vstd::prelude::*;

verus! {

/// The views of a sequence of strings.
pub open spec fn str_views(parts: Seq<String>) -> Seq<Seq<char>> {
    parts.map_values(|p: String| p@)
}

/// Index of the first occurrence of `sep` in `s`, or `s.len()` when `sep`
/// does not occur.
pub open spec fn first_sep(s: Seq<char>, sep: char) -> int
    decreases s.len(),
{
    if s.len() == 0 {
        0
    } else if s[0] == sep {
        0
    } else {
        1 + first_sep(s.drop_first(), sep)
    }
}

pub proof fn lemma_first_sep_bounds(s: Seq<char>, sep: char)
    ensures
        0 <= first_sep(s, sep) <= s.len(),
        first_sep(s, sep) < s.len() ==> s[first_sep(s, sep)] == sep,
        forall|m: int| 0 <= m < first_sep(s, sep) ==> s[m] != sep,
    decreases s.len(),
{
    if s.len() == 0 {
    } else if s[0] == sep {
    } else {
        lemma_first_sep_bounds(s.drop_first(), sep);
        assert forall|m: int| 0 <= m < first_sep(s, sep) implies s[m] != sep by {
            if m > 0 {
                assert(s.drop_first()[m - 1] == s[m]);
            }
        }
    }
}

/// `first_sep` is the unique position with no separator before it that is
/// either a separator or the end of the string.
pub proof fn lemma_first_sep_is(s: Seq<char>, sep: char, i: int)
    requires
        0 <= i <= s.len(),
        forall|m: int| 0 <= m < i ==> s[m] != sep,
        i < s.len() ==> s[i] == sep,
    ensures
        first_sep(s, sep) == i,
    decreases s.len(),
{
    if s.len() == 0 {
    } else if s[0] == sep {
        assert(i == 0);
    } else {
        assert(i != 0);
        assert forall|m: int| 0 <= m < i - 1 implies s.drop_first()[m] != sep by {
            assert(s.drop_first()[m] == s[m + 1]);
        }
        assert(i - 1 < s.drop_first().len() ==> s.drop_first()[i - 1] == sep);
        lemma_first_sep_is(s.drop_first(), sep, i - 1);
    }
}

/// The parts of `s` separated by `sep`, exactly as `str::split` yields them:
/// splitting the empty string gives one empty part, and a trailing separator
/// yields a trailing empty part.
pub open spec fn split_parts(s: Seq<char>, sep: char) -> Seq<Seq<char>>
    decreases s.len(),
    via split_parts_decreases
{
    let i = first_sep(s, sep);
    if i == s.len() {
        seq![s]
    } else {
        seq![s.subrange(0, i)] + split_parts(s.subrange(i + 1, s.len() as int), sep)
    }
}

#[via_fn]
proof fn split_parts_decreases(s: Seq<char>, sep: char) {
    lemma_first_sep_bounds(s, sep);
}

/// Unfolds `split_parts` at a known first separator position.
pub proof fn lemma_split_parts_head(s: Seq<char>, sep: char, i: int)
    requires
        0 <= i < s.len(),
        s[i] == sep,
        forall|m: int| 0 <= m < i ==> s[m] != sep,
    ensures
        split_parts(s, sep) == seq![s.subrange(0, i)] + split_parts(
            s.subrange(i + 1, s.len() as int),
            sep,
        ),
{
    lemma_first_sep_is(s, sep, i);
}

/// A string without the separator is a single part.
pub proof fn lemma_split_parts_whole(s: Seq<char>, sep: char)
    requires
        forall|m: int| 0 <= m < s.len() ==> s[m] != sep,
    ensures
        split_parts(s, sep) == seq![s],
{
    lemma_first_sep_is(s, sep, s.len() as int);
}

/// Splits `s` on `sep`, yielding the same parts in the same order as
/// `str::split` does.
pub fn split_str(s: &str, sep: char) -> (parts: Vec<String>)
    ensures
        str_views(parts@) == split_parts(s@, sep),
{
    let n: usize = s.unicode_len();
    let mut parts: Vec<String> = Vec::new();
    let mut start: usize = 0;
    let mut k: usize = 0;
    proof {
        assert(s@.subrange(0, n as int) =~= s@);
        assert(str_views(parts@) =~= Seq::<Seq<char>>::empty());
        assert(str_views(parts@) + split_parts(s@, sep) =~= split_parts(s@, sep));
    }
    while k < n
        invariant
            start <= k <= n,
            n == s@.len(),
            forall|m: int| start <= m < k ==> s@[m] != sep,
            split_parts(s@, sep) == str_views(parts@) + split_parts(
                s@.subrange(start as int, n as int),
                sep,
            ),
        decreases n - k,
    {
        let c = s.get_char(k);
        if c == sep {
            let part = s.substring_char(start, k).to_owned();
            proof {
                let tail = s@.subrange(start as int, n as int);
                assert(tail[k - start] == sep);
                assert forall|m: int| 0 <= m < k - start implies tail[m] != sep by {
                    assert(tail[m] == s@[start + m]);
                }
                lemma_split_parts_head(tail, sep, k - start);
                assert(tail.subrange(0, k - start) =~= s@.subrange(start as int, k as int));
                assert(tail.subrange(k - start + 1, tail.len() as int) =~= s@.subrange(
                    k + 1,
                    n as int,
                ));
                assert(str_views(parts@.push(part)) =~= str_views(parts@).push(part@));
                assert(str_views(parts@).push(part@) + split_parts(
                    s@.subrange(k + 1, n as int),
                    sep,
                ) =~= str_views(parts@) + (seq![part@] + split_parts(
                    s@.subrange(k + 1, n as int),
                    sep,
                )));
            }
            parts.push(part);
            start = k + 1;
        }
        k = k + 1;
    }
    let last = s.substring_char(start, n).to_owned();
    proof {
        let tail = s@.subrange(start as int, n as int);
        assert forall|m: int| 0 <= m < tail.len() implies tail[m] != sep by {
            assert(tail[m] == s@[start + m]);
        }
        lemma_split_parts_whole(tail, sep);
        assert(str_views(parts@.push(last)) =~= str_views(parts@).push(last@));
        assert(str_views(parts@) + seq![tail] =~= str_views(parts@).push(last@));
    }
    parts.push(last);
    parts
}

/// True exactly when the two strings hold the same characters.
pub fn str_eq(a: &str, b: &str) -> (r: bool)
    ensures
        r == (a@ == b@),
{
    let na: usize = a.unicode_len();
    let nb: usize = b.unicode_len();
    if na != nb {
        return false;
    }
    let mut i: usize = 0;
    while i < na
        invariant
            i <= na,
            na == a@.len(),
            nb == b@.len(),
            na == nb,
            forall|m: int| 0 <= m < i ==> a@[m] == b@[m],
        decreases na - i,
    {
        let ca = a.get_char(i);
        let cb = b.get_char(i);
        if ca != cb {
            return false;
        }
        i = i + 1;
    }
    proof {
        assert(a@ =~= b@);
    }
    true
}

} // verus!
