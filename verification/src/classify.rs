//! Syntactic classification of actor identifiers: DID shape and domain-name
//! shape.  Both predicates are total and are proved equal to their
//! sequence-level specifications.

use vstd::prelude::*;

use crate::text::split_parts;
use crate::text::split_str;
use crate::text::str_eq;
use crate::text::str_views;
use vstd::string::StrSliceExecFns;

verus! {

/// A lowercase ASCII letter.
pub open spec fn is_lower_alpha(c: char) -> bool {
    ('a' as u32) <= (c as u32) && (c as u32) <= ('z' as u32)
}

/// An ASCII letter, an ASCII digit, or a hyphen.
pub open spec fn is_label_char(c: char) -> bool {
    ||| ('a' as u32) <= (c as u32) && (c as u32) <= ('z' as u32)
    ||| ('A' as u32) <= (c as u32) && (c as u32) <= ('Z' as u32)
    ||| ('0' as u32) <= (c as u32) && (c as u32) <= ('9' as u32)
    ||| c == '-'
}

/// The DID shape: splitting on `:` yields exactly the three non-empty parts
/// `did`, a lowercase-alphabetic method, and a method-specific identifier.
pub open spec fn is_did_spec(s: Seq<char>) -> bool {
    let parts = split_parts(s, ':');
    &&& parts.len() == 3
    &&& parts[0] == "did"@
    &&& parts[1].len() > 0
    &&& (forall|k: int| 0 <= k < parts[1].len() ==> is_lower_alpha(parts[1][k]))
    &&& parts[2].len() > 0
}

/// A single domain label: one to sixty-three characters, alphanumerics and
/// hyphens only, neither starting nor ending with a hyphen.
pub open spec fn valid_label(l: Seq<char>) -> bool {
    &&& 1 <= l.len() <= 63
    &&& l[0] != '-'
    &&& l[l.len() - 1] != '-'
    &&& (forall|k: int| 0 <= k < l.len() ==> is_label_char(l[k]))
}

/// The domain shape: total length in `[1, 253]`, at least two labels when
/// splitting on `.`, every label valid.
pub open spec fn is_valid_domain_spec(s: Seq<char>) -> bool {
    let labels = split_parts(s, '.');
    &&& 1 <= s.len() <= 253
    &&& labels.len() >= 2
    &&& (forall|i: int| 0 <= i < labels.len() ==> valid_label(labels[i]))
}

/// True exactly when `did` has the DID shape `did:<method>:<identifier>`,
/// with a non-empty lowercase-alphabetic method and a non-empty identifier.
pub fn is_did(did: &str) -> (r: bool)
    ensures
        r == is_did_spec(did@),
{
    let parts = split_str(did, ':');
    if parts.len() != 3 {
        return false;
    }
    if !str_eq(parts[0].as_str(), "did") {
        proof {
            assert(str_views(parts@)[0] == parts@[0]@);
        }
        return false;
    }
    let method = parts[1].as_str();
    let mlen: usize = method.unicode_len();
    proof {
        assert(str_views(parts@)[1] == parts@[1]@);
        assert(str_views(parts@)[2] == parts@[2]@);
    }
    if mlen == 0 {
        return false;
    }
    let mut k: usize = 0;
    while k < mlen
        invariant
            k <= mlen,
            mlen == method@.len(),
            method@ == split_parts(did@, ':')[1],
            forall|m: int| 0 <= m < k ==> is_lower_alpha(method@[m]),
        decreases mlen - k,
    {
        let c = method.get_char(k);
        let u = c as u32;
        if !(97 <= u && u <= 122) {
            proof {
                assert(!is_lower_alpha(method@[k as int]));
            }
            return false;
        }
        k = k + 1;
    }
    if parts[2].as_str().unicode_len() == 0 {
        return false;
    }
    true
}

/// True exactly when `l` is a valid domain label.
fn check_label(l: &str) -> (r: bool)
    ensures
        r == valid_label(l@),
{
    let n: usize = l.unicode_len();
    if n == 0 || n > 63 {
        return false;
    }
    if l.get_char(0) == '-' {
        return false;
    }
    if l.get_char(n - 1) == '-' {
        return false;
    }
    let mut k: usize = 0;
    while k < n
        invariant
            k <= n,
            n == l@.len(),
            forall|m: int| 0 <= m < k ==> is_label_char(l@[m]),
        decreases n - k,
    {
        let c = l.get_char(k);
        let u = c as u32;
        if !(97 <= u && u <= 122 || 65 <= u && u <= 90 || 48 <= u && u <= 57 || c == '-') {
            proof {
                assert(!is_label_char(l@[k as int]));
            }
            return false;
        }
        k = k + 1;
    }
    true
}

/// True exactly when `domain` is a plausibly valid domain name: total length
/// in `[1, 253]`, at least two labels, each label valid.
pub fn is_valid_domain(domain: &str) -> (r: bool)
    ensures
        r == is_valid_domain_spec(domain@),
{
    let n: usize = domain.unicode_len();
    if n == 0 || n > 253 {
        return false;
    }
    let labels = split_str(domain, '.');
    if labels.len() < 2 {
        return false;
    }
    let mut i: usize = 0;
    while i < labels.len()
        invariant
            i <= labels@.len(),
            str_views(labels@) == split_parts(domain@, '.'),
            forall|m: int| 0 <= m < i ==> valid_label(split_parts(domain@, '.')[m]),
        decreases labels@.len() - i,
    {
        proof {
            assert(str_views(labels@)[i as int] == labels@[i as int]@);
        }
        if !check_label(labels[i].as_str()) {
            return false;
        }
        i = i + 1;
    }
    true
}

} // verus!
