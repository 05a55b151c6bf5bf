//! Character and string helpers shared by the validation and extraction
//! logic: ASCII case-insensitive comparison and filename-extension
//! resolution.

use vstd::prelude::*;

verus! {

/// Two characters are equal up to ASCII case: either identical, or one is an
/// ASCII upper-case letter and the other its lower-case counterpart.
pub open spec fn chars_ieq(a: char, b: char) -> bool {
    a == b
    || (65 <= a as u32 <= 90 && b as u32 == a as u32 + 32)
    || (65 <= b as u32 <= 90 && a as u32 == b as u32 + 32)
}

/// Two strings are equal up to ASCII case, character by character.
pub open spec fn str_ieq(a: Seq<char>, b: Seq<char>) -> bool {
    a.len() == b.len() && (forall|i: int| 0 <= i < a.len() ==> chars_ieq(a[i], b[i]))
}

/// Compares two strings for equality ignoring ASCII case.
pub fn eq_ignore_case(a: &str, b: &str) -> (r: bool)
    ensures
        r == str_ieq(a@, b@),
{
    let alen = a.unicode_len();
    let blen = b.unicode_len();
    if alen != blen {
        return false;
    }
    let mut i: usize = 0;
    while i < alen
        invariant
            alen == a@.len(),
            blen == b@.len(),
            alen == blen,
            i <= alen,
            forall|j: int| 0 <= j < i ==> chars_ieq(a@[j], b@[j]),
        decreases alen - i,
    {
        let ca = a.get_char(i);
        let cb = b.get_char(i);
        let ua = ca as u32;
        let ub = cb as u32;
        let same = ua == ub
            || (65 <= ua && ua <= 90 && ub == ua + 32)
            || (65 <= ub && ub <= 90 && ua == ub + 32);
        if !same {
            assert(!chars_ieq(a@[i as int], b@[i as int]));
            return false;
        }
        i = i + 1;
    }
    true
}

/// The suffix of `s` after its last `'.'`; the whole string when `s` holds no
/// `'.'`, and empty when `s` ends with `'.'`.
pub open spec fn spec_last_segment(s: Seq<char>) -> Seq<char>
    decreases s.len(),
{
    if s.len() == 0 {
        s
    } else if s[s.len() - 1] == '.' {
        Seq::empty()
    } else {
        spec_last_segment(s.drop_last()).push(s[s.len() - 1])
    }
}

/// `s` ends with the compound archive suffix `".tar.gz"`.
pub open spec fn spec_has_tar_gz_suffix(s: Seq<char>) -> bool {
    s.len() >= 7 && s.subrange(s.len() - 7, s.len() as int) == ".tar.gz"@
}

/// The extension token a filename resolves to: a trailing `".tar.gz"` counts
/// as the single compound token `"tar.gz"`; otherwise the segment after the
/// last `'.'`.
pub open spec fn spec_resolved_ext(s: Seq<char>) -> Seq<char> {
    if spec_has_tar_gz_suffix(s) {
        "tar.gz"@
    } else {
        spec_last_segment(s)
    }
}

proof fn lemma_last_segment_from_dot(s: Seq<char>, i: int)
    requires
        0 <= i < s.len(),
        s[i] == '.',
        forall|j: int| i < j < s.len() ==> s[j] != '.',
    ensures
        spec_last_segment(s) == s.subrange(i + 1, s.len() as int),
    decreases s.len(),
{
    if i == s.len() - 1 {
        assert(s.subrange(i + 1, s.len() as int) =~= Seq::empty());
    } else {
        lemma_last_segment_from_dot(s.drop_last(), i);
        assert(s.drop_last().subrange(i + 1, s.len() - 1) =~= s.subrange(i + 1, s.len() - 1));
        assert(spec_last_segment(s) == spec_last_segment(s.drop_last()).push(s[s.len() - 1]));
        assert(s.subrange(i + 1, s.len() - 1).push(s[s.len() - 1]) =~= s.subrange(
            i + 1,
            s.len() as int,
        ));
    }
}

proof fn lemma_last_segment_no_dot(s: Seq<char>)
    requires
        forall|j: int| 0 <= j < s.len() ==> s[j] != '.',
    ensures
        spec_last_segment(s) == s,
    decreases s.len(),
{
    if s.len() > 0 {
        lemma_last_segment_no_dot(s.drop_last());
        assert(s.drop_last().push(s[s.len() - 1]) =~= s);
    }
}

/// Returns the segment of `s` after its last `'.'` (the whole of `s` when it
/// has none), as `spec_last_segment` describes.
pub fn last_segment(s: &str) -> (r: String)
    ensures
        r@ == spec_last_segment(s@),
{
    let len = s.unicode_len();
    let mut i: usize = len;
    while i > 0
        invariant
            len == s@.len(),
            i <= len,
            forall|j: int| i <= j < len ==> s@[j] != '.',
        decreases i,
    {
        if s.get_char(i - 1) == '.' {
            let tail = s.substring_char(i, len);
            proof {
                lemma_last_segment_from_dot(s@, i - 1);
            }
            return tail.to_owned();
        }
        i = i - 1;
    }
    proof {
        lemma_last_segment_no_dot(s@);
    }
    s.to_owned()
}

/// Decides whether `s` ends with `".tar.gz"`.
pub fn has_tar_gz_suffix(s: &str) -> (r: bool)
    ensures
        r == spec_has_tar_gz_suffix(s@),
{
    let len = s.unicode_len();
    if len < 7 {
        return false;
    }
    let tail = s.substring_char(len - 7, len);
    proof {
        reveal_strlit(".tar.gz");
    }
    let expect = ".tar.gz";
    let r = eq_exact(tail, expect);
    proof {
        if tail@ == expect@ {
            assert(s@.subrange(s@.len() - 7, s@.len() as int) == ".tar.gz"@);
        }
    }
    r
}

/// Compares two strings for exact equality of their character sequences.
pub fn eq_exact(a: &str, b: &str) -> (r: bool)
    ensures
        r == (a@ == b@),
{
    let alen = a.unicode_len();
    let blen = b.unicode_len();
    if alen != blen {
        assert(a@ != b@);
        return false;
    }
    let mut i: usize = 0;
    while i < alen
        invariant
            alen == a@.len(),
            blen == b@.len(),
            alen == blen,
            i <= alen,
            forall|j: int| 0 <= j < i ==> a@[j] == b@[j],
        decreases alen - i,
    {
        if a.get_char(i) != b.get_char(i) {
            return false;
        }
        i = i + 1;
    }
    proof {
        assert(a@ =~= b@);
    }
    true
}

/// The extension token of a filename, treating a trailing `".tar.gz"` as one
/// compound token, as `spec_resolved_ext` describes.
pub fn resolved_ext(s: &str) -> (r: String)
    ensures
        r@ == spec_resolved_ext(s@),
{
    if has_tar_gz_suffix(s) {
        let r = "tar.gz";
        proof {
            reveal_strlit("tar.gz");
        }
        r.to_owned()
    } else {
        last_segment(s)
    }
}

/// Concatenates two strings.
pub fn concat_str(a: &str, b: &str) -> (r: String)
    ensures
        r@ == a@ + b@,
{
    let mut r = a.to_owned();
    r.append(b);
    r
}

} // verus!
