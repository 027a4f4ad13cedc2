//! Comparing and searching text.

use vstd::prelude::*;
use vstd::string::StringSliceAdditionalSpecFns;
use vstd::utf8::{encode_scalar, encode_utf8, encode_utf8_decode_utf8};

verus! {

/// The position of the first `c` in `s`, or the length of `s` where `s` holds
/// no `c`.
pub open spec fn first_index(s: Seq<char>, c: char) -> int
    decreases s.len(),
{
    if s.len() == 0 || s[0] == c {
        0
    } else {
        1 + first_index(s.drop_first(), c)
    }
}

/// The position of the last `c` in `s`, or `-1` where `s` holds no `c`.
pub open spec fn last_index(s: Seq<char>, c: char) -> int
    decreases s.len(),
{
    if s.len() == 0 {
        -1
    } else if s.last() == c {
        s.len() - 1
    } else {
        last_index(s.drop_last(), c)
    }
}

/// `first_index` is within the text, no `c` stands before it, and a `c` stands
/// at it unless it is the length.
pub proof fn lemma_first_index(s: Seq<char>, c: char)
    ensures
        0 <= first_index(s, c) <= s.len(),
        forall|j: int| 0 <= j < first_index(s, c) ==> s[j] != c,
        first_index(s, c) < s.len() ==> s[first_index(s, c)] == c,
    decreases s.len(),
{
    if s.len() == 0 || s[0] == c {
    } else {
        let rest = s.drop_first();
        lemma_first_index(rest, c);
        assert forall|j: int| 0 <= j < first_index(s, c) implies s[j] != c by {
            if j > 0 {
                assert(s[j] == rest[j - 1]);
            }
        }
    }
}

/// The only position with no `c` before it and a `c` at it, or the end of the
/// text, is `first_index`.
pub proof fn lemma_first_index_is(s: Seq<char>, c: char, at: int)
    requires
        0 <= at <= s.len(),
        forall|j: int| 0 <= j < at ==> s[j] != c,
        at < s.len() ==> s[at] == c,
    ensures
        first_index(s, c) == at,
{
    lemma_first_index(s, c);
}

/// `last_index` is within the text or `-1`, no `c` stands after it, and a `c`
/// stands at it unless it is `-1`.
pub proof fn lemma_last_index(s: Seq<char>, c: char)
    ensures
        -1 <= last_index(s, c) < s.len(),
        forall|j: int| last_index(s, c) < j < s.len() ==> s[j] != c,
        0 <= last_index(s, c) ==> s[last_index(s, c)] == c,
    decreases s.len(),
{
    if s.len() == 0 || s.last() == c {
    } else {
        let rest = s.drop_last();
        lemma_last_index(rest, c);
        assert forall|j: int| last_index(s, c) < j < s.len() implies s[j] != c by {
            if j < s.len() - 1 {
                assert(s[j] == rest[j]);
            }
        }
    }
}

/// The only position with no `c` after it and a `c` at it, or `-1`, is
/// `last_index`.
pub proof fn lemma_last_index_is(s: Seq<char>, c: char, at: int)
    requires
        -1 <= at < s.len(),
        forall|j: int| at < j < s.len() ==> s[j] != c,
        0 <= at ==> s[at] == c,
    ensures
        last_index(s, c) == at,
{
    lemma_last_index(s, c);
}

/// A text has no more characters than its encoding has bytes.
pub proof fn lemma_chars_fit_in_bytes(s: Seq<char>)
    ensures
        s.len() <= encode_utf8(s).len(),
    decreases s.len(),
{
    if s.len() > 0 {
        assert(encode_scalar(s[0] as u32).len() >= 1);
        lemma_chars_fit_in_bytes(s.drop_first());
    }
}

/// Whether two strings hold the same text.
pub fn same_text(a: &str, b: &str) -> (same: bool)
    ensures
        same == (a@ == b@),
{
    let x = a.as_bytes();
    let y = b.as_bytes();
    proof {
        encode_utf8_decode_utf8(a@);
        encode_utf8_decode_utf8(b@);
    }
    if x.len() != y.len() {
        return false;
    }
    let mut i: usize = 0;
    while i < x.len()
        invariant
            i <= x.len(),
            x.len() == y.len(),
            x@ == a.spec_bytes(),
            y@ == b.spec_bytes(),
            forall|j: int| 0 <= j < i ==> x@[j] == y@[j],
        decreases x.len() - i,
    {
        if x[i] != y[i] {
            return false;
        }
        i += 1;
    }
    assert(x@ =~= y@);
    true
}

/// The position of the first `c` in `text`, counted in characters. Positions
/// in a string fit in `usize`.
pub fn find_first(text: &str, c: char) -> (at: Option<usize>)
    ensures
        text@.len() <= usize::MAX,
        match at {
            Some(i) => i == first_index(text@, c) && i < text@.len(),
            None => first_index(text@, c) == text@.len(),
        },
{
    let limit: usize = text.as_bytes().len();
    proof {
        lemma_chars_fit_in_bytes(text@);
    }
    let mut i: usize = 0;
    let mut at: Option<usize> = None;
    for x in it: text.chars()
        invariant_except_break
            i == it.index(),
            at is None,
        invariant
            it.seq() == text@,
            text@.len() <= limit,
            i <= text@.len(),
            forall|j: int| 0 <= j < i ==> text@[j] != c,
        ensures
            at matches Some(k) ==> k == i && i < text@.len() && text@[i as int] == c,
            at is None ==> i == text@.len(),
    {
        if x == c {
            at = Some(i);
            break;
        }
        i += 1;
    }
    proof {
        lemma_first_index_is(text@, c, i as int);
    }
    at
}

/// The position of the last `c` in `text`, counted in characters. Positions
/// in a string fit in `usize`.
pub fn find_last(text: &str, c: char) -> (at: Option<usize>)
    ensures
        text@.len() <= usize::MAX,
        match at {
            Some(i) => i == last_index(text@, c) && i < text@.len(),
            None => last_index(text@, c) == -1,
        },
{
    let limit: usize = text.as_bytes().len();
    proof {
        lemma_chars_fit_in_bytes(text@);
    }
    let mut i: usize = 0;
    let mut at: Option<usize> = None;
    for x in it: text.chars()
        invariant
            i == it.index(),
            it.seq() == text@,
            text@.len() <= limit,
            i <= text@.len(),
            at matches Some(k) ==> k < i && text@[k as int] == c && forall|j: int|
                k < j < i ==> text@[j] != c,
            at is None ==> forall|j: int| 0 <= j < i ==> text@[j] != c,
    {
        if x == c {
            at = Some(i);
        }
        i += 1;
    }
    proof {
        match at {
            Some(k) => lemma_last_index_is(text@, c, k as int),
            None => lemma_last_index_is(text@, c, -1),
        }
    }
    at
}

} // verus!
