//! The identifier scanner: finds the first substring of a text that has the
//! shape of a paper identifier, four digits, a dot, then four or five digits.
//! The match is a candidate only; nothing here checks it against a registry.

use vstd::prelude::*;
use crate::text::is_digit;

verus! {

/// An identifier occurrence of length `n` (nine or ten characters)
/// starting at position `i`.
pub open spec fn id_match_at(s: Seq<char>, i: int, n: int) -> bool {
    &&& (n == 9 || n == 10)
    &&& 0 <= i
    &&& i + n <= s.len()
    &&& (forall|k: int| i <= k < i + 4 ==> is_digit(s[k]))
    &&& s[i + 4] == '.'
    &&& (forall|k: int| i + 5 <= k < i + n ==> is_digit(s[k]))
}

/// Some identifier occurrence starts at position `i`.
pub open spec fn has_match_at(s: Seq<char>, i: int) -> bool {
    id_match_at(s, i, 9) || id_match_at(s, i, 10)
}

/// The text holds at least one identifier occurrence.
pub open spec fn has_some_match(s: Seq<char>) -> bool {
    exists|i: int| has_match_at(s, i)
}

/// The position of the leftmost identifier occurrence.
pub open spec fn first_match_index(s: Seq<char>) -> int {
    choose|i: int|
        has_match_at(s, i) && (forall|j: int| 0 <= j < i ==> !has_match_at(s, j))
}

/// The length taken at a match position: ten characters when a fifth
/// trailing digit is present, nine otherwise.
pub open spec fn match_len(s: Seq<char>, i: int) -> int {
    if id_match_at(s, i, 10) {
        10
    } else {
        9
    }
}

/// The leftmost identifier occurrence of the text, at its full length.
pub open spec fn extracted_id(s: Seq<char>) -> Seq<char> {
    s.subrange(first_match_index(s), first_match_index(s) + match_len(s, first_match_index(s)))
}

/// A position at or before every match and itself matching is the
/// position the scanner reports.
proof fn lemma_first_match_is(s: Seq<char>, i: int)
    requires
        has_match_at(s, i),
        forall|j: int| 0 <= j < i ==> !has_match_at(s, j),
    ensures
        first_match_index(s) == i,
{
    let w = choose|w: int|
        has_match_at(s, w) && (forall|j: int| 0 <= j < w ==> !has_match_at(s, j));
    assert(has_match_at(s, i) && (forall|j: int| 0 <= j < i ==> !has_match_at(s, j)));
    if w < i {
        assert(!has_match_at(s, w));
    }
    if i < w {
        assert(!has_match_at(s, i));
    }
}

/// True when an occurrence starts at `i`; reports whether a fifth trailing
/// digit makes it a ten-character occurrence.
fn match_here(v: &Vec<char>, i: usize) -> (r: Option<usize>)
    ensures
        r is Some <==> has_match_at(v@, i as int),
        r is Some ==> r->Some_0 == match_len(v@, i as int) && i + r->Some_0 <= v@.len(),
{
    let lim = v.len();
    if lim < 9 || i > lim - 9 {
        proof {
            assert(!has_match_at(v@, i as int));
        }
        return None;
    }
    let mut k: usize = 0;
    while k < 4
        invariant
            lim == v@.len(),
            i + 9 <= lim,
            0 <= k <= 4,
            forall|m: int| i <= m < i + k ==> is_digit(v@[m]),
        decreases 4 - k,
    {
        let c = v[i + k];
        if !(c as u32 >= 48 && c as u32 <= 57) {
            proof {
                assert(!is_digit(v@[i + k as int]));
                assert(!has_match_at(v@, i as int));
            }
            return None;
        }
        k = k + 1;
    }
    if v[i + 4] != '.' {
        proof {
            assert(!has_match_at(v@, i as int));
        }
        return None;
    }
    let mut k2: usize = 5;
    while k2 < 9
        invariant
            lim == v@.len(),
            i + 9 <= lim,
            5 <= k2 <= 9,
            v@[i + 4] == '.',
            forall|m: int| i <= m < i + 4 ==> is_digit(v@[m]),
            forall|m: int| i + 5 <= m < i + k2 ==> is_digit(v@[m]),
        decreases 9 - k2,
    {
        let c = v[i + k2];
        if !(c as u32 >= 48 && c as u32 <= 57) {
            proof {
                assert(!is_digit(v@[i + k2 as int]));
                assert(!id_match_at(v@, i as int, 9));
                assert(!id_match_at(v@, i as int, 10));
            }
            return None;
        }
        k2 = k2 + 1;
    }
    proof {
        assert(id_match_at(v@, i as int, 9));
    }
    if v.len() - i >= 10 {
        let c = v[i + 9];
        if c as u32 >= 48 && c as u32 <= 57 {
            proof {
                assert(is_digit(v@[i + 9]));
                assert(id_match_at(v@, i as int, 10));
            }
            return Some(10);
        }
        proof {
            assert(!is_digit(v@[i + 9]));
            assert(!id_match_at(v@, i as int, 10));
        }
        return Some(9);
    }
    proof {
        assert(!id_match_at(v@, i as int, 10));
    }
    Some(9)
}

/// Scans the text for the first identifier occurrence, leftmost first and,
/// at that position, longest first. Returns the occurrence unchanged.
pub fn find_identifier(text: &str) -> (r: Option<String>)
    ensures
        r is Some <==> has_some_match(text@),
        r is Some ==> r->Some_0@ == extracted_id(text@),
{
    let n = text.unicode_len();
    let v = crate::text::str_to_chars(text);
    let mut i: usize = 0;
    while i < n
        invariant
            n == text@.len(),
            v@ == text@,
            0 <= i <= n,
            forall|j: int| 0 <= j < i ==> !has_match_at(text@, j),
        decreases n - i,
    {
        let m = match_here(&v, i);
        if let Some(len) = m {
            proof {
                lemma_first_match_is(text@, i as int);
            }
            let found = text.substring_char(i, i + len);
            proof {
                assert(found@ =~= extracted_id(text@));
            }
            return Some(String::from_str(found));
        }
        i = i + 1;
    }
    proof {
        assert(forall|j: int| has_match_at(text@, j) ==> 0 <= j < n);
        assert(!has_some_match(text@));
    }
    None
}

/// When the text holds exactly one identifier occurrence, the scanner's
/// result is that occurrence itself, unchanged.
pub proof fn lemma_extract_unique(s: Seq<char>, i: int, n: int)
    requires
        id_match_at(s, i, n),
        forall|j: int, k: int| id_match_at(s, j, k) ==> j == i && k == n,
    ensures
        has_some_match(s),
        extracted_id(s) == s.subrange(i, i + n),
{
    assert(has_match_at(s, i));
    assert(forall|j: int| 0 <= j < i ==> !has_match_at(s, j));
    lemma_first_match_is(s, i);
    if n == 10 {
        assert(id_match_at(s, i, 10));
        assert(match_len(s, i) == 10);
    } else {
        assert(!id_match_at(s, i, 10));
        assert(match_len(s, i) == 9);
    }
}

/// When occurrences start at one position only, the scanner's result is
/// the occurrence at that position, at its full length. (At one position
/// a ten-character occurrence contains a nine-character one, so the full
/// length is what a reader sees as the matching substring there.)
pub proof fn lemma_extract_unique_position(s: Seq<char>, i: int)
    requires
        has_match_at(s, i),
        forall|j: int| has_match_at(s, j) ==> j == i,
    ensures
        has_some_match(s),
        extracted_id(s) == s.subrange(i, i + match_len(s, i)),
{
    assert(forall|j: int| 0 <= j < i ==> !has_match_at(s, j));
    lemma_first_match_is(s, i);
}

} // verus!
