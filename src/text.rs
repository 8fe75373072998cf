//! Character-level scanning of script text: collecting characters, finding
//! every occurrence of a marker and the end of a line.
use vstd::prelude::*;
use vstd::std_specs::iter::IteratorSpec;

verus! {

broadcast use vstd::string::group_string_axioms;

/// Whether `pat` stands in `s` at position `i`.
pub open spec fn matches_at(s: Seq<char>, pat: Seq<char>, i: int) -> bool {
    0 <= i && i + pat.len() <= s.len() && s.subrange(i, i + pat.len()) == pat
}

/// Start positions of the non-overlapping occurrences of a non-empty `pat` in
/// `s` at or after `i`, in left-to-right order: after a match the search goes
/// on past its end.
pub open spec fn occurrences_from(s: Seq<char>, pat: Seq<char>, i: nat) -> Seq<int>
    decreases s.len() - i,
{
    if pat.len() == 0 || i + pat.len() > s.len() {
        Seq::empty()
    } else if s.subrange(i as int, (i + pat.len()) as int) == pat {
        seq![i as int] + occurrences_from(s, pat, i + pat.len())
    } else {
        occurrences_from(s, pat, i + 1)
    }
}

/// Start positions of the non-overlapping occurrences of `pat` in `s`.
pub open spec fn occurrences(s: Seq<char>, pat: Seq<char>) -> Seq<int> {
    occurrences_from(s, pat, 0)
}

/// Every occurrence found from `i` lies at or after `i` and inside `s`, and
/// the occurrences come in increasing order.
pub proof fn lemma_occurrences_in_bounds(s: Seq<char>, pat: Seq<char>, i: nat)
    ensures
        forall|k: int|
            0 <= k < occurrences_from(s, pat, i).len() ==> i <= #[trigger] occurrences_from(s, pat, i)[k]
                && occurrences_from(s, pat, i)[k] + pat.len() <= s.len(),
        forall|k: int, m: int|
            0 <= k < m < occurrences_from(s, pat, i).len() ==> #[trigger] occurrences_from(s, pat, i)[k]
                < #[trigger] occurrences_from(s, pat, i)[m],
    decreases s.len() - i,
{
    if pat.len() == 0 || i + pat.len() > s.len() {
    } else if s.subrange(i as int, (i + pat.len()) as int) == pat {
        lemma_occurrences_in_bounds(s, pat, i + pat.len());
        let rest = occurrences_from(s, pat, i + pat.len());
        let all = occurrences_from(s, pat, i);
        assert(all == seq![i as int] + rest);
        assert forall|k: int| 0 <= k < all.len() implies i <= #[trigger] all[k] && all[k] + pat.len()
            <= s.len() by {
            if k > 0 {
                assert(all[k] == rest[k - 1]);
            }
        }
        assert forall|k: int, m: int| 0 <= k < m < all.len() implies #[trigger] all[k]
            < #[trigger] all[m] by {
            assert(all[m] == rest[m - 1]);
            if k > 0 {
                assert(all[k] == rest[k - 1]);
            }
        }
    } else {
        lemma_occurrences_in_bounds(s, pat, i + 1);
        assert(occurrences_from(s, pat, i) == occurrences_from(s, pat, i + 1));
    }
}

/// The first position at or after `i` that holds `c`, if any.
pub open spec fn first_from(s: Seq<char>, c: char, i: nat) -> Option<int>
    decreases s.len() - i,
{
    if i >= s.len() {
        None
    } else if s[i as int] == c {
        Some(i as int)
    } else {
        first_from(s, c, i + 1)
    }
}

/// What `substring` returns for character positions `a` and `b`: nothing where
/// `b <= a`, otherwise the characters from `a` to `b`, both cut to the length.
pub open spec fn clamped_slice(s: Seq<char>, a: int, b: int) -> Seq<char> {
    if b <= a {
        Seq::empty()
    } else {
        let lo = if a < s.len() { a } else { s.len() as int };
        let hi = if b < s.len() { b } else { s.len() as int };
        s.subrange(lo, hi)
    }
}

/// Relies on `substring::Substring::substring`, which selects characters (not
/// bytes) from `start_index` up to `end_index`, clamps both to the string's end,
/// and is empty where `end_index <= start_index`.
#[verifier::external_body]
pub(crate) fn substring(s: &str, start_index: usize, end_index: usize) -> (r: String)
    ensures
        r@ == clamped_slice(s@, start_index as int, end_index as int),
{
    substring::Substring::substring(s, start_index, end_index).to_string()
}

/// The characters of `s`, one per element.
pub fn chars_of(s: &str) -> (r: Vec<char>)
    ensures
        r@ == s@,
{
    let mut it = s.chars();
    let mut r: Vec<char> = Vec::new();
    loop
        invariant
            r@ + it.remaining() == s@,
        ensures
            r@ == s@,
        decreases s@.len() - r@.len(),
    {
        let ghost before = it.remaining();
        match it.next() {
            Some(c) => {
                r.push(c);
            },
            None => {
                assert(before.len() == 0);
                assert(r@ + before =~= r@);
                break;
            },
        }
    }
    r
}

/// Whether `pat` stands in `s` at position `i`, compared character by character.
fn matches_here(s: &Vec<char>, pat: &Vec<char>, i: usize) -> (r: bool)
    requires
        i + pat@.len() <= s@.len(),
    ensures
        r == (s@.subrange(i as int, i + pat@.len()) == pat@),
{
    let n: usize = s.len();
    let mut j: usize = 0;
    while j < pat.len()
        invariant
            n == s@.len(),
            i + pat@.len() <= s@.len(),
            j <= pat@.len(),
            forall|k: int| 0 <= k < j ==> s@[i + k] == pat@[k],
        decreases pat@.len() - j,
    {
        if s[i + j] != pat[j] {
            assert(s@.subrange(i as int, i + pat@.len())[j as int] != pat@[j as int]);
            return false;
        }
        j = j + 1;
    }
    assert(s@.subrange(i as int, i + pat@.len()) =~= pat@);
    true
}

/// Whether `pat` stands somewhere in `s`.
pub open spec fn occurs_in(s: Seq<char>, pat: Seq<char>) -> bool {
    exists|i: int| matches_at(s, pat, i)
}

/// Whether `pat` stands somewhere in `s`.
pub fn contains(s: &Vec<char>, pat: &Vec<char>) -> (r: bool)
    ensures
        r == occurs_in(s@, pat@),
{
    if pat.len() == 0 {
        assert(s@.subrange(0, 0) =~= pat@);
        assert(matches_at(s@, pat@, 0));
        return true;
    }
    let mut i: usize = 0;
    while i <= s.len() && pat.len() <= s.len() - i
        invariant
            pat@.len() > 0,
            i <= s@.len(),
            forall|k: int| 0 <= k < i ==> !#[trigger] matches_at(s@, pat@, k),
        decreases s@.len() - i,
    {
        if matches_here(s, pat, i) {
            assert(matches_at(s@, pat@, i as int));
            return true;
        }
        i = i + 1;
    }
    assert forall|k: int| !#[trigger] matches_at(s@, pat@, k) by {
        if 0 <= k < i {
        }
    }
    false
}

/// The start positions of the non-overlapping occurrences of a non-empty `pat`
/// in `s`, left to right.
pub fn find_all(s: &Vec<char>, pat: &Vec<char>) -> (r: Vec<usize>)
    requires
        pat@.len() > 0,
    ensures
        r@.len() == occurrences(s@, pat@).len(),
        forall|k: int| 0 <= k < r@.len() ==> r@[k] as int == #[trigger] occurrences(s@, pat@)[k],
{
    let mut r: Vec<usize> = Vec::new();
    let mut i: usize = 0;
    let ghost found: Seq<int> = Seq::empty();
    while i <= s.len() && pat.len() <= s.len() - i
        invariant
            pat@.len() > 0,
            i <= s@.len(),
            found.len() == r@.len(),
            forall|k: int| 0 <= k < r@.len() ==> r@[k] as int == #[trigger] found[k],
            found + occurrences_from(s@, pat@, i as nat) == occurrences(s@, pat@),
        decreases s@.len() - i,
    {
        assert(i + pat@.len() <= s@.len());
        if matches_here(s, pat, i) {
            proof {
                assert(occurrences_from(s@, pat@, i as nat) == seq![i as int] + occurrences_from(
                    s@,
                    pat@,
                    (i + pat@.len()) as nat,
                ));
                assert(found.push(i as int) + occurrences_from(s@, pat@, (i + pat@.len()) as nat)
                    =~= found + occurrences_from(s@, pat@, i as nat));
                found = found.push(i as int);
            }
            r.push(i);
            i = i + pat.len();
        } else {
            i = i + 1;
        }
    }
    assert(occurrences_from(s@, pat@, i as nat) == Seq::<int>::empty());
    assert(found =~= occurrences(s@, pat@));
    r
}

/// The first position at or after `from` that holds `c`, if any.
pub fn find_char_from(s: &Vec<char>, c: char, from: usize) -> (r: Option<usize>)
    ensures
        match r {
            Some(p) => first_from(s@, c, from as nat) == Some(p as int),
            None => first_from(s@, c, from as nat) is None,
        },
{
    let mut i: usize = from;
    while i < s.len()
        invariant
            from <= i,
            first_from(s@, c, from as nat) == first_from(s@, c, i as nat),
        decreases s@.len() - i,
    {
        if s[i] == c {
            return Some(i);
        }
        i = i + 1;
    }
    None
}

} // verus!
