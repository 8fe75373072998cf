//! The lines of a state block as a viewer shows them: which ones name a
//! sprite, which ones are highlighted, and the sprite name a line quotes.
use vstd::prelude::*;
use crate::text::{chars_of, clamped_slice, contains, find_all, lemma_occurrences_in_bounds, occurrences, occurs_in, substring};

verus! {

broadcast use vstd::string::group_string_axioms;

/// Positions of the single quotes of `s`, left to right.
pub open spec fn quotes(s: Seq<char>) -> Seq<int> {
    occurrences(s, seq!['\''])
}

/// The text strictly between the first and the second single quote of `s`,
/// where there are two.
pub open spec fn sprite_name(s: Seq<char>) -> Option<Seq<char>> {
    if quotes(s).len() < 2 {
        None
    } else {
        Some(s.subrange(quotes(s)[0] + 1, quotes(s)[1]))
    }
}

/// The sprite that a line of a state block selects: the text between its first
/// two single quotes, or `None` where the line holds fewer than two.
pub fn extract_selected_sprite_name(line: &str) -> (r: Option<String>)
    ensures
        match r {
            Some(name) => sprite_name(line@) == Some(name@),
            None => sprite_name(line@) is None,
        },
{
    let s = chars_of(line);
    let quote: Vec<char> = vec!['\''];
    assert(quote@ == seq!['\'']);
    let q = find_all(&s, &quote);
    if q.len() < 2 {
        return None;
    }
    proof {
        lemma_occurrences_in_bounds(line@, seq!['\''], 0);
    }
    let name = substring(line, q[0] + 1, q[1]);
    assert(clamped_slice(line@, q[0] + 1, q[1] as int) =~= line@.subrange(quotes(line@)[0] + 1, quotes(line@)[1]));
    Some(name)
}

/// Positions of the line ends of `s`, left to right.
pub open spec fn newlines(s: Seq<char>) -> Seq<int> {
    occurrences(s, seq!['\n'])
}

/// Where line `k` of `s` starts: at the start, or just past the previous line end.
pub open spec fn line_start(s: Seq<char>, k: int) -> int {
    if k == 0 {
        0
    } else {
        newlines(s)[k - 1] + 1
    }
}

/// Line `k` of `s`, without its line end.
pub open spec fn line_at(s: Seq<char>, k: int) -> Seq<char> {
    s.subrange(line_start(s, k), newlines(s)[k])
}

/// The lines of a state block's text, each without its line end. Text after
/// the last line end is not a line.
pub fn state_lines(text: &str) -> (r: Vec<String>)
    ensures
        r@.len() == newlines(text@).len(),
        forall|k: int| 0 <= k < r@.len() ==> #[trigger] r@[k]@ == line_at(text@, k),
{
    let s = chars_of(text);
    let newline: Vec<char> = vec!['\n'];
    assert(newline@ == seq!['\n']);
    let nl = find_all(&s, &newline);
    proof {
        lemma_occurrences_in_bounds(text@, seq!['\n'], 0);
    }
    let n: usize = s.len();
    let mut r: Vec<String> = Vec::new();
    let mut prev: usize = 0;
    let mut k: usize = 0;
    while k < nl.len()
        invariant
            s@ == text@,
            n == s@.len(),
            nl@.len() == newlines(text@).len(),
            forall|m: int| 0 <= m < nl@.len() ==> nl@[m] as int == #[trigger] newlines(text@)[m],
            forall|m: int|
                0 <= m < newlines(text@).len() ==> 0 <= #[trigger] newlines(text@)[m] && newlines(
                    text@,
                )[m] + 1 <= text@.len(),
            forall|a: int, b: int|
                0 <= a < b < newlines(text@).len() ==> #[trigger] newlines(text@)[a]
                    < #[trigger] newlines(text@)[b],
            k <= nl@.len(),
            prev == line_start(text@, k as int),
            r@.len() == k,
            forall|m: int| 0 <= m < k ==> #[trigger] r@[m]@ == line_at(text@, m),
        decreases nl@.len() - k,
    {
        let end = nl[k];
        let line = substring(text, prev, end);
        proof {
            if k > 0 {
                assert(newlines(text@)[k - 1] < newlines(text@)[k as int]);
            }
            assert(clamped_slice(text@, prev as int, end as int) =~= line_at(text@, k as int));
        }
        r.push(line);
        prev = end + 1;
        k = k + 1;
    }
    r
}

/// How a viewer shows a line of a state block.
#[derive(Clone, Copy, Debug, PartialEq, Eq, Structural)]
pub enum LineStyle {
    /// The line names a sprite, and selecting it shows that sprite.
    Sprite,
    /// The line sets up an attack or a grab, and stands out.
    Highlight,
    /// Any other line.
    Plain,
}

/// The style of the line `s`: a sprite line holds `sprite: `, a highlighted
/// one `hit:` or `grabOrRelease:`.
pub open spec fn line_style(s: Seq<char>) -> LineStyle {
    if occurs_in(s, "sprite: "@) {
        LineStyle::Sprite
    } else if occurs_in(s, "hit:"@) || occurs_in(s, "grabOrRelease:"@) {
        LineStyle::Highlight
    } else {
        LineStyle::Plain
    }
}

/// How a viewer shows the line `line`.
pub fn classify_line(line: &str) -> (r: LineStyle)
    ensures
        r == line_style(line@),
{
    let s = chars_of(line);
    if contains(&s, &chars_of("sprite: ")) {
        LineStyle::Sprite
    } else if contains(&s, &chars_of("hit:")) || contains(&s, &chars_of("grabOrRelease:")) {
        LineStyle::Highlight
    } else {
        LineStyle::Plain
    }
}

} // verus!
