//! The state index of a decompiled script: every `beginState` marker is paired
//! with the `endState` marker of the same rank, and the text between them is
//! filed under the block's first line.
use vstd::prelude::*;
use crate::text::{
    chars_of, clamped_slice, find_all, find_char_from, first_from, lemma_occurrences_in_bounds, occurrences,
    substring,
};

verus! {

broadcast use vstd::string::group_string_axioms;

/// A name and the text filed under it.
pub type Entry = (Seq<char>, Seq<char>);

/// One delimited region of a script.
pub struct StateBlock {
    /// The first line of the block, from its `beginState` marker up to the line end.
    pub name: String,
    /// The text from the `beginState` marker up to the matching `endState` marker.
    pub body: String,
}

impl View for StateBlock {
    type V = Entry;

    open spec fn view(&self) -> Entry {
        (self.name@, self.body@)
    }
}

/// Why a script could not be indexed.
#[derive(Clone, Copy, Debug, PartialEq, Eq, Structural)]
pub enum ScriptError {
    /// A `beginState` marker has no `endState` of its rank, or no line end after it.
    MalformedScript,
}

/// The first marker of a state block.
pub open spec fn begin_marker() -> Seq<char> {
    "beginState"@
}

/// The marker that closes a state block.
pub open spec fn end_marker() -> Seq<char> {
    "endState"@
}

/// Positions of the `beginState` markers of `s`, left to right.
pub open spec fn begins(s: Seq<char>) -> Seq<int> {
    occurrences(s, begin_marker())
}

/// Positions of the `endState` markers of `s`, left to right.
pub open spec fn ends(s: Seq<char>) -> Seq<int> {
    occurrences(s, end_marker())
}

/// The position of the first line end at or after `start`, or the end of `s`.
pub open spec fn line_end(s: Seq<char>, start: int) -> int {
    match first_from(s, '\n', start as nat) {
        Some(p) => p,
        None => s.len() as int,
    }
}

/// The name of the block that starts at `start`: the rest of its line.
pub open spec fn block_name(s: Seq<char>, start: int) -> Seq<char> {
    clamped_slice(s, start, line_end(s, start))
}

/// The text of the block from `start` up to `end`.
pub open spec fn block_body(s: Seq<char>, start: int, end: int) -> Seq<char> {
    clamped_slice(s, start, end)
}

/// Whether some entry of `e` is filed under `k`.
pub open spec fn has_key(e: Seq<Entry>, k: Seq<char>) -> bool {
    exists|j: int| 0 <= j < e.len() && #[trigger] e[j].0 == k
}

/// No two entries of `e` share a name.
pub open spec fn keys_unique(e: Seq<Entry>) -> bool {
    forall|i: int, j: int| 0 <= i < e.len() && 0 <= j < e.len() && i != j ==> #[trigger] e[i].0 != #[trigger] e[j].0
}

/// `e` with `v` filed under `k`: the entry of that name keeps its place and
/// takes the new text, or a new entry goes at the end.
pub open spec fn upsert(e: Seq<Entry>, k: Seq<char>, v: Seq<char>) -> Seq<Entry> {
    if has_key(e, k) {
        e.map_values(|x: Entry| if x.0 == k { (k, v) } else { x })
    } else {
        e.push((k, v))
    }
}

/// The entries made of the first `n` blocks of `s`, in order of first occurrence.
pub open spec fn indexed_blocks(s: Seq<char>, n: nat) -> Seq<Entry>
    decreases n,
{
    if n == 0 {
        Seq::empty()
    } else {
        let i = n - 1;
        upsert(
            indexed_blocks(s, i as nat),
            block_name(s, begins(s)[i]),
            block_body(s, begins(s)[i], ends(s)[i]),
        )
    }
}

/// A `beginState` lacks its `endState`, or a line end after it.
pub open spec fn is_malformed(s: Seq<char>) -> bool {
    ||| begins(s).len() > ends(s).len()
    ||| exists|i: int| 0 <= i < begins(s).len() && (#[trigger] first_from(s, '\n', begins(s)[i] as nat)) is None
}

/// The index of the script `s`.
pub open spec fn script_index(s: Seq<char>) -> Result<Seq<Entry>, ScriptError> {
    if is_malformed(s) {
        Err(ScriptError::MalformedScript)
    } else {
        Ok(indexed_blocks(s, begins(s).len()))
    }
}

/// The state blocks of one script, under distinct names, in order of first occurrence.
pub struct StateIndex {
    entries: Vec<StateBlock>,
}

impl View for StateIndex {
    type V = Seq<Entry>;

    closed spec fn view(&self) -> Seq<Entry> {
        self.entries@.map_values(|b: StateBlock| b@)
    }
}

impl StateIndex {
    /// Names are distinct.
    pub open spec fn wf(&self) -> bool {
        keys_unique(self@)
    }

    /// An index with no entry.
    pub fn new() -> (r: StateIndex)
        ensures
            r@ == Seq::<Entry>::empty(),
            r.wf(),
    {
        let r = StateIndex { entries: Vec::new() };
        assert(r@ =~= Seq::<Entry>::empty());
        r
    }

    /// The number of entries.
    pub fn len(&self) -> (r: usize)
        ensures
            r == self@.len(),
    {
        self.entries.len()
    }

    /// The entries, in order of first occurrence.
    pub fn blocks(&self) -> (r: &Vec<StateBlock>)
        ensures
            r@.map_values(|b: StateBlock| b@) == self@,
    {
        &self.entries
    }

    /// The text filed under `name`, if any.
    pub fn get(&self, name: &str) -> (r: Option<&String>)
        ensures
            match r {
                Some(body) => exists|j: int| 0 <= j < self@.len() && #[trigger] self@[j] == (name@, body@),
                None => !has_key(self@, name@),
            },
    {
        let key = String::from_str(name);
        let mut j: usize = 0;
        while j < self.entries.len()
            invariant
                key@ == name@,
                j <= self@.len(),
                forall|m: int| 0 <= m < j ==> #[trigger] self@[m].0 != name@,
            decreases self@.len() - j,
        {
            assert(self@[j as int] == self.entries@[j as int]@);
            if self.entries[j].name.eq(&key) {
                return Some(&self.entries[j].body);
            }
            j = j + 1;
        }
        None
    }

    /// Files `body` under `name`, replacing the text of an entry of that name.
    fn insert(&mut self, name: String, body: String)
        requires
            old(self).wf(),
        ensures
            final(self)@ == upsert(old(self)@, name@, body@),
            final(self).wf(),
    {
        let ghost k = name@;
        let ghost v = body@;
        let ghost e = self@;
        let mut j: usize = 0;
        while j < self.entries.len()
            invariant
                self@ == e,
                e == old(self)@,
                name@ == k,
                body@ == v,
                keys_unique(e),
                j <= e.len(),
                forall|m: int| 0 <= m < j ==> #[trigger] e[m].0 != k,
            decreases e.len() - j,
        {
            assert(e[j as int] == self.entries@[j as int]@);
            if self.entries[j].name.eq(&name) {
                assert(e[j as int].0 == k);
                assert(has_key(e, k));
                self.entries.set(j, StateBlock { name, body });
                assert forall|m: int| 0 <= m < e.len() && m != j implies #[trigger] e[m].0 != k by {
                    assert(e[m].0 != e[j as int].0);
                }
                assert(self@ =~= upsert(e, k, v));
                return;
            }
            j = j + 1;
        }
        assert(!has_key(e, k));
        self.entries.push(StateBlock { name, body });
        assert(self@ =~= e.push((k, v)));
    }
}

/// Indexes the state blocks of `script`: the n-th `beginState` marker is paired
/// with the n-th `endState` marker, each block is filed under its first line,
/// and a later block of the same name replaces the text of an earlier one.
pub fn build_index(script: &str) -> (r: Result<StateIndex, ScriptError>)
    ensures
        match r {
            Ok(index) => script_index(script@) == Ok::<Seq<Entry>, ScriptError>(index@) && index.wf(),
            Err(e) => script_index(script@) == Err::<Seq<Entry>, ScriptError>(e),
        },
{
    proof {
        reveal_strlit("beginState");
        reveal_strlit("endState");
    }
    let s = chars_of(script);
    let begin = chars_of("beginState");
    let end = chars_of("endState");
    let b = find_all(&s, &begin);
    let e = find_all(&s, &end);
    if b.len() > e.len() {
        return Err(ScriptError::MalformedScript);
    }
    let mut index = StateIndex::new();
    let mut i: usize = 0;
    while i < b.len()
        invariant
            s@ == script@,
            b@.len() == begins(script@).len(),
            forall|k: int| 0 <= k < b@.len() ==> b@[k] as int == #[trigger] begins(script@)[k],
            e@.len() == ends(script@).len(),
            forall|k: int| 0 <= k < e@.len() ==> e@[k] as int == #[trigger] ends(script@)[k],
            b@.len() <= e@.len(),
            i <= b@.len(),
            index.wf(),
            index@ == indexed_blocks(script@, i as nat),
            forall|k: int| 0 <= k < i ==> (#[trigger] first_from(script@, '\n', begins(script@)[k] as nat)) is Some,
        decreases b@.len() - i,
    {
        let start = b[i];
        match find_char_from(&s, '\n', start) {
            None => {
                assert(first_from(script@, '\n', begins(script@)[i as int] as nat) is None);
                return Err(ScriptError::MalformedScript);
            },
            Some(nl) => {
                let name = substring(script, start, nl);
                let body = substring(script, start, e[i]);
                index.insert(name, body);
            },
        }
        i = i + 1;
    }
    assert(!is_malformed(script@));
    Ok(index)
}

/// The entry that block `i` of `s` files.
pub open spec fn block_entry(s: Seq<char>, i: int) -> Entry {
    (block_name(s, begins(s)[i]), block_body(s, begins(s)[i], ends(s)[i]))
}

/// The name of block `i` of `s`.
pub open spec fn name_of_block(s: Seq<char>, i: int) -> Seq<char> {
    block_name(s, begins(s)[i])
}

/// The names of the first `n` blocks of `s`, in order, repeats included.
pub open spec fn block_names(s: Seq<char>, n: nat) -> Seq<Seq<char>> {
    Seq::new(n, |i: int| name_of_block(s, i))
}

/// The names under which the entries of `e` are filed, in order.
pub open spec fn keys(e: Seq<Entry>) -> Seq<Seq<char>> {
    e.map_values(|x: Entry| x.0)
}

/// The index of the first `n` blocks has distinct names, at most `n` entries,
/// an entry for the name of each of those blocks, and each entry is the name
/// and text of the last of those blocks that bears its name.
proof fn lemma_indexed_blocks_origin(s: Seq<char>, n: nat)
    ensures
        keys_unique(indexed_blocks(s, n)),
        indexed_blocks(s, n).len() <= n,
        forall|i: int| 0 <= i < n ==> has_key(indexed_blocks(s, n), #[trigger] name_of_block(s, i)),
        forall|k: int|
            0 <= k < indexed_blocks(s, n).len() ==> exists|j: int|
                0 <= j < n && #[trigger] indexed_blocks(s, n)[k] == block_entry(s, j) && (forall|m: int|
                    j < m < n ==> #[trigger] name_of_block(s, m) != indexed_blocks(s, n)[k].0),
    decreases n,
{
    if n > 0 {
        let i = n - 1;
        lemma_indexed_blocks_origin(s, i as nat);
        let e = indexed_blocks(s, i as nat);
        let entry = block_entry(s, i);
        let r = indexed_blocks(s, n);
        assert(r == upsert(e, entry.0, entry.1));
        assert(entry.0 == name_of_block(s, i));
        if has_key(e, entry.0) {
            assert forall|k: int| 0 <= k < r.len() implies exists|j: int|
                0 <= j < n && #[trigger] r[k] == block_entry(s, j) && (forall|m: int|
                    j < m < n ==> #[trigger] name_of_block(s, m) != r[k].0) by {
                if e[k].0 == entry.0 {
                    assert(r[k] == block_entry(s, i));
                } else {
                    assert(r[k] == e[k]);
                    let j = choose|j: int|
                        0 <= j < i && #[trigger] e[k] == block_entry(s, j) && (forall|m: int|
                            j < m < i ==> #[trigger] name_of_block(s, m) != e[k].0);
                    assert(r[k] == block_entry(s, j));
                }
            }
            assert forall|a: int, b: int| 0 <= a < r.len() && 0 <= b < r.len() && a != b implies
                #[trigger] r[a].0 != #[trigger] r[b].0 by {
                assert(e[a].0 != e[b].0);
            }
            assert forall|m: int| 0 <= m < n implies has_key(r, #[trigger] name_of_block(s, m)) by {
                let k = if m < i {
                    choose|k: int| 0 <= k < e.len() && #[trigger] e[k].0 == name_of_block(s, m)
                } else {
                    choose|k: int| 0 <= k < e.len() && #[trigger] e[k].0 == entry.0
                };
                assert(r[k].0 == e[k].0);
            }
        } else {
            assert forall|k: int| 0 <= k < r.len() implies exists|j: int|
                0 <= j < n && #[trigger] r[k] == block_entry(s, j) && (forall|m: int|
                    j < m < n ==> #[trigger] name_of_block(s, m) != r[k].0) by {
                if k == e.len() {
                    assert(r[k] == block_entry(s, i));
                } else {
                    assert(r[k] == e[k]);
                    let j = choose|j: int|
                        0 <= j < i && #[trigger] e[k] == block_entry(s, j) && (forall|m: int|
                            j < m < i ==> #[trigger] name_of_block(s, m) != e[k].0);
                    assert(e[k].0 != entry.0);
                    assert(r[k] == block_entry(s, j));
                }
            }
            assert forall|a: int, b: int| 0 <= a < r.len() && 0 <= b < r.len() && a != b implies
                #[trigger] r[a].0 != #[trigger] r[b].0 by {
                if a < e.len() && b < e.len() {
                    assert(e[a].0 != e[b].0);
                } else if a < e.len() {
                    assert(r[a] == e[a]);
                } else {
                    assert(r[b] == e[b]);
                }
            }
            assert forall|m: int| 0 <= m < n implies has_key(r, #[trigger] name_of_block(s, m)) by {
                if m < i {
                    let k = choose|k: int| 0 <= k < e.len() && #[trigger] e[k].0 == name_of_block(s, m);
                    assert(r[k] == e[k]);
                } else {
                    assert(r[e.len() as int].0 == entry.0);
                }
            }
        }
    }
}

/// Some entry of `v` holds the name of block `i` of `s` together with the text
/// of the last block that bears that name.
pub open spec fn holds_last_text(s: Seq<char>, v: Seq<Entry>, i: int) -> bool {
    exists|k: int, j: int|
        0 <= k < v.len() && i <= j < begins(s).len() && #[trigger] v[k] == block_entry(s, j)
            && #[trigger] name_of_block(s, j) == name_of_block(s, i) && (forall|m: int|
            j < m < begins(s).len() ==> #[trigger] name_of_block(s, m) != name_of_block(s, i))
}

/// In the index of a script that is not malformed, the names are exactly the
/// first lines of its blocks, one entry per distinct name (fewer entries than
/// blocks only where names repeat), and each name holds the text of the last
/// block that bears it.
pub proof fn lemma_index_names(s: Seq<char>)
    requires
        !is_malformed(s),
    ensures
        script_index(s) is Ok,
        keys(script_index(s)->Ok_0).to_set() == block_names(s, begins(s).len()).to_set(),
        script_index(s)->Ok_0.len() == block_names(s, begins(s).len()).to_set().len(),
        script_index(s)->Ok_0.len() <= begins(s).len(),
        forall|i: int| 0 <= i < begins(s).len() ==> #[trigger] holds_last_text(s, script_index(s)->Ok_0, i),
{
    let n = begins(s).len();
    lemma_indexed_blocks_origin(s, n);
    let v = indexed_blocks(s, n);
    let ks = keys(v);
    let names = block_names(s, n);
    assert forall|x: Seq<char>| ks.to_set().contains(x) <==> names.to_set().contains(x) by {
        if ks.to_set().contains(x) {
            let k = choose|k: int| 0 <= k < ks.len() && ks[k] == x;
            let j = choose|j: int|
                0 <= j < n && #[trigger] v[k] == block_entry(s, j) && (forall|m: int|
                    j < m < n ==> #[trigger] name_of_block(s, m) != v[k].0);
            assert(names[j] == x);
        }
        if names.to_set().contains(x) {
            let i = choose|i: int| 0 <= i < names.len() && names[i] == x;
            assert(has_key(v, name_of_block(s, i)));
            let k = choose|k: int| 0 <= k < v.len() && #[trigger] v[k].0 == name_of_block(s, i);
            assert(ks[k] == x);
        }
    }
    assert(ks.to_set() =~= names.to_set());
    assert(ks.no_duplicates()) by {
        assert forall|a: int, b: int| 0 <= a < ks.len() && 0 <= b < ks.len() && a != b implies ks[a]
            != ks[b] by {
            assert(v[a].0 != v[b].0);
        }
    }
    ks.unique_seq_to_set();
    assert(script_index(s)->Ok_0 == v);
    assert forall|i: int| 0 <= i < n implies #[trigger] holds_last_text(s, v, i) by {
        assert(has_key(v, name_of_block(s, i)));
        let k = choose|k: int| 0 <= k < v.len() && #[trigger] v[k].0 == name_of_block(s, i);
        let j = choose|j: int|
            0 <= j < n && #[trigger] v[k] == block_entry(s, j) && (forall|m: int|
                j < m < n ==> #[trigger] name_of_block(s, m) != v[k].0);
        assert(name_of_block(s, j) == v[k].0);
        if j < i {
            assert(name_of_block(s, i) != v[k].0);
        }
        assert(v[k] == block_entry(s, j));
        assert(i <= j < n);
    }
}

/// A script whose `beginState` and `endState` markers come in equal numbers,
/// each `beginState` before the `endState` of its rank and before a line end,
/// is indexed without error; the index has at most one entry per block, and
/// each entry's text runs exactly from a block's `beginState` marker to the
/// start of the matching `endState` marker.
pub proof fn lemma_well_formed_script(s: Seq<char>)
    requires
        begins(s).len() == ends(s).len(),
        forall|i: int| 0 <= i < begins(s).len() ==> (#[trigger] first_from(s, '\n', begins(s)[i] as nat)) is Some,
        forall|i: int| 0 <= i < begins(s).len() ==> #[trigger] begins(s)[i] <= ends(s)[i],
    ensures
        script_index(s) is Ok,
        script_index(s)->Ok_0.len() <= begins(s).len(),
        forall|k: int|
            0 <= k < script_index(s)->Ok_0.len() ==> exists|i: int|
                0 <= i < begins(s).len() && (#[trigger] script_index(s)->Ok_0[k]) == (
                block_name(s, begins(s)[i]),
                s.subrange(begins(s)[i], ends(s)[i]),
            ),
{
    let n = begins(s).len();
    assert(!is_malformed(s));
    lemma_indexed_blocks_origin(s, n);
    lemma_occurrences_in_bounds(s, end_marker(), 0);
    let v = indexed_blocks(s, n);
    assert forall|k: int| 0 <= k < v.len() implies exists|i: int|
        0 <= i < n && (#[trigger] v[k]) == (block_name(s, begins(s)[i]), s.subrange(begins(s)[i], ends(s)[i])) by {
        let i = choose|i: int|
            0 <= i < n && #[trigger] v[k] == block_entry(s, i) && (forall|m: int|
                i < m < n ==> #[trigger] name_of_block(s, m) != v[k].0);
        assert(begins(s)[i] <= ends(s)[i]);
        assert(ends(s)[i] <= s.len());
        assert(block_body(s, begins(s)[i], ends(s)[i]) =~= s.subrange(begins(s)[i], ends(s)[i]));
    }
}

/// Indexing depends on the script's text alone: equal texts give equal results.
pub proof fn lemma_index_deterministic(s1: Seq<char>, s2: Seq<char>)
    requires
        s1 == s2,
    ensures
        script_index(s1) == script_index(s2),
{
}

/// The empty script has an empty index.
pub proof fn lemma_empty_script()
    ensures
        script_index(Seq::empty()) == Ok::<Seq<Entry>, ScriptError>(Seq::empty()),
{
    reveal_strlit("beginState");
    reveal_strlit("endState");
    let s = Seq::<char>::empty();
    assert(begins(s) == Seq::<int>::empty());
    assert(ends(s) == Seq::<int>::empty());
    assert(!is_malformed(s));
}

/// A script with more `beginState` than `endState` markers (one and none, for
/// instance) is refused as malformed.
pub proof fn lemma_missing_end_state(s: Seq<char>)
    requires
        begins(s).len() > ends(s).len(),
    ensures
        script_index(s) == Err::<Seq<Entry>, ScriptError>(ScriptError::MalformedScript),
{
}

/// Of two blocks whose first lines are equal, the index keeps one entry, with
/// the text of the second.
pub proof fn lemma_name_collision(s: Seq<char>)
    requires
        begins(s).len() == 2,
        ends(s).len() == 2,
        first_from(s, '\n', begins(s)[0] as nat) is Some,
        first_from(s, '\n', begins(s)[1] as nat) is Some,
        block_name(s, begins(s)[0]) == block_name(s, begins(s)[1]),
    ensures
        script_index(s) == Ok::<Seq<Entry>, ScriptError>(
            seq![(block_name(s, begins(s)[1]), block_body(s, begins(s)[1], ends(s)[1]))],
        ),
{
    assert forall|i: int| 0 <= i < begins(s).len() implies (#[trigger] first_from(
        s,
        '\n',
        begins(s)[i] as nat,
    )) is Some by {
        if i == 0 {
        } else {
        }
    }
    assert(!is_malformed(s));
    let first = indexed_blocks(s, 1);
    assert(indexed_blocks(s, 0) == Seq::<Entry>::empty());
    assert(first =~= seq![block_entry(s, 0)]);
    assert(first[0].0 == block_entry(s, 1).0);
    assert(has_key(first, block_entry(s, 1).0));
    assert(indexed_blocks(s, 2) =~= seq![block_entry(s, 1)]);
}

} // verus!
