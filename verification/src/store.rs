//! The revert mapping: which original path each renamed path came from.
//!
//! The mapping is kept as a list of entries in ascending order of the renamed
//! path, so that no renamed path occurs twice and the keys come out in
//! lexicographic order.

use crate::json::{
    json_error_text, parse_members, parsed_members, pretty_json, to_pretty_json, EMPTY_DOCUMENT,
};
use crate::text::{
    lemma_text_before_irreflexive, lemma_text_before_transitive, rank, text_before, texts, Rank,
};
use vstd::prelude::*;

verus! {

/// A renamed path and the path it had before, as plain texts.
pub type Pair = (Seq<char>, Seq<char>);

/// The map that a list of pairs stands for: each pair is entered in turn, so
/// a later pair replaces an earlier one with the same key.
pub open spec fn pairs_map(p: Seq<Pair>) -> Map<Seq<char>, Seq<char>>
    decreases p.len(),
{
    if p.len() == 0 {
        Map::empty()
    } else {
        pairs_map(p.drop_last()).insert(p.last().0, p.last().1)
    }
}

/// Some pair of the list has the key `k`.
pub open spec fn has_key(p: Seq<Pair>, k: Seq<char>) -> bool {
    exists|i: int| 0 <= i < p.len() && (#[trigger] p[i]).0 == k
}

/// The keys of the list are strictly ascending.
pub open spec fn ascending(p: Seq<Pair>) -> bool {
    forall|i: int, j: int|
        0 <= i < j < p.len() ==> text_before((#[trigger] p[i]).0, (#[trigger] p[j]).0)
}

/// The keys of a list of pairs, in the order of the list.
pub open spec fn keys_of(p: Seq<Pair>) -> Seq<Seq<char>> {
    p.map_values(|e: Pair| e.0)
}

/// The domain of the map is the set of keys of the list.
pub proof fn lemma_pairs_map_dom(p: Seq<Pair>, k: Seq<char>)
    ensures
        pairs_map(p).contains_key(k) <==> has_key(p, k),
    decreases p.len(),
{
    if p.len() > 0 {
        let q = p.drop_last();
        lemma_pairs_map_dom(q, k);
        if has_key(q, k) {
            let i = choose|i: int| 0 <= i < q.len() && (#[trigger] q[i]).0 == k;
            assert(p[i].0 == k);
        }
        if has_key(p, k) {
            let i = choose|i: int| 0 <= i < p.len() && (#[trigger] p[i]).0 == k;
            if i < q.len() {
                assert(q[i].0 == k);
            }
        }
    }
}

/// In an ascending list each key maps to the value of its own pair.
pub proof fn lemma_pairs_map_value(p: Seq<Pair>, i: int)
    requires
        ascending(p),
        0 <= i < p.len(),
    ensures
        pairs_map(p).contains_key(p[i].0),
        pairs_map(p)[p[i].0] == p[i].1,
    decreases p.len(),
{
    let q = p.drop_last();
    if i < p.len() - 1 {
        assert forall|a: int, b: int| 0 <= a < b < q.len() implies text_before(
            (#[trigger] q[a]).0,
            (#[trigger] q[b]).0,
        ) by {
            assert(q[a] == p[a] && q[b] == p[b]);
        }
        lemma_pairs_map_value(q, i);
        assert(q[i] == p[i]);
        assert(text_before(p[i].0, p[p.len() - 1].0));
        lemma_text_before_irreflexive(p[i].0);
    }
}

/// The keys of an ascending list are pairwise different.
pub proof fn lemma_ascending_distinct(p: Seq<Pair>)
    requires
        ascending(p),
    ensures
        keys_of(p).no_duplicates(),
{
    assert forall|i: int, j: int|
        0 <= i < keys_of(p).len() && 0 <= j < keys_of(p).len() && i != j implies keys_of(p)[i]
        != keys_of(p)[j] by {
        lemma_text_before_irreflexive(p[i].0);
        if i < j {
            assert(text_before(p[i].0, p[j].0));
        } else {
            assert(text_before(p[j].0, p[i].0));
        }
    }
}

/// Entering a pair whose key lies strictly between its neighbours keeps the
/// list ascending and adds the pair to the map.
pub proof fn lemma_insert_pair(p: Seq<Pair>, at: int, e: Pair)
    requires
        ascending(p),
        0 <= at <= p.len(),
        forall|j: int| 0 <= j < at ==> text_before((#[trigger] p[j]).0, e.0),
        forall|j: int| at <= j < p.len() ==> text_before(e.0, (#[trigger] p[j]).0),
    ensures
        ascending(p.insert(at, e)),
        pairs_map(p.insert(at, e)) == pairs_map(p).insert(e.0, e.1),
{
    let r = p.insert(at, e);
    assert forall|a: int, b: int| 0 <= a < b < r.len() implies text_before(
        (#[trigger] r[a]).0,
        (#[trigger] r[b]).0,
    ) by {
        let x = if a < at { p[a] } else if a == at { e } else { p[a - 1] };
        let y = if b < at { p[b] } else if b == at { e } else { p[b - 1] };
        assert(r[a] == x && r[b] == y);
    }
    let target = pairs_map(p).insert(e.0, e.1);
    assert forall|k: Seq<char>| #[trigger]
        pairs_map(r).dom().contains(k) == target.dom().contains(k) && (pairs_map(r).dom().contains(
            k,
        ) ==> pairs_map(r)[k] == target[k]) by {
        lemma_pairs_map_dom(r, k);
        lemma_pairs_map_dom(p, k);
        if has_key(r, k) {
            let i = choose|i: int| 0 <= i < r.len() && (#[trigger] r[i]).0 == k;
            lemma_pairs_map_value(r, i);
            if i < at {
                assert(r[i] == p[i]);
                lemma_pairs_map_value(p, i);
                lemma_text_before_irreflexive(k);
            } else if i > at {
                assert(r[i] == p[i - 1]);
                lemma_pairs_map_value(p, i - 1);
                lemma_text_before_irreflexive(k);
            }
        }
        if k == e.0 {
            assert(r[at].0 == k);
        } else if has_key(p, k) {
            let i = choose|i: int| 0 <= i < p.len() && (#[trigger] p[i]).0 == k;
            if i < at {
                assert(r[i].0 == k);
            } else {
                assert(r[i + 1].0 == k);
            }
        }
    }
    assert(pairs_map(r) =~= target);
}

/// Replacing the value of a pair keeps the list ascending and updates the map.
pub proof fn lemma_replace_pair(p: Seq<Pair>, at: int, e: Pair)
    requires
        ascending(p),
        0 <= at < p.len(),
        p[at].0 == e.0,
    ensures
        ascending(p.update(at, e)),
        pairs_map(p.update(at, e)) == pairs_map(p).insert(e.0, e.1),
{
    let r = p.update(at, e);
    assert forall|a: int, b: int| 0 <= a < b < r.len() implies text_before(
        (#[trigger] r[a]).0,
        (#[trigger] r[b]).0,
    ) by {
        assert(r[a].0 == p[a].0 && r[b].0 == p[b].0);
    }
    let target = pairs_map(p).insert(e.0, e.1);
    assert forall|k: Seq<char>| #[trigger]
        pairs_map(r).dom().contains(k) == target.dom().contains(k) && (pairs_map(r).dom().contains(
            k,
        ) ==> pairs_map(r)[k] == target[k]) by {
        lemma_pairs_map_dom(r, k);
        lemma_pairs_map_dom(p, k);
        if has_key(r, k) {
            let i = choose|i: int| 0 <= i < r.len() && (#[trigger] r[i]).0 == k;
            lemma_pairs_map_value(r, i);
            assert(p[i].0 == k);
            if i != at {
                lemma_pairs_map_value(p, i);
                lemma_text_before_irreflexive(k);
                if i < at {
                    assert(text_before(p[i].0, p[at].0));
                } else {
                    assert(text_before(p[at].0, p[i].0));
                }
            }
        }
        if has_key(p, k) {
            let i = choose|i: int| 0 <= i < p.len() && (#[trigger] p[i]).0 == k;
            assert(r[i].0 == k);
        }
        if k == e.0 {
            assert(r[at].0 == k);
        }
    }
    assert(pairs_map(r) =~= target);
}

/// Dropping a pair keeps the list ascending and removes its key from the map.
pub proof fn lemma_remove_pair(p: Seq<Pair>, at: int)
    requires
        ascending(p),
        0 <= at < p.len(),
    ensures
        ascending(p.remove(at)),
        pairs_map(p.remove(at)) == pairs_map(p).remove(p[at].0),
{
    let r = p.remove(at);
    let gone = p[at].0;
    assert forall|a: int, b: int| 0 <= a < b < r.len() implies text_before(
        (#[trigger] r[a]).0,
        (#[trigger] r[b]).0,
    ) by {
        let x = if a < at { p[a] } else { p[a + 1] };
        let y = if b < at { p[b] } else { p[b + 1] };
        assert(r[a] == x && r[b] == y);
    }
    let target = pairs_map(p).remove(gone);
    assert forall|k: Seq<char>| #[trigger]
        pairs_map(r).dom().contains(k) == target.dom().contains(k) && (pairs_map(r).dom().contains(
            k,
        ) ==> pairs_map(r)[k] == target[k]) by {
        lemma_pairs_map_dom(r, k);
        lemma_pairs_map_dom(p, k);
        lemma_text_before_irreflexive(k);
        if has_key(r, k) {
            let i = choose|i: int| 0 <= i < r.len() && (#[trigger] r[i]).0 == k;
            lemma_pairs_map_value(r, i);
            if i < at {
                assert(r[i] == p[i]);
                lemma_pairs_map_value(p, i);
                assert(text_before(p[i].0, p[at].0));
            } else {
                assert(r[i] == p[i + 1]);
                lemma_pairs_map_value(p, i + 1);
                assert(text_before(p[at].0, p[i + 1].0));
            }
        }
        if k != gone && has_key(p, k) {
            let i = choose|i: int| 0 <= i < p.len() && (#[trigger] p[i]).0 == k;
            if i < at {
                assert(r[i].0 == k);
            } else {
                assert(r[i - 1].0 == k);
            }
        }
    }
    assert(pairs_map(r) =~= target);
}

/// One line of the mapping.
pub struct Entry {
    /// The path the file has now.
    pub renamed: String,
    /// The path the file had before it was renamed.
    pub original: String,
}

impl Entry {
    /// The entry as a pair of texts.
    pub open spec fn pair(self) -> Pair {
        (self.renamed@, self.original@)
    }
}

/// The entries of a list as pairs of texts.
pub open spec fn pairs_of(entries: Seq<Entry>) -> Seq<Pair> {
    entries.map_values(|e: Entry| e.pair())
}

/// Why the mapping could not be written out.
pub struct RenderError {
    /// What the encoder reported.
    pub reason: String,
}

/// What `render` makes of the encoder's outcome: the document as it is, or
/// the encoder's error as a `RenderError`.
pub fn rendered(outcome: Result<String, serde_json::Error>) -> (r: Result<String, RenderError>)
    ensures
        match outcome {
            Ok(document) => r matches Ok(same) && same == document,
            Err(_) => r is Err,
        },
{
    match outcome {
        Ok(document) => Ok(document),
        Err(error) => Err(RenderError { reason: json_error_text(&error) }),
    }
}

/// The map that `load` returns for a document, or for none.
pub open spec fn loaded_map(document: Option<Seq<char>>) -> Map<Seq<char>, Seq<char>> {
    match document {
        Some(text) => match parsed_members(text) {
            Some(members) => pairs_map(members),
            None => Map::empty(),
        },
        None => Map::empty(),
    }
}

/// The mapping from renamed paths to original paths.
pub struct RevertMapping {
    entries: Vec<Entry>,
}

impl View for RevertMapping {
    type V = Map<Seq<char>, Seq<char>>;

    open spec fn view(&self) -> Map<Seq<char>, Seq<char>> {
        pairs_map(self.pairs())
    }
}

impl RevertMapping {
    /// The entries as pairs of texts, in the order in which they are kept.
    pub closed spec fn pairs(&self) -> Seq<Pair> {
        pairs_of(self.entries@)
    }

    /// The renamed paths, in the order in which they are kept.
    pub open spec fn key_seq(&self) -> Seq<Seq<char>> {
        keys_of(self.pairs())
    }

    /// The entries are in strictly ascending order of the renamed path.
    #[verifier::type_invariant]
    pub open spec fn wf(&self) -> bool {
        ascending(self.pairs())
    }

    /// An empty mapping.
    pub fn new() -> (m: Self)
        ensures
            m.pairs() == Seq::<Pair>::empty(),
            m@ == Map::<Seq<char>, Seq<char>>::empty(),
            m.wf(),
    {
        let m = RevertMapping { entries: Vec::new() };
        assert(m.pairs() =~= Seq::<Pair>::empty());
        m
    }

    /// The number of entries.
    pub fn len(&self) -> (n: usize)
        ensures
            n == self.key_seq().len(),
    {
        self.entries.len()
    }

    /// Whether the mapping holds no entry.
    pub fn is_empty(&self) -> (b: bool)
        ensures
            b == (self.key_seq().len() == 0),
            b == (self@ == Map::<Seq<char>, Seq<char>>::empty()),
    {
        proof {
            let p = self.pairs();
            if p.len() == 0 {
                assert(self@ =~= Map::<Seq<char>, Seq<char>>::empty());
            } else {
                assert(self@.contains_key(p.last().0));
            }
        }
        self.entries.len() == 0
    }

    /// Where `key` stands among the entries, or where it would be entered.
    fn locate(&self, key: &str) -> (r: (usize, bool))
        ensures
            self.wf(),
            r.0 <= self.pairs().len(),
            forall|j: int| 0 <= j < r.0 ==> text_before((#[trigger] self.pairs()[j]).0, key@),
            r.1 ==> r.0 < self.pairs().len() && self.pairs()[r.0 as int].0 == key@,
            !r.1 ==> forall|j: int|
                r.0 <= j < self.pairs().len() ==> text_before(key@, (#[trigger] self.pairs()[j]).0),
    {
        proof {
            use_type_invariant(self);
        }
        let ghost p = self.pairs();
        let mut lo: usize = 0;
        let mut hi: usize = self.entries.len();
        while lo < hi
            invariant
                p == self.pairs(),
                ascending(p),
                lo <= hi <= p.len(),
                p.len() == self.entries.len(),
                forall|j: int| 0 <= j < lo ==> text_before((#[trigger] p[j]).0, key@),
                forall|j: int| hi <= j < p.len() ==> text_before(key@, (#[trigger] p[j]).0),
            decreases hi - lo,
        {
            let mid = lo + (hi - lo) / 2;
            assert(p[mid as int] == self.entries[mid as int].pair());
            match rank(self.entries[mid].renamed.as_str(), key) {
                Rank::Same => {
                    return (mid, true);
                },
                Rank::Before => {
                    assert forall|j: int| 0 <= j < mid + 1 implies text_before(
                        (#[trigger] p[j]).0,
                        key@,
                    ) by {
                        if j < mid {
                            assert(text_before(p[j].0, p[mid as int].0));
                            lemma_text_before_transitive(p[j].0, p[mid as int].0, key@);
                        }
                    }
                    lo = mid + 1;
                },
                Rank::After => {
                    assert forall|j: int| mid <= j < p.len() implies text_before(
                        key@,
                        (#[trigger] p[j]).0,
                    ) by {
                        if j > mid {
                            assert(text_before(p[mid as int].0, p[j].0));
                            lemma_text_before_transitive(key@, p[mid as int].0, p[j].0);
                        }
                    }
                    hi = mid;
                },
            }
        }
        (lo, false)
    }

    /// The original path recorded for `renamed`, if there is one.
    pub fn lookup(&self, renamed: &str) -> (found: Option<&String>)
        ensures
            self.wf(),
            match found {
                Some(original) => self@.contains_key(renamed@) && original@ == self@[renamed@],
                None => !self@.contains_key(renamed@),
            },
    {
        let (at, hit) = self.locate(renamed);
        proof {
            let p = self.pairs();
            lemma_pairs_map_dom(p, renamed@);
            if hit {
                lemma_pairs_map_value(p, at as int);
            } else if has_key(p, renamed@) {
                let i = choose|i: int| 0 <= i < p.len() && (#[trigger] p[i]).0 == renamed@;
                lemma_text_before_irreflexive(renamed@);
            }
        }
        if hit {
            assert(self.pairs()[at as int] == self.entries[at as int].pair());
            Some(&self.entries[at].original)
        } else {
            None
        }
    }

    /// Whether `renamed` is recorded.
    pub fn contains(&self, renamed: &str) -> (b: bool)
        ensures
            b == self@.contains_key(renamed@),
    {
        self.lookup(renamed).is_some()
    }

    /// Records that `renamed` came from `original`, replacing what was
    /// recorded for `renamed` before. Returns the original path that was
    /// replaced, if there was one.
    pub fn insert(&mut self, renamed: String, original: String) -> (previous: Option<String>)
        ensures
            final(self).wf(),
            final(self)@ == old(self)@.insert(renamed@, original@),
            match previous {
                Some(was) => old(self)@.contains_key(renamed@) && was@ == old(self)@[renamed@],
                None => !old(self)@.contains_key(renamed@),
            },
    {
        let (at, hit) = self.locate(renamed.as_str());
        let ghost p = self.pairs();
        let ghost e = (renamed@, original@);
        proof {
            lemma_pairs_map_dom(p, renamed@);
        }
        if hit {
            proof {
                lemma_pairs_map_value(p, at as int);
                lemma_replace_pair(p, at as int, e);
            }
            let mut entries = Vec::new();
            std::mem::swap(&mut entries, &mut self.entries);
            assert(p[at as int] == entries[at as int].pair());
            let mut slot = Entry { renamed, original };
            std::mem::swap(&mut slot, &mut entries[at]);
            assert(pairs_of(entries@) =~= p.update(at as int, e));
            self.entries = entries;
            Some(slot.original)
        } else {
            proof {
                if has_key(p, renamed@) {
                    let i = choose|i: int| 0 <= i < p.len() && (#[trigger] p[i]).0 == renamed@;
                    lemma_text_before_irreflexive(renamed@);
                }
                lemma_insert_pair(p, at as int, e);
            }
            let mut entries = Vec::new();
            std::mem::swap(&mut entries, &mut self.entries);
            entries.insert(at, Entry { renamed, original });
            assert(pairs_of(entries@) =~= p.insert(at as int, e));
            self.entries = entries;
            None
        }
    }

    /// Forgets what is recorded for `renamed`. Returns the original path that
    /// was recorded, if there was one.
    pub fn remove(&mut self, renamed: &str) -> (previous: Option<String>)
        ensures
            final(self).wf(),
            final(self)@ == old(self)@.remove(renamed@),
            match previous {
                Some(was) => old(self)@.contains_key(renamed@) && was@ == old(self)@[renamed@],
                None => !old(self)@.contains_key(renamed@),
            },
    {
        let (at, hit) = self.locate(renamed);
        let ghost p = self.pairs();
        proof {
            lemma_pairs_map_dom(p, renamed@);
        }
        if hit {
            proof {
                lemma_pairs_map_value(p, at as int);
                lemma_remove_pair(p, at as int);
            }
            let mut entries = Vec::new();
            std::mem::swap(&mut entries, &mut self.entries);
            assert(p[at as int] == entries[at as int].pair());
            let gone = entries.remove(at);
            assert(pairs_of(entries@) =~= p.remove(at as int));
            self.entries = entries;
            Some(gone.original)
        } else {
            proof {
                if has_key(p, renamed@) {
                    let i = choose|i: int| 0 <= i < p.len() && (#[trigger] p[i]).0 == renamed@;
                    lemma_text_before_irreflexive(renamed@);
                }
                assert(self@.remove(renamed@) =~= self@);
            }
            None
        }
    }

    /// The renamed paths in ascending order.
    pub fn keys(&self) -> (list: Vec<String>)
        ensures
            self.wf(),
            texts(list@) == self.key_seq(),
    {
        proof {
            use_type_invariant(self);
        }
        let mut list: Vec<String> = Vec::new();
        let mut i: usize = 0;
        while i < self.entries.len()
            invariant
                i <= self.entries.len(),
                list.len() == i,
                forall|j: int| 0 <= j < i ==> (#[trigger] list[j])@ == self.key_seq()[j],
            decreases self.entries.len() - i,
        {
            assert(self.key_seq()[i as int] == self.entries[i as int].renamed@);
            list.push(self.entries[i].renamed.clone());
            i += 1;
        }
        assert(texts(list@) =~= self.key_seq());
        list
    }

    /// The mapping that holds the given entries, entered in turn: of two
    /// entries with the same renamed path the later one stays.
    pub fn from_entries(entries: &Vec<Entry>) -> (m: Self)
        ensures
            m.wf(),
            m@ == pairs_map(pairs_of(entries@)),
    {
        let mut m = RevertMapping::new();
        let mut i: usize = 0;
        while i < entries.len()
            invariant
                i <= entries.len(),
                m.wf(),
                m@ == pairs_map(pairs_of(entries@).take(i as int)),
            decreases entries.len() - i,
        {
            proof {
                let head = pairs_of(entries@).take(i + 1);
                assert(head.drop_last() =~= pairs_of(entries@).take(i as int));
                assert(head.last() == entries[i as int].pair());
            }
            m.insert(entries[i].renamed.clone(), entries[i].original.clone());
            i += 1;
        }
        assert(pairs_of(entries@).take(i as int) =~= pairs_of(entries@));
        m
    }

    /// Reads the persisted mapping. With no document, or with one that is not
    /// a JSON object from strings to strings, the mapping starts out empty.
    pub fn load(document: Option<&str>) -> (m: Self)
        ensures
            m.wf(),
            m@ == loaded_map(
                match document {
                    Some(text) => Some(text@),
                    None => None,
                },
            ),
    {
        match document {
            Some(text) => match parse_members(text) {
                Some(entries) => RevertMapping::from_entries(&entries),
                None => RevertMapping::new(),
            },
            None => RevertMapping::new(),
        }
    }

    /// The document to persist: the whole mapping as pretty-printed JSON.
    /// Every mapping has one.
    pub fn render(&self) -> (r: Result<String, RenderError>)
        ensures
            self.wf(),
            r matches Ok(document) && document@ == pretty_json(self.pairs()) && (self@
                == Map::<Seq<char>, Seq<char>>::empty() ==> document@ == EMPTY_DOCUMENT@),
    {
        proof {
            use_type_invariant(self);
            if self.pairs().len() > 0 {
                assert(self@.contains_key(self.pairs().last().0));
            }
        }
        rendered(to_pretty_json(&self.entries))
    }
}

} // verus!
