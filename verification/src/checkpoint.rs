//! The checkpoint store: which chunks are done, and with how many frames.
//!
//! A chunk is recorded only with a frame count that was verified against
//! the expected one. The store is written out whole, as one JSON object
//! from chunk name to frame count, each time a chunk is recorded.

use crate::chunk::Chunk;
use crate::pipeline::PipelineOutcome;
use std::collections::BTreeMap;
use vstd::prelude::*;

verus! {

/// One recorded chunk.
#[derive(Debug)]
struct DoneEntry {
    /// The chunk's name.
    name: String,
    /// The frames that its encoded artifact holds.
    frames: usize,
}

/// Why the store could not be written out or read back.
#[derive(Clone, Copy, Debug, PartialEq, Eq, Structural)]
pub enum CheckpointError {
    /// The JSON writer failed. No store gives this error: the writer has no
    /// failure for a mapping from names to frame counts.
    Serialize,
    /// The text is not a JSON object from names to frame counts.
    Malformed,
    /// The text records a frame count that this machine cannot hold.
    FrameCountTooLarge { frames: u64 },
}

/// The mapping that a sequence of entries stands for. Where a name occurs
/// more than once, its last entry counts.
spec fn entries_map(entries: Seq<DoneEntry>) -> Map<Seq<char>, usize>
    decreases entries.len(),
{
    if entries.len() == 0 {
        Map::empty()
    } else {
        entries_map(entries.drop_last()).insert(entries.last().name@, entries.last().frames)
    }
}

/// No name occurs in two entries.
spec fn names_distinct(entries: Seq<DoneEntry>) -> bool {
    forall|i: int, j: int|
        0 <= i < entries.len() && 0 <= j < entries.len() && i != j ==> #[trigger] entries[i].name@
            != #[trigger] entries[j].name@
}

/// A name is in the mapping exactly when an entry has it.
proof fn lemma_entries_map_dom(entries: Seq<DoneEntry>, name: Seq<char>)
    ensures
        entries_map(entries).contains_key(name) <==> exists|i: int|
            0 <= i < entries.len() && #[trigger] entries[i].name@ == name,
    decreases entries.len(),
{
    if entries.len() > 0 {
        let front = entries.drop_last();
        lemma_entries_map_dom(front, name);
        if entries_map(entries).contains_key(name) {
            if entries.last().name@ == name {
                assert(entries[entries.len() - 1].name@ == name);
            } else {
                let i = choose|i: int| 0 <= i < front.len() && #[trigger] front[i].name@ == name;
                assert(entries[i].name@ == name);
            }
        }
        if exists|i: int| 0 <= i < entries.len() && #[trigger] entries[i].name@ == name {
            let i = choose|i: int| 0 <= i < entries.len() && #[trigger] entries[i].name@ == name;
            if i < entries.len() - 1 {
                assert(front[i].name@ == name);
            }
        }
    }
}

/// Where names are distinct, each entry's name maps to that entry's frames.
proof fn lemma_entries_map_value(entries: Seq<DoneEntry>, i: int)
    requires
        names_distinct(entries),
        0 <= i < entries.len(),
    ensures
        entries_map(entries).contains_key(entries[i].name@),
        entries_map(entries)[entries[i].name@] == entries[i].frames,
    decreases entries.len(),
{
    let front = entries.drop_last();
    if i < entries.len() - 1 {
        assert(names_distinct(front)) by {
            assert forall|a: int, b: int|
                0 <= a < front.len() && 0 <= b < front.len() && a != b implies #[trigger] front[a].name@
                != #[trigger] front[b].name@ by {
                assert(entries[a].name@ != entries[b].name@);
            }
        }
        lemma_entries_map_value(front, i);
        assert(front[i] == entries[i]);
        assert(entries[i].name@ != entries[entries.len() - 1].name@);
    }
}

/// Replacing the frames of one entry replaces the value of its name.
proof fn lemma_entries_map_update(entries: Seq<DoneEntry>, i: int, entry: DoneEntry)
    requires
        names_distinct(entries),
        0 <= i < entries.len(),
        entry.name@ == entries[i].name@,
    ensures
        names_distinct(entries.update(i, entry)),
        entries_map(entries.update(i, entry)) == entries_map(entries).insert(
            entry.name@,
            entry.frames,
        ),
    decreases entries.len(),
{
    let updated = entries.update(i, entry);
    assert(names_distinct(updated)) by {
        assert forall|a: int, b: int|
            0 <= a < updated.len() && 0 <= b < updated.len() && a != b implies #[trigger] updated[a].name@
            != #[trigger] updated[b].name@ by {
            assert(entries[a].name@ != entries[b].name@);
        }
    }
    let front = entries.drop_last();
    if i == entries.len() - 1 {
        assert(updated.drop_last() =~= front);
        assert(entries_map(updated) =~= entries_map(entries).insert(entry.name@, entry.frames));
    } else {
        assert(names_distinct(front)) by {
            assert forall|a: int, b: int|
                0 <= a < front.len() && 0 <= b < front.len() && a != b implies #[trigger] front[a].name@
                != #[trigger] front[b].name@ by {
                assert(entries[a].name@ != entries[b].name@);
            }
        }
        lemma_entries_map_update(front, i, entry);
        assert(updated.drop_last() =~= front.update(i, entry));
        assert(updated.last() == entries.last());
        assert(entries[i].name@ != entries[entries.len() - 1].name@);
        assert(entries_map(updated) =~= entries_map(entries).insert(entry.name@, entry.frames));
    }
}

/// The record of the chunks that are done.
#[derive(Debug)]
pub struct CheckpointStore {
    entries: Vec<DoneEntry>,
}

impl View for CheckpointStore {
    type V = Map<Seq<char>, usize>;

    closed spec fn view(&self) -> Map<Seq<char>, usize> {
        entries_map(self.entries@)
    }
}

impl CheckpointStore {
    /// The store's invariant: no name is recorded twice.
    pub closed spec fn wf(&self) -> bool {
        names_distinct(self.entries@)
    }

    /// A store with no chunk recorded.
    pub fn new() -> (store: CheckpointStore)
        ensures
            store.wf(),
            store@ == Map::<Seq<char>, usize>::empty(),
    {
        CheckpointStore { entries: Vec::new() }
    }

    /// The number of chunks recorded.
    pub fn len(&self) -> (count: usize)
        requires
            self.wf(),
        ensures
            count == self@.dom().len(),
            self@.dom().finite(),
    {
        proof {
            lemma_entries_map_len(self.entries@);
        }
        self.entries.len()
    }

    fn position(&self, name: &String) -> (found: Option<usize>)
        ensures
            match found {
                Some(i) => i < self.entries.len() && self.entries[i as int].name@ == name@,
                None => !self@.contains_key(name@),
            },
    {
        let mut i: usize = 0;
        while i < self.entries.len()
            invariant
                i <= self.entries.len(),
                forall|j: int| 0 <= j < i ==> #[trigger] self.entries[j].name@ != name@,
            decreases self.entries.len() - i,
        {
            if self.entries[i].name == *name {
                return Some(i);
            }
            i += 1;
        }
        proof {
            lemma_entries_map_dom(self.entries@, name@);
        }
        None
    }

    /// The frames recorded for the chunk of this name, if it is recorded.
    pub fn get(&self, name: &str) -> (frames: Option<usize>)
        requires
            self.wf(),
        ensures
            frames == (if self@.contains_key(name@) {
                Some(self@[name@])
            } else {
                None
            }),
    {
        let key: String = name.to_owned();
        match self.position(&key) {
            Some(i) => {
                proof {
                    lemma_entries_map_value(self.entries@, i as int);
                }
                Some(self.entries[i].frames)
            },
            None => None,
        }
    }

    /// Whether the chunk of this name is recorded.
    pub fn contains(&self, name: &str) -> (recorded: bool)
        requires
            self.wf(),
        ensures
            recorded == self@.contains_key(name@),
    {
        self.get(name).is_some()
    }

    /// Records `frames` for the chunk `name`, in place of what was recorded
    /// for it before.
    pub fn insert(&mut self, name: String, frames: usize)
        requires
            old(self).wf(),
        ensures
            final(self).wf(),
            final(self)@ == old(self)@.insert(name@, frames),
    {
        match self.position(&name) {
            Some(i) => {
                proof {
                    let entry = DoneEntry { name: self.entries@[i as int].name, frames };
                    lemma_entries_map_update(self.entries@, i as int, entry);
                    assert(self.entries@.update(i as int, entry)[i as int] == entry);
                }
                self.entries[i].frames = frames;
            },
            None => {
                let entry = DoneEntry { name, frames };
                proof {
                    let grown = self.entries@.push(entry);
                    assert(grown.drop_last() =~= self.entries@);
                    assert(names_distinct(grown)) by {
                        assert forall|a: int, b: int|
                            0 <= a < grown.len() && 0 <= b < grown.len() && a != b implies #[trigger] grown[a].name@
                            != #[trigger] grown[b].name@ by {
                            lemma_entries_map_dom(self.entries@, name@);
                            if a < self.entries@.len() {
                                assert(self.entries@[a].name@ == grown[a].name@);
                            }
                            if b < self.entries@.len() {
                                assert(self.entries@[b].name@ == grown[b].name@);
                            }
                        }
                    }
                }
                self.entries.push(entry);
            },
        }
    }
}

/// Distinct names make the mapping as large as the sequence of entries.
proof fn lemma_entries_map_len(entries: Seq<DoneEntry>)
    requires
        names_distinct(entries),
    ensures
        entries_map(entries).dom().finite(),
        entries_map(entries).dom().len() == entries.len(),
    decreases entries.len(),
{
    if entries.len() > 0 {
        let front = entries.drop_last();
        assert(names_distinct(front)) by {
            assert forall|a: int, b: int|
                0 <= a < front.len() && 0 <= b < front.len() && a != b implies #[trigger] front[a].name@
                != #[trigger] front[b].name@ by {
                assert(entries[a].name@ != entries[b].name@);
            }
        }
        lemma_entries_map_len(front);
        lemma_entries_map_dom(front, entries.last().name@);
        if entries_map(front).contains_key(entries.last().name@) {
            let i = choose|i: int|
                0 <= i < front.len() && #[trigger] front[i].name@ == entries.last().name@;
            assert(entries[i].name@ == entries[entries.len() - 1].name@);
        }
        assert(entries_map(entries).dom() =~= entries_map(front).dom().insert(
            entries.last().name@,
        ));
    }
}

/// `serde_json::Error`, the error of the JSON calls.
#[verifier::external_type_specification]
#[verifier::external_body]
pub struct ExJsonError(serde_json::Error);

/// The JSON text that `serde_json::to_string` writes for a mapping from
/// names to frame counts.
pub uninterp spec fn done_json(done: Map<Seq<char>, u64>) -> Seq<char>;

/// The mapping from names to frame counts that `serde_json::from_str` reads
/// from a text, where it reads one.
pub uninterp spec fn done_parsed(text: Seq<char>) -> Option<Map<Seq<char>, u64>>;

/// A mapping's frame counts as 64-bit numbers, the form in which they are
/// written out.
pub open spec fn widened(done: Map<Seq<char>, usize>) -> Map<Seq<char>, u64> {
    done.map_values(|frames: usize| frames as u64)
}

/// `serde_json::to_string` on the entries as an ordered map from name to
/// frame count. It returns the text that it writes for that mapping. It
/// returns one for every such map: the keys are strings, the values are
/// unsigned numbers, and the text is written into memory, so none of the
/// writes that could fail does.
#[verifier::external_body]
fn encode_entries(entries: &Vec<DoneEntry>) -> (text: Result<String, serde_json::Error>)
    requires
        names_distinct(entries@),
    ensures
        text is Ok,
        text matches Ok(t) ==> t@ == done_json(widened(entries_map(entries@))),
{
    let done: BTreeMap<&str, u64> = entries.iter().map(|e| (e.name.as_str(), e.frames as u64)).collect();
    serde_json::to_string(&done)
}

/// `serde_json::from_str` into an ordered map from name to 64-bit frame
/// count, handed out as pairs. It succeeds exactly on the texts that it
/// reads a mapping from; the pairs then have distinct names and hold that
/// mapping, no more and no less.
#[verifier::external_body]
fn decode_entries(text: &str) -> (pairs: Result<Vec<(String, u64)>, serde_json::Error>)
    ensures
        pairs is Ok <==> done_parsed(text@) is Some,
        pairs matches Ok(v) ==> {
            let done = done_parsed(text@)->Some_0;
            &&& forall|i: int, j: int|
                0 <= i < v.len() && 0 <= j < v.len() && i != j ==> #[trigger] v[i].0@
                    != #[trigger] v[j].0@
            &&& forall|i: int|
                0 <= i < v.len() ==> done.contains_key(#[trigger] v[i].0@) && done[v[i].0@]
                    == v[i].1
            &&& forall|name: Seq<char>| #[trigger]
                done.contains_key(name) ==> exists|i: int|
                    0 <= i < v.len() && #[trigger] v[i].0@ == name
        },
{
    serde_json::from_str::<BTreeMap<String, u64>>(text).map(|done| done.into_iter().collect())
}

impl CheckpointStore {
    /// The store as JSON text: one object from chunk name to frame count.
    /// Every store has such a text.
    pub fn to_json(&self) -> (text: Result<String, CheckpointError>)
        requires
            self.wf(),
        ensures
            text matches Ok(t) && t@ == done_json(widened(self@)),
    {
        match encode_entries(&self.entries) {
            Ok(t) => Ok(t),
            Err(_) => Err(CheckpointError::Serialize),
        }
    }

    /// Reads a store back from JSON text.
    pub fn load(text: &str) -> (loaded: Result<CheckpointStore, CheckpointError>)
        ensures
            match loaded {
                Ok(store) => store.wf() && done_parsed(text@) == Some(widened(store@)),
                Err(CheckpointError::Malformed) => done_parsed(text@) is None,
                Err(CheckpointError::FrameCountTooLarge { frames }) => {
                    &&& done_parsed(text@) is Some
                    &&& frames > usize::MAX
                    &&& done_parsed(text@)->Some_0.values().contains(frames)
                },
                Err(CheckpointError::Serialize) => false,
            },
            done_parsed(text@) matches Some(done) && (forall|name: Seq<char>| #[trigger]
                done.contains_key(name) ==> done[name] <= usize::MAX) ==> loaded is Ok,
    {
        let pairs: Vec<(String, u64)> = match decode_entries(text) {
            Ok(v) => v,
            Err(_) => {
                return Err(CheckpointError::Malformed);
            },
        };
        let ghost done = done_parsed(text@)->Some_0;
        let mut entries: Vec<DoneEntry> = Vec::new();
        let mut i: usize = 0;
        while i < pairs.len()
            invariant
                i <= pairs.len(),
                entries.len() == i,
                done_parsed(text@) == Some(done),
                forall|j: int|
                    0 <= j < i ==> #[trigger] entries[j].name@ == pairs[j].0@ && entries[j].frames
                        == pairs[j].1,
                forall|a: int, b: int|
                    0 <= a < pairs.len() && 0 <= b < pairs.len() && a != b ==> #[trigger] pairs[a].0@
                        != #[trigger] pairs[b].0@,
                forall|j: int|
                    0 <= j < pairs.len() ==> done.contains_key(#[trigger] pairs[j].0@)
                        && done[pairs[j].0@] == pairs[j].1,
            decreases pairs.len() - i,
        {
            let frames: u64 = pairs[i].1;
            if frames > usize::MAX as u64 {
                proof {
                    let name = pairs[i as int].0@;
                    assert(done.contains_key(name) && done[name] == frames);
                    assert(done.values().contains(frames));
                }
                return Err(CheckpointError::FrameCountTooLarge { frames });
            }
            entries.push(DoneEntry { name: pairs[i].0.clone(), frames: frames as usize });
            i += 1;
        }
        let store = CheckpointStore { entries };
        proof {
            let items = store.entries@;
            assert(names_distinct(items)) by {
                assert forall|a: int, b: int|
                    0 <= a < items.len() && 0 <= b < items.len() && a != b implies #[trigger] items[a].name@
                    != #[trigger] items[b].name@ by {
                    assert(pairs[a].0@ != pairs[b].0@);
                }
            }
            assert forall|name: Seq<char>| #[trigger]
                store@.contains_key(name) implies done.contains_key(name) && store@[name]
                == done[name] by {
                lemma_entries_map_dom(items, name);
                let j = choose|j: int| 0 <= j < items.len() && #[trigger] items[j].name@ == name;
                lemma_entries_map_value(items, j);
                assert(done.contains_key(pairs[j].0@));
            }
            assert forall|name: Seq<char>| #[trigger]
                done.contains_key(name) implies store@.contains_key(name) by {
                let j = choose|j: int| 0 <= j < pairs.len() && #[trigger] pairs[j].0@ == name;
                assert(items[j].name@ == name);
                lemma_entries_map_dom(items, name);
            }
            assert(widened(store@) =~= done);
        }
        Ok(store)
    }

    /// Records a verified chunk and renders the store that results, ready
    /// to be written out.
    pub fn record(&mut self, chunk: &Chunk, frames: usize) -> (text: Result<
        String,
        CheckpointError,
    >)
        requires
            old(self).wf(),
        ensures
            final(self).wf(),
            final(self)@ == old(self)@.insert(chunk.name@, frames),
            text matches Ok(t) && t@ == done_json(widened(final(self)@)),
    {
        self.insert(chunk.name(), frames);
        self.to_json()
    }

    /// Commits the end of a chunk's pipeline. A verified chunk is recorded
    /// with its frame count and the store is rendered; after any other end
    /// the store stays as it was and there is nothing to write.
    pub fn commit(&mut self, chunk: &Chunk, outcome: &PipelineOutcome) -> (text: Option<
        Result<String, CheckpointError>,
    >)
        requires
            old(self).wf(),
        ensures
            final(self).wf(),
            match outcome.spec_recorded() {
                Some(frames) => {
                    &&& final(self)@ == old(self)@.insert(chunk.name@, frames)
                    &&& text matches Some(Ok(t)) && t@ == done_json(widened(final(self)@))
                },
                None => *final(self) == *old(self) && text is None,
            },
    {
        match outcome.recorded() {
            Some(frames) => Some(self.record(chunk, frames)),
            None => None,
        }
    }
}

} // verus!
