//! Deterministic checkpointing: snapshot state before risky operations,
//! roll back on failure.

use vstd::prelude::*;

use crate::clock::{new_uuid_v4, utc_now, Timestamp};
use crate::error::{BastionError, BastionResult};
use crate::json::{JsonModel, JsonValue};
use crate::text::{chars_of, ends_with, matches_at, owned, string_of, strip_suffixes};

verus! {

#[derive(Debug)]
pub struct Checkpoint {
    pub id: String,
    pub label: String,
    pub created_at: Timestamp,
    pub state: JsonValue,
    pub metadata: Vec<(String, String)>,
}

/// The mathematical value of a [`Checkpoint`].
pub struct CheckpointView {
    pub id: Seq<char>,
    pub label: Seq<char>,
    pub created_at: Timestamp,
    pub state: JsonModel,
    pub metadata: Seq<(Seq<char>, Seq<char>)>,
}

/// The views of the metadata pairs.
pub open spec fn pairs_view(pairs: Seq<(String, String)>) -> Seq<(Seq<char>, Seq<char>)> {
    pairs.map_values(|p: (String, String)| (p.0@, p.1@))
}

impl View for Checkpoint {
    type V = CheckpointView;

    open spec fn view(&self) -> CheckpointView {
        CheckpointView {
            id: self.id@,
            label: self.label@,
            created_at: self.created_at,
            state: self.state@,
            metadata: pairs_view(self.metadata@),
        }
    }
}

pub(crate) fn copy_pairs(pairs: &Vec<(String, String)>) -> (r: Vec<(String, String)>)
    ensures
        pairs_view(r@) == pairs_view(pairs@),
{
    let mut out: Vec<(String, String)> = Vec::new();
    let mut i: usize = 0;
    while i < pairs.len()
        invariant
            i <= pairs@.len(),
            out@.len() == i,
            forall|k: int| 0 <= k < i ==> (#[trigger] out@[k]).0@ == pairs@[k].0@ && out@[k].1@ == pairs@[k].1@,
        decreases pairs@.len() - i,
    {
        let ghost before = out@;
        out.push((pairs[i].0.clone(), pairs[i].1.clone()));
        assert forall|k: int| 0 <= k < i + 1 implies (#[trigger] out@[k]).0@ == pairs@[k].0@ && out@[k].1@ == pairs@[k].1@ by {
            if k < i {
                assert(out@[k] == before[k]);
            }
        }
        i = i + 1;
    }
    assert(pairs_view(out@) =~= pairs_view(pairs@));
    out
}

impl Checkpoint {
    /// A new checkpoint of `state`, with a fresh random id, the current
    /// time and no metadata.
    pub fn new(label: &str, state: JsonValue) -> (cp: Self)
        ensures
            crate::clock::is_uuid_v4_text(cp.id@),
            crate::clock::spec_utc_text(cp.created_at.secs, cp.created_at.nanos) is Some,
            cp.label@ == label@,
            cp.state@ == state@,
            cp.metadata@.len() == 0,
    {
        Checkpoint {
            id: new_uuid_v4(),
            label: owned(label),
            created_at: utc_now(),
            state,
            metadata: Vec::new(),
        }
    }

    /// A copy of this checkpoint.
    pub fn duplicate(&self) -> (r: Checkpoint)
        ensures
            r@ == self@,
    {
        Checkpoint {
            id: self.id.clone(),
            label: self.label.clone(),
            created_at: self.created_at,
            state: self.state.duplicate(),
            metadata: copy_pairs(&self.metadata),
        }
    }
}

/// The checkpoint id that a store file of this name holds: a name that
/// ends in `.json`, with its trailing `.json` suffixes removed.
pub open spec fn file_checkpoint_id(name: Seq<char>) -> Option<Seq<char>> {
    if ends_with(name, ".json"@) {
        Some(strip_suffixes(name, ".json"@))
    } else {
        None
    }
}

/// The checkpoint id in a store file's name, if the name ends in `.json`.
pub fn checkpoint_id_of_file(name: &str) -> (r: Option<String>)
    ensures
        match r {
            Some(id) => file_checkpoint_id(name@) == Some(id@),
            None => file_checkpoint_id(name@) is None,
        },
{
    let cs = chars_of(name);
    let sfx = chars_of(".json");
    proof {
        reveal_strlit(".json");
    }
    let k = sfx.len();
    if k > cs.len() || !matches_at(&cs, &sfx, cs.len() - k) {
        return None;
    }
    let mut end: usize = cs.len();
    assert(cs@.subrange(0, end as int) =~= cs@);
    assert(ends_with(name@, ".json"@));
    loop
        invariant
            ends_with(name@, ".json"@),
            cs@ == name@,
            sfx@ == ".json"@,
            sfx@.len() == k,
            k == 5,
            end <= cs@.len(),
            strip_suffixes(name@, ".json"@) == strip_suffixes(cs@.subrange(0, end as int), ".json"@),
        decreases end,
    {
        let prefix = Ghost(cs@.subrange(0, end as int));
        if end < k || !matches_at(&cs, &sfx, end - k) {
            proof {
                assert(!ends_with(prefix@, ".json"@)) by {
                    if ends_with(prefix@, ".json"@) && end >= k {
                        assert(cs@.subrange(end - k, end as int) =~= prefix@.subrange(end - k, end as int));
                    }
                }
            }
            return Some(string_of(&cs, 0, end));
        }
        proof {
            assert(prefix@.subrange(end - k, end as int) =~= cs@.subrange(end - k, end as int));
            assert(prefix@.subrange(0, end - k) =~= cs@.subrange(0, end - k));
        }
        end = end - k;
    }
}

/// No two checkpoints share an id.
pub open spec fn ids_unique(data: Seq<Checkpoint>) -> bool {
    forall|i: int, j: int| 0 <= i < data.len() && 0 <= j < data.len() && i != j ==> data[i].id@ != data[j].id@
}

/// Some checkpoint has this id.
pub open spec fn has_id(data: Seq<Checkpoint>, id: Seq<char>) -> bool {
    exists|i: int| 0 <= i < data.len() && data[i].id@ == id
}

/// The checkpoints by id.
pub open spec fn checkpoint_map(data: Seq<Checkpoint>) -> Map<Seq<char>, CheckpointView> {
    Map::new(
        |id: Seq<char>| has_id(data, id),
        |id: Seq<char>| data[choose|i: int| 0 <= i < data.len() && data[i].id@ == id]@,
    )
}

proof fn lemma_map_at(data: Seq<Checkpoint>, i: int)
    requires
        ids_unique(data),
        0 <= i < data.len(),
    ensures
        checkpoint_map(data).contains_key(data[i].id@),
        checkpoint_map(data)[data[i].id@] == data[i]@,
{
    let id = data[i].id@;
    assert(has_id(data, id));
    let j = choose|j: int| 0 <= j < data.len() && data[j].id@ == id;
    assert(j == i);
}

/// `nd` holds `cp` at index `i` and, at every other index, what `old` held
/// there; `old` held `cp`'s id nowhere but at `i`. Its map is then `old`'s
/// with `cp` stored under its id.
proof fn lemma_map_store(old: Seq<Checkpoint>, nd: Seq<Checkpoint>, i: int, cp: CheckpointView)
    requires
        ids_unique(old),
        ids_unique(nd),
        0 <= i < nd.len(),
        nd[i]@ == cp,
        old.len() <= nd.len() <= old.len() + 1,
        forall|j: int| 0 <= j < nd.len() && j != i ==> j < old.len() && #[trigger] nd[j] == old[j],
        i < old.len() ==> old[i].id@ == cp.id,
        i == old.len() ==> !has_id(old, cp.id),
    ensures
        checkpoint_map(nd) == checkpoint_map(old).insert(cp.id, cp),
{
    let target = checkpoint_map(old).insert(cp.id, cp);
    assert forall|k: Seq<char>| #![auto] checkpoint_map(nd).contains_key(k) == target.contains_key(k) by {
        if has_id(old, k) {
            let j = choose|j: int| 0 <= j < old.len() && old[j].id@ == k;
            assert(nd[j].id@ == k);
        }
        if has_id(nd, k) {
            let j = choose|j: int| 0 <= j < nd.len() && nd[j].id@ == k;
            if j != i {
                assert(old[j].id@ == k);
            }
        }
        lemma_map_at(nd, i);
    }
    assert forall|k: Seq<char>| #![auto] checkpoint_map(nd).contains_key(k) implies checkpoint_map(nd)[k] == target[k] by {
        let j = choose|j: int| 0 <= j < nd.len() && nd[j].id@ == k;
        lemma_map_at(nd, j);
        if j != i {
            lemma_map_at(old, j);
        }
    }
    assert(checkpoint_map(nd) =~= target);
}

/// In-memory checkpoint store (for testing and short-lived agents).
pub struct MemoryStore {
    data: Vec<Checkpoint>,
}

impl MemoryStore {
    #[verifier::type_invariant]
    spec fn unique(&self) -> bool {
        ids_unique(self.data@)
    }

    /// The stored checkpoints, by id.
    pub closed spec fn view(&self) -> Map<Seq<char>, CheckpointView> {
        checkpoint_map(self.data@)
    }

    pub fn new() -> (s: Self)
        ensures
            s.view() == Map::<Seq<char>, CheckpointView>::empty(),
    {
        let s = MemoryStore { data: Vec::new() };
        assert(s.view() =~= Map::<Seq<char>, CheckpointView>::empty());
        s
    }

    /// Stores a copy of the checkpoint under its id, replacing any
    /// checkpoint with the same id.
    pub fn save(&mut self, checkpoint: &Checkpoint) -> (r: BastionResult<()>)
        ensures
            r is Ok,
            final(self).view() == old(self).view().insert(checkpoint.id@, checkpoint@),
    {
        proof { use_type_invariant(&*self); }
        let ghost old_data = self.data@;
        let copy = checkpoint.duplicate();
        let mut data: Vec<Checkpoint> = Vec::new();
        std::mem::swap(&mut data, &mut self.data);
        match self.find_in(&data, checkpoint.id.as_str()) {
            Some(i) => {
                data.set(i, copy);
                proof {
                    lemma_map_store(old_data, data@, i as int, checkpoint@);
                }
            },
            None => {
                data.push(copy);
                proof {
                    lemma_map_store(old_data, data@, old_data.len() as int, checkpoint@);
                }
            },
        }
        self.data = data;
        Ok(())
    }

    fn find_in(&self, data: &Vec<Checkpoint>, id: &str) -> (r: Option<usize>)
        ensures
            match r {
                Some(i) => i < data@.len() && data@[i as int].id@ == id@,
                None => !has_id(data@, id@),
            },
    {
        let mut i: usize = 0;
        while i < data.len()
            invariant
                i <= data@.len(),
                forall|k: int| 0 <= k < i ==> #[trigger] data@[k].id@ != id@,
            decreases data@.len() - i,
        {
            if crate::text::is_text(&data[i].id, id) {
                return Some(i);
            }
            i = i + 1;
        }
        None
    }

    /// A copy of the checkpoint with this id, or `NotFound(id)`.
    pub fn load(&self, id: &str) -> (r: BastionResult<Checkpoint>)
        ensures
            match r {
                Ok(cp) => self.view().contains_key(id@) && cp@ == self.view()[id@],
                Err(BastionError::NotFound(missing)) => !self.view().contains_key(id@) && missing@ == id@,
                Err(_) => false,
            },
    {
        proof { use_type_invariant(self); }
        match self.find_in(&self.data, id) {
            Some(i) => {
                proof { lemma_map_at(self.data@, i as int); }
                Ok(self.data[i].duplicate())
            },
            None => Err(BastionError::NotFound(owned(id))),
        }
    }

    /// The ids of all stored checkpoints, each once.
    pub fn list(&self) -> (r: BastionResult<Vec<String>>)
        ensures
            match r {
                Ok(ids) => {
                    &&& ids@.len() == self.view().len()
                    &&& forall|k: Seq<char>| self.view().contains_key(k) <==> exists|i: int| 0 <= i < ids@.len() && #[trigger] ids@[i]@ == k
                    &&& forall|i: int, j: int| 0 <= i < ids@.len() && 0 <= j < ids@.len() && i != j ==> ids@[i]@ != ids@[j]@
                },
                Err(_) => false,
            },
    {
        proof { use_type_invariant(self); }
        let mut ids: Vec<String> = Vec::new();
        let mut i: usize = 0;
        while i < self.data.len()
            invariant
                i <= self.data@.len(),
                ids@.len() == i,
                forall|k: int| 0 <= k < i ==> #[trigger] ids@[k]@ == self.data@[k].id@,
            decreases self.data@.len() - i,
        {
            ids.push(self.data[i].id.clone());
            i = i + 1;
        }
        proof {
            let data = self.data@;
            assert forall|k: Seq<char>| self.view().contains_key(k) <==> exists|i: int| 0 <= i < ids@.len() && #[trigger] ids@[i]@ == k by {
                if self.view().contains_key(k) {
                    let j = choose|j: int| 0 <= j < data.len() && data[j].id@ == k;
                    assert(ids@[j]@ == k);
                }
                if exists|i: int| 0 <= i < ids@.len() && #[trigger] ids@[i]@ == k {
                    let j = choose|j: int| 0 <= j < ids@.len() && #[trigger] ids@[j]@ == k;
                    assert(data[j].id@ == k);
                }
            }
            lemma_map_len(data);
        }
        Ok(ids)
    }

    /// Removes the checkpoint with this id, if there is one.
    pub fn delete(&mut self, id: &str) -> (r: BastionResult<()>)
        ensures
            r is Ok,
            final(self).view() == old(self).view().remove(id@),
    {
        proof { use_type_invariant(&*self); }
        let ghost old_data = self.data@;
        let mut data: Vec<Checkpoint> = Vec::new();
        std::mem::swap(&mut data, &mut self.data);
        match self.find_in(&data, id) {
            Some(i) => {
                let _removed = data.remove(i);
                proof {
                    let nd = data@;
                    assert(nd =~= old_data.remove(i as int));
                    assert(ids_unique(nd)) by {
                        assert forall|a: int, b: int| 0 <= a < nd.len() && 0 <= b < nd.len() && a != b implies nd[a].id@ != nd[b].id@ by {
                            let oa = if a < i { a } else { a + 1 };
                            let ob = if b < i { b } else { b + 1 };
                            assert(nd[a] == old_data[oa]);
                            assert(nd[b] == old_data[ob]);
                        }
                    }
                    assert forall|k: Seq<char>| #![auto] checkpoint_map(nd).contains_key(k) == checkpoint_map(old_data).remove(id@).contains_key(k) by {
                        if has_id(nd, k) {
                            let j = choose|j: int| 0 <= j < nd.len() && nd[j].id@ == k;
                            let oj = if j < i { j } else { j + 1 };
                            assert(old_data[oj].id@ == k);
                            assert(oj != i);
                        }
                        if has_id(old_data, k) && k != id@ {
                            let j = choose|j: int| 0 <= j < old_data.len() && old_data[j].id@ == k;
                            assert(j != i);
                            let nj = if j < i { j } else { j - 1 };
                            assert(nd[nj].id@ == k);
                        }
                    }
                    assert forall|k: Seq<char>| #![auto] checkpoint_map(nd).contains_key(k) implies checkpoint_map(nd)[k] == checkpoint_map(old_data).remove(id@)[k] by {
                        let j = choose|j: int| 0 <= j < nd.len() && nd[j].id@ == k;
                        let oj = if j < i { j } else { j + 1 };
                        lemma_map_at(nd, j);
                        lemma_map_at(old_data, oj);
                    }
                    assert(checkpoint_map(nd) =~= checkpoint_map(old_data).remove(id@));
                }
            },
            None => {
                proof {
                    assert(checkpoint_map(old_data) =~= checkpoint_map(old_data).remove(id@));
                }
            },
        }
        self.data = data;
        Ok(())
    }
}

/// Loading an id right after saving a checkpoint under it gives that
/// checkpoint back, and the other stored checkpoints are untouched.
pub proof fn law_load_after_save(before: Map<Seq<char>, CheckpointView>, cp: CheckpointView, other: Seq<char>)
    requires
        other != cp.id,
    ensures
        before.insert(cp.id, cp).contains_key(cp.id),
        before.insert(cp.id, cp)[cp.id] == cp,
        before.insert(cp.id, cp).contains_key(other) == before.contains_key(other),
        before.contains_key(other) ==> before.insert(cp.id, cp)[other] == before[other],
{
}

/// After a delete, the id is gone, and the other checkpoints are untouched.
pub proof fn law_delete_removes_only_that_id(before: Map<Seq<char>, CheckpointView>, id: Seq<char>, other: Seq<char>)
    requires
        other != id,
    ensures
        !before.remove(id).contains_key(id),
        before.remove(id).contains_key(other) == before.contains_key(other),
        before.contains_key(other) ==> before.remove(id)[other] == before[other],
{
}

/// A checkpoint made of a label and a state and then saved is loaded back
/// by its id with that label and state and no metadata; saving another
/// checkpoint under another id afterwards leaves it loadable and unchanged.
pub proof fn law_checkpoint_round_trip(
    before: Map<Seq<char>, CheckpointView>,
    cp: CheckpointView,
    label: Seq<char>,
    state: JsonModel,
    later: CheckpointView,
)
    requires
        cp.label == label,
        cp.state == state,
        cp.metadata.len() == 0,
        later.id != cp.id,
    ensures
        before.insert(cp.id, cp).contains_key(cp.id),
        before.insert(cp.id, cp)[cp.id].label == label,
        before.insert(cp.id, cp)[cp.id].state == state,
        before.insert(cp.id, cp)[cp.id].metadata.len() == 0,
        before.insert(cp.id, cp).insert(later.id, later).contains_key(cp.id),
        before.insert(cp.id, cp).insert(later.id, later)[cp.id] == cp,
{
}

/// The ids of a non-empty sequence are those before its last checkpoint
/// and the last one's.
proof fn lemma_dom_push(data: Seq<Checkpoint>)
    requires
        data.len() > 0,
    ensures
        checkpoint_map(data).dom() == checkpoint_map(data.drop_last()).dom().insert(data.last().id@),
{
    let prefix = data.drop_last();
    assert forall|k: Seq<char>| has_id(data, k) <==> (has_id(prefix, k) || k == data.last().id@) by {
        if has_id(data, k) {
            let j = choose|j: int| 0 <= j < data.len() && data[j].id@ == k;
            if j < prefix.len() {
                assert(prefix[j].id@ == k);
            }
        }
        if has_id(prefix, k) {
            let j = choose|j: int| 0 <= j < prefix.len() && prefix[j].id@ == k;
            assert(data[j].id@ == k);
        }
        if k == data.last().id@ {
            assert(data[data.len() - 1].id@ == k);
        }
    }
    assert(checkpoint_map(data).dom() =~= checkpoint_map(prefix).dom().insert(data.last().id@));
}

proof fn lemma_map_len(data: Seq<Checkpoint>)
    requires
        ids_unique(data),
    ensures
        checkpoint_map(data).len() == data.len(),
    decreases data.len(),
{
    if data.len() == 0 {
        assert(checkpoint_map(data) =~= Map::<Seq<char>, CheckpointView>::empty());
    } else {
        let prefix = data.drop_last();
        let last = data.last();
        assert(ids_unique(prefix));
        lemma_map_len(prefix);
        assert(!checkpoint_map(prefix).contains_key(last.id@)) by {
            if has_id(prefix, last.id@) {
                let j = choose|j: int| 0 <= j < prefix.len() && prefix[j].id@ == last.id@;
                assert(data[j].id@ == data[data.len() - 1].id@);
            }
        }
        lemma_dom_push(data);
        lemma_dom_finite(prefix);
    }
}

proof fn lemma_dom_finite(data: Seq<Checkpoint>)
    ensures
        checkpoint_map(data).dom().finite(),
    decreases data.len(),
{
    if data.len() == 0 {
        assert(checkpoint_map(data).dom() =~= Set::<Seq<char>>::empty());
    } else {
        lemma_dom_finite(data.drop_last());
        lemma_dom_push(data);
    }
}

} // verus!
