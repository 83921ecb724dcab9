use vstd::prelude::*;
use indexmap::IndexMap;
use crate::status::StreamStatus;

verus! {

#[verifier::external_type_specification]
#[verifier::external_body]
#[verifier::reject_recursive_types(K)]
#[verifier::reject_recursive_types(V)]
#[verifier::reject_recursive_types(S)]
pub struct ExIndexMap<K, V, S>(IndexMap<K, V, S>);

/// The (source, status) pairs that an ordered map holds, in its iteration order.
pub uninterp spec fn index_entries(m: IndexMap<String, StreamStatus>) -> Seq<(Seq<char>, StreamStatus)>;

/// No two entries share a source identifier.
pub open spec fn unique_keys(e: Seq<(Seq<char>, StreamStatus)>) -> bool {
    forall|i: int, j: int| 0 <= i < e.len() && 0 <= j < e.len() && e[i].0 == e[j].0 ==> i == j
}

/// Whether some entry has source identifier `k`.
pub open spec fn has_key(e: Seq<(Seq<char>, StreamStatus)>, k: Seq<char>) -> bool {
    exists|i: int| 0 <= i < e.len() && e[i].0 == k
}

/// The position of the entry with source identifier `k`, or -1 where there is none.
pub open spec fn key_position(e: Seq<(Seq<char>, StreamStatus)>, k: Seq<char>) -> int {
    if has_key(e, k) {
        choose|i: int| 0 <= i < e.len() && e[i].0 == k
    } else {
        -1
    }
}

/// Insert-or-update: an existing source keeps its place and takes the new status,
/// a new one goes last.
pub open spec fn cycle_insert(e: Seq<(Seq<char>, StreamStatus)>, k: Seq<char>, v: StreamStatus) -> Seq<(Seq<char>, StreamStatus)> {
    let i = key_position(e, k);
    if i >= 0 {
        e.update(i, (k, v))
    } else {
        e.push((k, v))
    }
}

/// Removal of source `k`, keeping the order of the others.
pub open spec fn cycle_remove(e: Seq<(Seq<char>, StreamStatus)>, k: Seq<char>) -> Seq<(Seq<char>, StreamStatus)> {
    let i = key_position(e, k);
    if i >= 0 {
        e.remove(i)
    } else {
        e
    }
}

/// The status held for source `k`, if any.
pub open spec fn cycle_status(e: Seq<(Seq<char>, StreamStatus)>, k: Seq<char>) -> Option<StreamStatus> {
    let i = key_position(e, k);
    if i >= 0 {
        Some(e[i].1)
    } else {
        None
    }
}

/// The position that a round-robin cursor designates in a cycle of `len` entries.
pub open spec fn cursor_slot(cursor: int, len: int) -> int {
    cursor % len
}

/// The cursor after one step in a cycle of `len` entries: one past the
/// position it designated, so that it never outgrows the cycle.
pub open spec fn cursor_next(cursor: usize, len: int) -> usize {
    (cursor_slot(cursor as int, len) + 1) as usize
}

/// With unique sources, `key_position` is the one position that holds `k`.
pub proof fn lemma_key_position(e: Seq<(Seq<char>, StreamStatus)>, k: Seq<char>)
    requires
        unique_keys(e),
    ensures
        has_key(e, k) ==> 0 <= key_position(e, k) < e.len() && e[key_position(e, k)].0 == k,
        !has_key(e, k) ==> key_position(e, k) == -1,
        forall|i: int| 0 <= i < e.len() && e[i].0 == k ==> i == key_position(e, k),
{
}

/// Insert-or-update keeps sources unique and leaves `k` present.
pub proof fn lemma_insert_unique(e: Seq<(Seq<char>, StreamStatus)>, k: Seq<char>, v: StreamStatus)
    requires
        unique_keys(e),
    ensures
        unique_keys(cycle_insert(e, k, v)),
        has_key(cycle_insert(e, k, v), k),
{
    lemma_key_position(e, k);
    let r = cycle_insert(e, k, v);
    if !has_key(e, k) {
        assert(r[e.len() as int].0 == k);
    } else {
        assert(r[key_position(e, k)].0 == k);
    }
}

/// Removal keeps sources unique and leaves `k` absent.
pub proof fn lemma_remove_unique(e: Seq<(Seq<char>, StreamStatus)>, k: Seq<char>)
    requires
        unique_keys(e),
    ensures
        unique_keys(cycle_remove(e, k)),
        !has_key(cycle_remove(e, k), k),
{
    lemma_key_position(e, k);
    let r = cycle_remove(e, k);
    let p = key_position(e, k);
    if p >= 0 {
        assert forall|i: int, j: int| 0 <= i < r.len() && 0 <= j < r.len() && r[i].0 == r[j].0 implies i == j by {
            let ii = if i < p { i } else { i + 1 };
            let jj = if j < p { j } else { j + 1 };
            assert(r[i] == e[ii]);
            assert(r[j] == e[jj]);
        }
        assert forall|i: int| 0 <= i < r.len() implies r[i].0 != k by {
            let ii = if i < p { i } else { i + 1 };
            assert(r[i] == e[ii]);
        }
    }
}

/// Inserting or removing one source leaves the status of every other source as it was.
pub proof fn lemma_other_status_kept(e: Seq<(Seq<char>, StreamStatus)>, k: Seq<char>, v: Seq<char>, s: StreamStatus)
    requires
        unique_keys(e),
        k != v,
    ensures
        cycle_status(cycle_insert(e, v, s), k) == cycle_status(e, k),
        cycle_status(cycle_remove(e, v), k) == cycle_status(e, k),
{
    lemma_key_position(e, k);
    lemma_key_position(e, v);
    let ins = cycle_insert(e, v, s);
    let rem = cycle_remove(e, v);
    lemma_insert_unique(e, v, s);
    lemma_remove_unique(e, v);
    lemma_key_position(ins, k);
    lemma_key_position(rem, k);
    let j = key_position(e, k);
    let iv = key_position(e, v);
    if j >= 0 {
        assert(ins[j] == e[j]);
        if iv >= 0 {
            let jj = if j < iv { j } else { j - 1 };
            assert(rem[jj] == e[j]);
        } else {
            assert(rem[j] == e[j]);
        }
    } else {
        assert forall|i: int| 0 <= i < ins.len() implies ins[i].0 != k by {
            if i < e.len() {
                if iv >= 0 && i == iv {
                } else {
                    assert(ins[i] == e[i]);
                }
            }
        }
        assert forall|i: int| 0 <= i < rem.len() implies rem[i].0 != k by {
            if iv >= 0 {
                let ii = if i < iv { i } else { i + 1 };
                assert(rem[i] == e[ii]);
            }
        }
    }
}

/// Relies on IndexMap::new: the new map is empty.
#[verifier::external_body]
fn map_new() -> (r: IndexMap<String, StreamStatus>)
    ensures
        index_entries(r) == Seq::<(Seq<char>, StreamStatus)>::empty(),
{
    IndexMap::new()
}

/// Relies on IndexMap::len: the number of entries.
#[verifier::external_body]
fn map_len(m: &IndexMap<String, StreamStatus>) -> (r: usize)
    ensures
        r == index_entries(*m).len(),
{
    m.len()
}

/// Relies on IndexMap::insert: an equal key keeps its place and its value is
/// replaced and returned; a new key goes last.
#[verifier::external_body]
fn map_insert(m: &mut IndexMap<String, StreamStatus>, k: String, v: StreamStatus) -> (r: Option<StreamStatus>)
    requires
        unique_keys(index_entries(*old(m))),
    ensures
        index_entries(*final(m)) == cycle_insert(index_entries(*old(m)), k@, v),
        r == cycle_status(index_entries(*old(m)), k@),
{
    m.insert(k, v)
}

/// Relies on IndexMap::shift_remove: the entry with an equal key leaves, the
/// others keep their order, and its value is returned.
#[verifier::external_body]
fn map_shift_remove(m: &mut IndexMap<String, StreamStatus>, k: &str) -> (r: Option<StreamStatus>)
    requires
        unique_keys(index_entries(*old(m))),
    ensures
        index_entries(*final(m)) == cycle_remove(index_entries(*old(m)), k@),
        r == cycle_status(index_entries(*old(m)), k@),
{
    m.shift_remove(k)
}

/// Relies on IndexMap::get_index_of: the position of the entry with an equal key.
#[verifier::external_body]
fn map_get_index_of(m: &IndexMap<String, StreamStatus>, k: &str) -> (r: Option<usize>)
    requires
        unique_keys(index_entries(*m)),
    ensures
        match r {
            Some(i) => i == key_position(index_entries(*m), k@),
            None => !has_key(index_entries(*m), k@),
        },
{
    m.get_index_of(k)
}

/// Relies on IndexMap::get_index: the entry at a position, if the position is in range.
#[verifier::external_body]
fn map_get_index(m: &IndexMap<String, StreamStatus>, i: usize) -> (r: Option<(String, StreamStatus)>)
    ensures
        match r {
            Some(p) => i < index_entries(*m).len() && p.0@ == index_entries(*m)[i as int].0
                && p.1 == index_entries(*m)[i as int].1,
            None => i >= index_entries(*m).len(),
        },
{
    m.get_index(i).map(|(k, v)| (k.clone(), *v))
}

/// An insertion-ordered map from source identifier to status, walked round-robin.
pub struct StatusCycle {
    map: IndexMap<String, StreamStatus>,
}

impl View for StatusCycle {
    type V = Seq<(Seq<char>, StreamStatus)>;

    closed spec fn view(&self) -> Seq<(Seq<char>, StreamStatus)> {
        index_entries(self.map)
    }
}

impl StatusCycle {
    pub open spec fn wf(&self) -> bool {
        unique_keys(self@)
    }

    /// An empty cycle.
    pub fn new() -> (r: StatusCycle)
        ensures
            r.wf(),
            r@ == Seq::<(Seq<char>, StreamStatus)>::empty(),
    {
        StatusCycle { map: map_new() }
    }

    /// A cycle holding the one source `id` with `status`.
    pub fn with_source(id: String, status: StreamStatus) -> (r: StatusCycle)
        ensures
            r.wf(),
            r@ == seq![(id@, status)],
    {
        let mut c = StatusCycle::new();
        c.insert(id, status);
        proof {
            assert(!has_key(Seq::<(Seq<char>, StreamStatus)>::empty(), id@));
            assert(c@ =~= seq![(id@, status)]);
        }
        c
    }

    /// The number of sources.
    pub fn len(&self) -> (r: usize)
        ensures
            r == self@.len(),
    {
        map_len(&self.map)
    }

    /// Inserts `id` with `status` if absent, else updates its status in place;
    /// returns the status it had before.
    pub fn insert(&mut self, id: String, status: StreamStatus) -> (r: Option<StreamStatus>)
        requires
            old(self).wf(),
        ensures
            final(self).wf(),
            final(self)@ == cycle_insert(old(self)@, id@, status),
            r == cycle_status(old(self)@, id@),
    {
        proof {
            lemma_insert_unique(self@, id@, status);
        }
        map_insert(&mut self.map, id, status)
    }

    /// Removes `id`, keeping the order of the others; returns its prior status.
    pub fn remove(&mut self, id: &str) -> (r: Option<StreamStatus>)
        requires
            old(self).wf(),
        ensures
            final(self).wf(),
            final(self)@ == cycle_remove(old(self)@, id@),
            r == cycle_status(old(self)@, id@),
    {
        proof {
            lemma_remove_unique(self@, id@);
        }
        map_shift_remove(&mut self.map, id)
    }

    /// The status of `id`, if it is in the cycle.
    pub fn status(&self, id: &str) -> (r: Option<StreamStatus>)
        requires
            self.wf(),
        ensures
            r == cycle_status(self@, id@),
    {
        proof {
            lemma_key_position(self@, id@);
        }
        match map_get_index_of(&self.map, id) {
            Some(i) => match map_get_index(&self.map, i) {
                Some(p) => Some(p.1),
                None => None,
            },
            None => None,
        }
    }

    /// Sets the status of `id` where it is in the cycle; leaves the cycle as it
    /// is otherwise. Returns whether it was there.
    pub fn set_existing(&mut self, id: &str, status: StreamStatus) -> (r: bool)
        requires
            old(self).wf(),
        ensures
            final(self).wf(),
            r == has_key(old(self)@, id@),
            final(self)@ == if r { cycle_insert(old(self)@, id@, status) } else { old(self)@ },
    {
        match map_get_index_of(&self.map, id) {
            Some(_) => {
                self.insert(id.to_owned(), status);
                true
            },
            None => false,
        }
    }

    /// The entry at `cursor mod len`, after which `cursor` moves on to the
    /// next position, `cursor mod len + 1`. On an empty cycle: `None`, and
    /// the cursor stays.
    pub fn get(&self, cursor: &mut usize) -> (r: Option<(String, StreamStatus)>)
        ensures
            self@.len() == 0 ==> r.is_none() && *final(cursor) == *old(cursor),
            self@.len() > 0 ==> *final(cursor) == cursor_next(*old(cursor), self@.len() as int) && match r {
                Some(p) => p.0@ == self@[cursor_slot(*old(cursor) as int, self@.len() as int)].0
                    && p.1 == self@[cursor_slot(*old(cursor) as int, self@.len() as int)].1,
                None => false,
            },
    {
        let n = map_len(&self.map);
        if n == 0 {
            return None;
        }
        let i = *cursor % n;
        *cursor = i + 1;
        map_get_index(&self.map, i)
    }
}

} // verus!
