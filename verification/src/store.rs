//! The record store: a table from ID to record, an order index kept in
//! creation order, and the next-ID counter, mutated together by each
//! operation so that the store's invariant always holds.

use std::collections::HashMap;
use vstd::prelude::*;

verus! {

broadcast use vstd::std_specs::hash::group_hash_axioms, vstd::seq_lib::group_seq_properties;

/// Number of records per page when the caller gives no page size.
pub const DEFAULT_PAGE_SIZE: u64 = 10;

/// A single task record. It has no identity of its own: the store assigns
/// an ID at creation and carries it alongside the record.
#[derive(Debug)]
pub struct Record {
    pub name: String,
    pub description: String,
    pub is_completed: bool,
}

impl Clone for Record {
    fn clone(&self) -> (r: Self)
        ensures
            r == *self,
    {
        Record {
            name: self.name.clone(),
            description: self.description.clone(),
            is_completed: self.is_completed,
        }
    }
}

/// Why an operation failed. Neither kind is retryable: the store is a pure
/// in-memory structure.
#[derive(Clone, Copy, Debug, PartialEq, Eq, Structural)]
pub enum RecordError {
    /// The referenced ID is absent from the record table.
    NotFound,
    /// The ID is in the order index but not in the table: an internal
    /// inconsistency that a well-formed store never exhibits.
    OrderIndexMissing,
}

/// The store itself. `table` maps each live ID to its record, `order` lists
/// the live IDs in creation order, and `next_id` is the next ID to assign.
pub struct RecordStore {
    pub table: HashMap<u64, Record>,
    pub order: Vec<u64>,
    pub next_id: u64,
}

impl RecordStore {
    /// The store's invariant: the order index holds no duplicates, it lists
    /// exactly the keys of the table, and every live ID is below `next_id`
    /// (so a fresh ID never collides with a live one).
    pub open spec fn wf(self) -> bool {
        &&& forall|i: int, j: int|
            0 <= i < j < self.order@.len() ==> self.order@[i] != self.order@[j]
        &&& forall|id: u64| #![trigger self.table@.contains_key(id)] #![trigger self.order@.contains(id)]
            self.table@.contains_key(id) <==> self.order@.contains(id)
        &&& forall|id: u64| #[trigger] self.table@.contains_key(id) ==> id < self.next_id
    }

    /// How `create_todo` changes the store: `id` is the old counter value,
    /// the counter advances by one, the new record (not yet completed) is
    /// added to the table under `id`, and `id` is appended to the order index.
    pub open spec fn create_step(
        pre: Self,
        post: Self,
        name: String,
        description: String,
        id: u64,
    ) -> bool {
        &&& id == pre.next_id
        &&& post.next_id == pre.next_id + 1
        &&& post.table@ == pre.table@.insert(id, (Record { name, description, is_completed: false }))
        &&& post.order@ == pre.order@.push(id)
    }

    /// An empty store. The first created record gets ID 0.
    pub fn new() -> (s: RecordStore)
        ensures
            s.wf(),
            s.table@ == Map::<u64, Record>::empty(),
            s.order@ == Seq::<u64>::empty(),
            s.next_id == 0,
    {
        RecordStore { table: HashMap::new(), order: Vec::new(), next_id: 0 }
    }

    /// Creates a record with the given name and description, not yet
    /// completed, and returns its freshly assigned ID. Always succeeds.
    pub fn create_todo(&mut self, name: String, description: String) -> (r: Result<
        u64,
        RecordError,
    >)
        requires
            old(self).wf(),
            old(self).next_id < u64::MAX,
        ensures
            final(self).wf(),
            r == Ok::<u64, RecordError>(old(self).next_id),
            Self::create_step(*old(self), *final(self), name, description, old(self).next_id),
    {
        let next_id: u64 = self.next_id;
        self.next_id = next_id + 1;
        self.table.insert(next_id, Record { name, description, is_completed: false });
        self.order.push(next_id);
        proof {
            assert forall|id: u64| self.table@.contains_key(id) implies self.order@.contains(
                id,
            ) by {
                if id == next_id {
                    assert(self.order@[self.order@.len() - 1] == id);
                } else {
                    assert(old(self).order@.contains(id));
                }
            }
        }
        Ok(next_id)
    }

    /// The record after a partial update: each field that the caller gives
    /// replaces the old value; each field left out keeps it.
    pub open spec fn updated_record(
        prev: Record,
        name: Option<String>,
        description: Option<String>,
        is_completed: Option<bool>,
    ) -> Record {
        Record {
            name: match name {
                Some(n) => n,
                None => prev.name,
            },
            description: match description {
                Some(d) => d,
                None => prev.description,
            },
            is_completed: match is_completed {
                Some(c) => c,
                None => prev.is_completed,
            },
        }
    }

    /// How a successful `update_todo` changes the store: only the record
    /// under `id` changes, by partial update; the order index and the
    /// counter stay as they were.
    pub open spec fn update_step(
        pre: Self,
        post: Self,
        id: u64,
        name: Option<String>,
        description: Option<String>,
        is_completed: Option<bool>,
    ) -> bool {
        &&& pre.table@.contains_key(id)
        &&& post.table@ == pre.table@.insert(
            id,
            Self::updated_record(pre.table@[id], name, description, is_completed),
        )
        &&& post.order@ == pre.order@
        &&& post.next_id == pre.next_id
    }

    /// Two stores that hold the same records, in the same order, with the
    /// same counter: how a failed operation leaves the store.
    pub open spec fn same_state(pre: Self, post: Self) -> bool {
        &&& post.table@ == pre.table@
        &&& post.order@ == pre.order@
        &&& post.next_id == pre.next_id
    }

    /// How a successful `delete_todo` changes the store: the record leaves
    /// the table, the ID's one occurrence leaves the order index (the rest
    /// keeps its relative order), and the counter stays.
    pub open spec fn delete_step(pre: Self, post: Self, id: u64) -> bool {
        &&& pre.table@.contains_key(id)
        &&& post.table@ == pre.table@.remove(id)
        &&& post.order@ == pre.order@.remove_value(id)
        &&& post.next_id == pre.next_id
    }

    /// The page size a `get_todos` call works with: the caller's when given,
    /// else the default.
    pub open spec fn effective_page_size(page_size: Option<u64>) -> int {
        match page_size {
            Some(ps) => ps as int,
            None => DEFAULT_PAGE_SIZE as int,
        }
    }

    /// Index of the first element of a page. Pages are 1-based; page 0 reads
    /// as page 1, as the exec code saturates `page - 1` at zero.
    pub open spec fn page_start(page: int, ps: int) -> int {
        (if page <= 1 {
            0
        } else {
            page - 1
        }) * ps
    }

    /// The IDs on the given page: the slice of the order index from the
    /// page's start up to its end, clipped to the index's length. A page
    /// that starts at or past the end is empty.
    pub open spec fn page_ids(self, page: int, ps: int) -> Seq<u64> {
        let start = Self::page_start(page, ps);
        let end = if start + ps <= self.order@.len() {
            start + ps
        } else {
            self.order@.len() as int
        };
        if start >= self.order@.len() {
            Seq::<u64>::empty()
        } else {
            self.order@.subrange(start, end)
        }
    }

    /// The records on the given page, each page ID resolved through the
    /// table, in order-index order.
    pub open spec fn page_records(self, page: int, ps: int) -> Seq<Record> {
        self.page_ids(page, ps).map_values(|id: u64| self.table@[id])
    }

    /// Position of the first occurrence of `todo_id` in the order index,
    /// or `None` when the index does not hold it.
    fn find_in_order(&self, todo_id: u64) -> (r: Option<usize>)
        ensures
            match r {
                Some(pos) => {
                    &&& pos < self.order@.len()
                    &&& self.order@[pos as int] == todo_id
                    &&& forall|j: int| 0 <= j < pos ==> self.order@[j] != todo_id
                },
                None => !self.order@.contains(todo_id),
            },
    {
        let mut i: usize = 0;
        while i < self.order.len()
            invariant
                i <= self.order@.len(),
                forall|j: int| 0 <= j < i ==> self.order@[j] != todo_id,
            decreases self.order@.len() - i,
        {
            if self.order[i] == todo_id {
                return Some(i);
            }
            i = i + 1;
        }
        None
    }

    /// Overwrites exactly the fields of the record under `todo_id` that the
    /// caller gives; fails with `NotFound` when the ID is not live. The
    /// existence check goes through the order index, as a well-formed store
    /// keeps it in step with the table; a store whose index lists an ID the
    /// table lacks gets `OrderIndexMissing` instead.
    pub fn update_todo(
        &mut self,
        todo_id: u64,
        name: Option<String>,
        description: Option<String>,
        is_completed: Option<bool>,
    ) -> (r: Result<bool, RecordError>)
        requires
            old(self).wf(),
        ensures
            final(self).wf(),
            old(self).table@.contains_key(todo_id) ==> {
                &&& r == Ok::<bool, RecordError>(true)
                &&& Self::update_step(
                    *old(self),
                    *final(self),
                    todo_id,
                    name,
                    description,
                    is_completed,
                )
            },
            !old(self).table@.contains_key(todo_id) ==> {
                &&& r == Err::<bool, RecordError>(RecordError::NotFound)
                &&& Self::same_state(*old(self), *final(self))
            },
    {
        let found = self.find_in_order(todo_id);
        if found.is_none() {
            return Err(RecordError::NotFound);
        }
        proof {
            let pos: int = found->Some_0 as int;
            assert(self.order@[pos] == todo_id);
            assert(self.order@.contains(todo_id));
        }
        let current = match self.table.get(&todo_id) {
            Some(todo) => todo.clone(),
            None => {
                return Err(RecordError::OrderIndexMissing);
            },
        };
        let updated = Record {
            name: match name {
                Some(n) => n,
                None => current.name,
            },
            description: match description {
                Some(d) => d,
                None => current.description,
            },
            is_completed: match is_completed {
                Some(c) => c,
                None => current.is_completed,
            },
        };
        self.table.insert(todo_id, updated);
        proof {
            assert forall|id: u64| self.table@.contains_key(id) implies old(
                self,
            ).table@.contains_key(id) by {}
        }
        Ok(true)
    }

    /// Removes the record under `todo_id` from the table and its ID from the
    /// order index; fails with `NotFound` when the ID is not live. A store
    /// whose table holds an ID the order index lacks yields `Ok(false)`, a
    /// soft signal of the inconsistency; a well-formed store never does.
    pub fn delete_todo(&mut self, todo_id: u64) -> (r: Result<bool, RecordError>)
        requires
            old(self).wf(),
        ensures
            final(self).wf(),
            old(self).table@.contains_key(todo_id) ==> {
                &&& r == Ok::<bool, RecordError>(true)
                &&& Self::delete_step(*old(self), *final(self), todo_id)
            },
            !old(self).table@.contains_key(todo_id) ==> {
                &&& r == Err::<bool, RecordError>(RecordError::NotFound)
                &&& Self::same_state(*old(self), *final(self))
            },
    {
        let removed = self.table.remove(&todo_id);
        proof {
            if !old(self).table@.contains_key(todo_id) {
                assert(old(self).table@.remove(todo_id) =~= old(self).table@);
            }
        }
        if removed.is_some() {
            match self.find_in_order(todo_id) {
                Some(pos) => {
                    let ghost pre_order = self.order@;
                    self.order.remove(pos);
                    proof {
                        Self::lemma_remove_at_first_occurrence(pre_order, todo_id, pos as int);
                        assert(old(self).order@.contains(todo_id));
                        Self::lemma_delete_wf(*old(self), *self, todo_id, pos as int);
                    }
                    Ok(true)
                },
                None => Ok(false),
            }
        } else {
            Err(RecordError::NotFound)
        }
    }

    /// Removing the first occurrence of `val`, by index, is `remove_value`.
    proof fn lemma_remove_at_first_occurrence(s: Seq<u64>, val: u64, pos: int)
        requires
            0 <= pos < s.len(),
            s[pos] == val,
            forall|j: int| 0 <= j < pos ==> s[j] != val,
        ensures
            s.remove(pos) == s.remove_value(val),
    {
        assert(s.contains(val));
        s.index_of_first_ensures(val);
        let i: int = s.index_of_first(val)->Some_0;
        if i < pos {
            assert(s[i] == val);
        }
        assert(i == pos);
    }

    /// Deleting a live ID preserves the store's invariant: the shrunken
    /// order index still has no duplicates and still lists exactly the
    /// table's keys.
    proof fn lemma_delete_wf(pre: Self, post: Self, id: u64, pos: int)
        requires
            pre.wf(),
            0 <= pos < pre.order@.len(),
            pre.order@[pos] == id,
            post.table@ == pre.table@.remove(id),
            post.order@ == pre.order@.remove(pos),
            post.next_id == pre.next_id,
        ensures
            post.wf(),
    {
        pre.order@.remove_ensures(pos);
        assert forall|x: u64| post.order@.contains(x) implies post.table@.contains_key(x) by {
            let k: int = choose|k: int| 0 <= k < post.order@.len() && post.order@[k] == x;
            let k0: int = if k < pos {
                k
            } else {
                k + 1
            };
            assert(pre.order@[k0] == x);
            assert(pre.order@.contains(x));
            assert(k0 != pos);
            assert(x != id);
        }
        assert forall|x: u64| post.table@.contains_key(x) implies post.order@.contains(x) by {
            assert(pre.order@.contains(x));
            let k0: int = choose|k0: int| 0 <= k0 < pre.order@.len() && pre.order@[k0] == x;
            assert(k0 != pos);
            let k: int = if k0 < pos {
                k0
            } else {
                k0 - 1
            };
            assert(post.order@[k] == x);
        }
    }

    /// One page of records, resolved through the table in creation order.
    /// Pages are 1-based (page 0 reads as page 1); a page past the end is
    /// empty, never an error; a page size of 0 yields an empty page. An ID
    /// in the order index with no table entry would be skipped, but a
    /// well-formed store has none.
    pub fn get_todos(&self, page: u64, page_size: Option<u64>) -> (r: Vec<Record>)
        requires
            self.wf(),
        ensures
            r@ == self.page_records(page as int, Self::effective_page_size(page_size)),
    {
        let ps: u64 = match page_size {
            Some(p) => p,
            None => DEFAULT_PAGE_SIZE,
        };
        let page0: u64 = page.saturating_sub(1);
        let len_u64: u64 = self.order.len() as u64;
        let ghost goal = self.page_records(page as int, Self::effective_page_size(page_size));
        let start_u64: u64 = match page0.checked_mul(ps) {
            Some(s) => s,
            None => {
                // The product exceeds u64, so the page starts past the end.
                proof {
                    assert(goal =~= Seq::<Record>::empty());
                }
                return Vec::new();
            },
        };
        if start_u64 >= len_u64 {
            proof {
                assert(goal =~= Seq::<Record>::empty());
            }
            return Vec::new();
        }
        let start: usize = start_u64 as usize;
        let end: usize = if ps < len_u64 - start_u64 {
            (start_u64 + ps) as usize
        } else {
            self.order.len()
        };
        let mut out: Vec<Record> = Vec::new();
        let mut i: usize = start;
        while i < end
            invariant
                self.wf(),
                start <= i <= end <= self.order@.len(),
                out@.len() == i - start,
                forall|k: int|
                    0 <= k < out@.len() ==> out@[k] == self.table@[self.order@[start + k]],
            decreases end - i,
        {
            let id: u64 = self.order[i];
            proof {
                assert(self.order@.contains(id));
            }
            match self.table.get(&id) {
                Some(todo) => out.push(todo.clone()),
                None => {
                },
            }
            i = i + 1;
        }
        proof {
            assert(out@ =~= goal);
        }
        out
    }

    /// Looks the ID up in the table and returns a copy of its record, or
    /// `NotFound` when no record lives under that ID.
    pub fn get_todo(&self, todo_id: u64) -> (r: Result<Record, RecordError>)
        ensures
            self.table@.contains_key(todo_id) ==> r == Ok::<Record, RecordError>(
                self.table@[todo_id],
            ),
            !self.table@.contains_key(todo_id) ==> r == Err::<Record, RecordError>(
                RecordError::NotFound,
            ),
    {
        match self.table.get(&todo_id) {
            Some(todo) => Ok(todo.clone()),
            None => Err(RecordError::NotFound),
        }
    }
}

} // verus!
