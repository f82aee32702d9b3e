//! Properties of the store that span several operations, stated over the
//! step relations in `store` and proved once and for all.

use vstd::prelude::*;

verus! {

broadcast use vstd::seq_lib::group_seq_properties;

use crate::store::Record;
use crate::store::RecordStore;

/// Any one operation's effect on the store: a read (or failed write) leaves
/// it as it was, and each write is one of the three step relations.
pub open spec fn step(pre: RecordStore, post: RecordStore) -> bool {
    ||| RecordStore::same_state(pre, post)
    ||| (exists|name: String, description: String, id: u64|
        RecordStore::create_step(pre, post, name, description, id))
    ||| (exists|id: u64, name: Option<String>, description: Option<String>, is_completed: Option<
        bool,
    >| RecordStore::update_step(pre, post, id, name, description, is_completed))
    ||| (exists|id: u64| RecordStore::delete_step(pre, post, id))
}

/// An operation that neither creates, updates nor deletes the record under
/// `id`: it may touch any other record, or nothing at all.
pub open spec fn step_avoiding(pre: RecordStore, post: RecordStore, id: u64) -> bool {
    ||| RecordStore::same_state(pre, post)
    ||| (exists|name: String, description: String, j: u64|
        j != id && RecordStore::create_step(pre, post, name, description, j))
    ||| (exists|j: u64, name: Option<String>, description: Option<String>, is_completed: Option<
        bool,
    >| j != id && RecordStore::update_step(pre, post, j, name, description, is_completed))
    ||| (exists|j: u64| j != id && RecordStore::delete_step(pre, post, j))
}

/// A freshly created ID was not live before the call: IDs are never reused.
pub proof fn lemma_create_id_fresh(
    pre: RecordStore,
    post: RecordStore,
    name: String,
    description: String,
    id: u64,
)
    requires
        pre.wf(),
        RecordStore::create_step(pre, post, name, description, id),
    ensures
        !pre.table@.contains_key(id),
{
}

/// No operation ever lowers the ID counter.
pub proof fn lemma_step_next_id_monotone(pre: RecordStore, post: RecordStore)
    requires
        step(pre, post),
    ensures
        post.next_id >= pre.next_id,
{
}

/// The counter never falls along any run of operations: `chain` is the
/// sequence of store states such a run passes through.
pub proof fn lemma_chain_next_id_monotone(chain: Seq<RecordStore>)
    requires
        chain.len() > 0,
        forall|k: int| 0 <= k < chain.len() - 1 ==> #[trigger] step(chain[k], chain[k + 1]),
    ensures
        chain.last().next_id >= chain.first().next_id,
    decreases chain.len(),
{
    if chain.len() > 1 {
        let m: int = chain.len() - 1;
        let sub = chain.drop_last();
        assert forall|k: int| 0 <= k < sub.len() - 1 implies #[trigger] step(
            sub[k],
            sub[k + 1],
        ) by {
            assert(step(chain[k], chain[k + 1]));
        }
        lemma_chain_next_id_monotone(sub);
        assert(step(chain[m - 1], chain[m - 1 + 1]));
        lemma_step_next_id_monotone(chain[m - 1], chain[m]);
    }
}

/// Two creations in a row return consecutive IDs: operations other than
/// creation introduce no gap in the assigned sequence.
pub proof fn lemma_consecutive_creates_no_gap(
    s0: RecordStore,
    s1: RecordStore,
    s2: RecordStore,
    n1: String,
    d1: String,
    i1: u64,
    n2: String,
    d2: String,
    i2: u64,
)
    requires
        RecordStore::create_step(s0, s1, n1, d1, i1),
        RecordStore::create_step(s1, s2, n2, d2, i2),
    ensures
        i2 == i1 + 1,
{
}

/// IDs strictly increase across any run of operations: a creation before
/// the run returns a smaller ID than a creation after it, however many
/// operations of any kind run in between. With `lemma_create_id_fresh`,
/// this is why no ID is ever returned twice.
pub proof fn lemma_later_create_returns_larger_id(
    s0: RecordStore,
    chain: Seq<RecordStore>,
    s3: RecordStore,
    n1: String,
    d1: String,
    i1: u64,
    n2: String,
    d2: String,
    i2: u64,
)
    requires
        chain.len() > 0,
        RecordStore::create_step(s0, chain.first(), n1, d1, i1),
        forall|k: int| 0 <= k < chain.len() - 1 ==> #[trigger] step(chain[k], chain[k + 1]),
        RecordStore::create_step(chain.last(), s3, n2, d2, i2),
    ensures
        i2 > i1,
{
    lemma_chain_next_id_monotone(chain);
}

/// Round trip: right after a creation, the new ID is live and its record
/// carries the given name and description, not yet completed. `get_todo`'s
/// contract then returns exactly this record.
pub proof fn lemma_create_then_get(
    pre: RecordStore,
    post: RecordStore,
    name: String,
    description: String,
    id: u64,
)
    requires
        RecordStore::create_step(pre, post, name, description, id),
    ensures
        post.table@.contains_key(id),
        post.table@[id] == (Record { name, description, is_completed: false }),
{
}

/// A live record outlasts every operation aimed at another ID, unchanged:
/// with `lemma_create_then_get`, what `create` put under `id` is what
/// `get_todo` returns until an update or delete aims at `id` itself.
pub proof fn lemma_untouched_record_persists(pre: RecordStore, post: RecordStore, id: u64)
    requires
        pre.table@.contains_key(id),
        step_avoiding(pre, post, id),
    ensures
        post.table@.contains_key(id),
        post.table@[id] == pre.table@[id],
{
}

/// A live record survives any run of operations none of which aims at its
/// ID, unchanged: `chain` is the sequence of store states the run passes
/// through. This is the "until a subsequent update or delete" of the round
/// trip: created once, a record reads back the same however much happens
/// around it.
pub proof fn lemma_record_persists_along_chain(chain: Seq<RecordStore>, id: u64)
    requires
        chain.len() > 0,
        chain.first().table@.contains_key(id),
        forall|k: int|
            0 <= k < chain.len() - 1 ==> #[trigger] step_avoiding(chain[k], chain[k + 1], id),
    ensures
        chain.last().table@.contains_key(id),
        chain.last().table@[id] == chain.first().table@[id],
    decreases chain.len(),
{
    if chain.len() > 1 {
        let m: int = chain.len() - 1;
        let sub = chain.drop_last();
        assert forall|k: int| 0 <= k < sub.len() - 1 implies #[trigger] step_avoiding(
            sub[k],
            sub[k + 1],
            id,
        ) by {
            assert(step_avoiding(chain[k], chain[k + 1], id));
        }
        lemma_record_persists_along_chain(sub, id);
        assert(step_avoiding(chain[m - 1], chain[m - 1 + 1], id));
        lemma_untouched_record_persists(chain[m - 1], chain[m], id);
    }
}

/// Partial update: an update that gives only a name changes only the name.
/// The record keeps its description and completion flag, every other record
/// is untouched, and the order index and counter stay.
pub proof fn lemma_update_name_only(pre: RecordStore, post: RecordStore, id: u64, x: String)
    requires
        RecordStore::update_step(pre, post, id, Some(x), None, None),
    ensures
        post.table@.contains_key(id),
        post.table@[id].name == x,
        post.table@[id].description == pre.table@[id].description,
        post.table@[id].is_completed == pre.table@[id].is_completed,
        forall|j: u64|
            j != id && pre.table@.contains_key(j) ==> post.table@.contains_key(j)
                && post.table@[j] == pre.table@[j],
        post.order@ == pre.order@,
        post.next_id == pre.next_id,
{
}

/// A deleted ID is gone from both structures: it is no longer live in the
/// table (so `get_todo` fails with `NotFound`), it is gone from the order
/// index, and no page of any size lists it thereafter.
pub proof fn lemma_delete_removes_everywhere(pre: RecordStore, post: RecordStore, id: u64)
    requires
        pre.wf(),
        RecordStore::delete_step(pre, post, id),
    ensures
        !post.table@.contains_key(id),
        !post.order@.contains(id),
        forall|page: int, ps: int|
            0 <= page && 0 <= ps ==> !#[trigger] post.page_ids(page, ps).contains(id),
{
    assert(pre.order@.contains(id));
    pre.order@.index_of_first_ensures(id);
    let i: int = pre.order@.index_of_first(id)->Some_0;
    pre.order@.remove_ensures(i);
    assert forall|k: int| 0 <= k < post.order@.len() implies post.order@[k] != id by {
        let k0: int = if k < i {
            k
        } else {
            k + 1
        };
        assert(post.order@[k] == pre.order@[k0]);
        if k0 != i && pre.order@[k0] == id {
            assert(pre.order@[i] == id);
        }
    }
    assert forall|page: int, ps: int| 0 <= page && 0 <= ps implies !#[trigger] post.page_ids(
        page,
        ps,
    ).contains(id) by {
        if post.page_ids(page, ps).contains(id) {
            let pids = post.page_ids(page, ps);
            let k: int = choose|k: int| 0 <= k < pids.len() && pids[k] == id;
            let start: int = RecordStore::page_start(page, ps);
            assert(post.order@[start + k] == id);
            assert(post.order@.contains(id));
        }
    }
}

/// Concatenation of the first `n` pages of IDs, in page order.
pub open spec fn pages_up_to(s: RecordStore, n: int, ps: int) -> Seq<u64>
    decreases n,
{
    if n <= 0 {
        Seq::<u64>::empty()
    } else {
        pages_up_to(s, n - 1, ps) + s.page_ids(n, ps)
    }
}

/// Pagination coverage: for a positive page size, the first `n` pages laid
/// end to end are exactly the first `n * ps` IDs of the order index
/// (all of them, once `n * ps` reaches the index's length): pages overlap
/// nowhere and omit nothing.
pub proof fn lemma_pages_partition_order(s: RecordStore, n: int, ps: int)
    requires
        n >= 0,
        ps > 0,
    ensures
        pages_up_to(s, n, ps) == s.order@.subrange(
            0,
            if n * ps <= s.order@.len() {
                n * ps
            } else {
                s.order@.len() as int
            },
        ),
    decreases n,
{
    let len: int = s.order@.len() as int;
    if n == 0 {
        assert(n * ps == 0) by (nonlinear_arith)
            requires
                n == 0,
        ;
        assert(pages_up_to(s, 0, ps) =~= s.order@.subrange(0, 0));
    } else {
        lemma_pages_partition_order(s, n - 1, ps);
        assert((n - 1) * ps + ps == n * ps) by (nonlinear_arith);
        assert((n - 1) * ps >= 0) by (nonlinear_arith)
            requires
                n >= 1,
                ps > 0,
        ;
        let prev: int = if (n - 1) * ps <= len {
            (n - 1) * ps
        } else {
            len
        };
        let cur: int = if n * ps <= len {
            n * ps
        } else {
            len
        };
        assert(pages_up_to(s, n, ps) =~= s.order@.subrange(0, prev) + s.page_ids(n, ps));
        assert(s.order@.subrange(0, prev) + s.order@.subrange(prev, cur) =~= s.order@.subrange(
            0,
            cur,
        ));
        if (n - 1) * ps >= len {
            assert(s.page_ids(n, ps) =~= s.order@.subrange(prev, cur));
        } else {
            assert(s.page_ids(n, ps) == s.order@.subrange(prev, cur));
        }
        assert(pages_up_to(s, n, ps) == s.order@.subrange(0, cur));
    }
}

/// Every record that the store holds appears on exactly one page: once
/// `n * ps` reaches the order index's length, the first `n` pages laid end
/// to end are the whole order index.
pub proof fn lemma_pages_cover(s: RecordStore, n: int, ps: int)
    requires
        n >= 0,
        ps > 0,
        n * ps >= s.order@.len(),
    ensures
        pages_up_to(s, n, ps) == s.order@,
{
    lemma_pages_partition_order(s, n, ps);
    assert(s.order@.subrange(0, s.order@.len() as int) =~= s.order@);
}

/// Page 0 behaves as page 1: both denote the front of the order index.
pub proof fn lemma_page_zero_is_page_one(s: RecordStore, ps: int)
    ensures
        s.page_ids(0, ps) == s.page_ids(1, ps),
        s.page_records(0, ps) == s.page_records(1, ps),
{
}

} // verus!
