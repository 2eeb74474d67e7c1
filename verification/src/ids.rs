//! The pool that hands out the identifiers by which clients know
//! entities.

use vstd::prelude::*;

verus! {

/// The failure of a request: every identifier of the pool is in use.
#[derive(Clone, Copy, Debug, PartialEq, Eq, Structural)]
pub struct PoolExhausted;

/// The mathematical state of a pool over the identifiers `first..=last`.
///
/// Identifiers below `fresh` have been handed out at least once; those of
/// them that came back and wait to be handed out again are in `recycled`.
pub struct PoolView {
    pub first: int,
    pub last: int,
    pub fresh: int,
    pub recycled: Seq<u32>,
}

impl PoolView {
    /// The state is one that a pool can be in.
    pub open spec fn wf(self) -> bool {
        &&& 0 <= self.first <= self.fresh
        &&& self.last <= u32::MAX
        &&& self.fresh <= self.last + 1 || self.fresh == self.first
        &&& self.recycled.no_duplicates()
        &&& forall|k: int|
            0 <= k < self.recycled.len() ==> self.first <= (#[trigger] self.recycled[k])
                < self.fresh
    }

    /// The identifiers that are in use.
    pub open spec fn live(self) -> Set<u32> {
        Set::new(|id: u32| self.first <= id < self.fresh && !self.recycled.contains(id))
    }

    /// How many identifiers were never handed out.
    pub open spec fn untouched(self) -> nat {
        if self.fresh <= self.last {
            (self.last + 1 - self.fresh) as nat
        } else {
            0
        }
    }

    /// How many requests can be served before one identifier comes back.
    pub open spec fn available(self) -> nat {
        self.untouched() + self.recycled.len()
    }

    /// The identifier that the next request gets: the one that came back
    /// last, else the smallest that was never handed out.
    pub open spec fn granted(self) -> Option<u32> {
        if self.recycled.len() > 0 {
            Some(self.recycled.last())
        } else if self.fresh <= self.last {
            Some(self.fresh as u32)
        } else {
            None
        }
    }

    /// The state after a request. An exhausted pool stays as it is.
    pub open spec fn after_request(self) -> PoolView {
        if self.recycled.len() > 0 {
            PoolView { recycled: self.recycled.drop_last(), ..self }
        } else if self.fresh <= self.last {
            PoolView { fresh: self.fresh + 1, ..self }
        } else {
            self
        }
    }

    /// The state after `id` was given back. Giving back an identifier that
    /// is not in use changes nothing.
    pub open spec fn after_release(self, id: u32) -> PoolView {
        if self.live().contains(id) {
            PoolView { recycled: self.recycled.push(id), ..self }
        } else {
            self
        }
    }
}

/// Allocates and reclaims the wire-visible identifiers of entities.
#[derive(Debug)]
pub struct EntityIdPool {
    first: u32,
    last: u32,
    fresh: u64,
    recycled: Vec<u32>,
}

impl View for EntityIdPool {
    type V = PoolView;

    closed spec fn view(&self) -> PoolView {
        PoolView {
            first: self.first as int,
            last: self.last as int,
            fresh: self.fresh as int,
            recycled: self.recycled@,
        }
    }
}

impl EntityIdPool {
    /// A pool over every identifier but zero, none of them in use.
    pub fn new() -> (pool: EntityIdPool)
        ensures
            pool@ == (PoolView { first: 1, last: u32::MAX as int, fresh: 1, recycled: Seq::empty() }),
            pool@.wf(),
            pool@.live() == Set::<u32>::empty(),
    {
        assert((PoolView { first: 1, last: u32::MAX as int, fresh: 1, recycled: Seq::empty() }).live()
            =~= Set::<u32>::empty());
        EntityIdPool { first: 1, last: u32::MAX, fresh: 1, recycled: Vec::new() }
    }

    /// A pool over the identifiers `first..=last`, none of them in use.
    /// With `last < first` the pool has no identifier to give.
    pub fn with_range(first: u32, last: u32) -> (pool: EntityIdPool)
        ensures
            pool@ == (PoolView {
                first: first as int,
                last: last as int,
                fresh: first as int,
                recycled: Seq::empty(),
            }),
            pool@.wf(),
            pool@.live() == Set::<u32>::empty(),
    {
        assert((PoolView {
            first: first as int,
            last: last as int,
            fresh: first as int,
            recycled: Seq::empty(),
        }).live() =~= Set::<u32>::empty());
        EntityIdPool { first, last, fresh: first as u64, recycled: Vec::new() }
    }

    /// How many requests can be served before one identifier comes back.
    pub fn available(&self) -> (count: u64)
        requires
            self@.wf(),
        ensures
            count == self@.available(),
    {
        proof {
            lemma_recycled_bound(self@);
        }
        let untouched: u64 = if self.fresh <= self.last as u64 {
            self.last as u64 + 1 - self.fresh
        } else {
            0
        };
        untouched + self.recycled.len() as u64
    }

    /// Whether `id` is in use.
    pub fn is_live(&self, id: u32) -> (live: bool)
        ensures
            live == self@.live().contains(id),
    {
        if id < self.first || id as u64 >= self.fresh {
            return false;
        }
        let mut i: usize = 0;
        while i < self.recycled.len()
            invariant
                i <= self.recycled.len(),
                forall|k: int| 0 <= k < i ==> self.recycled@[k] != id,
            decreases self.recycled.len() - i,
        {
            if self.recycled[i] == id {
                return false;
            }
            i += 1;
        }
        true
    }

    /// Hands out an identifier that is not in use, or fails when there is
    /// none.
    pub fn request_id(&mut self) -> (result: Result<u32, PoolExhausted>)
        requires
            old(self)@.wf(),
        ensures
            match result {
                Ok(id) => {
                    &&& old(self)@.granted() == Some(id)
                    &&& !old(self)@.live().contains(id)
                    &&& final(self)@.live() == old(self)@.live().insert(id)
                },
                Err(_) => old(self)@.available() == 0,
            },
            result is Ok <==> old(self)@.available() > 0,
            final(self)@ == old(self)@.after_request(),
            final(self)@.wf(),
    {
        proof {
            lemma_request(self@);
        }
        match self.recycled.pop() {
            Some(id) => Ok(id),
            None => {
                if self.fresh <= self.last as u64 {
                    let id = self.fresh as u32;
                    self.fresh = self.fresh + 1;
                    Ok(id)
                } else {
                    Err(PoolExhausted)
                }
            },
        }
    }

    /// Takes back the identifier of an entity that has despawned. Returns
    /// whether `id` was in use; if it was not, nothing changes.
    pub fn release_id(&mut self, id: u32) -> (released: bool)
        requires
            old(self)@.wf(),
        ensures
            released == old(self)@.live().contains(id),
            final(self)@ == old(self)@.after_release(id),
            final(self)@.live() == old(self)@.live().remove(id),
            final(self)@.wf(),
    {
        proof {
            lemma_release(self@, id);
        }
        if self.is_live(id) {
            self.recycled.push(id);
            true
        } else {
            false
        }
    }
}

/// The identifiers that wait to be handed out again are fewer than the
/// identifiers that were ever handed out.
proof fn lemma_recycled_bound(pool: PoolView)
    requires
        pool.wf(),
    ensures
        pool.recycled.len() <= pool.fresh - pool.first,
{
    let ids = pool.recycled.to_set();
    let range = Set::new(|id: u32| pool.first <= id < pool.fresh);
    let ints = vstd::set_lib::set_int_range(pool.first, pool.fresh);
    vstd::set_lib::lemma_int_range(pool.first, pool.fresh);
    pool.recycled.unique_seq_to_set();
    assert forall|id: u32| ids.contains(id) implies #[trigger] ints.contains(id as int) by {
        let k = choose|k: int| 0 <= k < pool.recycled.len() && pool.recycled[k] == id;
        assert(pool.first <= pool.recycled[k] < pool.fresh);
    }
    let widened = ids.map(|id: u32| id as int);
    assert(widened.subset_of(ints)) by {
        assert forall|x: int| widened.contains(x) implies ints.contains(x) by {
            let id = choose|id: u32| ids.contains(id) && x == id as int;
            assert(ints.contains(id as int));
        }
    }
    vstd::set_lib::lemma_len_subset(widened, ints);
    vstd::set_lib::lemma_map_size(ids, widened, |id: u32| id as int);
}

/// A request hands out an identifier that is not in use and marks it as in
/// use, or finds the pool exhausted; the pool stays well-formed.
pub proof fn lemma_request(pool: PoolView)
    requires
        pool.wf(),
    ensures
        pool.after_request().wf(),
        match pool.granted() {
            Some(id) => {
                &&& !pool.live().contains(id)
                &&& pool.after_request().live() == pool.live().insert(id)
                &&& pool.available() > 0
                &&& pool.after_request().available() == pool.available() - 1
            },
            None => pool.available() == 0 && pool.after_request() == pool,
        },
{
    let next = pool.after_request();
    if pool.recycled.len() > 0 {
        let id = pool.recycled.last();
        assert(pool.recycled[pool.recycled.len() - 1] == id);
        assert(pool.recycled.contains(id));
        assert forall|other: u32| next.live().contains(other) == pool.live().insert(id).contains(
            other,
        ) by {
            if other != id {
                if pool.recycled.contains(other) {
                    let k = choose|k: int| 0 <= k < pool.recycled.len() && pool.recycled[k]
                        == other;
                    assert(next.recycled[k] == other);
                }
            } else {
                if next.recycled.contains(id) {
                    let k = choose|k: int| 0 <= k < next.recycled.len() && next.recycled[k] == id;
                    assert(pool.recycled[k] == id);
                }
            }
        }
        assert(next.live() =~= pool.live().insert(id));
    } else if pool.fresh <= pool.last {
        let id = pool.fresh as u32;
        assert(next.live() =~= pool.live().insert(id));
    }
}

/// Giving an identifier back takes it, and nothing else, out of use; the
/// pool stays well-formed.
pub proof fn lemma_release(pool: PoolView, id: u32)
    requires
        pool.wf(),
    ensures
        pool.after_release(id).wf(),
        pool.after_release(id).live() == pool.live().remove(id),
        pool.live().contains(id) ==> pool.after_release(id).available() == pool.available() + 1,
{
    let next = pool.after_release(id);
    if pool.live().contains(id) {
        assert forall|other: u32| next.live().contains(other) == pool.live().remove(id).contains(
            other,
        ) by {
            if other == id {
                assert(next.recycled[pool.recycled.len() as int] == id);
            } else if next.recycled.contains(other) {
                let k = choose|k: int| 0 <= k < next.recycled.len() && next.recycled[k] == other;
                assert(pool.recycled[k] == other);
            } else if pool.recycled.contains(other) {
                let k = choose|k: int| 0 <= k < pool.recycled.len() && pool.recycled[k] == other;
                assert(next.recycled[k] == other);
            }
        }
    }
    assert(next.live() =~= pool.live().remove(id));
}


/// One use of a pool.
pub enum PoolOp {
    Request,
    Release(u32),
}

impl PoolView {
    /// The state after one use.
    pub open spec fn step(self, op: PoolOp) -> PoolView {
        match op {
            PoolOp::Request => self.after_request(),
            PoolOp::Release(id) => self.after_release(id),
        }
    }

    /// The state after a series of uses.
    pub open spec fn run(self, ops: Seq<PoolOp>) -> PoolView
        decreases ops.len(),
    {
        if ops.len() == 0 {
            self
        } else {
            self.run(ops.drop_last()).step(ops.last())
        }
    }
}

/// Whatever a pool is used for, it stays well-formed.
pub proof fn lemma_run_wf(pool: PoolView, ops: Seq<PoolOp>)
    requires
        pool.wf(),
    ensures
        pool.run(ops).wf(),
    decreases ops.len(),
{
    if ops.len() > 0 {
        lemma_run_wf(pool, ops.drop_last());
        let before = pool.run(ops.drop_last());
        match ops.last() {
            PoolOp::Request => lemma_request(before),
            PoolOp::Release(id) => lemma_release(before, id),
        }
    }
}

/// An identifier that is in use after `from` uses is still in use after
/// `upto` uses, unless one of the uses in between gave it back.
pub proof fn lemma_stays_live(pool: PoolView, ops: Seq<PoolOp>, from: int, upto: int, id: u32)
    requires
        pool.wf(),
        0 <= from <= upto <= ops.len(),
        pool.run(ops.take(from)).live().contains(id),
        forall|k: int| from <= k < upto ==> ops[k] != PoolOp::Release(id),
    ensures
        pool.run(ops.take(upto)).live().contains(id),
    decreases upto - from,
{
    if from < upto {
        lemma_stays_live(pool, ops, from, upto - 1, id);
        let prefix = ops.take(upto);
        assert(prefix.drop_last() =~= ops.take(upto - 1));
        assert(prefix.last() == ops[upto - 1]);
        let before = pool.run(ops.take(upto - 1));
        lemma_run_wf(pool, ops.take(upto - 1));
        match ops[upto - 1] {
            PoolOp::Request => lemma_request(before),
            PoolOp::Release(other) => lemma_release(before, other),
        }
    }
}

/// No identifier has two holders at once: when two requests of a series
/// are both served and the identifier that the earlier one got is not
/// given back in between, the later one gets another identifier.
pub proof fn lemma_no_reuse_while_live(pool: PoolView, ops: Seq<PoolOp>, i: int, j: int)
    requires
        pool.wf(),
        0 <= i < j < ops.len(),
        ops[i] is Request,
        ops[j] is Request,
        pool.run(ops.take(i)).granted() is Some,
        pool.run(ops.take(j)).granted() is Some,
        forall|k: int|
            i < k < j ==> ops[k] != PoolOp::Release(pool.run(ops.take(i)).granted().unwrap()),
    ensures
        pool.run(ops.take(i)).granted().unwrap() != pool.run(ops.take(j)).granted().unwrap(),
{
    let first = pool.run(ops.take(i)).granted().unwrap();
    lemma_run_wf(pool, ops.take(i));
    lemma_request(pool.run(ops.take(i)));
    let prefix = ops.take(i + 1);
    assert(prefix.drop_last() =~= ops.take(i));
    assert(prefix.last() == ops[i]);
    assert(pool.run(prefix).live().contains(first));
    lemma_stays_live(pool, ops, i + 1, j, first);
    lemma_run_wf(pool, ops.take(j));
    lemma_request(pool.run(ops.take(j)));
}


/// A series of `count` requests.
pub open spec fn requests(count: nat) -> Seq<PoolOp> {
    Seq::new(count, |i: int| PoolOp::Request)
}

impl PoolView {
    /// The state after `count` requests in a row.
    pub open spec fn after_requests(self, count: nat) -> PoolView {
        self.run(requests(count))
    }

    /// The identifiers that `count` requests in a row get, in their order.
    pub open spec fn granted_batch(self, count: nat) -> Seq<u32> {
        Seq::new(count, |i: int| self.after_requests(i as nat).granted().unwrap())
    }
}

/// One more request in a row is a request on what the earlier ones left.
pub proof fn lemma_requests_step(pool: PoolView, count: nat)
    ensures
        pool.after_requests(count + 1) == pool.after_requests(count).after_request(),
        pool.granted_batch(count + 1) == pool.granted_batch(count).push(
            pool.after_requests(count).granted().unwrap(),
        ),
        pool.after_requests(0) == pool,
{
    assert(requests(count + 1).drop_last() =~= requests(count));
    assert(pool.granted_batch(count + 1) =~= pool.granted_batch(count).push(
        pool.after_requests(count).granted().unwrap(),
    ));
}

/// A pool serves as many requests in a row as it has identifiers
/// available. The identifiers it hands out are pairwise distinct, none of
/// them was in use before, and afterwards exactly they are in use
/// besides those that were.
pub proof fn lemma_batch(pool: PoolView, count: nat)
    requires
        pool.wf(),
        count <= pool.available(),
    ensures
        pool.after_requests(count).wf(),
        pool.after_requests(count).available() == pool.available() - count,
        pool.granted_batch(count).no_duplicates(),
        forall|k: int|
            0 <= k < count ==> !pool.live().contains(#[trigger] pool.granted_batch(count)[k]),
        pool.after_requests(count).live() == pool.live().union(pool.granted_batch(count).to_set()),
    decreases count,
{
    lemma_requests_step(pool, 0);
    if count == 0 {
        assert(requests(0) =~= Seq::empty());
        assert(pool.after_requests(0).live() =~= pool.live().union(
            pool.granted_batch(0).to_set(),
        ));
    } else {
        let fewer = (count - 1) as nat;
        lemma_batch(pool, fewer);
        lemma_requests_step(pool, fewer);
        let before = pool.after_requests(fewer);
        lemma_request(before);
        let id = before.granted().unwrap();
        let earlier = pool.granted_batch(fewer);
        let batch = pool.granted_batch(count);
        assert(batch == earlier.push(id));
        assert forall|k: int| 0 <= k < fewer implies earlier[k] != id by {
            assert(earlier.to_set().contains(earlier[k]));
            assert(before.live().contains(earlier[k]));
        }
        assert(!pool.live().contains(id));
        assert forall|k: int| 0 <= k < count implies !pool.live().contains(
            #[trigger] batch[k],
        ) by {
            if k < fewer {
                assert(batch[k] == earlier[k]);
            }
        }
        assert(pool.after_requests(count).live() =~= pool.live().union(batch.to_set())) by {
            assert forall|x: u32| batch.to_set().contains(x) == (earlier.to_set().contains(x) || x
                == id) by {
                if earlier.to_set().contains(x) {
                    let k = choose|k: int| 0 <= k < earlier.len() && earlier[k] == x;
                    assert(batch[k] == x);
                }
                if x == id {
                    assert(batch[fewer as int] == id);
                }
                if batch.to_set().contains(x) {
                    let k = choose|k: int| 0 <= k < batch.len() && batch[k] == x;
                    if k < fewer {
                        assert(earlier[k] == x);
                    }
                }
            }
        }
    }
}

impl EntityIdPool {
    /// Hands out `count` identifiers at once, or none: the request fails,
    /// and leaves the pool as it was, when fewer are available.
    pub fn request_ids(&mut self, count: usize) -> (result: Result<Vec<u32>, PoolExhausted>)
        requires
            old(self)@.wf(),
        ensures
            match result {
                Ok(ids) => {
                    &&& count <= old(self)@.available()
                    &&& ids@ == old(self)@.granted_batch(count as nat)
                    &&& final(self)@ == old(self)@.after_requests(count as nat)
                },
                Err(_) => count > old(self)@.available() && final(self)@ == old(self)@,
            },
            final(self)@.wf(),
    {
        let ghost start = self@;
        if self.available() < count as u64 {
            return Err(PoolExhausted);
        }
        let mut ids: Vec<u32> = Vec::new();
        let mut i: usize = 0;
        proof {
            lemma_requests_step(start, 0);
            assert(requests(0) =~= Seq::empty());
            assert(ids@ =~= start.granted_batch(0));
        }
        while i < count
            invariant
                i <= count <= start.available(),
                start.wf(),
                self@.wf(),
                self@ == start.after_requests(i as nat),
                ids@ == start.granted_batch(i as nat),
            decreases count - i,
        {
            proof {
                lemma_batch(start, i as nat);
                lemma_requests_step(start, i as nat);
                lemma_request(self@);
            }
            if let Ok(id) = self.request_id() {
                ids.push(id);
            }
            i += 1;
        }
        Ok(ids)
    }
}

} // verus!
