//! Fixed-capacity slot tables keyed by identifier, with least-recently-touched eviction.
use vstd::prelude::*;
use crate::id::Id;

verus! {

/// Number of slots touched in `frame` or later.
pub open spec fn touched_in(s: Seq<PoolItem>, frame: usize) -> nat
    decreases s.len(),
{
    if s.len() == 0 {
        0
    } else {
        touched_in(s.drop_last(), frame) + if s.last().last_update >= frame {
            1nat
        } else {
            0nat
        }
    }
}

proof fn lemma_touched_update(s: Seq<PoolItem>, frame: usize, r: int, x: PoolItem)
    requires
        0 <= r < s.len(),
    ensures
        touched_in(s.update(r, x), frame) + (if s[r].last_update >= frame { 1int } else { 0int })
            == touched_in(s, frame) + (if x.last_update >= frame { 1int } else { 0int }),
    decreases s.len(),
{
    if r == s.len() - 1 {
        assert(s.update(r, x).drop_last() =~= s.drop_last());
    } else {
        lemma_touched_update(s.drop_last(), frame, r, x);
        assert(s.update(r, x).drop_last() =~= s.drop_last().update(r, x));
    }
}

proof fn lemma_touched_bound(s: Seq<PoolItem>, frame: usize)
    ensures
        touched_in(s, frame) <= s.len(),
        touched_in(s, frame) == s.len() ==> forall|i: int| 0 <= i < s.len() ==> #[trigger] s[i].last_update >= frame,
    decreases s.len(),
{
    if s.len() > 0 {
        lemma_touched_bound(s.drop_last(), frame);
        if touched_in(s, frame) == s.len() {
            assert forall|i: int| 0 <= i < s.len() implies #[trigger] s[i].last_update >= frame by {
                if i < s.len() - 1 {
                    assert(s.drop_last()[i] == s[i]);
                }
            }
        }
    }
}

/// One slot: the identifier it holds and the frame in which it was last touched.
#[derive(Clone, Copy, Debug, Default, PartialEq, Eq, Structural)]
pub struct PoolItem {
    pub id: Id,
    pub last_update: usize,
}

/// `N` slots; a slot is only reused once a later frame asks for one.
pub struct Pool<const N: usize> {
    items: Vec<PoolItem>,
}

impl<const N: usize> View for Pool<N> {
    type V = Seq<PoolItem>;

    closed spec fn view(&self) -> Seq<PoolItem> {
        self.items@
    }
}

impl<const N: usize> Pool<N> {
    /// `N` slots, and no identifier but the empty one (0) in two of them.
    pub open spec fn wf(&self) -> bool {
        &&& self@.len() == N
        &&& forall|i: int, j: int|
            #![trigger self@[i], self@[j]]
            0 <= i < j < N && self@[i].id == self@[j].id ==> self@[i].id == Id(0)
    }

    /// Some slot was last touched before `frame`, so `alloc` may take it.
    pub open spec fn can_alloc(&self, frame: usize) -> bool {
        exists|i: int| 0 <= i < self@.len() && #[trigger] self@[i].last_update < frame
    }

    /// Whether some slot holds `id`.
    pub open spec fn holds(&self, id: Id) -> bool {
        exists|i: int| 0 <= i < self@.len() && #[trigger] self@[i].id == id
    }

    /// The slot that `get` finds for `id`: the first that holds it.
    pub open spec fn lookup(&self, id: Id) -> Option<usize> {
        if self.holds(id) {
            let i = choose|i: int|
                0 <= i < self@.len() && #[trigger] self@[i].id == id && forall|j: int|
                    0 <= j < i ==> self@[j].id != id;
            Some(i as usize)
        } else {
            None
        }
    }

    /// All slots empty: identifier 0, never touched.
    pub fn new() -> (p: Self)
        ensures
            p.wf(),
            forall|i: int| 0 <= i < N ==> #[trigger] p@[i] == (PoolItem { id: Id(0), last_update: 0 }),
    {
        let mut items: Vec<PoolItem> = Vec::new();
        let mut i: usize = 0;
        while i < N
            invariant
                i <= N,
                items@.len() == i,
                forall|k: int| 0 <= k < i ==> #[trigger] items@[k] == (PoolItem { id: Id(0), last_update: 0 }),
            decreases N - i,
        {
            items.push(PoolItem { id: Id(0), last_update: 0 });
            i = i + 1;
        }
        Pool { items }
    }

    /// Takes the slot touched least recently, before `frame`, for `id`, and marks it touched
    /// in `frame`.
    pub fn allocate(&mut self, id: Id, frame: usize) -> (r: usize)
        requires
            old(self).wf(),
            old(self).can_alloc(frame),
            !old(self).holds(id),
        ensures
            final(self).wf(),
            r < N,
            old(self)@[r as int].last_update < frame,
            forall|j: int| 0 <= j < N ==> old(self)@[r as int].last_update <= #[trigger] old(self)@[j].last_update,
            forall|j: int| 0 <= j < r ==> old(self)@[r as int].last_update < #[trigger] old(self)@[j].last_update,
            final(self)@ == old(self)@.update(r as int, PoolItem { id, last_update: frame }),
            touched_in(final(self)@, frame) == touched_in(old(self)@, frame) + 1,
    {
        let mut res: usize = N;
        let mut latest_update = frame;
        let mut i: usize = 0;
        while i < N
            invariant
                self.wf(),
                self@ == old(self)@,
                i <= N,
                res <= N,
                res == N ==> latest_update == frame,
                res < N ==> res < i && latest_update == self@[res as int].last_update,
                latest_update <= frame,
                forall|j: int| 0 <= j < i ==> latest_update <= #[trigger] self@[j].last_update,
                res < N ==> forall|j: int| 0 <= j < res ==> latest_update < #[trigger] self@[j].last_update,
                res < N ==> latest_update < frame,
            decreases N - i,
        {
            let t = self.items[i].last_update;
            assert(t == self@[i as int].last_update);
            if t < latest_update {
                latest_update = t;
                res = i;
            }
            i = i + 1;
        }
        proof {
            assert(self.can_alloc(frame));
            let k = choose|k: int| 0 <= k < self@.len() && #[trigger] self@[k].last_update < frame;
            assert(latest_update <= self@[k].last_update);
        }
        self.items.set(res, PoolItem { id, last_update: frame });
        proof {
            lemma_touched_update(old(self)@, frame, res as int, PoolItem { id, last_update: frame });
        }
        res
    }

    /// Whether `allocate` may be called in `frame`: some slot was last touched before it.
    pub fn has_free_slot(&self, frame: usize) -> (r: bool)
        requires
            self.wf(),
        ensures
            r == self.can_alloc(frame),
    {
        let mut i: usize = 0;
        while i < N
            invariant
                self.wf(),
                i <= N,
                forall|j: int| 0 <= j < i ==> #[trigger] self@[j].last_update >= frame,
            decreases N - i,
        {
            if self.items[i].last_update < frame {
                assert(self@[i as int].last_update < frame);
                return true;
            }
            i = i + 1;
        }
        false
    }

    /// The first slot that holds `id`.
    pub fn get(&self, id: Id) -> (r: Option<usize>)
        requires
            self.wf(),
        ensures
            r == self.lookup(id),
            r matches Some(i) ==> i < N && self@[i as int].id == id,
            r is None <==> !self.holds(id),
    {
        let mut i: usize = 0;
        while i < N
            invariant
                self.wf(),
                i <= N,
                forall|j: int| 0 <= j < i ==> #[trigger] self@[j].id != id,
            decreases N - i,
        {
            if self.items[i].id == id {
                proof {
                    let k = choose|k: int|
                        0 <= k < self@.len() && #[trigger] self@[k].id == id && forall|j: int|
                            0 <= j < k ==> self@[j].id != id;
                    if k < i {
                    } else if k > i {
                        assert(self@[i as int].id == id);
                    }
                }
                return Some(i);
            }
            i = i + 1;
        }
        None
    }

    /// Marks slot `idx` as touched in `frame`.
    pub fn update(&mut self, idx: usize, frame: usize)
        requires
            old(self).wf(),
            idx < N,
        ensures
            final(self).wf(),
            final(self)@ == old(self)@.update(
                idx as int,
                PoolItem { id: old(self)@[idx as int].id, last_update: frame },
            ),
    {
        let id = self.items[idx].id;
        self.items.set(idx, PoolItem { id, last_update: frame });
    }

    /// Empties slot `idx`.
    pub fn reset(&mut self, idx: usize)
        requires
            old(self).wf(),
            idx < N,
        ensures
            final(self).wf(),
            final(self)@ == old(self)@.update(idx as int, PoolItem { id: Id(0), last_update: 0 }),
    {
        self.items.set(idx, PoolItem { id: Id(0), last_update: 0 });
    }
}

impl<const N: usize> Default for Pool<N> {
    fn default() -> (p: Self)
        ensures
            p.wf(),
            forall|i: int| 0 <= i < N ==> #[trigger] p@[i] == (PoolItem { id: Id(0), last_update: 0 }),
    {
        Self::new()
    }
}

/// Each allocation within a frame touches one more slot in that frame, and a pool with
/// all `N` slots touched in `frame` has none left to give: asking it for identifier
/// `N + 1` within one frame is a fatal error.
pub proof fn lemma_exhausted_within_frame<const N: usize>(pool: Pool<N>, frame: usize)
    requires
        pool.wf(),
    ensures
        touched_in(pool@, frame) <= N,
        touched_in(pool@, frame) == N ==> !pool.can_alloc(frame),
{
    lemma_touched_bound(pool@, frame);
}

/// Allocation never takes a slot touched in the current frame, and takes a slot touched
/// before the previous frame whenever one exists.
pub proof fn lemma_alloc_spares_recent<const N: usize>(
    before: Pool<N>,
    after: Pool<N>,
    id: Id,
    frame: usize,
    r: usize,
)
    requires
        before.wf(),
        r < N,
        before@[r as int].last_update < frame,
        forall|j: int| 0 <= j < N ==> before@[r as int].last_update <= #[trigger] before@[j].last_update,
    ensures
        before@[r as int].last_update < frame,
        (exists|j: int| 0 <= j < N && #[trigger] before@[j].last_update + 1 < frame)
            ==> before@[r as int].last_update + 1 < frame,
{
}

} // verus!
