//! The slot allocator: a bounded pool of reusable room identifiers.

use vstd::prelude::*;

verus! {

/// The mathematical state of a pool: the free list and the cursor that parts
/// the issued positions (before it) from the available ones (at or after it).
pub struct PoolView {
    pub free_list: Seq<usize>,
    pub cursor: nat,
}

impl PoolView {
    /// The pool as it is right after construction with `capacity` slots.
    pub open spec fn fresh(capacity: nat) -> PoolView {
        PoolView { free_list: Seq::new(capacity, |i: int| i as usize), cursor: 0 }
    }

    /// The cursor lies inside the free list or just behind its end.
    pub open spec fn wf(self) -> bool {
        self.cursor <= self.free_list.len()
    }

    pub open spec fn capacity(self) -> nat {
        self.free_list.len()
    }

    /// Every identifier has been handed out.
    pub open spec fn exhausted(self) -> bool {
        self.cursor >= self.free_list.len()
    }

    /// The identifiers that can still be handed out, next one first.
    pub open spec fn available(self) -> Seq<usize> {
        self.free_list.subrange(self.cursor as int, self.free_list.len() as int)
    }

    /// The identifier that the next reservation yields.
    pub open spec fn next(self) -> usize
        recommends
            !self.exhausted(),
    {
        self.free_list[self.cursor as int]
    }

    /// The pool after one reservation; an exhausted pool stays as it is.
    pub open spec fn reserve(self) -> PoolView {
        if self.exhausted() {
            self
        } else {
            PoolView { free_list: self.free_list, cursor: self.cursor + 1 }
        }
    }

    /// The pool after `id` was handed back: the cursor moves back by one and
    /// `id` is written at the position it then marks.
    pub open spec fn refund(self, id: usize) -> PoolView
        recommends
            0 < self.cursor <= self.free_list.len(),
    {
        PoolView {
            free_list: self.free_list.update(self.cursor - 1, id),
            cursor: (self.cursor - 1) as nat,
        }
    }

    /// The pool after `id` was handed back by somebody who does not know
    /// whether anything is handed out: with nothing handed out the pool is
    /// left as it is.
    pub open spec fn release(self, id: usize) -> PoolView {
        if self.cursor > 0 {
            self.refund(id)
        } else {
            self
        }
    }

    /// The identifiers that can be handed out are all different, and none of
    /// them is in `held`.
    pub open spec fn apart(self, held: Set<usize>) -> bool {
        &&& self.wf()
        &&& self.available().no_duplicates()
        &&& forall|i: int|
            0 <= i < self.available().len() ==> !held.contains(#[trigger] self.available()[i])
    }

    /// The pool after `n` reservations in a row.
    pub open spec fn reserve_n(self, n: nat) -> PoolView
        decreases n,
    {
        if n == 0 {
            self
        } else {
            self.reserve().reserve_n((n - 1) as nat)
        }
    }
}

/// A fixed-size pool of room identifiers with last-freed-first reuse.
#[derive(Debug)]
pub struct Queue {
    empty_spaces: Vec<usize>,
    pointer: usize,
}

impl View for Queue {
    type V = PoolView;

    closed spec fn view(&self) -> PoolView {
        PoolView { free_list: self.empty_spaces@, cursor: self.pointer as nat }
    }
}

impl Queue {
    #[verifier::type_invariant]
    spec fn cursor_in_bounds(&self) -> bool {
        self.pointer <= self.empty_spaces.len()
    }

    /// A pool of the identifiers `0 .. lenght`, all of them available.
    pub fn new(lenght: usize) -> (q: Queue)
        ensures
            q@ == PoolView::fresh(lenght as nat),
    {
        let mut empty_spaces: Vec<usize> = Vec::new();
        let mut i: usize = 0;
        while i < lenght
            invariant
                i <= lenght,
                empty_spaces@ == Seq::new(i as nat, |k: int| k as usize),
            decreases lenght - i,
        {
            empty_spaces.push(i);
            i += 1;
        }
        Queue { empty_spaces, pointer: 0 }
    }

    /// Hands out the next available identifier, or nothing when the pool is
    /// exhausted; an exhausted pool is left untouched.
    pub fn reserve(&mut self) -> (res: Option<&usize>)
        ensures
            final(self)@ == old(self)@.reserve(),
            final(self)@.wf(),
            old(self)@.exhausted() <==> res is None,
            res matches Some(id) ==> *id == old(self)@.next(),
    {
        proof {
            use_type_invariant(&*self);
        }
        let res = self.empty_spaces.get(self.pointer);
        if res.is_some() {
            self.pointer += 1;
        }
        res
    }

    /// Hands `id` back: the cursor moves back by one and `id` becomes the
    /// identifier that the next reservation yields. Nothing checks that `id`
    /// is the identifier reserved last; the position before the cursor is
    /// overwritten whatever it held.
    pub fn refund(&mut self, id: &usize)
        requires
            old(self)@.cursor > 0,
        ensures
            final(self)@ == old(self)@.refund(*id),
            final(self)@.wf(),
    {
        proof {
            use_type_invariant(&*self);
        }
        self.pointer -= 1;
        self.empty_spaces[self.pointer] = *id;
    }

    /// Hands `id` back if anything is handed out at all, and does nothing
    /// otherwise.
    pub fn release(&mut self, id: usize)
        ensures
            final(self)@ == old(self)@.release(id),
            final(self)@.wf(),
    {
        if self.outstanding() > 0 {
            self.refund(&id);
        }
    }

    /// How many identifiers are handed out at present.
    pub fn outstanding(&self) -> (n: usize)
        ensures
            n == self@.cursor,
            self@.wf(),
    {
        proof {
            use_type_invariant(self);
        }
        self.pointer
    }

    /// How many identifiers the pool was made with.
    pub fn capacity(&self) -> (n: usize)
        ensures
            n == self@.capacity(),
    {
        self.empty_spaces.len()
    }
}

/// One call on a pool.
pub enum PoolOp {
    Reserve,
    Refund(usize),
}

/// A pool together with the identifiers that its users hold, in the order in
/// which they were reserved.
pub struct PoolRun {
    pub pool: PoolView,
    pub live: Seq<usize>,
}

impl PoolRun {
    pub open spec fn start(capacity: nat) -> PoolRun {
        PoolRun { pool: PoolView::fresh(capacity), live: Seq::empty() }
    }

    /// Strict stack order: only the identifier reserved last among those
    /// still held may be handed back.
    pub open spec fn permits(self, op: PoolOp) -> bool {
        match op {
            PoolOp::Reserve => true,
            PoolOp::Refund(id) => self.live.len() > 0 && self.live.last() == id,
        }
    }

    pub open spec fn step(self, op: PoolOp) -> PoolRun {
        match op {
            PoolOp::Reserve => if self.pool.exhausted() {
                self
            } else {
                PoolRun { pool: self.pool.reserve(), live: self.live.push(self.pool.next()) }
            },
            PoolOp::Refund(id) => PoolRun {
                pool: self.pool.refund(id),
                live: self.live.drop_last(),
            },
        }
    }

    /// Every call of `ops`, made in turn from this state, keeps to the stack
    /// order.
    pub open spec fn stack_ordered(self, ops: Seq<PoolOp>) -> bool
        decreases ops.len(),
    {
        ops.len() == 0 || (self.permits(ops[0]) && self.step(ops[0]).stack_ordered(
            ops.drop_first(),
        ))
    }

    /// The state after all of `ops`.
    pub open spec fn run(self, ops: Seq<PoolOp>) -> PoolRun
        decreases ops.len(),
    {
        if ops.len() == 0 {
            self
        } else {
            self.step(ops[0]).run(ops.drop_first())
        }
    }

    /// What stack-ordered use maintains: the free list holds every identifier
    /// once, and the identifiers held are exactly those before the cursor.
    pub open spec fn consistent(self) -> bool {
        &&& self.pool.wf()
        &&& self.pool.free_list.no_duplicates()
        &&& self.live == self.pool.free_list.subrange(0, self.pool.cursor as int)
    }
}

/// A fresh pool with nothing held is consistent.
pub proof fn lemma_start_consistent(capacity: nat)
    requires
        capacity <= usize::MAX,
    ensures
        PoolRun::start(capacity).consistent(),
{
    let r = PoolRun::start(capacity);
    assert(r.live =~= r.pool.free_list.subrange(0, 0));
}

/// A call that keeps to the stack order keeps a consistent state consistent,
/// and leaves the free list as it was.
pub proof fn lemma_step_consistent(r: PoolRun, op: PoolOp)
    requires
        r.consistent(),
        r.permits(op),
    ensures
        r.step(op).consistent(),
        r.step(op).pool.free_list == r.pool.free_list,
{
    let n = r.step(op);
    assert(n.live =~= n.pool.free_list.subrange(0, n.pool.cursor as int));
}

/// In a consistent state no identifier is held twice, at most `capacity`
/// identifiers are held, and the identifier that the next reservation would
/// yield is held by nobody.
pub proof fn lemma_consistent_holds_each_identifier_once(r: PoolRun)
    requires
        r.consistent(),
    ensures
        r.live.no_duplicates(),
        r.live.len() == r.pool.cursor,
        r.live.len() <= r.pool.capacity(),
        !r.pool.exhausted() ==> !r.live.contains(r.pool.next()),
        forall|i: int| 0 <= i < r.pool.available().len() ==> !r.live.contains(
            #[trigger] r.pool.available()[i],
        ),
{
    let free = r.pool.available();
    assert forall|i: int| 0 <= i < free.len() implies !r.live.contains(#[trigger] free[i]) by {
        assert(free[i] == r.pool.free_list[r.pool.cursor + i]);
    }
    if !r.pool.exhausted() {
        assert(free[0] == r.pool.next());
    }
}

/// Stack-ordered calls lead from a consistent state to a consistent state
/// over the same free list.
pub proof fn lemma_run_consistent(r: PoolRun, ops: Seq<PoolOp>)
    requires
        r.consistent(),
        r.stack_ordered(ops),
    ensures
        r.run(ops).consistent(),
        r.run(ops).pool.free_list == r.pool.free_list,
    decreases ops.len(),
{
    if ops.len() > 0 {
        lemma_step_consistent(r, ops[0]);
        lemma_run_consistent(r.step(ops[0]), ops.drop_first());
    }
}

/// Whatever calls are made on a fresh pool, as long as they keep to a strict
/// stack order: no identifier is ever held twice at once, and never more than
/// `capacity` identifiers are held.
pub proof fn lemma_stack_order_never_issues_twice(capacity: nat, ops: Seq<PoolOp>)
    requires
        capacity <= usize::MAX,
        PoolRun::start(capacity).stack_ordered(ops),
    ensures
        PoolRun::start(capacity).run(ops).consistent(),
        PoolRun::start(capacity).run(ops).live.no_duplicates(),
        PoolRun::start(capacity).run(ops).live.len() <= capacity,
        PoolRun::start(capacity).run(ops).pool.capacity() == capacity,
{
    lemma_start_consistent(capacity);
    lemma_run_consistent(PoolRun::start(capacity), ops);
    lemma_consistent_holds_each_identifier_once(PoolRun::start(capacity).run(ops));
}

/// `n` reservations in a row move the cursor `n` places on, up to the end of
/// the free list, and touch nothing else.
pub proof fn lemma_reserve_n(p: PoolView, n: nat)
    requires
        p.wf(),
    ensures
        p.reserve_n(n).free_list == p.free_list,
        p.reserve_n(n).cursor == if p.cursor + n <= p.capacity() {
            p.cursor + n
        } else {
            p.capacity()
        },
    decreases n,
{
    if n > 0 {
        lemma_reserve_n(p.reserve(), (n - 1) as nat);
    }
}

/// A fresh pool of `capacity` identifiers yields the identifier `k` at its
/// reservation number `k`, and is exhausted after `capacity` reservations:
/// one more yields nothing.
pub proof fn lemma_fresh_pool_exhausts(capacity: nat, k: nat)
    requires
        capacity <= usize::MAX,
    ensures
        k < capacity ==> !PoolView::fresh(capacity).reserve_n(k).exhausted()
            && PoolView::fresh(capacity).reserve_n(k).next() == k,
        k >= capacity ==> PoolView::fresh(capacity).reserve_n(k).exhausted(),
{
    lemma_reserve_n(PoolView::fresh(capacity), k);
}

/// Last in, first out: right after `id` was handed back the pool is not
/// exhausted, the next reservation yields `id`, and the cursor is then back
/// where it was.
pub proof fn lemma_refund_then_reserve(p: PoolView, id: usize)
    requires
        p.wf(),
        p.cursor > 0,
    ensures
        p.refund(id).wf(),
        !p.refund(id).exhausted(),
        p.refund(id).next() == id,
        p.refund(id).reserve().cursor == p.cursor,
        p.refund(id).reserve().free_list == p.free_list.update(p.cursor - 1, id),
{
}

/// Whatever the order in which identifiers come back: as long as what can
/// be handed out is apart from what is held, a reservation yields an
/// identifier that nobody holds, and the two stay apart once it is held.
pub proof fn lemma_reserve_keeps_apart(p: PoolView, held: Set<usize>)
    requires
        p.apart(held),
        !p.exhausted(),
    ensures
        !held.contains(p.next()),
        p.reserve().apart(held.insert(p.next())),
{
    let a = p.available();
    let b = p.reserve().available();
    assert(a[0] == p.next());
    assert forall|i: int| 0 <= i < b.len() implies #[trigger] b[i] == a[i + 1] by {}
}

/// Whatever the order in which identifiers come back: as long as what can
/// be handed out is apart from what is held, it stays so when an identifier
/// that is held comes back and is held no more.
pub proof fn lemma_refund_keeps_apart(p: PoolView, held: Set<usize>, id: usize)
    requires
        p.apart(held),
        held.contains(id),
        p.cursor > 0,
    ensures
        p.refund(id).apart(held.remove(id)),
        p.refund(id).next() == id,
{
    let a = p.available();
    let b = p.refund(id).available();
    assert(b[0] == id);
    assert forall|i: int| 1 <= i < b.len() implies #[trigger] b[i] == a[i - 1] by {}
}

} // verus!
