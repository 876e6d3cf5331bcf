use vstd::prelude::*;

verus! {

/// One operation applied to a cell, as recorded in the cell's ghost history.
pub enum Op<F> {
    /// A `put` that installed the given callback.
    Put(F),
    /// A `take`, whether or not it found a callback.
    Take,
}

/// What became of a callback once it left the cell.
pub enum Disposal<F> {
    /// Moved out by a `take` and run.
    Ran(F),
    /// Displaced by a later `put` and dropped without being run.
    Discarded(F),
}

impl<F> Disposal<F> {
    /// The callback that was disposed of.
    pub open spec fn callback(self) -> F {
        match self {
            Disposal::Ran(f) => f,
            Disposal::Discarded(f) => f,
        }
    }
}

/// The callback a cell holds after the operations `ops`, starting empty:
/// the last `put`'s callback, unless a `take` came after it.
pub open spec fn pending_of<F>(ops: Seq<Op<F>>) -> Option<F>
    decreases ops.len(),
{
    if ops.len() == 0 {
        None
    } else {
        match ops.last() {
            Op::Put(f) => Some(f),
            Op::Take => None,
        }
    }
}

/// The callbacks installed by the `put`s among `ops`, in order.
pub open spec fn installed_of<F>(ops: Seq<Op<F>>) -> Seq<F>
    decreases ops.len(),
{
    if ops.len() == 0 {
        Seq::empty()
    } else {
        let rest = installed_of(ops.drop_last());
        match ops.last() {
            Op::Put(f) => rest.push(f),
            Op::Take => rest,
        }
    }
}

/// The callbacks that the disposals `ds` concern, in order.
pub open spec fn callbacks_of<F>(ds: Seq<Disposal<F>>) -> Seq<F> {
    ds.map_values(|d: Disposal<F>| d.callback())
}

/// An optional callback as a sequence of zero or one items.
pub open spec fn option_seq<F>(o: Option<F>) -> Seq<F> {
    match o {
        Some(f) => seq![f],
        None => Seq::empty(),
    }
}

/// The disposals a cell records as it moves from holding `pending` under
/// operation `op`: a `put` discards what was held, a `take` runs it.
pub open spec fn disposal_step<F>(pending: Option<F>, op: Op<F>) -> Seq<Disposal<F>> {
    match pending {
        None => Seq::empty(),
        Some(g) => match op {
            Op::Put(_) => seq![Disposal::Discarded(g)],
            Op::Take => seq![Disposal::Ran(g)],
        },
    }
}

/// The disposals caused by the operations `ops`, starting empty, in order.
pub open spec fn disposals_of<F>(ops: Seq<Op<F>>) -> Seq<Disposal<F>>
    decreases ops.len(),
{
    if ops.len() == 0 {
        Seq::empty()
    } else {
        disposals_of(ops.drop_last()) + disposal_step(pending_of(ops.drop_last()), ops.last())
    }
}

/// Every callback installed by `ops` is accounted for exactly once, in the
/// order of installation: it was run by a `take`, or discarded by the `put`
/// that displaced it, or it is the one the cell still holds. In particular no
/// callback is both run and discarded, and none is run twice.
pub proof fn lemma_each_callback_disposed_once<F>(ops: Seq<Op<F>>)
    ensures
        installed_of(ops) == callbacks_of(disposals_of(ops)) + option_seq(pending_of(ops)),
    decreases ops.len(),
{
    if ops.len() == 0 {
        assert(callbacks_of(disposals_of(ops)) =~= Seq::<F>::empty());
        assert(installed_of(ops) =~= callbacks_of(disposals_of(ops)) + option_seq(pending_of(ops)));
    } else {
        let prev = ops.drop_last();
        let op = ops.last();
        lemma_each_callback_disposed_once(prev);
        let step = disposal_step(pending_of(prev), op);
        assert(callbacks_of(disposals_of(prev) + step) =~= callbacks_of(disposals_of(prev))
            + callbacks_of(step));
        match pending_of(prev) {
            None => {
                assert(callbacks_of(step) =~= Seq::<F>::empty());
            },
            Some(g) => {
                assert(callbacks_of(step) =~= seq![g]);
            },
        }
        assert(installed_of(ops) =~= callbacks_of(disposals_of(ops)) + option_seq(pending_of(ops)));
    }
}

/// One more operation appends exactly the disposal it causes to the record.
pub proof fn lemma_disposals_push<F>(ops: Seq<Op<F>>, op: Op<F>)
    ensures
        disposals_of(ops.push(op)) == disposals_of(ops) + disposal_step(pending_of(ops), op),
        pending_of(ops.push(op)) == match op {
            Op::Put(f) => Some(f),
            Op::Take => None,
        },
{
    assert(ops.push(op).drop_last() =~= ops);
}

/// A `take` finds a callback exactly when some `put` since the start has not
/// been followed by any `take`; what it finds is the callback of the most
/// recent `put`, so a displaced callback is never the one taken.
pub proof fn lemma_take_finds_latest_untaken_put<F>(ops: Seq<Op<F>>)
    ensures
        pending_of(ops) is Some <==> exists|i: int|
            0 <= i < ops.len() && ops[i] is Put && forall|j: int|
                i < j < ops.len() ==> !(#[trigger] ops[j] is Take),
        pending_of(ops) is Some ==> installed_of(ops).len() > 0
            && pending_of(ops) == Some(installed_of(ops).last()),
{
    if pending_of(ops) is Some {
        let i = ops.len() - 1;
        assert(ops[i] is Put);
        assert forall|j: int| i < j < ops.len() implies !(#[trigger] ops[j] is Take) by {}
        assert(ops.drop_last().push(ops[i]) =~= ops);
    }
    if exists|i: int|
        0 <= i < ops.len() && ops[i] is Put && forall|j: int|
            i < j < ops.len() ==> !(#[trigger] ops[j] is Take) {
        let i = choose|i: int|
            0 <= i < ops.len() && ops[i] is Put && forall|j: int|
                i < j < ops.len() ==> !(#[trigger] ops[j] is Take);
        let last = ops.len() - 1;
        if i < last {
            assert(!(ops[last] is Take));
        }
    }
}

} // verus!
