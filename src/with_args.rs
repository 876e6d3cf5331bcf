use std::marker::PhantomData;
use vstd::prelude::*;

use crate::model::{disposal_step, disposals_of, lemma_disposals_push, pending_of, Disposal, Op};

verus! {

/// A cell holding at most one pending callback from an input to an output.
///
/// Like [`CallbackCell`](crate::CallbackCell), but `take_call` hands the
/// callback an input and returns its output, or hands the input back
/// unchanged when no callback is held. A cell that must hold callbacks of
/// different concrete types uses a boxed trait object such as
/// `Box<dyn FnOnce(I) -> O + Send>`.
///
/// Operations take the cell by `&mut`, so they are totally ordered and each
/// one owns the callback it moves out; a cell shared between threads sits
/// behind a lock. The cell keeps, as ghost state, the history of operations
/// applied to it, from which its contents and its disposals are defined.
#[verifier::reject_recursive_types(I)]
#[verifier::reject_recursive_types(O)]
pub struct CallbackCellArgs<I, O, F: FnOnce(I) -> O> {
    slot: Option<F>,
    history: Ghost<Seq<Op<F>>>,
    io: PhantomData<(I, O)>,
}

impl<I, O, F: FnOnce(I) -> O> CallbackCellArgs<I, O, F> {
    #[verifier::type_invariant]
    spec fn inv(self) -> bool {
        &&& self.slot == pending_of(self.history@)
        &&& self.slot matches Some(g) ==> forall|i: I| #[trigger] g.requires((i,))
    }

    /// The operations applied to this cell since it was constructed.
    pub closed spec fn history(self) -> Seq<Op<F>> {
        self.history@
    }

    /// The callback currently held, if any.
    pub open spec fn pending(self) -> Option<F> {
        pending_of(self.history())
    }

    /// The callbacks this cell has run or discarded so far, in order.
    pub open spec fn disposed(self) -> Seq<Disposal<F>> {
        disposals_of(self.history())
    }

    /// Construct with no callback.
    pub fn new() -> (r: Self)
        ensures
            r.history() == Seq::<Op<F>>::empty(),
            r.pending() is None,
            r.disposed() == Seq::<Disposal<F>>::empty(),
    {
        CallbackCellArgs { slot: None, history: Ghost(Seq::empty()), io: PhantomData }
    }

    /// Move the cell's contents out, leaving an empty cell in its place.
    fn take_slot(&mut self) -> (r: (Option<F>, Ghost<Seq<Op<F>>>))
        ensures
            r.0 == old(self).pending(),
            r.1@ == old(self).history(),
            r.0 matches Some(g) ==> forall|i: I| #[trigger] g.requires((i,)),
    {
        let mut cur = CallbackCellArgs::new();
        std::mem::swap(self, &mut cur);
        proof {
            use_type_invariant(&cur);
        }
        let CallbackCellArgs { slot, history, .. } = cur;
        (slot, history)
    }

    /// Dispose of a callback that has left the cell: apply it to the input
    /// when one is given and return its output, otherwise drop it without
    /// running it.
    fn dispose(g: F, input: Option<I>) -> (r: Option<O>)
        requires
            forall|i: I| #[trigger] g.requires((i,)),
        ensures
            input is None ==> r is None,
            input matches Some(i) ==> (r matches Some(o) && g.ensures((i,), o)),
    {
        match input {
            Some(i) => Some(g(i)),
            None => None,
        }
    }

    /// Set the callback.
    ///
    /// A callback that was already held is dropped here, without being run.
    pub fn put(&mut self, f: F)
        requires
            forall|i: I| #[trigger] f.requires((i,)),
        ensures
            final(self).history() == old(self).history().push(Op::Put(f)),
            final(self).pending() == Some(f),
            final(self).disposed() == old(self).disposed() + disposal_step(
                old(self).pending(),
                Op::Put(f),
            ),
    {
        let (displaced, history) = self.take_slot();
        proof {
            lemma_disposals_push(history@, Op::Put(f));
        }
        *self = CallbackCellArgs {
            slot: Some(f),
            history: Ghost(history@.push(Op::Put(f))),
            io: PhantomData,
        };
        if let Some(g) = displaced {
            Self::dispose(g, None);
        }
    }

    /// Take the callback, if there is one, and run it on `input`.
    ///
    /// Returns the callback's output if a callback was present; otherwise
    /// hands `input` back unchanged, and nothing happens but the recording of
    /// the attempt.
    pub fn take_call(&mut self, input: I) -> (r: Result<O, I>)
        ensures
            final(self).history() == old(self).history().push(Op::Take),
            final(self).pending() is None,
            final(self).disposed() == old(self).disposed() + disposal_step(
                old(self).pending(),
                Op::<F>::Take,
            ),
            old(self).pending() is None ==> r == Err::<O, I>(input),
            old(self).pending() matches Some(g) ==> (r matches Ok(o) && g.ensures((input,), o)),
    {
        let (taken, history) = self.take_slot();
        proof {
            lemma_disposals_push(history@, Op::Take);
        }
        *self = CallbackCellArgs { slot: None, history: Ghost(history@.push(Op::Take)), io: PhantomData };
        match taken {
            Some(g) => Ok(Self::dispose(g, Some(input)).unwrap()),
            None => Err(input),
        }
    }

    /// Whether a callback is currently held.
    fn is_occupied(&self) -> (r: bool)
        ensures
            r == self.pending() is Some,
    {
        proof {
            use_type_invariant(self);
        }
        self.slot.is_some()
    }

    /// A description that says only whether a callback is held.
    pub fn debug_string(&self) -> (r: String)
        ensures
            self.pending() is Some ==> r@ == "CallbackCellArgs(NOT NULL)"@,
            self.pending() is None ==> r@ == "CallbackCellArgs(NULL)"@,
    {
        if self.is_occupied() {
            "CallbackCellArgs(NOT NULL)".to_owned()
        } else {
            "CallbackCellArgs(NULL)".to_owned()
        }
    }
}

impl<I, O, F: FnOnce(I) -> O> Default for CallbackCellArgs<I, O, F> {
    /// An empty cell, as [`CallbackCellArgs::new`].
    fn default() -> (r: Self)
        ensures
            r.history() == Seq::<Op<F>>::empty(),
    {
        Self::new()
    }
}

} // verus!
