use vstd::prelude::*;

use crate::model::{disposal_step, disposals_of, lemma_disposals_push, pending_of, Disposal, Op};

verus! {

/// A cell holding at most one pending zero-argument callback.
///
/// The callback type is a parameter: a cell that must hold callbacks of
/// different concrete types uses a boxed trait object such as
/// `Box<dyn FnOnce() + Send>`, one allocation per callback.
///
/// Operations take the cell by `&mut`, so they are totally ordered and each
/// one owns the callback it moves out; a cell shared between threads sits
/// behind a lock. The cell keeps, as ghost state, the history of operations
/// applied to it, from which its contents and its disposals are defined.
pub struct CallbackCell<F: FnOnce()> {
    slot: Option<F>,
    history: Ghost<Seq<Op<F>>>,
}

impl<F: FnOnce()> CallbackCell<F> {
    #[verifier::type_invariant]
    spec fn inv(self) -> bool {
        &&& self.slot == pending_of(self.history@)
        &&& self.slot matches Some(g) ==> g.requires(())
    }

    /// The operations applied to this cell since it was constructed.
    pub closed spec fn history(self) -> Seq<Op<F>> {
        self.history@
    }

    /// The callback currently held, if any.
    pub open spec fn pending(self) -> Option<F> {
        pending_of(self.history())
    }

    /// The callbacks this cell has run or discarded so far, in order.
    pub open spec fn disposed(self) -> Seq<Disposal<F>> {
        disposals_of(self.history())
    }

    /// Construct with no callback.
    pub fn new() -> (r: Self)
        ensures
            r.history() == Seq::<Op<F>>::empty(),
            r.pending() is None,
            r.disposed() == Seq::<Disposal<F>>::empty(),
    {
        CallbackCell { slot: None, history: Ghost(Seq::empty()) }
    }

    /// Move the cell's contents out, leaving an empty cell in its place.
    fn take_slot(&mut self) -> (r: (Option<F>, Ghost<Seq<Op<F>>>))
        ensures
            r.0 == old(self).pending(),
            r.1@ == old(self).history(),
            r.0 matches Some(g) ==> g.requires(()),
    {
        let mut cur = CallbackCell::new();
        std::mem::swap(self, &mut cur);
        proof {
            use_type_invariant(&cur);
        }
        let CallbackCell { slot, history } = cur;
        (slot, history)
    }

    /// Dispose of a callback that has left the cell: run it when `run` is
    /// true, otherwise drop it without running it.
    fn dispose(g: F, run: bool)
        requires
            run ==> g.requires(()),
        ensures
            run ==> g.ensures((), ()),
    {
        if run {
            g();
        }
    }

    /// Set the callback.
    ///
    /// A callback that was already held is dropped here, without being run.
    pub fn put(&mut self, f: F)
        requires
            f.requires(()),
        ensures
            final(self).history() == old(self).history().push(Op::Put(f)),
            final(self).pending() == Some(f),
            final(self).disposed() == old(self).disposed() + disposal_step(
                old(self).pending(),
                Op::Put(f),
            ),
    {
        let (displaced, history) = self.take_slot();
        proof {
            lemma_disposals_push(history@, Op::Put(f));
        }
        *self = CallbackCell { slot: Some(f), history: Ghost(history@.push(Op::Put(f))) };
        if let Some(g) = displaced {
            Self::dispose(g, false);
        }
    }

    /// Take the callback, if there is one, and run it.
    ///
    /// Returns true if a callback was present. On an empty cell nothing
    /// happens but the recording of the attempt.
    pub fn take_call(&mut self) -> (r: bool)
        ensures
            final(self).history() == old(self).history().push(Op::Take),
            final(self).pending() is None,
            final(self).disposed() == old(self).disposed() + disposal_step(
                old(self).pending(),
                Op::<F>::Take,
            ),
            r == old(self).pending() is Some,
            old(self).pending() matches Some(g) ==> g.ensures((), ()),
    {
        let (taken, history) = self.take_slot();
        proof {
            lemma_disposals_push(history@, Op::Take);
        }
        *self = CallbackCell { slot: None, history: Ghost(history@.push(Op::Take)) };
        match taken {
            Some(g) => {
                Self::dispose(g, true);
                true
            },
            None => false,
        }
    }

    /// Whether a callback is currently held.
    fn is_occupied(&self) -> (r: bool)
        ensures
            r == self.pending() is Some,
    {
        proof {
            use_type_invariant(self);
        }
        self.slot.is_some()
    }

    /// A description that says only whether a callback is held.
    pub fn debug_string(&self) -> (r: String)
        ensures
            self.pending() is Some ==> r@ == "CallbackCell(NOT NULL)"@,
            self.pending() is None ==> r@ == "CallbackCell(NULL)"@,
    {
        if self.is_occupied() {
            "CallbackCell(NOT NULL)".to_owned()
        } else {
            "CallbackCell(NULL)".to_owned()
        }
    }
}

impl<F: FnOnce()> Default for CallbackCell<F> {
    /// An empty cell, as [`CallbackCell::new`].
    fn default() -> (r: Self)
        ensures
            r.history() == Seq::<Op<F>>::empty(),
    {
        Self::new()
    }
}

} // verus!
