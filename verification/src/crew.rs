//! What is asked of a gadget runner.
//!
//! A crew hides its runner, so that whatever is asked of the runner through the
//! crew is on record, in the order in which it was asked.
use crate::capture::{GadgetInvocation, GadgetRunner};
use crate::contract::Fragment;
use vstd::prelude::*;

verus! {

/// What was asked of a runner and what it answered.
pub enum Deed<H> {
    Spawned(GadgetInvocation, Result<H, String>),
    Waited(GadgetInvocation, H, Result<Fragment, String>),
    Killed(H),
}

/// Whether a deed is one that a runner may do.
pub open spec fn able<R: GadgetRunner>(runner: R, d: Deed<R::Handle>) -> bool {
    match d {
        Deed::Spawned(inv, r) => call_ensures(R::spawn, (&runner, &inv), r),
        Deed::Waited(inv, h, r) => call_ensures(R::wait, (&runner, &inv, h), r),
        Deed::Killed(h) => call_ensures(R::kill, (&runner, h), ()),
    }
}

/// Whether deeds are those of a runner.
pub open spec fn done_by<R: GadgetRunner>(runner: R, deeds: Seq<Deed<R::Handle>>) -> bool {
    forall|i: int| 0 <= i < deeds.len() ==> able(runner, #[trigger] deeds[i])
}

/// A runner, and what has been asked of it.
pub struct Crew<'a, R: GadgetRunner> {
    runner: &'a R,
    deeds: Ghost<Seq<Deed<R::Handle>>>,
}

impl<'a, R: GadgetRunner> Crew<'a, R> {
    pub closed spec fn deeds(&self) -> Seq<Deed<R::Handle>> {
        self.deeds@
    }

    pub closed spec fn runner(&self) -> R {
        *self.runner
    }

    pub fn new(runner: &'a R) -> (r: Self)
        ensures
            r.deeds() == Seq::<Deed<R::Handle>>::empty(),
            r.runner() == *runner,
    {
        Crew { runner, deeds: Ghost(Seq::empty()) }
    }

    /// Launch a gadget.
    pub fn spawn(&mut self, inv: &GadgetInvocation) -> (r: Result<R::Handle, String>)
        ensures
            final(self).runner() == old(self).runner(),
            final(self).deeds() == old(self).deeds().push(Deed::Spawned(*inv, r)),
            able(old(self).runner(), Deed::Spawned(*inv, r)),
    {
        let r = self.runner.spawn(inv);
        self.deeds = Ghost(self.deeds@.push(Deed::Spawned(*inv, r)));
        r
    }

    /// Collect the fragment of a gadget.
    pub fn wait(&mut self, inv: &GadgetInvocation, handle: R::Handle) -> (r: Result<
        Fragment,
        String,
    >)
        ensures
            final(self).runner() == old(self).runner(),
            final(self).deeds() == old(self).deeds().push(Deed::Waited(*inv, handle, r)),
            able(old(self).runner(), Deed::Waited(*inv, handle, r)),
    {
        let ghost h = handle;
        let r = self.runner.wait(inv, handle);
        self.deeds = Ghost(self.deeds@.push(Deed::Waited(*inv, h, r)));
        r
    }

    /// Abandon a gadget.
    pub fn kill(&mut self, handle: R::Handle)
        ensures
            final(self).runner() == old(self).runner(),
            final(self).deeds() == old(self).deeds().push(Deed::Killed(handle)),
            able(old(self).runner(), Deed::Killed(handle)),
    {
        let ghost h = handle;
        self.runner.kill(handle);
        self.deeds = Ghost(self.deeds@.push(Deed::Killed(h)));
    }
}

} // verus!
