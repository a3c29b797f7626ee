//! What is asked of a host.
//!
//! A session hides its host, so that whatever is asked of the host through it is
//! on record, in the order in which it was asked.
use crate::hostprep::{Facts, Host, TuningKnobs};
use vstd::prelude::*;

verus! {

/// What was asked of a host and what it answered.
pub enum Asked {
    Facts(Result<Facts, String>),
    /// Knobs were read back.
    Read(TuningKnobs, Result<TuningKnobs, String>),
    /// Knobs were written.
    Applied(TuningKnobs, Result<(), String>),
}

/// A host, and what has been asked of it.
pub struct HostSession<'a, H: Host> {
    host: &'a H,
    log: Ghost<Seq<Asked>>,
}

impl<'a, H: Host> HostSession<'a, H> {
    pub closed spec fn log(&self) -> Seq<Asked> {
        self.log@
    }

    pub closed spec fn host(&self) -> H {
        *self.host
    }

    pub fn new(host: &'a H) -> (r: Self)
        ensures
            r.log() == Seq::<Asked>::empty(),
            r.host() == *host,
    {
        HostSession { host, log: Ghost(Seq::empty()) }
    }

    /// What is known of the host.
    pub fn facts(&mut self) -> (r: Result<Facts, String>)
        ensures
            final(self).host() == old(self).host(),
            final(self).log() == old(self).log().push(Asked::Facts(r)),
            call_ensures(H::facts, (&old(self).host(),), r),
    {
        let r = self.host.facts();
        self.log = Ghost(self.log@.push(Asked::Facts(r)));
        r
    }

    /// Read back the knobs that were asked for.
    pub fn read_tuning(&mut self, want: &TuningKnobs) -> (r: Result<TuningKnobs, String>)
        ensures
            final(self).host() == old(self).host(),
            final(self).log() == old(self).log().push(Asked::Read(*want, r)),
            call_ensures(H::read_tuning, (&old(self).host(), want), r),
    {
        let r = self.host.read_tuning(want);
        self.log = Ghost(self.log@.push(Asked::Read(*want, r)));
        r
    }

    /// Write the knobs that were asked for.
    pub fn apply_tuning(&mut self, want: &TuningKnobs) -> (r: Result<(), String>)
        ensures
            final(self).host() == old(self).host(),
            final(self).log() == old(self).log().push(Asked::Applied(*want, r)),
            call_ensures(H::apply_tuning, (&old(self).host(), want), r),
    {
        let r = self.host.apply_tuning(want);
        self.log = Ghost(self.log@.push(Asked::Applied(*want, r)));
        r
    }
}

} // verus!
