//! What applies commands, with a record of what was applied.

#[allow(unused_imports)]
use crate::command::MetaCommand;
use crate::error::CubeError;
#[allow(unused_imports)]
use crate::flex::Flex;
use crate::result::MetaCommandResult;
#[allow(unused_imports)]
use crate::state_machine;
use crate::state_machine::Apply;
use vstd::prelude::*;

verus! {

/// A command that was applied, and what that gave.
pub struct Applied {
    pub command: Flex,
    pub result: Result<MetaCommandResult, CubeError>,
}

/// Applies commands. Nothing else reaches what it holds, so its record tells of every
/// command that was applied, in order.
pub struct Applier<A> {
    inner: A,
    log: Ghost<Seq<Applied>>,
}

impl<A: Apply> Applier<A> {
    /// What the commands are applied to.
    pub closed spec fn target(self) -> A {
        self.inner
    }

    /// Every command that was applied, in order, with what that gave.
    pub closed spec fn log(self) -> Seq<Applied> {
        self.log@
    }

    /// Begins with nothing applied.
    pub fn new(inner: A) -> (r: Applier<A>)
        ensures
            r.target() == inner,
            r.log() == Seq::<Applied>::empty(),
    {
        Applier { inner, log: Ghost(Seq::empty()) }
    }

    /// Applies a command.
    pub fn apply(&mut self, cmd: MetaCommand) -> (r: Result<MetaCommandResult, CubeError>)
        ensures
            final(self).target() == old(self).target(),
            final(self).log() == old(self).log().push(Applied { command: cmd.value(), result: r }),
            state_machine::applying_gives(old(self).target(), cmd.value(), r),
    {
        let ghost before = self.log@;
        let r: Result<MetaCommandResult, CubeError> = self.inner.apply(cmd);
        self.log = Ghost(before.push(Applied { command: cmd.value(), result: r }));
        r
    }
}

} // verus!
