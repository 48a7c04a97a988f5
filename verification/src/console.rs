//! Console output: where it goes, and the bytes waiting to be written.

use vstd::prelude::*;

verus! {

/// The stream a console writes to.
#[derive(Clone, Copy, Debug, PartialEq, Eq, Structural)]
pub enum ConsoleTarget {
    Stderr,
    Stdout,
}

/// The buffer of a console: what has been written and not yet flushed to
/// its stream. A quiet console takes nothing.
pub struct ConsoleBuffer {
    pub target: ConsoleTarget,
    pub quiet: bool,
    pub pending: Vec<u8>,
}

impl ConsoleBuffer {
    pub fn new(target: ConsoleTarget, quiet: bool) -> (c: ConsoleBuffer)
        ensures
            c.target == target,
            c.quiet == quiet,
            c.pending@ == Seq::<u8>::empty(),
    {
        ConsoleBuffer { target, quiet, pending: Vec::new() }
    }

    /// Writes bytes; a quiet console drops them.
    pub fn write(&mut self, data: Vec<u8>)
        ensures
            final(self).target == old(self).target,
            final(self).quiet == old(self).quiet,
            final(self).pending@ == if old(self).quiet {
                old(self).pending@
            } else {
                old(self).pending@ + data@
            },
    {
        if self.quiet {
            return;
        }
        let mut data = data;
        self.pending.append(&mut data);
    }

    /// Writes bytes and a line feed.
    pub fn write_line(&mut self, data: Vec<u8>)
        ensures
            final(self).target == old(self).target,
            final(self).quiet == old(self).quiet,
            final(self).pending@ == if old(self).quiet {
                old(self).pending@
            } else {
                old(self).pending@ + data@.push(10u8)
            },
    {
        let mut data = data;
        data.push(10u8);
        self.write(data);
    }

    /// Takes the bytes waiting to be written, leaving none.
    pub fn flush(&mut self) -> (r: Vec<u8>)
        ensures
            r@ == old(self).pending@,
            final(self).pending@ == Seq::<u8>::empty(),
            final(self).target == old(self).target,
            final(self).quiet == old(self).quiet,
    {
        let mut out: Vec<u8> = Vec::new();
        std::mem::swap(&mut out, &mut self.pending);
        out
    }
}

} // verus!
