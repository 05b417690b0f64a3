//! The state of one compilation: the numbers given out so far and the
//! loops that enclose the statement being read.

use crate::lowering::Ids;
use crate::tac::{Operand, OperandView};
use vstd::prelude::*;

verus! {

/// The state of one compilation.
///
/// Three counters number the temporaries, the loops and the conditionals.
/// The stack holds the numbers of the loops around the current statement,
/// the innermost last.
#[derive(Debug)]
pub struct Context {
    temps: u64,
    loops: u64,
    ifs: u64,
    loop_stack: Vec<u64>,
}

/// Where the three counters stand.
#[derive(Debug, Clone, Copy)]
pub struct Counters {
    temps: u64,
    loops: u64,
    ifs: u64,
}

impl View for Counters {
    type V = Ids;

    closed spec fn view(&self) -> Ids {
        Ids { temps: self.temps as nat, loops: self.loops as nat, ifs: self.ifs as nat }
    }
}

/// A compilation's state as contracts see it.
pub struct ContextView {
    pub ids: Ids,
    pub stack: Seq<nat>,
}

impl ContextView {
    /// The innermost enclosing loop.
    pub open spec fn enclosing(self) -> Option<nat> {
        if self.stack.len() > 0 {
            Some(self.stack.last())
        } else {
            None
        }
    }

    /// Whether a loop encloses the current statement.
    pub open spec fn in_loop(self) -> bool {
        self.stack.len() > 0
    }

    /// Whether each counter can still give out `more` numbers.
    pub open spec fn has_room(self, more: int) -> bool {
        &&& self.ids.temps + more <= u64::MAX
        &&& self.ids.loops + more <= u64::MAX
        &&& self.ids.ifs + more <= u64::MAX
    }

    /// This state with other counters.
    pub open spec fn with_ids(self, ids: Ids) -> ContextView {
        ContextView { ids, stack: self.stack }
    }
}

impl View for Context {
    type V = ContextView;

    closed spec fn view(&self) -> ContextView {
        ContextView {
            ids: Ids { temps: self.temps as nat, loops: self.loops as nat, ifs: self.ifs as nat },
            stack: Seq::new(self.loop_stack@.len(), |k: int| self.loop_stack@[k] as nat),
        }
    }
}

impl Context {
    /// The state at the start of a compilation: nothing numbered, no loop open.
    pub fn new() -> (ctx: Context)
        ensures
            ctx@ == (ContextView { ids: Ids { temps: 0, loops: 0, ifs: 0 }, stack: Seq::empty() }),
    {
        let ctx = Context { temps: 0, loops: 0, ifs: 0, loop_stack: Vec::new() };
        assert(ctx@.stack =~= Seq::empty());
        ctx
    }

    /// The temporary of the next number. No code that was generated holds
    /// it: a number comes a second time only after `rewind` took it back.
    pub fn create_temp(&mut self) -> (t: Operand)
        requires
            old(self)@.ids.temps < u64::MAX,
        ensures
            t@ == OperandView::Temp(old(self)@.ids.temps + 1),
            final(self)@ == old(self)@.with_ids(
                Ids { temps: old(self)@.ids.temps + 1, ..old(self)@.ids },
            ),
    {
        self.temps = self.temps + 1;
        Operand::Temp(self.temps)
    }

    /// The next loop number.
    pub fn create_label_id(&mut self) -> (id: u64)
        requires
            old(self)@.ids.loops < u64::MAX,
        ensures
            id == old(self)@.ids.loops + 1,
            final(self)@ == old(self)@.with_ids(
                Ids { loops: old(self)@.ids.loops + 1, ..old(self)@.ids },
            ),
    {
        self.loops = self.loops + 1;
        self.loops
    }

    /// The next conditional number.
    pub fn create_ifs_id(&mut self) -> (id: u64)
        requires
            old(self)@.ids.ifs < u64::MAX,
        ensures
            id == old(self)@.ids.ifs + 1,
            final(self)@ == old(self)@.with_ids(
                Ids { ifs: old(self)@.ids.ifs + 1, ..old(self)@.ids },
            ),
    {
        self.ifs = self.ifs + 1;
        self.ifs
    }

    /// Whether each counter can still give out `more` numbers: what the
    /// parser asks of the state before it reads `more` tokens.
    pub fn has_room(&self, more: usize) -> (r: bool)
        ensures
            r == self@.has_room(more as int),
    {
        let most = more as u64;
        self.temps <= u64::MAX - most && self.loops <= u64::MAX - most && self.ifs <= u64::MAX
            - most
    }

    /// Where the counters stand.
    pub fn mark(&self) -> (at: Counters)
        ensures
            at@ == self@.ids,
    {
        Counters { temps: self.temps, loops: self.loops, ifs: self.ifs }
    }

    /// Takes back the numbers given out since `at` was marked. This is for
    /// a construct that was not read to its end: it leaves no code, so its
    /// numbers are free again.
    pub(crate) fn rewind(&mut self, at: Counters)
        ensures
            final(self)@ == old(self)@.with_ids(at@),
    {
        self.temps = at.temps;
        self.loops = at.loops;
        self.ifs = at.ifs;
    }

    /// Enters the loop `id`.
    pub fn push_label_id(&mut self, id: u64)
        ensures
            final(self)@ == (ContextView {
                ids: old(self)@.ids,
                stack: old(self)@.stack.push(id as nat),
            }),
    {
        self.loop_stack.push(id);
        assert(self@.stack =~= old(self)@.stack.push(id as nat));
    }

    /// Leaves the innermost loop, if there is one.
    pub fn pop_label_id(&mut self)
        ensures
            final(self)@ == (ContextView {
                ids: old(self)@.ids,
                stack: if old(self)@.stack.len() > 0 {
                    old(self)@.stack.drop_last()
                } else {
                    old(self)@.stack
                },
            }),
    {
        self.loop_stack.pop();
        assert(self@.stack =~= if old(self)@.stack.len() > 0 {
            old(self)@.stack.drop_last()
        } else {
            old(self)@.stack
        });
    }

    /// The innermost loop, if there is one.
    pub fn peek_label_stack(&self) -> (id: Option<u64>)
        ensures
            match id {
                Some(id) => self@.enclosing() == Some(id as nat),
                None => self@.enclosing() is None,
            },
    {
        let n = self.loop_stack.len();
        if n > 0 {
            Some(self.loop_stack[n - 1])
        } else {
            None
        }
    }
}

} // verus!
