//! The log of a session: one item for each move.

use crate::delta::Delta;
use vstd::prelude::*;

verus! {

/// The kind of a move.
#[derive(Clone, Copy, Debug, PartialEq, Eq, Structural)]
pub enum Action {
    NewPlay,
    Jump,
    ApplyPhysics,
    CheckCollisionAndMovePipes,
    GameOver,
}

/// A move with everything that is needed to make it again.
#[derive(Clone, Copy, Debug, PartialEq, Eq)]
pub enum TraceItem {
    /// The start of a session, with its seed.
    NewPlay(i32),
    /// A jump.
    Jump,
    /// A physics step, with its length.
    ApplyPhysics(Delta),
    /// A collision step, with its length and the offset that each slot
    /// takes if it is recycled in this step.
    CheckCollisionAndMovePipes(Delta, [i32; 5]),
    /// The end of a session.
    GameOver,
}

impl TraceItem {
    /// Whether the time step of the item, if it has one, is well formed.
    pub open spec fn wf(self) -> bool {
        match self {
            TraceItem::ApplyPhysics(delta) => delta.wf(),
            TraceItem::CheckCollisionAndMovePipes(delta, _) => delta.wf(),
            _ => true,
        }
    }

    /// The kind of the item.
    pub open spec fn spec_action(self) -> Action {
        match self {
            TraceItem::NewPlay(_) => Action::NewPlay,
            TraceItem::Jump => Action::Jump,
            TraceItem::ApplyPhysics(_) => Action::ApplyPhysics,
            TraceItem::CheckCollisionAndMovePipes(_, _) => Action::CheckCollisionAndMovePipes,
            TraceItem::GameOver => Action::GameOver,
        }
    }

    /// The kind of the item.
    pub fn action(&self) -> (action: Action)
        ensures
            action == self.spec_action(),
    {
        match self {
            TraceItem::NewPlay(_) => Action::NewPlay,
            TraceItem::Jump => Action::Jump,
            TraceItem::ApplyPhysics(_) => Action::ApplyPhysics,
            TraceItem::CheckCollisionAndMovePipes(_, _) => Action::CheckCollisionAndMovePipes,
            TraceItem::GameOver => Action::GameOver,
        }
    }
}

/// Whether every item of a trace is well formed.
pub open spec fn trace_wf(items: Seq<TraceItem>) -> bool {
    forall|i: int| 0 <= i < items.len() ==> (#[trigger] items[i]).wf()
}

/// A copy of a trace.
pub fn copy_trace(items: &Vec<TraceItem>) -> (copy: Vec<TraceItem>)
    ensures
        copy@ == items@,
{
    let mut copy: Vec<TraceItem> = Vec::new();
    let mut i: usize = 0;
    while i < items.len()
        invariant
            i <= items.len(),
            copy@ == items@.take(i as int),
        decreases items.len() - i,
    {
        copy.push(items[i]);
        i += 1;
    }
    copy
}

} // verus!
