use vstd::prelude::*;

use crate::geom::Vec2i;
use crate::resource::Resource;

verus! {

/// The work an agent is doing.
#[derive(Clone, Copy, PartialEq, Eq, Structural, Debug)]
pub enum Task {
    /// Pick up the ground resource at `from`, then deliver it to the factory at `to`.
    Harvest { resource: Resource, from: Vec2i, to: Vec2i },
    /// Take an item out of the factory at `from`, then deliver it to the factory at `to`.
    FactoryPickUp { resource: Resource, from: Vec2i, to: Vec2i },
    /// Walk to the factory at `to` and put the carried item into it.
    FactoryDeliver { to: Vec2i },
    /// No work: the agent idles.
    Idle,
}

impl Task {
    pub fn is_none(&self) -> (r: bool)
        ensures
            r == (*self is Idle),
    {
        matches!(self, Task::Idle)
    }

    pub fn is_some(&self) -> (r: bool)
        ensures
            r == !(*self is Idle),
    {
        !self.is_none()
    }
}

} // verus!
