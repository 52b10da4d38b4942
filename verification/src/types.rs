//! Plain value types shared by the widget modules.
use vstd::prelude::*;

verus! {

/// Identifier of a widget inside a widget tree.
pub type WidgetId = u64;

/// How a widget determines its size.
#[derive(Clone, Copy, Debug, PartialEq, Eq, Structural)]
pub enum SizingMode {
    /// The size is fixed by the widget's own definition.
    Fixed,
    /// The size changes at runtime and must be measured again.
    Dynamic,
}

/// What a rebuild of a widget asks of the following stages.
#[derive(Clone, Copy, Debug, PartialEq, Eq, Structural)]
pub enum RebuildStatus {
    NothingChanged,
    NeedsMeasure,
}

/// Direction in which a registered animation runs.
#[derive(Clone, Copy, Debug, PartialEq, Eq, Structural)]
pub enum AnimationDirection {
    Forward,
    Backward,
}

/// The stages that must run again on every tick of an animation.
#[derive(Clone, Copy, Debug, PartialEq, Eq, Structural)]
pub struct DirtyFlags {
    pub needs_rebuild: bool,
    pub needs_measure: bool,
}

} // verus!

verus! {

/// An animation request: how long it runs, what it invalidates on each
/// tick and in which direction it runs.
#[derive(Debug)]
pub struct AnimationProgress {
    pub duration: core::time::Duration,
    pub dirty_flags: DirtyFlags,
    pub direction: AnimationDirection,
}

impl AnimationProgress {
    pub fn new(
        duration: core::time::Duration,
        dirty_flags: DirtyFlags,
        direction: AnimationDirection,
    ) -> (r: Self)
        ensures
            r.duration == duration,
            r.dirty_flags == dirty_flags,
            r.direction == direction,
    {
        AnimationProgress { duration, dirty_flags, direction }
    }
}

} // verus!

verus! {

/// Handle of a piece of application state that a widget observes.
pub type StateId = u64;

/// A key by which the application finds a widget again.
#[derive(Debug)]
pub struct WidgetKey {
    pub name: String,
}

impl Clone for WidgetKey {
    fn clone(&self) -> (r: Self)
        ensures
            r == *self,
    {
        WidgetKey { name: self.name.clone() }
    }
}

/// The style class of a widget; the empty class means no class.
#[derive(Debug)]
pub struct WidgetClass {
    pub name: String,
}

impl Clone for WidgetClass {
    fn clone(&self) -> (r: Self)
        ensures
            r == *self,
    {
        WidgetClass { name: self.name.clone() }
    }
}

impl WidgetClass {
    /// Whether this is the empty class.
    pub fn is_empty(&self) -> (r: bool)
        ensures
            r == (self.name@.len() == 0),
    {
        self.name.as_str().is_empty()
    }
}

} // verus!

verus! {

/// The outcome of testing whether a point hits a widget.
#[derive(Clone, Copy, Debug, PartialEq, Eq, Structural)]
pub enum HitTestResult {
    Hit,
    Missed,
    Failed,
}

/// An event waiting to be handled by a widget; the events other than the
/// pointer entering and leaving the widget are alike to it.
#[derive(Clone, Copy, Debug, PartialEq, Eq, Structural)]
pub enum PendingEvent {
    HoverIn,
    HoverOut,
    Other,
}

} // verus!
