//! The information every widget offers, and the enum that holds any widget.
use vstd::prelude::*;
use crate::types::{SizingMode, WidgetClass, WidgetId, WidgetKey};
use crate::animated_visibility::AnimatedVisibility;
use crate::tree::{Get, GetCarefully};

verus! {

/// The identity of a widget: its id, its key and its style class.
pub trait WidgetInformation {
    spec fn id_of(&self) -> WidgetId;

    spec fn key_of(&self) -> Option<WidgetKey>;

    spec fn class_of(&self) -> WidgetClass;

    fn get_id(&self) -> (r: WidgetId)
        ensures
            r == self.id_of(),
    ;

    fn set_id(&mut self, id: WidgetId)
        ensures
            final(self).id_of() == id,
            final(self).key_of() == old(self).key_of(),
            final(self).class_of() == old(self).class_of(),
    ;

    fn get_key(&self) -> (r: Option<&WidgetKey>)
        ensures
            r is Some == self.key_of() is Some,
            r is Some ==> *r->0 == self.key_of()->0,
    ;

    fn get_class(&self) -> (r: WidgetClass)
        ensures
            r == self.class_of(),
    ;
}

pub trait WidgetGetType {
    /// Returns the type of this widget as a human-readable string.
    ///
    /// This is primarily intended for logging and debugging, allowing
    /// developers to inspect which kind of widget is being processed at
    /// runtime.
    fn get_type(&self) -> &'static str;
}

pub trait WidgetSizingMode<C> {
    /// Returns the sizing policy of the widget.
    ///
    /// This method is used to distinguish between widgets with pre-defined
    /// (fixed) dimensions and those that adapt their size dynamically based
    /// on the layout context.
    fn sizing_mode(&self, context: &C) -> SizingMode;
}

/// A metadata interface for inspecting a widget's identity and dimensions.
pub trait WidgetBase<C>: WidgetInformation + WidgetGetType + WidgetSizingMode<C> {

}

impl<W: WidgetInformation + WidgetGetType + WidgetSizingMode<C>, C> WidgetBase<C> for W {

}

impl<T: WidgetInformation> Get<WidgetId> for T {
    fn get(&self) -> (r: WidgetId)
        ensures
            r == self.id_of(),
    {
        self.get_id()
    }
}

impl<T: WidgetInformation> GetCarefully<WidgetKey> for T {
    fn get_carefully(&self) -> (r: Option<&WidgetKey>)
        ensures
            r is Some == self.key_of() is Some,
            r is Some ==> *r->0 == self.key_of()->0,
    {
        self.get_key()
    }
}

/// A container enum for the supported widget types.
pub enum WidgetEnum<E, K> {
    AnimatedVisibility(Box<AnimatedVisibility<E, K>>),
}

impl<E, K> WidgetInformation for WidgetEnum<E, K> {
    open spec fn id_of(&self) -> WidgetId {
        match self {
            WidgetEnum::AnimatedVisibility(w) => w.id,
        }
    }

    open spec fn key_of(&self) -> Option<WidgetKey> {
        match self {
            WidgetEnum::AnimatedVisibility(w) => w.key,
        }
    }

    open spec fn class_of(&self) -> WidgetClass {
        match self {
            WidgetEnum::AnimatedVisibility(w) => w.class,
        }
    }

    fn get_id(&self) -> (r: WidgetId) {
        match self {
            WidgetEnum::AnimatedVisibility(w) => w.get_id(),
        }
    }

    fn set_id(&mut self, id: WidgetId) {
        match self {
            WidgetEnum::AnimatedVisibility(w) => w.set_id(id),
        }
    }

    fn get_key(&self) -> (r: Option<&WidgetKey>) {
        match self {
            WidgetEnum::AnimatedVisibility(w) => w.get_key(),
        }
    }

    fn get_class(&self) -> (r: WidgetClass) {
        match self {
            WidgetEnum::AnimatedVisibility(w) => w.get_class(),
        }
    }
}

impl<E, K> From<AnimatedVisibility<E, K>> for WidgetEnum<E, K> {
    fn from(value: AnimatedVisibility<E, K>) -> (r: Self) {
        WidgetEnum::AnimatedVisibility(Box::new(value))
    }
}

impl<E, K> vstd::std_specs::convert::FromSpecImpl<AnimatedVisibility<E, K>> for WidgetEnum<E, K> {
    open spec fn obeys_from_spec() -> bool {
        true
    }

    open spec fn from_spec(v: AnimatedVisibility<E, K>) -> Self {
        WidgetEnum::AnimatedVisibility(Box::new(v))
    }
}

impl<E, K> WidgetGetType for WidgetEnum<E, K> {
    fn get_type(&self) -> (r: &'static str)
        ensures
            r@ == "animated_visibility"@,
    {
        match self {
            WidgetEnum::AnimatedVisibility(w) => w.get_type(),
        }
    }
}

} // verus!
