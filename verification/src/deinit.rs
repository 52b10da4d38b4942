//! Deinitialization stage of a widget.
//!
//! The last stage in a widget's lifecycle frees the runtime data that
//! belongs to a context. Whatever the widget holds outside a context it
//! frees itself first; what the context must free is decided here.
use vstd::prelude::*;
use crate::types::{WidgetClass, WidgetId, WidgetKey};
use crate::widget::WidgetInformation;
use crate::animated_visibility::AnimatedVisibility;

verus! {

/// A request to the context while a widget is deinitialized.
#[derive(Debug)]
pub enum DeinitAction {
    /// Forget the key by which the widget was found.
    UnregisterKey(WidgetKey),
    /// Stop delivering style updates of the class to the widget.
    UnsubscribeStyle(WidgetId, WidgetClass),
    /// Drop every resource the context holds for the widget.
    ClearWidgetResources(WidgetId),
}

/// The requests that deinitializing a widget of the given identity makes,
/// in order: its key is unregistered if it has one, its style class is
/// unsubscribed unless empty, and its resources are cleared.
pub open spec fn deinit_requests(id: WidgetId, key: Option<WidgetKey>, class: WidgetClass) -> Seq<
    DeinitAction,
> {
    (match key {
        Some(k) => seq![DeinitAction::UnregisterKey(k)],
        None => Seq::empty(),
    }) + (if class.name@.len() == 0 {
        Seq::empty()
    } else {
        seq![DeinitAction::UnsubscribeStyle(id, class)]
    }) + seq![DeinitAction::ClearWidgetResources(id)]
}

/// Applies deinitialization to a widget.
///
/// A deinitialized widget is freed from a context with all related runtime
/// resources. Runtime data of the widget that does not belong to the
/// context, or states related to it, are freed by `on_deinit`, which runs
/// first.
pub trait Deinit<C>: WidgetInformation {
    /// Frees runtime data that does not belong to the context.
    fn on_deinit(&mut self, _context: &mut C) {
    }

    /// Runs `on_deinit`, then returns the requests to the context that free
    /// the widget's runtime resources, decided on the widget as `on_deinit`
    /// left it; the last one clears its resources.
    fn deinit(&mut self, context: &mut C) -> (r: Vec<DeinitAction>)
        ensures
            r@ == deinit_requests(final(self).id_of(), final(self).key_of(), final(self).class_of()),
    {
        self.on_deinit(context);
        let mut actions: Vec<DeinitAction> = Vec::new();
        if let Some(key) = self.get_key() {
            actions.push(DeinitAction::UnregisterKey(key.clone()));
        }
        let ghost after_key = actions@;
        let class = self.get_class();
        if !class.is_empty() {
            actions.push(DeinitAction::UnsubscribeStyle(self.get_id(), class));
        }
        let ghost after_class = actions@;
        actions.push(DeinitAction::ClearWidgetResources(self.get_id()));
        proof {
            let k = match self.key_of() {
                Some(k) => seq![DeinitAction::UnregisterKey(k)],
                None => Seq::<DeinitAction>::empty(),
            };
            let c = if self.class_of().name@.len() == 0 {
                Seq::<DeinitAction>::empty()
            } else {
                seq![DeinitAction::UnsubscribeStyle(self.id_of(), self.class_of())]
            };
            assert(after_key =~= k);
            assert(after_class =~= k + c);
            assert(actions@ =~= k + c + seq![DeinitAction::ClearWidgetResources(self.id_of())]);
        }
        actions
    }
}

/// Deinitializing unsubscribes the widget's style class exactly when the
/// class is not empty, whether or not the widget has a key; unregisters the
/// key exactly when there is one; and clears the widget's resources once, as
/// the last request.
pub proof fn law_deinit_requests(id: WidgetId, key: Option<WidgetKey>, class: WidgetClass)
    ensures
        ({
            let reqs = deinit_requests(id, key, class);
            &&& reqs.contains(DeinitAction::UnsubscribeStyle(id, class)) <==> class.name@.len() > 0
            &&& key matches Some(k) ==> reqs.contains(DeinitAction::UnregisterKey(k))
            &&& key is None ==> forall|i: int|
                #![trigger reqs[i]]
                0 <= i < reqs.len() ==> !(reqs[i] is UnregisterKey)
            &&& reqs.len() > 0 && reqs.last() == DeinitAction::ClearWidgetResources(id)
            &&& forall|i: int|
                #![trigger reqs[i]]
                0 <= i < reqs.len() - 1 ==> !(reqs[i] is ClearWidgetResources)
        }),
{
    let k = match key {
        Some(k) => seq![DeinitAction::UnregisterKey(k)],
        None => Seq::<DeinitAction>::empty(),
    };
    let c = if class.name@.len() == 0 {
        Seq::<DeinitAction>::empty()
    } else {
        seq![DeinitAction::UnsubscribeStyle(id, class)]
    };
    let reqs = deinit_requests(id, key, class);
    assert(reqs == k + c + seq![DeinitAction::ClearWidgetResources(id)]);
    assert forall|i: int| 0 <= i < reqs.len() - 1 implies !(#[trigger] reqs[i] is ClearWidgetResources) by {
        if i < k.len() {
            assert(reqs[i] == k[i]);
        } else {
            assert(reqs[i] == c[i - k.len()]);
        }
    }
    if class.name@.len() > 0 {
        assert(reqs[k.len() as int] == DeinitAction::UnsubscribeStyle(id, class));
    } else {
        assert forall|i: int| 0 <= i < reqs.len() implies reqs[i] != DeinitAction::UnsubscribeStyle(
            id,
            class,
        ) by {
            if i < k.len() {
                assert(reqs[i] == k[i]);
            }
        }
    }
    if key is Some {
        assert(reqs[0] == k[0]);
    } else {
        assert forall|i: int| 0 <= i < reqs.len() implies !(#[trigger] reqs[i] is UnregisterKey) by {
            if i < c.len() {
                assert(reqs[i] == c[i]);
            }
        }
    }
}

impl<E, K, C> Deinit<C> for AnimatedVisibility<E, K> {

}

} // verus!
