//! A widget that shows and hides its child with a spatial change (the space
//! that the child takes grows or shrinks) followed by a transition (the
//! child fades, slides, ...). The decisions it takes at each lifecycle stage
//! are functions from its runtime information to the actions to perform.
use vstd::prelude::*;
use crate::types::{
    AnimationDirection, AnimationProgress, DirtyFlags, HitTestResult, PendingEvent, RebuildStatus,
    SizingMode, StateId,
    WidgetClass, WidgetId, WidgetKey,
};
use crate::widget::{WidgetEnum, WidgetGetType, WidgetInformation};
use crate::visibility::{VisibilityPhase, fixed_phase, stepped_phase, target_phase};

verus! {

/// Whether a running animation plays towards the current visibility or
/// unwinds an animation that played towards the former one.
#[derive(Clone, Copy, Debug, PartialEq, Eq, Structural)]
pub enum AnimationState {
    Nothing,
    Play,
    Unwind,
}

impl Default for AnimationState {
    fn default() -> (r: Self)
        ensures
            r == AnimationState::Nothing,
    {
        AnimationState::Nothing
    }
}

/// Which of the two configured animations applies: the one that brings the
/// child in, or the one that takes it out.
#[derive(Clone, Copy, Debug, PartialEq, Eq, Structural)]
pub enum AnimationAppearance {
    Enter,
    Exit,
}

/// A transition animation: its easing curve, its duration and the kind of
/// filter it applies to the child.
#[derive(Debug)]
pub struct AnimationDefinition<E, K> {
    pub easing: E,
    pub duration: core::time::Duration,
    pub kind: K,
}

/// A spatial change: its easing curve and its duration.
#[derive(Debug)]
pub struct SpatialChangeDefinition<E> {
    pub easing: E,
    pub duration: core::time::Duration,
}

/// The style of an animated visibility widget.
#[derive(Debug)]
pub struct AnimatedVisibilityStyle<E, K> {
    pub primary_animation: AnimationDefinition<E, K>,
    pub secondary_animation: AnimationDefinition<E, K>,
    pub primary_spatial_change: SpatialChangeDefinition<E>,
    pub secondary_spatial_change: SpatialChangeDefinition<E>,
}

/// The animations of a widget resolved for entering and for exiting.
pub struct AnimationProperties<'a, E, K> {
    pub enter_animation: &'a AnimationDefinition<E, K>,
    pub exit_animation: &'a AnimationDefinition<E, K>,
    pub enter_spatial_change: &'a SpatialChangeDefinition<E>,
    pub exit_spatial_change: &'a SpatialChangeDefinition<E>,
}

impl<'a, E, K> AnimationProperties<'a, E, K> {
    pub fn resolve_spatical_change(&self, animation_appearance: AnimationAppearance) -> (r:
        &'a SpatialChangeDefinition<E>)
        ensures
            r == (match animation_appearance {
                AnimationAppearance::Enter => self.enter_spatial_change,
                AnimationAppearance::Exit => self.exit_spatial_change,
            }),
    {
        match animation_appearance {
            AnimationAppearance::Enter => self.enter_spatial_change,
            AnimationAppearance::Exit => self.exit_spatial_change,
        }
    }

    pub fn resolve_animation(&self, animation_appearance: AnimationAppearance) -> (r:
        &'a AnimationDefinition<E, K>)
        ensures
            r == (match animation_appearance {
                AnimationAppearance::Enter => self.enter_animation,
                AnimationAppearance::Exit => self.exit_animation,
            }),
    {
        match animation_appearance {
            AnimationAppearance::Enter => self.enter_animation,
            AnimationAppearance::Exit => self.exit_animation,
        }
    }
}

/// An animation to register for a widget.
#[derive(Debug)]
pub struct AnimationRegistration {
    pub id: WidgetId,
    pub progress: AnimationProgress,
}

/// Which appearance applies for a visibility and an animation state: a
/// playing animation goes towards the visibility, an unwinding one comes
/// back from the other side.
pub open spec fn appearance_of(visible: bool, state: AnimationState) -> AnimationAppearance {
    match (visible, state) {
        (true, AnimationState::Unwind) => AnimationAppearance::Exit,
        (true, _) => AnimationAppearance::Enter,
        (false, AnimationState::Unwind) => AnimationAppearance::Enter,
        (false, _) => AnimationAppearance::Exit,
    }
}

/// The direction of an animation towards the visibility.
pub open spec fn direction_of(visible: bool) -> AnimationDirection {
    if visible {
        AnimationDirection::Forward
    } else {
        AnimationDirection::Backward
    }
}

/// A runtime information is consistent when an idle widget rests at the
/// phase of its visibility and an animating one is in an intermediate phase.
pub open spec fn runtime_consistent(info: AVRuntimeInformation) -> bool {
    if info.animation_state == AnimationState::Nothing {
        info.phase == target_phase(info.visible)
    } else {
        info.phase == VisibilityPhase::SpatialChange || info.phase == VisibilityPhase::Transition
    }
}

/// The state of the running animation after the visibility flipped while
/// it ran.
pub open spec fn reversed_state(state: AnimationState) -> AnimationState {
    match state {
        AnimationState::Play => AnimationState::Unwind,
        AnimationState::Unwind => AnimationState::Play,
        AnimationState::Nothing => AnimationState::Nothing,
    }
}

/// Reversing a running animation plays the same animation backwards: the
/// appearance stays and the direction turns.
pub proof fn law_reversal_keeps_appearance(visible: bool, state: AnimationState)
    requires
        state != AnimationState::Nothing,
    ensures
        appearance_of(!visible, reversed_state(state)) == appearance_of(visible, state),
        direction_of(!visible) != direction_of(visible),
{
}

/// The runtime information of an animated visibility widget.
#[derive(Clone, Copy, Debug)]
pub struct AVRuntimeInformation {
    pub visible: bool,
    pub phase: VisibilityPhase,
    pub animation_state: AnimationState,
}

impl AVRuntimeInformation {
    /// The resting phase of the current visibility.
    pub fn visibility_as_target_phase(&self) -> (r: VisibilityPhase)
        ensures
            r == target_phase(self.visible),
    {
        if self.visible {
            VisibilityPhase::Showing
        } else {
            VisibilityPhase::Hidden
        }
    }

    /// Moves the phase one step towards the current visibility.
    pub fn next_phase(&mut self)
        ensures
            final(self).phase == stepped_phase(old(self).phase, old(self).visible),
            final(self).visible == old(self).visible,
            final(self).animation_state == old(self).animation_state,
    {
        self.phase.next_phase(self.visible);
    }

    /// Whether the phase rests at the current visibility.
    pub fn is_fully_finished(&self) -> (r: bool)
        ensures
            r == (self.phase == target_phase(self.visible)),
    {
        self.phase.is_fully_finished(self.visible)
    }

    /// The animation that the current phase needs: the spatial change of the
    /// current appearance during `SpatialChange`, which invalidates the
    /// rebuild and the measure; the transition of the current appearance
    /// during `Transition`, which invalidates the rebuild; none in a resting
    /// phase. It runs forward when the widget becomes visible.
    pub fn register_animation<E, K>(
        &self,
        id: WidgetId,
        animation_properties: AnimationProperties<'_, E, K>,
    ) -> (r: Option<AnimationRegistration>)
        ensures
            ({
                let appearance = appearance_of(self.visible, self.animation_state);
                match self.phase {
                    VisibilityPhase::SpatialChange => r == Some(
                        AnimationRegistration {
                            id,
                            progress: AnimationProgress {
                                duration: (match appearance {
                                    AnimationAppearance::Enter => animation_properties.enter_spatial_change,
                                    AnimationAppearance::Exit => animation_properties.exit_spatial_change,
                                }).duration,
                                dirty_flags: DirtyFlags { needs_rebuild: true, needs_measure: true },
                                direction: direction_of(self.visible),
                            },
                        },
                    ),
                    VisibilityPhase::Transition => r == Some(
                        AnimationRegistration {
                            id,
                            progress: AnimationProgress {
                                duration: (match appearance {
                                    AnimationAppearance::Enter => animation_properties.enter_animation,
                                    AnimationAppearance::Exit => animation_properties.exit_animation,
                                }).duration,
                                dirty_flags: DirtyFlags { needs_rebuild: true, needs_measure: false },
                                direction: direction_of(self.visible),
                            },
                        },
                    ),
                    _ => r is None,
                }
            }),
    {
        let direction = if self.visible {
            AnimationDirection::Forward
        } else {
            AnimationDirection::Backward
        };
        let animation_appearance = self.resolve_animation_appearance();
        match self.phase {
            VisibilityPhase::SpatialChange => {
                let spatial_change_definition = animation_properties.resolve_spatical_change(
                    animation_appearance,
                );
                Some(
                    AnimationRegistration {
                        id,
                        progress: AnimationProgress::new(
                            spatial_change_definition.duration,
                            DirtyFlags { needs_rebuild: true, needs_measure: true },
                            direction,
                        ),
                    },
                )
            },
            VisibilityPhase::Transition => {
                let animation_definition = animation_properties.resolve_animation(
                    animation_appearance,
                );
                Some(
                    AnimationRegistration {
                        id,
                        progress: AnimationProgress::new(
                            animation_definition.duration,
                            DirtyFlags { needs_rebuild: true, needs_measure: false },
                            direction,
                        ),
                    },
                )
            },
            _ => None,
        }
    }

    /// The appearance that the running animation shows.
    pub fn resolve_animation_appearance(&self) -> (r: AnimationAppearance)
        ensures
            r == appearance_of(self.visible, self.animation_state),
    {
        match (self.visible, self.animation_state) {
            (true, AnimationState::Nothing) => AnimationAppearance::Enter,
            (true, AnimationState::Play) => AnimationAppearance::Enter,
            (true, AnimationState::Unwind) => AnimationAppearance::Exit,
            (false, AnimationState::Nothing) => AnimationAppearance::Exit,
            (false, AnimationState::Play) => AnimationAppearance::Exit,
            (false, AnimationState::Unwind) => AnimationAppearance::Enter,
        }
    }
}

} // verus!

verus! {

/// A widget that shows and hides its child with an animation.
///
/// The primary animation and spatial change must be set before the widget
/// animates; the secondary ones, when unset, fall back to the primary ones.
/// The primary definitions animate the child in, the secondary ones out.
pub struct AnimatedVisibility<E, K> {
    pub id: WidgetId,
    pub key: Option<WidgetKey>,
    pub class: WidgetClass,
    /// The state whose value is the visibility of the child, if any; without
    /// one the child is visible.
    pub visibility_state: Option<StateId>,
    pub primary_animation: Option<AnimationDefinition<E, K>>,
    pub secondary_animation: Option<AnimationDefinition<E, K>>,
    pub primary_spatial_change: Option<SpatialChangeDefinition<E>>,
    pub secondary_spatial_change: Option<SpatialChangeDefinition<E>>,
    pub child: Option<WidgetEnum<E, K>>,
}

impl<E, K> WidgetInformation for AnimatedVisibility<E, K> {
    open spec fn id_of(&self) -> WidgetId {
        self.id
    }

    open spec fn key_of(&self) -> Option<WidgetKey> {
        self.key
    }

    open spec fn class_of(&self) -> WidgetClass {
        self.class
    }

    fn get_id(&self) -> (r: WidgetId) {
        self.id
    }

    fn set_id(&mut self, id: WidgetId) {
        self.id = id;
    }

    fn get_key(&self) -> (r: Option<&WidgetKey>) {
        self.key.as_ref()
    }

    fn get_class(&self) -> (r: WidgetClass) {
        self.class.clone()
    }
}

impl<E, K> WidgetGetType for AnimatedVisibility<E, K> {
    fn get_type(&self) -> (r: &'static str)
        ensures
            r@ == "animated_visibility"@,
    {
        "animated_visibility"
    }
}

} // verus!

verus! {

/// A step of initialising a widget, in the order in which they are taken.
pub enum InitStep {
    /// Subscribe the widget to its visibility state.
    Subscribe(WidgetId, StateId),
    /// Register the animation that starts showing the widget.
    RegisterAnimation(AnimationRegistration),
    /// Store the widget's runtime information in the context.
    StoreRuntimeInformation(AVRuntimeInformation),
    /// Initialise the child, once the runtime information is stored.
    InitChild,
}

/// A style that the context holds for a style class.
pub enum WidgetStyle<E, K> {
    AnimatedVisibility(AnimatedVisibilityStyle<E, K>),
    /// The style of another kind of widget.
    Other,
}

/// What a widget does when the visibility it observes changes.
pub enum VisibilityChange {
    /// The visibility did not change.
    Unchanged,
    /// No animation ran: a new one starts, registering the given animation.
    Start(Option<AnimationRegistration>),
    /// An animation ran: it is reversed.
    Reverse,
}

/// Which callback a widget that came to rest notifies.
#[derive(Clone, Copy, Debug, PartialEq, Eq, Structural)]
pub enum VisibilityNotice {
    Visible,
    Hidden,
}

/// What a widget does when its running animation finished.
pub enum FinishAction {
    /// The widget came to rest: the animation is removed and the given
    /// callback notified.
    Rest(VisibilityNotice),
    /// The widget moved on to the next phase, whose animation is registered.
    Continue(Option<AnimationRegistration>),
}

/// How the measured extent of the child is scaled.
#[derive(Clone, Copy, Debug, PartialEq, Eq, Structural)]
pub enum MeasureScaling {
    /// The extent stays.
    Unscaled,
    /// The extent is scaled by the easing of the spatial change of the given
    /// appearance at the animation's progress.
    Eased(AnimationAppearance),
    /// The extent is scaled to nothing.
    Collapsed,
}

/// What is drawn for the widget.
#[derive(Clone, Copy, Debug, PartialEq, Eq, Structural)]
pub enum DrawPlan {
    Nothing,
    /// The child, drawn off screen and painted through the filter of the
    /// transition of the given appearance.
    Filtered(AnimationAppearance),
    /// The child as it is.
    Child,
}

/// The expected animation for a runtime information, given the animations
/// of a widget resolved by `animation_properties`.
pub open spec fn expected_registration<E, K>(
    info: AVRuntimeInformation,
    id: WidgetId,
    w: AnimatedVisibility<E, K>,
) -> Option<(core::time::Duration, DirtyFlags, AnimationDirection)> {
    let appearance = appearance_of(info.visible, info.animation_state);
    match info.phase {
        VisibilityPhase::SpatialChange => Some(
            (
                match appearance {
                    AnimationAppearance::Enter => w.primary_spatial_change->0.duration,
                    AnimationAppearance::Exit => w.exit_spatial_change().duration,
                },
                DirtyFlags { needs_rebuild: true, needs_measure: true },
                direction_of(info.visible),
            ),
        ),
        VisibilityPhase::Transition => Some(
            (
                match appearance {
                    AnimationAppearance::Enter => w.primary_animation->0.duration,
                    AnimationAppearance::Exit => w.exit_animation().duration,
                },
                DirtyFlags { needs_rebuild: true, needs_measure: false },
                direction_of(info.visible),
            ),
        ),
        _ => None,
    }
}

/// Whether a registration is the expected one for a runtime information.
/// The animation to register for a runtime information, built from the
/// expected duration, dirty flags and direction.
pub open spec fn registration_for<E, K>(
    info: AVRuntimeInformation,
    w: AnimatedVisibility<E, K>,
) -> Option<AnimationRegistration> {
    match expected_registration(info, w.id, w) {
        Some((duration, dirty_flags, direction)) => Some(
            AnimationRegistration {
                id: w.id,
                progress: AnimationProgress { duration, dirty_flags, direction },
            },
        ),
        None => None,
    }
}

/// Whether a registration is the expected one for a runtime information.
pub open spec fn registers<E, K>(
    r: Option<AnimationRegistration>,
    info: AVRuntimeInformation,
    w: AnimatedVisibility<E, K>,
) -> bool {
    r == registration_for(info, w)
}

impl<E, K> AnimatedVisibility<E, K> {
    /// The primary animation and spatial change are both set.
    pub open spec fn has_animations(&self) -> bool {
        self.primary_animation is Some && self.primary_spatial_change is Some
    }

    /// The transition out: the secondary one, or the primary one.
    pub open spec fn exit_animation(&self) -> AnimationDefinition<E, K> {
        match self.secondary_animation {
            Some(a) => a,
            None => self.primary_animation->0,
        }
    }

    /// The spatial change out: the secondary one, or the primary one.
    pub open spec fn exit_spatial_change(&self) -> SpatialChangeDefinition<E> {
        match self.secondary_spatial_change {
            Some(a) => a,
            None => self.primary_spatial_change->0,
        }
    }

    /// The animations for entering (the primary ones) and for exiting (the
    /// secondary ones, falling back to the primary ones).
    pub fn animation_properties(&self) -> (r: AnimationProperties<'_, E, K>)
        requires
            self.has_animations(),
        ensures
            *r.enter_animation == self.primary_animation->0,
            *r.exit_animation == self.exit_animation(),
            *r.enter_spatial_change == self.primary_spatial_change->0,
            *r.exit_spatial_change == self.exit_spatial_change(),
            self.secondary_animation matches Some(a) ==> *r.exit_animation == a,
            self.secondary_animation is None ==> *r.exit_animation == self.primary_animation->0,
            self.secondary_spatial_change matches Some(a) ==> *r.exit_spatial_change == a,
            self.secondary_spatial_change is None ==> *r.exit_spatial_change
                == self.primary_spatial_change->0,
    {
        let enter_animation = self.primary_animation.as_ref().unwrap();
        let exit_animation = match &self.secondary_animation {
            Some(a) => a,
            None => enter_animation,
        };
        let enter_spatial_change = self.primary_spatial_change.as_ref().unwrap();
        let exit_spatial_change = match &self.secondary_spatial_change {
            Some(a) => a,
            None => enter_spatial_change,
        };
        AnimationProperties {
            enter_animation,
            exit_animation,
            enter_spatial_change,
            exit_spatial_change,
        }
    }

    /// The visibility the widget starts with: the observed value of its
    /// visibility state when it has one and the value is known, else visible.
    pub open spec fn initial_visibility(&self, observed_visibility: Option<bool>) -> bool {
        match (self.visibility_state, observed_visibility) {
            (Some(_), Some(v)) => v,
            _ => true,
        }
    }

    /// The widget with the animations of a style: each definition of the
    /// style replaces the widget's.
    pub open spec fn with_style(self, style: AnimatedVisibilityStyle<E, K>) -> Self {
        AnimatedVisibility {
            id: self.id,
            key: self.key,
            class: self.class,
            visibility_state: self.visibility_state,
            primary_animation: Some(style.primary_animation),
            secondary_animation: Some(style.secondary_animation),
            primary_spatial_change: Some(style.primary_spatial_change),
            secondary_spatial_change: Some(style.secondary_spatial_change),
            child: self.child,
        }
    }

    /// The widget after the context's style for its class was applied: a
    /// style of this kind of widget applies, any other leaves it as it is.
    pub open spec fn styled(self, style: Option<WidgetStyle<E, K>>) -> Self {
        match style {
            Some(WidgetStyle::AnimatedVisibility(st)) => self.with_style(st),
            _ => self,
        }
    }

    /// Applies the animations of a style to the widget.
    pub fn configure(&mut self, style: AnimatedVisibilityStyle<E, K>)
        ensures
            *final(self) == old(self).with_style(style),
    {
        self.primary_animation = Some(style.primary_animation);
        self.secondary_animation = Some(style.secondary_animation);
        self.primary_spatial_change = Some(style.primary_spatial_change);
        self.secondary_spatial_change = Some(style.secondary_spatial_change);
    }

    /// Applies a style update meant for this kind of widget; others are
    /// ignored.
    pub fn on_style_update(&mut self, style: WidgetStyle<E, K>)
        ensures
            *final(self) == old(self).styled(Some(style)),
    {
        match style {
            WidgetStyle::AnimatedVisibility(av_style) => self.configure(av_style),
            WidgetStyle::Other => {},
        }
    }

    /// The runtime information a widget starts with: hidden and idle, or,
    /// when visible, playing from the spatial change on.
    pub open spec fn initial_runtime(visible: bool) -> AVRuntimeInformation {
        if visible {
            AVRuntimeInformation {
                visible: true,
                phase: VisibilityPhase::SpatialChange,
                animation_state: AnimationState::Play,
            }
        } else {
            AVRuntimeInformation {
                visible: false,
                phase: VisibilityPhase::Hidden,
                animation_state: AnimationState::Nothing,
            }
        }
    }

    /// The steps of initialising the widget, in order.
    pub open spec fn init_steps(self, observed_visibility: Option<bool>) -> Seq<InitStep> {
        let info = Self::initial_runtime(self.initial_visibility(observed_visibility));
        (match self.visibility_state {
            Some(s) => seq![InitStep::Subscribe(self.id, s)],
            None => Seq::empty(),
        }) + (match registration_for(info, self) {
            Some(a) => seq![InitStep::RegisterAnimation(a)],
            None => Seq::empty(),
        }) + seq![InitStep::StoreRuntimeInformation(info)] + (if self.child is Some {
            seq![InitStep::InitChild]
        } else {
            Seq::empty()
        })
    }

    /// Initialises the widget: the context's style for its class applies
    /// first; then it subscribes to its visibility state if it has one,
    /// starts hidden, and when visible plays the animation that shows it
    /// from the first phase on; its runtime information is stored, and then
    /// its child is initialised.
    ///
    /// `style` is the style the context holds for the widget's class;
    /// `observed_visibility` is the current value of the visibility state.
    pub fn on_init(
        &mut self,
        style: Option<WidgetStyle<E, K>>,
        observed_visibility: Option<bool>,
    ) -> (r: Vec<InitStep>)
        requires
            old(self).styled(style).initial_visibility(observed_visibility) ==> old(self).styled(
                style,
            ).has_animations(),
        ensures
            *final(self) == old(self).styled(style),
            r@ == final(self).init_steps(observed_visibility),
            runtime_consistent(
                Self::initial_runtime(final(self).initial_visibility(observed_visibility)),
            ),
    {
        match style {
            Some(WidgetStyle::AnimatedVisibility(av_style)) => self.configure(av_style),
            _ => {},
        }
        let mut steps: Vec<InitStep> = Vec::new();
        let mut visible = true;
        if let Some(state) = self.visibility_state {
            steps.push(InitStep::Subscribe(self.id, state));
            if let Some(actual_visibility) = observed_visibility {
                visible = actual_visibility;
            }
        }
        let ghost after_subscribe = steps@;
        let mut runtime_information = AVRuntimeInformation {
            visible,
            phase: VisibilityPhase::default(),
            animation_state: AnimationState::default(),
        };
        let target_phase = runtime_information.visibility_as_target_phase();
        runtime_information.phase.fix_with_visibility(visible);
        if target_phase != runtime_information.phase {
            runtime_information.animation_state = AnimationState::Play;
            runtime_information.next_phase();
            let animation = runtime_information.register_animation(
                self.id,
                self.animation_properties(),
            );
            if let Some(a) = animation {
                steps.push(InitStep::RegisterAnimation(a));
            }
        }
        let ghost after_register = steps@;
        assert(runtime_information == Self::initial_runtime(visible));
        steps.push(InitStep::StoreRuntimeInformation(runtime_information));
        let ghost after_store = steps@;
        if self.child.is_some() {
            steps.push(InitStep::InitChild);
        }
        proof {
            let w = *self;
            let info = Self::initial_runtime(visible);
            let sub = match w.visibility_state {
                Some(s) => seq![InitStep::Subscribe(w.id, s)],
                None => Seq::<InitStep>::empty(),
            };
            let reg = match registration_for(info, w) {
                Some(a) => seq![InitStep::RegisterAnimation(a)],
                None => Seq::<InitStep>::empty(),
            };
            assert(after_subscribe =~= sub);
            assert(after_register =~= sub + reg);
            assert(after_store =~= sub + reg + seq![InitStep::StoreRuntimeInformation(info)]);
            assert(steps@ =~= w.init_steps(observed_visibility));
        }
        steps
    }

    /// Whether an observed visibility changes the widget's visibility.
    pub open spec fn changes_visibility(
        &self,
        info: AVRuntimeInformation,
        observed_visibility: Option<bool>,
    ) -> bool {
        &&& self.visibility_state is Some
        &&& (observed_visibility matches Some(v) && v != info.visible)
    }

    /// Takes the observed value of the visibility state into account. When
    /// it differs from the current visibility, the visibility flips; an idle
    /// widget starts to play towards it from the next phase, a playing one
    /// unwinds and an unwinding one plays again, both by reversing the
    /// running animation.
    pub fn on_visibility_change(
        &self,
        runtime_information: &mut AVRuntimeInformation,
        observed_visibility: Option<bool>,
    ) -> (r: VisibilityChange)
        requires
            self.changes_visibility(*old(runtime_information), observed_visibility)
                && old(runtime_information).animation_state == AnimationState::Nothing
                ==> self.has_animations(),
        ensures
            !self.changes_visibility(*old(runtime_information), observed_visibility) ==> {
                &&& r is Unchanged
                &&& *final(runtime_information) == *old(runtime_information)
            },
            self.changes_visibility(*old(runtime_information), observed_visibility) ==> {
                let old_info = *old(runtime_information);
                let new_info = *final(runtime_information);
                &&& new_info.visible == !old_info.visible
                &&& match old_info.animation_state {
                    AnimationState::Nothing => {
                        &&& new_info.animation_state == AnimationState::Play
                        &&& new_info.phase == stepped_phase(old_info.phase, new_info.visible)
                        &&& (r matches VisibilityChange::Start(a) && registers(a, new_info, *self))
                    },
                    AnimationState::Play => {
                        &&& new_info.animation_state == reversed_state(old_info.animation_state)
                        &&& new_info.phase == old_info.phase
                        &&& r is Reverse
                    },
                    AnimationState::Unwind => {
                        &&& new_info.animation_state == reversed_state(old_info.animation_state)
                        &&& new_info.phase == old_info.phase
                        &&& r is Reverse
                    },
                }
            },
            runtime_consistent(*old(runtime_information)) ==> runtime_consistent(
                *final(runtime_information),
            ),
            self.visibility_state is Some && observed_visibility == Some(
                !old(runtime_information).visible,
            ) ==> final(runtime_information).visible == !old(runtime_information).visible,
            self.visibility_state is Some && observed_visibility == Some(
                !old(runtime_information).visible,
            ) && old(runtime_information).animation_state == AnimationState::Nothing ==> {
                &&& final(runtime_information).animation_state == AnimationState::Play
                &&& final(runtime_information).phase == stepped_phase(
                    old(runtime_information).phase,
                    !old(runtime_information).visible,
                )
                &&& r is Start
            },
            self.visibility_state is None || observed_visibility is None || observed_visibility
                == Some(old(runtime_information).visible) ==> {
                &&& r is Unchanged
                &&& *final(runtime_information) == *old(runtime_information)
            },
    {
        if self.visibility_state.is_none() {
            return VisibilityChange::Unchanged;
        }
        let new_visibility = match observed_visibility {
            Some(v) => v,
            None => return VisibilityChange::Unchanged,
        };
        if new_visibility == runtime_information.visible {
            return VisibilityChange::Unchanged;
        }
        runtime_information.visible = new_visibility;
        match runtime_information.animation_state {
            AnimationState::Nothing => {
                runtime_information.animation_state = AnimationState::Play;
                runtime_information.next_phase();
                VisibilityChange::Start(
                    runtime_information.register_animation(self.id, self.animation_properties()),
                )
            },
            AnimationState::Play => {
                runtime_information.animation_state = AnimationState::Unwind;
                VisibilityChange::Reverse
            },
            AnimationState::Unwind => {
                runtime_information.animation_state = AnimationState::Play;
                VisibilityChange::Reverse
            },
        }
    }

    /// Handles the end of the running animation: the phase moves one step
    /// towards the visibility; at the resting phase the widget comes to rest
    /// and notifies, otherwise the animation of the new phase is registered.
    pub fn on_animation_finished(&self, runtime_information: &mut AVRuntimeInformation) -> (r:
        FinishAction)
        requires
            stepped_phase(old(runtime_information).phase, old(runtime_information).visible)
                != target_phase(old(runtime_information).visible) ==> self.has_animations(),
        ensures
            final(runtime_information).visible == old(runtime_information).visible,
            final(runtime_information).phase == stepped_phase(
                old(runtime_information).phase,
                old(runtime_information).visible,
            ),
            final(runtime_information).phase == target_phase(old(runtime_information).visible) ==> {
                &&& final(runtime_information).animation_state == AnimationState::Nothing
                &&& r == FinishAction::Rest(
                    if old(runtime_information).visible {
                        VisibilityNotice::Visible
                    } else {
                        VisibilityNotice::Hidden
                    },
                )
            },
            final(runtime_information).phase != target_phase(old(runtime_information).visible) ==> {
                &&& final(runtime_information).animation_state == old(runtime_information).animation_state
                &&& (r matches FinishAction::Continue(a) && registers(a, *final(runtime_information), *self))
            },
            runtime_consistent(*old(runtime_information)) ==> runtime_consistent(
                *final(runtime_information),
            ),
    {
        runtime_information.next_phase();
        if runtime_information.is_fully_finished() {
            runtime_information.animation_state = AnimationState::Nothing;
            let notice = match runtime_information.phase {
                VisibilityPhase::Showing => VisibilityNotice::Visible,
                _ => VisibilityNotice::Hidden,
            };
            FinishAction::Rest(notice)
        } else {
            FinishAction::Continue(
                runtime_information.register_animation(self.id, self.animation_properties()),
            )
        }
    }

    /// A rebuild asks for a new measure during the spatial change only.
    pub fn rebuild_status(runtime_information: &AVRuntimeInformation) -> (r: RebuildStatus)
        ensures
            r == (if runtime_information.phase == VisibilityPhase::SpatialChange {
                RebuildStatus::NeedsMeasure
            } else {
                RebuildStatus::NothingChanged
            }),
    {
        match runtime_information.phase {
            VisibilityPhase::SpatialChange => RebuildStatus::NeedsMeasure,
            _ => RebuildStatus::NothingChanged,
        }
    }

    /// The sizing mode: dynamic during the spatial change, else that of the
    /// child (`child_sizing_mode`), or fixed without a child.
    pub fn sizing_mode_with(
        &self,
        runtime_information: &AVRuntimeInformation,
        child_sizing_mode: Option<SizingMode>,
    ) -> (r: SizingMode)
        ensures
            r == (if runtime_information.phase == VisibilityPhase::SpatialChange {
                SizingMode::Dynamic
            } else {
                match (self.child, child_sizing_mode) {
                    (Some(_), Some(m)) => m,
                    _ => SizingMode::Fixed,
                }
            }),
    {
        match runtime_information.phase {
            VisibilityPhase::SpatialChange => SizingMode::Dynamic,
            _ => match (&self.child, child_sizing_mode) {
                (Some(_), Some(m)) => m,
                _ => SizingMode::Fixed,
            },
        }
    }

    /// How the extent that the child measured is scaled: by the easing of
    /// the current spatial change while it runs, to nothing while hidden.
    pub fn measure_scaling(runtime_information: &AVRuntimeInformation) -> (r: MeasureScaling)
        ensures
            r == (match runtime_information.phase {
                VisibilityPhase::SpatialChange => MeasureScaling::Eased(
                    appearance_of(runtime_information.visible, runtime_information.animation_state),
                ),
                VisibilityPhase::Hidden => MeasureScaling::Collapsed,
                _ => MeasureScaling::Unscaled,
            }),
    {
        match runtime_information.phase {
            VisibilityPhase::SpatialChange => MeasureScaling::Eased(
                runtime_information.resolve_animation_appearance(),
            ),
            VisibilityPhase::Hidden => MeasureScaling::Collapsed,
            _ => MeasureScaling::Unscaled,
        }
    }

    /// What is drawn: nothing while hidden or during the spatial change, the
    /// child through the current transition's filter during the transition,
    /// and the child itself while showing; nothing without a child.
    pub fn draw_plan(&self, runtime_information: &AVRuntimeInformation) -> (r: DrawPlan)
        ensures
            r == (match (runtime_information.phase, self.child) {
                (VisibilityPhase::Transition, Some(_)) => DrawPlan::Filtered(
                    appearance_of(runtime_information.visible, runtime_information.animation_state),
                ),
                (VisibilityPhase::Showing, Some(_)) => DrawPlan::Child,
                _ => DrawPlan::Nothing,
            }),
    {
        match (runtime_information.phase, &self.child) {
            (VisibilityPhase::Transition, Some(_)) => DrawPlan::Filtered(
                runtime_information.resolve_animation_appearance(),
            ),
            (VisibilityPhase::Showing, Some(_)) => DrawPlan::Child,
            _ => DrawPlan::Nothing,
        }
    }
}

} // verus!

verus! {

/// A callback of the widget that an event triggers.
#[derive(Clone, Copy, Debug, PartialEq, Eq, Structural)]
pub enum HoverCallback {
    OnHover,
    OnLeave,
}

/// A step of handling the pending events of the widget.
#[derive(Clone, Copy, Debug, PartialEq, Eq, Structural)]
pub enum EventStep {
    /// Call the widget's callback.
    Call(HoverCallback),
    /// Route the events on to the child.
    RouteToChild,
}

/// The callbacks that a sequence of events triggers, in order: entering
/// triggers `OnHover`, leaving triggers `OnLeave`, other events none.
pub open spec fn hover_steps_of(events: Seq<PendingEvent>) -> Seq<EventStep>
    decreases events.len(),
{
    if events.len() == 0 {
        Seq::empty()
    } else {
        hover_steps_of(events.drop_last()) + match events.last() {
            PendingEvent::HoverIn => seq![EventStep::Call(HoverCallback::OnHover)],
            PendingEvent::HoverOut => seq![EventStep::Call(HoverCallback::OnLeave)],
            PendingEvent::Other => Seq::<EventStep>::empty(),
        }
    }
}

impl<E, K> AnimatedVisibility<E, K> {
    /// The result of a hit test of the widget's content given the result of
    /// the child's own hit test, and whether the events go on to the child:
    /// a hit on the child routes the events to it; without a child the test
    /// misses.
    pub fn hit_test_content(&self, child_result: HitTestResult) -> (r: (HitTestResult, bool))
        ensures
            r == (match self.child {
                Some(_) => (child_result, child_result == HitTestResult::Hit),
                None => (HitTestResult::Missed, false),
            }),
    {
        match &self.child {
            Some(_) => match child_result {
                HitTestResult::Hit => (HitTestResult::Hit, true),
                HitTestResult::Missed => (HitTestResult::Missed, false),
                HitTestResult::Failed => (HitTestResult::Failed, false),
            },
            None => (HitTestResult::Missed, false),
        }
    }

    /// Handles the pending events: the callbacks they trigger are called in
    /// order, and then the events are routed on to the child, if any.
    pub fn handle_events(&self, pending_events: &Vec<PendingEvent>) -> (r: Vec<EventStep>)
        ensures
            r@ == hover_steps_of(pending_events@) + (if self.child is Some {
                seq![EventStep::RouteToChild]
            } else {
                Seq::<EventStep>::empty()
            }),
    {
        let mut steps: Vec<EventStep> = Vec::new();
        let mut i: usize = 0;
        while i < pending_events.len()
            invariant
                0 <= i <= pending_events.len(),
                steps@ == hover_steps_of(pending_events@.take(i as int)),
            decreases pending_events.len() - i,
        {
            match pending_events[i] {
                PendingEvent::HoverIn => steps.push(EventStep::Call(HoverCallback::OnHover)),
                PendingEvent::HoverOut => steps.push(EventStep::Call(HoverCallback::OnLeave)),
                PendingEvent::Other => {},
            }
            proof {
                let t = pending_events@.take(i + 1);
                assert(t.drop_last() =~= pending_events@.take(i as int));
                assert(t.last() == pending_events@[i as int]);
                assert(steps@ =~= hover_steps_of(t));
            }
            i = i + 1;
        }
        assert(pending_events@.take(i as int) =~= pending_events@);
        let ghost callbacks = steps@;
        if self.child.is_some() {
            steps.push(EventStep::RouteToChild);
        }
        assert(steps@ =~= callbacks + (if self.child is Some {
            seq![EventStep::RouteToChild]
        } else {
            Seq::<EventStep>::empty()
        }));
        steps
    }
}

} // verus!

verus! {

/// The visibility a widget starts with is the observed value of its
/// visibility state when it has one and the value is known, and visible
/// otherwise.
pub proof fn law_initial_visibility_follows_state<E, K>(
    w: AnimatedVisibility<E, K>,
    observed_visibility: Option<bool>,
)
    ensures
        w.visibility_state is Some && observed_visibility is Some ==> w.initial_visibility(
            observed_visibility,
        ) == observed_visibility->0,
        w.visibility_state is None || observed_visibility is None ==> w.initial_visibility(
            observed_visibility,
        ),
{
}

/// Initialising stores a runtime information whose visibility is the
/// observed value of the widget's state (visible without state or value):
/// a visible widget plays from the spatial change on and registers the
/// entering spatial change forward; a hidden one rests and registers
/// nothing.
pub proof fn law_init_stores_observed_visibility<E, K>(
    w: AnimatedVisibility<E, K>,
    observed_visibility: Option<bool>,
)
    requires
        w.has_animations(),
    ensures
        ({
            let v = if w.visibility_state is Some && observed_visibility is Some {
                observed_visibility->0
            } else {
                true
            };
            let steps = w.init_steps(observed_visibility);
            &&& exists|i: int|
                #![trigger steps[i]]
                0 <= i < steps.len() && (steps[i] matches InitStep::StoreRuntimeInformation(info)
                    && info.visible == v && (v ==> info.phase == VisibilityPhase::SpatialChange
                    && info.animation_state == AnimationState::Play) && (!v ==> info.phase
                    == VisibilityPhase::Hidden && info.animation_state == AnimationState::Nothing))
            &&& v ==> exists|j: int|
                #![trigger steps[j]]
                0 <= j < steps.len() && (steps[j] matches InitStep::RegisterAnimation(a) && a.id
                    == w.id && a.progress.duration == w.primary_spatial_change->0.duration
                    && a.progress.dirty_flags.needs_measure && a.progress.dirty_flags.needs_rebuild
                    && a.progress.direction == AnimationDirection::Forward)
            &&& !v ==> forall|j: int|
                #![trigger steps[j]]
                0 <= j < steps.len() ==> !(steps[j] is RegisterAnimation)
        }),
{
    let v = if w.visibility_state is Some && observed_visibility is Some {
        observed_visibility->0
    } else {
        true
    };
    assert(w.initial_visibility(observed_visibility) == v);
    let info = AnimatedVisibility::<E, K>::initial_runtime(v);
    let sub = match w.visibility_state {
        Some(s) => seq![InitStep::Subscribe(w.id, s)],
        None => Seq::<InitStep>::empty(),
    };
    let reg = match registration_for(info, w) {
        Some(a) => seq![InitStep::RegisterAnimation(a)],
        None => Seq::<InitStep>::empty(),
    };
    let ch = if w.child is Some {
        seq![InitStep::InitChild]
    } else {
        Seq::<InitStep>::empty()
    };
    let steps = w.init_steps(observed_visibility);
    assert(steps == sub + reg + seq![InitStep::StoreRuntimeInformation(info)] + ch);
    let i = sub.len() + reg.len();
    assert(steps[i as int] == InitStep::StoreRuntimeInformation(info));
    if v {
        assert(steps[sub.len() as int] == reg[0]);
    } else {
        assert(reg.len() == 0);
        assert forall|j: int| 0 <= j < steps.len() implies !(steps[j] is RegisterAnimation) by {
            if j < sub.len() {
                assert(steps[j] == sub[j]);
            } else if j == sub.len() {
            } else {
                assert(steps[j] == ch[j - sub.len() - 1]);
            }
        }
    }
}

/// The visibility changes exactly when the widget has a visibility state
/// and its observed value differs from the current visibility, whatever the
/// phase and the animation state.
pub proof fn law_visibility_change_when_value_differs<E, K>(
    w: AnimatedVisibility<E, K>,
    info: AVRuntimeInformation,
    v: bool,
)
    ensures
        w.changes_visibility(info, Some(v)) <==> (w.visibility_state is Some && v != info.visible),
        !w.changes_visibility(info, None),
{
}

/// The exit animations are the secondary ones whenever set, and the
/// primary ones only when unset, whatever the other fields of the widget.
pub proof fn law_exit_falls_back_to_primary<E, K>(w: AnimatedVisibility<E, K>)
    ensures
        w.secondary_animation matches Some(a) ==> w.exit_animation() == a,
        w.secondary_animation is None ==> w.exit_animation() == w.primary_animation->0,
        w.secondary_spatial_change matches Some(a) ==> w.exit_spatial_change() == a,
        w.secondary_spatial_change is None ==> w.exit_spatial_change()
            == w.primary_spatial_change->0,
{
}

/// Applying a style sets the four animations to the style's and leaves
/// every other field; a style of another kind of widget, or none, changes
/// nothing.
pub proof fn law_style_sets_animations<E, K>(
    w: AnimatedVisibility<E, K>,
    st: AnimatedVisibilityStyle<E, K>,
)
    ensures
        w.with_style(st).primary_animation == Some(st.primary_animation),
        w.with_style(st).secondary_animation == Some(st.secondary_animation),
        w.with_style(st).primary_spatial_change == Some(st.primary_spatial_change),
        w.with_style(st).secondary_spatial_change == Some(st.secondary_spatial_change),
        w.with_style(st).id == w.id,
        w.with_style(st).key == w.key,
        w.with_style(st).class == w.class,
        w.with_style(st).visibility_state == w.visibility_state,
        w.with_style(st).child == w.child,
        w.styled(None) == w,
        w.styled(Some(WidgetStyle::Other)) == w,
{
}

/// A playing or idle animation enters exactly when the widget becomes
/// visible, an unwinding one exactly when it becomes hidden; animations run
/// forward exactly towards visibility.
pub proof fn law_appearance_follows_visibility(visible: bool, state: AnimationState)
    ensures
        state != AnimationState::Unwind ==> (appearance_of(visible, state)
            == AnimationAppearance::Enter) == visible,
        state == AnimationState::Unwind ==> (appearance_of(visible, state)
            == AnimationAppearance::Enter) == !visible,
        (direction_of(visible) == AnimationDirection::Forward) == visible,
{
}

/// In a resting phase no animation is registered; during the spatial change
/// the spatial change of the current appearance is registered, invalidating
/// rebuild and measure; during the transition the transition of the current
/// appearance, invalidating the rebuild only. The entering definitions are
/// the primary ones; the direction is forward exactly when visible.
pub proof fn law_registration_by_phase<E, K>(info: AVRuntimeInformation, w: AnimatedVisibility<E, K>)
    ensures
        info.phase == VisibilityPhase::Hidden || info.phase == VisibilityPhase::Showing
            ==> registration_for(info, w) is None,
        info.phase == VisibilityPhase::SpatialChange ==> (registration_for(info, w) matches Some(a)
            && a.id == w.id && a.progress.dirty_flags.needs_rebuild
            && a.progress.dirty_flags.needs_measure && (a.progress.direction
            == AnimationDirection::Forward) == info.visible && a.progress.duration == (if appearance_of(
            info.visible,
            info.animation_state,
        ) == AnimationAppearance::Enter {
            w.primary_spatial_change->0.duration
        } else {
            w.exit_spatial_change().duration
        })),
        info.phase == VisibilityPhase::Transition ==> (registration_for(info, w) matches Some(a)
            && a.id == w.id && a.progress.dirty_flags.needs_rebuild
            && !a.progress.dirty_flags.needs_measure && (a.progress.direction
            == AnimationDirection::Forward) == info.visible && a.progress.duration == (if appearance_of(
            info.visible,
            info.animation_state,
        ) == AnimationAppearance::Enter {
            w.primary_animation->0.duration
        } else {
            w.exit_animation().duration
        })),
{
}

/// The steps of a batch of events are those of its parts in order: each
/// event's callback is called at its place in the batch.
pub proof fn law_hover_steps_compose(a: Seq<PendingEvent>, b: Seq<PendingEvent>)
    ensures
        hover_steps_of(a + b) == hover_steps_of(a) + hover_steps_of(b),
    decreases b.len(),
{
    if b.len() == 0 {
        assert(a + b =~= a);
        assert(hover_steps_of(a) + hover_steps_of(b) =~= hover_steps_of(a));
    } else {
        law_hover_steps_compose(a, b.drop_last());
        assert((a + b).drop_last() =~= a + b.drop_last());
        assert((a + b).last() == b.last());
        let tail = match b.last() {
            PendingEvent::HoverIn => seq![EventStep::Call(HoverCallback::OnHover)],
            PendingEvent::HoverOut => seq![EventStep::Call(HoverCallback::OnLeave)],
            PendingEvent::Other => Seq::<EventStep>::empty(),
        };
        assert(hover_steps_of(a + b) == hover_steps_of(a + b.drop_last()) + tail);
        assert(hover_steps_of(b) == hover_steps_of(b.drop_last()) + tail);
        assert(hover_steps_of(a + b) =~= hover_steps_of(a) + hover_steps_of(b));
    }
}

/// Whether a step calls the given callback.
pub open spec fn is_call(c: HoverCallback) -> spec_fn(EventStep) -> bool {
    |s: EventStep| s == EventStep::Call(c)
}

/// Whether an event is the given one.
pub open spec fn is_event(e: PendingEvent) -> spec_fn(PendingEvent) -> bool {
    |x: PendingEvent| x == e
}

proof fn lemma_filter_single<A>(x: A, p: spec_fn(A) -> bool)
    ensures
        seq![x].filter(p).len() == if p(x) {
            1int
        } else {
            0int
        },
{
    reveal(Seq::filter);
    assert(Seq::<A>::empty().filter(p) =~= Seq::<A>::empty());
    Seq::<A>::empty().lemma_filter_push(x, p);
    assert(Seq::<A>::empty().push(x) =~= seq![x]);
}

/// Every event of a batch in which the pointer leaves the widget calls
/// `OnLeave` once, and every one in which it enters calls `OnHover` once,
/// wherever it stands in the batch; other events call nothing, and all the
/// steps are calls.
pub proof fn law_each_hover_event_calls_once(events: Seq<PendingEvent>)
    ensures
        hover_steps_of(events).filter(is_call(HoverCallback::OnLeave)).len() == events.filter(
            is_event(PendingEvent::HoverOut),
        ).len(),
        hover_steps_of(events).filter(is_call(HoverCallback::OnHover)).len() == events.filter(
            is_event(PendingEvent::HoverIn),
        ).len(),
        hover_steps_of(events).len() + events.filter(is_event(PendingEvent::Other)).len()
            == events.len(),
        forall|i: int|
            #![trigger hover_steps_of(events)[i]]
            0 <= i < hover_steps_of(events).len() ==> hover_steps_of(events)[i] is Call,
    decreases events.len(),
{
    reveal(Seq::filter);
    if events.len() > 0 {
        let t = events.drop_last();
        let l = events.last();
        law_each_hover_event_calls_once(t);
        let tail = match l {
            PendingEvent::HoverIn => seq![EventStep::Call(HoverCallback::OnHover)],
            PendingEvent::HoverOut => seq![EventStep::Call(HoverCallback::OnLeave)],
            PendingEvent::Other => Seq::<EventStep>::empty(),
        };
        let h = hover_steps_of(t);
        assert(hover_steps_of(events) == h + tail);
        Seq::filter_distributes_over_add(h, tail, is_call(HoverCallback::OnLeave));
        Seq::filter_distributes_over_add(h, tail, is_call(HoverCallback::OnHover));
        assert(t.push(l) =~= events);
        t.lemma_filter_push(l, is_event(PendingEvent::HoverOut));
        t.lemma_filter_push(l, is_event(PendingEvent::HoverIn));
        t.lemma_filter_push(l, is_event(PendingEvent::Other));
        if tail.len() == 1 {
            lemma_filter_single(tail[0], is_call(HoverCallback::OnLeave));
            lemma_filter_single(tail[0], is_call(HoverCallback::OnHover));
            assert(tail =~= seq![tail[0]]);
        } else {
            assert(tail.filter(is_call(HoverCallback::OnLeave)) =~= Seq::<EventStep>::empty());
            assert(tail.filter(is_call(HoverCallback::OnHover)) =~= Seq::<EventStep>::empty());
        }
        assert forall|i: int| 0 <= i < hover_steps_of(events).len() implies hover_steps_of(
            events,
        )[i] is Call by {
            if i < h.len() {
                assert(hover_steps_of(events)[i] == h[i]);
            } else {
                assert(hover_steps_of(events)[i] == tail[i - h.len()]);
            }
        }
    } else {
        assert(events.filter(is_event(PendingEvent::HoverOut)) =~= Seq::<PendingEvent>::empty());
        assert(events.filter(is_event(PendingEvent::HoverIn)) =~= Seq::<PendingEvent>::empty());
        assert(events.filter(is_event(PendingEvent::Other)) =~= Seq::<PendingEvent>::empty());
        assert(hover_steps_of(events).filter(is_call(HoverCallback::OnLeave))
            =~= Seq::<EventStep>::empty());
        assert(hover_steps_of(events).filter(is_call(HoverCallback::OnHover))
            =~= Seq::<EventStep>::empty());
    }
}

} // verus!
