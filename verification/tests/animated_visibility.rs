use std::time::Duration;

use widgets::animated_visibility::{
    AVRuntimeInformation, AnimatedVisibility, AnimationAppearance, AnimationDefinition,
    AnimationProperties, AnimationState, DrawPlan, FinishAction, MeasureScaling,
    SpatialChangeDefinition, VisibilityChange, VisibilityNotice,
};
use widgets::types::{
    AnimationDirection, RebuildStatus, SizingMode, WidgetClass, WidgetKey,
};
use widgets::visibility::VisibilityPhase;
use widgets::widget::{WidgetEnum, WidgetGetType, WidgetInformation};
use widgets::tree::{Get, GetCarefully};
use widgets::animated_visibility::{
    AnimatedVisibilityStyle, EventStep, HoverCallback, InitStep, WidgetStyle,
};
use widgets::types::{HitTestResult, PendingEvent};

fn anim(ms: u64) -> AnimationDefinition<&'static str, &'static str> {
    AnimationDefinition { easing: "linear", duration: Duration::from_millis(ms), kind: "fade" }
}

fn spatial(ms: u64) -> SpatialChangeDefinition<&'static str> {
    SpatialChangeDefinition { easing: "ease", duration: Duration::from_millis(ms) }
}

fn widget(state: Option<u64>, secondary: bool) -> AnimatedVisibility<&'static str, &'static str> {
    AnimatedVisibility {
        id: 7,
        key: Some(WidgetKey { name: "av".to_string() }),
        class: WidgetClass { name: String::new() },
        visibility_state: state,
        primary_animation: Some(anim(100)),
        secondary_animation: if secondary { Some(anim(200)) } else { None },
        primary_spatial_change: Some(spatial(10)),
        secondary_spatial_change: if secondary { Some(spatial(20)) } else { None },
        child: None,
    }
}

fn info(visible: bool, phase: VisibilityPhase, state: AnimationState) -> AVRuntimeInformation {
    AVRuntimeInformation { visible, phase, animation_state: state }
}

#[test]
fn init_without_state_is_visible_and_plays() {
    let mut w = widget(None, true);
    let steps = w.on_init(None, Some(false));
    assert_eq!(steps.len(), 2);
    match &steps[0] {
        InitStep::RegisterAnimation(a) => {
            assert_eq!(a.id, 7);
            assert_eq!(a.progress.duration, Duration::from_millis(10));
            assert!(a.progress.dirty_flags.needs_rebuild);
            assert!(a.progress.dirty_flags.needs_measure);
            assert_eq!(a.progress.direction, AnimationDirection::Forward);
        }
        _ => panic!("expected the registration first"),
    }
    match &steps[1] {
        InitStep::StoreRuntimeInformation(i) => {
            assert!(i.visible);
            assert_eq!(i.phase, VisibilityPhase::SpatialChange);
            assert_eq!(i.animation_state, AnimationState::Play);
        }
        _ => panic!("expected the runtime information"),
    }
}

#[test]
fn init_hidden_state_rests() {
    let mut w = widget(Some(3), true);
    let steps = w.on_init(None, Some(false));
    assert_eq!(steps.len(), 2);
    assert!(matches!(steps[0], InitStep::Subscribe(7, 3)));
    match &steps[1] {
        InitStep::StoreRuntimeInformation(i) => {
            assert!(!i.visible);
            assert_eq!(i.phase, VisibilityPhase::Hidden);
            assert_eq!(i.animation_state, AnimationState::Nothing);
        }
        _ => panic!("expected the runtime information"),
    }
}

#[test]
fn init_state_without_value_is_visible() {
    let mut w = widget(Some(3), true);
    let steps = w.on_init(None, None);
    assert_eq!(steps.len(), 3);
    assert!(matches!(steps[0], InitStep::Subscribe(7, 3)));
    assert!(matches!(steps[1], InitStep::RegisterAnimation(_)));
    assert!(matches!(&steps[2], InitStep::StoreRuntimeInformation(i) if i.visible));
}

#[test]
fn init_child_comes_after_storing() {
    let mut w = widget(Some(3), true);
    w.child = Some(WidgetEnum::AnimatedVisibility(Box::new(widget(None, false))));
    let steps = w.on_init(None, Some(false));
    assert_eq!(steps.len(), 3);
    assert!(matches!(steps[1], InitStep::StoreRuntimeInformation(_)));
    assert!(matches!(steps[2], InitStep::InitChild));
}

#[test]
fn init_applies_style_first() {
    let mut w = widget(None, false);
    w.primary_animation = None;
    w.primary_spatial_change = None;
    let style = AnimatedVisibilityStyle {
        primary_animation: anim(300),
        secondary_animation: anim(400),
        primary_spatial_change: spatial(30),
        secondary_spatial_change: spatial(40),
    };
    let steps = w.on_init(Some(WidgetStyle::AnimatedVisibility(style)), None);
    match &steps[0] {
        InitStep::RegisterAnimation(a) => assert_eq!(a.progress.duration, Duration::from_millis(30)),
        _ => panic!("expected the registration"),
    }
    assert_eq!(w.animation_properties().exit_animation.duration, Duration::from_millis(400));
}

#[test]
fn style_update_replaces_animations() {
    let mut w = widget(None, false);
    w.on_style_update(WidgetStyle::Other);
    assert_eq!(w.animation_properties().exit_animation.duration, Duration::from_millis(100));
    w.on_style_update(WidgetStyle::AnimatedVisibility(AnimatedVisibilityStyle {
        primary_animation: anim(1),
        secondary_animation: anim(2),
        primary_spatial_change: spatial(3),
        secondary_spatial_change: spatial(4),
    }));
    let p = w.animation_properties();
    assert_eq!(p.enter_animation.duration, Duration::from_millis(1));
    assert_eq!(p.exit_animation.duration, Duration::from_millis(2));
    assert_eq!(p.enter_spatial_change.duration, Duration::from_millis(3));
    assert_eq!(p.exit_spatial_change.duration, Duration::from_millis(4));
}

#[test]
fn animation_properties_fall_back_to_primary() {
    let w = widget(None, false);
    let p = w.animation_properties();
    assert_eq!(p.exit_animation.duration, Duration::from_millis(100));
    assert_eq!(p.exit_spatial_change.duration, Duration::from_millis(10));
    let w = widget(None, true);
    let p = w.animation_properties();
    assert_eq!(p.enter_animation.duration, Duration::from_millis(100));
    assert_eq!(p.exit_animation.duration, Duration::from_millis(200));
    assert_eq!(p.enter_spatial_change.duration, Duration::from_millis(10));
    assert_eq!(p.exit_spatial_change.duration, Duration::from_millis(20));
}

#[test]
fn resolve_picks_by_appearance() {
    let a = anim(1);
    let b = anim(2);
    let c = spatial(3);
    let d = spatial(4);
    let p = AnimationProperties {
        enter_animation: &a,
        exit_animation: &b,
        enter_spatial_change: &c,
        exit_spatial_change: &d,
    };
    assert_eq!(p.resolve_animation(AnimationAppearance::Enter).duration, Duration::from_millis(1));
    assert_eq!(p.resolve_animation(AnimationAppearance::Exit).duration, Duration::from_millis(2));
    assert_eq!(p.resolve_spatical_change(AnimationAppearance::Enter).duration, Duration::from_millis(3));
    assert_eq!(p.resolve_spatical_change(AnimationAppearance::Exit).duration, Duration::from_millis(4));
}

#[test]
fn appearance_table() {
    assert_eq!(info(true, VisibilityPhase::Hidden, AnimationState::Nothing).resolve_animation_appearance(), AnimationAppearance::Enter);
    assert_eq!(info(true, VisibilityPhase::Hidden, AnimationState::Play).resolve_animation_appearance(), AnimationAppearance::Enter);
    assert_eq!(info(true, VisibilityPhase::Hidden, AnimationState::Unwind).resolve_animation_appearance(), AnimationAppearance::Exit);
    assert_eq!(info(false, VisibilityPhase::Hidden, AnimationState::Nothing).resolve_animation_appearance(), AnimationAppearance::Exit);
    assert_eq!(info(false, VisibilityPhase::Hidden, AnimationState::Play).resolve_animation_appearance(), AnimationAppearance::Exit);
    assert_eq!(info(false, VisibilityPhase::Hidden, AnimationState::Unwind).resolve_animation_appearance(), AnimationAppearance::Enter);
}

#[test]
fn runtime_target_and_finish() {
    let i = info(true, VisibilityPhase::Transition, AnimationState::Play);
    assert_eq!(i.visibility_as_target_phase(), VisibilityPhase::Showing);
    assert!(!i.is_fully_finished());
    let mut i = i;
    i.next_phase();
    assert_eq!(i.phase, VisibilityPhase::Showing);
    assert!(i.is_fully_finished());
    let h = info(false, VisibilityPhase::Hidden, AnimationState::Nothing);
    assert_eq!(h.visibility_as_target_phase(), VisibilityPhase::Hidden);
    assert!(h.is_fully_finished());
}

#[test]
fn register_in_transition_uses_exit_animation_when_hiding() {
    let w = widget(None, true);
    let i = info(false, VisibilityPhase::Transition, AnimationState::Play);
    let a = i.register_animation(7, w.animation_properties()).expect("registered");
    assert_eq!(a.progress.duration, Duration::from_millis(200));
    assert!(a.progress.dirty_flags.needs_rebuild);
    assert!(!a.progress.dirty_flags.needs_measure);
    assert_eq!(a.progress.direction, AnimationDirection::Backward);
}

#[test]
fn register_at_rest_registers_nothing() {
    let w = widget(None, true);
    let i = info(true, VisibilityPhase::Showing, AnimationState::Nothing);
    assert!(i.register_animation(7, w.animation_properties()).is_none());
    let i = info(false, VisibilityPhase::Hidden, AnimationState::Nothing);
    assert!(i.register_animation(7, w.animation_properties()).is_none());
}

#[test]
fn visibility_change_starts_idle_widget() {
    let w = widget(Some(1), true);
    let mut i = info(true, VisibilityPhase::Showing, AnimationState::Nothing);
    match w.on_visibility_change(&mut i, Some(false)) {
        VisibilityChange::Start(Some(a)) => {
            assert_eq!(a.progress.duration, Duration::from_millis(200));
            assert_eq!(a.progress.direction, AnimationDirection::Backward);
        }
        _ => panic!("expected a started animation"),
    }
    assert!(!i.visible);
    assert_eq!(i.phase, VisibilityPhase::Transition);
    assert_eq!(i.animation_state, AnimationState::Play);
}

#[test]
fn visibility_change_reverses_running_animation() {
    let w = widget(Some(1), true);
    let mut i = info(true, VisibilityPhase::Transition, AnimationState::Play);
    let before = i.resolve_animation_appearance();
    assert!(matches!(w.on_visibility_change(&mut i, Some(false)), VisibilityChange::Reverse));
    assert_eq!(i.animation_state, AnimationState::Unwind);
    assert_eq!(i.phase, VisibilityPhase::Transition);
    assert_eq!(i.resolve_animation_appearance(), before);
    assert!(matches!(w.on_visibility_change(&mut i, Some(true)), VisibilityChange::Reverse));
    assert_eq!(i.animation_state, AnimationState::Play);
}

#[test]
fn visibility_change_ignores_same_or_unknown_value() {
    let w = widget(Some(1), true);
    let mut i = info(true, VisibilityPhase::Showing, AnimationState::Nothing);
    assert!(matches!(w.on_visibility_change(&mut i, Some(true)), VisibilityChange::Unchanged));
    assert!(matches!(w.on_visibility_change(&mut i, None), VisibilityChange::Unchanged));
    let w = widget(None, true);
    assert!(matches!(w.on_visibility_change(&mut i, Some(false)), VisibilityChange::Unchanged));
    assert!(i.visible);
}

#[test]
fn finished_animation_continues_then_rests() {
    let w = widget(Some(1), true);
    let mut i = info(true, VisibilityPhase::SpatialChange, AnimationState::Play);
    match w.on_animation_finished(&mut i) {
        FinishAction::Continue(Some(a)) => assert_eq!(a.progress.duration, Duration::from_millis(100)),
        _ => panic!("expected the transition"),
    }
    assert_eq!(i.phase, VisibilityPhase::Transition);
    match w.on_animation_finished(&mut i) {
        FinishAction::Rest(notice) => assert_eq!(notice, VisibilityNotice::Visible),
        _ => panic!("expected rest"),
    }
    assert_eq!(i.phase, VisibilityPhase::Showing);
    assert_eq!(i.animation_state, AnimationState::Nothing);
}

#[test]
fn unwound_animation_rests_hidden() {
    let w = widget(Some(1), true);
    let mut i = info(false, VisibilityPhase::SpatialChange, AnimationState::Unwind);
    match w.on_animation_finished(&mut i) {
        FinishAction::Rest(notice) => assert_eq!(notice, VisibilityNotice::Hidden),
        _ => panic!("expected rest"),
    }
    assert_eq!(i.phase, VisibilityPhase::Hidden);
}

#[test]
fn rebuild_status_measures_during_spatial_change() {
    type W = AnimatedVisibility<&'static str, &'static str>;
    let s = info(true, VisibilityPhase::SpatialChange, AnimationState::Play);
    assert_eq!(W::rebuild_status(&s), RebuildStatus::NeedsMeasure);
    let t = info(true, VisibilityPhase::Transition, AnimationState::Play);
    assert_eq!(W::rebuild_status(&t), RebuildStatus::NothingChanged);
}

#[test]
fn measure_scaling_by_phase() {
    type W = AnimatedVisibility<&'static str, &'static str>;
    let s = info(false, VisibilityPhase::SpatialChange, AnimationState::Play);
    assert_eq!(W::measure_scaling(&s), MeasureScaling::Eased(AnimationAppearance::Exit));
    let h = info(false, VisibilityPhase::Hidden, AnimationState::Nothing);
    assert_eq!(W::measure_scaling(&h), MeasureScaling::Collapsed);
    let v = info(true, VisibilityPhase::Showing, AnimationState::Nothing);
    assert_eq!(W::measure_scaling(&v), MeasureScaling::Unscaled);
}

#[test]
fn sizing_and_drawing_follow_child() {
    let mut outer = widget(None, true);
    let t = info(true, VisibilityPhase::Transition, AnimationState::Play);
    let s = info(true, VisibilityPhase::SpatialChange, AnimationState::Play);
    let v = info(true, VisibilityPhase::Showing, AnimationState::Nothing);
    assert_eq!(outer.draw_plan(&t), DrawPlan::Nothing);
    assert_eq!(outer.sizing_mode_with(&v, Some(SizingMode::Dynamic)), SizingMode::Fixed);
    outer.child = Some(WidgetEnum::AnimatedVisibility(Box::new(widget(None, false))));
    assert_eq!(outer.draw_plan(&t), DrawPlan::Filtered(AnimationAppearance::Enter));
    assert_eq!(outer.draw_plan(&v), DrawPlan::Child);
    assert_eq!(outer.draw_plan(&s), DrawPlan::Nothing);
    assert_eq!(outer.sizing_mode_with(&v, Some(SizingMode::Dynamic)), SizingMode::Dynamic);
    assert_eq!(outer.sizing_mode_with(&v, Some(SizingMode::Fixed)), SizingMode::Fixed);
    assert_eq!(outer.sizing_mode_with(&s, Some(SizingMode::Fixed)), SizingMode::Dynamic);
}

#[test]
fn widget_information_and_enum() {
    let mut w = widget(None, true);
    assert_eq!(w.get_type(), "animated_visibility");
    assert_eq!(w.get_id(), 7);
    assert_eq!(w.get(), 7);
    w.set_id(9);
    assert_eq!(w.get_id(), 9);
    assert_eq!(w.get_key().map(|k| k.name.clone()), Some("av".to_string()));
    assert_eq!(w.get_carefully().map(|k| k.name.clone()), Some("av".to_string()));
    let mut e: WidgetEnum<&'static str, &'static str> = w.into();
    assert_eq!(e.get_type(), "animated_visibility");
    assert_eq!(e.get_id(), 9);
    e.set_id(11);
    assert_eq!(e.get_id(), 11);
    assert!(e.get_class().name.is_empty());
}

#[test]
fn hover_events_trigger_callbacks_in_order() {
    let events = vec![
        PendingEvent::Other,
        PendingEvent::HoverIn,
        PendingEvent::Other,
        PendingEvent::HoverOut,
        PendingEvent::HoverIn,
    ];
    let mut w = widget(None, true);
    assert_eq!(
        w.handle_events(&events),
        vec![
            EventStep::Call(HoverCallback::OnHover),
            EventStep::Call(HoverCallback::OnLeave),
            EventStep::Call(HoverCallback::OnHover),
        ]
    );
    assert!(w.handle_events(&vec![]).is_empty());
    w.child = Some(WidgetEnum::AnimatedVisibility(Box::new(widget(None, false))));
    assert_eq!(
        w.handle_events(&events),
        vec![
            EventStep::Call(HoverCallback::OnHover),
            EventStep::Call(HoverCallback::OnLeave),
            EventStep::Call(HoverCallback::OnHover),
            EventStep::RouteToChild,
        ]
    );
    assert_eq!(w.handle_events(&vec![]), vec![EventStep::RouteToChild]);
}

#[test]
fn hit_test_routes_hits_to_child() {
    let mut w = widget(None, true);
    assert_eq!(w.hit_test_content(HitTestResult::Hit), (HitTestResult::Missed, false));
    w.child = Some(WidgetEnum::AnimatedVisibility(Box::new(widget(None, false))));
    assert_eq!(w.hit_test_content(HitTestResult::Hit), (HitTestResult::Hit, true));
    assert_eq!(w.hit_test_content(HitTestResult::Missed), (HitTestResult::Missed, false));
    assert_eq!(w.hit_test_content(HitTestResult::Failed), (HitTestResult::Failed, false));
}
