use widgets::visibility::VisibilityPhase;

#[test]
fn showing_walks_the_chain_forward() {
    let mut phase = VisibilityPhase::default();
    assert_eq!(phase, VisibilityPhase::Hidden);
    phase.next_phase(true);
    assert_eq!(phase, VisibilityPhase::SpatialChange);
    phase.next_phase(true);
    assert_eq!(phase, VisibilityPhase::Transition);
    phase.next_phase(true);
    assert_eq!(phase, VisibilityPhase::Showing);
    phase.next_phase(true);
    assert_eq!(phase, VisibilityPhase::Showing);
}

#[test]
fn hiding_walks_the_chain_backward() {
    let mut phase = VisibilityPhase::Showing;
    phase.next_phase(false);
    assert_eq!(phase, VisibilityPhase::Transition);
    phase.next_phase(false);
    assert_eq!(phase, VisibilityPhase::SpatialChange);
    phase.next_phase(false);
    assert_eq!(phase, VisibilityPhase::Hidden);
    phase.next_phase(false);
    assert_eq!(phase, VisibilityPhase::Hidden);
}

#[test]
fn fix_restarts_interrupted_phases() {
    let mut phase = VisibilityPhase::Transition;
    phase.fix_with_visibility(true);
    assert_eq!(phase, VisibilityPhase::Hidden);
    let mut phase = VisibilityPhase::SpatialChange;
    phase.fix_with_visibility(false);
    assert_eq!(phase, VisibilityPhase::Showing);
    let mut phase = VisibilityPhase::Showing;
    phase.fix_with_visibility(true);
    assert_eq!(phase, VisibilityPhase::Showing);
    let mut phase = VisibilityPhase::Hidden;
    phase.fix_with_visibility(true);
    assert_eq!(phase, VisibilityPhase::Hidden);
}

#[test]
fn fully_finished_only_at_target() {
    assert!(VisibilityPhase::Showing.is_fully_finished(true));
    assert!(VisibilityPhase::Hidden.is_fully_finished(false));
    assert!(!VisibilityPhase::Hidden.is_fully_finished(true));
    assert!(!VisibilityPhase::Transition.is_fully_finished(true));
    assert!(!VisibilityPhase::SpatialChange.is_fully_finished(false));
    assert!(!VisibilityPhase::Showing.is_fully_finished(false));
}

#[test]
fn any_phase_rests_within_three_steps() {
    for start in [
        VisibilityPhase::Hidden,
        VisibilityPhase::SpatialChange,
        VisibilityPhase::Transition,
        VisibilityPhase::Showing,
    ] {
        for visible in [true, false] {
            let mut phase = start;
            for _ in 0..3 {
                phase.next_phase(visible);
            }
            assert!(phase.is_fully_finished(visible));
        }
    }
}
