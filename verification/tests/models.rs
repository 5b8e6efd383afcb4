use libre_pvz::animation::{Action, AnimDesc, Frame, Meta, Track};
use libre_pvz::bits::F32Bits;
use libre_pvz::cached::{Cached, SortedSlice};
use libre_pvz::curve::Segment;
use libre_pvz::ecs::{Duration, Entity};
use libre_pvz::model::{
    apply_null_trigger, cool_down_tick_system, default_blending, is_one, is_slice_empty, is_zero_duration, one,
    state_transition_animation, transition_trigger_response, Attachment, CoolDown, Model, ModelState, SpawnError,
    State, StateTransition, StateTransitionEvent, TransitionTrigger, TriggerOutcome,
};

fn f(x: f32) -> F32Bits {
    F32Bits(x.to_bits())
}

fn transition(trigger: Option<&str>, dest: &str, blending_ms: u64) -> StateTransition {
    StateTransition {
        trigger: trigger.map(|t| t.to_string()),
        cool_down: Duration { nanos: 0 },
        dest: Cached::from(dest.to_string()),
        blending: Duration::from_millis(blending_ms),
    }
}

fn state(name: &str, meta: &str, frame_rate: Option<F32Bits>, transitions: Vec<StateTransition>) -> State {
    State {
        name: name.to_string(),
        frame_rate,
        cool_down: Duration { nanos: 0 },
        hidden_tracks: vec![],
        state_meta: Cached::from(meta.to_string()),
        transitions: SortedSlice::from(transitions),
    }
}

fn sample_model() -> Model {
    Model {
        animation: Cached::from("Peashooter.anim".to_string()),
        markers: vec!["Plant".to_string()],
        states: SortedSlice::from(vec![
            state("idle", "anim_idle", None, vec![transition(Some("shoot"), "shooting", 200), transition(None, "idle", 0)]),
            state("shooting", "anim_shooting", Some(f(24.0)), vec![transition(None, "idle", 0)]),
        ]),
        default_state: Cached::from("idle".to_string()),
        attachments: SortedSlice::from(vec![Attachment {
            target_track: "anim_stem".to_string(),
            child_model: Cached::from("PeashooterHead.model".to_string()),
        }]),
    }
}

fn meta(name: &str, start: u16, end: u16) -> Meta {
    Meta { name: name.to_string(), start_frame: start, end_frame: end }
}

fn sample_animation() -> AnimDesc {
    AnimDesc {
        fps: f(12.0),
        meta: SortedSlice::from(vec![meta("anim_shooting", 3, 5), meta("anim_idle", 1, 2)]),
        tracks: vec![
            Track { name: "body".to_string(), frames: vec![Frame(vec![]), Frame(vec![]), Frame(vec![]), Frame(vec![])] },
            Track {
                name: "anim_stem".to_string(),
                frames: vec![
                    Frame(vec![]),
                    Frame(vec![Action::Alpha(f(1.0)), Action::Translation([f(3.0), f(-4.0)]), Action::Translation([f(9.0), f(9.0)])]),
                    Frame(vec![]),
                ],
            },
        ],
    }
}

#[test]
fn defaults() {
    assert_eq!(one(), 1);
    assert!(is_one(&1));
    assert!(!is_one(&2));
    assert!(is_slice_empty::<u8>(&[]));
    assert!(!is_slice_empty(&[1]));
    assert_eq!(default_blending().nanos, 200_000_000);
    assert!(is_zero_duration(&Duration { nanos: 0 }));
    assert!(!is_zero_duration(&Duration::from_millis(1)));
}

#[test]
fn cool_down_ready_depletes() {
    let mut c = CoolDown::default();
    assert_eq!(c.elapsed().nanos, 0);
    c.tick(Duration::from_millis(300));
    assert!(!c.ready_for(Duration::from_millis(300)));
    assert_eq!(c.elapsed().nanos, 300_000_000);
    assert!(c.ready_for(Duration::from_millis(100)));
    assert_eq!(c.elapsed().nanos, 200_000_000);
    assert!(c.ready_for(Duration { nanos: 0 }));
    assert!(!c.ready_for(Duration::from_millis(250)));
}

#[test]
fn cool_down_system_ticks_all() {
    let mut all = vec![CoolDown::default(), CoolDown::default()];
    all[1].tick(Duration { nanos: 5 });
    cool_down_tick_system(&mut all, Duration { nanos: 10 });
    assert_eq!(all[0].elapsed().nanos, 10);
    assert_eq!(all[1].elapsed().nanos, 15);
}

#[test]
fn trigger_takes_transition() {
    let model = sample_model();
    let mut st = ModelState::new(7, 0);
    let trigger = TransitionTrigger { target_entity: Entity(42), trigger: Some("shoot".to_string()), permissive: false };
    let outcome = transition_trigger_response(&model, &mut st, &trigger);
    assert_eq!(
        outcome,
        TriggerOutcome::Transition(StateTransitionEvent { target_entity: Entity(42), previous_state: 0, transition_index: 1 })
    );
    assert_eq!(st.current_state, 1);
    assert_eq!(st.model(), 7);
}

#[test]
fn unknown_trigger() {
    let model = sample_model();
    let mut st = ModelState::new(7, 1);
    let strict = TransitionTrigger { target_entity: Entity(1), trigger: Some("jump".to_string()), permissive: false };
    assert_eq!(transition_trigger_response(&model, &mut st, &strict), TriggerOutcome::Unknown);
    let lax = TransitionTrigger { target_entity: Entity(1), trigger: Some("jump".to_string()), permissive: true };
    assert_eq!(transition_trigger_response(&model, &mut st, &lax), TriggerOutcome::Ignored);
    assert_eq!(st.current_state, 1);
}

#[test]
fn null_trigger_sorted_first() {
    let model = sample_model();
    let t = apply_null_trigger(&model, Entity(3), &ModelState::new(0, 0)).unwrap();
    assert_eq!(t.target_entity, Entity(3));
    assert_eq!(t.trigger, None);
    assert!(!t.permissive);
    let mut without = sample_model();
    without.states = SortedSlice::from(vec![state("idle", "anim_idle", None, vec![transition(Some("a"), "idle", 0)])]);
    assert!(apply_null_trigger(&without, Entity(3), &ModelState::new(0, 0)).is_none());
}

#[test]
fn animation_after_transition() {
    let model = sample_model();
    let anim = sample_animation();
    let event = StateTransitionEvent { target_entity: Entity(1), previous_state: 0, transition_index: 1 };
    let plan = state_transition_animation(&model, &anim, 1, &event);
    assert_eq!(plan.frame_rate, f(24.0));
    assert_eq!(plan.segment, Segment { start: 3, end: 5 });
    assert_eq!(plan.blending.map(|d| d.nanos), Some(200_000_000));
    let back = StateTransitionEvent { target_entity: Entity(1), previous_state: 1, transition_index: 0 };
    let plan = state_transition_animation(&model, &anim, 0, &back);
    assert_eq!(plan.frame_rate, f(12.0));
    assert_eq!(plan.segment, Segment { start: 1, end: 2 });
    assert!(plan.blending.is_none());
}

#[test]
fn spawn_plan_attaches_children() {
    let model = sample_model();
    let anim = sample_animation();
    let plan = model.spawn_plan(&anim).unwrap();
    assert_eq!(plan.current_state, 0);
    assert_eq!(plan.segment, Segment { start: 1, end: 2 });
    // "idle" has no frame rate of its own: the animation's
    assert_eq!(plan.frame_rate, f(12.0));
    assert!(plan.cool_down);
    assert_eq!(plan.attachments.len(), 1);
    let a = plan.attachments[0].unwrap();
    assert_eq!(a.track, 1);
    assert_eq!(a.translation, [f(-3.0), f(4.0)]);
}

#[test]
fn spawn_plan_errors() {
    let mut model = sample_model();
    model.default_state = Cached::from("dead".to_string());
    assert_eq!(model.spawn_plan(&sample_animation()).unwrap_err(), SpawnError::UnknownDefaultState);
    let mut model = sample_model();
    model.states = SortedSlice::from(vec![state("idle", "anim_missing", None, vec![])]);
    assert_eq!(model.spawn_plan(&sample_animation()).unwrap_err(), SpawnError::UnknownMeta);
}

#[test]
fn spawn_plan_without_target_or_cool_down() {
    let mut model = sample_model();
    model.states = SortedSlice::from(vec![state("idle", "anim_idle", None, vec![])]);
    model.attachments = SortedSlice::from(vec![Attachment {
        target_track: "no_such_track".to_string(),
        child_model: Cached::from("x.model".to_string()),
    }]);
    let plan = model.spawn_plan(&sample_animation()).unwrap();
    assert!(!plan.cool_down);
    assert!(plan.attachments[0].is_none());
}

#[test]
fn attachment_without_translation_sits_at_origin() {
    let model = sample_model();
    let mut anim = sample_animation();
    anim.tracks[1].frames[1] = Frame(vec![Action::Alpha(f(1.0))]);
    let plan = model.spawn_plan(&anim).unwrap();
    assert_eq!(plan.attachments[0].unwrap().translation, [F32Bits(0), F32Bits(0)]);
}

#[test]
fn spawn_plan_uses_state_frame_rate() {
    let mut model = sample_model();
    model.default_state = Cached::from("shooting".to_string());
    model.attachments = SortedSlice::from(vec![]);
    let plan = model.spawn_plan(&sample_animation()).unwrap();
    assert_eq!(plan.current_state, 1);
    assert_eq!(plan.segment, Segment { start: 3, end: 5 });
    assert_eq!(plan.frame_rate, f(24.0));
}
