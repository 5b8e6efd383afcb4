//! Models: an animation together with a state machine over its meta tracks, attachments of
//! child models to its tracks, and the cool-down timers of state transitions.

use vstd::prelude::*;
use crate::bits::{F32Bits, ZERO_BITS, spec_negate};
use crate::cached::{Cached, ContainerWithKey, EntryWithKey, SortedSlice, has_entry_with_key, key_view};
use crate::animation::{Action, ActionView, AnimDesc, Meta, RawVec2};
use crate::action::_Translation;
use crate::optics::AffineFoldRef;
use crate::curve::Segment;
use crate::ecs::{Duration, Entity, MAX_DURATION_NANOS};
use crate::reanim::opt_view;
use crate::stream::views;

verus! {

/// Default width and breadth of a plant: one grid.
pub fn one() -> (r: u8)
    ensures
        r == 1,
{
    1
}

/// Is this the default width or breadth (one grid)?
pub fn is_one(x: &u8) -> (r: bool)
    ensures
        r == (*x == 1),
{
    *x == 1
}

/// Is the slice empty?
pub fn is_slice_empty<T>(x: &[T]) -> (r: bool)
    ensures
        r == (x@.len() == 0),
{
    x.len() == 0
}

/// Default blending duration of a transition: 200 milliseconds.
pub fn default_blending() -> (d: Duration)
    ensures
        d.nanos == 200_000_000,
{
    Duration::from_millis(200)
}

/// Is the duration zero?
pub fn is_zero_duration(duration: &Duration) -> (r: bool)
    ensures
        r == (duration.nanos == 0),
{
    duration.is_zero()
}

/// Model of a [`StateTransition`].
pub struct StateTransitionView {
    /// Trigger.
    pub trigger: Option<Seq<char>>,
    /// Cool down time.
    pub cool_down: u128,
    /// Name of the destination state.
    pub dest: Seq<char>,
    /// Blending duration.
    pub blending: u128,
}

/// Transition from one state to another.
#[derive(Debug)]
pub struct StateTransition {
    /// Triggering condition for this transition. [`None`] means this transition should be
    /// automatically triggered immediately the cool-down completes (or when the animation finishes
    /// if [`cool_down`] is set to zero). See also [`cool_down`].
    ///
    /// [`cool_down`]: StateTransition::cool_down
    pub trigger: Option<String>,
    /// Cool down time before this state transition can happen. If `cool_down` is zero, the
    /// transition happens whenever the [`trigger`] is received. If additionally [`trigger`] is set
    /// to [`None`], we wait until the animation finishes playing.
    ///
    /// This value overrides the global value [`State::cool_down`].
    ///
    /// [`trigger`]: StateTransition::trigger
    pub cool_down: Duration,
    /// Destination for this transition.
    pub dest: Cached<String, usize>,
    /// Duration for the blending.
    pub blending: Duration,
}

impl View for StateTransition {
    type V = StateTransitionView;

    open spec fn view(&self) -> StateTransitionView {
        StateTransitionView {
            trigger: opt_view(self.trigger),
            cool_down: self.cool_down.nanos,
            dest: self.dest.raw_key@,
            blending: self.blending.nanos,
        }
    }
}

impl EntryWithKey for StateTransition {
    open spec fn spec_key(&self) -> Option<Seq<char>> {
        opt_view(self.trigger)
    }

    fn key(&self) -> (k: Option<&str>) {
        match &self.trigger {
            Some(t) => Some(t.as_str()),
            None => None,
        }
    }
}

/// Model of a [`State`].
pub struct StateView {
    /// Name.
    pub name: Seq<char>,
    /// Frame rate override.
    pub frame_rate: Option<F32Bits>,
    /// Cool down time.
    pub cool_down: u128,
    /// Hidden tracks.
    pub hidden_tracks: Seq<Seq<char>>,
    /// Name of the meta track.
    pub state_meta: Seq<char>,
    /// Transitions, sorted by trigger.
    pub transitions: Seq<StateTransitionView>,
}

/// State controls the appearance and behaviours.
#[derive(Debug)]
pub struct State {
    /// Name of this state.
    pub name: String,
    /// Override the frame rate in this state. [`None`] for using the value in the animation.
    pub frame_rate: Option<F32Bits>,
    /// Cool down time before any state transition can happen.
    pub cool_down: Duration,
    /// These tracks should be hidden in this state.
    pub hidden_tracks: Vec<String>,
    /// This state correspond to this meta range in the animation.
    pub state_meta: Cached<String, usize>,
    /// Transitions leaving this state.
    pub transitions: SortedSlice<StateTransition>,
}

impl View for State {
    type V = StateView;

    open spec fn view(&self) -> StateView {
        StateView {
            name: self.name@,
            frame_rate: self.frame_rate,
            cool_down: self.cool_down.nanos,
            hidden_tracks: views(self.hidden_tracks@),
            state_meta: self.state_meta.raw_key@,
            transitions: views(self.transitions.entries()),
        }
    }
}

impl EntryWithKey for State {
    open spec fn spec_key(&self) -> Option<Seq<char>> {
        Some(self.name@)
    }

    fn key(&self) -> (k: Option<&str>) {
        Some(self.name.as_str())
    }
}

/// Model of an [`Attachment`].
pub struct AttachmentView {
    /// Target track.
    pub target_track: Seq<char>,
    /// Raw name of the child model.
    pub child_model: Seq<char>,
}

/// Attachment, useful for separating different movable parts in a single entity.
#[derive(Debug)]
pub struct Attachment {
    /// Target track to which this model is attached.
    pub target_track: String,
    /// The model to be attached, with the handle of the loaded model once known.
    pub child_model: Cached<String, u64>,
}

impl View for Attachment {
    type V = AttachmentView;

    open spec fn view(&self) -> AttachmentView {
        AttachmentView { target_track: self.target_track@, child_model: self.child_model.raw_key@ }
    }
}

impl EntryWithKey for Attachment {
    open spec fn spec_key(&self) -> Option<Seq<char>> {
        Some(self.target_track@)
    }

    fn key(&self) -> (k: Option<&str>) {
        Some(self.target_track.as_str())
    }
}

/// Plant meta information.
#[derive(Debug)]
pub struct PlantMeta {
    /// Width, number of grids taken by this plant, along the X axis (1 by default).
    pub width: u8,
    /// Breadth, number of grids taken by this plant, along the Y axis (1 by default).
    pub breadth: u8,
    /// Model of this plant, with the handle of the loaded model once known.
    pub model: Cached<String, u64>,
}

/// Model: animation together with its association.
#[derive(Debug)]
pub struct Model {
    /// Animation, the all-in-one source, with the handle of the loaded animation once known.
    pub animation: Cached<String, u64>,
    /// Marker components for instances of this model.
    pub markers: Vec<String>,
    /// State machine for this model. Sorted by name.
    pub states: SortedSlice<State>,
    /// Default state, or start-up state.
    pub default_state: Cached<String, usize>,
    /// Attachment models.
    pub attachments: SortedSlice<Attachment>,
}

/// Is the handle cached for a key (if any) the right one for the container?
pub open spec fn cached_in<C: ContainerWithKey<Handle = usize>>(c: Cached<String, usize>, container: C) -> bool {
    c.cached matches Some(h) ==> container.valid_handle(h) && container.key_at(h) == Some(c.raw_key@)
}

/// Does the key name an entry of the container, with a right cached handle if any?
pub open spec fn resolvable_in<C: ContainerWithKey<Handle = usize>>(c: Cached<String, usize>, container: C) -> bool {
    &&& cached_in(c, container)
    &&& container.contains_key(Some(c.raw_key@))
}

/// Is `h` the index of a state with the given name?
pub open spec fn names_state(states: SortedSlice<State>, h: usize, name: Seq<char>) -> bool {
    h < states.entries().len() && states.entries()[h as int].name@ == name
}

impl Model {
    /// Every transition leads to an existing state (and caches the right index, if any).
    pub open spec fn transitions_resolvable(&self) -> bool {
        forall|i: int, j: int|
            0 <= i < self.states.entries().len() && 0 <= j < self.states.entries()[i].transitions.entries().len()
                ==> resolvable_in(#[trigger] self.states.entries()[i].transitions.entries()[j].dest, self.states)
    }
}

/// Cool down component for state transitions: the time elapsed since the last transition that
/// it allowed.
#[derive(Debug, Clone, Copy)]
pub struct CoolDown {
    elapsed: Duration,
}

impl CoolDown {
    /// Time accumulated in this cool down timer.
    pub closed spec fn spec_elapsed(self) -> u128 {
        self.elapsed.nanos
    }

    /// Time accumulated in this cool down timer.
    pub fn elapsed(&self) -> (d: Duration)
        ensures
            d.nanos == self.spec_elapsed(),
    {
        self.elapsed
    }

    /// Are we already cooled down enough for this action? If tested positive, the respective
    /// cool down time is depleted from this cool down timer.
    ///
    /// **Note:** tests for readiness should be performed in priority order, because cool down time
    /// is accumulated automatically in the background, and automatically depleted by this method
    /// when the test succeeds.
    pub fn ready_for(&mut self, duration: Duration) -> (ready: bool)
        ensures
            ready == (old(self).spec_elapsed() > duration.nanos),
            final(self).spec_elapsed() == if ready {
                old(self).spec_elapsed() - duration.nanos
            } else {
                old(self).spec_elapsed() as int
            },
    {
        let ready = self.elapsed.nanos > duration.nanos;
        if ready {
            self.elapsed = Duration { nanos: self.elapsed.nanos - duration.nanos };
        }
        ready
    }

    /// Accumulate time in the timer.
    pub fn tick(&mut self, delta: Duration)
        requires
            old(self).spec_elapsed() + delta.nanos <= MAX_DURATION_NANOS,
        ensures
            final(self).spec_elapsed() == old(self).spec_elapsed() + delta.nanos,
    {
        self.elapsed = Duration { nanos: self.elapsed.nanos + delta.nanos };
    }
}

impl Default for CoolDown {
    fn default() -> (c: CoolDown)
        ensures
            c.spec_elapsed() == 0,
    {
        CoolDown { elapsed: Duration { nanos: 0 } }
    }
}

/// Tick the cool down timers by the time elapsed since the last frame.
pub fn cool_down_tick_system(cool_downs: &mut Vec<CoolDown>, delta: Duration)
    requires
        forall|i: int| 0 <= i < old(cool_downs)@.len() ==> #[trigger] old(cool_downs)@[i].spec_elapsed() + delta.nanos <= MAX_DURATION_NANOS,
    ensures
        final(cool_downs)@.len() == old(cool_downs)@.len(),
        forall|i: int| 0 <= i < final(cool_downs)@.len() ==> #[trigger] final(cool_downs)@[i].spec_elapsed() == old(cool_downs)@[i].spec_elapsed() + delta.nanos,
{
    let n: usize = cool_downs.len();
    let mut i: usize = 0;
    while i < n
        invariant
            n == cool_downs@.len(),
            n == old(cool_downs)@.len(),
            i <= n,
            forall|j: int| 0 <= j < i ==> #[trigger] cool_downs@[j].spec_elapsed() == old(cool_downs)@[j].spec_elapsed() + delta.nanos,
            forall|j: int| i <= j < n ==> #[trigger] cool_downs@[j] == old(cool_downs)@[j],
            forall|j: int| 0 <= j < n ==> #[trigger] old(cool_downs)@[j].spec_elapsed() + delta.nanos <= MAX_DURATION_NANOS,
        decreases n - i,
    {
        let mut c = cool_downs[i];
        c.tick(delta);
        cool_downs.set(i, c);
        i = i + 1;
    }
}

/// Keep track of the current state of the model.
#[derive(Debug, Clone, Copy)]
pub struct ModelState {
    /// Handle of the parent model.
    pub model: u64,
    /// Current state index into [`Model::states`].
    pub current_state: usize,
}

impl ModelState {
    /// A model instance in the given state.
    pub fn new(model: u64, current_state: usize) -> (s: ModelState)
        ensures
            s.model == model,
            s.current_state == current_state,
    {
        ModelState { model, current_state }
    }

    /// Get the parent model of this model state.
    pub fn model(&self) -> (m: u64)
        ensures
            m == self.model,
    {
        self.model
    }
}

/// Request to trigger a [`ModelState`] transition.
#[derive(Debug)]
pub struct TransitionTrigger {
    /// The trigger will try to take effect on this [`Entity`].
    pub target_entity: Entity,
    /// The trigger, as specified in [`StateTransition::trigger`].
    pub trigger: Option<String>,
    /// Normally, if the current state does not recognize the `trigger`, an error will be emitted
    /// as log message. If `permissive` is `true`, this will not be treated as an error.
    pub permissive: bool,
}

/// Automatically apply the [`None`] trigger for the respective model.
#[derive(Debug, Clone, Copy, Default)]
pub struct AutoNullTrigger;

/// [`ModelState`] transition events.
#[derive(Debug, Clone, Copy, PartialEq, Eq, Structural)]
pub struct StateTransitionEvent {
    /// The entity on which this state transition happened.
    pub target_entity: Entity,
    /// Previous state index into [`Model::states`].
    pub previous_state: usize,
    /// Index of the transition it took to reach the current state.
    pub transition_index: usize,
}

/// What a trigger did to a model instance.
#[derive(Debug, Clone, Copy, PartialEq, Eq, Structural)]
pub enum TriggerOutcome {
    /// The state changed by this transition.
    Transition(StateTransitionEvent),
    /// The current state has no transition for the trigger, and this is an error.
    Unknown,
    /// The current state has no transition for the trigger, and the trigger was permissive.
    Ignored,
}

/// Respond to a [`TransitionTrigger`] by performing the state transition that the current
/// state has for it, if any.
pub fn transition_trigger_response(model: &Model, state: &mut ModelState, trigger: &TransitionTrigger) -> (r: TriggerOutcome)
    requires
        old(state).current_state < model.states.entries().len(),
        model.transitions_resolvable(),
    ensures
        final(state).model == old(state).model,
        ({
            let transitions = model.states.entries()[old(state).current_state as int].transitions.entries();
            if has_entry_with_key(transitions, opt_view(trigger.trigger)) {
                &&& r matches TriggerOutcome::Transition(ev)
                &&& ev.target_entity == trigger.target_entity
                &&& ev.previous_state == old(state).current_state
                &&& ev.transition_index < transitions.len()
                &&& transitions[ev.transition_index as int].spec_key() == opt_view(trigger.trigger)
                &&& names_state(model.states, final(state).current_state, transitions[ev.transition_index as int].dest.raw_key@)
            } else {
                &&& *final(state) == *old(state)
                &&& r == if trigger.permissive { TriggerOutcome::Ignored } else { TriggerOutcome::Unknown }
            }
        }),
{
    let ghost cur = state.current_state as int;
    let current_state = &model.states.as_slice()[state.current_state];
    let key = match &trigger.trigger {
        Some(t) => Some(t.as_str()),
        None => None,
    };
    match current_state.transitions.get_by_key(key) {
        Some(k) => {
            let event = StateTransitionEvent {
                target_entity: trigger.target_entity,
                previous_state: state.current_state,
                transition_index: k,
            };
            let trans = &current_state.transitions.as_slice()[k];
            assert(resolvable_in(model.states.entries()[cur].transitions.entries()[k as int].dest, model.states));
            match trans.dest.handle_in(&model.states) {
                Some(h) => {
                    state.current_state = h;
                },
                None => {
                    assert(false);
                },
            }
            TriggerOutcome::Transition(event)
        },
        None => {
            if trigger.permissive {
                TriggerOutcome::Ignored
            } else {
                TriggerOutcome::Unknown
            }
        },
    }
}

/// Automatically apply the [`None`] trigger if required: the current state of the instance has
/// a transition without a trigger (which, sorted first, is its first transition).
pub fn apply_null_trigger(model: &Model, instance: Entity, state: &ModelState) -> (r: Option<TransitionTrigger>)
    requires
        state.current_state < model.states.entries().len(),
    ensures
        ({
            let transitions = model.states.entries()[state.current_state as int].transitions.entries();
            if has_entry_with_key(transitions, None) {
                &&& r matches Some(t)
                &&& t.target_entity == instance
                &&& t.trigger is None
                &&& !t.permissive
            } else {
                r is None
            }
        }),
{
    let transitions = &model.states.as_slice()[state.current_state].transitions;
    proof {
        use_type_invariant(transitions);
        lemma_null_transition_first(*transitions);
    }
    if transitions.len() > 0 && transitions.as_slice()[0].trigger.is_none() {
        Some(TransitionTrigger { target_entity: instance, trigger: None, permissive: false })
    } else {
        None
    }
}

/// In sorted entries, an entry without a key, if there is one, comes first.
pub proof fn lemma_null_transition_first(transitions: SortedSlice<StateTransition>)
    requires
        transitions.sorted(),
    ensures
        has_entry_with_key(transitions.entries(), None) <==> (transitions.entries().len() > 0
            && transitions.entries()[0].trigger is None),
{
    let es = transitions.entries();
    if has_entry_with_key(es, None) {
        let j = choose|j: int| 0 <= j < es.len() && #[trigger] es[j].spec_key() == None::<Seq<char>>;
        if j > 0 {
            assert(crate::cached::key_le(es[0].spec_key(), es[j].spec_key()));
        }
    }
    if es.len() > 0 && es[0].trigger is None {
        assert(es[0].spec_key() == None::<Seq<char>>);
    }
}

/// How to play the animation after a state transition.
#[derive(Debug, Clone, Copy)]
pub struct PlayPlan {
    /// Frame rate: the new state's own, or else the animation's.
    pub frame_rate: F32Bits,
    /// The meta range of the new state.
    pub segment: Segment,
    /// Blending duration, when the transition blends.
    pub blending: Option<Duration>,
}

/// Reflect the state transition to animation transition: what to play after a transition from
/// `event.previous_state` (taking `event.transition_index`) to `current_state`.
pub fn state_transition_animation(model: &Model, anim: &AnimDesc, current_state: usize, event: &StateTransitionEvent) -> (p: PlayPlan)
    requires
        event.previous_state < model.states.entries().len(),
        event.transition_index < model.states.entries()[event.previous_state as int].transitions.entries().len(),
        current_state < model.states.entries().len(),
        names_state(
            model.states,
            current_state,
            model.states.entries()[event.previous_state as int].transitions.entries()[event.transition_index as int].dest.raw_key@,
        ),
        resolvable_in(model.states.entries()[current_state as int].state_meta, anim.meta),
    ensures
        ({
            let state = model.states.entries()[current_state as int];
            let transition = model.states.entries()[event.previous_state as int].transitions.entries()[event.transition_index as int];
            &&& p.frame_rate == match state.frame_rate {
                Some(r) => r,
                None => anim.fps,
            }
            &&& exists|k: int| 0 <= k < anim.meta.entries().len()
                && #[trigger] anim.meta.entries()[k].name@ == state.state_meta.raw_key@
                && p.segment == (Segment { start: anim.meta.entries()[k].start_frame, end: anim.meta.entries()[k].end_frame })
            &&& p.blending == if transition.blending.nanos != 0 { Some(transition.blending) } else { None::<Duration> }
        }),
{
    let previous = &model.states.as_slice()[event.previous_state];
    let transition = &previous.transitions.as_slice()[event.transition_index];
    let state = &model.states.as_slice()[current_state];
    let frame_rate = match state.frame_rate {
        Some(r) => r,
        None => anim.fps,
    };
    let k = match state.state_meta.handle_in(&anim.meta) {
        Some(k) => k,
        None => {
            assert(false);
            0
        },
    };
    let meta = &anim.meta.as_slice()[k];
    let segment = Segment::from(meta);
    let blending = if !transition.blending.is_zero() {
        Some(transition.blending)
    } else {
        None
    };
    assert(anim.meta.entries()[k as int].name@ == state.state_meta.raw_key@);
    PlayPlan { frame_rate, segment, blending }
}

/// The first translation among the actions of a frame.
pub open spec fn first_translation(actions: Seq<ActionView>) -> Option<(F32Bits, F32Bits)>
    decreases actions.len(),
{
    if actions.len() == 0 {
        None
    } else {
        match actions[0] {
            ActionView::Translation(x, y) => Some((x, y)),
            _ => first_translation(actions.drop_first()),
        }
    }
}

/// Where a child model sits relative to the track it is attached to: the opposite of the
/// track's first translation in the given frame, or the origin if there is none.
pub open spec fn attachment_offset(actions: Seq<ActionView>) -> (F32Bits, F32Bits) {
    match first_translation(actions) {
        Some((x, y)) => (F32Bits(spec_negate(x.0)), F32Bits(spec_negate(y.0))),
        None => (F32Bits(ZERO_BITS), F32Bits(ZERO_BITS)),
    }
}

/// Does some attachment of the model target a track of this name?
pub open spec fn is_attachment_target(model: &Model, name: Seq<char>) -> bool {
    has_entry_with_key(model.attachments.entries(), Some(name))
}

/// Could the meta track `k` be the one that the model starts in: the meta of a state named as
/// the default state?
pub open spec fn may_start_in(model: &Model, anim: &AnimDesc, k: int) -> bool {
    exists|h: int|
        0 <= h < model.states.entries().len()
            && #[trigger] model.states.entries()[h].name@ == model.default_state.raw_key@
            && model.states.entries()[h].state_meta.raw_key@ == anim.meta.entries()[k].name@
}

/// What spawning needs of the data: cached handles are right; no two tracks of the same name
/// are attachment targets; and every attachment target has the frame the model starts at.
pub open spec fn spawnable(model: &Model, anim: &AnimDesc) -> bool {
    &&& cached_in(model.default_state, model.states)
    &&& forall|h: int| 0 <= h < model.states.entries().len() ==> cached_in(#[trigger] model.states.entries()[h].state_meta, anim.meta)
    &&& forall|n1: int, n2: int|
        0 <= n1 < n2 < anim.tracks@.len() && #[trigger] anim.tracks@[n1].name@ == #[trigger] anim.tracks@[n2].name@
            ==> !is_attachment_target(model, anim.tracks@[n1].name@)
    &&& forall|n: int, k: int|
        0 <= n < anim.tracks@.len() && is_attachment_target(model, #[trigger] anim.tracks@[n].name@)
            && 0 <= k < anim.meta.entries().len() && may_start_in(model, anim, k)
            ==> #[trigger] anim.meta.entries()[k].start_frame < anim.tracks@[n].frames@.len()
}

/// Where and how to attach a child model.
#[derive(Debug, Clone, Copy)]
pub struct AttachmentPlan {
    /// Index of the target track.
    pub track: usize,
    /// Translation of the child model relative to the track.
    pub translation: RawVec2,
}

/// How to spawn an instance of a model.
#[derive(Debug)]
pub struct SpawnPlan {
    /// Index of the state to start in.
    pub current_state: usize,
    /// Meta range of that state, to play.
    pub segment: Segment,
    /// Frame rate to play at: the state's own, or else the animation's.
    pub frame_rate: F32Bits,
    /// Does the instance need a cool down timer (more than one state, or some transition)?
    pub cool_down: bool,
    /// For each attachment, in order: where to attach it, if its target track exists.
    pub attachments: Vec<Option<AttachmentPlan>>,
}

/// Why a model cannot be spawned.
#[derive(Debug, Clone, Copy, PartialEq, Eq, Structural)]
pub enum SpawnError {
    /// No state has the name of the default state.
    UnknownDefaultState,
    /// The meta track of the default state does not exist in the animation.
    UnknownMeta,
}

/// Offset of a child model attached to a track whose frame has these actions.
fn attachment_translation(actions: &Vec<Action>) -> (t: RawVec2)
    ensures
        t@[0] == attachment_offset(views(actions@)).0,
        t@[1] == attachment_offset(views(actions@)).1,
{
    let mut i: usize = 0;
    assert(views(actions@).skip(0) =~= views(actions@));
    while i < actions.len()
        invariant
            i <= actions@.len(),
            first_translation(views(actions@)) == first_translation(views(actions@).skip(i as int)),
        decreases actions@.len() - i,
    {
        assert(views(actions@).skip(i as int)[0] == actions@[i as int]@);
        assert(views(actions@).skip(i as int).drop_first() =~= views(actions@).skip(i + 1));
        if let Ok(v) = _Translation.preview_ref(&actions[i]) {
            return [v[0].negate(), v[1].negate()];
        }
        i = i + 1;
    }
    [F32Bits::zero(), F32Bits::zero()]
}

impl Model {
    /// Plan the spawning of an instance of this model, playing the given animation: start in the
    /// default state, play its meta range, and attach each child model to the track it targets.
    pub fn spawn_plan(&self, anim: &AnimDesc) -> (r: Result<SpawnPlan, SpawnError>)
        requires
            spawnable(self, anim),
        ensures
            !has_entry_with_key(self.states.entries(), Some(self.default_state.raw_key@)) ==> r
                == Err::<SpawnPlan, SpawnError>(SpawnError::UnknownDefaultState),
            has_entry_with_key(self.states.entries(), Some(self.default_state.raw_key@)) ==> r
                != Err::<SpawnPlan, SpawnError>(SpawnError::UnknownDefaultState),
            r == Err::<SpawnPlan, SpawnError>(SpawnError::UnknownMeta) ==> exists|h: int|
                #![trigger self.states.entries()[h]]
                names_state(self.states, h as usize, self.default_state.raw_key@) && 0 <= h
                    && !has_entry_with_key(anim.meta.entries(), Some(self.states.entries()[h].state_meta.raw_key@)),
            has_entry_with_key(self.states.entries(), Some(self.default_state.raw_key@)) && (forall|h: int|
                #![trigger self.states.entries()[h]]
                0 <= h < self.states.entries().len() && self.states.entries()[h].name@ == self.default_state.raw_key@
                    ==> !has_entry_with_key(anim.meta.entries(), Some(self.states.entries()[h].state_meta.raw_key@))) ==> r
                == Err::<SpawnPlan, SpawnError>(SpawnError::UnknownMeta),
            has_entry_with_key(self.states.entries(), Some(self.default_state.raw_key@)) && (forall|h: int|
                #![trigger self.states.entries()[h]]
                0 <= h < self.states.entries().len() && self.states.entries()[h].name@ == self.default_state.raw_key@
                    ==> has_entry_with_key(anim.meta.entries(), Some(self.states.entries()[h].state_meta.raw_key@))) ==> r is Ok,
            r matches Ok(plan) ==> {
                let state = self.states.entries()[plan.current_state as int];
                &&& names_state(self.states, plan.current_state, self.default_state.raw_key@)
                &&& exists|k: int|
                    0 <= k < anim.meta.entries().len() && #[trigger] anim.meta.entries()[k].name@ == state.state_meta.raw_key@
                        && plan.segment == (Segment { start: anim.meta.entries()[k].start_frame, end: anim.meta.entries()[k].end_frame })
                &&& plan.frame_rate == match state.frame_rate {
                    Some(fr) => fr,
                    None => anim.fps,
                }
                &&& plan.cool_down == (self.states.entries().len() > 1 || state.transitions.entries().len() > 0)
                &&& plan.attachments@.len() == self.attachments.entries().len()
                &&& forall|a: int| #![trigger plan.attachments@[a]] 0 <= a < plan.attachments@.len() ==> match plan.attachments@[a] {
                    Some(p) => {
                        &&& p.track < anim.tracks@.len()
                        &&& anim.tracks@[p.track as int].name@ == self.attachments.entries()[a].target_track@
                        &&& plan.segment.start < anim.tracks@[p.track as int].frames@.len()
                        &&& p.translation@[0] == attachment_offset(anim.tracks@[p.track as int]@.frames[plan.segment.start as int]).0
                        &&& p.translation@[1] == attachment_offset(anim.tracks@[p.track as int]@.frames[plan.segment.start as int]).1
                    },
                    None => {
                        ||| forall|n: int| 0 <= n < anim.tracks@.len() ==> #[trigger] anim.tracks@[n].name@ != self.attachments.entries()[a].target_track@
                        ||| exists|b: int| 0 <= b < plan.attachments@.len() && b != a
                            && #[trigger] self.attachments.entries()[b].target_track@ == self.attachments.entries()[a].target_track@
                    },
                }
                &&& forall|n: int|
                    0 <= n < anim.tracks@.len() && is_attachment_target(self, #[trigger] anim.tracks@[n].name@)
                        ==> exists|a: int| 0 <= a < plan.attachments@.len() && (#[trigger] plan.attachments@[a] matches Some(p) && p.track == n)
            },
    {
        let current_state = match self.default_state.handle_in(&self.states) {
            Some(h) => h,
            None => return Err(SpawnError::UnknownDefaultState),
        };
        let state = &self.states.as_slice()[current_state];
        let k = match state.state_meta.handle_in(&anim.meta) {
            Some(k) => k,
            None => return Err(SpawnError::UnknownMeta),
        };
        let segment = Segment::from(&anim.meta.as_slice()[k]);
        assert(may_start_in(self, anim, k as int));
        let targets = self.attachment_targets(anim);
        let nt: usize = anim.tracks.len();
        let cool_down = self.states.len() > 1 || state.transitions.len() > 0;
        let mut attachments: Vec<Option<AttachmentPlan>> = Vec::new();
        let mut a: usize = 0;
        while a < targets.len()
            invariant
                a <= targets@.len(),
                targets@.len() == self.attachments.entries().len(),
                nt == anim.tracks@.len(),
                attachments@.len() == a,
                spawnable(self, anim),
                may_start_in(self, anim, k as int),
                k < anim.meta.entries().len(),
                segment == (Segment { start: anim.meta.entries()[k as int].start_frame, end: anim.meta.entries()[k as int].end_frame }),
                names_state(self.states, current_state, self.default_state.raw_key@),
                anim.meta.entries()[k as int].name@ == self.states.entries()[current_state as int].state_meta.raw_key@,
                cool_down == (self.states.entries().len() > 1 || self.states.entries()[current_state as int].transitions.entries().len() > 0),
                forall|b: int| 0 <= b < targets@.len() ==> match #[trigger] targets@[b] {
                    Some(n) => n < anim.tracks@.len() && anim.tracks@[n as int].name@ == self.attachments.entries()[b].target_track@,
                    None => {
                        ||| forall|x: int| 0 <= x < anim.tracks@.len() ==> #[trigger] anim.tracks@[x].name@ != self.attachments.entries()[b].target_track@
                        ||| exists|c: int| 0 <= c < targets@.len() && c != b
                            && #[trigger] self.attachments.entries()[c].target_track@ == self.attachments.entries()[b].target_track@
                    },
                },
                forall|n: int|
                    0 <= n < anim.tracks@.len() && is_attachment_target(self, #[trigger] anim.tracks@[n].name@)
                        ==> exists|a: int| 0 <= a < targets@.len() && #[trigger] targets@[a] == Some(n as usize),
                forall|b: int| #![trigger attachments@[b]] 0 <= b < a ==> match attachments@[b] {
                    Some(p) => {
                        &&& targets@[b] == Some(p.track)
                        &&& segment.start < anim.tracks@[p.track as int].frames@.len()
                        &&& p.translation@[0] == attachment_offset(anim.tracks@[p.track as int]@.frames[segment.start as int]).0
                        &&& p.translation@[1] == attachment_offset(anim.tracks@[p.track as int]@.frames[segment.start as int]).1
                    },
                    None => targets@[b] is None,
                },
            decreases targets@.len() - a,
        {
            match targets[a] {
                Some(n) => {
                    assert(self.attachments.entries()[a as int].spec_key() == Some(anim.tracks@[n as int].name@));
                    assert(is_attachment_target(self, anim.tracks@[n as int].name@));
                    let frame = &anim.tracks[n].frames[segment.start as usize];
                    let translation = attachment_translation(&frame.0);
                    assert(anim.tracks@[n as int]@.frames[segment.start as int] == frame@);
                    attachments.push(Some(AttachmentPlan { track: n, translation }));
                },
                None => {
                    attachments.push(None);
                },
            }
            a = a + 1;
        }
        proof {
            assert forall|n: int|
                0 <= n < anim.tracks@.len() && is_attachment_target(self, #[trigger] anim.tracks@[n].name@)
                    implies exists|a: int| 0 <= a < attachments@.len() && (#[trigger] attachments@[a] matches Some(p) && p.track == n) by {
                let a = choose|a: int| 0 <= a < targets@.len() && #[trigger] targets@[a] == Some(n as usize);
                assert(targets@[a] is Some);
                assert(attachments@[a] is Some);
            }
        }
        let frame_rate = match state.frame_rate {
            Some(fr) => fr,
            None => anim.fps,
        };
        Ok(SpawnPlan { current_state, segment, frame_rate, cool_down, attachments })
    }

    /// For each attachment, the track that it targets, if any: the track whose name the lookup
    /// of attachments by name gives that attachment for.
    fn attachment_targets(&self, anim: &AnimDesc) -> (targets: Vec<Option<usize>>)
        requires
            spawnable(self, anim),
        ensures
            targets@.len() == self.attachments.entries().len(),
            forall|b: int| 0 <= b < targets@.len() ==> match #[trigger] targets@[b] {
                Some(n) => n < anim.tracks@.len() && anim.tracks@[n as int].name@ == self.attachments.entries()[b].target_track@,
                None => {
                    ||| forall|x: int| 0 <= x < anim.tracks@.len() ==> #[trigger] anim.tracks@[x].name@ != self.attachments.entries()[b].target_track@
                    ||| exists|c: int| 0 <= c < targets@.len() && c != b
                        && #[trigger] self.attachments.entries()[c].target_track@ == self.attachments.entries()[b].target_track@
                },
            },
            forall|n: int|
                0 <= n < anim.tracks@.len() && is_attachment_target(self, #[trigger] anim.tracks@[n].name@)
                    ==> exists|a: int| 0 <= a < targets@.len() && #[trigger] targets@[a] == Some(n as usize),
    {
        let m: usize = self.attachments.len();
        let mut targets: Vec<Option<usize>> = Vec::new();
        while targets.len() < m
            invariant
                targets@.len() <= m,
                forall|b: int| 0 <= b < targets@.len() ==> #[trigger] targets@[b] is None,
            decreases m - targets@.len(),
        {
            targets.push(None);
        }
        let tracks = &anim.tracks;
        let mut n: usize = 0;
        while n < tracks.len()
            invariant
                m == self.attachments.entries().len(),
                targets@.len() == m,
                n <= tracks@.len(),
                *tracks == anim.tracks,
                spawnable(self, anim),
                forall|b: int| 0 <= b < m ==> match #[trigger] targets@[b] {
                    Some(t) => t < n && tracks@[t as int].name@ == self.attachments.entries()[b].target_track@,
                    None => forall|u: int| 0 <= u < n && #[trigger] tracks@[u].name@ == self.attachments.entries()[b].target_track@
                        ==> exists|c: int| 0 <= c < m && c != b && #[trigger] targets@[c] == Some(u as usize),
                },
                forall|t: int|
                    0 <= t < n && is_attachment_target(self, #[trigger] tracks@[t].name@)
                        ==> exists|a: int| 0 <= a < m && #[trigger] targets@[a] == Some(t as usize),
            decreases tracks@.len() - n,
        {
            let name = tracks[n].name.as_str();
            match self.attachments.get_by_key(Some(name)) {
                Some(a) => {
                    proof {
                        if let Some(t) = targets@[a as int] {
                            assert(tracks@[t as int].name@ == tracks@[n as int].name@);
                            assert(is_attachment_target(self, tracks@[n as int].name@));
                            assert(false);
                        }
                    }
                    let ghost old_targets = targets@;
                    targets.set(a, Some(n));
                    proof {
                        assert forall|b: int| 0 <= b < m implies match #[trigger] targets@[b] {
                            Some(t) => t < n + 1 && tracks@[t as int].name@ == self.attachments.entries()[b].target_track@,
                            None => forall|u: int| 0 <= u < n + 1 && #[trigger] tracks@[u].name@ == self.attachments.entries()[b].target_track@
                                ==> exists|c: int| 0 <= c < m && c != b && #[trigger] targets@[c] == Some(u as usize),
                        } by {
                            if b != a && targets@[b] is None {
                                assert forall|t: int| 0 <= t < n + 1 && #[trigger] tracks@[t].name@ == self.attachments.entries()[b].target_track@
                                    implies exists|c: int| 0 <= c < m && c != b && #[trigger] targets@[c] == Some(t as usize) by {
                                    if t == n {
                                        assert(targets@[a as int] == Some(t as usize));
                                    } else {
                                        let c = choose|c: int| 0 <= c < m && c != b && #[trigger] old_targets[c] == Some(t as usize);
                                        if c == a {
                                            assert(old_targets[a as int] is None);
                                        }
                                        assert(targets@[c] == Some(t as usize));
                                    }
                                }
                            }
                        }
                        assert forall|t: int|
                            0 <= t < n + 1 && is_attachment_target(self, #[trigger] tracks@[t].name@)
                                implies exists|c: int| 0 <= c < m && #[trigger] targets@[c] == Some(t as usize) by {
                            if t == n {
                                assert(targets@[a as int] == Some(t as usize));
                            } else {
                                let c = choose|c: int| 0 <= c < m && #[trigger] old_targets[c] == Some(t as usize);
                                if c == a {
                                    assert(old_targets[a as int] is None);
                                }
                                assert(targets@[c] == Some(t as usize));
                            }
                        }
                    }
                },
                None => {
                    proof {
                        assert forall|b: int| 0 <= b < m implies match #[trigger] targets@[b] {
                            Some(t) => t < n + 1 && tracks@[t as int].name@ == self.attachments.entries()[b].target_track@,
                            None => forall|u: int| 0 <= u < n + 1 && #[trigger] tracks@[u].name@ == self.attachments.entries()[b].target_track@
                                ==> exists|c: int| 0 <= c < m && c != b && #[trigger] targets@[c] == Some(u as usize),
                        } by {
                            if targets@[b] is None && tracks@[n as int].name@ == self.attachments.entries()[b].target_track@ {
                                assert(self.attachments.entries()[b].spec_key() == Some(tracks@[n as int].name@));
                            }
                        }
                    }
                },
            }
            n = n + 1;
        }
        proof {
            assert forall|b: int| 0 <= b < targets@.len() && #[trigger] targets@[b] is None implies {
                ||| forall|x: int| 0 <= x < anim.tracks@.len() ==> #[trigger] anim.tracks@[x].name@ != self.attachments.entries()[b].target_track@
                ||| exists|c: int| 0 <= c < targets@.len() && c != b
                    && #[trigger] self.attachments.entries()[c].target_track@ == self.attachments.entries()[b].target_track@
            } by {
                if exists|t: int| 0 <= t < anim.tracks@.len() && #[trigger] anim.tracks@[t].name@ == self.attachments.entries()[b].target_track@ {
                    let t = choose|t: int| 0 <= t < anim.tracks@.len() && #[trigger] anim.tracks@[t].name@ == self.attachments.entries()[b].target_track@;
                    let c = choose|c: int| 0 <= c < m && c != b && #[trigger] targets@[c] == Some(t as usize);
                    assert(self.attachments.entries()[c].target_track@ == self.attachments.entries()[b].target_track@);
                }
            }
        }
        targets
    }
}

} // verus!
