//! Timing-only animation: frame durations without pixel data.
use crate::anim_data::total_ticks;
use std::time::Instant;
use vstd::prelude::*;

verus! {

/// A point in time from the monotonic clock (`std::time::Instant`).
#[verifier::external_type_specification]
#[verifier::external_body]
pub struct ExInstant(Instant);

/// Calls `Instant::now`; nothing is promised of the reading.
#[verifier::external_body]
pub(crate) fn now() -> (t: Instant) {
    Instant::now()
}

/// Calls `Instant::elapsed` and `Duration::as_millis` on `start`, truncated to
/// `u64`; the reading depends on the clock, so nothing is promised of it.
#[verifier::external_body]
pub(crate) fn elapsed_ms(start: &Instant) -> (ms: u64) {
    start.elapsed().as_millis() as u64
}

/// The creature's current animation state.
///
/// Each variant maps to a specific sprite sheet and a slot in the slot's
/// encoded-frame table (0=Idle, 1=Eat, 2=Sleep, 3=Recall, 4=Playing).
#[derive(Debug, Clone, Copy, PartialEq, Eq, Structural)]
pub enum AnimationState {
    /// Standing around, wandering the pen.
    Idle,
    /// Eating — creature plays the "Eat" animation.
    Eating,
    /// Sleeping.
    Sleeping,
    /// Playing / hopping around. Uses the "Hop" animation from PMDCollab.
    /// Earns XP just like Eating.
    Playing,
}

/// Index of a state's frames in the encoded-frame table.
pub open spec fn encoded_index_spec(s: AnimationState) -> nat {
    match s {
        AnimationState::Idle => 0,
        AnimationState::Eating => 1,
        AnimationState::Sleeping => 2,
        AnimationState::Playing => 4,
    }
}

/// Whether a state earns experience (Eating and Playing do).
pub open spec fn earns_xp_spec(s: AnimationState) -> bool {
    s == AnimationState::Eating || s == AnimationState::Playing
}

impl AnimationState {
    /// Return the index into the encoded-frame table for this state.
    ///
    /// Recall (index 3) is a transition visual, not a game state, so it is
    /// not represented here and callers must use the literal `3` for it.
    pub fn encoded_index(self) -> (i: usize)
        ensures
            i == encoded_index_spec(self),
    {
        match self {
            AnimationState::Idle => 0,
            AnimationState::Eating => 1,
            AnimationState::Sleeping => 2,
            AnimationState::Playing => 4,
        }
    }

    /// Whether a creature in this state accrues experience.
    pub fn earns_xp(self) -> (b: bool)
        ensures
            b == earns_xp_spec(self),
    {
        match self {
            AnimationState::Eating | AnimationState::Playing => true,
            _ => false,
        }
    }
}

/// Two different states never share an encoded-frame slot, and none of them
/// uses the recall slot 3.
pub proof fn law_encoded_index_distinct(a: AnimationState, b: AnimationState)
    ensures
        a != b ==> encoded_index_spec(a) != encoded_index_spec(b),
        encoded_index_spec(a) != 3,
        encoded_index_spec(a) < 5,
{
}

/// Sum of a sequence of millisecond durations.
pub open spec fn sum_ms(d: Seq<u64>) -> nat
    decreases d.len(),
{
    if d.len() == 0 {
        0
    } else {
        sum_ms(d.drop_last()) + d.last() as nat
    }
}

/// The first frame at or after `i` whose cumulative end time exceeds `t`,
/// or the last frame when none does.
pub open spec fn frame_from(d: Seq<u64>, t: nat, i: nat) -> nat
    decreases d.len() - i,
{
    if i >= d.len() {
        (d.len() - 1) as nat
    } else if t < sum_ms(d.take(i as int + 1)) {
        i
    } else {
        frame_from(d, t, i + 1)
    }
}

/// Timing information for one animation cycle (no pixel data stored here).
pub struct Animation {
    /// Duration of each frame in milliseconds.
    pub durations_ms: Vec<u64>,
    /// Total duration of one cycle in milliseconds.
    pub total_ms: u64,
}

impl Clone for Animation {
    fn clone(&self) -> (r: Self)
        ensures
            r.durations_ms@ == self.durations_ms@,
            r.total_ms == self.total_ms,
    {
        Animation { durations_ms: self.durations_ms.clone(), total_ms: self.total_ms }
    }
}

/// The frame shown `elapsed` milliseconds into a looping animation.
pub open spec fn frame_index_spec(d: Seq<u64>, total: u64, elapsed: nat) -> nat {
    if total == 0 || d.len() == 0 {
        0
    } else {
        frame_from(d, elapsed % (total as nat), 0)
    }
}

proof fn lemma_sum_ms_prefix_monotone(d: Seq<u64>, i: int, j: int)
    requires
        0 <= i <= j <= d.len(),
    ensures
        sum_ms(d.take(i)) <= sum_ms(d.take(j)),
    decreases j - i,
{
    if i < j {
        lemma_sum_ms_prefix_monotone(d, i, j - 1);
        assert(d.take(j).drop_last() =~= d.take(j - 1));
    }
}

proof fn lemma_frame_from_bounds(d: Seq<u64>, t: nat, i: nat)
    requires
        d.len() > 0,
        i <= d.len(),
    ensures
        i <= frame_from(d, t, i) || frame_from(d, t, i) == d.len() - 1,
        frame_from(d, t, i) < d.len(),
    decreases d.len() - i,
{
    if i < d.len() && !(t < sum_ms(d.take(i as int + 1))) {
        lemma_frame_from_bounds(d, t, i + 1);
    }
}

/// For a cycle whose total is the sum of its frame durations, the frame shown
/// at time `t` in the cycle is the one whose time window contains `t`.
proof fn lemma_frame_from_window(d: Seq<u64>, t: nat, i: nat)
    requires
        i < d.len(),
        sum_ms(d.take(i as int)) <= t,
        t < sum_ms(d),
    ensures
        sum_ms(d.take(frame_from(d, t, i) as int)) <= t < sum_ms(d.take(frame_from(d, t, i) as int + 1)),
    decreases d.len() - i,
{
    if !(t < sum_ms(d.take(i as int + 1))) {
        if i + 1 == d.len() {
            assert(d.take(i as int + 1) =~= d);
        } else {
            lemma_frame_from_window(d, t, i + 1);
        }
    }
}

impl Animation {
    /// Create a new Animation from a frame count and per-frame tick durations.
    ///
    /// `frame_count` must match the number of images stored for the
    /// corresponding state; `tick_durations` are in game ticks (1 tick ≈ 50 ms).
    /// Only the first `min(frame_count, tick_durations.len())` durations are kept.
    pub fn new(frame_count: usize, tick_durations: &[u32]) -> (a: Self)
        requires
            total_ticks(tick_durations@.take(
                if frame_count < tick_durations@.len() { frame_count as int } else { tick_durations@.len() as int },
            )) * 50 <= u64::MAX,
        ensures
            a.durations_ms@.len() == (if frame_count < tick_durations@.len() { frame_count as int } else { tick_durations@.len() as int }),
            forall|i: int| 0 <= i < a.durations_ms@.len() ==> #[trigger] a.durations_ms@[i] == tick_durations@[i] * 50,
            a.total_ms == sum_ms(a.durations_ms@),
            a.total_ms == total_ticks(tick_durations@.take(a.durations_ms@.len() as int)) * 50,
    {
        let count = if frame_count < tick_durations.len() { frame_count } else { tick_durations.len() };
        let mut durations_ms: Vec<u64> = Vec::new();
        let mut total_ms: u64 = 0;
        let mut i: usize = 0;
        while i < count
            invariant
                i <= count <= tick_durations@.len(),
                total_ticks(tick_durations@.take(count as int)) * 50 <= u64::MAX,
                durations_ms@.len() == i,
                forall|k: int| 0 <= k < i ==> #[trigger] durations_ms@[k] == tick_durations@[k] * 50,
                total_ms == sum_ms(durations_ms@),
                total_ms == total_ticks(tick_durations@.take(i as int)) * 50,
            decreases count - i,
        {
            proof {
                assert(tick_durations@.take(i + 1).drop_last() =~= tick_durations@.take(i as int));
                lemma_ticks_prefix(tick_durations@.take(count as int), i + 1);
                assert(tick_durations@.take(count as int).take(i + 1) =~= tick_durations@.take(i + 1));
            }
            let ms: u64 = tick_durations[i] as u64 * 50;
            let ghost before = durations_ms@;
            durations_ms.push(ms);
            total_ms = total_ms + ms;
            assert(durations_ms@.drop_last() =~= before);
            i = i + 1;
        }
        Animation { durations_ms, total_ms }
    }

    /// Get the frame index for a given elapsed time (in ms), looping infinitely.
    pub fn frame_index_at(&self, elapsed_ms: u64) -> (i: usize)
        requires
            sum_ms(self.durations_ms@) <= u64::MAX,
        ensures
            i == frame_index_spec(self.durations_ms@, self.total_ms, elapsed_ms as nat),
    {
        if self.total_ms == 0 || self.durations_ms.len() == 0 {
            return 0;
        }
        let elapsed_in_cycle = elapsed_ms % self.total_ms;
        let ghost d = self.durations_ms@;
        let mut accumulated: u64 = 0;
        let mut i: usize = 0;
        while i < self.durations_ms.len()
            invariant
                d == self.durations_ms@,
                i <= d.len(),
                sum_ms(d) <= u64::MAX,
                self.total_ms != 0,
                d.len() != 0,
                elapsed_in_cycle == elapsed_ms % self.total_ms,
                accumulated == sum_ms(d.take(i as int)),
                frame_from(d, elapsed_in_cycle as nat, 0) == frame_from(d, elapsed_in_cycle as nat, i as nat),
            decreases d.len() - i,
        {
            proof {
                assert(d.take(i as int + 1).drop_last() =~= d.take(i as int));
                lemma_sum_ms_prefix_monotone(d, i + 1, d.len() as int);
                assert(d.take(d.len() as int) =~= d);
            }
            accumulated = accumulated + self.durations_ms[i];
            assert(d.take(i as int + 1).last() == d[i as int]);
            assert(accumulated == sum_ms(d.take(i as int + 1)));
            if elapsed_in_cycle < accumulated {
                assert(frame_from(d, elapsed_in_cycle as nat, i as nat) == i as nat);
                return i;
            }
            i = i + 1;
        }
        self.durations_ms.len() - 1
    }
}

proof fn lemma_ticks_prefix(d: Seq<u32>, i: int)
    requires
        0 <= i <= d.len(),
    ensures
        total_ticks(d.take(i)) <= total_ticks(d),
    decreases d.len() - i,
{
    if i < d.len() {
        lemma_ticks_prefix(d, i + 1);
        assert(d.take(i as int + 1).drop_last() =~= d.take(i));
    } else {
        assert(d.take(i) =~= d);
    }
}

/// The frame index of a non-empty animation always selects an existing frame.
pub proof fn law_frame_index_in_range(d: Seq<u64>, total: u64, elapsed: nat)
    requires
        d.len() > 0,
    ensures
        frame_index_spec(d, total, elapsed) < d.len(),
{
    if total != 0 {
        lemma_frame_from_bounds(d, elapsed % (total as nat), 0);
    }
}

/// Animations loop: one full cycle later, the same frame is shown.
pub proof fn law_frame_index_periodic(d: Seq<u64>, total: u64, elapsed: nat)
    ensures
        frame_index_spec(d, total, elapsed + total as nat) == frame_index_spec(d, total, elapsed),
{
    if total != 0 && d.len() != 0 {
        vstd::arithmetic::div_mod::lemma_mod_add_multiples_vanish(elapsed as int, total as int);
    }
}

/// When the cycle length is the sum of the frame durations, the frame shown
/// is the one whose time window `[start, start + duration)` holds the time
/// elapsed in the current cycle.
pub proof fn law_frame_index_window(d: Seq<u64>, total: u64, elapsed: nat)
    requires
        total > 0,
        total == sum_ms(d),
    ensures
        ({
            let i = frame_index_spec(d, total, elapsed);
            let t = elapsed % (total as nat);
            sum_ms(d.take(i as int)) <= t < sum_ms(d.take(i as int + 1))
        }),
{
    assert(d.len() > 0) by {
        if d.len() == 0 {
            assert(sum_ms(d) == 0);
        }
    }
    let t = elapsed % (total as nat);
    vstd::arithmetic::div_mod::lemma_mod_bound(elapsed as int, total as int);
    assert(d.take(0) =~= Seq::<u64>::empty());
    lemma_frame_from_window(d, t, 0);
}

/// The animation a state plays: Playing uses the hop animation and falls back
/// to the idle one when no hop animation is loaded.
pub open spec fn active_animation(
    state: AnimationState,
    idle: Option<Animation>,
    eat: Option<Animation>,
    sleep: Option<Animation>,
    hop: Option<Animation>,
) -> Option<Animation> {
    match state {
        AnimationState::Idle => idle,
        AnimationState::Eating => eat,
        AnimationState::Sleeping => sleep,
        AnimationState::Playing => if hop is Some { hop } else { idle },
    }
}

/// The frame that animation `a`, if loaded, shows `elapsed` ms in.
pub open spec fn timed_frame(a: Option<Animation>, elapsed: nat) -> Option<usize> {
    match a {
        Some(x) => Some(frame_index_spec(x.durations_ms@, x.total_ms, elapsed) as usize),
        None => None,
    }
}

/// The main animator: manages animation state and frame-index selection.
///
/// The animator does **not** own any pixel data — it is purely a timing
/// engine. The caller maps the returned frame index to the image it stores.
pub struct Animator {
    state: AnimationState,
    /// When the current state started (for elapsed time calculation).
    state_start: Instant,
    /// Timing animations for each state (no frames stored here).
    idle_anim: Option<Animation>,
    eat_anim: Option<Animation>,
    sleep_anim: Option<Animation>,
    /// Timing for the "Hop" / Playing animation (index 4 in the encoded table),
    /// set via `set_hop_animation` after `load_animations`.
    hop_anim: Option<Animation>,
}

/// Animations whose durations sum within `u64`, as every animation built by
/// `Animation::new` does.
pub open spec fn timing_fits(a: Option<Animation>) -> bool {
    a matches Some(x) ==> sum_ms(x.durations_ms@) <= u64::MAX
}

impl Animator {
    pub closed spec fn spec_state(&self) -> AnimationState {
        self.state
    }

    pub closed spec fn started_at(&self) -> Instant {
        self.state_start
    }

    pub closed spec fn idle(&self) -> Option<Animation> {
        self.idle_anim
    }

    pub closed spec fn eat(&self) -> Option<Animation> {
        self.eat_anim
    }

    pub closed spec fn sleep(&self) -> Option<Animation> {
        self.sleep_anim
    }

    pub closed spec fn hop(&self) -> Option<Animation> {
        self.hop_anim
    }

    /// The animation timing the current state plays, if loaded.
    pub open spec fn active(&self) -> Option<Animation> {
        active_animation(self.spec_state(), self.idle(), self.eat(), self.sleep(), self.hop())
    }

    /// Whether all loaded animations have sums that fit in `u64`.
    pub open spec fn timings_fit(&self) -> bool {
        timing_fits(self.idle()) && timing_fits(self.eat()) && timing_fits(self.sleep())
            && timing_fits(self.hop())
    }

    /// Create a new Animator in the Idle state with no timing loaded.
    /// Call `load_animations` to set up timing data.
    pub fn new() -> (a: Self)
        ensures
            a.spec_state() == AnimationState::Idle,
            a.idle() is None,
            a.eat() is None,
            a.sleep() is None,
            a.hop() is None,
    {
        Animator {
            state: AnimationState::Idle,
            state_start: now(),
            idle_anim: None,
            eat_anim: None,
            sleep_anim: None,
            hop_anim: None,
        }
    }

    /// Load timing animations for the three core states (Idle, Eat, Sleep).
    /// Call `set_hop_animation` afterwards to wire up the Playing state.
    pub fn load_animations(&mut self, idle: Animation, eat: Animation, sleep: Animation)
        ensures
            final(self).idle() == Some(idle),
            final(self).eat() == Some(eat),
            final(self).sleep() == Some(sleep),
            final(self).hop() == old(self).hop(),
            final(self).spec_state() == old(self).spec_state(),
            final(self).started_at() == old(self).started_at(),
    {
        self.idle_anim = Some(idle);
        self.eat_anim = Some(eat);
        self.sleep_anim = Some(sleep);
    }

    /// Set the timing animation for the Playing / "Hop" state.
    pub fn set_hop_animation(&mut self, hop: Animation)
        ensures
            final(self).hop() == Some(hop),
            final(self).idle() == old(self).idle(),
            final(self).eat() == old(self).eat(),
            final(self).sleep() == old(self).sleep(),
            final(self).spec_state() == old(self).spec_state(),
            final(self).started_at() == old(self).started_at(),
    {
        self.hop_anim = Some(hop);
    }

    /// Get the current animation state.
    pub fn state(&self) -> (s: AnimationState)
        ensures
            s == self.spec_state(),
    {
        self.state
    }

    /// Switch to a new animation state, resetting the animation timer to
    /// `start`. Setting the state it already has changes nothing, timer
    /// included.
    pub fn set_state_at(&mut self, state: AnimationState, start: Instant)
        ensures
            final(self).spec_state() == state,
            old(self).spec_state() != state ==> final(self).started_at() == start,
            old(self).spec_state() == state ==> final(self).started_at() == old(self).started_at(),
            final(self).idle() == old(self).idle(),
            final(self).eat() == old(self).eat(),
            final(self).sleep() == old(self).sleep(),
            final(self).hop() == old(self).hop(),
    {
        if self.state != state {
            self.state = state;
            self.state_start = start;
        }
    }

    /// Switch to a new animation state, resetting the animation timer to
    /// the current time (see `set_state_at`).
    /// Setting the state it already has changes nothing, timer included.
    pub fn set_state(&mut self, state: AnimationState)
        ensures
            final(self).spec_state() == state,
            old(self).spec_state() == state ==> final(self).started_at() == old(self).started_at(),
            final(self).idle() == old(self).idle(),
            final(self).eat() == old(self).eat(),
            final(self).sleep() == old(self).sleep(),
            final(self).hop() == old(self).hop(),
    {
        let t = now();
        self.set_state_at(state, t);
    }

    /// The frame index `elapsed_ms` milliseconds into the current state, or
    /// `None` when the current state has no timing loaded.
    pub fn frame_index_after(&self, elapsed_ms: u64) -> (r: Option<usize>)
        requires
            self.timings_fit(),
        ensures
            match self.active() {
                Some(a) => r is Some && r->0 == frame_index_spec(a.durations_ms@, a.total_ms, elapsed_ms as nat),
                None => r is None,
            },
            self.spec_state() == AnimationState::Idle ==> r == timed_frame(self.idle(), elapsed_ms as nat),
            self.spec_state() == AnimationState::Eating ==> r == timed_frame(self.eat(), elapsed_ms as nat),
            self.spec_state() == AnimationState::Sleeping ==> r == timed_frame(self.sleep(), elapsed_ms as nat),
            self.spec_state() == AnimationState::Playing ==> r == timed_frame(
                if self.hop() is Some { self.hop() } else { self.idle() },
                elapsed_ms as nat,
            ),
    {
        let anim = match self.state {
            AnimationState::Idle => self.idle_anim.as_ref(),
            AnimationState::Eating => self.eat_anim.as_ref(),
            AnimationState::Sleeping => self.sleep_anim.as_ref(),
            AnimationState::Playing => if self.hop_anim.is_some() {
                self.hop_anim.as_ref()
            } else {
                self.idle_anim.as_ref()
            },
        };
        match anim {
            Some(a) => Some(a.frame_index_at(elapsed_ms)),
            None => None,
        }
    }

    /// Get the current frame index based on the time since the state began.
    ///
    /// Returns `None` if no timing data has been loaded for the current state.
    /// A returned index always selects an existing frame of the playing animation.
    pub fn current_frame_index(&self) -> (r: Option<usize>)
        requires
            self.timings_fit(),
        ensures
            r is Some <==> self.active() is Some,
            r matches Some(i) ==> exists|e: nat| #[trigger] frame_index_spec(
                self.active()->0.durations_ms@,
                self.active()->0.total_ms,
                e,
            ) == i,
            r matches Some(i) ==> self.active()->0.durations_ms@.len() == 0 || i < self.active()->0.durations_ms@.len(),
    {
        let e = elapsed_ms(&self.state_start);
        let r = self.frame_index_after(e);
        proof {
            if let Some(a) = self.active() {
                if a.durations_ms@.len() > 0 {
                    law_frame_index_in_range(a.durations_ms@, a.total_ms, e as nat);
                }
                assert(frame_index_spec(a.durations_ms@, a.total_ms, e as nat) == r->0);
            }
        }
        r
    }
}

/// Each state plays its own animation: Idle the idle one, Eating the eat
/// one, Sleeping the sleep one, and Playing the hop one, or the idle one
/// when no hop animation is loaded.
pub proof fn law_state_plays_its_animation(a: Animator)
    ensures
        a.spec_state() == AnimationState::Idle ==> a.active() == a.idle(),
        a.spec_state() == AnimationState::Eating ==> a.active() == a.eat(),
        a.spec_state() == AnimationState::Sleeping ==> a.active() == a.sleep(),
        a.spec_state() == AnimationState::Playing && a.hop() is Some ==> a.active() == a.hop(),
        a.spec_state() == AnimationState::Playing && a.hop() is None ==> a.active() == a.idle(),
{
}

} // verus!
