use vstd::prelude::*;
use vstd::arithmetic::div_mod::{lemma_fundamental_div_mod, lemma_mod_pos_bound};
use crate::playback::{step_of, PlaybackDirection, PlaybackOptions, PlaybackPlayMode, Segment};
use crate::playhead::{advanced, lemma_advance_stays_in_range, no_events, PlaybackEvents, Playhead};
use crate::theme::Theme;

verus! {

/// A named, registered playback configuration.
#[derive(Clone, Debug)]
pub struct PlayerState {
    pub name: String,
    /// Identifier of the animation asset, owned by the asset loader.
    pub asset_id: u64,
    /// First sub-frame of the animation.
    pub start: i64,
    /// Last sub-frame of the animation.
    pub end: i64,
    /// Native frame rate of the animation, frames a second.
    pub frame_rate: u32,
    pub options: PlaybackOptions,
    pub theme: Option<Theme>,
}

/// What decides that a transition fires.
#[derive(Clone, Debug)]
pub enum TransitionTrigger {
    /// An external event of this name was posted during the tick.
    Event(String),
    /// The playhead reached the end of its range.
    ReachedEnd,
    /// The playhead reached the start of its range.
    ReachedStart,
    /// A loop completed, and at least this many have since the state became current.
    LoopsCompleted(u64),
    /// Always true, gated by a host request to move to the transition's target.
    Requested,
}

/// How the playhead crosses into the target state.
#[derive(Clone, Copy, Debug, PartialEq, Eq, Structural)]
pub enum CarryOver {
    /// Start the target's range afresh, from the end its direction starts at.
    Reset,
    /// Keep the fraction of the range already played.
    Preserve,
}

/// A rule that moves a player from one state to another.
#[derive(Clone, Debug)]
pub struct PlayerTransition {
    /// The state it leaves; `None` matches any state.
    pub source: Option<String>,
    pub target: String,
    pub trigger: TransitionTrigger,
    /// Lower values win; ties go to the earlier registration.
    pub priority: u32,
    pub carry_over: CarryOver,
}

/// Why a player configuration was refused.
#[derive(Clone, Copy, Debug, PartialEq, Eq, Structural)]
pub enum ConfigError {
    /// A state's range is reversed, or its segment leaves the animation's range.
    InvalidRange,
    /// Two states share a name.
    DuplicateState,
    /// A transition targets a state that is not registered.
    DanglingTarget,
    /// The initial state is not registered.
    UnknownInitial,
}

/// The range a state plays under `options`: the segment if there is one.
pub open spec fn range_of(st: PlayerState, options: PlaybackOptions) -> (int, int) {
    match options.segment {
        Some(g) => (g.start as int, g.end as int),
        None => (st.start as int, st.end as int),
    }
}

/// The segment, if any, lies within the animation's range.
pub open spec fn segment_fits(st: PlayerState, segment: Option<Segment>) -> bool {
    match segment {
        Some(g) => st.start <= g.start <= g.end <= st.end,
        None => true,
    }
}

/// The animation's range is ordered and its segment fits in it.
pub open spec fn state_valid(st: PlayerState) -> bool {
    st.start <= st.end && segment_fits(st, st.options.segment)
}

/// Every state is valid.
pub open spec fn all_valid(states: Seq<PlayerState>) -> bool {
    forall|i: int| 0 <= i < states.len() ==> state_valid(#[trigger] states[i])
}

/// No two states share a name.
pub open spec fn names_unique(states: Seq<PlayerState>) -> bool {
    forall|i: int, j: int|
        0 <= i < states.len() && 0 <= j < states.len() && i != j ==> #[trigger] states[i].name@
            != #[trigger] states[j].name@
}

/// A state called `name` is registered.
pub open spec fn registered(states: Seq<PlayerState>, name: Seq<char>) -> bool {
    exists|i: int| 0 <= i < states.len() && #[trigger] states[i].name@ == name
}

/// Every transition's target is registered.
pub open spec fn targets_resolve(states: Seq<PlayerState>, transitions: Seq<PlayerTransition>) -> bool {
    forall|k: int| 0 <= k < transitions.len() ==> registered(states, #[trigger] transitions[k].target@)
}

/// The options a state plays with once it becomes current: its own, with the
/// host's segment override laid over them where the override fits its range.
pub open spec fn effective_options(st: PlayerState, segment_override: Option<Segment>) -> PlaybackOptions {
    match segment_override {
        Some(g) => if segment_fits(st, Some(g)) {
            PlaybackOptions { segment: Some(g), ..st.options }
        } else {
            st.options
        },
        None => st.options,
    }
}

/// The playhead a state starts with: at the end its direction starts from.
pub open spec fn fresh_playhead(range: (int, int), direction: PlaybackDirection) -> Playhead {
    Playhead {
        position: (if direction == PlaybackDirection::Normal { range.0 } else { range.1 }) as i64,
        start: range.0 as i64,
        end: range.1 as i64,
        travel: direction,
    }
}

/// The old progress fraction `(p - s) / (e - s)` carried onto `[ns, ne]`;
/// a range of zero span carries nothing.
pub open spec fn preserved_position(s: int, e: int, p: int, ns: int, ne: int) -> int {
    if e == s {
        ns
    } else {
        ns + (p - s) * (ne - ns) / (e - s)
    }
}

/// The transition leaves the state called `current`, or any state.
pub open spec fn source_matches(t: PlayerTransition, current: Seq<char>) -> bool {
    match t.source {
        Some(n) => n@ == current,
        None => true,
    }
}

/// The transition is gated by a host request.
pub open spec fn is_requested(t: PlayerTransition) -> bool {
    t.trigger is Requested
}

/// An external event called `name` was posted.
pub open spec fn posted_contains(posted: Seq<String>, name: Seq<char>) -> bool {
    exists|i: int| 0 <= i < posted.len() && #[trigger] posted[i]@ == name
}

/// Plugin that drives every player once per tick, in the three phases
/// `advance`, `run_transitions` and `transition_state`.
pub struct LottieIntegrationPlugin;

/// The per-instance playback controller.
#[derive(Clone, Debug)]
pub struct LottiePlayer {
    pub states: Vec<PlayerState>,
    pub transitions: Vec<PlayerTransition>,
    /// Index of the current state in `states`.
    pub current: usize,
    pub playhead: Playhead,
    /// Effective options of the current state.
    pub options: PlaybackOptions,
    /// Events of the last advance.
    pub last_events: PlaybackEvents,
    /// Loops completed since the current state became current.
    pub loops_in_state: u128,
    /// External events posted during this tick.
    pub posted: Vec<String>,
    /// A host request to move to the named state.
    pub requested: Option<String>,
    /// The transition chosen by evaluation and not yet committed.
    pub pending: Option<usize>,
    /// A segment set by the host, kept across transitions into states it fits.
    pub segment_override: Option<Segment>,
}

impl LottiePlayer {
    /// The configuration is sound, the current state is registered, the
    /// playhead lies in the range that the current state plays, and a pending
    /// transition is registered.
    pub open spec fn wf(&self) -> bool {
        &&& all_valid(self.states@)
        &&& names_unique(self.states@)
        &&& targets_resolve(self.states@, self.transitions@)
        &&& self.current < self.states@.len()
        &&& segment_fits(self.states@[self.current as int], self.options.segment)
        &&& self.playhead.wf()
        &&& (self.playhead.start as int, self.playhead.end as int) == range_of(
            self.states@[self.current as int],
            self.options,
        )
        &&& (self.pending matches Some(k) ==> k < self.transitions@.len())
    }

    /// Name of the current state.
    pub open spec fn current_name(&self) -> Seq<char> {
        self.states@[self.current as int].name@
    }

    /// Whether transition `k` matches this tick.
    pub open spec fn fires(&self, k: int) -> bool {
        let t = self.transitions@[k];
        &&& 0 <= k < self.transitions@.len()
        &&& source_matches(t, self.current_name())
        &&& match t.trigger {
            TransitionTrigger::Event(n) => posted_contains(self.posted@, n@),
            TransitionTrigger::ReachedEnd => self.last_events.reached_end,
            TransitionTrigger::ReachedStart => self.last_events.reached_start,
            TransitionTrigger::LoopsCompleted(n) => self.last_events.loops_completed > 0
                && self.loops_in_state >= n,
            TransitionTrigger::Requested => self.requested matches Some(r) && r@ == t.target@,
        }
    }

    /// Whether transition `a` wins over transition `b`: an explicit request
    /// first, then the lower priority, then the earlier registration.
    pub open spec fn beats(&self, a: int, b: int) -> bool {
        let (ta, tb) = (self.transitions@[a], self.transitions@[b]);
        ||| is_requested(ta) && !is_requested(tb)
        ||| is_requested(ta) == is_requested(tb) && (ta.priority < tb.priority || (ta.priority
            == tb.priority && a < b))
    }

    /// `next` is this player after advancing by `elapsed_ms`: only the
    /// playhead, the last events and the loop count change.
    pub open spec fn advance_step(&self, elapsed_ms: int, next: LottiePlayer) -> bool {
        let r = next.last_events;
        &&& self.options.play_mode == PlaybackPlayMode::Playing ==> (next.playhead, r) == advanced(
            self.playhead,
            self.options.loop_behavior,
            step_of(
                self.options.speed as int,
                self.playhead.travel,
                elapsed_ms,
                self.states@[self.current as int].frame_rate as int,
            ),
        )
        &&& self.options.play_mode != PlaybackPlayMode::Playing ==> next.playhead == self.playhead
            && r == no_events()
        &&& next.loops_in_state == if self.loops_in_state + r.loops_completed > u128::MAX {
            u128::MAX as int
        } else {
            self.loops_in_state + r.loops_completed
        }
        &&& next == (LottiePlayer {
            playhead: next.playhead,
            last_events: r,
            loops_in_state: next.loops_in_state,
            ..*self
        })
    }

    /// `next` is this player with the winning transition, if any, pending.
    pub open spec fn evaluation_step(&self, next: LottiePlayer) -> bool {
        &&& next == (LottiePlayer { pending: next.pending, ..*self })
        &&& next.pending matches Some(k) ==> self.selected(k as int)
        &&& next.pending is None ==> forall|k: int| !self.fires(k)
    }

    /// `next` is this player after committing its pending transition, if any,
    /// with the tick's posted events and request spent.
    pub open spec fn commit_step(&self, next: LottiePlayer) -> bool {
        &&& next.states == self.states
        &&& next.transitions == self.transitions
        &&& next.last_events == self.last_events
        &&& next.posted@.len() == 0
        &&& next.requested is None
        &&& next.pending is None
        &&& next.segment_override == self.segment_override
        &&& self.pending is None ==> {
            &&& next.current == self.current
            &&& next.playhead == self.playhead
            &&& next.options == self.options
            &&& next.loops_in_state == self.loops_in_state
        }
        &&& self.pending matches Some(k) ==> {
            let t = self.transitions@[k as int];
            let st = next.states@[next.current as int];
            &&& next.current_name() == t.target@
            &&& next.options == effective_options(st, self.segment_override)
            &&& next.playhead == entered_playhead(self.playhead, t.carry_over, range_of(st, next.options), next.options)
            &&& next.loops_in_state == 0
        }
    }

    /// Transition `k` fires and wins over every other one that fires.
    pub open spec fn selected(&self, k: int) -> bool {
        &&& self.fires(k)
        &&& forall|j: int| #[trigger] self.fires(j) && j != k ==> self.beats(k, j)
    }
}

/// Index of the state called `name`.
pub fn find_state(states: &Vec<PlayerState>, name: &String) -> (r: Option<usize>)
    ensures
        match r {
            Some(i) => i < states@.len() && states@[i as int].name@ == name@,
            None => !registered(states@, name@),
        },
{
    let mut i: usize = 0;
    while i < states.len()
        invariant
            i <= states@.len(),
            forall|j: int| 0 <= j < i ==> states@[j].name@ != name@,
        decreases states@.len() - i,
    {
        if states[i].name == *name {
            return Some(i);
        }
        i = i + 1;
    }
    None
}

fn state_is_valid(st: &PlayerState) -> (r: bool)
    ensures
        r == state_valid(*st),
{
    st.start <= st.end && match st.options.segment {
        Some(g) => st.start <= g.start && g.start <= g.end && g.end <= st.end,
        None => true,
    }
}

fn check_valid(states: &Vec<PlayerState>) -> (r: bool)
    ensures
        r == all_valid(states@),
{
    let mut i: usize = 0;
    while i < states.len()
        invariant
            i <= states@.len(),
            forall|j: int| 0 <= j < i ==> state_valid(#[trigger] states@[j]),
        decreases states@.len() - i,
    {
        if !state_is_valid(&states[i]) {
            return false;
        }
        i = i + 1;
    }
    true
}

fn check_unique(states: &Vec<PlayerState>) -> (r: bool)
    ensures
        r == names_unique(states@),
{
    let mut i: usize = 0;
    while i < states.len()
        invariant
            i <= states@.len(),
            forall|a: int, b: int|
                0 <= a < i && 0 <= b < states@.len() && a != b ==> #[trigger] states@[a].name@
                    != #[trigger] states@[b].name@,
        decreases states@.len() - i,
    {
        let mut j: usize = i + 1;
        while j < states.len()
            invariant
                i < j <= states@.len(),
                forall|a: int, b: int|
                    0 <= a < i && 0 <= b < states@.len() && a != b ==> #[trigger] states@[a].name@
                        != #[trigger] states@[b].name@,
                forall|b: int| i < b < j ==> states@[i as int].name@ != #[trigger] states@[b].name@,
            decreases states@.len() - j,
        {
            if states[i].name == states[j].name {
                return false;
            }
            j = j + 1;
        }
        i = i + 1;
    }
    true
}

fn check_targets(states: &Vec<PlayerState>, transitions: &Vec<PlayerTransition>) -> (r: bool)
    ensures
        r == targets_resolve(states@, transitions@),
{
    let mut k: usize = 0;
    while k < transitions.len()
        invariant
            k <= transitions@.len(),
            forall|j: int| 0 <= j < k ==> registered(states@, #[trigger] transitions@[j].target@),
        decreases transitions@.len() - k,
    {
        if find_state(states, &transitions[k].target).is_none() {
            return false;
        }
        k = k + 1;
    }
    true
}

impl LottiePlayer {
    /// A player over `states` and `transitions`, starting in the state called
    /// `initial` with a fresh playhead.
    pub fn new(states: Vec<PlayerState>, transitions: Vec<PlayerTransition>, initial: &String) -> (r:
        Result<LottiePlayer, ConfigError>)
        ensures
            !all_valid(states@) ==> r == Err::<LottiePlayer, ConfigError>(ConfigError::InvalidRange),
            all_valid(states@) && !names_unique(states@) ==> r == Err::<LottiePlayer, ConfigError>(
                ConfigError::DuplicateState,
            ),
            all_valid(states@) && names_unique(states@) && !targets_resolve(states@, transitions@)
                ==> r == Err::<LottiePlayer, ConfigError>(ConfigError::DanglingTarget),
            all_valid(states@) && names_unique(states@) && targets_resolve(states@, transitions@)
                && !registered(states@, initial@) ==> r == Err::<LottiePlayer, ConfigError>(
                ConfigError::UnknownInitial,
            ),
            r is Ok <==> all_valid(states@) && names_unique(states@) && targets_resolve(
                states@,
                transitions@,
            ) && registered(states@, initial@),
            r matches Ok(p) ==> {
                &&& p.wf()
                &&& p.states@ == states@
                &&& p.transitions@ == transitions@
                &&& p.current_name() == initial@
                &&& p.options == states@[p.current as int].options
                &&& p.playhead == fresh_playhead(range_of(states@[p.current as int], p.options), p.options.direction)
                &&& p.last_events == PlaybackEvents { reached_end: false, reached_start: false, loops_completed: 0 }
                &&& p.loops_in_state == 0
                &&& p.posted@.len() == 0
                &&& p.requested is None
                &&& p.pending is None
                &&& p.segment_override is None
            },
    {
        if !check_valid(&states) {
            return Err(ConfigError::InvalidRange);
        }
        if !check_unique(&states) {
            return Err(ConfigError::DuplicateState);
        }
        if !check_targets(&states, &transitions) {
            return Err(ConfigError::DanglingTarget);
        }
        let current = match find_state(&states, initial) {
            Some(i) => i,
            None => {
                return Err(ConfigError::UnknownInitial);
            },
        };
        let options = states[current].options;
        let playhead = start_playhead(&states[current], &options);
        Ok(LottiePlayer {
            states,
            transitions,
            current,
            playhead,
            options,
            last_events: PlaybackEvents { reached_end: false, reached_start: false, loops_completed: 0 },
            loops_in_state: 0,
            posted: Vec::new(),
            requested: None,
            pending: None,
            segment_override: None,
        })
    }
}

/// The range that `st` plays under `options`.
fn range_for(st: &PlayerState, options: &PlaybackOptions) -> (r: (i64, i64))
    ensures
        (r.0 as int, r.1 as int) == range_of(*st, *options),
{
    match options.segment {
        Some(g) => (g.start, g.end),
        None => (st.start, st.end),
    }
}

/// A fresh playhead over the range that `st` plays under `options`.
fn start_playhead(st: &PlayerState, options: &PlaybackOptions) -> (r: Playhead)
    requires
        st.start <= st.end,
        segment_fits(*st, options.segment),
    ensures
        r.wf(),
        r == fresh_playhead(range_of(*st, *options), options.direction),
{
    let (start, end) = range_for(st, options);
    Playhead::new(start, end, options.direction)
}

/// Carries the progress fraction of `ph` onto the range `[ns, ne]`.
fn carried_position(ph: &Playhead, ns: i64, ne: i64) -> (r: i64)
    requires
        ph.wf(),
        ns <= ne,
    ensures
        r == preserved_position(ph.start as int, ph.end as int, ph.position as int, ns as int, ne as int),
        ns <= r <= ne,
{
    if ph.end == ph.start {
        return ns;
    }
    let off = (ph.position as i128 - ph.start as i128) as u128;
    let span = (ph.end as i128 - ph.start as i128) as u128;
    let new_span = (ne as i128 - ns as i128) as u128;
    assert(off * new_span < 0x1_0000_0000_0000_0000_0000_0000_0000_0000) by (nonlinear_arith)
        requires
            0 <= off < 0x1_0000_0000_0000_0000,
            0 <= new_span < 0x1_0000_0000_0000_0000,
    ;
    let prod = off * new_span;
    let q = prod / span;
    proof {
        lemma_fundamental_div_mod(prod as int, span as int);
        lemma_mod_pos_bound(prod as int, span as int);
        assert(q <= new_span) by (nonlinear_arith)
            requires
                prod == span * q + prod % span,
                prod % span >= 0,
                prod == off * new_span,
                off <= span,
                span > 0,
                new_span >= 0,
        ;
    }
    (ns as i128 + q as i128) as i64
}

impl LottiePlayer {
    /// First phase of a tick: advances the playhead by `elapsed_ms` of time
    /// under the current options and records the events it emits.
    pub fn advance(&mut self, elapsed_ms: u32) -> (r: PlaybackEvents)
        requires
            old(self).wf(),
        ensures
            final(self).wf(),
            old(self).advance_step(elapsed_ms as int, *final(self)),
            r == final(self).last_events,
    {
        let rate = self.states[self.current].frame_rate;
        let ghost before = self.playhead;
        let events = self.playhead.advance(&self.options, elapsed_ms, rate);
        proof {
            lemma_advance_stays_in_range(
                before,
                self.options.loop_behavior,
                step_of(self.options.speed as int, before.travel, elapsed_ms as int, rate as int),
            );
        }
        self.last_events = events;
        self.loops_in_state = if self.loops_in_state > u128::MAX - events.loops_completed {
            u128::MAX
        } else {
            self.loops_in_state + events.loops_completed
        };
        events
    }

    fn posted_has(&self, name: &String) -> (r: bool)
        ensures
            r == posted_contains(self.posted@, name@),
    {
        let mut i: usize = 0;
        while i < self.posted.len()
            invariant
                i <= self.posted@.len(),
                forall|j: int| 0 <= j < i ==> self.posted@[j]@ != name@,
            decreases self.posted@.len() - i,
        {
            if self.posted[i] == *name {
                return true;
            }
            i = i + 1;
        }
        false
    }

    fn transition_fires(&self, k: usize) -> (r: bool)
        requires
            self.wf(),
            k < self.transitions@.len(),
        ensures
            r == self.fires(k as int),
    {
        let t = &self.transitions[k];
        let source_ok = match &t.source {
            Some(n) => *n == self.states[self.current].name,
            None => true,
        };
        if !source_ok {
            return false;
        }
        match &t.trigger {
            TransitionTrigger::Event(n) => self.posted_has(n),
            TransitionTrigger::ReachedEnd => self.last_events.reached_end,
            TransitionTrigger::ReachedStart => self.last_events.reached_start,
            TransitionTrigger::LoopsCompleted(n) => self.last_events.loops_completed > 0
                && self.loops_in_state >= *n as u128,
            TransitionTrigger::Requested => match &self.requested {
                Some(r) => *r == t.target,
                None => false,
            },
        }
    }

    fn transition_beats(&self, a: usize, b: usize) -> (r: bool)
        requires
            a < self.transitions@.len(),
            b < self.transitions@.len(),
        ensures
            r == self.beats(a as int, b as int),
    {
        let ra = match self.transitions[a].trigger {
            TransitionTrigger::Requested => true,
            _ => false,
        };
        let rb = match self.transitions[b].trigger {
            TransitionTrigger::Requested => true,
            _ => false,
        };
        let (pa, pb) = (self.transitions[a].priority, self.transitions[b].priority);
        (ra && !rb) || (ra == rb && (pa < pb || (pa == pb && a < b)))
    }

    /// Second phase of a tick: records in the pending slot the transition that
    /// fires and wins over every other one that fires, or none if none fires.
    /// Nothing else changes.
    pub fn run_transitions(&mut self)
        requires
            old(self).wf(),
        ensures
            final(self).wf(),
            old(self).evaluation_step(*final(self)),
    {
        let mut best: Option<usize> = None;
        let mut k: usize = 0;
        while k < self.transitions.len()
            invariant
                self.wf(),
                k <= self.transitions@.len(),
                best matches Some(b) ==> b < k && self.fires(b as int) && forall|j: int|
                    0 <= j < k && #[trigger] self.fires(j) && j != b ==> self.beats(b as int, j),
                best is None ==> forall|j: int| 0 <= j < k ==> !#[trigger] self.fires(j),
            decreases self.transitions@.len() - k,
        {
            if self.transition_fires(k) {
                best = match best {
                    None => Some(k),
                    Some(b) => if self.transition_beats(k, b) {
                        Some(k)
                    } else {
                        Some(b)
                    },
                };
            }
            k = k + 1;
        }
        self.pending = best;
    }
}

/// Whichever transitions fire, at most one is selected: evaluation over the
/// same state, events and registry always settles on the same transition.
pub proof fn lemma_selection_unique(p: LottiePlayer, a: int, b: int)
    requires
        p.selected(a),
        p.selected(b),
    ensures
        a == b,
{
    if a != b {
        assert(p.fires(b));
        assert(p.beats(a, b));
        assert(p.fires(a));
        assert(p.beats(b, a));
    }
}

/// The playhead that a transition hands to the state it enters, whose
/// options are `options` and whose range is `range`.
pub open spec fn entered_playhead(old_ph: Playhead, policy: CarryOver, range: (int, int), options: PlaybackOptions) -> Playhead {
    match policy {
        CarryOver::Reset => fresh_playhead(range, options.direction),
        CarryOver::Preserve => Playhead {
            position: preserved_position(
                old_ph.start as int,
                old_ph.end as int,
                old_ph.position as int,
                range.0,
                range.1,
            ) as i64,
            start: range.0 as i64,
            end: range.1 as i64,
            travel: options.direction,
        },
    }
}

impl LottiePlayer {
    /// Third phase of a tick: commits the pending transition, if any, and ends
    /// the tick by dropping the events posted and the transition requested.
    /// Committing makes the target the current state, takes its options with
    /// the host's segment override laid over them where it fits, and sets the
    /// playhead as the transition's carry-over policy says.
    pub fn transition_state(&mut self)
        requires
            old(self).wf(),
        ensures
            final(self).wf(),
            old(self).commit_step(*final(self)),
    {
        if let Some(k) = self.pending {
            let target = match find_state(&self.states, &self.transitions[k].target) {
                Some(i) => i,
                None => {
                    proof {
                        assert(registered(self.states@, self.transitions@[k as int].target@));
                    }
                    self.current
                },
            };
            proof {
                assert(state_valid(self.states@[target as int]));
            }
            let own = self.states[target].options;
            let options = match self.segment_override {
                Some(g) => {
                    let st = &self.states[target];
                    if st.start <= g.start && g.start <= g.end && g.end <= st.end {
                        PlaybackOptions { segment: Some(g), ..own }
                    } else {
                        own
                    }
                },
                None => own,
            };
            let (ns, ne) = range_for(&self.states[target], &options);
            let playhead = match self.transitions[k].carry_over {
                CarryOver::Reset => Playhead::new(ns, ne, options.direction),
                CarryOver::Preserve => Playhead {
                    position: carried_position(&self.playhead, ns, ne),
                    start: ns,
                    end: ne,
                    travel: options.direction,
                },
            };
            self.current = target;
            self.options = options;
            self.playhead = playhead;
            self.loops_in_state = 0;
        }
        self.pending = None;
        self.posted = Vec::new();
        self.requested = None;
    }

    /// Posts an external event for this tick's evaluation.
    pub fn post_event(&mut self, name: String)
        requires
            old(self).wf(),
        ensures
            final(self).wf(),
            final(self).posted@ == old(self).posted@.push(name),
            *final(self) == (LottiePlayer { posted: final(self).posted, ..*old(self) }),
    {
        self.posted.push(name);
    }

    /// Asks for a move to the state called `target` through a transition with
    /// a `Requested` trigger; a request outranks every event-triggered transition.
    pub fn request_transition(&mut self, target: String)
        requires
            old(self).wf(),
        ensures
            final(self).wf(),
            final(self).requested == Some(target),
            *final(self) == (LottiePlayer { requested: Some(target), ..*old(self) }),
    {
        self.requested = Some(target);
    }

    /// Sets the play mode. Entering Stopped puts the playhead back at the end
    /// of the range that the configured direction starts from.
    pub fn set_play_mode(&mut self, mode: PlaybackPlayMode)
        requires
            old(self).wf(),
        ensures
            final(self).wf(),
            final(self).options == (PlaybackOptions { play_mode: mode, ..old(self).options }),
            final(self).playhead == if mode == PlaybackPlayMode::Stopped && old(self).options.play_mode
                != PlaybackPlayMode::Stopped {
                fresh_playhead(
                    (old(self).playhead.start as int, old(self).playhead.end as int),
                    old(self).options.direction,
                )
            } else {
                old(self).playhead
            },
            *final(self) == (LottiePlayer {
                options: final(self).options,
                playhead: final(self).playhead,
                ..*old(self)
            }),
    {
        if mode == PlaybackPlayMode::Stopped && self.options.play_mode != PlaybackPlayMode::Stopped {
            self.playhead = Playhead::new(self.playhead.start, self.playhead.end, self.options.direction);
        }
        self.options.play_mode = mode;
    }

    /// Sets the signed speed, in thousandths.
    pub fn set_speed(&mut self, speed: i32)
        requires
            old(self).wf(),
        ensures
            final(self).wf(),
            *final(self) == (LottiePlayer {
                options: PlaybackOptions { speed, ..old(self).options },
                ..*old(self)
            }),
    {
        self.options.speed = speed;
    }

    /// Plays `segment` of the current state instead of its whole range, or the
    /// whole range again for `None`, from a fresh playhead, and keeps it as the
    /// override for states entered later. A segment outside the animation's
    /// range is refused and changes nothing.
    pub fn set_segment(&mut self, segment: Option<Segment>) -> (r: Result<(), ConfigError>)
        requires
            old(self).wf(),
        ensures
            final(self).wf(),
            r is Ok <==> segment_fits(old(self).states@[old(self).current as int], segment),
            r is Err ==> r == Err::<(), ConfigError>(ConfigError::InvalidRange) && *final(self) == *old(self),
            r is Ok ==> {
                let opts = PlaybackOptions { segment, ..old(self).options };
                *final(self) == (LottiePlayer {
                    options: opts,
                    playhead: fresh_playhead(range_of(old(self).states@[old(self).current as int], opts), opts.direction),
                    segment_override: segment,
                    ..*old(self)
                })
            },
    {
        let st = &self.states[self.current];
        let fits = match segment {
            Some(g) => st.start <= g.start && g.start <= g.end && g.end <= st.end,
            None => true,
        };
        if !fits {
            return Err(ConfigError::InvalidRange);
        }
        proof {
            assert(state_valid(self.states@[self.current as int]));
        }
        let options = PlaybackOptions { segment, ..self.options };
        let playhead = start_playhead(&self.states[self.current], &options);
        self.options = options;
        self.playhead = playhead;
        self.segment_override = segment;
        Ok(())
    }

    /// Name of the current state.
    pub fn current_state_name(&self) -> (r: &String)
        requires
            self.wf(),
        ensures
            r@ == self.current_name(),
    {
        &self.states[self.current].name
    }

    /// Progress through the current range as a fraction: sub-frames played
    /// over the span of the range.
    pub fn progress(&self) -> (r: (u64, u64))
        requires
            self.wf(),
        ensures
            r.0 == self.playhead.position - self.playhead.start,
            r.1 == self.playhead.end - self.playhead.start,
    {
        let played = (self.playhead.position as i128 - self.playhead.start as i128) as u64;
        let span = (self.playhead.end as i128 - self.playhead.start as i128) as u64;
        (played, span)
    }

    /// What the renderer draws: the asset, the playhead position and the theme.
    pub fn render_input(&self) -> (r: (u64, i64, &Option<Theme>))
        requires
            self.wf(),
        ensures
            r.0 == self.states@[self.current as int].asset_id,
            r.1 == self.playhead.position,
            *r.2 == self.states@[self.current as int].theme,
    {
        let st = &self.states[self.current];
        (st.asset_id, self.playhead.position, &st.theme)
    }
}

impl LottieIntegrationPlugin {
    /// Runs one tick over `players`: every advance completes before any
    /// evaluation, and every evaluation before any commit, so that each
    /// player goes through the three phases on its own state alone.
    pub fn tick(players: &mut Vec<LottiePlayer>, elapsed_ms: u32)
        requires
            forall|i: int| 0 <= i < old(players)@.len() ==> #[trigger] old(players)@[i].wf(),
        ensures
            final(players)@.len() == old(players)@.len(),
            forall|i: int|
                0 <= i < final(players)@.len() ==> #[trigger] final(players)@[i].wf() && exists|
                    a: LottiePlayer,
                    b: LottiePlayer,
                |
                    old(players)@[i].advance_step(elapsed_ms as int, a) && a.evaluation_step(b)
                        && b.commit_step(final(players)@[i]),
    {
        let ghost start = players@;
        let mut i: usize = 0;
        while i < players.len()
            invariant
                i <= players@.len(),
                players@.len() == start.len(),
                forall|j: int| 0 <= j < players@.len() ==> #[trigger] players@[j].wf(),
                forall|j: int| i <= j < players@.len() ==> #[trigger] players@[j] == start[j],
                forall|j: int|
                    0 <= j < i ==> #[trigger] start[j].advance_step(elapsed_ms as int, players@[j]),
            decreases players@.len() - i,
        {
            players[i].advance(elapsed_ms);
            i = i + 1;
        }
        let ghost advanced_all = players@;
        let mut i: usize = 0;
        while i < players.len()
            invariant
                i <= players@.len(),
                players@.len() == start.len(),
                forall|j: int| 0 <= j < players@.len() ==> #[trigger] players@[j].wf(),
                forall|j: int| i <= j < players@.len() ==> #[trigger] players@[j] == advanced_all[j],
                forall|j: int| 0 <= j < i ==> #[trigger] advanced_all[j].evaluation_step(players@[j]),
            decreases players@.len() - i,
        {
            players[i].run_transitions();
            i = i + 1;
        }
        let ghost evaluated = players@;
        let mut i: usize = 0;
        while i < players.len()
            invariant
                i <= players@.len(),
                players@.len() == start.len(),
                forall|j: int| 0 <= j < players@.len() ==> #[trigger] players@[j].wf(),
                forall|j: int| i <= j < players@.len() ==> #[trigger] players@[j] == evaluated[j],
                forall|j: int| 0 <= j < i ==> #[trigger] evaluated[j].commit_step(players@[j]),
            decreases players@.len() - i,
        {
            players[i].transition_state();
            i = i + 1;
        }
        assert forall|j: int| 0 <= j < players@.len() implies #[trigger] players@[j].wf() && exists|
            a: LottiePlayer,
            b: LottiePlayer,
        |
            start[j].advance_step(elapsed_ms as int, a) && a.evaluation_step(b) && b.commit_step(
                players@[j],
            ) by {
            assert(start[j].advance_step(elapsed_ms as int, advanced_all[j]));
            assert(advanced_all[j].evaluation_step(evaluated[j]));
            assert(evaluated[j].commit_step(players@[j]));
        }
    }
}

/// Evaluation is deterministic: two players with the same current state
/// name, the same events, loop count, posted events and request, and the same
/// transition registry, end evaluation with the same pending transition.
pub proof fn lemma_evaluation_deterministic(p: LottiePlayer, q: LottiePlayer, np: LottiePlayer, nq: LottiePlayer)
    requires
        p.evaluation_step(np),
        q.evaluation_step(nq),
        p.current_name() == q.current_name(),
        p.last_events == q.last_events,
        p.loops_in_state == q.loops_in_state,
        p.posted@ == q.posted@,
        p.requested == q.requested,
        p.transitions@ == q.transitions@,
    ensures
        np.pending == nq.pending,
{
    assert forall|k: int| p.fires(k) == q.fires(k) by {}
    assert forall|a: int, b: int| p.beats(a, b) == q.beats(a, b) by {}
    match (np.pending, nq.pending) {
        (Some(a), Some(b)) => {
            assert(q.selected(a as int));
            lemma_selection_unique(q, a as int, b as int);
        },
        (Some(a), None) => {
            assert(q.fires(a as int));
        },
        (None, Some(b)) => {
            assert(p.fires(b as int));
        },
        (None, None) => {},
    }
}

/// Carrying over keeps the progress fraction: the new offset is the old
/// fraction of the new span, rounded down, so the position stays in the new
/// range and the start and end of the old range map to those of the new one.
pub proof fn lemma_preserve_keeps_fraction(s: int, e: int, p: int, ns: int, ne: int)
    requires
        s < e,
        s <= p <= e,
        ns <= ne,
    ensures
        ({
            let r = preserved_position(s, e, p, ns, ne);
            &&& ns <= r <= ne
            &&& (r - ns) * (e - s) <= (p - s) * (ne - ns) < (r - ns + 1) * (e - s)
            &&& p == s ==> r == ns
            &&& p == e ==> r == ne
        }),
{
    let x = (p - s) * (ne - ns);
    let span = e - s;
    let q = x / span;
    assert(x >= 0) by (nonlinear_arith)
        requires
            x == (p - s) * (ne - ns),
            p >= s,
            ne >= ns,
    ;
    lemma_fundamental_div_mod(x, span);
    lemma_mod_pos_bound(x, span);
    assert(0 <= q <= ne - ns && q * span <= x < (q + 1) * span) by (nonlinear_arith)
        requires
            x == span * q + x % span,
            0 <= x % span < span,
            x == (p - s) * (ne - ns),
            p - s <= span,
            x >= 0,
            ne >= ns,
    ;
    if p == s {
        assert(q == 0) by (nonlinear_arith)
            requires
                x == (p - s) * (ne - ns),
                p == s,
                q * span <= x < (q + 1) * span,
                span > 0,
        ;
    }
    if p == e {
        assert(q == ne - ns) by (nonlinear_arith)
            requires
                x == span * (ne - ns),
                q * span <= x < (q + 1) * span,
                span > 0,
        ;
    }
}

} // verus!
