use lottie_playback::{
    CarryOver, ConfigError, LottieIntegrationPlugin, LottiePlayer, PlaybackDirection,
    PlaybackEvents, PlaybackLoopBehavior, PlaybackOptions, PlaybackPlayMode, PlayerState,
    PlayerTransition, Playhead, Segment, Theme, TransitionTrigger, VelloLottieAnchor, SPEED_ONE,
    SUBFRAMES_PER_FRAME,
};

const F: i64 = SUBFRAMES_PER_FRAME;

fn none() -> PlaybackEvents {
    PlaybackEvents { reached_end: false, reached_start: false, loops_completed: 0 }
}

fn loops(n: u128) -> PlaybackEvents {
    PlaybackEvents { reached_end: false, reached_start: false, loops_completed: n }
}

fn options(direction: PlaybackDirection, loop_behavior: PlaybackLoopBehavior) -> PlaybackOptions {
    PlaybackOptions {
        direction,
        loop_behavior,
        play_mode: PlaybackPlayMode::Playing,
        speed: SPEED_ONE,
        segment: None,
    }
}

fn state(name: &str, frames: i64, frame_rate: u32, opts: PlaybackOptions) -> PlayerState {
    PlayerState {
        name: name.to_string(),
        asset_id: 7,
        start: 0,
        end: frames * F,
        frame_rate,
        options: opts,
        theme: None,
    }
}

fn transition(
    source: Option<&str>,
    target: &str,
    trigger: TransitionTrigger,
    priority: u32,
    carry_over: CarryOver,
) -> PlayerTransition {
    PlayerTransition {
        source: source.map(|s| s.to_string()),
        target: target.to_string(),
        trigger,
        priority,
        carry_over,
    }
}

fn tick(p: &mut LottiePlayer, elapsed_ms: u32) -> PlaybackEvents {
    let ev = p.advance(elapsed_ms);
    p.run_transitions();
    p.transition_state();
    ev
}

#[test]
fn once_clamps_and_reports_end_once() {
    let mut ph = Playhead::new(0, 10, PlaybackDirection::Normal);
    assert_eq!(ph.advance_by(PlaybackLoopBehavior::Once, 4), none());
    assert_eq!(ph.position, 4);
    let ev = ph.advance_by(PlaybackLoopBehavior::Once, 25);
    assert!(ev.reached_end && !ev.reached_start && ev.loops_completed == 0);
    assert_eq!(ph.position, 10);
    for _ in 0..5 {
        assert_eq!(ph.advance_by(PlaybackLoopBehavior::Once, 7), none());
        assert_eq!(ph.position, 10);
    }
    let ev = ph.advance_by(PlaybackLoopBehavior::Once, -30);
    assert!(ev.reached_start && !ev.reached_end);
    assert_eq!(ph.position, 0);
    assert_eq!(ph.advance_by(PlaybackLoopBehavior::Once, -3), none());
}

#[test]
fn once_landing_exactly_on_end_reports_it() {
    let mut ph = Playhead::new(0, 10, PlaybackDirection::Normal);
    let ev = ph.advance_by(PlaybackLoopBehavior::Once, 10);
    assert!(ev.reached_end);
    assert_eq!(ph.position, 10);
}

#[test]
fn loop_full_span_returns_with_one_loop() {
    let mut ph = Playhead::new(100, 160, PlaybackDirection::Normal);
    ph.position = 123;
    assert_eq!(ph.advance_by(PlaybackLoopBehavior::Loop, 60), loops(1));
    assert_eq!(ph.position, 123);
    assert_eq!(ph.advance_by(PlaybackLoopBehavior::Loop, -60), loops(1));
    assert_eq!(ph.position, 123);
}

#[test]
fn loop_carries_overshoot() {
    let mut ph = Playhead::new(0, 10, PlaybackDirection::Normal);
    ph.position = 8;
    assert_eq!(ph.advance_by(PlaybackLoopBehavior::Loop, 25), loops(3));
    assert_eq!(ph.position, 3);
    assert_eq!(ph.advance_by(PlaybackLoopBehavior::Loop, -5), loops(1));
    assert_eq!(ph.position, 8);
}

#[test]
fn pingpong_reflects_and_returns_after_double_span() {
    let mut ph = Playhead::new(0, 10, PlaybackDirection::Normal);
    ph.position = 4;
    assert_eq!(ph.advance_by(PlaybackLoopBehavior::PingPong, 5), none());
    assert_eq!(ph.position, 9);
    assert_eq!(ph.travel, PlaybackDirection::Normal);
    assert_eq!(ph.advance_by(PlaybackLoopBehavior::PingPong, 3), loops(1));
    assert_eq!(ph.position, 8);
    assert_eq!(ph.travel, PlaybackDirection::Reverse);
    let mut ph = Playhead::new(0, 10, PlaybackDirection::Normal);
    ph.position = 4;
    assert_eq!(ph.advance_by(PlaybackLoopBehavior::PingPong, 20), loops(2));
    assert_eq!(ph.position, 4);
    assert_eq!(ph.travel, PlaybackDirection::Normal);
}

#[test]
fn pingpong_player_reverses_travel() {
    let opts = options(PlaybackDirection::Normal, PlaybackLoopBehavior::PingPong);
    let mut p = LottiePlayer::new(vec![state("a", 10, 1, opts)], vec![], &"a".to_string()).unwrap();
    let ev = p.advance(12_000);
    assert_eq!(ev, loops(1));
    assert_eq!(p.playhead.position, 8 * F);
    assert_eq!(p.playhead.travel, PlaybackDirection::Reverse);
    p.advance(3_000);
    assert_eq!(p.playhead.position, 5 * F);
}

#[test]
fn zero_span_is_pinned() {
    for behavior in [PlaybackLoopBehavior::Once, PlaybackLoopBehavior::Loop, PlaybackLoopBehavior::PingPong] {
        for d in [-1_000_000i128, -1, 0, 1, 77, 1_000_000] {
            let mut ph = Playhead::new(42, 42, PlaybackDirection::Reverse);
            assert_eq!(ph.advance_by(behavior, d), none());
            assert_eq!(ph.position, 42);
        }
    }
}

#[test]
fn paused_and_zero_speed_do_not_move() {
    let mut opts = options(PlaybackDirection::Normal, PlaybackLoopBehavior::Loop);
    opts.speed = 0;
    let mut p = LottiePlayer::new(vec![state("a", 10, 30, opts)], vec![], &"a".to_string()).unwrap();
    assert_eq!(p.advance(5_000), none());
    assert_eq!(p.playhead.position, 0);
    p.set_speed(SPEED_ONE);
    p.set_play_mode(PlaybackPlayMode::Paused);
    assert_eq!(p.advance(5_000), none());
    assert_eq!(p.playhead.position, 0);
}

#[test]
fn negative_speed_and_reverse_direction() {
    let mut opts = options(PlaybackDirection::Reverse, PlaybackLoopBehavior::Once);
    opts.speed = SPEED_ONE / 2;
    let mut p = LottiePlayer::new(vec![state("a", 10, 2, opts)], vec![], &"a".to_string()).unwrap();
    assert_eq!(p.playhead.position, 10 * F);
    p.advance(2_000);
    assert_eq!(p.playhead.position, 8 * F);
    p.set_speed(-SPEED_ONE);
    p.advance(500);
    assert_eq!(p.playhead.position, 9 * F);
}

#[test]
fn stop_resets_to_direction_start() {
    let opts = options(PlaybackDirection::Normal, PlaybackLoopBehavior::Loop);
    let mut p = LottiePlayer::new(vec![state("a", 10, 1, opts)], vec![], &"a".to_string()).unwrap();
    p.advance(3_000);
    assert_eq!(p.playhead.position, 3 * F);
    p.set_play_mode(PlaybackPlayMode::Stopped);
    assert_eq!(p.playhead.position, 0);
    assert_eq!(p.advance(3_000), none());
    assert_eq!(p.playhead.position, 0);
}

#[test]
fn selection_prefers_priority_then_registration() {
    let opts = options(PlaybackDirection::Normal, PlaybackLoopBehavior::Once);
    let states = vec![state("idle", 1, 1, opts), state("x", 1, 1, opts), state("y", 1, 1, opts), state("z", 1, 1, opts)];
    let transitions = vec![
        transition(Some("idle"), "x", TransitionTrigger::ReachedEnd, 5, CarryOver::Reset),
        transition(None, "y", TransitionTrigger::ReachedEnd, 2, CarryOver::Reset),
        transition(Some("idle"), "z", TransitionTrigger::ReachedEnd, 2, CarryOver::Reset),
    ];
    for _ in 0..3 {
        let mut p = LottiePlayer::new(states.clone(), transitions.clone(), &"idle".to_string()).unwrap();
        p.advance(1_000);
        p.run_transitions();
        assert_eq!(p.pending, Some(1));
        assert_eq!(p.current_state_name(), "idle");
        p.transition_state();
        assert_eq!(p.current_state_name(), "y");
        assert_eq!(p.pending, None);
    }
}

#[test]
fn no_match_leaves_pending_empty() {
    let opts = options(PlaybackDirection::Normal, PlaybackLoopBehavior::Once);
    let states = vec![state("idle", 10, 1, opts), state("x", 1, 1, opts)];
    let transitions = vec![
        transition(Some("idle"), "x", TransitionTrigger::ReachedEnd, 0, CarryOver::Reset),
        transition(Some("x"), "idle", TransitionTrigger::Requested, 0, CarryOver::Reset),
    ];
    let mut p = LottiePlayer::new(states, transitions, &"idle".to_string()).unwrap();
    tick(&mut p, 1_000);
    assert_eq!(p.pending, None);
    assert_eq!(p.current_state_name(), "idle");
    assert_eq!(p.playhead.position, F);
}

#[test]
fn request_wins_over_event_trigger() {
    let opts = options(PlaybackDirection::Normal, PlaybackLoopBehavior::Once);
    let states = vec![state("idle", 1, 1, opts), state("done", 1, 1, opts), state("hover", 1, 1, opts)];
    let transitions = vec![
        transition(Some("idle"), "done", TransitionTrigger::ReachedEnd, 0, CarryOver::Reset),
        transition(None, "hover", TransitionTrigger::Requested, 9, CarryOver::Reset),
    ];
    let mut p = LottiePlayer::new(states, transitions, &"idle".to_string()).unwrap();
    p.request_transition("hover".to_string());
    tick(&mut p, 2_000);
    assert_eq!(p.current_state_name(), "hover");
    assert_eq!(p.requested, None);
}

#[test]
fn request_is_spent_after_the_tick() {
    let opts = options(PlaybackDirection::Normal, PlaybackLoopBehavior::Once);
    let states = vec![state("idle", 10, 1, opts), state("hover", 1, 1, opts)];
    let transitions = vec![transition(Some("hover"), "idle", TransitionTrigger::Requested, 0, CarryOver::Reset)];
    let mut p = LottiePlayer::new(states, transitions, &"idle".to_string()).unwrap();
    p.request_transition("idle".to_string());
    tick(&mut p, 0);
    assert_eq!(p.current_state_name(), "idle");
    assert_eq!(p.requested, None);
}

#[test]
fn named_event_triggers_transition() {
    let opts = options(PlaybackDirection::Normal, PlaybackLoopBehavior::Loop);
    let states = vec![state("idle", 10, 1, opts), state("clicked", 4, 1, opts)];
    let transitions = vec![transition(
        Some("idle"),
        "clicked",
        TransitionTrigger::Event("click".to_string()),
        0,
        CarryOver::Reset,
    )];
    let mut p = LottiePlayer::new(states, transitions, &"idle".to_string()).unwrap();
    p.post_event("hover".to_string());
    tick(&mut p, 1_000);
    assert_eq!(p.current_state_name(), "idle");
    p.post_event("click".to_string());
    tick(&mut p, 1_000);
    assert_eq!(p.current_state_name(), "clicked");
    assert_eq!(p.playhead.start, 0);
    assert_eq!(p.playhead.end, 4 * F);
    assert_eq!(p.playhead.position, 0);
    assert!(p.posted.is_empty());
}

#[test]
fn loops_completed_counts_since_entering_state() {
    let opts = options(PlaybackDirection::Normal, PlaybackLoopBehavior::Loop);
    let states = vec![state("idle", 2, 1, opts), state("bored", 2, 1, opts)];
    let transitions = vec![transition(Some("idle"), "bored", TransitionTrigger::LoopsCompleted(3), 0, CarryOver::Reset)];
    let mut p = LottiePlayer::new(states, transitions, &"idle".to_string()).unwrap();
    assert_eq!(tick(&mut p, 2_000), loops(1));
    assert_eq!(tick(&mut p, 2_000), loops(1));
    assert_eq!(p.current_state_name(), "idle");
    assert_eq!(p.loops_in_state, 2);
    assert_eq!(tick(&mut p, 2_000), loops(1));
    assert_eq!(p.current_state_name(), "bored");
    assert_eq!(p.loops_in_state, 0);
}

#[test]
fn reached_start_triggers_in_reverse() {
    let opts = options(PlaybackDirection::Reverse, PlaybackLoopBehavior::Once);
    let states = vec![state("rewind", 3, 1, opts), state("rest", 1, 1, options(PlaybackDirection::Normal, PlaybackLoopBehavior::Once))];
    let transitions = vec![transition(Some("rewind"), "rest", TransitionTrigger::ReachedStart, 0, CarryOver::Reset)];
    let mut p = LottiePlayer::new(states, transitions, &"rewind".to_string()).unwrap();
    let ev = tick(&mut p, 3_000);
    assert!(ev.reached_start);
    assert_eq!(p.current_state_name(), "rest");
}

#[test]
fn preserve_carries_progress_fraction() {
    let opts = options(PlaybackDirection::Normal, PlaybackLoopBehavior::Once);
    let states = vec![state("small", 10, 1, opts), state("large", 20, 1, opts)];
    let transitions = vec![transition(Some("small"), "large", TransitionTrigger::Requested, 0, CarryOver::Preserve)];
    let mut p = LottiePlayer::new(states, transitions, &"small".to_string()).unwrap();
    p.advance(5_000);
    assert_eq!(p.playhead.position, 5 * F);
    p.request_transition("large".to_string());
    p.run_transitions();
    p.transition_state();
    assert_eq!(p.current_state_name(), "large");
    assert_eq!(p.playhead.position, 10 * F);
    assert_eq!(p.playhead.end, 20 * F);
}

#[test]
fn preserve_into_zero_span_yields_start() {
    let opts = options(PlaybackDirection::Normal, PlaybackLoopBehavior::Once);
    let mut point = state("point", 0, 1, opts);
    point.start = 3 * F;
    point.end = 3 * F;
    let states = vec![state("a", 10, 1, opts), point];
    let transitions = vec![transition(None, "point", TransitionTrigger::ReachedEnd, 0, CarryOver::Preserve)];
    let mut p = LottiePlayer::new(states, transitions, &"a".to_string()).unwrap();
    tick(&mut p, 10_000);
    assert_eq!(p.current_state_name(), "point");
    assert_eq!(p.playhead.position, 3 * F);
    assert_eq!(tick(&mut p, 10_000), none());
    assert_eq!(p.playhead.position, 3 * F);
}

#[test]
fn idle_to_active_end_to_end() {
    let idle = state("idle", 30, 30, options(PlaybackDirection::Normal, PlaybackLoopBehavior::Loop));
    let mut active = state("active", 60, 30, options(PlaybackDirection::Normal, PlaybackLoopBehavior::Once));
    active.start = 40 * F;
    let transitions = vec![transition(Some("idle"), "active", TransitionTrigger::LoopsCompleted(1), 0, CarryOver::Reset)];
    let mut p = LottiePlayer::new(vec![idle, active], transitions, &"idle".to_string()).unwrap();
    assert_eq!(p.current_state_name(), "idle");
    let ev = p.advance(1_000);
    assert_eq!(ev, loops(1));
    assert_eq!(p.playhead.position, 0);
    p.run_transitions();
    p.transition_state();
    assert_eq!(p.current_state_name(), "active");
    assert_eq!(p.playhead.start, 40 * F);
    assert_eq!(p.playhead.end, 60 * F);
    assert_eq!(p.playhead.position, 40 * F);
}

#[test]
fn plugin_tick_runs_every_player() {
    let idle = state("idle", 30, 30, options(PlaybackDirection::Normal, PlaybackLoopBehavior::Loop));
    let active = state("active", 60, 30, options(PlaybackDirection::Normal, PlaybackLoopBehavior::Once));
    let transitions = vec![transition(Some("idle"), "active", TransitionTrigger::LoopsCompleted(1), 0, CarryOver::Reset)];
    let a = LottiePlayer::new(vec![idle.clone(), active.clone()], transitions.clone(), &"idle".to_string()).unwrap();
    let b = LottiePlayer::new(vec![idle, active], transitions, &"active".to_string()).unwrap();
    let mut players = vec![a, b];
    LottieIntegrationPlugin::tick(&mut players, 1_000);
    assert_eq!(players[0].current_state_name(), "active");
    assert_eq!(players[0].playhead.position, 0);
    assert_eq!(players[1].current_state_name(), "active");
    assert_eq!(players[1].playhead.position, 30 * F);
}

#[test]
fn configuration_errors() {
    let opts = options(PlaybackDirection::Normal, PlaybackLoopBehavior::Once);
    let mut bad = state("bad", 10, 1, opts);
    bad.start = 11 * F;
    let r = LottiePlayer::new(vec![bad], vec![], &"bad".to_string());
    assert_eq!(r.err(), Some(ConfigError::InvalidRange));

    let mut seg = opts;
    seg.segment = Some(Segment { start: 2 * F, end: 12 * F });
    let r = LottiePlayer::new(vec![state("s", 10, 1, seg)], vec![], &"s".to_string());
    assert_eq!(r.err(), Some(ConfigError::InvalidRange));

    let r = LottiePlayer::new(vec![state("a", 1, 1, opts), state("a", 2, 1, opts)], vec![], &"a".to_string());
    assert_eq!(r.err(), Some(ConfigError::DuplicateState));

    let t = vec![transition(None, "ghost", TransitionTrigger::ReachedEnd, 0, CarryOver::Reset)];
    let r = LottiePlayer::new(vec![state("a", 1, 1, opts)], t, &"a".to_string());
    assert_eq!(r.err(), Some(ConfigError::DanglingTarget));

    let r = LottiePlayer::new(vec![state("a", 1, 1, opts)], vec![], &"b".to_string());
    assert_eq!(r.err(), Some(ConfigError::UnknownInitial));
}

#[test]
fn segment_override() {
    let opts = options(PlaybackDirection::Normal, PlaybackLoopBehavior::Loop);
    let mut p = LottiePlayer::new(vec![state("a", 10, 1, opts)], vec![], &"a".to_string()).unwrap();
    assert_eq!(p.set_segment(Some(Segment { start: 9 * F, end: 11 * F })), Err(ConfigError::InvalidRange));
    assert_eq!(p.playhead.end, 10 * F);
    assert_eq!(p.set_segment(Some(Segment { start: 2 * F, end: 6 * F })), Ok(()));
    assert_eq!(p.playhead.position, 2 * F);
    assert_eq!(p.advance(5_000), loops(1));
    assert_eq!(p.playhead.position, 3 * F);
    assert_eq!(p.progress(), (F as u64, 4 * F as u64));
    assert_eq!(p.set_segment(None), Ok(()));
    assert_eq!(p.playhead.end, 10 * F);
}

#[test]
fn render_input_reports_asset_position_and_theme() {
    let opts = options(PlaybackDirection::Normal, PlaybackLoopBehavior::Once);
    let mut st = state("a", 10, 1, opts);
    let mut theme = Theme::new();
    theme.set("fill".to_string(), "#ff0000".to_string());
    st.theme = Some(theme);
    let mut p = LottiePlayer::new(vec![st], vec![], &"a".to_string()).unwrap();
    p.advance(2_000);
    let (asset, pos, theme) = p.render_input();
    assert_eq!(asset, 7);
    assert_eq!(pos, 2 * F);
    assert_eq!(theme.as_ref().unwrap().get(&"fill".to_string()), Some("#ff0000".to_string()));
}

#[test]
fn theme_overrides_replace() {
    let mut t = Theme::new();
    assert_eq!(t.get(&"stroke".to_string()), None);
    t.set("stroke".to_string(), "blue".to_string());
    t.set("fill".to_string(), "red".to_string());
    t.set("stroke".to_string(), "green".to_string());
    assert_eq!(t.get(&"stroke".to_string()), Some("green".to_string()));
    assert_eq!(t.get(&"fill".to_string()), Some("red".to_string()));
    assert_eq!(t.entries.len(), 2);
}

#[test]
fn anchor_shifts() {
    assert_eq!(VelloLottieAnchor::default(), VelloLottieAnchor::Center);
    assert_eq!(VelloLottieAnchor::Center.shift(), (0, 0));
    assert_eq!(VelloLottieAnchor::TopLeft.shift(), (1, -1));
    assert_eq!(VelloLottieAnchor::BottomRight.shift(), (-1, 1));
    assert_eq!(VelloLottieAnchor::Right.shift(), (-1, 0));
    assert_eq!(VelloLottieAnchor::Bottom.shift(), (0, 1));
}

#[test]
fn default_options() {
    let o = PlaybackOptions::new();
    assert_eq!(o.direction, PlaybackDirection::Normal);
    assert_eq!(o.loop_behavior, PlaybackLoopBehavior::Once);
    assert_eq!(o.play_mode, PlaybackPlayMode::Playing);
    assert_eq!(o.speed, 1000);
    assert_eq!(o.segment, None);
    assert_eq!(PlaybackDirection::Normal.flip(), PlaybackDirection::Reverse);
}

#[test]
fn pingpong_reflects_at_start_when_moving_back() {
    let mut ph = Playhead::new(0, 10, PlaybackDirection::Reverse);
    ph.position = 2;
    assert_eq!(ph.advance_by(PlaybackLoopBehavior::PingPong, -1), none());
    assert_eq!(ph.position, 1);
    assert_eq!(ph.travel, PlaybackDirection::Reverse);
    assert_eq!(ph.advance_by(PlaybackLoopBehavior::PingPong, -4), loops(1));
    assert_eq!(ph.position, 3);
    assert_eq!(ph.travel, PlaybackDirection::Normal);
    assert_eq!(ph.advance_by(PlaybackLoopBehavior::PingPong, -20), loops(2));
    assert_eq!(ph.position, 3);
    assert_eq!(ph.travel, PlaybackDirection::Normal);
}

#[test]
fn find_state_by_name() {
    let opts = options(PlaybackDirection::Normal, PlaybackLoopBehavior::Once);
    let states = vec![state("idle", 1, 1, opts), state("hover", 1, 1, opts)];
    assert_eq!(lottie_playback::player::find_state(&states, &"hover".to_string()), Some(1));
    assert_eq!(lottie_playback::player::find_state(&states, &"idle".to_string()), Some(0));
    assert_eq!(lottie_playback::player::find_state(&states, &"gone".to_string()), None);
}

#[test]
fn loop_backward_from_start_returns_with_one_loop() {
    let mut opts = options(PlaybackDirection::Normal, PlaybackLoopBehavior::Loop);
    opts.speed = -SPEED_ONE;
    let mut p = LottiePlayer::new(vec![state("a", 30, 30, opts)], vec![], &"a".to_string()).unwrap();
    assert_eq!(p.playhead.position, 0);
    assert_eq!(p.advance(1_000), loops(1));
    assert_eq!(p.playhead.position, 0);
    assert_eq!(p.advance(500), none());
    assert_eq!(p.playhead.position, 15 * F);
}

#[test]
fn loop_leaving_the_seam_counts_no_wrap() {
    let mut ph = Playhead::new(0, 10, PlaybackDirection::Normal);
    assert_eq!(ph.advance_by(PlaybackLoopBehavior::Loop, -3), none());
    assert_eq!(ph.position, 7);
    ph.position = 10;
    assert_eq!(ph.advance_by(PlaybackLoopBehavior::Loop, 4), none());
    assert_eq!(ph.position, 4);
    assert_eq!(ph.advance_by(PlaybackLoopBehavior::Loop, -4), loops(1));
    assert_eq!(ph.position, 0);
    for start in 0..10 {
        ph.position = start;
        assert_eq!(ph.advance_by(PlaybackLoopBehavior::Loop, -10), loops(1));
        assert_eq!(ph.position, start);
        assert_eq!(ph.advance_by(PlaybackLoopBehavior::Loop, 10), loops(1));
        assert_eq!(ph.position, start);
    }
}

#[test]
fn segment_override_survives_transition_where_it_fits() {
    let opts = options(PlaybackDirection::Normal, PlaybackLoopBehavior::Loop);
    let states = vec![state("a", 10, 1, opts), state("b", 20, 1, opts), state("c", 3, 1, opts)];
    let transitions = vec![
        transition(Some("a"), "b", TransitionTrigger::Requested, 0, CarryOver::Reset),
        transition(Some("b"), "c", TransitionTrigger::Requested, 0, CarryOver::Reset),
    ];
    let mut p = LottiePlayer::new(states, transitions, &"a".to_string()).unwrap();
    assert_eq!(p.set_segment(Some(Segment { start: 2 * F, end: 6 * F })), Ok(()));
    p.request_transition("b".to_string());
    tick(&mut p, 0);
    assert_eq!(p.current_state_name(), "b");
    assert_eq!(p.options.segment, Some(Segment { start: 2 * F, end: 6 * F }));
    assert_eq!((p.playhead.start, p.playhead.end, p.playhead.position), (2 * F, 6 * F, 2 * F));
    p.request_transition("c".to_string());
    tick(&mut p, 0);
    assert_eq!(p.current_state_name(), "c");
    assert_eq!(p.options.segment, None);
    assert_eq!((p.playhead.start, p.playhead.end), (0, 3 * F));
}

#[test]
fn pingpong_over_several_ticks_returns() {
    let opts = options(PlaybackDirection::Normal, PlaybackLoopBehavior::PingPong);
    let mut p = LottiePlayer::new(vec![state("a", 10, 1, opts)], vec![], &"a".to_string()).unwrap();
    p.advance(3_000);
    assert_eq!(p.playhead.position, 3 * F);
    let mut total = 0;
    for ms in [4_000u32, 5_000, 2_500, 6_000, 2_500] {
        total += p.advance(ms).loops_completed;
    }
    assert_eq!(total, 2);
    assert_eq!(p.playhead.position, 3 * F);
    assert_eq!(p.playhead.travel, PlaybackDirection::Normal);
}
