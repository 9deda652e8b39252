//! Cue dispatch and the operator's console.

use multiplex::clock::{compute_offset, now_utc_ms, utc_ms};
use multiplex::console::{
    apply_edit, apply_show, blackout, broadcast, edit_saved, go_selected, go_selected_at,
    maybe_standby, maybe_standby_at, move_selection, show_not_opened, show_opened, stop_all,
};
use multiplex::dispatch::{
    apply_exclude_action, apply_exclude_action_at, go_for_client, go_for_client_at, idle_layer,
    standby_for_client, standby_for_client_at,
};
use multiplex::editing::{editor_step, open_editor, EditorAction, EditorStep};
use multiplex::known_clients::{KnownClient, KnownEntry};
use multiplex::panel::{
    commit_rename, cue_entries, fleet_controls, fmt_ms, is_show_file, pause_all, resume_all,
    roster_entry, run_frame_at, select, self_update_control, short_id, show_summary, shown_log,
    testscreen_label, toggle_testscreen, CueGlyphs, FrameInput, SelectionClock, SelfUpdate,
    SelfUpdateControl, UpdateControl,
};
use multiplex::picker::{client_picks, comes_before};
use multiplex::protocol::{ClientState, ControllerMsg, FadeCmd, Layer, Outgoing};
use multiplex::show::{
    Cue, CueKind, CueTarget, ExcludeAction, ShowError, ShowFile, DEFAULT_FADE_MS,
};
use multiplex::state::{
    AppState, ClientRow, ClientStatus, ClientUpdate, LayerState, MediaFileStatus, PreflightEntry,
    PushProgress, StandbySlot,
};

fn row(id: &str, name: &str) -> ClientRow {
    ClientRow {
        client_id: id.into(),
        name: name.into(),
        layers: LayerState::idle(),
        status: ClientStatus {
            addr: "10.0.0.1:5".into(),
            state: ClientState::Idle,
            current_cue: None,
            position_ms: 0,
            offset_ms: None,
            last_drift_ms: None,
            last_heartbeat_ms: 0,
            app_version: String::new(),
            target_triple: String::new(),
            update: ClientUpdate::Idle,
            preflight: vec![],
            push_progress: None,
        },
    }
}

fn controller(ids: &[&str]) -> AppState {
    let mut state = AppState::new();
    for id in ids {
        state.clients.push(row(id, id));
    }
    state
}

fn base_cue(id: &str) -> Cue {
    Cue {
        id: id.into(),
        name: id.into(),
        kind: CueKind::Video,
        file: "a.mp4".into(),
        ..Default::default()
    }
}

fn texts(list: &[&str]) -> Vec<String> {
    list.iter().map(|s| s.to_string()).collect()
}

/// Who gets what, in order, in one word each.
fn words(out: &[Outgoing]) -> Vec<String> {
    out.iter()
        .map(|o| {
            let what = match &o.msg {
                ControllerMsg::AssignName(a) => format!("name {}", a.name),
                ControllerMsg::LoadCue(l) => format!("load {} {:?}", l.cue_id, l.layer),
                ControllerMsg::Standby(l) => format!("standby {} {:?}", l.cue_id, l.layer),
                ControllerMsg::PlayAt(p) => {
                    format!("play {:?} at {} over {:?}", p.layer, p.master_start_utc_ms, p.crossfade_ms)
                }
                ControllerMsg::Fade(f) => format!("fade {}", f.duration_ms),
                ControllerMsg::ShowSync(s) => format!("show {}", s.show.title),
                other => format!("{other:?}"),
            };
            format!("{}: {what}", o.client_id)
        })
        .collect()
}

#[test]
fn whitelist_cue_dispatches_only_to_targeted_client() {
    let mut state = controller(&["client-a", "client-b"]);
    let cue = Cue {
        target: CueTarget::Whitelist { clients: vec!["client-a".into()] },
        ..base_cue("c1")
    };
    let out = go_for_client(&mut state, &cue, "client-a", 0);
    let rest = apply_exclude_action(&mut state, &cue, &texts(&["client-b"]), 0);
    assert_eq!(out.len(), 2);
    assert_eq!(out[0].client_id, "client-a");
    match &out[0].msg {
        ControllerMsg::LoadCue(lc) => assert_eq!(lc.cue_id, "c1"),
        other => panic!("expected LOAD_CUE for included client, got {other:?}"),
    }
    match &out[1].msg {
        ControllerMsg::PlayAt(_) => {}
        other => panic!("expected PLAY_AT for included client, got {other:?}"),
    }
    // Default exclude_action is Ignore: the excluded client gets nothing.
    assert!(rest.is_empty());
}

#[test]
fn blacklist_cue_dispatches_to_non_blacklisted_client() {
    let mut state = controller(&["client-a", "client-b"]);
    let cue = Cue {
        target: CueTarget::Blacklist { clients: vec!["client-b".into()] },
        ..base_cue("c1")
    };
    let out = go_for_client(&mut state, &cue, "client-a", 0);
    let rest = apply_exclude_action(&mut state, &cue, &texts(&["client-b"]), 0);
    match &out[0].msg {
        ControllerMsg::LoadCue(lc) => assert_eq!(lc.cue_id, "c1"),
        other => panic!("expected LOAD_CUE for non-blacklisted client, got {other:?}"),
    }
    assert!(rest.is_empty());
}

#[test]
fn exclude_action_poster_sends_fade_to_excluded_client() {
    let mut state = controller(&["client-b"]);
    let cue = Cue { exclude_action: ExcludeAction::Poster, ..base_cue("c1") };
    let out = apply_exclude_action(&mut state, &cue, &texts(&["client-b"]), 0);
    assert_eq!(out.len(), 1);
    match &out[0].msg {
        ControllerMsg::Fade(f) => assert_eq!(f.duration_ms, DEFAULT_FADE_MS),
        other => panic!("expected FADE for a Poster-excluded client, got {other:?}"),
    }
}

#[test]
fn exclude_action_color_sends_synthetic_color_cue() {
    let mut state = controller(&["client-b"]);
    let cue = Cue {
        exclude_action: ExcludeAction::Color,
        exclude_color: Some("#112233".into()),
        fade_in_ms: 250,
        ..base_cue("c1")
    };
    let out = apply_exclude_action(&mut state, &cue, &texts(&["client-b"]), 0);
    match &out[0].msg {
        ControllerMsg::LoadCue(lc) => {
            assert_eq!(lc.cue_id, "c1");
            assert_eq!(lc.kind, CueKind::Color);
            assert_eq!(lc.color.as_deref(), Some("#112233"));
            assert_eq!(lc.file, "");
            assert_eq!(lc.fade_in_ms, 250);
        }
        other => panic!("expected a synthetic colour LOAD_CUE, got {other:?}"),
    }
    match &out[1].msg {
        ControllerMsg::PlayAt(_) => {}
        other => panic!("expected PLAY_AT to follow the colour LOAD_CUE, got {other:?}"),
    }
}

#[test]
fn a_color_exclusion_without_a_color_is_black() {
    let mut state = controller(&["b"]);
    let cue = Cue { exclude_action: ExcludeAction::Color, ..base_cue("c1") };
    let out = apply_exclude_action_at(&mut state, &cue, &texts(&["b", "gone"]), 0, 1000);
    assert_eq!(words(&out), vec!["b: load c1 A", "b: play A at 1000 over None"]);
    match &out[0].msg {
        ControllerMsg::LoadCue(lc) => assert_eq!(lc.color.as_deref(), Some("#000000")),
        other => panic!("expected LOAD_CUE, got {other:?}"),
    }
}

#[test]
fn the_idle_layer_is_the_one_not_on_air() {
    assert_eq!(idle_layer(None), Layer::A);
    assert_eq!(idle_layer(Some(Layer::A)), Layer::B);
    assert_eq!(idle_layer(Some(Layer::B)), Layer::A);
}

#[test]
fn successive_cues_alternate_layers_and_crossfade() {
    let mut state = controller(&["a"]);
    let first = go_for_client_at(&mut state, &base_cue("c1"), "a", 250, 10_000);
    assert_eq!(words(&first), vec!["a: load c1 A", "a: play A at 10250 over None"]);
    assert_eq!(state.clients[0].layers.idle_free_utc_ms, 0);
    let cue = Cue { fade_in_ms: 10, ..base_cue("c2") };
    let second = go_for_client_at(&mut state, &cue, "a", 250, 20_000);
    assert_eq!(words(&second), vec!["a: load c2 B", "a: play B at 20250 over Some(10)"]);
    assert_eq!(state.clients[0].layers.idle_free_utc_ms, 20_000 + 250 + 10 + 300);
    let cue = Cue { fade_in_ms: 900, ..base_cue("c3") };
    let third = go_for_client_at(&mut state, &cue, "a", 250, 30_000);
    assert_eq!(words(&third), vec!["a: load c3 A", "a: play A at 30250 over Some(900)"]);
    assert_eq!(state.clients[0].layers.now_playing.as_deref(), Some("c3"));
    assert_eq!(
        state.log_lines,
        vec![
            "GO cue c1 → a on layer A (cold load)",
            "GO cue c2 → a on layer B (cold load)",
            "GO cue c3 → a on layer A (cold load)",
        ]
    );
}

#[test]
fn a_preloaded_cue_starts_without_a_load() {
    let mut state = controller(&["a"]);
    let cue = base_cue("c1");
    let out = standby_for_client_at(&mut state, &cue, "a", 5);
    assert_eq!(words(&out), vec!["a: standby c1 A"]);
    // Once is enough.
    assert!(standby_for_client_at(&mut state, &cue, "a", 6).is_empty());
    let out = go_for_client_at(&mut state, &cue, "a", 0, 7);
    assert_eq!(words(&out), vec!["a: play A at 7 over None"]);
    assert_eq!(state.clients[0].layers.standby, None);
    assert_eq!(
        state.log_lines,
        vec!["STANDBY cue c1 → a on layer A", "GO cue c1 → a on layer A (preloaded)"]
    );
}

#[test]
fn nothing_is_preloaded_while_the_idle_layer_fades_out() {
    let mut state = controller(&["a"]);
    state.clients[0].layers.active_layer = Some(Layer::A);
    state.clients[0].layers.idle_free_utc_ms = 100;
    assert!(standby_for_client_at(&mut state, &base_cue("c1"), "a", 99).is_empty());
    assert_eq!(state.clients[0].layers.standby, None);
    let out = standby_for_client_at(&mut state, &base_cue("c1"), "a", 100);
    assert_eq!(words(&out), vec!["a: standby c1 B"]);
    assert_eq!(
        state.clients[0].layers.standby,
        Some(StandbySlot { cue_id: "c1".into(), layer: Layer::B })
    );
}

#[test]
fn a_client_that_is_gone_is_left_alone() {
    let mut state = controller(&["a"]);
    assert!(go_for_client(&mut state, &base_cue("c1"), "b", 0).is_empty());
    assert!(standby_for_client(&mut state, &base_cue("c1"), "b").is_empty());
    assert!(state.log_lines.is_empty());
}

#[test]
fn the_poster_resets_the_excluded_client() {
    let mut state = controller(&["a", "b"]);
    for id in ["a", "b"] {
        go_for_client_at(&mut state, &base_cue("c1"), id, 0, 0);
    }
    let cue = Cue { exclude_action: ExcludeAction::Poster, ..base_cue("c2") };
    apply_exclude_action_at(&mut state, &cue, &texts(&["b"]), 0, 0);
    assert_eq!(state.clients[0].layers.now_playing.as_deref(), Some("c1"));
    assert_eq!(state.clients[1].layers.now_playing, None);
    assert_eq!(state.clients[1].layers.active_layer, None);
    let out = go_for_client_at(&mut state, &base_cue("c3"), "b", 0, 0);
    assert_eq!(words(&out), vec!["b: load c3 A", "b: play A at 0 over None"]);
}

#[test]
fn start_times_stop_at_the_last_that_fits() {
    let mut state = controller(&["a"]);
    let out = go_for_client(&mut state, &base_cue("c1"), "a", u64::MAX);
    let last = u64::MAX;
    assert_eq!(
        words(&out),
        vec!["a: load c1 A".to_string(), format!("a: play A at {last} over None")]
    );
    let cue = Cue { fade_in_ms: 5, ..base_cue("c2") };
    let out = go_for_client_at(&mut state, &cue, "a", 1, u64::MAX - 3);
    assert_eq!(words(&out)[1], format!("a: play B at {} over Some(5)", last - 2));
    assert_eq!(state.clients[0].layers.idle_free_utc_ms, last);
}

#[test]
fn a_go_elsewhere_does_not_disturb_the_layers() {
    let mut state = controller(&["a", "b"]);
    go_for_client_at(&mut state, &base_cue("c1"), "a", 0, 0);
    go_for_client_at(&mut state, &base_cue("c1"), "b", 0, 0);
    go_for_client_at(&mut state, &base_cue("c2"), "b", 0, 0);
    let cue = Cue { fade_in_ms: 70, ..base_cue("c1") };
    let out = go_for_client_at(&mut state, &cue, "a", 0, 9);
    assert_eq!(words(&out), vec!["a: load c1 B", "a: play B at 9 over Some(70)"]);
}

#[test]
fn another_cue_than_the_preloaded_one_is_loaded_on_its_layer() {
    let mut state = controller(&["a"]);
    standby_for_client_at(&mut state, &base_cue("c1"), "a", 0);
    let out = go_for_client_at(&mut state, &base_cue("c2"), "a", 0, 1);
    assert_eq!(words(&out), vec!["a: load c2 A", "a: play A at 1 over None"]);
}

fn show_of(cues: Vec<Cue>) -> ShowFile {
    let mut show = ShowFile::new_empty("Night");
    show.cues = cues;
    show
}

#[test]
fn go_fires_the_selected_cue_and_moves_on() {
    let mut state = controller(&["a", "b"]);
    let cues = vec![
        Cue {
            target: CueTarget::Whitelist { clients: texts(&["b", "offline"]) },
            exclude_action: ExcludeAction::Poster,
            ..base_cue("c1")
        },
        base_cue("c2"),
    ];
    state.show = Some(show_of(cues));
    state.selected_cue_idx = Some(0);
    let out = go_selected_at(&mut state, 1000);
    assert_eq!(
        words(&out),
        vec!["b: load c1 A", "b: play A at 1250 over None", "a: fade 1500"]
    );
    assert_eq!(state.run.playing_cue_idx, Some(0));
    assert_eq!(state.selected_cue_idx, Some(1));
    let out = go_selected_at(&mut state, 2000);
    assert_eq!(
        words(&out),
        vec![
            "a: load c2 A",
            "a: play A at 2250 over None",
            "b: load c2 B",
            "b: play B at 2250 over Some(0)",
        ]
    );
    // The last cue stays selected.
    assert_eq!(state.selected_cue_idx, Some(1));
    assert_eq!(state.log_lines[0], "GO cue c1");
}

#[test]
fn the_lead_time_has_a_floor() {
    let mut state = controller(&["a"]);
    let mut show = show_of(vec![base_cue("c1")]);
    show.show.sync.start_lead_ms = 800;
    state.show = Some(show);
    state.selected_cue_idx = Some(0);
    assert_eq!(words(&go_selected_at(&mut state, 0))[1], "a: play A at 800 over None");
    if let Some(show) = &mut state.show {
        show.show.sync.start_lead_ms = 10;
    }
    assert_eq!(words(&go_selected_at(&mut state, 0))[1], "a: play B at 250 over Some(0)");
}

#[test]
fn go_without_a_selected_cue_does_nothing() {
    let mut state = controller(&["a"]);
    assert!(go_selected(&mut state).is_empty());
    state.show = Some(show_of(vec![base_cue("c1")]));
    assert!(go_selected(&mut state).is_empty());
    state.selected_cue_idx = Some(1);
    assert!(go_selected(&mut state).is_empty());
    assert!(state.log_lines.is_empty());
    state.selected_cue_idx = Some(0);
    let before = now_utc_ms();
    let out = go_selected(&mut state);
    match &out[1].msg {
        ControllerMsg::PlayAt(p) => {
            assert!(p.master_start_utc_ms >= before + 250);
            assert!(p.master_start_utc_ms <= now_utc_ms() + 250);
        }
        other => panic!("expected PLAY_AT, got {other:?}"),
    }
}

#[test]
fn a_settled_selection_is_preloaded_for_its_targets() {
    let mut state = controller(&["a", "b"]);
    let cue = Cue { target: CueTarget::Blacklist { clients: texts(&["a"]) }, ..base_cue("c1") };
    state.show = Some(show_of(vec![cue]));
    state.selected_cue_idx = Some(0);
    assert!(maybe_standby_at(&mut state, 149, 0).is_empty());
    assert_eq!(words(&maybe_standby_at(&mut state, 150, 0)), vec!["b: standby c1 A"]);
    assert!(maybe_standby(&mut state, 1_000_000).is_empty());
}

#[test]
fn the_selection_stays_within_the_show() {
    let mut state = controller(&[]);
    move_selection(&mut state, 1);
    assert_eq!(state.selected_cue_idx, None);
    state.show = Some(show_of(vec![]));
    move_selection(&mut state, 1);
    assert_eq!(state.selected_cue_idx, None);
    state.show = Some(show_of(vec![base_cue("a"), base_cue("b"), base_cue("c")]));
    move_selection(&mut state, 1);
    assert_eq!(state.selected_cue_idx, Some(1));
    move_selection(&mut state, i64::MAX);
    assert_eq!(state.selected_cue_idx, Some(2));
    move_selection(&mut state, -1);
    assert_eq!(state.selected_cue_idx, Some(1));
    move_selection(&mut state, i64::MIN);
    assert_eq!(state.selected_cue_idx, Some(0));
}

#[test]
fn blackout_and_stop_reset_every_client() {
    let mut state = controller(&["a", "b"]);
    for id in ["a", "b"] {
        go_for_client_at(&mut state, &base_cue("c1"), id, 0, 0);
    }
    state.run.playing_cue_idx = Some(0);
    assert_eq!(words(&blackout(&mut state)), vec!["a: fade 1500", "b: fade 1500"]);
    assert_eq!(state.run.playing_cue_idx, None);
    assert!(state.clients.iter().all(|c| c.layers.now_playing.is_none()));
    go_for_client_at(&mut state, &base_cue("c1"), "a", 0, 0);
    assert_eq!(words(&stop_all(&mut state)), vec!["a: Stop", "b: Stop"]);
    assert_eq!(state.clients[0].layers.active_layer, None);
}

#[test]
fn opening_a_show_tells_every_client() {
    let mut state = controller(&["a"]);
    state.run.playing_cue_idx = Some(3);
    state.local_media = Some(vec![]);
    go_for_client_at(&mut state, &base_cue("c1"), "a", 0, 0);
    let out = show_opened(&mut state, show_of(vec![base_cue("x")]), "/s/n.multiplex.toml");
    assert_eq!(words(&out), vec!["a: show Night"]);
    assert_eq!(state.selected_cue_idx, Some(0));
    assert_eq!(state.show_path.as_deref(), Some("/s/n.multiplex.toml"));
    assert_eq!(state.run.playing_cue_idx, None);
    assert_eq!(state.local_media, None);
    assert_eq!(state.clients[0].layers.now_playing, None);
    assert_eq!(state.log_lines.last().unwrap(), "loaded show /s/n.multiplex.toml");
    show_not_opened(&mut state, &ShowError::Io("gone".into()));
    assert_eq!(
        state.log_lines.last().unwrap(),
        "failed to load show: failed to read show file: gone"
    );
}

#[test]
fn an_edited_show_is_applied_only_when_valid() {
    let mut state = controller(&["a"]);
    let r = apply_edit(&mut state, show_of(vec![base_cue("x"), base_cue("x")]));
    assert_eq!(r.status, "invalid: duplicate cue id: x");
    assert!(r.out.is_empty() && state.show.is_none());
    let r = apply_edit(&mut state, show_of(vec![base_cue("x")]));
    assert_eq!(r.status, "applied to running show");
    assert_eq!(words(&r.out), vec!["a: show Night"]);
    assert_eq!(state.selected_cue_idx, Some(0));
    assert_eq!(state.log_lines.last().unwrap(), "show updated from editor");
    apply_show(&mut state, show_of(vec![]));
    assert_eq!(state.selected_cue_idx, None);
    let failed = Err(ShowError::Serialize("full".into()));
    let r = edit_saved(&mut state, show_of(vec![base_cue("x")]), "/p", failed);
    assert_eq!(r.status, "save failed: failed to serialize show: full");
    assert_eq!(state.show_path, None);
    let r = edit_saved(&mut state, show_of(vec![base_cue("x")]), "/p", Ok(()));
    assert_eq!(r.status, "saved to /p");
    assert_eq!(state.show_path.as_deref(), Some("/p"));
    assert_eq!(words(&r.out), vec!["a: show Night"]);
}

#[test]
fn a_broadcast_reaches_every_client() {
    let state = controller(&["a", "b"]);
    let out = broadcast(&state.clients, ControllerMsg::Fade(FadeCmd { duration_ms: 7 }));
    assert_eq!(words(&out), vec!["a: fade 7", "b: fade 7"]);
    assert_eq!(words(&pause_all(&state.clients)), vec!["a: Pause", "b: Pause"]);
    assert_eq!(words(&resume_all(&state.clients)), vec!["a: Resume", "b: Resume"]);
    let mut on = false;
    assert_eq!(testscreen_label(on), "Testscreen");
    assert_eq!(
        words(&toggle_testscreen(&mut on, &state.clients)),
        vec!["a: ShowTestscreen", "b: ShowTestscreen"]
    );
    assert!(on);
    assert_eq!(testscreen_label(on), "Hide testscreen");
    assert_eq!(
        words(&toggle_testscreen(&mut on, &state.clients)),
        vec!["a: HideTestscreen", "b: HideTestscreen"]
    );
    assert_eq!((Layer::A.name(), Layer::B.name()), ("A", "B"));
    assert_eq!(Layer::A.other(), Layer::B);
}

#[test]
fn a_frame_takes_keys_and_preloads() {
    let mut state = controller(&["a"]);
    state.show = Some(show_of(vec![base_cue("c1"), base_cue("c2"), base_cue("c3")]));
    state.selected_cue_idx = Some(0);
    let mut clock = SelectionClock { last_selected: None, since_ms: 0 };
    let none =
        FrameInput { editor_open: false, typing: false, space: false, down: false, up: false };
    assert!(run_frame_at(&mut state, &mut clock, none, 1000, 0).is_empty());
    assert_eq!(clock, SelectionClock { last_selected: Some(0), since_ms: 1000 });
    assert!(run_frame_at(&mut state, &mut clock, none, 1149, 0).is_empty());
    let out = run_frame_at(&mut state, &mut clock, none, 1150, 0);
    assert_eq!(words(&out), vec!["a: standby c1 A"]);
    let go = FrameInput { space: true, ..none };
    let out = run_frame_at(&mut state, &mut clock, go, 1200, 0);
    assert_eq!(words(&out), vec!["a: play A at 250 over None"]);
    assert_eq!(state.selected_cue_idx, Some(1));
    assert_eq!(clock.since_ms, 1200);
    let keys = FrameInput { down: true, up: true, ..none };
    run_frame_at(&mut state, &mut clock, keys, 1210, 0);
    assert_eq!(state.selected_cue_idx, Some(1));
    for ignored in [
        FrameInput { typing: true, down: true, ..none },
        FrameInput { editor_open: true, down: true, space: true, ..none },
    ] {
        run_frame_at(&mut state, &mut clock, ignored, 1220, 0);
        assert_eq!(state.selected_cue_idx, Some(1));
    }
    let editing = FrameInput { editor_open: true, ..none };
    assert!(run_frame_at(&mut state, &mut clock, editing, 9999, 0).is_empty());
}

#[test]
fn times_are_shown_as_minutes_and_seconds() {
    assert_eq!(fmt_ms(0), "0:00");
    assert_eq!(fmt_ms(61_999), "1:01");
    assert_eq!(fmt_ms(3_600_000), "60:00");
}

#[test]
fn the_cue_list_marks_the_cue_on_air() {
    let glyphs = CueGlyphs {
        play: ">".into(),
        film: "F".into(),
        image: "I".into(),
        palette: "P".into(),
    };
    let mut state = controller(&[]);
    assert_eq!(show_summary(&state), "(no show loaded)");
    assert!(cue_entries(&state, &glyphs).is_empty());
    let image = Cue { kind: CueKind::Image, ..base_cue("b") };
    let color = Cue { kind: CueKind::Color, ..base_cue("c") };
    state.show = Some(show_of(vec![base_cue("a"), image, color]));
    state.run.playing_cue_idx = Some(1);
    select(&mut state, 2);
    let entries = cue_entries(&state, &glyphs);
    let labels: Vec<&str> = entries.iter().map(|e| e.label.as_str()).collect();
    assert_eq!(labels, vec!["    0  F a", ">   1  I b", "    2  P c"]);
    let selected: Vec<bool> = entries.iter().map(|e| e.selected).collect();
    assert_eq!(selected, vec![false, false, true]);
    assert_eq!(show_summary(&state), "Night  (3 cues)");
}

#[test]
fn the_roster_tells_how_a_client_is_doing() {
    let mut r = row("0123456789", "left");
    r.status.last_heartbeat_ms = 1000;
    let e = roster_entry(&r, &None, "!", 4000);
    assert!(!e.stale);
    assert_eq!(e.title, "left  (01234567)");
    assert_eq!(e.address, "addr: 10.0.0.1:5   state: Idle");
    assert_eq!(e.cue, None);
    assert_eq!(e.clocks, "offset: —   drift: —");
    assert_eq!(e.version, "version: ?");
    assert_eq!(e.platform, "platform unknown (pre-update client)");
    assert_eq!(e.update, UpdateControl::Hidden);
    assert_eq!(e.media, None);
    assert!(roster_entry(&r, &None, "!", 4001).stale);
    assert!(!roster_entry(&r, &None, "!", 0).stale);

    r.status.state = ClientState::Playing;
    r.status.current_cue = Some("c1".into());
    r.status.position_ms = 65_000;
    r.status.offset_ms = Some(-3);
    r.status.last_drift_ms = Some(12);
    r.status.app_version = "1.2".into();
    r.status.target_triple = "t".into();
    r.status.preflight = vec![
        PreflightEntry { path: "a".into(), status: MediaFileStatus::Present },
        PreflightEntry { path: "b".into(), status: MediaFileStatus::Missing },
        PreflightEntry { path: "c".into(), status: MediaFileStatus::Mismatch },
    ];
    let e = roster_entry(&r, &Some("2.0".into()), "!", 0);
    assert_eq!(e.address, "addr: 10.0.0.1:5   state: Playing");
    assert_eq!(e.cue.as_deref(), Some("cue: c1  @ 1:05"));
    assert_eq!(e.clocks, "offset: -3 ms   drift: 12 ms");
    assert_eq!(e.version, "version: 1.2");
    assert_eq!(e.platform, "t");
    assert_eq!(e.update, UpdateControl::Offer("2.0".into()));
    let media = e.media.unwrap();
    assert_eq!(media.line, "media: 1/3 ok");
    assert_eq!(media.problems, vec!["   ! b (missing)", "   ! c (mismatch)"]);
    assert!(media.can_push);
    r.status.push_progress = Some(PushProgress { path: "b".into(), received: 1, total: 2 });
    assert!(!roster_entry(&r, &None, "!", 0).media.unwrap().can_push);
}

#[test]
fn the_roster_offers_what_the_update_allows() {
    let control = |update, available: Option<&str>| {
        let mut r = row("x", "x");
        r.status.update = update;
        roster_entry(&r, &available.map(String::from), "!", 0).update
    };
    assert_eq!(control(ClientUpdate::Pushing, Some("2")), UpdateControl::Sending);
    assert_eq!(control(ClientUpdate::Applying, None), UpdateControl::Restarting);
    assert_eq!(
        control(ClientUpdate::Staged("2".into()), None),
        UpdateControl::Apply("2".into())
    );
    assert_eq!(
        control(ClientUpdate::Failed("e".into()), Some("2")),
        UpdateControl::Failed { error: "e".into(), retry: Some("2".into()) }
    );
    assert_eq!(
        control(ClientUpdate::Failed("e".into()), None),
        UpdateControl::Failed { error: "e".into(), retry: None }
    );
}

#[test]
fn ids_are_shortened_to_eight_bytes() {
    assert_eq!(short_id("abc"), "abc");
    assert_eq!(short_id("abcdefghi"), "abcdefgh");
    assert_eq!(short_id("ééééé"), "éééé");
    assert_eq!(short_id("abcdefgé"), "abcdefg");
}

#[test]
fn the_controller_updates_itself() {
    let offer = |error: Option<&str>| SelfUpdateControl::Offer {
        label: "Update controller".into(),
        hint: "v1.0 — check the release server for a newer version".into(),
        error: error.map(String::from),
    };
    assert_eq!(self_update_control(&SelfUpdate::Idle, "1.0"), offer(None));
    assert_eq!(self_update_control(&SelfUpdate::Failed("e".into()), "1.0"), offer(Some("e")));
    assert_eq!(
        self_update_control(&SelfUpdate::Working("w".into()), "1.0"),
        SelfUpdateControl::Busy("w".into())
    );
    assert_eq!(
        self_update_control(&SelfUpdate::ReadyToRestart("2".into()), "1.0"),
        SelfUpdateControl::Restart { label: "Restart into v2".into() }
    );
}

#[test]
fn the_fleet_is_updated_when_a_version_is_known() {
    let mut rows = vec![row("a", "a"), row("b", "b")];
    let some = Some("2".to_string());
    let c = fleet_controls(&some, true, &rows);
    assert_eq!((c.update.as_deref(), c.apply), (Some("Update fleet (v2)"), None));
    rows[1].status.update = ClientUpdate::Staged("2".into());
    let c = fleet_controls(&some, false, &rows);
    assert_eq!((c.update, c.apply.as_deref()), (None, Some("Apply fleet (1 staged)")));
    let c = fleet_controls(&None, true, &rows);
    assert_eq!((c.update, c.apply), (None, None));
}

#[test]
fn a_blank_rename_is_dropped() {
    let mut state = controller(&["a"]);
    assert!(commit_rename(&mut state, "a", " \t ").is_empty());
    assert!(state.known_clients.is_empty());
    assert_eq!(words(&commit_rename(&mut state, "a", "  stage left ")), vec!["a: name stage left"]);
    assert_eq!(state.clients[0].name, "stage left");
    assert!(state.known_clients[0].client.assigned);
}

#[test]
fn show_files_are_known_by_their_ending() {
    assert!(is_show_file("/x/My.MultiPlex.TOML"));
    assert!(is_show_file(".multiplex.toml"));
    assert!(!is_show_file("multiplex.toml"));
    assert!(!is_show_file("a.multiplex.toml.bak"));
}

#[test]
fn the_log_is_bounded_and_shown_from_its_end() {
    let mut state = AppState::new();
    for i in 0..501 {
        state.push_log(format!("line {i}"));
    }
    assert_eq!(state.log_lines.len(), 500);
    assert_eq!(state.log_lines[0], "line 1");
    let shown = shown_log(&state);
    assert_eq!(shown.len(), 80);
    assert_eq!(shown[0], "line 500");
    assert_eq!(shown[79], "line 421");
}

#[test]
fn the_picker_offers_everyone_by_name() {
    let mut state = controller(&[]);
    let known = |id: &str, name: &str| KnownEntry {
        client_id: id.into(),
        client: KnownClient { name: name.into(), assigned: false, last_seen_ms: 0 },
    };
    state.known_clients = vec![known("1", "zed"), known("2", "old"), known("3", "Bob")];
    state.clients = vec![row("2", "new"), row("4", "amy")];
    let picks: Vec<String> = client_picks(&state)
        .into_iter()
        .map(|p| format!("{}={}", p.client_id, p.name))
        .collect();
    assert_eq!(picks, vec!["3=Bob", "4=amy", "2=new", "1=zed"]);
    assert!(comes_before("a", "ab") && !comes_before("ab", "a") && !comes_before("a", "a"));
}

#[test]
fn the_clock_counts_milliseconds_since_the_epoch() {
    assert_eq!(utc_ms(None), 0);
    assert_eq!(utc_ms(Some(1234)), 1234);
    assert_eq!(utc_ms(Some(1u128 << 64)), 0);
    assert_eq!(utc_ms(Some((1u128 << 64) + 5)), 5);
    // Some moment after the year 2020.
    assert!(now_utc_ms() > 1_577_836_800_000);
}

#[test]
fn the_offset_is_half_the_difference_of_the_legs() {
    assert_eq!(compute_offset(100, 160, 170, 130), 50);
    assert_eq!(compute_offset(160, 100, 130, 170), -50);
    assert_eq!(compute_offset(0, 1, 0, 0), 0);
    assert_eq!(compute_offset(0, u64::MAX, u64::MAX, 0), i64::MAX);
    assert_eq!(compute_offset(u64::MAX, 0, 0, u64::MAX), i64::MIN);
}

#[test]
fn the_editor_starts_from_the_running_show_or_blank() {
    let mut state = controller(&["b", "a"]);
    state.show = Some(show_of(vec![base_cue("x")]));
    state.show_path = Some("/p".into());
    let seed = open_editor(&state, false);
    assert_eq!(seed.show.unwrap().cues[0].id, "x");
    assert_eq!(seed.path.as_deref(), Some("/p"));
    let names: Vec<String> = seed.clients.into_iter().map(|p| p.name).collect();
    assert_eq!(names, vec!["a", "b"]);
    let seed = open_editor(&state, true);
    assert!(seed.show.is_none() && seed.path.is_none());
    assert_eq!(seed.clients.len(), 2);
}

#[test]
fn saving_a_show_without_a_file_asks_for_one() {
    let path = Some("/p".to_string());
    assert_eq!(editor_step(EditorAction::Nothing, &path), EditorStep::Nothing);
    assert_eq!(editor_step(EditorAction::Apply, &path), EditorStep::Apply);
    assert_eq!(editor_step(EditorAction::Save, &path), EditorStep::SaveTo("/p".into()));
    assert_eq!(editor_step(EditorAction::Save, &None), EditorStep::AskPath);
    assert_eq!(editor_step(EditorAction::SaveAs, &path), EditorStep::AskPath);
    assert_eq!(editor_step(EditorAction::Close, &path), EditorStep::Close);
}
