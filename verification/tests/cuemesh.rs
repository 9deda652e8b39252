//! CueMesh2: shows, the controller, the client and its media engine.

use multiplex::cuemesh::client::{AppState as ClientAppState, PlaybackState};
use multiplex::cuemesh::connection::{
    connected, connecting, disconnected, handle_controller_msg, handle_outcome, next_wait,
    read_frame, report, Command, ConnectionConfig, EngineReading, Frame as ClientFrame, Outcome,
    Reading, Surroundings,
};
use multiplex::cuemesh::console::{
    crossfade_to_selected, cue_labels, fade_all, go_selected, go_selected_at, pause_all,
    roster_lines, select, show_not_opened, show_opened, show_summary, shown_log, stop_all,
};
use multiplex::cuemesh::controller::{broadcast, AppState, Outgoing};
use multiplex::cuemesh::media::{
    bus_event, change_result, choose_sink, ends_idle_layer, is_playable_rate, layer_elements,
    load, note_event, output_elements, placement, play_result, route_stream, BusMessage,
    EngineState, LoadEvent, LoadStep, Loaded, MediaError, MediaEvent, PadRoute, Placement,
    Received, Stream,
};
use multiplex::cuemesh::protocol::{
    ClientMsg, ClientState, ControllerMsg, Hello, Layer, LoadCue, LogLevel, LogLine, PlayAt,
    Status, SyncPing, SyncReply, NORMAL_RATE_BITS,
};
use multiplex::cuemesh::server::{
    accept_failed, client_frame, connection_failed, handle_client_msg, leave, listening,
    ping_all, ping_all_at, wait_frame, Frame, Phase, Reply,
};
use multiplex::cuemesh::show::{CueKind, ShowError, ShowFile};
use multiplex::cuemesh::window::window_text;
use multiplex::show::DropoutPolicy;

const EXAMPLE: &str = r#"
[show]
title = "T"
version = 1
media_root = "/tmp/media"

[show.settings]
default_fade_ms = 1500

[[cues]]
id = "a"
name = "A"
type = "video"
file = "a.mp4"

[[cues]]
id = "b"
name = "B"
type = "image"
file = "b.png"
volume = 80
crossfade_to_next_ms = 500
"#;

#[test]
fn parses_example() {
    let s = ShowFile::from_str(EXAMPLE).unwrap();
    assert_eq!(s.show.title, "T");
    assert_eq!(s.cues.len(), 2);
    assert_eq!(s.cues[0].volume, 100);
    assert_eq!(s.cues[1].volume, 80);
    assert_eq!(s.cues[1].crossfade_to_next_ms, 500);
    assert_eq!(s.show.dropout_policy, DropoutPolicy::Continue);
    assert_eq!(s.show.sync.max_drift_ms, 150);
}

#[test]
fn rejects_duplicate_cue_ids() {
    let dup = r#"
[show]
title = "T"
version = 1
media_root = "/tmp"

[[cues]]
id = "a"
name = "A"
type = "video"
file = "a.mp4"

[[cues]]
id = "a"
name = "A2"
type = "video"
file = "b.mp4"
"#;
    let err = ShowFile::from_str(dup).unwrap_err();
    assert!(matches!(err, ShowError::DuplicateCueId(_)));
}

#[test]
fn rejects_out_of_range_volume() {
    let bad = r#"
[show]
title = "T"
version = 1
media_root = "/tmp"

[[cues]]
id = "a"
name = "A"
type = "video"
file = "a.mp4"
volume = 200
"#;
    let err = ShowFile::from_str(bad).unwrap_err();
    assert!(matches!(err, ShowError::VolumeOutOfRange { .. }));
    assert_eq!(err.message(), "cue a: volume 200 out of range 0..=100");
}

#[test]
fn settings_and_media_of_a_cuemesh_show() {
    let mut s = ShowFile::from_str(EXAMPLE).unwrap();
    assert_eq!(s.show.settings.default_fade_ms, 1500);
    let bare = EXAMPLE.replace("[show.settings]\ndefault_fade_ms = 1500\n", "");
    assert_eq!(ShowFile::from_str(&bare).unwrap().show.settings.default_fade_ms, 1500);
    let dated = bare.replace("version = 1\n", "version = 1\nsettings = 2020-01-02\n");
    assert!(matches!(ShowFile::from_str(&dated), Err(ShowError::Toml(_))));
    let other = EXAMPLE.replace("default_fade_ms = 1500", "default_fade_ms = 7");
    assert_eq!(ShowFile::load(Ok(other)).unwrap().show.settings.default_fade_ms, 7);
    assert_eq!(s.cues[1].kind, CueKind::Image);
    let needs: Vec<String> = s.media_needs("/m").into_iter().map(|n| n.path).collect();
    assert_eq!(needs, vec!["/m/a.mp4", "/m/b.png"]);
    let err = s.validate_media("/m", &vec!["/m/a.mp4".to_string()]).unwrap_err();
    assert_eq!(err.message(), "cue b: media file not found at /m/b.png");
    assert!(s.validate_media("/m", &needs).is_ok());
    s.cues[0].volume = 101;
    assert!(matches!(s.validate(), Err(ShowError::VolumeOutOfRange { volume: 101, .. })));
    let bad = ShowFile::from_str("[show]\ntitle = 1\n").unwrap_err();
    assert_eq!(bad.message(), "failed to parse TOML: invalid or missing field `title`");
    let bad = ShowFile::from_str(&EXAMPLE.replace("volume = 80", "volume = 256")).unwrap_err();
    assert_eq!(bad.message(), "failed to parse TOML: invalid or missing field `volume`");
    assert!(matches!(ShowFile::from_str("]"), Err(ShowError::Toml(_))));
    let unread = ShowFile::load(Err("x".into())).unwrap_err();
    assert!(matches!(unread, ShowError::Io(_)));
    assert_eq!(unread.message(), "failed to read show file: x");
}

fn hello(id: &str, name: &str) -> ClientMsg {
    ClientMsg::Hello(Hello { client_id: id.into(), name: name.into(), protocol_version: 1 })
}

fn joined(ids: &[&str]) -> AppState {
    let mut state = AppState::default();
    for id in ids {
        wait_frame(&mut state, &Frame::Text(Ok(hello(id, "n"))), "1.2.3.4:5", 10, 1);
    }
    state
}

fn words(out: &[Outgoing]) -> Vec<String> {
    out.iter()
        .map(|o| {
            let what = match &o.msg {
                ControllerMsg::LoadCue(l) => format!("load {} {}", l.cue_id, l.file),
                ControllerMsg::PlayAt(p) => format!("play {:?} {}", p.layer, p.master_start_utc_ms),
                ControllerMsg::Fade { duration_ms } => format!("fade {duration_ms}"),
                ControllerMsg::Crossfade { to_cue_id, duration_ms } => {
                    format!("crossfade {to_cue_id} {duration_ms}")
                }
                ControllerMsg::Sync(p) => format!("sync {} {}", p.t1_utc_ms, p.token),
                other => format!("{other:?}"),
            };
            format!("{}: {what}", o.client_id)
        })
        .collect()
}

#[test]
fn a_client_joins_with_its_greeting() {
    let mut state = AppState::default();
    let addr = "1.2.3.4:5";
    let (phase, reply) = wait_frame(&mut state, &Frame::Ping, addr, 0, 7);
    assert_eq!((phase, reply), (Phase::Waiting, Reply::Pong));
    let early = Frame::Text(Ok(ClientMsg::Heartbeat));
    assert_eq!(wait_frame(&mut state, &early, addr, 0, 7), (Phase::Waiting, Reply::Nothing));
    assert_eq!(wait_frame(&mut state, &Frame::Other, addr, 0, 7), (Phase::Waiting, Reply::Nothing));
    assert_eq!(wait_frame(&mut state, &Frame::Ended, addr, 0, 7), (Phase::Over, Reply::Nothing));
    let broken = Frame::Broken("e".into());
    assert_eq!(wait_frame(&mut state, &broken, addr, 0, 7), (Phase::Over, Reply::Fail("e".into())));
    let bad = Frame::Text(Err("j".into()));
    assert_eq!(wait_frame(&mut state, &bad, addr, 0, 7), (Phase::Over, Reply::Fail("j".into())));
    assert!(state.clients.is_empty() && state.log_lines.is_empty());

    let greeting = Frame::Text(Ok(hello("id1", "left")));
    let (phase, reply) = wait_frame(&mut state, &greeting, addr, 42, 7);
    assert_eq!(phase, Phase::Joined { client_id: "id1".into() });
    match reply {
        Reply::Greet(ControllerMsg::HelloAck(a)) => {
            assert_eq!(a.controller_name, "cuemesh2-controller");
            assert_eq!(a.protocol_version, 7);
        }
        other => panic!("expected a greeting, got {other:?}"),
    }
    assert_eq!(state.clients[0].last_heartbeat_ms, 42);
    assert_eq!(state.log_lines, vec!["client left (id1) joined from 1.2.3.4:5"]);
}

#[test]
fn a_blacklisted_client_is_turned_away() {
    let mut state = AppState::default();
    state.blacklist.push("bad".into());
    let (phase, reply) =
        wait_frame(&mut state, &Frame::Text(Ok(hello("bad", "x"))), "a", 0, 1);
    assert_eq!((phase, reply), (Phase::Over, Reply::Nothing));
    assert!(state.clients.is_empty());
    assert_eq!(state.log_lines, vec!["rejecting blacklisted client bad"]);
}

#[test]
fn reports_change_the_reporting_row() {
    let mut state = joined(&["x", "y"]);
    let status = ClientMsg::Status(Status {
        state: ClientState::Playing,
        current_cue_id: Some("c".into()),
        position_ms: 1500,
        rate_bits: NORMAL_RATE_BITS,
        volume: 100,
        layer_a_alpha_bits: 0,
        layer_b_alpha_bits: 0,
    });
    handle_client_msg(&mut state, "y", &status, 99);
    handle_client_msg(&mut state, "y", &ClientMsg::Heartbeat, 99);
    handle_client_msg(&mut state, "y", &ClientMsg::Drift { drift_ms: -4 }, 99);
    assert_eq!(state.clients[1].last_drift_ms, Some(-4));
    let reply =
        SyncReply { token: 1, t1_utc_ms: 100, t2_local_ms: 160, t3_local_ms: 170 };
    handle_client_msg(&mut state, "y", &ClientMsg::SyncReply(reply), 130);
    assert_eq!(state.clients[1].last_drift_ms, Some(50));
    assert_eq!(state.clients[1].last_heartbeat_ms, 99);
    assert_eq!(
        roster_lines(&state.clients[1]),
        vec!["n  (y)", "addr: 1.2.3.4:5", "state: Playing", "cue: c  @ 1500ms", "offset: 50 ms"]
    );
    assert_eq!(
        roster_lines(&state.clients[0]),
        vec!["n  (x)", "addr: 1.2.3.4:5", "state: Idle"]
    );
    let line = LogLine { level: LogLevel::Warn, source: "s".into(), message: "m".into() };
    handle_client_msg(&mut state, "y", &ClientMsg::Log(line), 0);
    assert_eq!(state.log_lines.last().unwrap(), "[y][Warn] s: m");
    handle_client_msg(&mut state, "gone", &ClientMsg::Heartbeat, 5);
    assert_eq!(state.clients.len(), 2);
}

#[test]
fn frames_of_a_joined_client() {
    let mut state = joined(&["x"]);
    assert!(client_frame(&mut state, "x", &Frame::Text(Ok(ClientMsg::Heartbeat)), 77));
    assert_eq!(state.clients[0].last_heartbeat_ms, 77);
    assert!(client_frame(&mut state, "x", &Frame::Text(Err("e".into())), 0));
    assert_eq!(state.log_lines.last().unwrap(), "bad json from x: e");
    assert!(client_frame(&mut state, "x", &Frame::Other, 0));
    assert!(client_frame(&mut state, "x", &Frame::Ping, 0));
    assert!(!client_frame(&mut state, "x", &Frame::Close, 0));
    assert!(!client_frame(&mut state, "x", &Frame::Ended, 0));
    assert!(!client_frame(&mut state, "x", &Frame::Broken("e".into()), 0));
    assert_eq!(state.log_lines.last().unwrap(), "read error x: e");
    leave(&mut state, "x");
    assert!(state.clients.is_empty());
    assert_eq!(state.log_lines.last().unwrap(), "client x left");
}

#[test]
fn the_server_logs_what_happens_to_it() {
    let mut state = AppState::default();
    listening(&mut state, "0.0.0.0:1");
    connection_failed(&mut state, "a", "e");
    accept_failed(&mut state, "f");
    assert_eq!(
        state.log_lines,
        vec!["listening on 0.0.0.0:1", "client a: e", "accept error: f"]
    );
    assert_eq!(shown_log(&state), vec!["accept error: f", "client a: e", "listening on 0.0.0.0:1"]);
}

#[test]
fn pings_are_numbered() {
    let state = joined(&["x", "y"]);
    let mut token = 0;
    assert_eq!(words(&ping_all_at(&state, &mut token, 5)), vec!["x: sync 5 1", "y: sync 5 1"]);
    token = u64::MAX;
    assert_eq!(words(&ping_all_at(&state, &mut token, 5))[0], "x: sync 5 0");
    assert_eq!(ping_all(&state, &mut token).len(), 2);
    assert_eq!(token, 1);
}

#[test]
fn the_cuemesh_console_runs_a_show() {
    let mut state = joined(&["x", "y"]);
    assert_eq!(show_summary(&state), "(no show loaded)");
    assert!(cue_labels(&state).is_empty());
    assert!(go_selected(&mut state, None).is_empty());
    assert!(crossfade_to_selected(&state).is_empty());
    assert_eq!(words(&fade_all(&state)), vec!["x: fade 1500", "y: fade 1500"]);
    let mut show = ShowFile::from_str(EXAMPLE).unwrap();
    show.show.media_root = "~/m".into();
    show.show.settings.default_fade_ms = 9;
    show_opened(&mut state, show, "/s.toml");
    assert_eq!(state.selected_cue_idx, Some(0));
    assert_eq!(state.log_lines.last().unwrap(), "loaded show /s.toml");
    assert_eq!(show_summary(&state), "T  (2 cues)");
    assert_eq!(cue_labels(&state), vec!["  0  a  —  A", "  1  b  —  B"]);
    assert_eq!(words(&fade_all(&state)), vec!["x: fade 9", "y: fade 9"]);
    assert_eq!(
        words(&go_selected_at(&mut state, Some("/home/u"), 1000)),
        vec![
            "x: load a /home/u/m/a.mp4",
            "y: load a /home/u/m/a.mp4",
            "x: play A 1250",
            "y: play A 1250",
        ]
    );
    assert_eq!(state.log_lines.last().unwrap(), "GO cue a");
    assert_eq!(words(&go_selected_at(&mut state, None, 0))[0], "x: load a ~/m/a.mp4");
    let late = go_selected_at(&mut state, None, u64::MAX - 1);
    assert_eq!(words(&late)[2], format!("x: play A {}", u64::MAX));
    select(&mut state, 1);
    assert_eq!(words(&crossfade_to_selected(&state))[1], "y: crossfade b 1500");
    assert_eq!(words(&pause_all(&state)), vec!["x: Pause", "y: Pause"]);
    assert_eq!(words(&stop_all(&state)), vec!["x: Stop", "y: Stop"]);
    assert_eq!(words(&broadcast(&state.clients, &ControllerMsg::ReadyCheck))[0], "x: ReadyCheck");
    show_not_opened(&mut state, &ShowError::Io("gone".into()));
    assert_eq!(
        state.log_lines.last().unwrap(),
        "failed to load show: failed to read show file: gone"
    );
}

fn around(now_ms: u64) -> Surroundings {
    Surroundings { file_exists: true, now_ms, answered_ms: now_ms + 1 }
}

fn load_msg(fade_in_ms: u32) -> ControllerMsg {
    ControllerMsg::LoadCue(LoadCue {
        cue_id: "c".into(),
        layer: Layer::B,
        file: "/m/c.mp4".into(),
        start_ms: None,
        end_ms: None,
        volume: 80,
        fade_in_ms,
        fade_out_ms: 0,
        crossfade_to_next_ms: 0,
    })
}

#[test]
fn a_cue_is_loaded_then_played() {
    let mut s = ClientAppState::default();
    let commands = handle_controller_msg(&mut s, &load_msg(500), around(0));
    assert_eq!(
        commands,
        vec![
            Command::SetVolume { layer: Layer::B, volume: 80 },
            Command::SetAlpha { layer: Layer::B, opaque: false },
            Command::Load {
                layer: Layer::B,
                file: "/m/c.mp4".into(),
                cue_id: "c".into(),
                fade_in_ms: 500,
            },
        ]
    );
    assert_eq!(
        s.log_lines,
        vec!["LOAD_CUE c → layer B  file=/m/c.mp4  exists=true  vol=80  fade_in=500ms"]
    );
    let loaded =
        Outcome::Loaded { layer: Layer::B, cue_id: "c".into(), fade_in_ms: 500, error: None };
    assert_eq!(
        handle_outcome(&mut s, &loaded),
        vec![Command::Send(ClientMsg::Ready { cue_id: "c".into(), layer: Layer::B })]
    );
    assert_eq!(s.playback.state, PlaybackState::Ready);
    assert_eq!(s.playback.current_cue_id.as_deref(), Some("c"));

    let play = ControllerMsg::PlayAt(PlayAt { layer: Layer::B, master_start_utc_ms: 300 });
    assert_eq!(
        handle_controller_msg(&mut s, &play, around(100)),
        vec![Command::Wait { ms: 200 }, Command::Play { layer: Layer::B }]
    );
    assert_eq!(
        handle_controller_msg(&mut s, &play, around(300)),
        vec![Command::Play { layer: Layer::B }]
    );
    let played = Outcome::Played { layer: Layer::B, error: None };
    assert_eq!(
        handle_outcome(&mut s, &played),
        vec![Command::Fade { layer: Layer::B, opaque: true, duration_ms: 500 }]
    );
    assert_eq!(s.playback.state, PlaybackState::Playing);
    // The fade-in is used once.
    assert_eq!(
        handle_outcome(&mut s, &played),
        vec![Command::SetAlpha { layer: Layer::B, opaque: true }]
    );
}

#[test]
fn a_cue_without_fade_in_is_shown_at_once() {
    let mut s = ClientAppState::default();
    let commands = handle_controller_msg(&mut s, &load_msg(0), around(0));
    assert_eq!(commands[1], Command::SetAlpha { layer: Layer::B, opaque: true });
}

#[test]
fn failures_are_logged() {
    let mut s = ClientAppState::default();
    let e = || Some("e".to_string());
    let failed =
        Outcome::Loaded { layer: Layer::A, cue_id: "c".into(), fade_in_ms: 5, error: e() };
    assert!(handle_outcome(&mut s, &failed).is_empty());
    assert_eq!(s.playback.state, PlaybackState::Error);
    assert!(handle_outcome(&mut s, &Outcome::Played { layer: Layer::A, error: e() }).is_empty());
    assert!(handle_outcome(&mut s, &Outcome::Sought { error: e() }).is_empty());
    assert!(handle_outcome(&mut s, &Outcome::RateSet { error: e() }).is_empty());
    assert!(handle_outcome(&mut s, &Outcome::Paused { error: e() }).is_empty());
    assert_eq!(s.playback.state, PlaybackState::Error);
    assert!(handle_outcome(&mut s, &Outcome::FadedOut { error: e() }).is_empty());
    assert_eq!(s.playback.state, PlaybackState::Black);
    s.playback.current_cue_id = Some("c".into());
    assert!(handle_outcome(&mut s, &Outcome::Stopped { error: e() }).is_empty());
    assert_eq!(s.playback.current_cue_id, None);
    assert_eq!(
        s.log_lines,
        vec![
            "load failed: e",
            "play failed: e",
            "seek failed: e",
            "set_rate failed: e",
            "pause failed: e",
            "post-fade stop failed: e",
            "stop failed: e",
        ]
    );
    handle_outcome(&mut s, &Outcome::Paused { error: None });
    assert_eq!(s.playback.state, PlaybackState::Paused);
}

#[test]
fn every_message_has_its_commands() {
    let mut s = ClientAppState::default();
    let mut run = |m: ControllerMsg| handle_controller_msg(&mut s, &m, around(40));
    assert_eq!(
        run(ControllerMsg::SeekTo { position_ms: 3 }),
        vec![Command::Seek { position_ms: 3 }]
    );
    assert_eq!(
        run(ControllerMsg::SetRate { rate_bits: 1 }),
        vec![Command::SetRate { rate_bits: 1 }]
    );
    assert_eq!(
        run(ControllerMsg::SetVolume { layer: Layer::A, volume: 2 }),
        vec![Command::SetVolume { layer: Layer::A, volume: 2 }]
    );
    assert_eq!(run(ControllerMsg::Pause), vec![Command::Pause]);
    assert_eq!(
        run(ControllerMsg::Fade { duration_ms: 9 }),
        vec![
            Command::Fade { layer: Layer::A, opaque: false, duration_ms: 9 },
            Command::Fade { layer: Layer::B, opaque: false, duration_ms: 9 },
            Command::StopAfter { duration_ms: 9 },
        ]
    );
    assert_eq!(run(ControllerMsg::Stop), vec![Command::Stop]);
    assert_eq!(
        run(ControllerMsg::Sync(SyncPing { t1_utc_ms: 30, token: 8 })),
        vec![Command::Send(ClientMsg::SyncReply(SyncReply {
            token: 8,
            t1_utc_ms: 30,
            t2_local_ms: 40,
            t3_local_ms: 41,
        }))]
    );
    assert!(run(ControllerMsg::RequestStatus).is_empty());
    assert!(run(ControllerMsg::ReadyCheck).is_empty());
    assert!(run(ControllerMsg::ShowTestscreen).is_empty());
    assert!(run(ControllerMsg::Crossfade { to_cue_id: "c".into(), duration_ms: 4 }).is_empty());
    assert_eq!(
        s.log_lines,
        vec!["(unimplemented) show testscreen", "(unimplemented) manual crossfade to c in 4ms"]
    );
}

#[test]
fn the_wait_doubles_up_to_ten_seconds() {
    let mut backoff = 500;
    let waits: Vec<u64> = (0..7).map(|_| next_wait(&mut backoff, false)).collect();
    assert_eq!(waits, vec![500, 1000, 2000, 4000, 8000, 10_000, 10_000]);
    assert_eq!(next_wait(&mut backoff, true), 500);
    assert_eq!(next_wait(&mut backoff, false), 1000);
}

#[test]
fn a_connection_comes_and_goes() {
    let cfg = ConnectionConfig {
        controller_url: "ws://h:1".into(),
        client_id: "id".into(),
        name: "n".into(),
    };
    let mut s = ClientAppState::default();
    connecting(&mut s, &cfg);
    connected(&mut s);
    assert!(s.connected);
    match cfg.hello(3) {
        ClientMsg::Hello(h) => {
            assert_eq!((h.client_id.as_str(), h.name.as_str(), h.protocol_version), ("id", "n", 3))
        }
        other => panic!("expected HELLO, got {other:?}"),
    }
    disconnected(&mut s, &None);
    assert!(!s.connected);
    disconnected(&mut s, &Some("e".into()));
    assert_eq!(
        s.log_lines,
        vec!["connecting to ws://h:1", "connected", "connection closed cleanly", "connection error: e"]
    );
}

#[test]
fn frames_from_the_controller() {
    let mut s = ClientAppState::default();
    let read = read_frame(&mut s, ClientFrame::Text(Ok(ControllerMsg::Stop)));
    assert_eq!(read, Reading::Handle(ControllerMsg::Stop));
    assert_eq!(read_frame(&mut s, ClientFrame::Text(Err("e".into()))), Reading::Skip);
    assert_eq!(read_frame(&mut s, ClientFrame::Other), Reading::Skip);
    assert_eq!(read_frame(&mut s, ClientFrame::Close), Reading::Done);
    assert_eq!(read_frame(&mut s, ClientFrame::Broken("f".into())), Reading::Done);
    assert_eq!(s.log_lines, vec!["bad json: e", "read error: f"]);
}

#[test]
fn the_client_reports_its_playback() {
    let mut s = ClientAppState::default();
    s.playback.state = PlaybackState::Playing;
    s.playback.current_cue_id = Some("c".into());
    let reading = EngineReading {
        position_ms: Some(1234),
        layer_a_alpha_bits: 1.0f32.to_bits(),
        layer_b_alpha_bits: 0.0f32.to_bits(),
    };
    let (status, beat) = report(&mut s, reading);
    assert_eq!(
        status,
        ClientMsg::Status(Status {
            state: ClientState::Playing,
            current_cue_id: Some("c".into()),
            position_ms: 1234,
            rate_bits: 1.0f32.to_bits(),
            volume: 100,
            layer_a_alpha_bits: 1.0f32.to_bits(),
            layer_b_alpha_bits: 0.0f32.to_bits(),
        })
    );
    assert_eq!(beat, ClientMsg::Heartbeat);
    assert_eq!(NORMAL_RATE_BITS, 1.0f32.to_bits());
    s.name = "n".into();
    s.client_id = "id".into();
    s.controller_addr = "ws".into();
    let w = window_text(&s);
    assert_eq!(w.who, "n  (id)");
    assert_eq!(w.controller, "controller: ws   ○ offline");
    assert_eq!(w.state, "state:   Playing");
    assert_eq!(w.cue, "cue:     c");
    assert_eq!(w.position, "pos:     1234 ms");
    s.connected = true;
    s.playback.current_cue_id = None;
    let w = window_text(&s);
    assert_eq!(w.controller, "controller: ws   ● online");
    assert_eq!(w.cue, "cue:     (none)");
    let none = EngineReading { position_ms: None, ..reading };
    report(&mut s, none);
    assert_eq!(s.playback.position_ms, 0);
    for i in 0..300 {
        s.push_log(format!("{i}"));
    }
    assert_eq!(s.log_lines.len(), 200);
    assert_eq!(s.log_lines[0], "100");
}

#[test]
fn playback_states_have_wire_forms() {
    let pairs = [
        (PlaybackState::Idle, ClientState::Idle),
        (PlaybackState::Loading, ClientState::Loading),
        (PlaybackState::Ready, ClientState::Ready),
        (PlaybackState::Playing, ClientState::Playing),
        (PlaybackState::Paused, ClientState::Paused),
        (PlaybackState::Error, ClientState::Error),
        (PlaybackState::Black, ClientState::Black),
    ];
    for (p, c) in pairs {
        assert_eq!(ClientState::from(p), c);
        assert_eq!(p.name(), c.name());
    }
}

#[test]
fn layer_a_is_shown_when_the_engine_starts() {
    assert_eq!(placement(Layer::A), Placement { zorder: 0, opaque: true });
    assert_eq!(placement(Layer::B), Placement { zorder: 1, opaque: false });
}

#[test]
fn the_pipeline_has_two_chains_and_an_output() {
    let names: Vec<String> = layer_elements(Layer::B)
        .into_iter()
        .map(|e| format!("{} {}", e.factory, e.name))
        .collect();
    assert_eq!(names, vec!["uridecodebin src_b", "videoconvert vconv_b", "videoscale vscale_b"]);
    let names: Vec<String> = output_elements("glimagesink")
        .into_iter()
        .map(|e| format!("{} {}", e.factory, e.name))
        .collect();
    assert_eq!(
        names,
        vec!["compositor comp", "capsfilter comp_caps", "videoconvert vout_convert", "glimagesink vsink"]
    );
    assert_eq!(choose_sink(true, true), Ok("glimagesink"));
    assert_eq!(choose_sink(true, false), Ok("glimagesink"));
    assert_eq!(choose_sink(false, true), Ok("autovideosink"));
    assert_eq!(
        choose_sink(false, false).unwrap_err().message(),
        "gstreamer element creation failed: no usable video sink"
    );
}

#[test]
fn one_video_stream_is_shown_and_the_rest_is_drained() {
    let stream = |t: Option<&str>| Stream { caps_empty: false, media_type: t.map(String::from) };
    assert_eq!(route_stream(&stream(Some("video/x-raw")), true), PadRoute::Show);
    assert_eq!(route_stream(&stream(Some("video/x-raw")), false), PadRoute::Discard);
    assert_eq!(route_stream(&stream(Some("audio/x-raw")), true), PadRoute::Discard);
    assert_eq!(route_stream(&stream(None), true), PadRoute::Leave);
    let empty = Stream { caps_empty: true, media_type: Some("video/x-raw".into()) };
    assert_eq!(route_stream(&empty, true), PadRoute::Leave);
}

#[test]
fn a_layer_is_loaded_step_by_step() {
    let mut loaded = Loaded { a: false, b: false };
    let mut step = |e: LoadEvent| load("/m/a.mp4", Layer::A, &e, &mut loaded);
    let bad = |r: Result<LoadStep, MediaError>| r.unwrap_err().message();
    assert_eq!(
        bad(step(LoadEvent::Looked { exists: false })),
        "invalid file path: file not found: /m/a.mp4"
    );
    assert_eq!(step(LoadEvent::Looked { exists: true }), Ok(LoadStep::Resolve));
    assert_eq!(
        bad(step(LoadEvent::Resolved { error: Some("e".into()) })),
        "invalid file path: /m/a.mp4: e"
    );
    assert_eq!(step(LoadEvent::Resolved { error: None }), Ok(LoadStep::Address));
    assert_eq!(
        bad(step(LoadEvent::Addressed { error: Some("e".into()) })),
        "invalid file path: e"
    );
    assert_eq!(step(LoadEvent::Addressed { error: None }), Ok(LoadStep::Start));
    assert_eq!(
        bad(step(LoadEvent::Asked { error: Some("e".into()) })),
        "gstreamer state change failed: set_state(Paused) rejected: e — see bus errors above"
    );
    assert_eq!(
        step(LoadEvent::Asked { error: None }),
        Ok(LoadStep::Preroll { idle: Layer::B })
    );
    let prerolled = |failed| LoadEvent::Prerolled {
        failed,
        current: EngineState::Ready,
        pending: EngineState::Paused,
    };
    assert_eq!(
        bad(step(prerolled(true))),
        "gstreamer state change failed: preroll failed (state=Ready, pending=Paused) — see bus errors above"
    );
    assert_eq!(step(prerolled(false)), Ok(LoadStep::Finished));
    assert_eq!(loaded, Loaded { a: true, b: false });
    assert!(loaded.has_media(Layer::A) && !loaded.has_media(Layer::B));
    assert!(ends_idle_layer(&loaded, Layer::B, true));
    assert!(!ends_idle_layer(&loaded, Layer::B, false));
    assert!(!ends_idle_layer(&loaded, Layer::A, true));
    loaded.give(Layer::B);
    assert!(!ends_idle_layer(&loaded, Layer::B, true));
}

#[test]
fn engine_calls_report_what_the_pipeline_said() {
    assert_eq!(play_result(&None), Ok(()));
    assert_eq!(
        play_result(&Some("e".into())).unwrap_err().message(),
        "gstreamer state change failed: set_state(Playing) rejected: e — see bus errors above"
    );
    assert_eq!(change_result(&None), Ok(()));
    assert_eq!(
        change_result(&Some("e".into())).unwrap_err().message(),
        "gstreamer state change failed: e"
    );
    for (error, message) in [
        (MediaError::Init("e".into()), "gstreamer init failed: e"),
        (MediaError::Link("e".into()), "gstreamer link failed: e"),
        (MediaError::LinkElements("e".into()), "gstreamer element link failed: e"),
        (MediaError::Bus("e".into()), "gstreamer bus message: e"),
        (MediaError::AddMany("e".into()), "gstreamer add-many failed: e"),
    ] {
        assert_eq!(error.message(), message);
    }
}

#[test]
fn rates_below_zero_are_not_played() {
    for (rate, playable) in [
        (1.0f32, true),
        (0.0, true),
        (-0.0, true),
        (-0.5, false),
        (f32::INFINITY, true),
        (f32::NEG_INFINITY, false),
        (f32::NAN, false),
        (-f32::NAN, false),
        (f32::MIN_POSITIVE, true),
    ] {
        assert_eq!(is_playable_rate(rate.to_bits()), playable, "{rate}");
        assert_eq!(rate >= 0.0, playable);
    }
}

#[test]
fn engine_events_reach_the_log() {
    let mut s = ClientAppState::default();
    assert_eq!(bus_event(&BusMessage::Eos), Some(MediaEvent::Eos(Layer::A)));
    assert_eq!(bus_event(&BusMessage::Trace), None);
    let changed = |from_pipeline| BusMessage::StateChanged {
        from_pipeline,
        current: EngineState::Playing,
    };
    assert_eq!(bus_event(&changed(true)), Some(MediaEvent::State(EngineState::Playing)));
    assert_eq!(bus_event(&changed(false)), None);
    let error = bus_event(&BusMessage::Error { source: None, error: "e".into(), debug: None });
    assert_eq!(
        error,
        Some(MediaEvent::Error { source: "unknown".into(), message: "e — ".into() })
    );
    let error = bus_event(&BusMessage::Error {
        source: Some("s".into()),
        error: "e".into(),
        debug: Some("d".into()),
    });
    assert!(note_event(&mut s, &Received::Event(error.unwrap())));
    assert!(note_event(&mut s, &Received::Event(MediaEvent::Eos(Layer::A))));
    assert!(note_event(&mut s, &Received::Event(MediaEvent::State(EngineState::Null))));
    assert!(note_event(&mut s, &Received::Lagged(3)));
    assert!(!note_event(&mut s, &Received::Closed));
    assert_eq!(
        s.log_lines,
        vec![
            "engine ERROR [s]: e — d",
            "engine: EOS on layer A",
            "engine state → Null",
            "engine event stream lagged, dropped 3",
        ]
    );
}
