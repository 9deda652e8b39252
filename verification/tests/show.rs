//! Shows: targeting, validation, colours and the file format.

use multiplex::document::{parse_document, Entry, Node};
use multiplex::show::{
    format_hex_color, parse_hex_color, partition_clients, Cue, CueKind, CueTarget, DropoutPolicy,
    EndAction, ExcludeAction, Poster, ShowError, ShowFile, SyncConfig, DEFAULT_FADE_MS,
};

const EXAMPLE: &str = r#"
[show]
title = "T"
version = 1
media_root = "/tmp/media"

[[cues]]
id = "a"
name = "A"
type = "video"
file = "a.mp4"
fade_in_ms = 500

[[cues]]
id = "b"
name = "B"
type = "image"
file = "b.png"
volume = 80
crossfade_to_next_ms = 500
"#;

fn texts(list: &[&str]) -> Vec<String> {
    list.iter().map(|s| s.to_string()).collect()
}

fn video(id: &str, file: &str) -> Cue {
    Cue {
        id: id.into(),
        name: id.to_uppercase(),
        kind: CueKind::Video,
        file: file.into(),
        ..Default::default()
    }
}

fn written(show: &ShowFile) -> String {
    assert!(show.can_write());
    show.to_toml().unwrap()
}

#[test]
fn show_parses_example() {
    // `volume` and `crossfade_to_next_ms` are legacy keys old show files may
    // carry; they must be silently ignored, not rejected.
    let s = ShowFile::parse_str(EXAMPLE).unwrap();
    assert_eq!(s.show.title, "T");
    assert_eq!(s.cues.len(), 2);
    assert_eq!(s.cues[0].fade_in_ms, 500);
    assert_eq!(s.show.dropout_policy, DropoutPolicy::Continue);
    assert_eq!(s.show.sync.max_drift_ms, 150);
}

#[test]
fn show_save_load_roundtrip() {
    let mut sf = ShowFile::new_empty("Roundtrip");
    sf.cues.push(Cue {
        id: "c1".into(),
        name: "First".into(),
        kind: CueKind::Video,
        file: "a.mp4".into(),
        color: None,
        fade_in_ms: 250,
        in_ms: 2500,
        out_ms: Some(15_000),
        loops: false,
        on_end: EndAction::Freeze,
        notes: Some("hello".into()),
        ..Default::default()
    });
    sf.cues.push(Cue {
        id: "c2".into(),
        name: "To black".into(),
        kind: CueKind::Color,
        file: String::new(),
        color: Some("#000000".into()),
        fade_in_ms: 1000,
        in_ms: 0,
        out_ms: None,
        loops: false,
        on_end: EndAction::default(),
        notes: None,
        ..Default::default()
    });
    let back = ShowFile::load(Ok(written(&sf))).unwrap();
    assert_eq!(back.show.title, "Roundtrip");
    assert_eq!(back.cues.len(), 2);
    assert_eq!(back.cues[0].fade_in_ms, 250);
    assert_eq!(back.cues[0].in_ms, 2500);
    assert_eq!(back.cues[0].out_ms, Some(15_000));
    assert_eq!(back.cues[0].on_end, EndAction::Freeze);
    assert_eq!(back.cues[0].notes.as_deref(), Some("hello"));
    assert_eq!(back.cues[1].kind, CueKind::Color);
    assert_eq!(back.cues[1].color.as_deref(), Some("#000000"));
}

#[test]
fn rejects_absolute_cue_path() {
    let mut sf = ShowFile::new_empty("T");
    sf.cues.push(Cue {
        id: "c1".into(),
        name: "Bad".into(),
        kind: CueKind::Video,
        file: "/etc/passwd".into(),
        ..Default::default()
    });
    assert!(matches!(sf.validate(), Err(ShowError::InvalidCue { .. })));
}

#[test]
fn color_cue_needs_no_file() {
    let mut sf = ShowFile::new_empty("T");
    sf.cues.push(Cue {
        id: "black".into(),
        name: "Blackout".into(),
        kind: CueKind::Color,
        file: String::new(),
        color: Some("#000000".into()),
        fade_in_ms: 1500,
        ..Default::default()
    });
    sf.validate().unwrap();
    // Media validation skips colour cues even with a bogus root.
    sf.validate_media("/nonexistent", &vec![]).unwrap();
}

#[test]
fn hex_color_roundtrip() {
    assert_eq!(parse_hex_color("#FF8000"), [255, 128, 0]);
    assert_eq!(parse_hex_color("bad"), [0, 0, 0]);
    assert_eq!(format_hex_color([255, 128, 0]), "#FF8000");
}

#[test]
fn hex_color_edge_cases() {
    assert_eq!(parse_hex_color("  ##a0B1c2 \n"), [0xA0, 0xB1, 0xC2]);
    assert_eq!(parse_hex_color("a0b1c2"), [0xA0, 0xB1, 0xC2]);
    assert_eq!(parse_hex_color("+a0b1c"), [0, 0, 0]);
    assert_eq!(parse_hex_color("#+12345"), [0, 0, 0]);
    assert_eq!(parse_hex_color("#12345"), [0, 0, 0]);
    assert_eq!(parse_hex_color("#1234567"), [0, 0, 0]);
    assert_eq!(parse_hex_color("#12345g"), [0, 0, 0]);
    assert_eq!(parse_hex_color(""), [0, 0, 0]);
    for rgb in [[0, 0, 0], [1, 2, 3], [254, 16, 15], [255, 255, 255]] {
        assert_eq!(parse_hex_color(&format_hex_color(rgb)), rgb);
    }
}

#[test]
fn cue_target_defaults_to_all_when_missing() {
    // A show saved before `target`/`exclude_action` existed must still parse,
    // with every cue reaching every client as before.
    let s = ShowFile::parse_str(EXAMPLE).unwrap();
    assert_eq!(s.cues[0].target, CueTarget::All);
    assert_eq!(s.cues[0].exclude_action, ExcludeAction::Ignore);
    assert_eq!(s.cues[0].exclude_color, None);
}

#[test]
fn cue_target_whitelist_blacklist_color_roundtrip() {
    let mut sf = ShowFile::new_empty("Targeting");
    sf.cues.push(Cue {
        id: "c1".into(),
        name: "Whitelisted".into(),
        kind: CueKind::Video,
        file: "a.mp4".into(),
        target: CueTarget::Whitelist { clients: texts(&["client-a", "client-b"]) },
        exclude_action: ExcludeAction::Color,
        exclude_color: Some("#112233".into()),
        ..Default::default()
    });
    sf.cues.push(Cue {
        id: "c2".into(),
        name: "Blacklisted".into(),
        kind: CueKind::Video,
        file: "b.mp4".into(),
        target: CueTarget::Blacklist { clients: texts(&["client-c"]) },
        exclude_action: ExcludeAction::Poster,
        ..Default::default()
    });
    let back = ShowFile::parse_str(&written(&sf)).unwrap();
    assert_eq!(
        back.cues[0].target,
        CueTarget::Whitelist { clients: texts(&["client-a", "client-b"]) }
    );
    assert_eq!(back.cues[0].exclude_action, ExcludeAction::Color);
    assert_eq!(back.cues[0].exclude_color.as_deref(), Some("#112233"));
    assert_eq!(back.cues[1].target, CueTarget::Blacklist { clients: texts(&["client-c"]) });
    assert_eq!(back.cues[1].exclude_action, ExcludeAction::Poster);
}

#[test]
fn targets_all() {
    let cue = Cue { target: CueTarget::All, ..Default::default() };
    assert!(cue.targets("anything"));
    let (included, excluded) = partition_clients(&cue, &texts(&["a", "b", "c"]));
    assert_eq!(included, vec!["a", "b", "c"]);
    assert!(excluded.is_empty());
}

#[test]
fn targets_whitelist() {
    let cue = Cue {
        target: CueTarget::Whitelist { clients: texts(&["a", "c"]) },
        ..Default::default()
    };
    assert!(cue.targets("a"));
    assert!(!cue.targets("b"));
    let (included, excluded) = partition_clients(&cue, &texts(&["a", "b", "c"]));
    assert_eq!(included, vec!["a", "c"]);
    assert_eq!(excluded, vec!["b"]);
}

#[test]
fn targets_blacklist() {
    let cue = Cue {
        target: CueTarget::Blacklist { clients: texts(&["b"]) },
        ..Default::default()
    };
    assert!(cue.targets("a"));
    assert!(!cue.targets("b"));
    let (included, excluded) = partition_clients(&cue, &texts(&["a", "b", "c"]));
    assert_eq!(included, vec!["a", "c"]);
    assert_eq!(excluded, vec!["b"]);
}

#[test]
fn empty_whitelist_excludes_everyone() {
    let cue = Cue { target: CueTarget::Whitelist { clients: vec![] }, ..Default::default() };
    let (included, excluded) = partition_clients(&cue, &texts(&["a", "b"]));
    assert!(included.is_empty());
    assert_eq!(excluded, vec!["a", "b"]);
}

#[test]
fn offline_targeted_client_is_simply_absent_not_an_error() {
    // A whitelist entry for a client that isn't currently connected shouldn't
    // appear in either partition: `partition_clients` only ever reasons about
    // the ids it's given.
    let cue = Cue {
        target: CueTarget::Whitelist { clients: texts(&["offline-client", "a"]) },
        ..Default::default()
    };
    let (included, excluded) = partition_clients(&cue, &texts(&["a", "b"]));
    assert_eq!(included, vec!["a"]);
    assert_eq!(excluded, vec!["b"]);
    assert!(!included.contains(&"offline-client".to_string()));
    assert!(!excluded.contains(&"offline-client".to_string()));
}

#[test]
fn show_rejects_duplicate_cue_ids() {
    let dup = r#"
[show]
title = "T"
version = 1
media_root = "/tmp"

[[cues]]
id = "a"
name = "A"
type = "video"
file = "a.mp4"

[[cues]]
id = "a"
name = "A2"
type = "video"
file = "b.mp4"
"#;
    let err = ShowFile::parse_str(dup).unwrap_err();
    assert!(matches!(err, ShowError::DuplicateCueId(_)));
    assert_eq!(err.message(), "duplicate cue id: a");
}

#[test]
fn rejects_empty_cue_id() {
    let bad = r#"
[show]
title = "T"
version = 1
media_root = "/tmp"

[[cues]]
id = ""
name = "A"
type = "video"
file = "a.mp4"
"#;
    let err = ShowFile::parse_str(bad).unwrap_err();
    assert!(matches!(err, ShowError::InvalidCue { .. }));
    assert_eq!(err.message(), "cue : cue id must not be empty");
}

#[test]
fn blank_id_empty_file_and_rooted_file_are_named_in_the_error() {
    let mut sf = ShowFile::new_empty("T");
    sf.cues.push(video(" \t", "a.mp4"));
    assert_eq!(sf.validate().unwrap_err().message(), "cue  \t: cue id must not be empty");
    sf.cues[0] = video("x", "");
    assert_eq!(sf.validate().unwrap_err().message(), "cue x: file must not be empty");
    sf.cues[0] = video("x", "/abs.mp4");
    assert_eq!(
        sf.validate().unwrap_err().message(),
        "cue x: file must be relative to media_root, got /abs.mp4"
    );
    sf.cues[0] = video("x", "rel.mp4");
    sf.validate().unwrap();
}

#[test]
fn media_validation_names_the_first_missing_file() {
    let mut sf = ShowFile::new_empty("T");
    sf.cues.push(video("x", "x.mp4"));
    sf.cues.push(video("y", "sub/y.mp4"));
    sf.show.poster = Some(Poster { kind: CueKind::Image, file: "p.png".into() });
    let needs: Vec<String> =
        sf.media_needs("/m/").into_iter().map(|n| format!("{}={}", n.cue_id, n.path)).collect();
    assert_eq!(needs, vec!["x=/m/x.mp4", "y=/m/sub/y.mp4", "poster=/m/p.png"]);
    let err = sf.validate_media("/m", &texts(&["/m/x.mp4"])).unwrap_err();
    assert_eq!(err.message(), "cue y: media file not found at /m/sub/y.mp4");
    let err = sf.validate_media("/m", &texts(&["/m/x.mp4", "/m/sub/y.mp4"])).unwrap_err();
    assert_eq!(
        err,
        ShowError::MediaMissing { cue_id: "poster".into(), path: "/m/p.png".into() }
    );
    sf.validate_media("/m", &texts(&["/m/p.png", "/m/x.mp4", "/m/sub/y.mp4"])).unwrap();
}

#[test]
fn empty_show_has_the_standard_settings() {
    let sf = ShowFile::new_empty("New");
    assert_eq!(sf.show.title, "New");
    assert_eq!(sf.show.version, 1);
    assert_eq!(sf.show.media_root, "~/multiplex_media");
    assert_eq!(sf.show.dropout_policy, DropoutPolicy::Continue);
    assert_eq!(sf.show.sync, SyncConfig::default());
    assert_eq!(sf.show.sync.max_drift_ms, 150);
    assert_eq!(sf.show.sync.start_lead_ms, 250);
    assert_eq!(sf.show.sync.correction.rate_min.parse::<f32>().unwrap(), 0.95);
    assert_eq!(sf.show.sync.correction.rate_max.parse::<f32>().unwrap(), 1.05);
    assert_eq!(sf.show.sync.correction.hard_seek_threshold_ms, 300);
    assert_eq!(sf.show.sync.correction.sync_interval_ms, 1000);
    assert!(sf.show.poster.is_none());
    assert!(sf.cues.is_empty());
    assert_eq!(DEFAULT_FADE_MS, 1500);
}

#[test]
fn every_setting_survives_writing_and_reading() {
    let mut sf = ShowFile::new_empty("All \"of\" it\nand more");
    sf.show.version = 7;
    sf.show.media_root = "/srv/médias".into();
    sf.show.dropout_policy = DropoutPolicy::Black;
    sf.show.sync.max_drift_ms = u32::MAX;
    sf.show.sync.start_lead_ms = 0;
    sf.show.sync.correction.rate_min = "0.5".into();
    sf.show.sync.correction.rate_max = "2".into();
    sf.show.sync.correction.hard_seek_threshold_ms = 1;
    sf.show.sync.correction.sync_interval_ms = 2;
    sf.show.poster = Some(Poster { kind: CueKind::Image, file: "p.png".into() });
    let mut cue = video("c", "it's \\ here.mp4");
    cue.loops = true;
    cue.on_end = EndAction::Fade;
    cue.notes = Some("a\tb\r\n'''\"\"\"".into());
    cue.exclude_color = Some(String::new());
    sf.cues.push(cue);
    let text = written(&sf);
    let back = ShowFile::parse_str(&text).unwrap();
    assert_eq!(written(&back), text);
    assert_eq!(back.show.title, "All \"of\" it\nand more");
    assert_eq!(back.show.version, 7);
    assert_eq!(back.show.media_root, "/srv/médias");
    assert_eq!(back.show.dropout_policy, DropoutPolicy::Black);
    assert_eq!(back.show.sync, sf.show.sync);
    assert_eq!(back.show.poster, sf.show.poster);
    assert!(back.cues[0].loops);
    assert_eq!(back.cues[0].file, "it's \\ here.mp4");
    assert_eq!(back.cues[0].on_end, EndAction::Fade);
    assert_eq!(back.cues[0].notes, sf.cues[0].notes);
    assert_eq!(back.cues[0].exclude_color.as_deref(), Some(""));
}

#[test]
fn rates_are_written_in_their_displayed_form() {
    let mut sf = ShowFile::new_empty("T");
    sf.show.sync.correction.rate_min = "0.950".into();
    sf.show.sync.correction.rate_max = "1e0".into();
    let back = ShowFile::parse_str(&written(&sf)).unwrap();
    assert_eq!(back.show.sync.correction.rate_min, "0.95");
    assert_eq!(back.show.sync.correction.rate_max, "1");
    sf.show.sync.correction.rate_max = "fast".into();
    assert!(matches!(sf.to_toml(), Err(ShowError::Serialize(_))));
}

#[test]
fn an_invalid_show_is_not_written() {
    let mut sf = ShowFile::new_empty("T");
    sf.cues.push(video("a", "a.mp4"));
    sf.cues.push(video("a", "b.mp4"));
    assert_eq!(sf.to_toml(), Err(ShowError::DuplicateCueId("a".into())));
}

#[test]
fn a_text_of_many_quotes_cannot_be_written() {
    let mut sf = ShowFile::new_empty(&"'".repeat(255));
    assert!(sf.can_write());
    let back = ShowFile::parse_str(&written(&sf)).unwrap();
    assert_eq!(back.show.title.len(), 255);
    sf.show.title = format!("x{}", "\"".repeat(256));
    assert!(!sf.can_write());
}

#[test]
fn sync_settings_are_all_or_nothing() {
    let head = "[show]\ntitle = \"T\"\nversion = 1\nmedia_root = \"/m\"\n";
    let full = format!(
        "{head}[show.sync]\nmax_drift_ms = 1\nstart_lead_ms = 2\n[show.sync.correction]\n\
         rate_min = 1\nrate_max = 1.5\nhard_seek_threshold_ms = 3\nsync_interval_ms = 4\n"
    );
    let s = ShowFile::parse_str(&full).unwrap();
    assert_eq!(s.show.sync.start_lead_ms, 2);
    assert_eq!(s.show.sync.correction.rate_min, "1");
    assert_eq!(s.show.sync.correction.rate_max, "1.5");
    let partial = format!("{head}[show.sync]\nmax_drift_ms = 1\nstart_lead_ms = 2\n");
    assert_eq!(
        ShowFile::parse_str(&partial).unwrap_err().message(),
        "failed to parse TOML: invalid or missing field `correction`"
    );
}

#[test]
fn fields_of_the_wrong_kind_are_refused_by_name() {
    let bad = |line: &str| {
        let raw = format!(
            "[show]\ntitle = \"T\"\nversion = 1\nmedia_root = \"/m\"\n[[cues]]\nid = \"a\"\n\
             name = \"A\"\ntype = \"video\"\nfile = \"a\"\n{line}\n"
        );
        ShowFile::parse_str(&raw).map(|_| ()).map_err(|e| e.message())
    };
    let complaint =
        |key: &str| Err(format!("failed to parse TOML: invalid or missing field `{key}`"));
    assert_eq!(bad(""), Ok(()));
    assert_eq!(bad("fade_in_ms = -1"), complaint("fade_in_ms"));
    assert_eq!(bad("fade_in_ms = 4294967296"), complaint("fade_in_ms"));
    assert_eq!(bad("fade_in_ms = 4294967295"), Ok(()));
    assert_eq!(bad("in_ms = 1.5"), complaint("in_ms"));
    assert_eq!(bad("out_ms = \"x\""), complaint("out_ms"));
    assert_eq!(bad("loop = 1"), complaint("loop"));
    assert_eq!(bad("on_end = \"Cut\""), complaint("on_end"));
    assert_eq!(bad("on_end = { freeze = {} }"), Ok(()));
    assert_eq!(bad("on_end = { freeze = {}, cut = {} }"), complaint("on_end"));
    assert_eq!(bad("color = 1"), complaint("color"));
    assert_eq!(bad("notes = []"), complaint("notes"));
    assert_eq!(bad("target = \"all\""), complaint("target"));
    assert_eq!(bad("target = { mode = \"all\", extra = 1 }"), Ok(()));
    assert_eq!(bad("target = { mode = \"whitelist\" }"), complaint("target"));
    assert_eq!(bad("target = { mode = \"whitelist\", clients = [1] }"), complaint("target"));
    assert_eq!(bad("target = { mode = \"blacklist\", clients = [\"x\"] }"), Ok(()));
    assert_eq!(bad("target = [\"whitelist\", [\"x\"]]"), Ok(()));
    assert_eq!(bad("target = [\"whitelist\", [\"x\"], 1]"), complaint("target"));
    assert_eq!(bad("exclude_action = \"hide\""), complaint("exclude_action"));
    assert_eq!(bad("exclude_color = 2020-01-01"), complaint("exclude_color"));
}

#[test]
fn missing_parts_of_a_show_are_named() {
    let message = |raw: &str| ShowFile::parse_str(raw).unwrap_err().message();
    let complaint = |key: &str| format!("failed to parse TOML: invalid or missing field `{key}`");
    assert_eq!(message(""), complaint("show"));
    assert_eq!(message("[show]\n"), complaint("title"));
    assert_eq!(message("[show]\ntitle = \"T\"\n"), complaint("version"));
    assert_eq!(message("[show]\ntitle = \"T\"\nversion = 1\n"), complaint("media_root"));
    let head = "[show]\ntitle = \"T\"\nversion = 1\nmedia_root = \"/m\"\n";
    assert!(ShowFile::parse_str(head).is_ok());
    assert_eq!(
        message(&format!("{head}dropout_policy = \"x\"\n")),
        complaint("dropout_policy")
    );
    assert_eq!(message(&format!("{head}poster = 1\n")), complaint("poster"));
    assert_eq!(message(&format!("{head}[[cues]]\nname = \"A\"\n")), complaint("id"));
}

#[test]
fn records_can_be_given_as_lists() {
    let raw = "show = [\"T\", 1, \"/m\", \"freeze\"]\ncues = [[\"a\", \"A\", \"image\", \"a.png\"]]\n";
    let s = ShowFile::parse_str(raw).unwrap();
    assert_eq!(s.show.title, "T");
    assert_eq!(s.show.dropout_policy, DropoutPolicy::Freeze);
    assert_eq!(s.cues[0].kind, CueKind::Image);
    assert_eq!(s.cues[0].file, "a.png");
}

#[test]
fn text_that_is_no_toml_is_refused() {
    let err = ShowFile::parse_str("not valid toml {{{").unwrap_err();
    assert!(matches!(err, ShowError::Toml(_)));
    assert!(err.message().starts_with("failed to parse TOML: TOML parse error at line 1"));
}

#[test]
fn a_show_is_parsed_through_the_standard_trait() {
    let s: ShowFile = EXAMPLE.parse().unwrap();
    assert_eq!(s.cues[1].id, "b");
}

#[test]
fn documents_become_trees() {
    let n = parse_document("b = true\nf = 1.50\nd = 2020-01-02\nl = [1, \"x\"]\n").unwrap();
    let entries: Vec<Entry> = match n {
        Node::Table(entries) => entries,
        _ => panic!("a document is a table"),
    };
    let shown: Vec<String> = entries.iter().map(|e| format!("{}={:?}", e.key, e.value)).collect();
    assert_eq!(
        shown,
        vec![
            "b=Flag(true)",
            "d=Table([Entry { key: \"$__toml_private_datetime\", value: Text(\"2020-01-02\") }])",
            "f=Float(\"1.5\")",
            "l=List([Integer(1), Text(\"x\")])",
        ]
    );
}

#[test]
fn numbers_that_are_not_finite_are_read() {
    let raw = format!(
        "{EXAMPLE}[show.sync]\nmax_drift_ms = 1\nstart_lead_ms = 2\n[show.sync.correction]\n\
         rate_min = -inf\nrate_max = nan\nhard_seek_threshold_ms = 3\nsync_interval_ms = 4\n"
    );
    let s = ShowFile::parse_str(&raw).unwrap();
    assert_eq!(s.show.sync.correction.rate_min, "-inf");
    assert_eq!(s.show.sync.correction.rate_max, "NaN");
    let back = ShowFile::parse_str(&written(&s)).unwrap();
    assert_eq!(back.show.sync, s.show.sync);
    let n = parse_document("x = inf\nd = 2020-01-02\n").unwrap();
    assert!(format!("{n:?}").contains("Moment(\"2020-01-02\")"));
}

#[test]
fn a_private_key_of_the_reader_is_a_key_like_any_other() {
    let raw = EXAMPLE.replace("[show]\n", "[show]\n\"$__toml_private_datetime\" = 1\n");
    assert_eq!(ShowFile::parse_str(&raw).unwrap().show.title, "T");
}

#[test]
fn a_show_that_is_refused_is_refused_whatever_its_texts_hold() {
    let mut sf = ShowFile::new_empty(&"'".repeat(300));
    sf.cues.push(video("a", "a.mp4"));
    sf.cues.push(video("a", "b.mp4"));
    assert!(sf.can_write());
    assert_eq!(sf.to_toml(), Err(ShowError::DuplicateCueId("a".into())));
}

#[test]
fn error_messages_name_what_failed() {
    let unread = ShowFile::load(Err("gone".into())).unwrap_err();
    assert_eq!(unread, ShowError::Io("gone".into()));
    assert_eq!(unread.message(), "failed to read show file: gone");
    assert_eq!(ShowError::Serialize("no".into()).message(), "failed to serialize show: no");
}
