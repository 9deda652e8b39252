//! Client identity, the directory of known clients, and client setup.

use multiplex::client_setup::{client_name, display_name, media_root, parse_canvas, Canvas};
use multiplex::identity::{self, adopt, load_or_create, Identity};
use multiplex::known_clients::{self, note_hello, rename, KnownClient, KnownEntry};
use multiplex::protocol::{AssignName, ControllerMsg};
use multiplex::state::AppState;

fn known(id: &str, name: &str, assigned: bool, last_seen_ms: u64) -> KnownEntry {
    KnownEntry {
        client_id: id.into(),
        client: KnownClient { name: name.into(), assigned, last_seen_ms },
    }
}

#[test]
fn missing_file_generates_and_persists_a_uuid() {
    let first = load_or_create(None);
    assert!(first.is_new);
    assert!(!first.identity.client_id.is_empty());
    assert!(first.identity.can_write());
    let stored = first.identity.to_toml().unwrap();
    let second = load_or_create(Some(&stored));
    assert!(!second.is_new);
    assert_eq!(first.identity.client_id, second.identity.client_id);
}

#[test]
fn corrupt_file_does_not_panic_and_regenerates() {
    let loaded = load_or_create(Some("not valid toml {{{"));
    assert!(loaded.is_new);
    assert!(!loaded.identity.client_id.is_empty());
}

#[test]
fn assigned_name_roundtrips_through_save_and_reload() {
    let mut identity = load_or_create(None).identity;
    identity.assigned_name = Some("center-top".into());
    let reloaded = load_or_create(Some(&identity.to_toml().unwrap())).identity;
    assert_eq!(reloaded.assigned_name.as_deref(), Some("center-top"));
    assert_eq!(reloaded.client_id, identity.client_id);
}

#[test]
fn a_fresh_id_is_a_random_uuid() {
    let a = load_or_create(None).identity.client_id;
    let b = load_or_create(None).identity.client_id;
    assert_ne!(a, b);
    assert_eq!(a.len(), 36);
    assert_eq!(a.as_bytes()[14], b'4');
    for (i, c) in a.chars().enumerate() {
        if [8, 13, 18, 23].contains(&i) {
            assert_eq!(c, '-');
        } else {
            assert!(c.is_ascii_hexdigit() && !c.is_ascii_uppercase());
        }
    }
}

#[test]
fn an_identity_without_an_id_is_replaced() {
    assert!(load_or_create(Some("client_id = \"\"\n")).is_new);
    assert!(load_or_create(Some("assigned_name = \"x\"\n")).is_new);
    assert!(load_or_create(Some("client_id = 7\n")).is_new);
    assert!(load_or_create(Some("client_id = \"a\"\nassigned_name = 1\n")).is_new);
    let kept = load_or_create(Some("client_id = \"a\"\nother = 1\n"));
    assert!(!kept.is_new);
    assert_eq!(kept.identity, Identity { client_id: "a".into(), assigned_name: None });
}

#[test]
fn a_stored_identity_is_adopted_before_a_fresh_one() {
    let stored = Identity { client_id: "old".into(), assigned_name: Some("n".into()) };
    assert_eq!(adopt(Some(stored.clone()), "new".into()).identity, stored);
    let fresh = adopt(None, "new".into());
    assert!(fresh.is_new);
    assert_eq!(fresh.identity, Identity { client_id: "new".into(), assigned_name: None });
    assert_eq!(Identity::default().client_id, "");
}

#[test]
fn identity_is_kept_where_it_is_configured() {
    let some = |s: &str| Some(s.to_string());
    assert_eq!(identity::default_path(&some("/x/id.toml"), &some("/c"), &some("/h")), "/x/id.toml");
    assert_eq!(
        identity::default_path(&None, &some("/c"), &some("/h")),
        "/c/multiplex-client/identity.toml"
    );
    assert_eq!(
        identity::default_path(&None, &None, &some("/h")),
        "/h/.multiplex_client/identity.toml"
    );
    assert_eq!(identity::default_path(&None, &None, &None), "./.multiplex_client/identity.toml");
}

#[test]
fn missing_file_loads_empty() {
    assert!(known_clients::load(None).is_empty());
}

#[test]
fn known_clients_save_load_roundtrip() {
    let clients = vec![known("client-a", "center-top", true, 12345)];
    assert!(known_clients::can_write(&clients));
    let back = known_clients::load(Some(&known_clients::to_toml(&clients).unwrap()));
    assert_eq!(back.len(), 1);
    assert_eq!(back[0].client_id, "client-a");
    assert_eq!(back[0].client.name, "center-top");
    assert!(back[0].client.assigned);
    assert_eq!(back[0].client.last_seen_ms, 12345);
}

#[test]
fn odd_client_ids_survive_the_directory_file() {
    let clients = vec![
        known("", "empty", false, 0),
        known("a.b c", "dotted", false, i64::MAX as u64),
        known("\"q\" 'r'\n", "quoted", true, 1),
        known("$__toml_private_datetime", "private", true, 2),
    ];
    let mut back = known_clients::load(Some(&known_clients::to_toml(&clients).unwrap()));
    back.sort_by(|a, b| a.client_id.cmp(&b.client_id));
    let mut want = clients;
    want.sort_by(|a, b| a.client_id.cmp(&b.client_id));
    assert_eq!(back, want);
}

#[test]
fn a_client_id_can_be_the_readers_private_key() {
    let clients = vec![known("$__toml_private_datetime", "private", true, 2)];
    let back = known_clients::load(Some(&known_clients::to_toml(&clients).unwrap()));
    assert_eq!(back, clients);
    assert!(known_clients::load(Some("clients = 2020-01-02")).is_empty());
}

#[test]
fn a_time_that_does_not_fit_is_not_written() {
    let clients = vec![known("a", "A", false, i64::MAX as u64 + 1)];
    assert!(known_clients::can_write(&clients));
    assert_eq!(known_clients::to_toml(&clients), None);
}

#[test]
fn a_directory_file_with_a_bad_line_is_empty() {
    assert!(known_clients::load(Some("not valid toml {{{")).is_empty());
    assert!(known_clients::load(Some("")).is_empty());
    assert!(known_clients::load(Some("clients = 1")).is_empty());
    assert!(known_clients::load(Some("[clients.a]\nname = \"A\"\n[clients.b]\n")).is_empty());
    assert!(known_clients::load(Some("[clients.a]\nname = \"A\"\nlast_seen_ms = -1\n")).is_empty());
    let ok = known_clients::load(Some("[clients.a]\nname = \"A\"\n"));
    assert_eq!(ok, vec![known("a", "A", false, 0)]);
}

#[test]
fn rename_while_offline_converges_on_next_hello() {
    let mut state = AppState::new();
    // Rename a client that has never connected.
    assert!(rename(&mut state, "client-x", "center-top").is_empty());
    assert!(state.known_clients[0].client.assigned);
    // It connects later, reporting a different name of itself.
    let assign = note_hello(&mut state.known_clients, "client-x", "old-hostname-name", 77);
    assert_eq!(
        assign,
        Some(AssignName { client_id: "client-x".into(), name: "center-top".into() })
    );
    assert_eq!(state.known_clients, vec![known("client-x", "center-top", true, 77)]);
    // Once it reports the assigned name there is nothing more to tell it.
    assert_eq!(note_hello(&mut state.known_clients, "client-x", "center-top", 78), None);
}

#[test]
fn a_name_nobody_assigned_follows_the_client() {
    let mut entries = vec![];
    assert_eq!(note_hello(&mut entries, "c", "one", 1), None);
    assert_eq!(note_hello(&mut entries, "c", "two", 2), None);
    assert_eq!(entries, vec![known("c", "two", false, 2)]);
}

#[test]
fn directory_is_kept_next_to_the_program_unless_configured() {
    let some = |s: &str| Some(s.to_string());
    assert_eq!(known_clients::default_path(&some("/d"), &some("/bin")), "/d/known_clients.toml");
    assert_eq!(known_clients::default_path(&None, &some("/bin/")), "/bin/known_clients.toml");
    assert_eq!(known_clients::default_path(&None, &None), "./known_clients.toml");
}

#[test]
fn canvas_is_width_height_and_rate() {
    let canvas = |width, height, fps_n| Some(Canvas { width, height, fps_n, fps_d: 1 });
    assert_eq!(parse_canvas("1280x720@30"), canvas(1280, 720, 30));
    assert_eq!(parse_canvas(" 1280 x 720 @ +30 "), canvas(1280, 720, 30));
    assert_eq!(parse_canvas("0x4294967295@1"), canvas(0, u32::MAX, 1));
    assert_eq!(parse_canvas("0x4294967296@1"), None);
    assert_eq!(parse_canvas("1280x720"), None);
    assert_eq!(parse_canvas("1280@30"), None);
    assert_eq!(parse_canvas("1280x720@"), None);
    assert_eq!(parse_canvas("1280x7x20@30"), None);
    assert_eq!(parse_canvas("-1x2@3"), None);
}

#[test]
fn client_name_and_media_root_have_fallbacks() {
    let some = |s: &str| Some(s.to_string());
    assert_eq!(client_name(&some("a"), &some("b"), &some("c")), "a");
    assert_eq!(client_name(&None, &some("b"), &some("c")), "b");
    assert_eq!(client_name(&None, &None, &some("c")), "c");
    assert_eq!(client_name(&None, &None, &None), "cuemesh-client");
    let mut who = Identity { client_id: "i".into(), assigned_name: None };
    assert_eq!(display_name(&who, &None, &some("b"), &None), "b");
    who.assigned_name = some("given");
    assert_eq!(display_name(&who, &some("a"), &some("b"), &None), "given");
    assert_eq!(media_root(&some("/m"), &some("/h")), "/m");
    assert_eq!(media_root(&None, &some("/h")), "/h/cuemesh_media");
    assert_eq!(media_root(&None, &None), "./cuemesh_media");
}

#[test]
fn rename_tells_a_connected_client_at_once() {
    let mut state = AppState::new();
    state.clients.push(multiplex::state::ClientRow {
        client_id: "c".into(),
        name: "old".into(),
        layers: multiplex::state::LayerState::idle(),
        status: multiplex::state::ClientStatus {
            addr: String::new(),
            state: multiplex::protocol::ClientState::Idle,
            current_cue: None,
            position_ms: 0,
            offset_ms: None,
            last_drift_ms: None,
            last_heartbeat_ms: 0,
            app_version: String::new(),
            target_triple: String::new(),
            update: multiplex::state::ClientUpdate::Idle,
            preflight: vec![],
            push_progress: None,
        },
    });
    let out = rename(&mut state, "c", "new");
    assert_eq!(state.clients[0].name, "new");
    assert_eq!(out.len(), 1);
    assert_eq!(out[0].client_id, "c");
    match &out[0].msg {
        ControllerMsg::AssignName(a) => assert_eq!(a.name, "new"),
        other => panic!("expected ASSIGN_NAME, got {other:?}"),
    }
}
