//! What the operator of a CueMesh2 controller does and sees.

use vstd::prelude::*;

use super::controller;
use super::controller::{
    broadcast, AppState, ClientRow, ControllerModel, Outgoing, OutgoingModel, RowModel,
};
use super::protocol::{
    ControllerMsg, ControllerMsgModel, Layer, LoadCue, LoadCueModel, PlayAt,
};
use super::show::{Cue, CueModel, ShowError, ShowFile};
use crate::clock;
use crate::clock::now_utc_ms;
use crate::logbook;
use crate::logbook::log_tail;
use crate::paths;
use crate::paths::{expand, join_path};
use crate::text;
use crate::text::{align_right, i64_text, u64_text};

verus! {

/// How long (ms) after GO a cue starts, so that slow-arriving clients still make
/// it.
pub const LEAD_MS: u64 = 250;

/// The fade (ms) of a manual crossfade, and of FADE when no show is loaded.
pub const MANUAL_FADE_MS: u32 = 1500;

/// How many log lines the window shows.
pub const SHOWN_LINES: usize = 80;

/// The controller's state after a show was opened from `path`.
pub open spec fn after_open(
    s: ControllerModel,
    show: super::show::ShowFileModel,
    path: Seq<char>,
) -> ControllerModel {
    ControllerModel {
        show: Some(show),
        show_path: Some(path),
        selected_cue_idx: Some(0),
        ..s
    }.with_log("loaded show "@ + path)
}

/// Take over a show that was read from `path`.
pub fn show_opened(state: &mut AppState, show: ShowFile, path: &str)
    ensures
        final(state)@ == after_open(old(state)@, show@, path@),
{
    state.show = Some(show);
    state.show_path = Some(path.to_owned());
    state.selected_cue_idx = Some(0);
    state.push_log("loaded show ".to_owned().concat(path));
}

/// Note that a show could not be opened.
pub fn show_not_opened(state: &mut AppState, error: &ShowError)
    ensures
        final(state)@ == old(state)@.with_log("failed to load show: "@ + error@.message()),
{
    state.push_log("failed to load show: ".to_owned().concat(error.message().as_str()));
}

/// The selected cue, if there is a show and the selection is one of its cues.
pub open spec fn selected_cue(s: ControllerModel) -> Option<CueModel> {
    match (s.show, s.selected_cue_idx) {
        (Some(show), Some(idx)) if idx < show.cues.len() => Some(show.cues[idx as int]),
        _ => None,
    }
}

fn current_cue(state: &AppState) -> (r: Option<Cue>)
    ensures
        match r {
            Some(cue) => selected_cue(state@) == Some(cue@),
            None => selected_cue(state@) is None,
        },
{
    match (&state.show, state.selected_cue_idx) {
        (Some(show), Some(idx)) => {
            if idx < show.cues.len() {
                assert(state@.show->0.cues[idx as int] == show.cues@[idx as int]@);
                Some(show.cues[idx].clone())
            } else {
                None
            }
        },
        _ => None,
    }
}

/// What every client is told of the cue that is to be on layer A.
pub open spec fn load_of(cue: CueModel, media_root: Seq<char>, home: Option<Seq<char>>) -> LoadCueModel {
    LoadCueModel {
        cue_id: cue.id,
        layer: Layer::A,
        file: paths::joined(paths::home_expanded(media_root, home), cue.file),
        start_ms: None,
        end_ms: None,
        volume: cue.volume,
        fade_in_ms: cue.fade_in_ms,
        fade_out_ms: cue.fade_out_ms,
        crossfade_to_next_ms: cue.crossfade_to_next_ms,
    }
}

/// What is sent on GO: the cue to everyone, then when to start it.
pub open spec fn go_messages(s: ControllerModel, home: Option<Seq<char>>, now_ms: u64) -> Seq<
    OutgoingModel,
> {
    match selected_cue(s) {
        Some(cue) => controller::to_all(
            s.clients,
            ControllerMsgModel::LoadCue(load_of(cue, s.show->0.show.media_root, home)),
        ) + controller::to_all(
            s.clients,
            ControllerMsgModel::PlayAt(
                PlayAt { layer: Layer::A, master_start_utc_ms: clock::capped(now_ms + LEAD_MS) },
            ),
        ),
        None => Seq::empty(),
    }
}

/// The controller's state after GO.
pub open spec fn after_go(s: ControllerModel) -> ControllerModel {
    match selected_cue(s) {
        Some(cue) => s.with_log("GO cue "@ + cue.id),
        None => s,
    }
}

/// The home directory as characters.
pub open spec fn home_of(home: Option<&str>) -> Option<Seq<char>> {
    match home {
        Some(h) => Some(h@),
        None => None,
    }
}

/// Fire the selected cue on every client at `now_ms`, with lead time.
pub fn go_selected_at(state: &mut AppState, home: Option<&str>, now_ms: u64) -> (r: Vec<Outgoing>)
    ensures
        final(state)@ == after_go(old(state)@),
        r.deep_view() == go_messages(old(state)@, home_of(home), now_ms),
        forall|k: int|
            0 <= k < r@.len() ==> match (#[trigger] r@[k]).msg {
                ControllerMsg::LoadCue(l) => {
                    let cue = old(state).show->0.cues@[old(state).selected_cue_idx->0 as int];
                    &&& l.cue_id@ == cue.id@
                    &&& l.layer == Layer::A
                    &&& l.file@ == paths::joined(
                        paths::home_expanded(
                            old(state).show->0.show.media_root@,
                            match home {
                                Some(h) => Some(h@),
                                None => None,
                            },
                        ),
                        cue.file@,
                    )
                    &&& l.start_ms is None
                    &&& l.end_ms is None
                    &&& l.volume == cue.volume
                    &&& l.fade_in_ms == cue.fade_in_ms
                    &&& l.fade_out_ms == cue.fade_out_ms
                    &&& l.crossfade_to_next_ms == cue.crossfade_to_next_ms
                },
                ControllerMsg::PlayAt(p) => p.layer == Layer::A,
                _ => false,
            },
{
    let cue: Cue = match current_cue(state) {
        Some(cue) => cue,
        None => {
            let out: Vec<Outgoing> = Vec::new();
            assert(out.deep_view() =~= Seq::<OutgoingModel>::empty());
            return out;
        },
    };
    let media_root: String = match &state.show {
        Some(show) => show.show.media_root.clone(),
        None => String::new(),
    };
    let load = LoadCue {
        cue_id: cue.id.clone(),
        layer: Layer::A,
        file: join_path(expand(media_root.as_str(), home).as_str(), cue.file.as_str()),
        start_ms: None,
        end_ms: None,
        volume: cue.volume,
        fade_in_ms: cue.fade_in_ms,
        fade_out_ms: cue.fade_out_ms,
        crossfade_to_next_ms: cue.crossfade_to_next_ms,
    };
    let mut out: Vec<Outgoing> = broadcast(&state.clients, &ControllerMsg::LoadCue(load));
    let ghost first = out.deep_view();
    let mut starts: Vec<Outgoing> = broadcast(
        &state.clients,
        &ControllerMsg::PlayAt(
            PlayAt { layer: Layer::A, master_start_utc_ms: now_ms.saturating_add(LEAD_MS) },
        ),
    );
    let ghost second = starts.deep_view();
    out.append(&mut starts);
    assert(out.deep_view() =~= first + second);
    state.push_log("GO cue ".to_owned().concat(cue.id.as_str()));
    out
}

/// Fire the selected cue on every client now.
pub fn go_selected(state: &mut AppState, home: Option<&str>) -> (r: Vec<Outgoing>)
    ensures
        final(state)@ == after_go(old(state)@),
        exists|now_ms: u64|
            r.deep_view() == #[trigger] go_messages(old(state)@, home_of(home), now_ms),
{
    go_selected_at(state, home, now_utc_ms())
}

/// The fade of the FADE command: the show's, or the fixed one without a show.
pub open spec fn fade_of(s: ControllerModel) -> u32 {
    match s.show {
        Some(show) => show.show.settings.default_fade_ms,
        None => MANUAL_FADE_MS,
    }
}

/// Fade every client to black.
pub fn fade_all(state: &AppState) -> (r: Vec<Outgoing>)
    ensures
        r.deep_view() == controller::to_all(
            state@.clients,
            ControllerMsgModel::Fade { duration_ms: fade_of(state@) },
        ),
        r@.len() == state.clients@.len(),
        forall|k: int|
            0 <= k < r@.len() ==> (#[trigger] r@[k]).client_id@ == state.clients@[k].client_id@
                && match r@[k].msg {
                ControllerMsg::Fade { duration_ms } => duration_ms == match state.show {
                    Some(show) => show.show.settings.default_fade_ms,
                    None => 1500,
                },
                _ => false,
            },
{
    let duration_ms: u32 = match &state.show {
        Some(show) => show.show.settings.default_fade_ms,
        None => MANUAL_FADE_MS,
    };
    broadcast(&state.clients, &ControllerMsg::Fade { duration_ms })
}

/// Tell every client to crossfade to the selected cue.
pub fn crossfade_to_selected(state: &AppState) -> (r: Vec<Outgoing>)
    ensures
        r.deep_view() == match selected_cue(state@) {
            Some(cue) => controller::to_all(
                state@.clients,
                ControllerMsgModel::Crossfade { to_cue_id: cue.id, duration_ms: MANUAL_FADE_MS },
            ),
            None => Seq::empty(),
        },
        forall|k: int|
            0 <= k < r@.len() ==> match (#[trigger] r@[k]).msg {
                ControllerMsg::Crossfade { to_cue_id, duration_ms } => {
                    &&& to_cue_id@
                        == state.show->0.cues@[state.selected_cue_idx->0 as int].id@
                    &&& duration_ms == 1500
                },
                _ => false,
            },
{
    match current_cue(state) {
        Some(cue) => broadcast(
            &state.clients,
            &ControllerMsg::Crossfade { to_cue_id: cue.id, duration_ms: MANUAL_FADE_MS },
        ),
        None => {
            let out: Vec<Outgoing> = Vec::new();
            assert(out.deep_view() =~= Seq::<OutgoingModel>::empty());
            out
        },
    }
}

/// Pause every client.
pub fn pause_all(state: &AppState) -> (r: Vec<Outgoing>)
    ensures
        r.deep_view() == controller::to_all(state@.clients, ControllerMsgModel::Pause),
        r@.len() == state.clients@.len(),
        forall|k: int|
            0 <= k < r@.len() ==> (#[trigger] r@[k]).client_id@ == state.clients@[k].client_id@
                && r@[k].msg is Pause,
{
    broadcast(&state.clients, &ControllerMsg::Pause)
}

/// Stop every client at once.
pub fn stop_all(state: &AppState) -> (r: Vec<Outgoing>)
    ensures
        r.deep_view() == controller::to_all(state@.clients, ControllerMsgModel::Stop),
        r@.len() == state.clients@.len(),
        forall|k: int|
            0 <= k < r@.len() ==> (#[trigger] r@[k]).client_id@ == state.clients@[k].client_id@
                && r@[k].msg is Stop,
{
    broadcast(&state.clients, &ControllerMsg::Stop)
}

/// Select a cue.
pub fn select(state: &mut AppState, idx: usize)
    ensures
        final(state)@ == (ControllerModel { selected_cue_idx: Some(idx), ..old(state)@ }),
{
    let ghost before = state@;
    state.selected_cue_idx = Some(idx);
    assert(state@ =~= ControllerModel { selected_cue_idx: Some(idx), ..before });
}

/// The line that says which show is loaded.
pub open spec fn summary_of(s: ControllerModel) -> Seq<char> {
    match s.show {
        Some(show) => show.show.title + "  ("@ + text::decimal(show.cues.len()) + " cues)"@,
        None => "(no show loaded)"@,
    }
}

/// The line that says which show is loaded.
pub fn show_summary(state: &AppState) -> (r: String)
    ensures
        r@ == summary_of(state@),
{
    match &state.show {
        Some(show) => show.show.title.clone().concat("  (").concat(
            u64_text(show.cues.len() as u64).as_str(),
        ).concat(" cues)"),
        None => "(no show loaded)".to_owned(),
    }
}

/// The label of a cue in the list.
pub open spec fn cue_label(i: int, cue: CueModel) -> Seq<char> {
    text::right_aligned(text::decimal(i as nat), 3) + "  "@ + cue.id + "  —  "@ + cue.name
}

/// The labels of the cues of the show.
pub open spec fn labels_of(cues: Seq<CueModel>) -> Seq<Seq<char>> {
    cues.map(|i: int, c: CueModel| cue_label(i, c))
}

/// The labels of the cue list.
pub fn cue_labels(state: &AppState) -> (r: Vec<String>)
    ensures
        r.deep_view() == match state@.show {
            Some(show) => labels_of(show.cues),
            None => Seq::empty(),
        },
{
    let mut r: Vec<String> = Vec::new();
    match &state.show {
        Some(show) => {
            let mut i: usize = 0;
            while i < show.cues.len()
                invariant
                    0 <= i <= show.cues.len(),
                    r@.len() == i,
                    forall|k: int|
                        0 <= k < i ==> (#[trigger] r@[k])@ == cue_label(k, show.cues@[k]@),
                decreases show.cues.len() - i,
            {
                let number: String = align_right(u64_text(i as u64).as_str(), 3);
                r.push(
                    number.concat("  ").concat(show.cues[i].id.as_str()).concat("  —  ").concat(
                        show.cues[i].name.as_str(),
                    ),
                );
                i = i + 1;
            }
            assert(r.deep_view() =~= labels_of(show.cues.deep_view()));
        },
        None => {
            assert(r.deep_view() =~= Seq::<Seq<char>>::empty());
        },
    }
    r
}

/// The lines that the roster shows of a client.
pub open spec fn roster_lines_of(row: RowModel) -> Seq<Seq<char>> {
    let head = seq![
        row.name + "  ("@ + row.client_id + ")"@,
        "addr: "@ + row.addr,
        "state: "@ + row.state.label(),
    ];
    let cued = match row.current_cue {
        Some(cue) => head.push(
            "cue: "@ + cue + "  @ "@ + text::decimal(row.position_ms as nat) + "ms"@,
        ),
        None => head,
    };
    match row.last_drift_ms {
        Some(d) => cued.push("offset: "@ + text::signed_decimal(d as int) + " ms"@),
        None => cued,
    }
}

/// The lines that the roster shows of a client.
pub fn roster_lines(row: &ClientRow) -> (r: Vec<String>)
    ensures
        r.deep_view() == roster_lines_of(row.deep_view()),
{
    let mut r: Vec<String> = Vec::new();
    r.push(row.name.clone().concat("  (").concat(row.client_id.as_str()).concat(")"));
    r.push("addr: ".to_owned().concat(row.addr.as_str()));
    r.push("state: ".to_owned().concat(row.state.name()));
    if let Some(cue) = &row.current_cue {
        r.push(
            "cue: ".to_owned().concat(cue.as_str()).concat("  @ ").concat(
                u64_text(row.position_ms).as_str(),
            ).concat("ms"),
        );
    }
    if let Some(d) = row.last_drift_ms {
        r.push("offset: ".to_owned().concat(i64_text(d).as_str()).concat(" ms"));
    }
    assert(r.deep_view() =~= roster_lines_of(row.deep_view()));
    r
}

/// The newest log lines, newest first.
pub fn shown_log(state: &AppState) -> (r: Vec<String>)
    ensures
        r.deep_view() == logbook::tail_reversed(state@.log_lines, SHOWN_LINES as nat),
        r@.len() == if state.log_lines@.len() <= 80 {
            state.log_lines@.len()
        } else {
            80
        },
        forall|k: int|
            0 <= k < r@.len() ==> (#[trigger] r@[k])@
                == state.log_lines@[state.log_lines@.len() - 1 - k]@,
{
    let r: Vec<String> = log_tail(&state.log_lines, SHOWN_LINES);
    proof {
        let lines = state.log_lines.deep_view();
        logbook::law_newest_shown_first(lines, SHOWN_LINES as nat);
        assert forall|k: int| 0 <= k < r@.len() implies (#[trigger] r@[k])@
            == state.log_lines@[state.log_lines@.len() - 1 - k]@ by {
            assert(r.deep_view()[k] == r@[k]@);
            assert(lines[lines.len() - 1 - k] == state.log_lines@[lines.len() - 1 - k]@);
        }
    }
    r
}

/// GO sends every client first the cue and then its start, and nothing to
/// anyone else.
pub proof fn law_go_reaches_everyone(
    s: ControllerModel,
    home: Option<Seq<char>>,
    now_ms: u64,
    i: int,
)
    requires
        selected_cue(s) is Some,
        0 <= i < s.clients.len(),
    ensures
        go_messages(s, home, now_ms).len() == 2 * s.clients.len(),
        go_messages(s, home, now_ms)[i].client_id == s.clients[i].client_id,
        go_messages(s, home, now_ms)[i].msg is LoadCue,
        go_messages(s, home, now_ms)[s.clients.len() + i].client_id == s.clients[i].client_id,
        go_messages(s, home, now_ms)[s.clients.len() + i].msg is PlayAt,
{
}

/// What GO tells each client, when a cue of the show is selected: the cue, as it
/// stands in the show, for layer A, with its file under the show's media root
/// (where a leading `~/` stands for the home directory), to be played whole; and
/// its start on that layer, a quarter of a second from now. The log tells, and
/// nothing else changes.
pub proof fn law_go_carries_the_cue(
    s: ControllerModel,
    home: Option<Seq<char>>,
    now_ms: u64,
    i: int,
)
    requires
        s.show is Some,
        s.selected_cue_idx is Some,
        s.selected_cue_idx->0 < s.show->0.cues.len(),
        0 <= i < s.clients.len(),
    ensures
        ({
            let cue = s.show->0.cues[s.selected_cue_idx->0 as int];
            let root = s.show->0.show.media_root;
            let sent = go_messages(s, home, now_ms);
            let n = s.clients.len();
            let t = after_go(s);
            &&& sent.len() == 2 * n
            &&& sent[i].client_id == s.clients[i].client_id
            &&& sent[n + i].client_id == s.clients[i].client_id
            &&& sent[i].msg matches ControllerMsgModel::LoadCue(l)
            &&& l.cue_id == cue.id
            &&& l.layer == Layer::A
            &&& l.file == paths::joined(paths::home_expanded(root, home), cue.file)
            &&& l.start_ms is None
            &&& l.end_ms is None
            &&& l.volume == cue.volume
            &&& l.fade_in_ms == cue.fade_in_ms
            &&& l.fade_out_ms == cue.fade_out_ms
            &&& l.crossfade_to_next_ms == cue.crossfade_to_next_ms
            &&& sent[n + i].msg matches ControllerMsgModel::PlayAt(p)
            &&& p.layer == Layer::A
            &&& p.master_start_utc_ms == if now_ms + 250 <= u64::MAX {
                now_ms + 250
            } else {
                u64::MAX as int
            }
            &&& t == (ControllerModel { log_lines: t.log_lines, ..s })
            &&& t.log_lines.len() > 0
            &&& t.log_lines.last() == "GO cue "@ + cue.id
        }),
{
}

/// GO without a show, or with a selection that is none of its cues, sends nothing
/// and changes nothing.
pub proof fn law_nothing_selected(s: ControllerModel, home: Option<Seq<char>>, now_ms: u64)
    requires
        s.show is None || s.selected_cue_idx is None || s.selected_cue_idx->0
            >= s.show->0.cues.len(),
    ensures
        go_messages(s, home, now_ms).len() == 0,
        after_go(s) == s,
{
}

/// A show that is opened is the one that runs, from its first cue, with its path
/// remembered; clients and blacklist stay, and the log tells.
pub proof fn law_show_starts_over(
    s: ControllerModel,
    show: super::show::ShowFileModel,
    path: Seq<char>,
)
    ensures
        ({
            let t = after_open(s, show, path);
            &&& t.show == Some(show)
            &&& t.show_path == Some(path)
            &&& t.selected_cue_idx == Some(0usize)
            &&& t.clients == s.clients
            &&& t.blacklist == s.blacklist
            &&& t.log_lines.len() > 0
            &&& t.log_lines.last() == "loaded show "@ + path
        }),
{
}

/// The list has a label for each cue of the show, in order: its number in three
/// places, its id and its name.
pub proof fn law_cue_labels(cues: Seq<CueModel>)
    ensures
        labels_of(cues).len() == cues.len(),
        forall|i: int|
            0 <= i < cues.len() ==> #[trigger] labels_of(cues)[i] == text::right_aligned(
                text::decimal(i as nat),
                3,
            ) + "  "@ + cues[i].id + "  —  "@ + cues[i].name,
{
}

/// The roster shows of a client its name and id, its address and its state, then
/// its cue and how far it is, where it has one, and its clock's offset, where
/// that was measured.
pub proof fn law_roster_lines(row: RowModel)
    ensures
        ({
            let lines = roster_lines_of(row);
            let cued = if row.current_cue is Some {
                1int
            } else {
                0int
            };
            let timed = if row.last_drift_ms is Some {
                1int
            } else {
                0int
            };
            &&& lines.len() == 3 + cued + timed
            &&& lines[0] == row.name + "  ("@ + row.client_id + ")"@
            &&& lines[1] == "addr: "@ + row.addr
            &&& lines[2] == "state: "@ + row.state.label()
            &&& row.current_cue is Some ==> lines[3] == "cue: "@ + row.current_cue->0 + "  @ "@
                + text::decimal(row.position_ms as nat) + "ms"@
            &&& row.last_drift_ms is Some ==> lines[3 + cued] == "offset: "@
                + text::signed_decimal(row.last_drift_ms->0 as int) + " ms"@
        }),
{
}

/// The summary names the show and counts its cues, or says that there is none.
pub proof fn law_summary(s: ControllerModel)
    ensures
        s.show is Some ==> summary_of(s) == s.show->0.show.title + "  ("@ + text::decimal(
            s.show->0.cues.len(),
        ) + " cues)"@,
        s.show is None ==> summary_of(s) == "(no show loaded)"@,
{
}

} // verus!
