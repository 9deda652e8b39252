//! What the operator's console does: running a show, moving through its cues,
//! and stopping it.
//!
//! Each operation changes the controller's state and returns the messages that
//! are to be sent, in order.

use vstd::prelude::*;

use crate::clock::now_utc_ms;
use crate::dispatch;
use crate::dispatch::{
    apply_exclude_action_at, go_for_clients_at, standby_for_client_at,
};
use crate::protocol::{ControllerMsg, ControllerMsgModel, FadeCmd, Outgoing, OutgoingModel};
use crate::show::{
    partition_clients, Cue, CueKind, CueModel, ExcludeAction, ShowError, ShowFile, ShowFileModel,
    TargetModel, DEFAULT_FADE_MS,
};
use crate::state;
use crate::state::{client_ids, AppModel, AppState, ClientRow, RowModel, RunState};

verus! {

/// The shortest lead time (ms) between sending a cue and starting it.
pub const MIN_LEAD_MS: u32 = 250;

/// How long (ms) a cue selection must hold still before it is preloaded. Keeps
/// scrolling from firing a cold decode on every cue on the way.
pub const SELECTION_SETTLE_MS: u128 = 150;

/// The selected cue, if there is a show and the selection is one of its cues.
pub open spec fn selected_cue(s: AppModel) -> Option<CueModel> {
    match (s.show, s.selected_cue_idx) {
        (Some(show), Some(idx)) if idx < show.cues.len() => Some(show.cues[idx as int]),
        _ => None,
    }
}

/// The lead time of a show's cues.
pub open spec fn lead_of(show: ShowFileModel) -> u64 {
    if show.show.sync.start_lead_ms < MIN_LEAD_MS {
        MIN_LEAD_MS as u64
    } else {
        show.show.sync.start_lead_ms as u64
    }
}

/// The ids of the clients that a cue targets, of those connected.
pub open spec fn included_ids(rows: Seq<RowModel>, cue: CueModel) -> Seq<Seq<char>> {
    state::row_ids(rows).filter(|id: Seq<char>| cue.target.includes(id))
}

/// The ids of the clients that a cue leaves out, of those connected.
pub open spec fn excluded_ids(rows: Seq<RowModel>, cue: CueModel) -> Seq<Seq<char>> {
    state::row_ids(rows).filter(|id: Seq<char>| !cue.target.includes(id))
}

/// The state once the selected cue is noted as playing and the selection has
/// moved on.
pub open spec fn advanced(s: AppModel, idx: usize, cue: CueModel, count: int) -> AppModel {
    AppModel {
        run: RunState { playing_cue_idx: Some(idx) },
        selected_cue_idx: Some(
            if idx + 1 < count {
                (idx + 1) as usize
            } else {
                (count - 1) as usize
            },
        ),
        ..s
    }.with_log("GO cue "@ + cue.id)
}

/// The controller's state after GO.
pub open spec fn after_go_selected(s: AppModel, now_ms: u64) -> AppModel {
    match selected_cue(s) {
        Some(cue) => {
            let lead_ms = lead_of(s.show->0);
            let fired = dispatch::after_go_all(
                advanced(s, s.selected_cue_idx->0, cue, s.show->0.cues.len() as int),
                cue,
                included_ids(s.clients, cue),
                lead_ms,
                now_ms,
            );
            dispatch::after_exclude(fired, cue, excluded_ids(s.clients, cue), lead_ms, now_ms)
        },
        None => s,
    }
}

/// What is sent on GO: the cue to every client it targets, then its exclude
/// action to the others.
pub open spec fn go_selected_messages(s: AppModel, now_ms: u64) -> Seq<OutgoingModel> {
    match selected_cue(s) {
        Some(cue) => {
            let lead_ms = lead_of(s.show->0);
            let start = advanced(s, s.selected_cue_idx->0, cue, s.show->0.cues.len() as int);
            let included = included_ids(s.clients, cue);
            let fired = dispatch::after_go_all(start, cue, included, lead_ms, now_ms);
            dispatch::go_all_messages(start, cue, included, lead_ms, now_ms)
                + dispatch::exclude_messages(
                fired,
                cue,
                excluded_ids(s.clients, cue),
                lead_ms,
                now_ms,
            )
        },
        None => Seq::empty(),
    }
}

/// A copy of the selected cue, if there is a show and the selection is one of
/// its cues.
fn current_cue(state: &AppState) -> (r: Option<Cue>)
    ensures
        match r {
            Some(cue) => selected_cue(state@) == Some(cue@),
            None => selected_cue(state@) is None,
        },
{
    match (&state.show, state.selected_cue_idx) {
        (Some(show), Some(idx)) => {
            if idx < show.cues.len() {
                assert(state@.show->0.cues[idx as int] == show.cues@[idx as int]@);
                Some(show.cues[idx].clone())
            } else {
                None
            }
        },
        _ => None,
    }
}

/// Fire the selected cue at `now_ms` on every client it targets, with lead
/// time, crossfading from whatever each of those clients has on air. Clients
/// this cue excludes get its exclude action instead. Advances the selection.
pub fn go_selected_at(state: &mut AppState, now_ms: u64) -> (r: Vec<Outgoing>)
    ensures
        final(state)@ == after_go_selected(old(state)@, now_ms),
        r.deep_view() == go_selected_messages(old(state)@, now_ms),
{
    let ghost before = state@;
    let cue: Cue = match current_cue(state) {
        Some(cue) => cue,
        None => {
            let out: Vec<Outgoing> = Vec::new();
            assert(out.deep_view() =~= Seq::<OutgoingModel>::empty());
            return out;
        },
    };
    let mut count: usize = 0;
    let mut lead_ms: u64 = 0;
    let mut idx: usize = 0;
    if let Some(show) = &state.show {
        count = show.cues.len();
        lead_ms =
        if show.show.sync.start_lead_ms < MIN_LEAD_MS {
            MIN_LEAD_MS as u64
        } else {
            show.show.sync.start_lead_ms as u64
        };
    }
    if let Some(i) = state.selected_cue_idx {
        idx = i;
    }
    let all_ids: Vec<String> = client_ids(&state.clients);
    state.run = RunState { playing_cue_idx: Some(idx) };
    state.selected_cue_idx = Some(
        if idx + 1 < count {
            idx + 1
        } else {
            count - 1
        },
    );
    state.push_log("GO cue ".to_owned().concat(cue.id.as_str()));
    assert(state@ =~= advanced(before, idx, cue@, count as int));
    let (included, excluded) = partition_clients(&cue, &all_ids);
    let mut out: Vec<Outgoing> = go_for_clients_at(state, &cue, &included, lead_ms, now_ms);
    let ghost sent = out.deep_view();
    let mut more: Vec<Outgoing> = apply_exclude_action_at(
        state,
        &cue,
        &excluded,
        lead_ms,
        now_ms,
    );
    let ghost rest = more.deep_view();
    out.append(&mut more);
    assert(out.deep_view() =~= sent + rest);
    out
}

/// Fire the selected cue now.
pub fn go_selected(state: &mut AppState) -> (r: Vec<Outgoing>)
    ensures
        exists|now_ms: u64|
            #![trigger after_go_selected(old(state)@, now_ms)]
            {
                &&& final(state)@ == after_go_selected(old(state)@, now_ms)
                &&& r.deep_view() == go_selected_messages(old(state)@, now_ms)
            },
{
    go_selected_at(state, now_utc_ms())
}

/// The controller's state after preloading a cue for each of the clients that
/// it targets.
pub open spec fn after_standby_all(
    s: AppModel,
    cue: CueModel,
    ids: Seq<Seq<char>>,
    now_ms: u64,
) -> AppModel
    decreases ids.len(),
{
    if ids.len() == 0 {
        s
    } else {
        dispatch::after_standby(
            after_standby_all(s, cue, ids.drop_last(), now_ms),
            cue,
            ids.last(),
            now_ms,
        )
    }
}

/// What is sent when a cue is preloaded for each of the clients.
pub open spec fn standby_all_messages(
    s: AppModel,
    cue: CueModel,
    ids: Seq<Seq<char>>,
    now_ms: u64,
) -> Seq<OutgoingModel>
    decreases ids.len(),
{
    if ids.len() == 0 {
        Seq::empty()
    } else {
        standby_all_messages(s, cue, ids.drop_last(), now_ms) + dispatch::standby_messages(
            after_standby_all(s, cue, ids.drop_last(), now_ms),
            cue,
            ids.last(),
            now_ms,
        )
    }
}

/// The controller's state after the settled selection was preloaded.
pub open spec fn after_maybe_standby(s: AppModel, held_ms: u128, now_ms: u64) -> AppModel {
    match selected_cue(s) {
        Some(cue) if held_ms >= SELECTION_SETTLE_MS => after_standby_all(
            s,
            cue,
            included_ids(s.clients, cue),
            now_ms,
        ),
        _ => s,
    }
}

/// What is sent when the settled selection is preloaded.
pub open spec fn maybe_standby_messages(s: AppModel, held_ms: u128, now_ms: u64) -> Seq<
    OutgoingModel,
> {
    match selected_cue(s) {
        Some(cue) if held_ms >= SELECTION_SETTLE_MS => standby_all_messages(
            s,
            cue,
            included_ids(s.clients, cue),
            now_ms,
        ),
        _ => Seq::empty(),
    }
}

/// Preload the selected cue onto the layer the next GO will use, for every
/// client it targets, so that GO starts instantly. Does nothing until the
/// selection has held still (`held_ms`) for long enough. Clients that the cue
/// excludes get no STANDBY.
pub fn maybe_standby_at(state: &mut AppState, held_ms: u128, now_ms: u64) -> (r: Vec<Outgoing>)
    ensures
        final(state)@ == after_maybe_standby(old(state)@, held_ms, now_ms),
        r.deep_view() == maybe_standby_messages(old(state)@, held_ms, now_ms),
{
    let ghost before = state@;
    let mut out: Vec<Outgoing> = Vec::new();
    assert(out.deep_view() =~= Seq::<OutgoingModel>::empty());
    if held_ms < SELECTION_SETTLE_MS {
        return out;
    }
    let cue: Cue = match current_cue(state) {
        Some(cue) => cue,
        None => {
            return out;
        },
    };
    let all_ids: Vec<String> = client_ids(&state.clients);
    let (included, _) = partition_clients(&cue, &all_ids);
    let ghost list = included.deep_view();
    let mut i: usize = 0;
    assert(list.take(0) =~= Seq::<Seq<char>>::empty());
    while i < included.len()
        invariant
            0 <= i <= included.len(),
            list == included.deep_view(),
            state@ == after_standby_all(before, cue@, list.take(i as int), now_ms),
            out.deep_view() == standby_all_messages(before, cue@, list.take(i as int), now_ms),
        decreases included.len() - i,
    {
        let ghost sent = out.deep_view();
        let mut more: Vec<Outgoing> = standby_for_client_at(
            state,
            &cue,
            included[i].as_str(),
            now_ms,
        );
        let ghost fresh = more.deep_view();
        out.append(&mut more);
        proof {
            assert(out.deep_view() =~= sent + fresh);
            assert(list.take(i + 1).drop_last() =~= list.take(i as int));
            assert(list.take(i + 1).last() == list[i as int]);
        }
        i = i + 1;
    }
    assert(list.take(i as int) =~= list);
    out
}

/// Preload the selected cue now, if the selection has held still for long
/// enough.
pub fn maybe_standby(state: &mut AppState, held_ms: u128) -> (r: Vec<Outgoing>)
    ensures
        exists|now_ms: u64|
            #![trigger after_maybe_standby(old(state)@, held_ms, now_ms)]
            {
                &&& final(state)@ == after_maybe_standby(old(state)@, held_ms, now_ms)
                &&& r.deep_view() == maybe_standby_messages(old(state)@, held_ms, now_ms)
            },
{
    maybe_standby_at(state, held_ms, now_utc_ms())
}

/// The selection after moving it by `delta`, kept within the cues.
pub open spec fn moved(selected: Option<usize>, delta: int, count: int) -> int {
    let wanted = match selected {
        Some(i) => i as int,
        None => 0,
    } + delta;
    if wanted < 0 {
        0
    } else if wanted > count - 1 {
        count - 1
    } else {
        wanted
    }
}

/// The controller's state after the selection was moved.
pub open spec fn after_move(s: AppModel, delta: int) -> AppModel {
    match s.show {
        Some(show) if show.cues.len() > 0 => AppModel {
            selected_cue_idx: Some(
                moved(s.selected_cue_idx, delta, show.cues.len() as int) as usize,
            ),
            ..s
        },
        _ => s,
    }
}

/// Move the selection by `delta` cues, stopping at the first and the last.
pub fn move_selection(state: &mut AppState, delta: i64)
    ensures
        final(state)@ == after_move(old(state)@, delta as int),
{
    let count: usize = match &state.show {
        Some(show) => show.cues.len(),
        None => {
            return;
        },
    };
    if count == 0 {
        return;
    }
    let current: usize = match state.selected_cue_idx {
        Some(i) => i,
        None => 0,
    };
    let wanted: i128 = current as i128 + delta as i128;
    let last: i128 = count as i128 - 1;
    let next: i128 = if wanted < 0 {
        0
    } else if wanted > last {
        last
    } else {
        wanted
    };
    state.selected_cue_idx = Some(next as usize);
}

/// The same message to every connected client.
pub open spec fn to_all(rows: Seq<RowModel>, msg: ControllerMsgModel) -> Seq<OutgoingModel> {
    rows.map_values(|r: RowModel| OutgoingModel { client_id: r.client_id, msg })
}

/// The controller's state with nothing playing anywhere.
pub open spec fn halted(s: AppModel) -> AppModel {
    AppModel {
        run: RunState { playing_cue_idx: None },
        clients: state::rows_reset(s.clients),
        ..s
    }
}

/// Address a message to every connected client.
pub fn broadcast(rows: &Vec<ClientRow>, msg: ControllerMsg) -> (r: Vec<Outgoing>)
    ensures
        r.deep_view() == to_all(rows.deep_view(), msg@),
        r@.len() == rows@.len(),
        forall|k: int|
            0 <= k < r@.len() ==> (#[trigger] r@[k]).client_id@ == rows@[k].client_id@ && r@[k].msg@
                == msg@,
{
    let mut out: Vec<Outgoing> = Vec::new();
    let mut i: usize = 0;
    while i < rows.len()
        invariant
            0 <= i <= rows.len(),
            out@.len() == i,
            forall|k: int|
                0 <= k < i ==> (#[trigger] out@[k]).deep_view() == (OutgoingModel {
                    client_id: rows@[k].client_id@,
                    msg: msg@,
                }),
        decreases rows.len() - i,
    {
        out.push(Outgoing { client_id: rows[i].client_id.clone(), msg: msg.clone() });
        i = i + 1;
    }
    assert(out.deep_view() =~= to_all(rows.deep_view(), msg@));
    out
}

/// Fade every client to the idle picture and forget what was on air.
pub fn blackout(state: &mut AppState) -> (r: Vec<Outgoing>)
    ensures
        final(state)@ == halted(old(state)@),
        r.deep_view() == to_all(
            old(state)@.clients,
            ControllerMsgModel::Fade(FadeCmd { duration_ms: DEFAULT_FADE_MS }),
        ),
        r@.len() == old(state).clients@.len(),
        forall|k: int|
            0 <= k < r@.len() ==> (#[trigger] r@[k]).client_id@ == old(
                state,
            ).clients@[k].client_id@ && match r@[k].msg {
                ControllerMsg::Fade(f) => f.duration_ms == DEFAULT_FADE_MS,
                _ => false,
            },
{
    let out: Vec<Outgoing> = broadcast(
        &state.clients,
        ControllerMsg::Fade(FadeCmd { duration_ms: DEFAULT_FADE_MS }),
    );
    state.run = RunState { playing_cue_idx: None };
    state.reset_client_layers();
    out
}

/// Stop every client at once and forget what was on air.
pub fn stop_all(state: &mut AppState) -> (r: Vec<Outgoing>)
    ensures
        final(state)@ == halted(old(state)@),
        r.deep_view() == to_all(old(state)@.clients, ControllerMsgModel::Stop),
        r@.len() == old(state).clients@.len(),
        forall|k: int|
            0 <= k < r@.len() ==> (#[trigger] r@[k]).client_id@ == old(
                state,
            ).clients@[k].client_id@ && r@[k].msg is Stop,
{
    let out: Vec<Outgoing> = broadcast(&state.clients, ControllerMsg::Stop);
    state.run = RunState { playing_cue_idx: None };
    state.reset_client_layers();
    out
}

/// The controller's state with another show running from its start.
pub open spec fn with_show(s: AppModel, show: ShowFileModel, selected: Option<usize>) -> AppModel {
    AppModel {
        show: Some(show),
        selected_cue_idx: selected,
        local_media: None,
        ..halted(s)
    }
}

/// The controller's state after a show was opened from `path`.
pub open spec fn after_open(s: AppModel, show: ShowFileModel, path: Seq<char>) -> AppModel {
    AppModel { show_path: Some(path), ..with_show(s, show, Some(0)) }.with_log(
        "loaded show "@ + path,
    )
}

/// Run a show that was read from `path`, from its start, and tell every client
/// its cues.
pub fn show_opened(state: &mut AppState, show: ShowFile, path: &str) -> (r: Vec<Outgoing>)
    ensures
        final(state)@ == after_open(old(state)@, show@, path@),
        r.deep_view() == to_all(old(state)@.clients, ControllerMsgModel::ShowSync(show@)),
{
    let ghost before = state@;
    let out: Vec<Outgoing> = broadcast(&state.clients, ControllerMsg::ShowSync(show.clone()));
    state.show = Some(show);
    state.show_path = Some(path.to_owned());
    state.selected_cue_idx = Some(0);
    state.run = RunState { playing_cue_idx: None };
    state.reset_client_layers();
    state.local_media = None;
    assert(state@ =~= AppModel {
        show_path: Some(path@),
        ..with_show(before, show@, Some(0))
    });
    state.push_log("loaded show ".to_owned().concat(path));
    out
}

/// Note that a show could not be opened.
pub fn show_not_opened(state: &mut AppState, error: &ShowError)
    ensures
        final(state)@ == old(state)@.with_log("failed to load show: "@ + error@.message()),
{
    state.push_log("failed to load show: ".to_owned().concat(error.message().as_str()));
}

/// The controller's state after an edited show was taken over.
pub open spec fn after_apply(s: AppModel, show: ShowFileModel) -> AppModel {
    with_show(
        s,
        show,
        if show.cues.len() == 0 {
            None
        } else {
            Some(0)
        },
    ).with_log("show updated from editor"@)
}

/// Run an edited show from its start and tell every client its cues. Resets
/// the run position, as cue indices may have changed.
pub fn apply_show(state: &mut AppState, show: ShowFile) -> (r: Vec<Outgoing>)
    ensures
        final(state)@ == after_apply(old(state)@, show@),
        r.deep_view() == to_all(old(state)@.clients, ControllerMsgModel::ShowSync(show@)),
{
    let ghost before = state@;
    let out: Vec<Outgoing> = broadcast(&state.clients, ControllerMsg::ShowSync(show.clone()));
    let selected: Option<usize> = if show.cues.len() == 0 {
        None
    } else {
        Some(0)
    };
    state.show = Some(show);
    state.selected_cue_idx = selected;
    state.run = RunState { playing_cue_idx: None };
    state.reset_client_layers();
    state.local_media = None;
    assert(state@ =~= with_show(before, show@, selected));
    state.push_log("show updated from editor".to_owned());
    out
}

/// What came of an edit: the line to show in the editor, and what is to be
/// sent.
pub struct EditOutcome {
    pub status: String,
    pub out: Vec<Outgoing>,
}

/// Take over an edited show if it is valid.
pub fn apply_edit(state: &mut AppState, show: ShowFile) -> (r: EditOutcome)
    ensures
        match show@.fault() {
            None => {
                &&& final(state)@ == after_apply(old(state)@, show@)
                &&& r.status@ == "applied to running show"@
                &&& r.out.deep_view() == to_all(
                    old(state)@.clients,
                    ControllerMsgModel::ShowSync(show@),
                )
            },
            Some(e) => {
                &&& final(state)@ == old(state)@
                &&& r.status@ == "invalid: "@ + e.message()
                &&& r.out@.len() == 0
            },
        },
{
    match show.validate() {
        Ok(()) => {
            let out: Vec<Outgoing> = apply_show(state, show);
            EditOutcome { status: "applied to running show".to_owned(), out }
        },
        Err(e) => EditOutcome {
            status: "invalid: ".to_owned().concat(e.message().as_str()),
            out: Vec::new(),
        },
    }
}

/// Note the outcome of saving an edited show to `path`: a show that was saved
/// is taken over, and its path remembered.
pub fn edit_saved(
    state: &mut AppState,
    show: ShowFile,
    path: &str,
    saved: Result<(), ShowError>,
) -> (r: EditOutcome)
    ensures
        match saved {
            Ok(()) => {
                &&& final(state)@ == after_apply(
                    AppModel { show_path: Some(path@), ..old(state)@ },
                    show@,
                )
                &&& r.status@ == "saved to "@ + path@
                &&& r.out.deep_view() == to_all(
                    old(state)@.clients,
                    ControllerMsgModel::ShowSync(show@),
                )
            },
            Err(e) => {
                &&& final(state)@ == old(state)@
                &&& r.status@ == "save failed: "@ + e@.message()
                &&& r.out@.len() == 0
            },
        },
{
    match saved {
        Ok(()) => {
            let ghost before = state@;
            state.show_path = Some(path.to_owned());
            assert(state@ =~= AppModel { show_path: Some(path@), ..before });
            let out: Vec<Outgoing> = apply_show(state, show);
            EditOutcome { status: "saved to ".to_owned().concat(path), out }
        },
        Err(e) => EditOutcome {
            status: "save failed: ".to_owned().concat(e.message().as_str()),
            out: Vec::new(),
        },
    }
}

proof fn lemma_row_ids(rows: Seq<RowModel>, id: Seq<char>)
    ensures
        state::row_ids(rows).contains(id) <==> state::connected(rows, id),
{
    state::lemma_row_index(rows, id);
    let i = state::row_index(rows, id);
    let ids = state::row_ids(rows);
    if i < rows.len() {
        assert(ids[i] == id);
    } else if ids.contains(id) {
        let k = choose|k: int| 0 <= k < ids.len() && ids[k] == id;
        assert(rows[k].client_id == id);
    }
}

/// GO starts the selected cue on every connected client that it targets.
pub proof fn law_go_plays_on_targets(s: AppModel, now_ms: u64, id: Seq<char>)
    requires
        selected_cue(s) is Some,
        state::connected(s.clients, id),
        selected_cue(s)->0.target.includes(id),
    ensures
        exists|k: int|
            0 <= k < go_selected_messages(s, now_ms).len() && (#[trigger] go_selected_messages(
                s,
                now_ms,
            )[k]).client_id == id && go_selected_messages(s, now_ms)[k].msg is PlayAt,
{
    let cue = selected_cue(s)->0;
    let lead_ms = lead_of(s.show->0);
    let start = advanced(s, s.selected_cue_idx->0, cue, s.show->0.cues.len() as int);
    let ids = state::row_ids(s.clients);
    let included = included_ids(s.clients, cue);
    lemma_row_ids(s.clients, id);
    crate::show::law_partition(cue.target, ids, id);
    assert(included.contains(id));
    dispatch::law_go_all_reaches_listed_clients(start, cue, included, lead_ms, now_ms);
    let sent = dispatch::go_all_messages(start, cue, included, lead_ms, now_ms);
    let k = choose|k: int|
        0 <= k < sent.len() && (#[trigger] sent[k]).client_id == id && sent[k].msg is PlayAt;
    assert(go_selected_messages(s, now_ms)[k] == sent[k]);
}

/// GO of a cue that ignores the clients it excludes sends them nothing and
/// leaves them as they were.
pub proof fn law_go_spares_ignored(s: AppModel, now_ms: u64, id: Seq<char>)
    requires
        s.wf(),
        selected_cue(s) is Some,
        state::connected(s.clients, id),
        !selected_cue(s)->0.target.includes(id),
        selected_cue(s)->0.exclude_action == ExcludeAction::Ignore,
    ensures
        forall|k: int|
            0 <= k < go_selected_messages(s, now_ms).len() ==> (#[trigger] go_selected_messages(
                s,
                now_ms,
            )[k]).client_id != id,
        after_go_selected(s, now_ms).clients[state::row_index(s.clients, id)]
            == s.clients[state::row_index(s.clients, id)],
{
    let cue = selected_cue(s)->0;
    let lead_ms = lead_of(s.show->0);
    let start = advanced(s, s.selected_cue_idx->0, cue, s.show->0.cues.len() as int);
    let ids = state::row_ids(s.clients);
    let included = included_ids(s.clients, cue);
    crate::show::law_partition(cue.target, ids, id);
    assert(!included.contains(id));
    dispatch::law_go_all_reaches_listed_clients(start, cue, included, lead_ms, now_ms);
    dispatch::law_go_all_touches_listed_clients(start, cue, included, lead_ms, now_ms);
    state::lemma_row_index(s.clients, id);
}

/// GO never adds, drops or renames a client: only its layers can change.
pub proof fn law_go_keeps_clients(s: AppModel, now_ms: u64)
    ensures
        after_go_selected(s, now_ms).clients.len() == s.clients.len(),
        forall|i: int|
            0 <= i < s.clients.len() ==> (#[trigger] after_go_selected(s, now_ms).clients[i]) == (
            RowModel {
                layers: after_go_selected(s, now_ms).clients[i].layers,
                ..s.clients[i]
            }),
        s.wf() ==> after_go_selected(s, now_ms).wf(),
{
    if let Some(cue) = selected_cue(s) {
        let lead_ms = lead_of(s.show->0);
        let start = advanced(s, s.selected_cue_idx->0, cue, s.show->0.cues.len() as int);
        let included = included_ids(s.clients, cue);
        let excluded = excluded_ids(s.clients, cue);
        let fired = dispatch::after_go_all(start, cue, included, lead_ms, now_ms);
        let done = after_go_selected(s, now_ms);
        dispatch::law_go_all_touches_listed_clients(start, cue, included, lead_ms, now_ms);
        dispatch::law_exclude_keeps_clients(fired, cue, excluded, lead_ms, now_ms);
        assert forall|i: int| 0 <= i < s.clients.len() implies (#[trigger] done.clients[i]) == (
        RowModel { layers: done.clients[i].layers, ..s.clients[i] }) by {
            assert(fired.clients[i] == (RowModel {
                layers: fired.clients[i].layers,
                ..start.clients[i]
            }));
        }
        if s.wf() {
            assert forall|a: int, b: int| 0 <= a < b < done.clients.len() implies (
            #[trigger] done.clients[a]).client_id != (#[trigger] done.clients[b]).client_id by {
                assert(s.clients[a].client_id != s.clients[b].client_id);
            }
        }
    }
}

/// After GO the cue is the one playing, and the selection is a cue of the show:
/// the next one, or the last again.
pub proof fn law_go_advances(s: AppModel, now_ms: u64)
    requires
        selected_cue(s) is Some,
        s.show->0.cues.len() <= usize::MAX,
    ensures
        ({
            let t = after_go_selected(s, now_ms);
            let idx = s.selected_cue_idx->0;
            let last = s.show->0.cues.len() - 1;
            &&& t.run.playing_cue_idx == Some(idx)
            &&& t.selected_cue_idx is Some
            &&& t.selected_cue_idx->0 == if idx < last {
                idx + 1
            } else {
                last
            }
            &&& selected_cue(t) is Some
        }),
{
    let cue = selected_cue(s)->0;
    let lead_ms = lead_of(s.show->0);
    let start = advanced(s, s.selected_cue_idx->0, cue, s.show->0.cues.len() as int);
    let included = included_ids(s.clients, cue);
    let fired = dispatch::after_go_all(start, cue, included, lead_ms, now_ms);
    dispatch::law_go_all_touches_listed_clients(start, cue, included, lead_ms, now_ms);
    dispatch::law_exclude_keeps_clients(
        fired,
        cue,
        excluded_ids(s.clients, cue),
        lead_ms,
        now_ms,
    );
}

/// Moving the selection keeps it within the show, and moving it back undoes the
/// move unless an end of the show was in the way.
pub proof fn law_move_stays_in_show(selected: Option<usize>, delta: int, count: int)
    requires
        0 < count <= usize::MAX,
    ensures
        0 <= moved(selected, delta, count) < count,
        ({
            let from = match selected {
                Some(i) => i as int,
                None => 0,
            };
            0 <= from + delta < count ==> moved(
                Some(moved(selected, delta, count) as usize),
                -delta,
                count,
            ) == if from < count {
                from
            } else {
                count - 1
            }
        }),
{
}

/// However a show ends, by blackout or by stop, nothing is on air anywhere and
/// the next GO of any client is a cold load on layer A.
pub proof fn law_halt_resets_everyone(s: AppModel, i: int)
    requires
        0 <= i < s.clients.len(),
    ensures
        halted(s).run.playing_cue_idx is None,
        halted(s).clients.len() == s.clients.len(),
        halted(s).clients[i].layers == crate::state::LayerModel::idle(),
        halted(s).clients[i].client_id == s.clients[i].client_id,
{
}

proof fn lemma_distinct_ids(rows: Seq<RowModel>, pick: spec_fn(Seq<char>) -> bool)
    requires
        state::distinct_rows(rows),
    ensures
        state::row_ids(rows).no_duplicates(),
        state::row_ids(rows).filter(pick).no_duplicates(),
    decreases rows.len(),
{
    reveal(Seq::filter);
    let ids = state::row_ids(rows);
    assert(ids.no_duplicates()) by {
        assert forall|a: int, b: int| 0 <= a < ids.len() && 0 <= b < ids.len() && a != b implies ids[a]
            != ids[b] by {
            if a < b {
                assert(rows[a].client_id != rows[b].client_id);
            } else {
                assert(rows[b].client_id != rows[a].client_id);
            }
        }
    }
    if rows.len() > 0 {
        let front = rows.drop_last();
        assert(state::distinct_rows(front)) by {
            assert forall|a: int, b: int| 0 <= a < b < front.len() implies (
            #[trigger] front[a]).client_id != (#[trigger] front[b]).client_id by {
                assert(rows[a].client_id != rows[b].client_id);
            }
        }
        lemma_distinct_ids(front, pick);
        let front_ids = state::row_ids(front);
        assert(ids.drop_last() =~= front_ids);
        let kept = front_ids.filter(pick);
        assert forall|k: int| 0 <= k < kept.len() implies kept[k] != ids.last() by {
            front_ids.lemma_filter_contains_rev(pick, kept[k]);
            let m = choose|m: int| 0 <= m < front_ids.len() && front_ids[m] == kept[k];
            assert(rows[m].client_id != rows[rows.len() - 1].client_id);
        }
    }
}

proof fn lemma_row_is_first(rows: Seq<RowModel>, i: int)
    requires
        state::distinct_rows(rows),
        0 <= i < rows.len(),
    ensures
        state::row_index(rows, rows[i].client_id) == i,
        state::row_ids(rows).contains(rows[i].client_id),
{
    assert forall|k: int| 0 <= k < i implies (#[trigger] rows[k]).client_id
        != rows[i].client_id by {
        assert(rows[k].client_id != rows[i].client_id);
    }
    state::lemma_row_index_is(rows, rows[i].client_id, i);
    assert(state::row_ids(rows)[i] == rows[i].client_id);
}

/// What GO is for each connected client, when no two share an id. A client that
/// the selected cue targets gets the cue's GO, with the show's start lead but at
/// least a quarter of a second, and nothing else. Of the others each gets what
/// the cue's exclude action says: nothing; a fade over the default time, which
/// leaves it idle; or a GO of the exclude colour, black where the cue has none.
pub proof fn law_go_for_each_client(s: AppModel, now_ms: u64, i: int)
    requires
        s.wf(),
        s.show is Some,
        s.selected_cue_idx is Some,
        s.selected_cue_idx->0 < s.show->0.cues.len(),
        0 <= i < s.clients.len(),
    ensures
        ({
            let cue = s.show->0.cues[s.selected_cue_idx->0 as int];
            let lead = s.show->0.show.sync.start_lead_ms;
            let lead_ms = (if lead >= 250 {
                lead
            } else {
                250
            }) as u64;
            let id = s.clients[i].client_id;
            let targeted = match cue.target {
                TargetModel::All => true,
                TargetModel::Whitelist { clients } => clients.contains(id),
                TargetModel::Blacklist { clients } => !clients.contains(id),
            };
            let shown = CueModel {
                id: cue.id,
                kind: CueKind::Color,
                color: Some(
                    match cue.exclude_color {
                        Some(c) => c,
                        None => "#000000"@,
                    },
                ),
                fade_in_ms: cue.fade_in_ms,
                ..CueModel::blank()
            };
            let sent = dispatch::sent_to(go_selected_messages(s, now_ms), id);
            let row = after_go_selected(s, now_ms).clients[i];
            if targeted {
                &&& sent == dispatch::go_messages(s, cue, id, lead_ms, now_ms)
                &&& row == dispatch::after_go(s, cue, id, lead_ms, now_ms).clients[i]
            } else {
                match cue.exclude_action {
                    ExcludeAction::Ignore => sent.len() == 0 && row == s.clients[i],
                    ExcludeAction::Poster => {
                        &&& sent.len() == 1
                        &&& sent[0].client_id == id
                        &&& sent[0].msg == ControllerMsgModel::Fade(
                            FadeCmd { duration_ms: DEFAULT_FADE_MS },
                        )
                        &&& row.layers.active_layer is None
                        &&& row.layers.standby is None
                        &&& row.layers.idle_free_utc_ms == 0
                        &&& row.layers.now_playing is None
                    },
                    ExcludeAction::Color => {
                        &&& sent == dispatch::go_messages(s, shown, id, lead_ms, now_ms)
                        &&& row == dispatch::after_go(s, shown, id, lead_ms, now_ms).clients[i]
                    },
                }
            }
        }),
{
    let cue = selected_cue(s)->0;
    let lead_ms = lead_of(s.show->0);
    let start = advanced(s, s.selected_cue_idx->0, cue, s.show->0.cues.len() as int);
    let id = s.clients[i].client_id;
    let ids = state::row_ids(s.clients);
    let included = included_ids(s.clients, cue);
    let excluded = excluded_ids(s.clients, cue);
    let fired = dispatch::after_go_all(start, cue, included, lead_ms, now_ms);
    let first = dispatch::go_all_messages(start, cue, included, lead_ms, now_ms);
    let rest = dispatch::exclude_messages(fired, cue, excluded, lead_ms, now_ms);
    lemma_distinct_ids(s.clients, |id: Seq<char>| cue.target.includes(id));
    lemma_distinct_ids(s.clients, |id: Seq<char>| !cue.target.includes(id));
    lemma_row_is_first(s.clients, i);
    crate::show::law_partition(cue.target, ids, id);
    dispatch::law_go_all_touches_listed_clients(start, cue, included, lead_ms, now_ms);
    dispatch::lemma_roster_kept(start, fired, id);
    dispatch::law_go_all_is_a_go_for_each(start, cue, included, lead_ms, now_ms, i);
    dispatch::law_exclude_action_for_each(fired, cue, excluded, lead_ms, now_ms, i);
    dispatch::lemma_sent_to_both(first, rest, id);
    let mine = dispatch::sent_to(first, id);
    let other = dispatch::sent_to(rest, id);
    if cue.target.includes(id) {
        assert(mine + other =~= mine);
    } else {
        assert(mine + other =~= other);
    }
}

/// GO without a show, or with a selection that is none of its cues, sends
/// nothing and changes nothing; nor is anything preloaded then.
pub proof fn law_nothing_selected(s: AppModel, held_ms: u128, now_ms: u64)
    requires
        s.show is None || s.selected_cue_idx is None || s.selected_cue_idx->0
            >= s.show->0.cues.len(),
    ensures
        after_go_selected(s, now_ms) == s,
        go_selected_messages(s, now_ms).len() == 0,
        after_maybe_standby(s, held_ms, now_ms) == s,
        maybe_standby_messages(s, held_ms, now_ms).len() == 0,
{
}

proof fn lemma_standby_all_keeps_roster(
    s: AppModel,
    cue: CueModel,
    ids: Seq<Seq<char>>,
    now_ms: u64,
)
    ensures
        dispatch::roster_kept(s, after_standby_all(s, cue, ids, now_ms)),
    decreases ids.len(),
{
    if ids.len() > 0 {
        let t = after_standby_all(s, cue, ids.drop_last(), now_ms);
        let u = after_standby_all(s, cue, ids, now_ms);
        lemma_standby_all_keeps_roster(s, cue, ids.drop_last(), now_ms);
        dispatch::law_standby_touches_one_client(t, cue, ids.last(), now_ms);
        assert forall|k: int| 0 <= k < s.clients.len() implies (#[trigger] u.clients[k]) == (
        RowModel { layers: u.clients[k].layers, ..s.clients[k] }) by {
            assert(t.clients[k] == (RowModel { layers: t.clients[k].layers, ..s.clients[k] }));
        }
    }
}

proof fn lemma_standby_same_row(
    s: AppModel,
    t: AppModel,
    cue: CueModel,
    i: int,
    now_ms: u64,
)
    requires
        s.wf(),
        dispatch::roster_kept(s, t),
        0 <= i < s.clients.len(),
        t.clients[i] == s.clients[i],
    ensures
        ({
            let id = s.clients[i].client_id;
            &&& dispatch::standby_messages(t, cue, id, now_ms) == dispatch::standby_messages(
                s,
                cue,
                id,
                now_ms,
            )
            &&& dispatch::after_standby(t, cue, id, now_ms).clients[i] == dispatch::after_standby(
                s,
                cue,
                id,
                now_ms,
            ).clients[i]
        }),
{
    lemma_row_is_first(s.clients, i);
    dispatch::lemma_roster_kept(s, t, s.clients[i].client_id);
}

proof fn lemma_standby_all_row(
    s: AppModel,
    cue: CueModel,
    ids: Seq<Seq<char>>,
    now_ms: u64,
    i: int,
)
    requires
        s.wf(),
        ids.no_duplicates(),
        0 <= i < s.clients.len(),
    ensures
        after_standby_all(s, cue, ids, now_ms).clients[i] == if ids.contains(
            s.clients[i].client_id,
        ) {
            dispatch::after_standby(s, cue, s.clients[i].client_id, now_ms).clients[i]
        } else {
            s.clients[i]
        },
    decreases ids.len(),
{
    if ids.len() > 0 {
        let id = s.clients[i].client_id;
        let front = ids.drop_last();
        let t = after_standby_all(s, cue, front, now_ms);
        dispatch::lemma_last_listed(ids, id);
        lemma_standby_all_row(s, cue, front, now_ms, i);
        lemma_standby_all_keeps_roster(s, cue, front, now_ms);
        if ids.last() == id {
            lemma_standby_same_row(s, t, cue, i, now_ms);
        } else {
            assert(t.clients[i].client_id == id);
            lemma_standby_elsewhere(t, cue, ids.last(), now_ms, i);
        }
    }
}

proof fn lemma_standby_elsewhere(
    t: AppModel,
    cue: CueModel,
    elsewhere: Seq<char>,
    now_ms: u64,
    i: int,
)
    requires
        0 <= i < t.clients.len(),
        t.clients[i].client_id != elsewhere,
    ensures
        dispatch::after_standby(t, cue, elsewhere, now_ms).clients[i] == t.clients[i],
{
    state::lemma_row_index(t.clients, elsewhere);
}

proof fn lemma_standby_all_sent(
    s: AppModel,
    cue: CueModel,
    ids: Seq<Seq<char>>,
    now_ms: u64,
    i: int,
)
    requires
        s.wf(),
        ids.no_duplicates(),
        0 <= i < s.clients.len(),
    ensures
        dispatch::sent_to(standby_all_messages(s, cue, ids, now_ms), s.clients[i].client_id)
            == if ids.contains(s.clients[i].client_id) {
            dispatch::standby_messages(s, cue, s.clients[i].client_id, now_ms)
        } else {
            Seq::empty()
        },
    decreases ids.len(),
{
    let id = s.clients[i].client_id;
    if ids.len() == 0 {
        dispatch::lemma_sent_to_one(Seq::empty(), id, id);
    } else {
        let front = ids.drop_last();
        let last = ids.last();
        let t = after_standby_all(s, cue, front, now_ms);
        let before = standby_all_messages(s, cue, front, now_ms);
        let more = dispatch::standby_messages(t, cue, last, now_ms);
        dispatch::lemma_last_listed(ids, id);
        lemma_standby_all_sent(s, cue, front, now_ms, i);
        dispatch::lemma_sent_to_both(before, more, id);
        dispatch::lemma_sent_to_one(more, last, id);
        if last == id {
            lemma_standby_all_row(s, cue, front, now_ms, i);
            lemma_standby_all_keeps_roster(s, cue, front, now_ms);
            lemma_standby_same_row(s, t, cue, i, now_ms);
            assert(Seq::<OutgoingModel>::empty() + more =~= more);
        } else {
            assert(dispatch::sent_to(before, id) + Seq::<OutgoingModel>::empty()
                =~= dispatch::sent_to(before, id));
        }
    }
}

/// What preloading the selection is for each connected client, when no two share
/// an id: a STANDBY of the selected cue for a client that the cue targets, once
/// the selection has held still for 150 ms; nothing for any other client, nor
/// before that.
pub proof fn law_standby_for_each_client(s: AppModel, held_ms: u128, now_ms: u64, i: int)
    requires
        s.wf(),
        s.show is Some,
        s.selected_cue_idx is Some,
        s.selected_cue_idx->0 < s.show->0.cues.len(),
        0 <= i < s.clients.len(),
    ensures
        ({
            let cue = s.show->0.cues[s.selected_cue_idx->0 as int];
            let id = s.clients[i].client_id;
            let targeted = match cue.target {
                TargetModel::All => true,
                TargetModel::Whitelist { clients } => clients.contains(id),
                TargetModel::Blacklist { clients } => !clients.contains(id),
            };
            let sent = dispatch::sent_to(maybe_standby_messages(s, held_ms, now_ms), id);
            let row = after_maybe_standby(s, held_ms, now_ms).clients[i];
            if targeted && held_ms >= 150 {
                &&& sent == dispatch::standby_messages(s, cue, id, now_ms)
                &&& row == dispatch::after_standby(s, cue, id, now_ms).clients[i]
            } else {
                &&& sent.len() == 0
                &&& row == s.clients[i]
            }
        }),
{
    let cue = selected_cue(s)->0;
    let id = s.clients[i].client_id;
    let ids = state::row_ids(s.clients);
    lemma_distinct_ids(s.clients, |id: Seq<char>| cue.target.includes(id));
    lemma_row_is_first(s.clients, i);
    crate::show::law_partition(cue.target, ids, id);
    lemma_standby_all_row(s, cue, included_ids(s.clients, cue), now_ms, i);
    lemma_standby_all_sent(s, cue, included_ids(s.clients, cue), now_ms, i);
    dispatch::lemma_sent_to_one(Seq::empty(), id, id);
}

/// Moving the selection by `delta` changes nothing else. It lands `delta` cues
/// on (counted from the first, where nothing was selected), or on the first or
/// the last cue where that lies outside the show. Without cues nothing moves.
pub proof fn law_move_by_delta(s: AppModel, delta: int)
    requires
        s.show is Some ==> s.show->0.cues.len() <= usize::MAX,
    ensures
        ({
            let t = after_move(s, delta);
            let from = if s.selected_cue_idx is Some {
                s.selected_cue_idx->0 as int
            } else {
                0
            };
            &&& s.show is None || s.show->0.cues.len() == 0 ==> t == s
            &&& s.show is Some && s.show->0.cues.len() > 0 ==> {
                let count = s.show->0.cues.len() as int;
                &&& t == (AppModel { selected_cue_idx: t.selected_cue_idx, ..s })
                &&& t.selected_cue_idx is Some
                &&& 0 <= from + delta < count ==> t.selected_cue_idx->0 == from + delta
                &&& from + delta < 0 ==> t.selected_cue_idx->0 == 0
                &&& from + delta >= count ==> t.selected_cue_idx->0 == count - 1
            }
        }),
{
}

/// A message to everyone goes to each connected client once, in roster order.
pub proof fn law_broadcast_reaches_everyone(rows: Seq<RowModel>, msg: ControllerMsgModel)
    ensures
        to_all(rows, msg).len() == rows.len(),
        forall|i: int|
            0 <= i < rows.len() ==> (#[trigger] to_all(rows, msg)[i]).client_id
                == rows[i].client_id && to_all(rows, msg)[i].msg == msg,
{
}

/// However a show ends, each client is known as before, with nothing on air,
/// nothing preloaded and no layer held back; the show itself, the selection, the
/// directory and the log stay as they are.
pub proof fn law_halt_keeps_the_rest(s: AppModel, i: int)
    requires
        0 <= i < s.clients.len(),
    ensures
        ({
            let t = halted(s);
            let row = t.clients[i];
            &&& t.show == s.show
            &&& t.show_path == s.show_path
            &&& t.selected_cue_idx == s.selected_cue_idx
            &&& t.known_clients == s.known_clients
            &&& t.local_media == s.local_media
            &&& t.log_lines == s.log_lines
            &&& t.run.playing_cue_idx is None
            &&& t.clients.len() == s.clients.len()
            &&& row == (RowModel { layers: row.layers, ..s.clients[i] })
            &&& row.layers.active_layer is None
            &&& row.layers.standby is None
            &&& row.layers.idle_free_utc_ms == 0
            &&& row.layers.now_playing is None
        }),
{
}

/// A show that is opened, or taken over from the editor, runs from its start:
/// its first cue is selected (none, for an edited show without cues), nothing
/// plays, every client's layers are idle and no media has been looked for.
/// Opening remembers the path; taking over keeps it. The log tells.
pub proof fn law_show_starts_over(s: AppModel, show: ShowFileModel, path: Seq<char>)
    ensures
        ({
            let opened = after_open(s, show, path);
            let applied = after_apply(s, show);
            &&& opened.show == Some(show)
            &&& opened.show_path == Some(path)
            &&& opened.selected_cue_idx == Some(0usize)
            &&& opened.run.playing_cue_idx is None
            &&& opened.local_media is None
            &&& opened.known_clients == s.known_clients
            &&& opened.log_lines.len() > 0
            &&& opened.log_lines.last() == "loaded show "@ + path
            &&& applied.show == Some(show)
            &&& applied.show_path == s.show_path
            &&& show.cues.len() == 0 ==> applied.selected_cue_idx is None
            &&& show.cues.len() > 0 ==> applied.selected_cue_idx == Some(0usize)
            &&& applied.run.playing_cue_idx is None
            &&& applied.local_media is None
            &&& applied.known_clients == s.known_clients
            &&& applied.log_lines.len() > 0
            &&& applied.log_lines.last() == "show updated from editor"@
            &&& opened.clients.len() == s.clients.len()
            &&& applied.clients == opened.clients
            &&& forall|i: int|
                0 <= i < s.clients.len() ==> {
                    let row = #[trigger] opened.clients[i];
                    &&& row == (RowModel { layers: row.layers, ..s.clients[i] })
                    &&& row.layers.active_layer is None
                    &&& row.layers.standby is None
                    &&& row.layers.idle_free_utc_ms == 0
                    &&& row.layers.now_playing is None
                }
        }),
{
}

/// GO leaves a line that names the cue, whether or not anyone is connected.
pub proof fn law_go_is_logged(s: AppModel, now_ms: u64)
    requires
        s.show is Some,
        s.selected_cue_idx is Some,
        s.selected_cue_idx->0 < s.show->0.cues.len(),
        s.clients.len() == 0,
    ensures
        ({
            let t = after_go_selected(s, now_ms);
            &&& go_selected_messages(s, now_ms).len() == 0
            &&& t.log_lines.len() > 0
            &&& t.log_lines.last() == "GO cue "@
                + s.show->0.cues[s.selected_cue_idx->0 as int].id
        }),
{
    reveal(Seq::filter);
    let cue = selected_cue(s)->0;
    assert(state::row_ids(s.clients).len() == 0);
    assert(included_ids(s.clients, cue).len() == 0);
    assert(excluded_ids(s.clients, cue).len() == 0);
}

/// GO and the preload that may come before it leave the show, its path, the
/// directory and the media as they are; the preload also leaves what plays and
/// what is selected.
pub proof fn law_go_keeps_the_show(s: AppModel, held_ms: u128, now_ms: u64)
    ensures
        ({
            let t = after_go_selected(s, now_ms);
            let u = after_maybe_standby(s, held_ms, now_ms);
            &&& t.show == s.show
            &&& t.show_path == s.show_path
            &&& t.known_clients == s.known_clients
            &&& t.local_media == s.local_media
            &&& u.show == s.show
            &&& u.show_path == s.show_path
            &&& u.known_clients == s.known_clients
            &&& u.local_media == s.local_media
            &&& u.selected_cue_idx == s.selected_cue_idx
            &&& u.run == s.run
            &&& u.clients.len() == s.clients.len()
        }),
{
    if let Some(cue) = selected_cue(s) {
        let lead_ms = lead_of(s.show->0);
        let start = advanced(s, s.selected_cue_idx->0, cue, s.show->0.cues.len() as int);
        let included = included_ids(s.clients, cue);
        let fired = dispatch::after_go_all(start, cue, included, lead_ms, now_ms);
        dispatch::law_go_all_touches_listed_clients(start, cue, included, lead_ms, now_ms);
        dispatch::law_exclude_keeps_clients(
            fired,
            cue,
            excluded_ids(s.clients, cue),
            lead_ms,
            now_ms,
        );
        lemma_standby_all_keeps_roster(s, cue, included, now_ms);
    }
}

/// GO tells no one but connected clients.
pub proof fn law_go_tells_only_clients(s: AppModel, now_ms: u64, k: int)
    requires
        0 <= k < go_selected_messages(s, now_ms).len(),
    ensures
        exists|i: int|
            0 <= i < s.clients.len() && (#[trigger] s.clients[i]).client_id
                == go_selected_messages(s, now_ms)[k].client_id,
{
    let cue = selected_cue(s)->0;
    let lead_ms = lead_of(s.show->0);
    let start = advanced(s, s.selected_cue_idx->0, cue, s.show->0.cues.len() as int);
    let ids = state::row_ids(s.clients);
    let included = included_ids(s.clients, cue);
    let excluded = excluded_ids(s.clients, cue);
    let fired = dispatch::after_go_all(start, cue, included, lead_ms, now_ms);
    let first = dispatch::go_all_messages(start, cue, included, lead_ms, now_ms);
    let rest = dispatch::exclude_messages(fired, cue, excluded, lead_ms, now_ms);
    let sent = go_selected_messages(s, now_ms);
    let id = sent[k].client_id;
    crate::show::law_partition(cue.target, ids, id);
    if k < first.len() {
        assert(sent[k] == first[k]);
        dispatch::law_go_all_reaches_listed_clients(start, cue, included, lead_ms, now_ms);
        assert(included.contains(id));
    } else {
        assert(sent[k] == rest[k - first.len()]);
        dispatch::lemma_exclude_tells_excluded(
            fired,
            cue,
            excluded,
            lead_ms,
            now_ms,
            k - first.len(),
        );
        assert(excluded.contains(id));
    }
    assert(ids.contains(id));
    let i = choose|i: int| 0 <= i < ids.len() && ids[i] == id;
    assert(s.clients[i].client_id == id);
}

} // verus!
