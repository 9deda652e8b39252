//! Per-client cue dispatch.
//!
//! A cue can target only some clients, so GO and STANDBY reason about each
//! client individually, including its own two-layer (A/B) crossfade state. A
//! client that a cue excludes does not advance its layer toggle for that GO,
//! so its state can diverge from the rest of the fleet.
//!
//! Each operation changes the controller's state and returns the messages that
//! are to be sent, in order.

use vstd::prelude::*;

use crate::clock;
use crate::clock::now_utc_ms;
use crate::protocol;
use crate::protocol::{
    load_cue_for, ControllerMsg, ControllerMsgModel, FadeCmd, Layer, Outgoing, OutgoingModel,
    PlayAt,
};
use crate::show::{Cue, CueKind, CueModel, ExcludeAction, DEFAULT_FADE_MS};
use crate::state;
use crate::state::{
    find_row, AppModel, AppState, LayerModel, LayerState, RowModel, StandbyModel, StandbySlot,
};
use crate::text::same_text;

verus! {

/// How long (ms) after a crossfade its outgoing layer is left alone.
pub const SETTLE_MS: u64 = 300;

/// The layer a client's next GO (and thus its next STANDBY) will target.
pub open spec fn idle_layer_of(active: Option<Layer>) -> Layer {
    match active {
        Some(layer) => layer.opposite(),
        None => Layer::A,
    }
}

/// The layer a client's next GO (and thus its next STANDBY) will target: the
/// opposite of whatever's currently on air for it, or A if nothing is.
pub fn idle_layer(active: Option<Layer>) -> (r: Layer)
    ensures
        r == idle_layer_of(active),
{
    match active {
        Some(Layer::A) => Layer::B,
        Some(Layer::B) => Layer::A,
        None => Layer::A,
    }
}

/// The crossfade with which a cue replaces what a client has on air: the cue's
/// fade-in; `None` when nothing is on air.
pub open spec fn crossfade_of(layers: LayerModel, cue: CueModel) -> Option<u32> {
    if layers.now_playing is None {
        None
    } else {
        Some(cue.fade_in_ms)
    }
}

/// Has the client this cue preloaded on the layer its next GO will use?
pub open spec fn preloaded(layers: LayerModel, cue_id: Seq<char>) -> bool {
    layers.standby == Some(
        StandbyModel { cue_id, layer: idle_layer_of(layers.active_layer) },
    )
}

/// A client's layers after a cue was fired for it.
pub open spec fn layers_after_go(
    layers: LayerModel,
    cue: CueModel,
    lead_ms: u64,
    now_ms: u64,
) -> LayerModel {
    LayerModel {
        active_layer: Some(idle_layer_of(layers.active_layer)),
        standby: None,
        idle_free_utc_ms: match crossfade_of(layers, cue) {
            Some(ms) => clock::capped(now_ms + lead_ms + ms + SETTLE_MS),
            None => 0,
        },
        now_playing: Some(cue.id),
    }
}

/// What a client is sent when a cue is fired for it: the cue itself, unless it
/// is preloaded, and then when to start it.
pub open spec fn go_commands(
    layers: LayerModel,
    cue: CueModel,
    lead_ms: u64,
    now_ms: u64,
) -> Seq<ControllerMsgModel> {
    let layer = idle_layer_of(layers.active_layer);
    let play = ControllerMsgModel::PlayAt(
        PlayAt {
            layer,
            master_start_utc_ms: clock::capped(now_ms + lead_ms),
            fade_in_ms: cue.fade_in_ms,
            crossfade_ms: crossfade_of(layers, cue),
        },
    );
    if preloaded(layers, cue.id) {
        seq![play]
    } else {
        seq![ControllerMsgModel::LoadCue(protocol::load_of(cue, layer)), play]
    }
}

/// The log line of a GO for one client.
pub open spec fn go_line(layers: LayerModel, cue_id: Seq<char>, client_id: Seq<char>) -> Seq<char> {
    "GO cue "@ + cue_id + " → "@ + client_id + " on layer "@ + idle_layer_of(
        layers.active_layer,
    ).label() + if preloaded(layers, cue_id) {
        " (preloaded)"@
    } else {
        " (cold load)"@
    }
}

/// Messages, all to one client.
pub open spec fn addressed(client_id: Seq<char>, msgs: Seq<ControllerMsgModel>) -> Seq<
    OutgoingModel,
> {
    msgs.map_values(|msg: ControllerMsgModel| OutgoingModel { client_id, msg })
}

/// The controller's state after firing a cue for one client.
pub open spec fn after_go(
    s: AppModel,
    cue: CueModel,
    client_id: Seq<char>,
    lead_ms: u64,
    now_ms: u64,
) -> AppModel {
    let i = state::row_index(s.clients, client_id);
    if i < s.clients.len() {
        let row = s.clients[i];
        s.with_row(
            i,
            RowModel { layers: layers_after_go(row.layers, cue, lead_ms, now_ms), ..row },
        ).with_log(go_line(row.layers, cue.id, client_id))
    } else {
        s
    }
}

/// What is sent when a cue is fired for one client.
pub open spec fn go_messages(
    s: AppModel,
    cue: CueModel,
    client_id: Seq<char>,
    lead_ms: u64,
    now_ms: u64,
) -> Seq<OutgoingModel> {
    let i = state::row_index(s.clients, client_id);
    if i < s.clients.len() {
        addressed(client_id, go_commands(s.clients[i].layers, cue, lead_ms, now_ms))
    } else {
        Seq::empty()
    }
}

/// Fire `cue` for one included client at `now_ms`. Crossfade timing and STANDBY
/// reuse are decided from this client's own layers.
pub fn go_for_client_at(
    state: &mut AppState,
    cue: &Cue,
    client_id: &str,
    lead_ms: u64,
    now_ms: u64,
) -> (r: Vec<Outgoing>)
    ensures
        final(state)@ == after_go(old(state)@, cue@, client_id@, lead_ms, now_ms),
        r.deep_view() == go_messages(old(state)@, cue@, client_id@, lead_ms, now_ms),
        forall|k: int| 0 <= k < r@.len() ==> (#[trigger] r@[k]).client_id@ == client_id@,
        forall|k: int|
            0 <= k < r@.len() ==> match (#[trigger] r@[k]).msg {
                ControllerMsg::LoadCue(l) => {
                    &&& l.cue_id@ == cue.id@
                    &&& l.kind == cue.kind
                    &&& l.file@ == cue.file@
                    &&& l.color.deep_view() == cue.color.deep_view()
                    &&& l.fade_in_ms == cue.fade_in_ms
                    &&& l.in_ms == cue.in_ms
                    &&& l.out_ms == cue.out_ms
                    &&& l.loops == cue.loops
                    &&& l.on_end == cue.on_end
                },
                ControllerMsg::PlayAt(p) => p.fade_in_ms == cue.fade_in_ms,
                _ => false,
            },
{
    let ghost before = state@;
    let mut out: Vec<Outgoing> = Vec::new();
    let i: usize = find_row(&state.clients, client_id);
    if i == state.clients.len() {
        assert(out.deep_view() =~= Seq::<OutgoingModel>::empty());
        return out;
    }
    let ghost row = before.clients[i as int];
    assert(row == state.clients@[i as int].deep_view());
    let target_layer: Layer = idle_layer(state.clients[i].layers.active_layer);
    // Crossfade when something is on air for this client; the incoming cue's
    // fade-in doubles as the crossfade duration.
    let crossfade_ms: Option<u32> = if state.clients[i].layers.now_playing.is_some() {
        Some(cue.fade_in_ms)
    } else {
        None
    };
    let is_preloaded: bool = standby_is(&state.clients[i].layers, cue.id.as_str());
    let idle_free_utc_ms: u64 = match crossfade_ms {
        Some(ms) => now_ms.saturating_add(lead_ms).saturating_add(ms as u64).saturating_add(
            SETTLE_MS,
        ),
        None => 0,
    };
    state.clients[i].layers = LayerState {
        active_layer: Some(target_layer),
        standby: None,
        idle_free_utc_ms,
        now_playing: Some(cue.id.clone()),
    };
    assert(state@ =~= before.with_row(
        i as int,
        RowModel { layers: layers_after_go(row.layers, cue@, lead_ms, now_ms), ..row },
    ));
    let line: String = "GO cue ".to_owned().concat(cue.id.as_str()).concat(" → ").concat(
        client_id,
    ).concat(" on layer ").concat(target_layer.name()).concat(
        if is_preloaded {
            " (preloaded)"
        } else {
            " (cold load)"
        },
    );
    state.push_log(line);
    if !is_preloaded {
        out.push(
            Outgoing {
                client_id: client_id.to_owned(),
                msg: ControllerMsg::LoadCue(load_cue_for(cue, target_layer)),
            },
        );
    }
    out.push(
        Outgoing {
            client_id: client_id.to_owned(),
            msg: ControllerMsg::PlayAt(
                PlayAt {
                    layer: target_layer,
                    master_start_utc_ms: now_ms.saturating_add(lead_ms),
                    fade_in_ms: cue.fade_in_ms,
                    crossfade_ms,
                },
            ),
        },
    );
    assert(out.deep_view() =~= go_messages(before, cue@, client_id@, lead_ms, now_ms));
    out
}

/// Has the client this cue preloaded on the layer its next GO will use?
fn standby_is(layers: &LayerState, cue_id: &str) -> (r: bool)
    ensures
        r == preloaded(layers@, cue_id@),
{
    match &layers.standby {
        Some(slot) => slot.layer == idle_layer(layers.active_layer) && same_text(
            slot.cue_id.as_str(),
            cue_id,
        ),
        None => false,
    }
}

/// Fire `cue` for one included client now.
pub fn go_for_client(state: &mut AppState, cue: &Cue, client_id: &str, lead_ms: u64) -> (r: Vec<
    Outgoing,
>)
    ensures
        exists|now_ms: u64|
            #![trigger after_go(old(state)@, cue@, client_id@, lead_ms, now_ms)]
            {
                &&& final(state)@ == after_go(old(state)@, cue@, client_id@, lead_ms, now_ms)
                &&& r.deep_view() == go_messages(old(state)@, cue@, client_id@, lead_ms, now_ms)
            },
        forall|k: int| 0 <= k < r@.len() ==> (#[trigger] r@[k]).client_id@ == client_id@,
        forall|k: int|
            0 <= k < r@.len() ==> match (#[trigger] r@[k]).msg {
                ControllerMsg::LoadCue(l) => {
                    &&& l.cue_id@ == cue.id@
                    &&& l.kind == cue.kind
                    &&& l.file@ == cue.file@
                    &&& l.color.deep_view() == cue.color.deep_view()
                    &&& l.fade_in_ms == cue.fade_in_ms
                    &&& l.in_ms == cue.in_ms
                    &&& l.out_ms == cue.out_ms
                    &&& l.loops == cue.loops
                    &&& l.on_end == cue.on_end
                },
                ControllerMsg::PlayAt(p) => p.fade_in_ms == cue.fade_in_ms,
                _ => false,
            },
{
    go_for_client_at(state, cue, client_id, lead_ms, now_utc_ms())
}

/// Is a STANDBY of this cue of no use to the client right now: because it has
/// the cue preloaded already, or because the layer is still fading out?
pub open spec fn standby_moot(layers: LayerModel, cue_id: Seq<char>, now_ms: u64) -> bool {
    preloaded(layers, cue_id) || now_ms < layers.idle_free_utc_ms
}

/// The controller's state after preloading a cue for one client.
pub open spec fn after_standby(
    s: AppModel,
    cue: CueModel,
    client_id: Seq<char>,
    now_ms: u64,
) -> AppModel {
    let i = state::row_index(s.clients, client_id);
    if i < s.clients.len() && !standby_moot(s.clients[i].layers, cue.id, now_ms) {
        let row = s.clients[i];
        let layer = idle_layer_of(row.layers.active_layer);
        s.with_row(
            i,
            RowModel {
                layers: LayerModel {
                    standby: Some(StandbyModel { cue_id: cue.id, layer }),
                    ..row.layers
                },
                ..row
            },
        ).with_log(
            "STANDBY cue "@ + cue.id + " → "@ + client_id + " on layer "@ + layer.label(),
        )
    } else {
        s
    }
}

/// What is sent when a cue is preloaded for one client.
pub open spec fn standby_messages(
    s: AppModel,
    cue: CueModel,
    client_id: Seq<char>,
    now_ms: u64,
) -> Seq<OutgoingModel> {
    let i = state::row_index(s.clients, client_id);
    if i < s.clients.len() && !standby_moot(s.clients[i].layers, cue.id, now_ms) {
        let layer = idle_layer_of(s.clients[i].layers.active_layer);
        seq![
            OutgoingModel {
                client_id,
                msg: ControllerMsgModel::Standby(protocol::load_of(cue, layer)),
            },
        ]
    } else {
        Seq::empty()
    }
}

/// Preload `cue` onto the layer this client's next GO will use, at `now_ms`.
pub fn standby_for_client_at(state: &mut AppState, cue: &Cue, client_id: &str, now_ms: u64) -> (r:
    Vec<Outgoing>)
    ensures
        final(state)@ == after_standby(old(state)@, cue@, client_id@, now_ms),
        r.deep_view() == standby_messages(old(state)@, cue@, client_id@, now_ms),
        forall|k: int| 0 <= k < r@.len() ==> (#[trigger] r@[k]).client_id@ == client_id@,
        forall|k: int|
            0 <= k < r@.len() ==> match (#[trigger] r@[k]).msg {
                ControllerMsg::Standby(l) => {
                    &&& l.cue_id@ == cue.id@
                    &&& l.kind == cue.kind
                    &&& l.file@ == cue.file@
                    &&& l.color.deep_view() == cue.color.deep_view()
                    &&& l.fade_in_ms == cue.fade_in_ms
                    &&& l.in_ms == cue.in_ms
                    &&& l.out_ms == cue.out_ms
                    &&& l.loops == cue.loops
                    &&& l.on_end == cue.on_end
                },
                _ => false,
            },
{
    let ghost before = state@;
    let mut out: Vec<Outgoing> = Vec::new();
    assert(out.deep_view() =~= Seq::<OutgoingModel>::empty());
    let i: usize = find_row(&state.clients, client_id);
    if i == state.clients.len() {
        return out;
    }
    let ghost row = before.clients[i as int];
    assert(row == state.clients@[i as int].deep_view());
    let target: Layer = idle_layer(state.clients[i].layers.active_layer);
    // Already preloaded on the right layer, or that layer is still finishing a
    // crossfade-out.
    if standby_is(&state.clients[i].layers, cue.id.as_str()) || now_ms
        < state.clients[i].layers.idle_free_utc_ms {
        return out;
    }
    state.clients[i].layers.standby = Some(StandbySlot { cue_id: cue.id.clone(), layer: target });
    assert(state@ =~= before.with_row(
        i as int,
        RowModel {
            layers: LayerModel {
                standby: Some(StandbyModel { cue_id: cue@.id, layer: target }),
                ..row.layers
            },
            ..row
        },
    ));
    let line: String = "STANDBY cue ".to_owned().concat(cue.id.as_str()).concat(" → ").concat(
        client_id,
    ).concat(" on layer ").concat(target.name());
    state.push_log(line);
    out.push(
        Outgoing {
            client_id: client_id.to_owned(),
            msg: ControllerMsg::Standby(load_cue_for(cue, target)),
        },
    );
    assert(out.deep_view() =~= standby_messages(before, cue@, client_id@, now_ms));
    out
}

/// Preload `cue` onto the layer this client's next GO will use.
pub fn standby_for_client(state: &mut AppState, cue: &Cue, client_id: &str) -> (r: Vec<Outgoing>)
    ensures
        exists|now_ms: u64|
            #![trigger after_standby(old(state)@, cue@, client_id@, now_ms)]
            {
                &&& final(state)@ == after_standby(old(state)@, cue@, client_id@, now_ms)
                &&& r.deep_view() == standby_messages(old(state)@, cue@, client_id@, now_ms)
            },
        forall|k: int| 0 <= k < r@.len() ==> (#[trigger] r@[k]).client_id@ == client_id@,
        forall|k: int|
            0 <= k < r@.len() ==> match (#[trigger] r@[k]).msg {
                ControllerMsg::Standby(l) => {
                    &&& l.cue_id@ == cue.id@
                    &&& l.kind == cue.kind
                    &&& l.file@ == cue.file@
                    &&& l.color.deep_view() == cue.color.deep_view()
                    &&& l.fade_in_ms == cue.fade_in_ms
                    &&& l.in_ms == cue.in_ms
                    &&& l.out_ms == cue.out_ms
                    &&& l.loops == cue.loops
                    &&& l.on_end == cue.on_end
                },
                _ => false,
            },
{
    standby_for_client_at(state, cue, client_id, now_utc_ms())
}

/// The controller's state after firing a cue for each of the clients in turn.
pub open spec fn after_go_all(
    s: AppModel,
    cue: CueModel,
    ids: Seq<Seq<char>>,
    lead_ms: u64,
    now_ms: u64,
) -> AppModel
    decreases ids.len(),
{
    if ids.len() == 0 {
        s
    } else {
        after_go(
            after_go_all(s, cue, ids.drop_last(), lead_ms, now_ms),
            cue,
            ids.last(),
            lead_ms,
            now_ms,
        )
    }
}

/// What is sent when a cue is fired for each of the clients in turn.
pub open spec fn go_all_messages(
    s: AppModel,
    cue: CueModel,
    ids: Seq<Seq<char>>,
    lead_ms: u64,
    now_ms: u64,
) -> Seq<OutgoingModel>
    decreases ids.len(),
{
    if ids.len() == 0 {
        Seq::empty()
    } else {
        go_all_messages(s, cue, ids.drop_last(), lead_ms, now_ms) + go_messages(
            after_go_all(s, cue, ids.drop_last(), lead_ms, now_ms),
            cue,
            ids.last(),
            lead_ms,
            now_ms,
        )
    }
}

/// Fire `cue` for each of the clients in turn, all at `now_ms`.
pub fn go_for_clients_at(
    state: &mut AppState,
    cue: &Cue,
    ids: &Vec<String>,
    lead_ms: u64,
    now_ms: u64,
) -> (r: Vec<Outgoing>)
    ensures
        final(state)@ == after_go_all(old(state)@, cue@, ids.deep_view(), lead_ms, now_ms),
        r.deep_view() == go_all_messages(old(state)@, cue@, ids.deep_view(), lead_ms, now_ms),
        forall|k: int|
            0 <= k < r@.len() ==> match (#[trigger] r@[k]).msg {
                ControllerMsg::LoadCue(l) => {
                    &&& l.cue_id@ == cue.id@
                    &&& l.kind == cue.kind
                    &&& l.file@ == cue.file@
                    &&& l.color.deep_view() == cue.color.deep_view()
                    &&& l.fade_in_ms == cue.fade_in_ms
                    &&& l.in_ms == cue.in_ms
                    &&& l.out_ms == cue.out_ms
                    &&& l.loops == cue.loops
                    &&& l.on_end == cue.on_end
                },
                ControllerMsg::PlayAt(p) => p.fade_in_ms == cue.fade_in_ms,
                _ => false,
            },
{
    let ghost before = state@;
    let ghost list = ids.deep_view();
    let mut out: Vec<Outgoing> = Vec::new();
    let mut i: usize = 0;
    assert(list.take(0) =~= Seq::<Seq<char>>::empty());
    assert(out.deep_view() =~= Seq::<OutgoingModel>::empty());
    while i < ids.len()
        invariant
            0 <= i <= ids.len(),
            list == ids.deep_view(),
            state@ == after_go_all(before, cue@, list.take(i as int), lead_ms, now_ms),
            out.deep_view() == go_all_messages(
                before,
                cue@,
                list.take(i as int),
                lead_ms,
                now_ms,
            ),
            forall|k: int|
                0 <= k < out@.len() ==> match (#[trigger] out@[k]).msg {
                    ControllerMsg::LoadCue(l) => {
                        &&& l.cue_id@ == cue.id@
                        &&& l.kind == cue.kind
                        &&& l.file@ == cue.file@
                        &&& l.color.deep_view() == cue.color.deep_view()
                        &&& l.fade_in_ms == cue.fade_in_ms
                        &&& l.in_ms == cue.in_ms
                        &&& l.out_ms == cue.out_ms
                        &&& l.loops == cue.loops
                        &&& l.on_end == cue.on_end
                    },
                    ControllerMsg::PlayAt(p) => p.fade_in_ms == cue.fade_in_ms,
                    _ => false,
                },
        decreases ids.len() - i,
    {
        let ghost sent = out.deep_view();
        let mut more: Vec<Outgoing> = go_for_client_at(
            state,
            cue,
            ids[i].as_str(),
            lead_ms,
            now_ms,
        );
        let ghost fresh = more.deep_view();
        let ghost had = out@;
        let ghost got = more@;
        out.append(&mut more);
        assert(out@ =~= had + got);
        proof {
            assert(out.deep_view() =~= sent + fresh);
            assert(list.take(i + 1).drop_last() =~= list.take(i as int));
            assert(list.take(i + 1).last() == list[i as int]);
        }
        i = i + 1;
    }
    assert(list.take(i as int) =~= list);
    out
}

/// The controller's state after sending each of the clients to the poster.
pub open spec fn after_poster_all(s: AppModel, ids: Seq<Seq<char>>) -> AppModel
    decreases ids.len(),
{
    if ids.len() == 0 {
        s
    } else {
        let t = after_poster_all(s, ids.drop_last());
        let i = state::row_index(t.clients, ids.last());
        if i < t.clients.len() {
            t.with_row(i, RowModel { layers: LayerModel::idle(), ..t.clients[i] })
        } else {
            t
        }
    }
}

/// The same message to each of the clients that is connected.
pub open spec fn to_connected(
    rows: Seq<RowModel>,
    ids: Seq<Seq<char>>,
    msg: ControllerMsgModel,
) -> Seq<OutgoingModel>
    decreases ids.len(),
{
    if ids.len() == 0 {
        Seq::empty()
    } else {
        let before = to_connected(rows, ids.drop_last(), msg);
        if state::connected(rows, ids.last()) {
            before.push(OutgoingModel { client_id: ids.last(), msg })
        } else {
            before
        }
    }
}

/// The colour that a cue's excluded clients show: its own choice, or black.
pub open spec fn exclude_color_of(cue: CueModel) -> Seq<char> {
    match cue.exclude_color {
        Some(c) => c,
        None => "#000000"@,
    }
}

/// The colour cue that a cue's excluded clients get. It keeps the real cue's
/// id, so that the roster reports a sensible current cue for them too.
pub open spec fn color_cue_of(cue: CueModel) -> CueModel {
    CueModel {
        id: cue.id,
        kind: CueKind::Color,
        color: Some(exclude_color_of(cue)),
        fade_in_ms: cue.fade_in_ms,
        ..CueModel::blank()
    }
}

/// The controller's state after a cue's exclude action was applied.
pub open spec fn after_exclude(
    s: AppModel,
    cue: CueModel,
    excluded: Seq<Seq<char>>,
    lead_ms: u64,
    now_ms: u64,
) -> AppModel {
    match cue.exclude_action {
        ExcludeAction::Ignore => s,
        ExcludeAction::Poster => after_poster_all(s, excluded),
        ExcludeAction::Color => after_go_all(s, color_cue_of(cue), excluded, lead_ms, now_ms),
    }
}

/// What is sent when a cue's exclude action is applied.
pub open spec fn exclude_messages(
    s: AppModel,
    cue: CueModel,
    excluded: Seq<Seq<char>>,
    lead_ms: u64,
    now_ms: u64,
) -> Seq<OutgoingModel> {
    match cue.exclude_action {
        ExcludeAction::Ignore => Seq::empty(),
        ExcludeAction::Poster => to_connected(
            s.clients,
            excluded,
            ControllerMsgModel::Fade(FadeCmd { duration_ms: DEFAULT_FADE_MS }),
        ),
        ExcludeAction::Color => go_all_messages(
            s,
            color_cue_of(cue),
            excluded,
            lead_ms,
            now_ms,
        ),
    }
}

/// Fade each of the clients that is connected, over the default fade time.
fn fade_each(state: &AppState, ids: &Vec<String>) -> (r: Vec<Outgoing>)
    ensures
        r.deep_view() == to_connected(
            state@.clients,
            ids.deep_view(),
            ControllerMsgModel::Fade(FadeCmd { duration_ms: DEFAULT_FADE_MS }),
        ),
        forall|k: int|
            0 <= k < r@.len() ==> match (#[trigger] r@[k]).msg {
                ControllerMsg::Fade(f) => f.duration_ms == DEFAULT_FADE_MS,
                _ => false,
            },
{
    let ghost list = ids.deep_view();
    let ghost msg = ControllerMsgModel::Fade(FadeCmd { duration_ms: DEFAULT_FADE_MS });
    let mut out: Vec<Outgoing> = Vec::new();
    let mut i: usize = 0;
    assert(list.take(0) =~= Seq::<Seq<char>>::empty());
    assert(out.deep_view() =~= Seq::<OutgoingModel>::empty());
    while i < ids.len()
        invariant
            0 <= i <= ids.len(),
            list == ids.deep_view(),
            msg == ControllerMsgModel::Fade(FadeCmd { duration_ms: DEFAULT_FADE_MS }),
            out.deep_view() == to_connected(state@.clients, list.take(i as int), msg),
            forall|k: int|
                0 <= k < out@.len() ==> match (#[trigger] out@[k]).msg {
                    ControllerMsg::Fade(f) => f.duration_ms == DEFAULT_FADE_MS,
                    _ => false,
                },
        decreases ids.len() - i,
    {
        let ghost sent = out.deep_view();
        assert(list.take(i + 1).drop_last() =~= list.take(i as int));
        assert(list.take(i + 1).last() == list[i as int]);
        if find_row(&state.clients, ids[i].as_str()) < state.clients.len() {
            out.push(
                Outgoing {
                    client_id: ids[i].clone(),
                    msg: ControllerMsg::Fade(FadeCmd { duration_ms: DEFAULT_FADE_MS }),
                },
            );
            assert(out.deep_view() =~= sent.push(OutgoingModel { client_id: list[i as int], msg }));
        }
        i = i + 1;
    }
    assert(list.take(i as int) =~= list);
    out
}

/// Forget what each of the clients has on air and preloaded.
fn idle_each(state: &mut AppState, ids: &Vec<String>)
    ensures
        final(state)@ == after_poster_all(old(state)@, ids.deep_view()),
{
    let ghost before = state@;
    let ghost list = ids.deep_view();
    let mut i: usize = 0;
    assert(list.take(0) =~= Seq::<Seq<char>>::empty());
    while i < ids.len()
        invariant
            0 <= i <= ids.len(),
            list == ids.deep_view(),
            state@ == after_poster_all(before, list.take(i as int)),
        decreases ids.len() - i,
    {
        let ghost mid = state@;
        assert(list.take(i + 1).drop_last() =~= list.take(i as int));
        assert(list.take(i + 1).last() == list[i as int]);
        let k: usize = find_row(&state.clients, ids[i].as_str());
        if k < state.clients.len() {
            state.clients[k].layers = LayerState::idle();
            assert(state@ =~= mid.with_row(
                k as int,
                RowModel { layers: LayerModel::idle(), ..mid.clients[k as int] },
            ));
        }
        i = i + 1;
    }
    assert(list.take(i as int) =~= list);
}

/// Apply `cue`'s `exclude_action` to every client it doesn't target, at
/// `now_ms`.
pub fn apply_exclude_action_at(
    state: &mut AppState,
    cue: &Cue,
    excluded_ids: &Vec<String>,
    lead_ms: u64,
    now_ms: u64,
) -> (r: Vec<Outgoing>)
    ensures
        final(state)@ == after_exclude(
            old(state)@,
            cue@,
            excluded_ids.deep_view(),
            lead_ms,
            now_ms,
        ),
        r.deep_view() == exclude_messages(
            old(state)@,
            cue@,
            excluded_ids.deep_view(),
            lead_ms,
            now_ms,
        ),
        match cue.exclude_action {
            ExcludeAction::Ignore => r@.len() == 0,
            ExcludeAction::Poster => forall|k: int|
                0 <= k < r@.len() ==> match (#[trigger] r@[k]).msg {
                    ControllerMsg::Fade(f) => f.duration_ms == DEFAULT_FADE_MS,
                    _ => false,
                },
            ExcludeAction::Color => forall|k: int|
                0 <= k < r@.len() ==> match (#[trigger] r@[k]).msg {
                    ControllerMsg::LoadCue(l) => {
                        &&& l.cue_id@ == cue.id@
                        &&& l.kind == CueKind::Color
                        &&& l.color.deep_view() == Some(
                            match cue.exclude_color {
                                Some(c) => c@,
                                None => "#000000"@,
                            },
                        )
                        &&& l.fade_in_ms == cue.fade_in_ms
                    },
                    ControllerMsg::PlayAt(p) => p.fade_in_ms == cue.fade_in_ms,
                    _ => false,
                },
        },
{
    match cue.exclude_action {
        // The excluded client keeps whatever it already had on air.
        ExcludeAction::Ignore => {
            let out: Vec<Outgoing> = Vec::new();
            assert(out.deep_view() =~= Seq::<OutgoingModel>::empty());
            out
        },
        // The client's own FADE handling fully resets both its layers, so
        // nothing is on air there any more and what was preloaded is gone.
        ExcludeAction::Poster => {
            let out: Vec<Outgoing> = fade_each(state, excluded_ids);
            idle_each(state, excluded_ids);
            out
        },
        ExcludeAction::Color => {
            let color: String = match &cue.exclude_color {
                Some(c) => c.clone(),
                None => "#000000".to_owned(),
            };
            let mut color_cue: Cue = Cue::default();
            color_cue.id = cue.id.clone();
            color_cue.kind = CueKind::Color;
            color_cue.color = Some(color);
            color_cue.fade_in_ms = cue.fade_in_ms;
            assert(color_cue@ =~= color_cue_of(cue@));
            go_for_clients_at(state, &color_cue, excluded_ids, lead_ms, now_ms)
        },
    }
}

/// Apply `cue`'s `exclude_action` to every client it doesn't target.
pub fn apply_exclude_action(
    state: &mut AppState,
    cue: &Cue,
    excluded_ids: &Vec<String>,
    lead_ms: u64,
) -> (r: Vec<Outgoing>)
    ensures
        exists|now_ms: u64|
            #![trigger after_exclude(old(state)@, cue@, excluded_ids.deep_view(), lead_ms, now_ms)]
            {
                &&& final(state)@ == after_exclude(
                    old(state)@,
                    cue@,
                    excluded_ids.deep_view(),
                    lead_ms,
                    now_ms,
                )
                &&& r.deep_view() == exclude_messages(
                    old(state)@,
                    cue@,
                    excluded_ids.deep_view(),
                    lead_ms,
                    now_ms,
                )
            },
        match cue.exclude_action {
            ExcludeAction::Ignore => r@.len() == 0,
            ExcludeAction::Poster => forall|k: int|
                0 <= k < r@.len() ==> match (#[trigger] r@[k]).msg {
                    ControllerMsg::Fade(f) => f.duration_ms == DEFAULT_FADE_MS,
                    _ => false,
                },
            ExcludeAction::Color => forall|k: int|
                0 <= k < r@.len() ==> match (#[trigger] r@[k]).msg {
                    ControllerMsg::LoadCue(l) => {
                        &&& l.cue_id@ == cue.id@
                        &&& l.kind == CueKind::Color
                        &&& l.color.deep_view() == Some(
                            match cue.exclude_color {
                                Some(c) => c@,
                                None => "#000000"@,
                            },
                        )
                        &&& l.fade_in_ms == cue.fade_in_ms
                    },
                    ControllerMsg::PlayAt(p) => p.fade_in_ms == cue.fade_in_ms,
                    _ => false,
                },
        },
{
    apply_exclude_action_at(state, cue, excluded_ids, lead_ms, now_utc_ms())
}

/// Dispatch never adds, drops or renames a client, and changes nothing but the
/// roster and the log.
pub open spec fn roster_kept(s: AppModel, t: AppModel) -> bool {
    &&& t == (AppModel { clients: t.clients, log_lines: t.log_lines, ..s })
    &&& t.clients.len() == s.clients.len()
    &&& forall|i: int|
        0 <= i < s.clients.len() ==> (#[trigger] t.clients[i]) == (RowModel {
            layers: t.clients[i].layers,
            ..s.clients[i]
        })
}

/// Firing a cue for one client leaves every other client's row as it was.
pub proof fn law_go_touches_one_client(
    s: AppModel,
    cue: CueModel,
    client_id: Seq<char>,
    lead_ms: u64,
    now_ms: u64,
)
    ensures
        roster_kept(s, after_go(s, cue, client_id, lead_ms, now_ms)),
        forall|i: int|
            0 <= i < s.clients.len() && i != state::row_index(s.clients, client_id) ==> (
            #[trigger] after_go(s, cue, client_id, lead_ms, now_ms).clients[i]) == s.clients[i],
        forall|k: int|
            0 <= k < go_messages(s, cue, client_id, lead_ms, now_ms).len() ==> (
            #[trigger] go_messages(s, cue, client_id, lead_ms, now_ms)[k]).client_id == client_id,
{
    state::lemma_row_index(s.clients, client_id);
}

/// Preloading a cue for one client leaves every other client's row as it was.
pub proof fn law_standby_touches_one_client(
    s: AppModel,
    cue: CueModel,
    client_id: Seq<char>,
    now_ms: u64,
)
    ensures
        roster_kept(s, after_standby(s, cue, client_id, now_ms)),
        forall|i: int|
            0 <= i < s.clients.len() && i != state::row_index(s.clients, client_id) ==> (
            #[trigger] after_standby(s, cue, client_id, now_ms).clients[i]) == s.clients[i],
{
    state::lemma_row_index(s.clients, client_id);
}

/// A roster that keeps its ids keeps them distinct, and finds each of them
/// where it was.
pub proof fn lemma_roster_kept(s: AppModel, t: AppModel, id: Seq<char>)
    requires
        roster_kept(s, t),
    ensures
        state::row_index(t.clients, id) == state::row_index(s.clients, id),
        s.wf() ==> t.wf(),
{
    let i = state::row_index(s.clients, id);
    state::lemma_row_index(s.clients, id);
    assert forall|k: int| 0 <= k < i implies (#[trigger] t.clients[k]).client_id != id by {
        assert(s.clients[k].client_id != id);
    }
    state::lemma_row_index_is(t.clients, id, i);
    if s.wf() {
        assert forall|a: int, b: int| 0 <= a < b < t.clients.len() implies (
        #[trigger] t.clients[a]).client_id != (#[trigger] t.clients[b]).client_id by {
            assert(s.clients[a].client_id != s.clients[b].client_id);
        }
    }
}

proof fn lemma_roster_kept_trans(s: AppModel, t: AppModel, u: AppModel)
    requires
        roster_kept(s, t),
        roster_kept(t, u),
    ensures
        roster_kept(s, u),
{
    assert forall|i: int| 0 <= i < s.clients.len() implies (#[trigger] u.clients[i]) == (RowModel {
        layers: u.clients[i].layers,
        ..s.clients[i]
    }) by {
        assert(t.clients[i] == (RowModel { layers: t.clients[i].layers, ..s.clients[i] }));
    }
}

/// Firing a cue for a list of clients keeps the roster, and leaves the row of
/// every client that is not on the list as it was.
pub proof fn law_go_all_touches_listed_clients(
    s: AppModel,
    cue: CueModel,
    ids: Seq<Seq<char>>,
    lead_ms: u64,
    now_ms: u64,
)
    ensures
        roster_kept(s, after_go_all(s, cue, ids, lead_ms, now_ms)),
        forall|i: int|
            0 <= i < s.clients.len() && !ids.contains(s.clients[i].client_id) ==> (
            #[trigger] after_go_all(s, cue, ids, lead_ms, now_ms).clients[i]) == s.clients[i],
    decreases ids.len(),
{
    if ids.len() > 0 {
        let front = ids.drop_last();
        let id = ids.last();
        let t = after_go_all(s, cue, front, lead_ms, now_ms);
        let u = after_go(t, cue, id, lead_ms, now_ms);
        law_go_all_touches_listed_clients(s, cue, front, lead_ms, now_ms);
        law_go_touches_one_client(t, cue, id, lead_ms, now_ms);
        lemma_roster_kept_trans(s, t, u);
        state::lemma_row_index(t.clients, id);
        assert forall|i: int|
            0 <= i < s.clients.len() && !ids.contains(s.clients[i].client_id) implies (
        #[trigger] u.clients[i]) == s.clients[i] by {
            if front.contains(s.clients[i].client_id) {
                let k = choose|k: int| 0 <= k < front.len() && front[k] == s.clients[i].client_id;
                assert(ids[k] == front[k]);
            }
            assert(ids[ids.len() - 1] == id);
            assert(t.clients[i] == s.clients[i]);
        }
    }
}

/// The layers of the client of this id.
pub open spec fn layers_of(s: AppModel, id: Seq<char>) -> LayerModel {
    s.clients[state::row_index(s.clients, id)].layers
}

/// A preload makes the next GO instant: once a cue was preloaded for a client
/// and nothing touched the client's layers since, firing the cue sends nothing
/// but the command to play it, on the layer it was preloaded on. A cue of
/// another id is loaded on that layer first.
pub proof fn law_standby_makes_go_instant(
    s: AppModel,
    cue: CueModel,
    other: CueModel,
    client_id: Seq<char>,
    now_ms: u64,
    later: AppModel,
    lead_ms: u64,
    go_ms: u64,
)
    requires
        state::connected(s.clients, client_id),
        now_ms >= layers_of(s, client_id).idle_free_utc_ms,
        other.id != cue.id,
        state::connected(later.clients, client_id),
        layers_of(later, client_id) == layers_of(
            after_standby(s, cue, client_id, now_ms),
            client_id,
        ),
    ensures
        ({
            let layer = idle_layer_of(layers_of(s, client_id).active_layer);
            let sent = go_messages(later, cue, client_id, lead_ms, go_ms);
            let instead = go_messages(later, other, client_id, lead_ms, go_ms);
            &&& standby_messages(s, cue, client_id, now_ms).len() > 0
                ==> standby_messages(s, cue, client_id, now_ms) == seq![
                OutgoingModel {
                    client_id,
                    msg: ControllerMsgModel::Standby(protocol::load_of(cue, layer)),
                },
            ]
            &&& sent.len() == 1
            &&& sent[0].client_id == client_id
            &&& sent[0].msg matches ControllerMsgModel::PlayAt(p) && p.layer == layer
            &&& instead.len() == 2
            &&& instead[0] == (OutgoingModel {
                client_id,
                msg: ControllerMsgModel::LoadCue(protocol::load_of(other, layer)),
            })
            &&& instead[1].client_id == client_id
            &&& instead[1].msg matches ControllerMsgModel::PlayAt(p) && p.layer == layer
        }),
{
    let t = after_standby(s, cue, client_id, now_ms);
    law_standby_touches_one_client(s, cue, client_id, now_ms);
    lemma_roster_kept(s, t, client_id);
    state::lemma_row_index(s.clients, client_id);
}

/// A second STANDBY of the same cue sends nothing and changes nothing.
pub proof fn law_standby_idempotent(
    s: AppModel,
    cue: CueModel,
    client_id: Seq<char>,
    now_ms: u64,
    later_ms: u64,
)
    requires
        now_ms <= later_ms,
        !state::connected(s.clients, client_id) || now_ms >= s.clients[state::row_index(
            s.clients,
            client_id,
        )].layers.idle_free_utc_ms,
    ensures
        ({
            let t = after_standby(s, cue, client_id, now_ms);
            &&& after_standby(t, cue, client_id, later_ms) == t
            &&& standby_messages(t, cue, client_id, later_ms).len() == 0
        }),
{
    let t = after_standby(s, cue, client_id, now_ms);
    law_standby_touches_one_client(s, cue, client_id, now_ms);
    lemma_roster_kept(s, t, client_id);
    state::lemma_row_index(s.clients, client_id);
}

/// Nothing is preloaded onto a layer that is still fading out.
pub proof fn law_no_standby_while_fading(
    s: AppModel,
    cue: CueModel,
    client_id: Seq<char>,
    now_ms: u64,
)
    requires
        state::connected(s.clients, client_id),
        now_ms < s.clients[state::row_index(s.clients, client_id)].layers.idle_free_utc_ms,
    ensures
        after_standby(s, cue, client_id, now_ms) == s,
        standby_messages(s, cue, client_id, now_ms).len() == 0,
{
}

/// Two GOs in a row for a client use its two layers in turn, and the second
/// crossfades from the first over its own fade-in, be it the same cue or
/// another. `later` is any state in which the first GO's layers still stand.
pub proof fn law_go_alternates_layers(
    s: AppModel,
    first: CueModel,
    client_id: Seq<char>,
    lead_ms: u64,
    now_ms: u64,
    later: AppModel,
    second: CueModel,
    then_lead_ms: u64,
    then_ms: u64,
)
    requires
        state::connected(s.clients, client_id),
        state::connected(later.clients, client_id),
        layers_of(later, client_id) == layers_of(
            after_go(s, first, client_id, lead_ms, now_ms),
            client_id,
        ),
    ensures
        ({
            let sent = go_messages(s, first, client_id, lead_ms, now_ms);
            let then = go_messages(later, second, client_id, then_lead_ms, then_ms);
            let layer = idle_layer_of(layers_of(s, client_id).active_layer);
            &&& sent.len() > 0
            &&& sent.last().client_id == client_id
            &&& sent.last().msg matches ControllerMsgModel::PlayAt(p) && p.layer == layer
            &&& then.len() > 0
            &&& then.last().client_id == client_id
            &&& then.last().msg == ControllerMsgModel::PlayAt(
                PlayAt {
                    layer: layer.opposite(),
                    master_start_utc_ms: clock::capped(then_ms + then_lead_ms),
                    fade_in_ms: second.fade_in_ms,
                    crossfade_ms: Some(second.fade_in_ms),
                },
            )
            &&& layer.opposite() == idle_layer_of(Some(layer))
            &&& layer.opposite() != layer
        }),
{
    let t = after_go(s, first, client_id, lead_ms, now_ms);
    law_go_touches_one_client(s, first, client_id, lead_ms, now_ms);
    lemma_roster_kept(s, t, client_id);
    state::lemma_row_index(s.clients, client_id);
}

/// A GO for another client makes no difference to a client's row.
pub proof fn law_go_elsewhere_keeps_row(
    s: AppModel,
    cue: CueModel,
    elsewhere: Seq<char>,
    client_id: Seq<char>,
    lead_ms: u64,
    now_ms: u64,
)
    requires
        elsewhere != client_id,
    ensures
        ({
            let t = after_go(s, cue, elsewhere, lead_ms, now_ms);
            let i = state::row_index(s.clients, client_id);
            &&& state::row_index(t.clients, client_id) == i
            &&& i < s.clients.len() ==> t.clients[i] == s.clients[i]
        }),
{
    let t = after_go(s, cue, elsewhere, lead_ms, now_ms);
    law_go_touches_one_client(s, cue, elsewhere, lead_ms, now_ms);
    lemma_roster_kept(s, t, client_id);
    state::lemma_row_index(s.clients, client_id);
    state::lemma_row_index(s.clients, elsewhere);
}

/// A GO never preloads: whatever was preloaded is used up or dropped, so the
/// same cue fired again right away is loaded again.
pub proof fn law_go_uses_up_standby(
    layers: LayerModel,
    cue: CueModel,
    lead_ms: u64,
    now_ms: u64,
)
    ensures
        !preloaded(layers_after_go(layers, cue, lead_ms, now_ms), cue.id),
{
}

/// A client that was sent to the poster starts over: its next GO is a cold load
/// on layer A without a crossfade.
pub proof fn law_poster_resets_client(
    s: AppModel,
    client_id: Seq<char>,
    cue: CueModel,
    lead_ms: u64,
    now_ms: u64,
)
    requires
        state::connected(s.clients, client_id),
    ensures
        ({
            let t = after_poster_all(s, seq![client_id]);
            let i = state::row_index(t.clients, client_id);
            let sent = go_commands(t.clients[i].layers, cue, lead_ms, now_ms);
            &&& i < t.clients.len()
            &&& t.clients[i].layers == LayerModel::idle()
            &&& sent.len() == 2
            &&& sent[0] == ControllerMsgModel::LoadCue(protocol::load_of(cue, Layer::A))
            &&& sent[1] == ControllerMsgModel::PlayAt(
                PlayAt {
                    layer: Layer::A,
                    master_start_utc_ms: clock::capped(now_ms + lead_ms),
                    fade_in_ms: cue.fade_in_ms,
                    crossfade_ms: None,
                },
            )
        }),
{
    let ids = seq![client_id];
    assert(ids.drop_last() =~= Seq::<Seq<char>>::empty());
    assert(after_poster_all(s, ids.drop_last()) == s);
    let t = after_poster_all(s, ids);
    state::lemma_row_index(s.clients, client_id);
    assert(roster_kept(s, t));
    lemma_roster_kept(s, t, client_id);
}

/// A cue that ignores the clients it excludes sends them nothing and leaves
/// them as they were.
pub proof fn law_ignore_sends_nothing(
    s: AppModel,
    cue: CueModel,
    excluded: Seq<Seq<char>>,
    lead_ms: u64,
    now_ms: u64,
)
    requires
        cue.exclude_action == ExcludeAction::Ignore,
    ensures
        after_exclude(s, cue, excluded, lead_ms, now_ms) == s,
        exclude_messages(s, cue, excluded, lead_ms, now_ms).len() == 0,
{
}

/// Firing a cue for a list of clients sends messages to connected clients of the
/// list and to no one else, and has each of them play.
pub proof fn law_go_all_reaches_listed_clients(
    s: AppModel,
    cue: CueModel,
    ids: Seq<Seq<char>>,
    lead_ms: u64,
    now_ms: u64,
)
    ensures
        ({
            let sent = go_all_messages(s, cue, ids, lead_ms, now_ms);
            &&& forall|k: int|
                0 <= k < sent.len() ==> ids.contains((#[trigger] sent[k]).client_id)
                    && state::connected(s.clients, sent[k].client_id)
            &&& forall|id: Seq<char>| #[trigger]
                ids.contains(id) && state::connected(s.clients, id) ==> exists|k: int|
                    0 <= k < sent.len() && (#[trigger] sent[k]).client_id == id
                        && sent[k].msg is PlayAt
        }),
    decreases ids.len(),
{
    if ids.len() > 0 {
        let front = ids.drop_last();
        let last = ids.last();
        let t = after_go_all(s, cue, front, lead_ms, now_ms);
        let sent_before = go_all_messages(s, cue, front, lead_ms, now_ms);
        let sent_last = go_messages(t, cue, last, lead_ms, now_ms);
        let sent = go_all_messages(s, cue, ids, lead_ms, now_ms);
        law_go_all_reaches_listed_clients(s, cue, front, lead_ms, now_ms);
        law_go_all_touches_listed_clients(s, cue, front, lead_ms, now_ms);
        lemma_roster_kept(s, t, last);
        assert(sent =~= sent_before + sent_last);
        assert forall|k: int| 0 <= k < sent.len() implies ids.contains(
            (#[trigger] sent[k]).client_id,
        ) && state::connected(s.clients, sent[k].client_id) by {
            if k < sent_before.len() {
                assert(sent[k] == sent_before[k]);
                let j = choose|j: int| 0 <= j < front.len() && front[j] == sent_before[k].client_id;
                assert(ids[j] == front[j]);
            } else {
                assert(sent[k] == sent_last[k - sent_before.len()]);
                assert(ids[ids.len() - 1] == last);
            }
        }
        assert forall|id: Seq<char>| #[trigger]
            ids.contains(id) && state::connected(s.clients, id) implies exists|k: int|
            0 <= k < sent.len() && (#[trigger] sent[k]).client_id == id && sent[k].msg is PlayAt by {
            if id == last {
                let k = sent.len() - 1;
                assert(sent_last.len() > 0);
                assert(sent[k] == sent_last[sent_last.len() - 1]);
                assert(sent[k].client_id == id && sent[k].msg is PlayAt);
            } else {
                let j = choose|j: int| 0 <= j < ids.len() && ids[j] == id;
                assert(front[j] == id);
                assert(front.contains(id));
                let k = choose|k: int|
                    0 <= k < sent_before.len() && (#[trigger] sent_before[k]).client_id == id
                        && sent_before[k].msg is PlayAt;
                assert(sent[k] == sent_before[k]);
            }
        }
    }
}

proof fn lemma_go_all_plays(
    s: AppModel,
    cue: CueModel,
    ids: Seq<Seq<char>>,
    lead_ms: u64,
    now_ms: u64,
    id: Seq<char>,
)
    requires
        ids.contains(id),
        state::connected(s.clients, id),
    ensures
        layers_of(after_go_all(s, cue, ids, lead_ms, now_ms), id).now_playing == Some(cue.id),
    decreases ids.len(),
{
    let front = ids.drop_last();
    let t = after_go_all(s, cue, front, lead_ms, now_ms);
    let u = after_go(t, cue, ids.last(), lead_ms, now_ms);
    law_go_all_touches_listed_clients(s, cue, front, lead_ms, now_ms);
    lemma_roster_kept(s, t, id);
    law_go_touches_one_client(t, cue, ids.last(), lead_ms, now_ms);
    lemma_roster_kept(t, u, id);
    state::lemma_row_index(t.clients, id);
    if ids.last() != id {
        let k = choose|k: int| 0 <= k < ids.len() && ids[k] == id;
        assert(front[k] == id);
        lemma_go_all_plays(s, cue, front, lead_ms, now_ms, id);
        law_go_elsewhere_keeps_row(t, cue, ids.last(), id, lead_ms, now_ms);
    }
}

/// Excluding clients by a colour is a GO, for each of them in turn, of a cue
/// that is all default but for the cue's id and fade-in, and shows the exclude
/// colour, or black where the cue names none. The cue's id then plays there.
pub proof fn law_color_exclusion_is_a_go(
    s: AppModel,
    cue: CueModel,
    excluded: Seq<Seq<char>>,
    lead_ms: u64,
    now_ms: u64,
)
    requires
        cue.exclude_action == ExcludeAction::Color,
    ensures
        ({
            let shown = CueModel {
                id: cue.id,
                kind: CueKind::Color,
                color: Some(
                    match cue.exclude_color {
                        Some(c) => c,
                        None => "#000000"@,
                    },
                ),
                fade_in_ms: cue.fade_in_ms,
                ..CueModel::blank()
            };
            let t = after_exclude(s, cue, excluded, lead_ms, now_ms);
            &&& t == after_go_all(s, shown, excluded, lead_ms, now_ms)
            &&& exclude_messages(s, cue, excluded, lead_ms, now_ms) == go_all_messages(
                s,
                shown,
                excluded,
                lead_ms,
                now_ms,
            )
            &&& forall|id: Seq<char>| #[trigger]
                excluded.contains(id) && state::connected(s.clients, id) ==> layers_of(
                    t,
                    id,
                ).now_playing == Some(cue.id)
        }),
{
    assert forall|id: Seq<char>| #[trigger]
        excluded.contains(id) && state::connected(s.clients, id) implies layers_of(
        after_exclude(s, cue, excluded, lead_ms, now_ms),
        id,
    ).now_playing == Some(cue.id) by {
        lemma_go_all_plays(s, color_cue_of(cue), excluded, lead_ms, now_ms, id);
    }
}

proof fn lemma_poster_keeps_clients(s: AppModel, ids: Seq<Seq<char>>)
    ensures
        roster_kept(s, after_poster_all(s, ids)),
    decreases ids.len(),
{
    if ids.len() > 0 {
        let t = after_poster_all(s, ids.drop_last());
        lemma_poster_keeps_clients(s, ids.drop_last());
        state::lemma_row_index(t.clients, ids.last());
        assert(roster_kept(t, after_poster_all(s, ids)));
        lemma_roster_kept_trans(s, t, after_poster_all(s, ids));
    }
}

/// Whatever a cue does to the clients it excludes, no client is added, dropped
/// or renamed.
pub proof fn law_exclude_keeps_clients(
    s: AppModel,
    cue: CueModel,
    excluded: Seq<Seq<char>>,
    lead_ms: u64,
    now_ms: u64,
)
    ensures
        roster_kept(s, after_exclude(s, cue, excluded, lead_ms, now_ms)),
{
    match cue.exclude_action {
        ExcludeAction::Ignore => {},
        ExcludeAction::Poster => {
            lemma_poster_keeps_clients(s, excluded);
        },
        ExcludeAction::Color => {
            law_go_all_touches_listed_clients(s, color_cue_of(cue), excluded, lead_ms, now_ms);
        },
    }
}

/// What a GO does for a connected client, whose row is the first of its id: it
/// plays on the layer that is not on air (A where none is), starting `lead_ms`
/// from now, and crossfades over the cue's fade-in where something was on air.
/// The cue comes first, as it stands in the show, unless it is the one preloaded
/// on that very layer. The row then says so, and the log tells.
pub proof fn law_go_plays_the_cue(
    s: AppModel,
    cue: CueModel,
    i: int,
    lead_ms: u64,
    now_ms: u64,
)
    requires
        0 <= i < s.clients.len(),
        forall|k: int| 0 <= k < i ==> (#[trigger] s.clients[k]).client_id != s.clients[i].client_id,
    ensures
        ({
            let id = s.clients[i].client_id;
            let had = s.clients[i].layers;
            let t = after_go(s, cue, id, lead_ms, now_ms);
            let has = t.clients[i].layers;
            let sent = go_messages(s, cue, id, lead_ms, now_ms);
            let layer = if had.active_layer == Some(Layer::A) {
                Layer::B
            } else {
                Layer::A
            };
            let ready = had.standby == Some(StandbyModel { cue_id: cue.id, layer });
            let start = now_ms + lead_ms;
            let free = now_ms + lead_ms + cue.fade_in_ms + 300;
            &&& forall|k: int| 0 <= k < sent.len() ==> (#[trigger] sent[k]).client_id == id
            &&& sent.len() == if ready {
                1nat
            } else {
                2nat
            }
            &&& !ready ==> {
                &&& sent[0].msg matches ControllerMsgModel::LoadCue(l)
                &&& l.layer == layer
                &&& l.cue_id == cue.id
                &&& l.kind == cue.kind
                &&& l.file == cue.file
                &&& l.color == cue.color
                &&& l.fade_in_ms == cue.fade_in_ms
                &&& l.in_ms == cue.in_ms
                &&& l.out_ms == cue.out_ms
                &&& l.loops == cue.loops
                &&& l.on_end == cue.on_end
            }
            &&& sent.last().msg matches ControllerMsgModel::PlayAt(p) && {
                &&& p.layer == layer
                &&& p.master_start_utc_ms == if start <= u64::MAX {
                    start
                } else {
                    u64::MAX as int
                }
                &&& p.fade_in_ms == cue.fade_in_ms
                &&& had.now_playing is None ==> p.crossfade_ms is None
                &&& had.now_playing is Some ==> p.crossfade_ms == Some(cue.fade_in_ms)
            }
            &&& has.active_layer == Some(layer)
            &&& has.standby is None
            &&& has.now_playing == Some(cue.id)
            &&& had.now_playing is None ==> has.idle_free_utc_ms == 0
            &&& had.now_playing is Some ==> has.idle_free_utc_ms == if free <= u64::MAX {
                free
            } else {
                u64::MAX as int
            }
            &&& t.log_lines.len() > 0
            &&& t.log_lines.last() == "GO cue "@ + cue.id + " → "@ + id + " on layer "@ + (
            if layer == Layer::A {
                "A"@
            } else {
                "B"@
            }) + if ready {
                " (preloaded)"@
            } else {
                " (cold load)"@
            }
        }),
{
    state::lemma_row_index_is(s.clients, s.clients[i].client_id, i);
}

/// A GO for a client that is not connected sends nothing and changes nothing.
pub proof fn law_go_needs_a_client(
    s: AppModel,
    cue: CueModel,
    client_id: Seq<char>,
    lead_ms: u64,
    now_ms: u64,
)
    requires
        forall|k: int| 0 <= k < s.clients.len() ==> (#[trigger] s.clients[k]).client_id
            != client_id,
    ensures
        after_go(s, cue, client_id, lead_ms, now_ms) == s,
        go_messages(s, cue, client_id, lead_ms, now_ms).len() == 0,
        after_standby(s, cue, client_id, now_ms) == s,
        standby_messages(s, cue, client_id, now_ms).len() == 0,
{
    state::lemma_row_index_is(s.clients, client_id, s.clients.len() as int);
}

/// What a STANDBY does for a connected client, whose row is the first of its id.
/// Where the layer of its next GO (the one not on air, A where none is) is free
/// and does not hold this cue, exactly one message goes out: STANDBY of the cue
/// for that layer, whatever was preloaded before. The row records it, and
/// records nothing that was not sent. Otherwise nothing is sent or changed.
pub proof fn law_standby_preloads_the_cue(s: AppModel, cue: CueModel, i: int, now_ms: u64)
    requires
        0 <= i < s.clients.len(),
        forall|k: int| 0 <= k < i ==> (#[trigger] s.clients[k]).client_id != s.clients[i].client_id,
    ensures
        ({
            let id = s.clients[i].client_id;
            let had = s.clients[i].layers;
            let t = after_standby(s, cue, id, now_ms);
            let sent = standby_messages(s, cue, id, now_ms);
            let layer = if had.active_layer == Some(Layer::A) {
                Layer::B
            } else {
                Layer::A
            };
            let ready = had.standby == Some(StandbyModel { cue_id: cue.id, layer });
            &&& now_ms >= had.idle_free_utc_ms && !ready ==> {
                &&& sent.len() == 1
                &&& sent[0].client_id == id
                &&& sent[0].msg matches ControllerMsgModel::Standby(l) && {
                    &&& l.layer == layer
                    &&& l.cue_id == cue.id
                    &&& l.kind == cue.kind
                    &&& l.file == cue.file
                    &&& l.color == cue.color
                    &&& l.fade_in_ms == cue.fade_in_ms
                    &&& l.in_ms == cue.in_ms
                    &&& l.out_ms == cue.out_ms
                    &&& l.loops == cue.loops
                    &&& l.on_end == cue.on_end
                }
                &&& t.clients[i].layers.standby == Some(StandbyModel { cue_id: cue.id, layer })
                &&& t.clients[i].layers.active_layer == had.active_layer
                &&& t.clients[i].layers.now_playing == had.now_playing
                &&& t.clients[i].layers.idle_free_utc_ms == had.idle_free_utc_ms
                &&& t.log_lines.len() > 0
                &&& t.log_lines.last() == "STANDBY cue "@ + cue.id + " → "@ + id + " on layer "@
                    + if layer == Layer::A {
                    "A"@
                } else {
                    "B"@
                }
            }
            &&& now_ms < had.idle_free_utc_ms || ready ==> sent.len() == 0 && t == s
            &&& t.clients[i].layers.standby != had.standby ==> {
                &&& sent.len() == 1
                &&& sent[0].msg matches ControllerMsgModel::Standby(l)
                &&& t.clients[i].layers.standby == Some(
                    StandbyModel { cue_id: l.cue_id, layer: l.layer },
                )
            }
        }),
{
    state::lemma_row_index_is(s.clients, s.clients[i].client_id, i);
}

proof fn lemma_to_connected_only(
    rows: Seq<RowModel>,
    ids: Seq<Seq<char>>,
    msg: ControllerMsgModel,
    k: int,
)
    requires
        0 <= k < to_connected(rows, ids, msg).len(),
    ensures
        to_connected(rows, ids, msg)[k].msg == msg,
        ids.contains(to_connected(rows, ids, msg)[k].client_id),
        exists|i: int|
            0 <= i < rows.len() && (#[trigger] rows[i]).client_id == to_connected(
                rows,
                ids,
                msg,
            )[k].client_id,
    decreases ids.len(),
{
    let sent = to_connected(rows, ids, msg);
    let front = ids.drop_last();
    let before = to_connected(rows, front, msg);
    let last = ids.last();
    assert(ids[ids.len() - 1] == last);
    if k < before.len() {
        lemma_to_connected_only(rows, front, msg, k);
        assert(sent[k] == before[k]);
        let m = choose|m: int| 0 <= m < front.len() && front[m] == before[k].client_id;
        assert(ids[m] == front[m]);
    } else {
        state::lemma_row_index(rows, last);
        assert(rows[state::row_index(rows, last)].client_id == sent[k].client_id);
    }
}

proof fn lemma_to_connected_each(
    rows: Seq<RowModel>,
    ids: Seq<Seq<char>>,
    msg: ControllerMsgModel,
    i: int,
) -> (k: int)
    requires
        0 <= i < rows.len(),
        ids.contains(rows[i].client_id),
    ensures
        0 <= k < to_connected(rows, ids, msg).len(),
        to_connected(rows, ids, msg)[k].client_id == rows[i].client_id,
    decreases ids.len(),
{
    let sent = to_connected(rows, ids, msg);
    let front = ids.drop_last();
    let before = to_connected(rows, front, msg);
    if rows[i].client_id == ids.last() {
        state::lemma_row_index(rows, ids.last());
        sent.len() - 1
    } else {
        let m = choose|m: int| 0 <= m < ids.len() && ids[m] == rows[i].client_id;
        assert(front[m] == rows[i].client_id);
        let k = lemma_to_connected_each(rows, front, msg, i);
        assert(sent[k] == before[k]);
        k
    }
}

proof fn lemma_to_connected_once(
    rows: Seq<RowModel>,
    ids: Seq<Seq<char>>,
    msg: ControllerMsgModel,
    a: int,
    b: int,
)
    requires
        ids.no_duplicates(),
        0 <= a < b < to_connected(rows, ids, msg).len(),
    ensures
        to_connected(rows, ids, msg)[a].client_id != to_connected(rows, ids, msg)[b].client_id,
    decreases ids.len(),
{
    let sent = to_connected(rows, ids, msg);
    let front = ids.drop_last();
    let before = to_connected(rows, front, msg);
    assert(sent[a] == before[a]);
    if b < before.len() {
        assert(sent[b] == before[b]);
        lemma_to_connected_once(rows, front, msg, a, b);
    } else {
        lemma_to_connected_only(rows, front, msg, a);
        let m = choose|m: int| 0 <= m < front.len() && front[m] == before[a].client_id;
        assert(ids[m] == front[m]);
        assert(ids[m] != ids[ids.len() - 1]);
    }
}

proof fn lemma_poster_rows(s: AppModel, ids: Seq<Seq<char>>, i: int)
    requires
        s.wf(),
        0 <= i < s.clients.len(),
    ensures
        after_poster_all(s, ids).clients.len() == s.clients.len(),
        after_poster_all(s, ids).clients[i].layers == if ids.contains(s.clients[i].client_id) {
            LayerModel::idle()
        } else {
            s.clients[i].layers
        },
    decreases ids.len(),
{
    if ids.len() > 0 {
        let front = ids.drop_last();
        let last = ids.last();
        let t = after_poster_all(s, front);
        lemma_poster_rows(s, front, i);
        lemma_poster_keeps_clients(s, front);
        lemma_roster_kept(s, t, last);
        state::lemma_row_index(s.clients, last);
        let j = state::row_index(s.clients, last);
        assert(ids[ids.len() - 1] == last);
        if front.contains(s.clients[i].client_id) {
            let m = choose|m: int| 0 <= m < front.len() && front[m] == s.clients[i].client_id;
            assert(ids[m] == front[m]);
        } else if ids.contains(s.clients[i].client_id) {
            let m = choose|m: int| 0 <= m < ids.len() && ids[m] == s.clients[i].client_id;
            if m < front.len() {
                assert(front[m] == ids[m]);
            }
        }
        if s.clients[i].client_id == last && j != i {
            if j < i {
                assert(s.clients[j].client_id != s.clients[i].client_id);
            } else {
                assert(s.clients[i].client_id != last);
            }
        }
    }
}

/// A cue that sends the clients it excludes to the poster fades each of them
/// that is connected, over the default fade time, tells no one twice and sends
/// nothing else. Each of them then has nothing on air and nothing preloaded, and
/// every other client is left as it was.
pub proof fn law_poster_fades_every_excluded(
    s: AppModel,
    cue: CueModel,
    excluded: Seq<Seq<char>>,
    lead_ms: u64,
    now_ms: u64,
)
    requires
        s.wf(),
        cue.exclude_action == ExcludeAction::Poster,
    ensures
        ({
            let fade = ControllerMsgModel::Fade(FadeCmd { duration_ms: DEFAULT_FADE_MS });
            let sent = exclude_messages(s, cue, excluded, lead_ms, now_ms);
            let t = after_exclude(s, cue, excluded, lead_ms, now_ms);
            &&& forall|i: int|
                0 <= i < s.clients.len() && excluded.contains((#[trigger] s.clients[i]).client_id)
                    ==> exists|k: int|
                    0 <= k < sent.len() && (#[trigger] sent[k]).client_id == s.clients[i].client_id
                        && sent[k].msg == fade
            &&& forall|k: int|
                0 <= k < sent.len() ==> (#[trigger] sent[k]).msg == fade && excluded.contains(
                    sent[k].client_id,
                ) && exists|i: int|
                    0 <= i < s.clients.len() && (#[trigger] s.clients[i]).client_id
                        == sent[k].client_id
            &&& excluded.no_duplicates() ==> forall|a: int, b: int|
                0 <= a < b < sent.len() ==> (#[trigger] sent[a]).client_id != (
                #[trigger] sent[b]).client_id
            &&& t.clients.len() == s.clients.len()
            &&& t.log_lines == s.log_lines
            &&& DEFAULT_FADE_MS == 1500
            &&& forall|i: int|
                0 <= i < s.clients.len() ==> {
                    let has = (#[trigger] t.clients[i]).layers;
                    &&& t.clients[i].client_id == s.clients[i].client_id
                    &&& excluded.contains(s.clients[i].client_id) ==> {
                        &&& has.active_layer is None
                        &&& has.standby is None
                        &&& has.idle_free_utc_ms == 0
                        &&& has.now_playing is None
                    }
                    &&& !excluded.contains(s.clients[i].client_id) ==> has == s.clients[i].layers
                }
        }),
{
    let fade = ControllerMsgModel::Fade(FadeCmd { duration_ms: DEFAULT_FADE_MS });
    let sent = exclude_messages(s, cue, excluded, lead_ms, now_ms);
    let t = after_exclude(s, cue, excluded, lead_ms, now_ms);
    lemma_poster_keeps_clients(s, excluded);
    lemma_poster_keeps_log(s, excluded);
    assert forall|i: int|
        0 <= i < s.clients.len() && excluded.contains((#[trigger] s.clients[i]).client_id) implies exists|
        k: int,
    |
        0 <= k < sent.len() && (#[trigger] sent[k]).client_id == s.clients[i].client_id
            && sent[k].msg == fade by {
        let k = lemma_to_connected_each(s.clients, excluded, fade, i);
        lemma_to_connected_only(s.clients, excluded, fade, k);
        assert(sent[k].client_id == s.clients[i].client_id);
    }
    assert forall|k: int| 0 <= k < sent.len() implies (#[trigger] sent[k]).msg == fade
        && excluded.contains(sent[k].client_id) && exists|i: int|
        0 <= i < s.clients.len() && (#[trigger] s.clients[i]).client_id == sent[k].client_id by {
        lemma_to_connected_only(s.clients, excluded, fade, k);
    }
    if excluded.no_duplicates() {
        assert forall|a: int, b: int| 0 <= a < b < sent.len() implies (
        #[trigger] sent[a]).client_id != (#[trigger] sent[b]).client_id by {
            lemma_to_connected_once(s.clients, excluded, fade, a, b);
        }
    }
    assert forall|i: int| 0 <= i < s.clients.len() implies {
        let has = (#[trigger] t.clients[i]).layers;
        &&& t.clients[i].client_id == s.clients[i].client_id
        &&& excluded.contains(s.clients[i].client_id) ==> {
            &&& has.active_layer is None
            &&& has.standby is None
            &&& has.idle_free_utc_ms == 0
            &&& has.now_playing is None
        }
        &&& !excluded.contains(s.clients[i].client_id) ==> has == s.clients[i].layers
    } by {
        lemma_poster_rows(s, excluded, i);
    }
}

proof fn lemma_poster_keeps_log(s: AppModel, ids: Seq<Seq<char>>)
    ensures
        after_poster_all(s, ids).log_lines == s.log_lines,
    decreases ids.len(),
{
    if ids.len() > 0 {
        lemma_poster_keeps_log(s, ids.drop_last());
    }
}

/// The messages that go to one client, in order.
pub open spec fn sent_to(sent: Seq<OutgoingModel>, id: Seq<char>) -> Seq<OutgoingModel> {
    sent.filter(|m: OutgoingModel| m.client_id == id)
}

/// Messages that all go to one client are all that it gets, and no other client
/// gets any of them.
pub proof fn lemma_sent_to_one(sent: Seq<OutgoingModel>, to: Seq<char>, id: Seq<char>)
    requires
        forall|k: int| 0 <= k < sent.len() ==> (#[trigger] sent[k]).client_id == to,
    ensures
        sent_to(sent, id) == if to == id {
            sent
        } else {
            Seq::empty()
        },
    decreases sent.len(),
{
    reveal(Seq::filter);
    if sent.len() > 0 {
        let front = sent.drop_last();
        assert(sent[sent.len() - 1].client_id == to);
        assert forall|k: int| 0 <= k < front.len() implies (#[trigger] front[k]).client_id
            == to by {
            assert(sent[k].client_id == to);
        }
        lemma_sent_to_one(front, to, id);
        assert(sent =~= front.push(sent.last()));
        if to != id {
            assert(sent_to(sent, id) =~= Seq::empty());
        }
    } else {
        assert(sent_to(sent, id) =~= Seq::empty());
        assert(sent =~= Seq::empty());
    }
}

/// Of two batches of messages a client gets its part of the one, then of the
/// other.
pub proof fn lemma_sent_to_both(a: Seq<OutgoingModel>, b: Seq<OutgoingModel>, id: Seq<char>)
    ensures
        sent_to(a + b, id) == sent_to(a, id) + sent_to(b, id),
{
    Seq::<OutgoingModel>::filter_distributes_over_add(
        a,
        b,
        |m: OutgoingModel| m.client_id == id,
    );
}

/// On a list that names no one twice, the last one is not among those before, and
/// everyone is the last one or among those before.
pub proof fn lemma_last_listed(ids: Seq<Seq<char>>, id: Seq<char>)
    requires
        ids.len() > 0,
        ids.no_duplicates(),
    ensures
        ids.drop_last().no_duplicates(),
        !ids.drop_last().contains(ids.last()),
        ids.contains(id) <==> id == ids.last() || ids.drop_last().contains(id),
{
    let front = ids.drop_last();
    assert(ids[ids.len() - 1] == ids.last());
    if front.contains(ids.last()) {
        let m = choose|m: int| 0 <= m < front.len() && front[m] == ids.last();
        assert(ids[m] == ids[ids.len() - 1]);
    }
    if ids.contains(id) && id != ids.last() {
        let m = choose|m: int| 0 <= m < ids.len() && ids[m] == id;
        assert(front[m] == id);
    }
    if front.contains(id) {
        let m = choose|m: int| 0 <= m < front.len() && front[m] == id;
        assert(ids[m] == id);
    }
}

/// A GO for a list of clients, none of them listed twice, is for each connected
/// client on the list what a GO for that client alone is, and for any other
/// client nothing at all.
pub proof fn law_go_all_is_a_go_for_each(
    s: AppModel,
    cue: CueModel,
    ids: Seq<Seq<char>>,
    lead_ms: u64,
    now_ms: u64,
    i: int,
)
    requires
        s.wf(),
        ids.no_duplicates(),
        0 <= i < s.clients.len(),
    ensures
        ({
            let id = s.clients[i].client_id;
            let sent = sent_to(go_all_messages(s, cue, ids, lead_ms, now_ms), id);
            let t = after_go_all(s, cue, ids, lead_ms, now_ms);
            &&& ids.contains(id) ==> {
                &&& sent == go_messages(s, cue, id, lead_ms, now_ms)
                &&& t.clients[i] == after_go(s, cue, id, lead_ms, now_ms).clients[i]
            }
            &&& !ids.contains(id) ==> sent.len() == 0 && t.clients[i] == s.clients[i]
        }),
    decreases ids.len(),
{
    let id = s.clients[i].client_id;
    assert forall|k: int| 0 <= k < i implies (#[trigger] s.clients[k]).client_id != id by {
        assert(s.clients[k].client_id != s.clients[i].client_id);
    }
    state::lemma_row_index_is(s.clients, id, i);
    if ids.len() == 0 {
        lemma_sent_to_one(Seq::empty(), id, id);
    } else {
        let front = ids.drop_last();
        let last = ids.last();
        lemma_last_listed(ids, id);
        let t = after_go_all(s, cue, front, lead_ms, now_ms);
        let u = after_go(t, cue, last, lead_ms, now_ms);
        law_go_all_is_a_go_for_each(s, cue, front, lead_ms, now_ms, i);
        law_go_all_touches_listed_clients(s, cue, front, lead_ms, now_ms);
        lemma_roster_kept(s, t, id);
        lemma_roster_kept(s, t, last);
        law_go_touches_one_client(t, cue, last, lead_ms, now_ms);
        let sent_before = go_all_messages(s, cue, front, lead_ms, now_ms);
        let sent_last = go_messages(t, cue, last, lead_ms, now_ms);
        lemma_sent_to_both(sent_before, sent_last, id);
        lemma_sent_to_one(sent_last, last, id);
        if last == id {
            assert(sent_to(sent_before, id) + sent_last =~= sent_last);
            assert(sent_last =~= go_messages(s, cue, id, lead_ms, now_ms));
        } else {
            state::lemma_row_index(t.clients, last);
            assert(sent_to(sent_before, id) + Seq::<OutgoingModel>::empty() =~= sent_to(
                sent_before,
                id,
            ));
        }
    }
}

/// What a cue's exclude action is for one client, when no one is listed twice:
/// nothing, for a client that is not listed or that the cue ignores; a fade over
/// the default time and idle layers, for the poster; a GO of the colour cue, for
/// a colour.
pub proof fn law_exclude_action_for_each(
    s: AppModel,
    cue: CueModel,
    excluded: Seq<Seq<char>>,
    lead_ms: u64,
    now_ms: u64,
    i: int,
)
    requires
        s.wf(),
        excluded.no_duplicates(),
        0 <= i < s.clients.len(),
    ensures
        ({
            let id = s.clients[i].client_id;
            let sent = sent_to(exclude_messages(s, cue, excluded, lead_ms, now_ms), id);
            let t = after_exclude(s, cue, excluded, lead_ms, now_ms);
            let shown = CueModel {
                id: cue.id,
                kind: CueKind::Color,
                color: Some(
                    match cue.exclude_color {
                        Some(c) => c,
                        None => "#000000"@,
                    },
                ),
                fade_in_ms: cue.fade_in_ms,
                ..CueModel::blank()
            };
            if excluded.contains(id) && cue.exclude_action == ExcludeAction::Poster {
                &&& sent.len() == 1
                &&& sent[0].client_id == id
                &&& sent[0].msg == ControllerMsgModel::Fade(
                    FadeCmd { duration_ms: DEFAULT_FADE_MS },
                )
                &&& t.clients[i].layers.active_layer is None
                &&& t.clients[i].layers.standby is None
                &&& t.clients[i].layers.idle_free_utc_ms == 0
                &&& t.clients[i].layers.now_playing is None
            } else if excluded.contains(id) && cue.exclude_action == ExcludeAction::Color {
                &&& sent == go_messages(s, shown, id, lead_ms, now_ms)
                &&& t.clients[i] == after_go(s, shown, id, lead_ms, now_ms).clients[i]
            } else {
                &&& sent.len() == 0
                &&& t.clients[i] == s.clients[i]
            }
        }),
{
    let id = s.clients[i].client_id;
    match cue.exclude_action {
        ExcludeAction::Ignore => {
            lemma_sent_to_one(Seq::empty(), id, id);
        },
        ExcludeAction::Poster => {
            lemma_to_connected_sent_to(s.clients, excluded, i);
            lemma_poster_rows(s, excluded, i);
            lemma_poster_keeps_clients(s, excluded);
        },
        ExcludeAction::Color => {
            law_go_all_is_a_go_for_each(s, color_cue_of(cue), excluded, lead_ms, now_ms, i);
        },
    }
}

proof fn lemma_to_connected_sent_to(rows: Seq<RowModel>, ids: Seq<Seq<char>>, i: int)
    requires
        ids.no_duplicates(),
        0 <= i < rows.len(),
    ensures
        ({
            let fade = ControllerMsgModel::Fade(FadeCmd { duration_ms: DEFAULT_FADE_MS });
            let id = rows[i].client_id;
            sent_to(to_connected(rows, ids, fade), id) =~= if ids.contains(id) {
                seq![OutgoingModel { client_id: id, msg: fade }]
            } else {
                Seq::empty()
            }
        }),
    decreases ids.len(),
{
    let fade = ControllerMsgModel::Fade(FadeCmd { duration_ms: DEFAULT_FADE_MS });
    let id = rows[i].client_id;
    if ids.len() == 0 {
        lemma_sent_to_one(Seq::empty(), id, id);
    } else {
        let front = ids.drop_last();
        let last = ids.last();
        lemma_last_listed(ids, id);
        lemma_to_connected_sent_to(rows, front, i);
        state::lemma_row_index(rows, last);
        let before = to_connected(rows, front, fade);
        let one = seq![OutgoingModel { client_id: last, msg: fade }];
        assert(before.push(OutgoingModel { client_id: last, msg: fade }) =~= before + one);
        lemma_sent_to_both(before, one, id);
        lemma_sent_to_one(one, last, id);
        if last == id {
            assert(rows[i].client_id == last);
            assert(state::row_index(rows, last) <= i);
        }
    }
}

/// A GO for a list of clients, none of them listed twice, deals with them in the
/// order of the list: what one of them is told comes before what any later one
/// is.
pub proof fn law_go_all_in_list_order(
    s: AppModel,
    cue: CueModel,
    ids: Seq<Seq<char>>,
    lead_ms: u64,
    now_ms: u64,
    a: int,
    b: int,
    p: int,
    q: int,
)
    requires
        ids.no_duplicates(),
        0 <= a < b < ids.len(),
        0 <= p < go_all_messages(s, cue, ids, lead_ms, now_ms).len(),
        0 <= q < go_all_messages(s, cue, ids, lead_ms, now_ms).len(),
        go_all_messages(s, cue, ids, lead_ms, now_ms)[p].client_id == ids[a],
        go_all_messages(s, cue, ids, lead_ms, now_ms)[q].client_id == ids[b],
    ensures
        p < q,
    decreases ids.len(),
{
    let front = ids.drop_last();
    let last = ids.last();
    let t = after_go_all(s, cue, front, lead_ms, now_ms);
    let sent = go_all_messages(s, cue, ids, lead_ms, now_ms);
    let before = go_all_messages(s, cue, front, lead_ms, now_ms);
    let more = go_messages(t, cue, last, lead_ms, now_ms);
    lemma_last_listed(ids, last);
    law_go_touches_one_client(t, cue, last, lead_ms, now_ms);
    law_go_all_reaches_listed_clients(s, cue, front, lead_ms, now_ms);
    assert(ids[a] != ids[ids.len() - 1]);
    if p >= before.len() {
        assert(sent[p] == more[p - before.len()]);
    }
    assert(sent[p] == before[p]);
    if q < before.len() {
        assert(sent[q] == before[q]);
        if b == front.len() {
            assert(front.contains(before[q].client_id));
        }
        law_go_all_in_list_order(s, cue, front, lead_ms, now_ms, a, b, p, q);
    }
}

/// A cue's exclude action tells no one but the clients it is for.
pub proof fn lemma_exclude_tells_excluded(
    s: AppModel,
    cue: CueModel,
    excluded: Seq<Seq<char>>,
    lead_ms: u64,
    now_ms: u64,
    k: int,
)
    requires
        0 <= k < exclude_messages(s, cue, excluded, lead_ms, now_ms).len(),
    ensures
        excluded.contains(exclude_messages(s, cue, excluded, lead_ms, now_ms)[k].client_id),
{
    match cue.exclude_action {
        ExcludeAction::Ignore => {},
        ExcludeAction::Poster => {
            lemma_to_connected_only(
                s.clients,
                excluded,
                ControllerMsgModel::Fade(FadeCmd { duration_ms: DEFAULT_FADE_MS }),
                k,
            );
        },
        ExcludeAction::Color => {
            law_go_all_reaches_listed_clients(s, color_cue_of(cue), excluded, lead_ms, now_ms);
        },
    }
}

} // verus!
