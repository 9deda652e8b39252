//! What the controller knows: the running show, the connected clients, the
//! clients it has ever seen, and its log.

use vstd::prelude::*;

use crate::known_clients::{KnownEntry, KnownEntryModel};
use crate::logbook;
use crate::logbook::push_bounded;
use crate::protocol::{ClientState, Layer};
use crate::show::{ShowFile, ShowFileModel};
use crate::text::same_text;

verus! {

/// How many log lines the controller keeps.
pub const LOG_CAP: usize = 500;

/// Whether a client has a media file of the show.
#[derive(Debug, Clone, Copy, PartialEq, Eq, Structural)]
pub enum MediaFileStatus {
    Present,
    Missing,
    /// The file is there but is not the one the show means.
    Mismatch,
}

/// How far a client's software update has come.
#[derive(Debug, PartialEq, Eq)]
pub enum ClientUpdate {
    Idle,
    Pushing,
    /// This version is staged and can be applied.
    Staged(String),
    Applying,
    Failed(String),
}

/// The result of the media check for one file.
#[derive(Debug, PartialEq, Eq)]
pub struct PreflightEntry {
    pub path: String,
    pub status: MediaFileStatus,
}

/// How much of a media file has reached a client.
#[derive(Debug, PartialEq, Eq)]
pub struct PushProgress {
    pub path: String,
    pub received: u64,
    pub total: u64,
}

/// A cue that a client has preloaded, and the layer it is on.
#[derive(Debug, PartialEq, Eq)]
pub struct StandbySlot {
    pub cue_id: String,
    pub layer: Layer,
}

/// The model of a [`StandbySlot`].
#[verifier::ext_equal]
pub struct StandbyModel {
    pub cue_id: Seq<char>,
    pub layer: Layer,
}

impl DeepView for StandbySlot {
    type V = StandbyModel;

    open spec fn deep_view(&self) -> StandbyModel {
        StandbyModel { cue_id: self.cue_id@, layer: self.layer }
    }
}

/// A client's place in the two-layer crossfade, as the controller sees it.
///
/// A client that a cue excludes does not advance with the rest of the fleet,
/// so each client has its own.
#[derive(Debug)]
pub struct LayerState {
    /// The layer on air.
    pub active_layer: Option<Layer>,
    /// What is preloaded for the next GO.
    pub standby: Option<StandbySlot>,
    /// Until when the layer that is not on air is still fading out.
    pub idle_free_utc_ms: u64,
    /// The id of the cue on air.
    pub now_playing: Option<String>,
}

/// The model of a [`LayerState`].
#[verifier::ext_equal]
pub struct LayerModel {
    pub active_layer: Option<Layer>,
    pub standby: Option<StandbyModel>,
    pub idle_free_utc_ms: u64,
    pub now_playing: Option<Seq<char>>,
}

impl LayerModel {
    /// Nothing on air and nothing preloaded.
    pub open spec fn idle() -> LayerModel {
        LayerModel { active_layer: None, standby: None, idle_free_utc_ms: 0, now_playing: None }
    }
}

impl View for LayerState {
    type V = LayerModel;

    open spec fn view(&self) -> LayerModel {
        LayerModel {
            active_layer: self.active_layer,
            standby: self.standby.deep_view(),
            idle_free_utc_ms: self.idle_free_utc_ms,
            now_playing: self.now_playing.deep_view(),
        }
    }
}

impl LayerState {
    /// Nothing on air and nothing preloaded.
    pub fn idle() -> (r: Self)
        ensures
            r@ == LayerModel::idle(),
    {
        LayerState { active_layer: None, standby: None, idle_free_utc_ms: 0, now_playing: None }
    }
}

/// A connected client from the controller's point of view.
#[derive(Debug)]
pub struct ClientRow {
    pub client_id: String,
    pub name: String,
    pub layers: LayerState,
    pub status: ClientStatus,
}

/// What the roster shows of a client besides its name: none of it takes part
/// in cue dispatch.
#[derive(Debug)]
pub struct ClientStatus {
    pub addr: String,
    pub state: ClientState,
    pub current_cue: Option<String>,
    pub position_ms: u64,
    pub offset_ms: Option<i64>,
    pub last_drift_ms: Option<i64>,
    pub last_heartbeat_ms: u64,
    pub app_version: String,
    pub target_triple: String,
    pub update: ClientUpdate,
    pub preflight: Vec<PreflightEntry>,
    pub push_progress: Option<PushProgress>,
}

/// The model of a [`ClientRow`].
#[verifier::ext_equal]
pub struct RowModel {
    pub client_id: Seq<char>,
    pub name: Seq<char>,
    pub layers: LayerModel,
    pub status: ClientStatus,
}

impl DeepView for ClientRow {
    type V = RowModel;

    open spec fn deep_view(&self) -> RowModel {
        RowModel {
            client_id: self.client_id@,
            name: self.name@,
            layers: self.layers@,
            status: self.status,
        }
    }
}

/// Where the operator is in the show.
#[derive(Debug, Clone, Copy, PartialEq, Eq, Structural)]
pub struct RunState {
    pub playing_cue_idx: Option<usize>,
}

/// Everything the controller keeps.
#[derive(Debug)]
pub struct AppState {
    pub show: Option<ShowFile>,
    pub show_path: Option<String>,
    pub selected_cue_idx: Option<usize>,
    pub run: RunState,
    /// The connected clients; no two rows have the same id.
    pub clients: Vec<ClientRow>,
    /// Every client ever seen or named; no two entries have the same id.
    pub known_clients: Vec<KnownEntry>,
    /// The media files found on this machine, once they have been looked for.
    pub local_media: Option<Vec<String>>,
    /// Log lines shown in the window. Bounded: the oldest entries drop.
    pub log_lines: Vec<String>,
}

/// The model of an [`AppState`].
#[verifier::ext_equal]
pub struct AppModel {
    pub show: Option<ShowFileModel>,
    pub show_path: Option<Seq<char>>,
    pub selected_cue_idx: Option<usize>,
    pub run: RunState,
    pub clients: Seq<RowModel>,
    pub known_clients: Seq<KnownEntryModel>,
    pub local_media: Option<Seq<Seq<char>>>,
    pub log_lines: Seq<Seq<char>>,
}

impl View for AppState {
    type V = AppModel;

    open spec fn view(&self) -> AppModel {
        AppModel {
            show: self.show.deep_view(),
            show_path: self.show_path.deep_view(),
            selected_cue_idx: self.selected_cue_idx,
            run: self.run,
            clients: self.clients.deep_view(),
            known_clients: self.known_clients.deep_view(),
            local_media: self.local_media.deep_view(),
            log_lines: self.log_lines.deep_view(),
        }
    }
}

/// The index of the row with this id, or the number of rows if there is none.
pub open spec fn row_index(rows: Seq<RowModel>, id: Seq<char>) -> int
    decreases rows.len(),
{
    if rows.len() == 0 {
        0
    } else {
        let before = row_index(rows.drop_last(), id);
        if before < rows.len() - 1 {
            before
        } else if rows.last().client_id == id {
            rows.len() - 1
        } else {
            rows.len() as int
        }
    }
}

/// Is a client of this id connected?
pub open spec fn connected(rows: Seq<RowModel>, id: Seq<char>) -> bool {
    row_index(rows, id) < rows.len()
}

/// No two rows have the same id.
pub open spec fn distinct_rows(rows: Seq<RowModel>) -> bool {
    forall|i: int, j: int|
        0 <= i < j < rows.len() ==> (#[trigger] rows[i]).client_id != (#[trigger] rows[j]).client_id
}

/// The ids of the rows, in roster order.
pub open spec fn row_ids(rows: Seq<RowModel>) -> Seq<Seq<char>> {
    rows.map_values(|r: RowModel| r.client_id)
}

/// `row_index` finds the first row of the id, if any row has it.
pub proof fn lemma_row_index(rows: Seq<RowModel>, id: Seq<char>)
    ensures
        0 <= row_index(rows, id) <= rows.len(),
        row_index(rows, id) < rows.len() ==> rows[row_index(rows, id)].client_id == id,
        forall|k: int| 0 <= k < row_index(rows, id) ==> (#[trigger] rows[k]).client_id != id,
    decreases rows.len(),
{
    if rows.len() > 0 {
        let front = rows.drop_last();
        lemma_row_index(front, id);
        assert forall|k: int| 0 <= k < row_index(rows, id) implies (
        #[trigger] rows[k]).client_id != id by {
            if k < front.len() {
                assert(front[k] == rows[k]);
            }
        }
    }
}

/// The first row of an id is at its index.
pub proof fn lemma_row_index_is(rows: Seq<RowModel>, id: Seq<char>, i: int)
    requires
        0 <= i <= rows.len(),
        forall|k: int| 0 <= k < i ==> (#[trigger] rows[k]).client_id != id,
        i < rows.len() ==> rows[i].client_id == id,
    ensures
        row_index(rows, id) == i,
{
    lemma_row_index(rows, id);
    let j = row_index(rows, id);
    if j < i {
        assert(rows[j].client_id != id);
    }
    if i < j {
        assert(rows[i].client_id != id);
    }
}

/// The index of the row with this id, or the number of rows if there is none.
pub fn find_row(rows: &Vec<ClientRow>, id: &str) -> (r: usize)
    ensures
        r == row_index(rows.deep_view(), id@),
        r <= rows.len(),
{
    let ghost model = rows.deep_view();
    let mut i: usize = 0;
    while i < rows.len() && !same_text(rows[i].client_id.as_str(), id)
        invariant
            0 <= i <= rows.len(),
            model == rows.deep_view(),
            forall|k: int| 0 <= k < i ==> (#[trigger] model[k]).client_id != id@,
        decreases rows.len() - i,
    {
        i = i + 1;
    }
    proof {
        if i < rows.len() {
            assert(model[i as int].client_id == id@);
        }
        lemma_row_index_is(model, id@, i as int);
    }
    i
}

/// The ids of the rows, in roster order.
pub fn client_ids(rows: &Vec<ClientRow>) -> (r: Vec<String>)
    ensures
        r.deep_view() == row_ids(rows.deep_view()),
{
    let mut r: Vec<String> = Vec::new();
    let mut i: usize = 0;
    while i < rows.len()
        invariant
            0 <= i <= rows.len(),
            r@.len() == i,
            forall|k: int| 0 <= k < i ==> (#[trigger] r@[k])@ == rows@[k].client_id@,
        decreases rows.len() - i,
    {
        r.push(rows[i].client_id.clone());
        i = i + 1;
    }
    assert(r.deep_view() =~= row_ids(rows.deep_view()));
    r
}

/// Every row with its layers idle.
pub open spec fn rows_reset(rows: Seq<RowModel>) -> Seq<RowModel> {
    rows.map_values(|r: RowModel| RowModel { layers: LayerModel::idle(), ..r })
}

impl AppModel {
    /// No two connected clients share an id.
    pub open spec fn wf(self) -> bool {
        distinct_rows(self.clients)
    }

    /// The state after one more log line.
    pub open spec fn with_log(self, line: Seq<char>) -> AppModel {
        AppModel { log_lines: logbook::logged(self.log_lines, line, LOG_CAP as nat), ..self }
    }

    /// The state with the row at `i` replaced.
    pub open spec fn with_row(self, i: int, row: RowModel) -> AppModel {
        AppModel { clients: self.clients.update(i, row), ..self }
    }

    /// The state of a controller that has just started.
    pub open spec fn fresh() -> AppModel {
        AppModel {
            show: None,
            show_path: None,
            selected_cue_idx: None,
            run: RunState { playing_cue_idx: None },
            clients: Seq::empty(),
            known_clients: Seq::empty(),
            local_media: None,
            log_lines: Seq::empty(),
        }
    }
}

impl AppState {
    /// The state of a controller that has just started.
    pub fn new() -> (r: Self)
        ensures
            r@ == AppModel::fresh(),
            r@.wf(),
            r.show is None,
            r.show_path is None,
            r.selected_cue_idx is None,
            r.run.playing_cue_idx is None,
            r.clients@.len() == 0,
            r.known_clients@.len() == 0,
            r.local_media is None,
            r.log_lines@.len() == 0,
    {
        let r = AppState {
            show: None,
            show_path: None,
            selected_cue_idx: None,
            run: RunState { playing_cue_idx: None },
            clients: Vec::new(),
            known_clients: Vec::new(),
            local_media: None,
            log_lines: Vec::new(),
        };
        assert(r@ =~= AppModel::fresh());
        r
    }

    /// Add a line to the log.
    pub fn push_log(&mut self, line: String)
        ensures
            final(self)@ == old(self)@.with_log(line@),
    {
        push_bounded(&mut self.log_lines, line, LOG_CAP);
    }

    /// Forget what every client has on air and preloaded.
    pub fn reset_client_layers(&mut self)
        ensures
            final(self)@ == (AppModel { clients: rows_reset(old(self)@.clients), ..old(self)@ }),
    {
        let ghost before = self@;
        let ghost target = rows_reset(before.clients);
        let mut i: usize = 0;
        while i < self.clients.len()
            invariant
                0 <= i <= self.clients.len(),
                self@.clients.len() == before.clients.len(),
                target == rows_reset(before.clients),
                self@ == (AppModel { clients: self@.clients, ..before }),
                forall|k: int| 0 <= k < i ==> (#[trigger] self@.clients[k]) == target[k],
                forall|k: int|
                    i <= k < self@.clients.len() ==> (#[trigger] self@.clients[k])
                        == before.clients[k],
            decreases self.clients.len() - i,
        {
            let ghost prev = self@.clients;
            self.clients[i].layers = LayerState::idle();
            proof {
                assert(self@.clients =~= prev.update(
                    i as int,
                    RowModel { layers: LayerModel::idle(), ..prev[i as int] },
                ));
            }
            i = i + 1;
        }
        assert(self@.clients =~= target);
    }
}

/// The log holds the last 500 lines: a line more drops none until there are that
/// many, and then the oldest.
pub proof fn law_log_holds_its_lines(s: AppModel, line: Seq<char>)
    ensures
        s.log_lines.len() < 500 ==> s.with_log(line).log_lines == s.log_lines.push(line),
        s.log_lines.len() == 500 ==> s.with_log(line).log_lines == s.log_lines.skip(1).push(line),
        s.with_log(line) == (AppModel { log_lines: s.with_log(line).log_lines, ..s }),
{
    if s.log_lines.len() == 500 {
        assert(s.log_lines.push(line).skip(1) =~= s.log_lines.skip(1).push(line));
    }
}

} // verus!
