//! What a CueMesh2 controller keeps: the show, the connected clients and its
//! log.

use vstd::prelude::*;

use super::protocol::{ClientState, ControllerMsg, ControllerMsgModel};
use super::show::{ShowFile, ShowFileModel};
use crate::logbook;
use crate::logbook::push_bounded;
use crate::text::same_text;

verus! {

/// How many log lines the controller keeps.
pub const LOG_CAP: usize = 500;

/// A connected client from the controller's point of view.
#[derive(Debug, PartialEq, Eq)]
pub struct ClientRow {
    pub client_id: String,
    pub name: String,
    pub addr: String,
    pub state: ClientState,
    pub current_cue: Option<String>,
    pub position_ms: u64,
    pub last_drift_ms: Option<i64>,
    pub last_heartbeat_ms: u64,
}

/// The model of a [`ClientRow`].
#[verifier::ext_equal]
pub struct RowModel {
    pub client_id: Seq<char>,
    pub name: Seq<char>,
    pub addr: Seq<char>,
    pub state: ClientState,
    pub current_cue: Option<Seq<char>>,
    pub position_ms: u64,
    pub last_drift_ms: Option<i64>,
    pub last_heartbeat_ms: u64,
}

impl DeepView for ClientRow {
    type V = RowModel;

    open spec fn deep_view(&self) -> RowModel {
        RowModel {
            client_id: self.client_id@,
            name: self.name@,
            addr: self.addr@,
            state: self.state,
            current_cue: self.current_cue.deep_view(),
            position_ms: self.position_ms,
            last_drift_ms: self.last_drift_ms,
            last_heartbeat_ms: self.last_heartbeat_ms,
        }
    }
}

/// Everything the controller keeps.
#[derive(Debug)]
pub struct AppState {
    pub show: Option<ShowFile>,
    pub show_path: Option<String>,
    pub selected_cue_idx: Option<usize>,
    /// The connected clients; no two rows have the same id.
    pub clients: Vec<ClientRow>,
    /// The ids of clients that are turned away.
    pub blacklist: Vec<String>,
    /// Log lines shown in the window. Bounded: the oldest entries drop.
    pub log_lines: Vec<String>,
}

/// The model of an [`AppState`].
#[verifier::ext_equal]
pub struct ControllerModel {
    pub show: Option<ShowFileModel>,
    pub show_path: Option<Seq<char>>,
    pub selected_cue_idx: Option<usize>,
    pub clients: Seq<RowModel>,
    pub blacklist: Seq<Seq<char>>,
    pub log_lines: Seq<Seq<char>>,
}

impl View for AppState {
    type V = ControllerModel;

    open spec fn view(&self) -> ControllerModel {
        ControllerModel {
            show: self.show.deep_view(),
            show_path: self.show_path.deep_view(),
            selected_cue_idx: self.selected_cue_idx,
            clients: self.clients.deep_view(),
            blacklist: self.blacklist.deep_view(),
            log_lines: self.log_lines.deep_view(),
        }
    }
}

impl ControllerModel {
    /// The state of a controller that has just started.
    pub open spec fn fresh() -> ControllerModel {
        ControllerModel {
            show: None,
            show_path: None,
            selected_cue_idx: None,
            clients: Seq::empty(),
            blacklist: Seq::empty(),
            log_lines: Seq::empty(),
        }
    }

    /// No two connected clients share an id.
    pub open spec fn wf(self) -> bool {
        forall|i: int, j: int|
            0 <= i < j < self.clients.len() ==> (#[trigger] self.clients[i]).client_id != (
            #[trigger] self.clients[j]).client_id
    }

    /// The state after one more log line.
    pub open spec fn with_log(self, line: Seq<char>) -> ControllerModel {
        ControllerModel { log_lines: logbook::logged(self.log_lines, line, LOG_CAP as nat), ..self }
    }
}

impl Default for AppState {
    fn default() -> (r: Self)
        ensures
            r@ == ControllerModel::fresh(),
            r@.wf(),
            r.show is None,
            r.show_path is None,
            r.selected_cue_idx is None,
            r.clients@.len() == 0,
            r.blacklist@.len() == 0,
            r.log_lines@.len() == 0,
    {
        let r = AppState {
            show: None,
            show_path: None,
            selected_cue_idx: None,
            clients: Vec::new(),
            blacklist: Vec::new(),
            log_lines: Vec::new(),
        };
        assert(r@ =~= ControllerModel::fresh());
        r
    }
}

impl AppState {
    /// Add a line to the log.
    pub fn push_log(&mut self, line: String)
        ensures
            final(self)@ == old(self)@.with_log(line@),
    {
        push_bounded(&mut self.log_lines, line, LOG_CAP);
    }
}

/// The index of the row with this id, or the number of rows if there is none.
pub open spec fn row_index(rows: Seq<RowModel>, id: Seq<char>) -> int
    decreases rows.len(),
{
    if rows.len() == 0 {
        0
    } else {
        let before = row_index(rows.drop_last(), id);
        if before < rows.len() - 1 {
            before
        } else if rows.last().client_id == id {
            rows.len() - 1
        } else {
            rows.len() as int
        }
    }
}

/// `row_index` finds the first row of the id, if any row has it.
pub proof fn lemma_row_index(rows: Seq<RowModel>, id: Seq<char>)
    ensures
        0 <= row_index(rows, id) <= rows.len(),
        row_index(rows, id) < rows.len() ==> rows[row_index(rows, id)].client_id == id,
        forall|k: int| 0 <= k < row_index(rows, id) ==> (#[trigger] rows[k]).client_id != id,
    decreases rows.len(),
{
    if rows.len() > 0 {
        let front = rows.drop_last();
        lemma_row_index(front, id);
        assert forall|k: int| 0 <= k < row_index(rows, id) implies (
        #[trigger] rows[k]).client_id != id by {
            if k < front.len() {
                assert(front[k] == rows[k]);
            }
        }
    }
}

/// The index of the row with this id, or the number of rows if there is none.
pub fn find_row(rows: &Vec<ClientRow>, id: &str) -> (r: usize)
    ensures
        r == row_index(rows.deep_view(), id@),
        r <= rows.len(),
{
    let ghost model = rows.deep_view();
    let mut i: usize = 0;
    while i < rows.len() && !same_text(rows[i].client_id.as_str(), id)
        invariant
            0 <= i <= rows.len(),
            model == rows.deep_view(),
            forall|k: int| 0 <= k < i ==> (#[trigger] model[k]).client_id != id@,
        decreases rows.len() - i,
    {
        assert(model[i as int].client_id == rows@[i as int].client_id@);
        i = i + 1;
    }
    proof {
        lemma_row_index(model, id@);
        let j = row_index(model, id@);
        if j < i {
            assert(model[j].client_id != id@);
        }
        if i < j {
            assert(model[i as int].client_id == id@);
        }
    }
    i
}

/// The roster with a client's row replaced, or added at the end.
pub open spec fn with_row(rows: Seq<RowModel>, row: RowModel) -> Seq<RowModel> {
    let i = row_index(rows, row.client_id);
    if i < rows.len() {
        rows.update(i, row)
    } else {
        rows.push(row)
    }
}

/// The roster without a client's row.
pub open spec fn without_row(rows: Seq<RowModel>, id: Seq<char>) -> Seq<RowModel> {
    let i = row_index(rows, id);
    if i < rows.len() {
        rows.remove(i)
    } else {
        rows
    }
}

/// Put a client's row into the roster, in place of the one it had.
pub fn put_row(rows: &mut Vec<ClientRow>, row: ClientRow)
    ensures
        final(rows).deep_view() == with_row(old(rows).deep_view(), row.deep_view()),
{
    let ghost before = rows.deep_view();
    let ghost model = row.deep_view();
    let k: usize = find_row(rows, row.client_id.as_str());
    if k < rows.len() {
        rows[k] = row;
    } else {
        rows.push(row);
    }
    assert(rows.deep_view() =~= with_row(before, model));
}

/// Take a client's row out of the roster.
pub fn remove_row(rows: &mut Vec<ClientRow>, id: &str)
    ensures
        final(rows).deep_view() == without_row(old(rows).deep_view(), id@),
{
    let ghost before = rows.deep_view();
    let k: usize = find_row(rows, id);
    if k < rows.len() {
        rows.remove(k);
    }
    assert(rows.deep_view() =~= without_row(before, id@));
}

/// A client that was put into the roster is there once, and no longer after it
/// was taken out; a roster of distinct ids stays one.
pub proof fn law_roster(s: ControllerModel, row: RowModel)
    requires
        s.wf(),
    ensures
        ({
            let joined = ControllerModel { clients: with_row(s.clients, row), ..s };
            let left = ControllerModel {
                clients: without_row(joined.clients, row.client_id),
                ..joined
            };
            &&& joined.wf()
            &&& left.wf()
            &&& row_index(joined.clients, row.client_id) < joined.clients.len()
            &&& joined.clients[row_index(joined.clients, row.client_id)] == row
            &&& row_index(left.clients, row.client_id) == left.clients.len()
        }),
{
    lemma_row_index(s.clients, row.client_id);
    let joined = with_row(s.clients, row);
    let i = row_index(s.clients, row.client_id);
    assert forall|a: int, b: int| 0 <= a < b < joined.len() implies (
    #[trigger] joined[a]).client_id != (#[trigger] joined[b]).client_id by {
        if b < s.clients.len() {
            assert(s.clients[a].client_id != s.clients[b].client_id);
        }
    }
    lemma_row_index(joined, row.client_id);
    let j = row_index(joined, row.client_id);
    assert(joined[i] == row);
    if j < i {
        assert(joined[j].client_id != joined[i].client_id);
    }
    if i < j {
        assert(joined[i].client_id != row.client_id);
    }
    let left = without_row(joined, row.client_id);
    assert forall|a: int, b: int| 0 <= a < b < left.len() implies (
    #[trigger] left[a]).client_id != (#[trigger] left[b]).client_id by {
        let x = if a < j { a } else { a + 1 };
        let y = if b < j { b } else { b + 1 };
        assert(left[a] == joined[x] && left[b] == joined[y]);
        assert(joined[x].client_id != joined[y].client_id);
    }
    lemma_row_index(left, row.client_id);
    let k = row_index(left, row.client_id);
    if k < left.len() {
        let z = if k < j { k } else { k + 1 };
        assert(left[k] == joined[z]);
        if z < j {
            assert(joined[z].client_id != joined[j].client_id);
        } else {
            assert(joined[j].client_id != joined[z].client_id);
        }
    }
}

/// A message and the client it goes to.
#[derive(Debug, PartialEq, Eq)]
pub struct Outgoing {
    pub client_id: String,
    pub msg: ControllerMsg,
}

/// The model of an [`Outgoing`].
#[verifier::ext_equal]
pub struct OutgoingModel {
    pub client_id: Seq<char>,
    pub msg: ControllerMsgModel,
}

impl DeepView for Outgoing {
    type V = OutgoingModel;

    open spec fn deep_view(&self) -> OutgoingModel {
        OutgoingModel { client_id: self.client_id@, msg: self.msg@ }
    }
}

/// The same message to every connected client.
pub open spec fn to_all(rows: Seq<RowModel>, msg: ControllerMsgModel) -> Seq<OutgoingModel> {
    rows.map_values(|r: RowModel| OutgoingModel { client_id: r.client_id, msg })
}

/// Address a message to every connected client.
pub fn broadcast(rows: &Vec<ClientRow>, msg: &ControllerMsg) -> (r: Vec<Outgoing>)
    ensures
        r.deep_view() == to_all(rows.deep_view(), msg@),
        r@.len() == rows@.len(),
        forall|k: int|
            0 <= k < r@.len() ==> (#[trigger] r@[k]).client_id@ == rows@[k].client_id@ && r@[k].msg@
                == msg@,
{
    let mut out: Vec<Outgoing> = Vec::new();
    let mut i: usize = 0;
    while i < rows.len()
        invariant
            0 <= i <= rows.len(),
            out@.len() == i,
            forall|k: int|
                0 <= k < i ==> (#[trigger] out@[k]).deep_view() == (OutgoingModel {
                    client_id: rows@[k].client_id@,
                    msg: msg@,
                }),
        decreases rows.len() - i,
    {
        out.push(Outgoing { client_id: rows[i].client_id.clone(), msg: msg.clone() });
        i = i + 1;
    }
    assert(out.deep_view() =~= to_all(rows.deep_view(), msg@));
    out
}

/// A message to everyone goes to each connected client once, in roster order.
pub proof fn law_broadcast_reaches_everyone(rows: Seq<RowModel>, msg: ControllerMsgModel)
    ensures
        to_all(rows, msg).len() == rows.len(),
        forall|i: int|
            0 <= i < rows.len() ==> (#[trigger] to_all(rows, msg)[i]).client_id
                == rows[i].client_id && to_all(rows, msg)[i].msg == msg,
{
}

/// Putting in a row replaces the first of its id, in its place, or adds one at
/// the end where there was none; taking one out drops the first of its id. All
/// other rows stay, in order.
pub proof fn law_roster_others(rows: Seq<RowModel>, row: RowModel, i: int)
    requires
        0 <= i <= rows.len(),
        forall|k: int| 0 <= k < i ==> (#[trigger] rows[k]).client_id != row.client_id,
        i < rows.len() ==> rows[i].client_id == row.client_id,
    ensures
        ({
            let put = with_row(rows, row);
            let out = without_row(rows, row.client_id);
            &&& put.len() == if i < rows.len() {
                rows.len()
            } else {
                rows.len() + 1
            }
            &&& put[i] == row
            &&& forall|k: int| 0 <= k < rows.len() && k != i ==> #[trigger] put[k] == rows[k]
            &&& i == rows.len() ==> out == rows
            &&& i < rows.len() ==> {
                &&& out.len() == rows.len() - 1
                &&& forall|k: int| 0 <= k < i ==> #[trigger] out[k] == rows[k]
                &&& forall|k: int| i <= k < out.len() ==> #[trigger] out[k] == rows[k + 1]
            }
        }),
{
    lemma_row_index(rows, row.client_id);
    let j = row_index(rows, row.client_id);
    if j < i {
        assert(rows[j].client_id != row.client_id);
    }
    if i < j {
        assert(rows[i].client_id != row.client_id);
    }
}

/// The log holds the last 500 lines: a line more drops none until there are that
/// many, and then the oldest.
pub proof fn law_log_holds_its_lines(s: ControllerModel, line: Seq<char>)
    ensures
        s.log_lines.len() < 500 ==> s.with_log(line).log_lines == s.log_lines.push(line),
        s.log_lines.len() == 500 ==> s.with_log(line).log_lines == s.log_lines.skip(1).push(line),
        s.with_log(line) == (ControllerModel { log_lines: s.with_log(line).log_lines, ..s }),
{
    if s.log_lines.len() == 500 {
        assert(s.log_lines.push(line).skip(1) =~= s.log_lines.skip(1).push(line));
    }
}

} // verus!
