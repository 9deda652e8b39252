//! The controller's side of a connection: letting a client in, taking up what
//! it reports, and letting it go.

use vstd::prelude::*;

use super::controller;
use super::controller::{
    broadcast, find_row, put_row, remove_row, AppState, ClientRow, ControllerModel, Outgoing,
    RowModel,
};
use super::protocol::{
    ClientMsg, ClientMsgModel, ClientState, ControllerMsg, ControllerMsgModel, Hello, HelloAck,
    SyncPing,
};
use crate::clock;
use crate::clock::{compute_offset, now_utc_ms};
use crate::text::{contains_text, copy_option};

verus! {

/// The name under which the controller greets its clients.
pub open spec fn controller_name() -> Seq<char> {
    "cuemesh2-controller"@
}

/// How far a connection has come.
#[derive(Debug, PartialEq, Eq)]
pub enum Phase {
    /// No greeting has come yet.
    Waiting,
    /// The client of this id is in.
    Joined { client_id: String },
    Over,
}

/// What arrived on a connection.
#[derive(Debug, PartialEq, Eq)]
pub enum Frame {
    /// A text, as a message or as the complaint about it.
    Text(Result<ClientMsg, String>),
    /// A ping; it is answered in kind.
    Ping,
    Close,
    /// Reading failed.
    Broken(String),
    /// The stream ended.
    Ended,
    Other,
}

/// What is to be done on a connection.
#[derive(Debug, PartialEq, Eq)]
pub enum Reply {
    Nothing,
    /// Answer the ping.
    Pong,
    /// Greet the client.
    Greet(ControllerMsg),
    /// Give the connection up, with an error that is worth a log line.
    Fail(String),
}

/// The row of a client that has just come in.
pub open spec fn new_row(
    client_id: Seq<char>,
    name: Seq<char>,
    addr: Seq<char>,
    now_ms: u64,
) -> RowModel {
    RowModel {
        client_id,
        name,
        addr,
        state: ClientState::Idle,
        current_cue: None,
        position_ms: 0,
        last_drift_ms: None,
        last_heartbeat_ms: now_ms,
    }
}

/// The controller's state after a client came in.
pub open spec fn after_join(
    s: ControllerModel,
    client_id: Seq<char>,
    name: Seq<char>,
    addr: Seq<char>,
    now_ms: u64,
) -> ControllerModel {
    ControllerModel {
        clients: controller::with_row(s.clients, new_row(client_id, name, addr, now_ms)),
        ..s
    }.with_log("client "@ + name + " ("@ + client_id + ") joined from "@ + addr)
}

/// The controller's answer to a greeting.
pub fn hello_ack(protocol_version: u32) -> (r: ControllerMsg)
    ensures
        r@ == (ControllerMsgModel::HelloAck {
            controller_name: controller_name(),
            protocol_version,
        }),
        match r {
            ControllerMsg::HelloAck(a) => {
                &&& a.controller_name@ == "cuemesh2-controller"@
                &&& a.protocol_version == protocol_version
            },
            _ => false,
        },
{
    ControllerMsg::HelloAck(
        HelloAck { controller_name: "cuemesh2-controller".to_owned(), protocol_version },
    )
}

/// Let a client in that greeted from `addr` at `now_ms`, unless it is
/// blacklisted.
pub fn let_in(
    state: &mut AppState,
    hello: &Hello,
    addr: &str,
    now_ms: u64,
    protocol_version: u32,
) -> (r: (Phase, Reply))
    ensures
        if old(state)@.blacklist.contains(hello.client_id@) {
            &&& final(state)@ == old(state)@.with_log(
                "rejecting blacklisted client "@ + hello.client_id@,
            )
            &&& r.0 is Over
            &&& r.1 is Nothing
        } else {
            &&& final(state)@ == after_join(
                old(state)@,
                hello.client_id@,
                hello.name@,
                addr@,
                now_ms,
            )
            &&& r.0 matches Phase::Joined { client_id } && client_id@ == hello.client_id@
            &&& r.1 matches Reply::Greet(m) && m@ == (ControllerMsgModel::HelloAck {
                controller_name: controller_name(),
                protocol_version,
            })
        },
{
    let ghost before = state@;
    if contains_text(&state.blacklist, hello.client_id.as_str()) {
        state.push_log(
            "rejecting blacklisted client ".to_owned().concat(hello.client_id.as_str()),
        );
        return (Phase::Over, Reply::Nothing);
    }
    put_row(
        &mut state.clients,
        ClientRow {
            client_id: hello.client_id.clone(),
            name: hello.name.clone(),
            addr: addr.to_owned(),
            state: ClientState::Idle,
            current_cue: None,
            position_ms: 0,
            last_drift_ms: None,
            last_heartbeat_ms: now_ms,
        },
    );
    assert(state@ =~= ControllerModel {
        clients: controller::with_row(
            before.clients,
            new_row(hello.client_id@, hello.name@, addr@, now_ms),
        ),
        ..before
    });
    state.push_log(
        "client ".to_owned().concat(hello.name.as_str()).concat(" (").concat(
            hello.client_id.as_str(),
        ).concat(") joined from ").concat(addr),
    );
    (Phase::Joined { client_id: hello.client_id.clone() }, Reply::Greet(hello_ack(protocol_version)))
}

/// The row of a client after a message of its.
pub open spec fn row_after(row: RowModel, msg: ClientMsgModel, now_ms: u64) -> RowModel {
    match msg {
        ClientMsgModel::Status(s) => RowModel {
            state: s.state,
            current_cue: s.current_cue_id,
            position_ms: s.position_ms,
            ..row
        },
        ClientMsgModel::Drift { drift_ms } => RowModel { last_drift_ms: Some(drift_ms), ..row },
        ClientMsgModel::Heartbeat => RowModel { last_heartbeat_ms: now_ms, ..row },
        ClientMsgModel::SyncReply(reply) => RowModel {
            last_drift_ms: Some(
                clock::offset_of(
                    reply.t1_utc_ms,
                    reply.t2_local_ms,
                    reply.t3_local_ms,
                    now_ms,
                ) as i64,
            ),
            ..row
        },
        _ => row,
    }
}

/// The controller's state after a message of a client. Of a client that is not
/// in the roster only log lines are taken.
pub open spec fn after_client_msg(
    s: ControllerModel,
    client_id: Seq<char>,
    msg: ClientMsgModel,
    now_ms: u64,
) -> ControllerModel {
    match msg {
        ClientMsgModel::Log { level, source, message } => s.with_log(
            "["@ + client_id + "]["@ + level.label() + "] "@ + source + ": "@ + message,
        ),
        _ => {
            let i = controller::row_index(s.clients, client_id);
            if i < s.clients.len() {
                ControllerModel {
                    clients: s.clients.update(i, row_after(s.clients[i], msg, now_ms)),
                    ..s
                }
            } else {
                s
            }
        },
    }
}

/// Take up a message of a client at `now_ms`.
pub fn handle_client_msg(state: &mut AppState, client_id: &str, msg: &ClientMsg, now_ms: u64)
    ensures
        final(state)@ == after_client_msg(old(state)@, client_id@, msg@, now_ms),
{
    let ghost before = state@;
    if let ClientMsg::Log(l) = msg {
        state.push_log(
            "[".to_owned().concat(client_id).concat("][").concat(l.level.name()).concat(
                "] ",
            ).concat(l.source.as_str()).concat(": ").concat(l.message.as_str()),
        );
        return;
    }
    let k: usize = find_row(&state.clients, client_id);
    if k < state.clients.len() {
        assert(before.clients[k as int] == state.clients@[k as int].deep_view());
        match msg {
            ClientMsg::Status(s) => {
                state.clients[k].state = s.state;
                state.clients[k].current_cue = copy_option(&s.current_cue_id);
                state.clients[k].position_ms = s.position_ms;
            },
            ClientMsg::Drift { drift_ms } => {
                state.clients[k].last_drift_ms = Some(*drift_ms);
            },
            ClientMsg::Heartbeat => {
                state.clients[k].last_heartbeat_ms = now_ms;
            },
            ClientMsg::SyncReply(reply) => {
                state.clients[k].last_drift_ms = Some(
                    compute_offset(
                        reply.t1_utc_ms,
                        reply.t2_local_ms,
                        reply.t3_local_ms,
                        now_ms,
                    ),
                );
            },
            _ => {},
        }
        assert(state@.clients =~= before.clients.update(
            k as int,
            row_after(before.clients[k as int], msg@, now_ms),
        ));
    }
}

/// The controller's state after a client left.
pub open spec fn after_leave(s: ControllerModel, client_id: Seq<char>) -> ControllerModel {
    ControllerModel { clients: controller::without_row(s.clients, client_id), ..s }.with_log(
        "client "@ + client_id + " left"@,
    )
}

/// Let a client go.
pub fn leave(state: &mut AppState, client_id: &str)
    ensures
        final(state)@ == after_leave(old(state)@, client_id@),
{
    let ghost before = state@;
    remove_row(&mut state.clients, client_id);
    assert(state@ =~= ControllerModel {
        clients: controller::without_row(before.clients, client_id@),
        ..before
    });
    state.push_log("client ".to_owned().concat(client_id).concat(" left"));
}

/// Take up a frame while no greeting has come yet. A message that cannot be
/// read, or a failure to read, ends the connection with an error; anything but
/// a greeting is passed over.
pub fn wait_frame(
    state: &mut AppState,
    frame: &Frame,
    addr: &str,
    now_ms: u64,
    protocol_version: u32,
) -> (r: (Phase, Reply))
    ensures
        match frame {
            Frame::Text(Ok(ClientMsg::Hello(h))) => if old(state)@.blacklist.contains(
                h.client_id@,
            ) {
                &&& final(state)@ == old(state)@.with_log(
                    "rejecting blacklisted client "@ + h.client_id@,
                )
                &&& r.0 is Over
                &&& r.1 is Nothing
            } else {
                &&& final(state)@ == after_join(
                    old(state)@,
                    h.client_id@,
                    h.name@,
                    addr@,
                    now_ms,
                )
                &&& r.0 matches Phase::Joined { client_id } && client_id@ == h.client_id@
                &&& r.1 matches Reply::Greet(m) && m@ == (ControllerMsgModel::HelloAck {
                    controller_name: controller_name(),
                    protocol_version,
                })
            },
            Frame::Text(Err(e)) => {
                &&& final(state)@ == old(state)@
                &&& r.0 is Over
                &&& r.1 matches Reply::Fail(f) && f@ == e@
            },
            Frame::Broken(e) => {
                &&& final(state)@ == old(state)@
                &&& r.0 is Over
                &&& r.1 matches Reply::Fail(f) && f@ == e@
            },
            Frame::Ended => final(state)@ == old(state)@ && r.0 is Over && r.1 is Nothing,
            Frame::Ping => final(state)@ == old(state)@ && r.0 is Waiting && r.1 is Pong,
            _ => final(state)@ == old(state)@ && r.0 is Waiting && r.1 is Nothing,
        },
{
    match frame {
        Frame::Text(Ok(ClientMsg::Hello(h))) => let_in(state, h, addr, now_ms, protocol_version),
        Frame::Text(Ok(_)) => (Phase::Waiting, Reply::Nothing),
        Frame::Text(Err(e)) => (Phase::Over, Reply::Fail(e.clone())),
        Frame::Broken(e) => (Phase::Over, Reply::Fail(e.clone())),
        Frame::Ended => (Phase::Over, Reply::Nothing),
        Frame::Ping => (Phase::Waiting, Reply::Pong),
        Frame::Close => (Phase::Waiting, Reply::Nothing),
        Frame::Other => (Phase::Waiting, Reply::Nothing),
    }
}

/// Take up a frame of a client that is in. Returns whether more frames are to be
/// read.
pub fn client_frame(state: &mut AppState, client_id: &str, frame: &Frame, now_ms: u64) -> (r: bool)
    ensures
        match frame {
            Frame::Text(Ok(m)) => r && final(state)@ == after_client_msg(
                old(state)@,
                client_id@,
                m@,
                now_ms,
            ),
            Frame::Text(Err(e)) => r && final(state)@ == old(state)@.with_log(
                "bad json from "@ + client_id@ + ": "@ + e@,
            ),
            Frame::Broken(e) => !r && final(state)@ == old(state)@.with_log(
                "read error "@ + client_id@ + ": "@ + e@,
            ),
            Frame::Close => !r && final(state)@ == old(state)@,
            Frame::Ended => !r && final(state)@ == old(state)@,
            _ => r && final(state)@ == old(state)@,
        },
{
    match frame {
        Frame::Text(Ok(m)) => {
            handle_client_msg(state, client_id, m, now_ms);
            true
        },
        Frame::Text(Err(e)) => {
            state.push_log(
                "bad json from ".to_owned().concat(client_id).concat(": ").concat(e.as_str()),
            );
            true
        },
        Frame::Broken(e) => {
            state.push_log(
                "read error ".to_owned().concat(client_id).concat(": ").concat(e.as_str()),
            );
            false
        },
        Frame::Close => false,
        Frame::Ended => false,
        Frame::Ping => true,
        Frame::Other => true,
    }
}

/// Note that the controller listens at an address.
pub fn listening(state: &mut AppState, bind: &str)
    ensures
        final(state)@ == old(state)@.with_log("listening on "@ + bind@),
{
    state.push_log("listening on ".to_owned().concat(bind));
}

/// Note that a connection was given up.
pub fn connection_failed(state: &mut AppState, addr: &str, error: &str)
    ensures
        final(state)@ == old(state)@.with_log("client "@ + addr@ + ": "@ + error@),
{
    state.push_log("client ".to_owned().concat(addr).concat(": ").concat(error));
}

/// Note that a connection could not be accepted.
pub fn accept_failed(state: &mut AppState, error: &str)
    ensures
        final(state)@ == old(state)@.with_log("accept error: "@ + error@),
{
    state.push_log("accept error: ".to_owned().concat(error));
}

/// The next ping of the clock measurement, at `now_ms`, to every client. Its
/// token is one more than the last; after the largest comes zero.
pub fn ping_all_at(state: &AppState, token: &mut u64, now_ms: u64) -> (r: Vec<Outgoing>)
    ensures
        *final(token) == if *old(token) == u64::MAX {
            0
        } else {
            *old(token) + 1
        },
        r.deep_view() == controller::to_all(
            state@.clients,
            ControllerMsgModel::Sync(SyncPing { t1_utc_ms: now_ms, token: *final(token) }),
        ),
{
    *token = token.wrapping_add(1);
    broadcast(
        &state.clients,
        &ControllerMsg::Sync(SyncPing { t1_utc_ms: now_ms, token: *token }),
    )
}

/// The next ping of the clock measurement to every client, now.
pub fn ping_all(state: &AppState, token: &mut u64) -> (r: Vec<Outgoing>)
    ensures
        *final(token) == if *old(token) == u64::MAX {
            0
        } else {
            *old(token) + 1
        },
        exists|now_ms: u64|
            r.deep_view() == #[trigger] controller::to_all(
                state@.clients,
                ControllerMsgModel::Sync(SyncPing { t1_utc_ms: now_ms, token: *final(token) }),
            ),
{
    ping_all_at(state, token, now_utc_ms())
}

/// A client that comes in and goes again leaves the roster as if it had never
/// been in, if it was not in before.
pub proof fn law_leave_undoes_join(
    s: ControllerModel,
    client_id: Seq<char>,
    name: Seq<char>,
    addr: Seq<char>,
    now_ms: u64,
)
    requires
        controller::row_index(s.clients, client_id) == s.clients.len(),
    ensures
        after_leave(after_join(s, client_id, name, addr, now_ms), client_id).clients == s.clients,
{
    let row = new_row(client_id, name, addr, now_ms);
    let joined = s.clients.push(row);
    assert(joined.drop_last() =~= s.clients);
    assert(controller::row_index(joined, client_id) == s.clients.len());
    assert(joined.remove(s.clients.len() as int) =~= s.clients);
}

/// What a client reports changes its own row and no other, and never the show.
pub proof fn law_report_touches_one_client(
    s: ControllerModel,
    client_id: Seq<char>,
    msg: ClientMsgModel,
    now_ms: u64,
)
    ensures
        ({
            let t = after_client_msg(s, client_id, msg, now_ms);
            &&& t == (ControllerModel { clients: t.clients, log_lines: t.log_lines, ..s })
            &&& t.clients.len() == s.clients.len()
            &&& forall|i: int|
                0 <= i < s.clients.len() && i != controller::row_index(s.clients, client_id) ==> (
                #[trigger] t.clients[i]) == s.clients[i]
            &&& s.wf() ==> t.wf()
        }),
{
    controller::lemma_row_index(s.clients, client_id);
    let t = after_client_msg(s, client_id, msg, now_ms);
    if s.wf() {
        assert forall|a: int, b: int| 0 <= a < b < t.clients.len() implies (
        #[trigger] t.clients[a]).client_id != (#[trigger] t.clients[b]).client_id by {
            assert(s.clients[a].client_id != s.clients[b].client_id);
        }
    }
}

/// A client that comes in has a row of its own: by the id, name and address it
/// came with, idle, without a cue, never measured, and last heard of now. The log
/// tells, as it does when the client goes; nothing else of the controller
/// changes.
pub proof fn law_join_and_leave(
    s: ControllerModel,
    client_id: Seq<char>,
    name: Seq<char>,
    addr: Seq<char>,
    now_ms: u64,
)
    ensures
        ({
            let row = new_row(client_id, name, addr, now_ms);
            let joined = after_join(s, client_id, name, addr, now_ms);
            let left = after_leave(s, client_id);
            &&& row.client_id == client_id
            &&& row.name == name
            &&& row.addr == addr
            &&& row.state == ClientState::Idle
            &&& row.current_cue is None
            &&& row.position_ms == 0
            &&& row.last_drift_ms is None
            &&& row.last_heartbeat_ms == now_ms
            &&& joined.clients == controller::with_row(s.clients, row)
            &&& joined == (ControllerModel {
                clients: joined.clients,
                log_lines: joined.log_lines,
                ..s
            })
            &&& joined.log_lines.len() > 0
            &&& joined.log_lines.last() == "client "@ + name + " ("@ + client_id
                + ") joined from "@ + addr
            &&& left.clients == controller::without_row(s.clients, client_id)
            &&& left == (ControllerModel { clients: left.clients, log_lines: left.log_lines, ..s })
            &&& left.log_lines.len() > 0
            &&& left.log_lines.last() == "client "@ + client_id + " left"@
        }),
{
}

/// What a client reports goes into its row, the first of its id: its state, cue
/// and position; its drift; that it is alive; or, from an answered ping, how far
/// its clock is ahead. Each leaves the rest of the row as it was, and no other
/// message changes it. A log message leaves a line and changes no row.
pub proof fn law_what_a_report_changes(
    s: ControllerModel,
    i: int,
    msg: ClientMsgModel,
    now_ms: u64,
)
    requires
        0 <= i < s.clients.len(),
        forall|k: int| 0 <= k < i ==> (#[trigger] s.clients[k]).client_id != s.clients[i].client_id,
    ensures
        ({
            let id = s.clients[i].client_id;
            let had = s.clients[i];
            let t = after_client_msg(s, id, msg, now_ms);
            let has = t.clients[i];
            &&& has == (RowModel {
                state: has.state,
                current_cue: has.current_cue,
                position_ms: has.position_ms,
                last_drift_ms: has.last_drift_ms,
                last_heartbeat_ms: has.last_heartbeat_ms,
                ..had
            })
            &&& match msg {
                ClientMsgModel::Status(r) => {
                    &&& has.state == r.state
                    &&& has.current_cue == r.current_cue_id
                    &&& has.position_ms == r.position_ms
                },
                _ => {
                    &&& has.state == had.state
                    &&& has.current_cue == had.current_cue
                    &&& has.position_ms == had.position_ms
                },
            }
            &&& has.last_drift_ms == match msg {
                ClientMsgModel::Drift { drift_ms } => Some(drift_ms),
                ClientMsgModel::SyncReply(r) => Some(
                    clock::offset_of(
                        r.t1_utc_ms,
                        r.t2_local_ms,
                        r.t3_local_ms,
                        now_ms,
                    ) as i64,
                ),
                _ => had.last_drift_ms,
            }
            &&& has.last_heartbeat_ms == if msg is Heartbeat {
                now_ms
            } else {
                had.last_heartbeat_ms
            }
            &&& match msg {
                ClientMsgModel::Log { level, source, message } => {
                    &&& t.log_lines.len() > 0
                    &&& t.log_lines.last() == "["@ + id + "]["@ + level.label() + "] "@ + source
                        + ": "@ + message
                },
                _ => t.log_lines == s.log_lines,
            }
        }),
{
    controller::lemma_row_index(s.clients, s.clients[i].client_id);
    let j = controller::row_index(s.clients, s.clients[i].client_id);
    if j < i {
        assert(s.clients[j].client_id != s.clients[i].client_id);
    }
}

} // verus!
