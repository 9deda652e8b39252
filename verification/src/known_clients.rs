//! A durable id to name directory of clients.
//!
//! The roster only holds clients that are connected right now, but the cue
//! editor's client picker needs to offer every client the operator has ever
//! seen or named.

use vstd::prelude::*;

use crate::document;
use crate::document::{
    field, is_calm, is_shadowed, parse_document, put, read_optional_flag, read_optional_number,
    read_text, write_document, Entry, Node, Tree,
};
use crate::protocol::{AssignName, ControllerMsg, ControllerMsgModel, Outgoing, OutgoingModel};
use crate::state;
use crate::state::{find_row, AppModel, AppState, RowModel};
use crate::text::same_text;

verus! {

/// What the controller knows about one client, independent of whether it is
/// currently connected.
#[derive(Debug, PartialEq, Eq)]
pub struct KnownClient {
    pub name: String,
    /// True once an operator has explicitly renamed this client. Protects the
    /// name from being overwritten by the name the client reports of itself,
    /// and is the signal to send it its name the next time it connects.
    pub assigned: bool,
    pub last_seen_ms: u64,
}

/// The model of a [`KnownClient`].
#[verifier::ext_equal]
pub struct KnownModel {
    pub name: Seq<char>,
    pub assigned: bool,
    pub last_seen_ms: u64,
}

impl View for KnownClient {
    type V = KnownModel;

    open spec fn view(&self) -> KnownModel {
        KnownModel { name: self.name@, assigned: self.assigned, last_seen_ms: self.last_seen_ms }
    }
}

/// One line of the directory.
#[derive(Debug, PartialEq, Eq)]
pub struct KnownEntry {
    pub client_id: String,
    pub client: KnownClient,
}

/// The model of a [`KnownEntry`].
#[verifier::ext_equal]
pub struct KnownEntryModel {
    pub client_id: Seq<char>,
    pub client: KnownModel,
}

impl DeepView for KnownEntry {
    type V = KnownEntryModel;

    open spec fn deep_view(&self) -> KnownEntryModel {
        KnownEntryModel { client_id: self.client_id@, client: self.client@ }
    }
}

/// The index of the entry with this id, or the number of entries if there is
/// none.
pub open spec fn entry_index(entries: Seq<KnownEntryModel>, id: Seq<char>) -> int
    decreases entries.len(),
{
    if entries.len() == 0 {
        0
    } else {
        let before = entry_index(entries.drop_last(), id);
        if before < entries.len() - 1 {
            before
        } else if entries.last().client_id == id {
            entries.len() - 1
        } else {
            entries.len() as int
        }
    }
}

/// No two entries have the same id.
pub open spec fn distinct_entries(entries: Seq<KnownEntryModel>) -> bool {
    forall|i: int, j: int|
        0 <= i < j < entries.len() ==> (#[trigger] entries[i]).client_id != (
        #[trigger] entries[j]).client_id
}

/// What the directory knows of a client.
pub open spec fn lookup(entries: Seq<KnownEntryModel>, id: Seq<char>) -> Option<KnownModel> {
    let i = entry_index(entries, id);
    if i < entries.len() {
        Some(entries[i].client)
    } else {
        None
    }
}

/// The directory with a client's line replaced, or added at the end.
pub open spec fn with_entry(
    entries: Seq<KnownEntryModel>,
    id: Seq<char>,
    client: KnownModel,
) -> Seq<KnownEntryModel> {
    let i = entry_index(entries, id);
    let entry = KnownEntryModel { client_id: id, client };
    if i < entries.len() {
        entries.update(i, entry)
    } else {
        entries.push(entry)
    }
}

/// `entry_index` finds the first entry of the id, if any entry has it.
pub proof fn lemma_entry_index(entries: Seq<KnownEntryModel>, id: Seq<char>)
    ensures
        0 <= entry_index(entries, id) <= entries.len(),
        entry_index(entries, id) < entries.len() ==> entries[entry_index(entries, id)].client_id
            == id,
        forall|k: int| 0 <= k < entry_index(entries, id) ==> (#[trigger] entries[k]).client_id != id,
    decreases entries.len(),
{
    if entries.len() > 0 {
        let front = entries.drop_last();
        lemma_entry_index(front, id);
        assert forall|k: int| 0 <= k < entry_index(entries, id) implies (
        #[trigger] entries[k]).client_id != id by {
            if k < front.len() {
                assert(front[k] == entries[k]);
            }
        }
    }
}

/// The first entry of an id is at its index.
pub proof fn lemma_entry_index_is(entries: Seq<KnownEntryModel>, id: Seq<char>, i: int)
    requires
        0 <= i <= entries.len(),
        forall|k: int| 0 <= k < i ==> (#[trigger] entries[k]).client_id != id,
        i < entries.len() ==> entries[i].client_id == id,
    ensures
        entry_index(entries, id) == i,
{
    lemma_entry_index(entries, id);
    let j = entry_index(entries, id);
    if j < i {
        assert(entries[j].client_id != id);
    }
    if i < j {
        assert(entries[i].client_id != id);
    }
}

/// The index of the entry with this id, or the number of entries if there is
/// none.
pub fn find_entry(entries: &Vec<KnownEntry>, id: &str) -> (r: usize)
    ensures
        r == entry_index(entries.deep_view(), id@),
        r <= entries.len(),
{
    let ghost model = entries.deep_view();
    let mut i: usize = 0;
    while i < entries.len() && !same_text(entries[i].client_id.as_str(), id)
        invariant
            0 <= i <= entries.len(),
            model == entries.deep_view(),
            forall|k: int| 0 <= k < i ==> (#[trigger] model[k]).client_id != id@,
        decreases entries.len() - i,
    {
        i = i + 1;
    }
    proof {
        if i < entries.len() {
            assert(model[i as int].client_id == id@);
        }
        lemma_entry_index_is(model, id@, i as int);
    }
    i
}

/// Replace a client's line in the directory, or add one at the end.
fn put_entry(entries: &mut Vec<KnownEntry>, id: &str, client: KnownClient)
    ensures
        final(entries).deep_view() == with_entry(old(entries).deep_view(), id@, client@),
{
    let ghost before = entries.deep_view();
    let ghost model = client@;
    let i: usize = find_entry(entries, id);
    if i < entries.len() {
        proof {
            lemma_entry_index(before, id@);
        }
        assert(before[i as int] == entries@[i as int].deep_view());
        entries[i].client = client;
    } else {
        entries.push(KnownEntry { client_id: id.to_owned(), client });
    }
    assert(entries.deep_view() =~= with_entry(before, id@, model));
}

/// The line of a client after the operator named it.
pub open spec fn renamed(known: Option<KnownModel>, name: Seq<char>) -> KnownModel {
    KnownModel {
        name,
        assigned: true,
        last_seen_ms: match known {
            Some(k) => k.last_seen_ms,
            None => 0,
        },
    }
}

/// The controller's state after the operator renamed a client.
pub open spec fn after_rename(s: AppModel, client_id: Seq<char>, name: Seq<char>) -> AppModel {
    let i = state::row_index(s.clients, client_id);
    AppModel {
        known_clients: with_entry(
            s.known_clients,
            client_id,
            renamed(lookup(s.known_clients, client_id), name),
        ),
        clients: if i < s.clients.len() {
            s.clients.update(i, RowModel { name, ..s.clients[i] })
        } else {
            s.clients
        },
        ..s
    }
}

/// What is sent when a client is renamed: its new name, if it is connected.
pub open spec fn rename_messages(s: AppModel, client_id: Seq<char>, name: Seq<char>) -> Seq<
    OutgoingModel,
> {
    if state::connected(s.clients, client_id) {
        seq![OutgoingModel { client_id, msg: ControllerMsgModel::AssignName { client_id, name } }]
    } else {
        Seq::empty()
    }
}

/// Rename a client (by persistent id) from the operator roster: marks it
/// `assigned` so that the name it reports of itself can't silently replace the
/// new one, updates the live roster row if it's connected, and tells it its
/// name if it can be reached.
pub fn rename(state: &mut AppState, client_id: &str, name: &str) -> (r: Vec<Outgoing>)
    ensures
        final(state)@ == after_rename(old(state)@, client_id@, name@),
        r.deep_view() == rename_messages(old(state)@, client_id@, name@),
        forall|k: int|
            0 <= k < r@.len() ==> (#[trigger] r@[k]).client_id@ == client_id@ && match r@[k].msg {
                ControllerMsg::AssignName(a) => a.client_id@ == client_id@ && a.name@ == name@,
                _ => false,
            },
{
    let ghost before = state@;
    let k: usize = find_entry(&state.known_clients, client_id);
    let last_seen_ms: u64 = if k < state.known_clients.len() {
        assert(before.known_clients[k as int] == state.known_clients@[k as int].deep_view());
        state.known_clients[k].client.last_seen_ms
    } else {
        0
    };
    put_entry(
        &mut state.known_clients,
        client_id,
        KnownClient { name: name.to_owned(), assigned: true, last_seen_ms },
    );
    let mut out: Vec<Outgoing> = Vec::new();
    let i: usize = find_row(&state.clients, client_id);
    if i < state.clients.len() {
        assert(before.clients[i as int] == state.clients@[i as int].deep_view());
        state.clients[i].name = name.to_owned();
        out.push(
            Outgoing {
                client_id: client_id.to_owned(),
                msg: ControllerMsg::AssignName(
                    AssignName { client_id: client_id.to_owned(), name: name.to_owned() },
                ),
            },
        );
        assert(state@.clients =~= after_rename(before, client_id@, name@).clients);
    }
    assert(out.deep_view() =~= rename_messages(before, client_id@, name@));
    assert(state@ =~= after_rename(before, client_id@, name@));
    out
}

/// The line of a client after it reported in under `reported`: a name that the
/// operator assigned stays.
pub open spec fn greeted(known: Option<KnownModel>, reported: Seq<char>, now_ms: u64) -> KnownModel {
    match known {
        Some(k) if k.assigned => KnownModel { last_seen_ms: now_ms, ..k },
        _ => KnownModel { name: reported, assigned: false, last_seen_ms: now_ms },
    }
}

/// The name that a client has to be told when it reports in under `reported`:
/// the one the operator assigned, where that is another.
pub open spec fn name_to_assign(known: Option<KnownModel>, reported: Seq<char>) -> Option<
    Seq<char>,
> {
    match known {
        Some(k) if k.assigned && k.name != reported => Some(k.name),
        _ => None,
    }
}

/// Note in the directory that a client reported in at `now_ms` under the name
/// `reported`. Returns the name to tell it, if the operator gave it another.
pub fn note_hello(
    entries: &mut Vec<KnownEntry>,
    client_id: &str,
    reported: &str,
    now_ms: u64,
) -> (r: Option<AssignName>)
    ensures
        final(entries).deep_view() == with_entry(
            old(entries).deep_view(),
            client_id@,
            greeted(lookup(old(entries).deep_view(), client_id@), reported@, now_ms),
        ),
        match r {
            Some(a) => a.client_id@ == client_id@ && name_to_assign(
                lookup(old(entries).deep_view(), client_id@),
                reported@,
            ) == Some(a.name@),
            None => name_to_assign(lookup(old(entries).deep_view(), client_id@), reported@) is None,
        },
{
    let ghost before = entries.deep_view();
    let k: usize = find_entry(entries, client_id);
    if k < entries.len() {
        assert(before[k as int] == entries@[k as int].deep_view());
        if entries[k].client.assigned {
            let name: String = entries[k].client.name.clone();
            let r: Option<AssignName> = if same_text(name.as_str(), reported) {
                None
            } else {
                Some(AssignName { client_id: client_id.to_owned(), name: name.clone() })
            };
            put_entry(
                entries,
                client_id,
                KnownClient { name, assigned: true, last_seen_ms: now_ms },
            );
            return r;
        }
    }
    put_entry(
        entries,
        client_id,
        KnownClient { name: reported.to_owned(), assigned: false, last_seen_ms: now_ms },
    );
    None
}

/// A line that was put into the directory is found there, and no other line is
/// touched; a directory of distinct ids stays one.
pub proof fn law_directory_put(
    entries: Seq<KnownEntryModel>,
    id: Seq<char>,
    client: KnownModel,
    other: Seq<char>,
)
    ensures
        lookup(with_entry(entries, id, client), id) == Some(client),
        other != id ==> lookup(with_entry(entries, id, client), other) == lookup(entries, other),
        distinct_entries(entries) ==> distinct_entries(with_entry(entries, id, client)),
{
    let after = with_entry(entries, id, client);
    let i = entry_index(entries, id);
    lemma_entry_index(entries, id);
    assert forall|k: int| 0 <= k < i implies (#[trigger] after[k]).client_id != id by {
        assert(entries[k].client_id != id);
    }
    lemma_entry_index_is(after, id, i);
    if other != id {
        let j = entry_index(entries, other);
        lemma_entry_index(entries, other);
        if j < entries.len() {
            assert forall|k: int| 0 <= k < j implies (#[trigger] after[k]).client_id != other by {
                assert(entries[k].client_id != other);
            }
            lemma_entry_index_is(after, other, j);
        } else {
            assert forall|k: int| 0 <= k < after.len() implies (
            #[trigger] after[k]).client_id != other by {
                if k < entries.len() {
                    assert(entries[k].client_id != other);
                }
            }
            lemma_entry_index_is(after, other, after.len() as int);
        }
    }
    if distinct_entries(entries) {
        assert forall|a: int, b: int| 0 <= a < b < after.len() implies (
        #[trigger] after[a]).client_id != (#[trigger] after[b]).client_id by {
            if b < entries.len() {
                assert(entries[a].client_id != entries[b].client_id);
            } else {
                assert(entries[a].client_id != id);
            }
        }
    }
}

/// A client that was renamed, connected or not, keeps that name whatever it
/// calls itself the next time it reports in, and is told the name if it calls
/// itself anything else.
pub proof fn law_rename_converges(
    s: AppModel,
    client_id: Seq<char>,
    name: Seq<char>,
    reported: Seq<char>,
    now_ms: u64,
)
    ensures
        ({
            let known = lookup(after_rename(s, client_id, name).known_clients, client_id);
            &&& greeted(known, reported, now_ms).name == name
            &&& greeted(known, reported, now_ms).assigned
            &&& name_to_assign(known, reported) == if reported == name {
                None
            } else {
                Some(name)
            }
        }),
{
    law_directory_put(
        s.known_clients,
        client_id,
        renamed(lookup(s.known_clients, client_id), name),
        client_id,
    );
}

/// Renaming a client keeps the ids of the roster and of the directory distinct.
pub proof fn law_rename_keeps_ids_distinct(s: AppModel, client_id: Seq<char>, name: Seq<char>)
    requires
        s.wf(),
        distinct_entries(s.known_clients),
    ensures
        after_rename(s, client_id, name).wf(),
        distinct_entries(after_rename(s, client_id, name).known_clients),
{
    law_directory_put(
        s.known_clients,
        client_id,
        renamed(lookup(s.known_clients, client_id), name),
        client_id,
    );
    let t = after_rename(s, client_id, name);
    assert forall|a: int, b: int| 0 <= a < b < t.clients.len() implies (
    #[trigger] t.clients[a]).client_id != (#[trigger] t.clients[b]).client_id by {
        state::lemma_row_index(s.clients, client_id);
        assert(s.clients[a].client_id != s.clients[b].client_id);
    }
}

/// `<dir>/known_clients.toml`, where `<dir>` is the configured data directory
/// if there is one, else the directory of the program, else the current one.
pub open spec fn directory_path(
    data_dir: Option<Seq<char>>,
    program_dir: Option<Seq<char>>,
) -> Seq<char> {
    crate::paths::joined(
        match (data_dir, program_dir) {
            (Some(d), _) => d,
            (None, Some(d)) => d,
            (None, None) => "."@,
        },
        "known_clients.toml"@,
    )
}

/// Where the directory is kept: `known_clients.toml` in the configured data
/// directory if there is one, else next to the program.
pub fn default_path(data_dir: &Option<String>, program_dir: &Option<String>) -> (r: String)
    ensures
        r@ == directory_path(data_dir.deep_view(), program_dir.deep_view()),
{
    let dir: &str = match data_dir {
        Some(d) => d.as_str(),
        None => match program_dir {
            Some(d) => d.as_str(),
            None => ".",
        },
    };
    crate::paths::join_path(dir, "known_clients.toml")
}

/// What a directory file says of one client.
pub open spec fn known_in(t: Tree) -> Option<KnownModel> {
    let name = document::field_of(t, "name"@, 0);
    let assigned = document::field_of(t, "assigned"@, 1);
    let seen = document::field_of(t, "last_seen_ms"@, 2);
    if document::is_text(name) && document::is_flag_or_absent(assigned)
        && document::is_number_or_absent(seen, u64::MAX as int) {
        Some(
            KnownModel {
                name: document::text_in(name),
                assigned: document::flag_in(assigned),
                last_seen_ms: document::number_in(seen, 0) as u64,
            },
        )
    } else {
        None
    }
}

fn read_known(n: &Node) -> (r: Option<KnownClient>)
    ensures
        match r {
            Some(c) => known_in(n@) == Some(c@),
            None => known_in(n@) is None,
        },
{
    match (
        read_text(field(n, "name", 0)),
        read_optional_flag(field(n, "assigned", 1)),
        read_optional_number(field(n, "last_seen_ms", 2), u64::MAX, 0),
    ) {
        (Some(name), Some(assigned), Some(last_seen_ms)) => Some(
            KnownClient { name, assigned, last_seen_ms },
        ),
        _ => None,
    }
}

/// Can the table of clients be read? One that is not there is empty.
pub open spec fn directory_ok(f: Option<Tree>) -> bool {
    match f {
        None => true,
        Some(Tree::Table(m)) => forall|id: Seq<char>| #[trigger]
            m.dom().contains(id) ==> known_in(m[id]) is Some,
        _ => false,
    }
}

/// What the table of clients says of a client.
pub open spec fn directory_lookup(f: Option<Tree>, id: Seq<char>) -> Option<KnownModel> {
    match f {
        Some(Tree::Table(m)) if m.dom().contains(id) => known_in(m[id]),
        _ => None,
    }
}

fn read_directory(f: Option<&Node>) -> (r: Option<Vec<KnownEntry>>)
    ensures
        match r {
            Some(v) => {
                &&& directory_ok(document::seen(f))
                &&& distinct_entries(v.deep_view())
                &&& forall|id: Seq<char>| #[trigger]
                    lookup(v.deep_view(), id) == directory_lookup(document::seen(f), id)
            },
            None => !directory_ok(document::seen(f)),
        },
{
    let mut v: Vec<KnownEntry> = Vec::new();
    match f {
        None => {
            assert(v.deep_view() =~= Seq::<KnownEntryModel>::empty());
            Some(v)
        },
        Some(Node::Table(entries)) => {
            let ghost m = document::table_of(entries@);
            let ghost list = entries@;
            let mut i: usize = 0;
            while i < entries.len()
                invariant
                    0 <= i <= entries.len(),
                    list == entries@,
                    m == document::table_of(list),
                    document::seen(f) == Some(Tree::Table(m)),
                    distinct_entries(v.deep_view()),
                    forall|k: int|
                        0 <= k < i && !document::shadowed(list, k) ==> known_in(
                            (#[trigger] list[k]).value@,
                        ) is Some && lookup(v.deep_view(), list[k].key@) == known_in(
                            list[k].value@,
                        ),
                    forall|j: int|
                        0 <= j < v@.len() ==> exists|k: int|
                            0 <= k < i && !document::shadowed(list, k) && (
                            #[trigger] list[k]).key@ == (#[trigger] v.deep_view()[j]).client_id,
                decreases entries.len() - i,
            {
                if !is_shadowed(entries, i) {
                    let ghost key = list[i as int].key@;
                    match read_known(&entries[i].value) {
                        Some(client) => {
                            let ghost before = v.deep_view();
                            let ghost model = client@;
                            v.push(KnownEntry { client_id: entries[i].key.clone(), client });
                            proof {
                                let after = v.deep_view();
                                assert(after =~= before.push(
                                    KnownEntryModel { client_id: key, client: model },
                                ));
                                assert forall|j: int| 0 <= j < before.len() implies (
                                #[trigger] before[j]).client_id != key by {
                                    let k = choose|k: int|
                                        0 <= k < i && !document::shadowed(list, k) && (
                                        #[trigger] list[k]).key@ == before[j].client_id;
                                    assert(!document::shadowed(list, k));
                                    assert(list[i as int].key@ == key);
                                }
                                lemma_entry_index_is(before, key, before.len() as int);
                                law_directory_put(before, key, model, key);
                                assert(with_entry(before, key, model) =~= after);
                                assert forall|k: int|
                                    0 <= k < i + 1 && !document::shadowed(list, k) implies known_in(
                                    (#[trigger] list[k]).value@,
                                ) is Some && lookup(after, list[k].key@) == known_in(
                                    list[k].value@,
                                ) by {
                                    if k < i {
                                        assert(list[i as int].key@ == key);
                                        assert(list[k].key@ != key);
                                        law_directory_put(before, key, model, list[k].key@);
                                    }
                                }
                                assert forall|j: int| 0 <= j < after.len() implies exists|k: int|
                                    0 <= k < i + 1 && !document::shadowed(list, k) && (
                                    #[trigger] list[k]).key@ == (
                                    #[trigger] after[j]).client_id by {
                                    if j < before.len() {
                                        assert(after[j] == before[j]);
                                    } else {
                                        assert(list[i as int].key@ == after[j].client_id);
                                    }
                                }
                            }
                        },
                        None => {
                            proof {
                                document::lemma_table_last(list, key, i as int);
                                assert(m.dom().contains(key));
                            }
                            return None;
                        },
                    }
                }
                i = i + 1;
            }
            proof {
                let model = v.deep_view();
                assert forall|id: Seq<char>| #[trigger] m.dom().contains(id) implies known_in(
                    m[id],
                ) is Some by {
                    let k = document::lemma_last_entry(list, id);
                    assert(list[k].key@ == id);
                }
                assert forall|id: Seq<char>| #[trigger] lookup(model, id) == directory_lookup(
                    document::seen(f),
                    id,
                ) by {
                    if m.dom().contains(id) {
                        let k = document::lemma_last_entry(list, id);
                        assert(list[k].key@ == id);
                    } else {
                        lemma_entry_index(model, id);
                        let j = entry_index(model, id);
                        if j < model.len() {
                            assert(model[j].client_id == id);
                            let k = choose|k: int|
                                0 <= k < list.len() && !document::shadowed(list, k) && (
                                #[trigger] list[k]).key@ == model[j].client_id;
                            document::lemma_table_keys(list, id);
                            assert(list[k].key@ == id);
                        }
                    }
                }
            }
            Some(v)
        },
        _ => None,
    }
}

/// What a stored directory says of a client. One that cannot be read says
/// nothing.
pub open spec fn stored_lookup(parsed: Result<Tree, Seq<char>>, id: Seq<char>) -> Option<
    KnownModel,
> {
    match parsed {
        Ok(t) if directory_ok(document::field_of(t, "clients"@, 0)) => directory_lookup(
            document::field_of(t, "clients"@, 0),
            id,
        ),
        _ => None,
    }
}

/// The directory that a document holds, or an empty one if it cannot be read.
pub fn open_directory(parsed: &Result<Node, String>) -> (r: Vec<KnownEntry>)
    ensures
        distinct_entries(r.deep_view()),
        forall|id: Seq<char>| #[trigger]
            lookup(r.deep_view(), id) == stored_lookup(document::outcome(*parsed), id),
{
    if let Ok(n) = parsed {
        if let Some(v) = read_directory(field(n, "clients", 0)) {
            return v;
        }
    }
    let v: Vec<KnownEntry> = Vec::new();
    assert(v.deep_view() =~= Seq::<KnownEntryModel>::empty());
    v
}

/// What the contents of a directory file say of a client; a missing file says
/// nothing.
pub open spec fn file_lookup(raw: Option<&str>, id: Seq<char>) -> Option<KnownModel> {
    match raw {
        Some(s) => stored_lookup(document::parsed_toml(s@), id),
        None => None,
    }
}

/// Load the directory from the contents of its file. An absent or corrupt file
/// just means an empty directory: every client that connects fills it in again.
pub fn load(raw: Option<&str>) -> (r: Vec<KnownEntry>)
    ensures
        distinct_entries(r.deep_view()),
        forall|id: Seq<char>| #[trigger] lookup(r.deep_view(), id) == file_lookup(raw, id),
        raw is None ==> r@.len() == 0,
{
    match raw {
        Some(s) => open_directory(&parse_document(s)),
        None => {
            let v: Vec<KnownEntry> = Vec::new();
            assert(v.deep_view() =~= Seq::<KnownEntryModel>::empty());
            v
        },
    }
}

/// A client's line as a table.
pub open spec fn known_table(c: KnownModel) -> Map<Seq<char>, Tree> {
    Map::empty().insert("name"@, Tree::Text(c.name)).insert(
        "assigned"@,
        Tree::Flag(c.assigned),
    ).insert("last_seen_ms"@, Tree::Integer(c.last_seen_ms as i64))
}

/// The lines of a directory, by client id.
pub open spec fn directory_table(entries: Seq<KnownEntryModel>) -> Map<Seq<char>, Tree>
    decreases entries.len(),
{
    if entries.len() == 0 {
        Map::empty()
    } else {
        directory_table(entries.drop_last()).insert(
            entries.last().client_id,
            Tree::Table(known_table(entries.last().client)),
        )
    }
}

/// A directory as a tree.
pub open spec fn directory_tree(entries: Seq<KnownEntryModel>) -> Tree {
    Tree::Table(Map::empty().insert("clients"@, Tree::Table(directory_table(entries))))
}

/// Does the time fit in the numbers of a TOML document?
pub open spec fn time_fits(c: KnownModel) -> bool {
    c.last_seen_ms <= i64::MAX
}

/// Do all times fit in the numbers of a TOML document?
pub open spec fn all_times_fit(entries: Seq<KnownEntryModel>) -> bool {
    forall|i: int| 0 <= i < entries.len() ==> time_fits((#[trigger] entries[i]).client)
}

fn write_known(c: &KnownClient) -> (r: Node)
    requires
        time_fits(c@),
    ensures
        r@ == Tree::Table(known_table(c@)),
        document::spelled(r),
{
    let mut entries: Vec<Entry> = Vec::new();
    put(&mut entries, "name", Node::Text(c.name.clone()));
    put(&mut entries, "assigned", Node::Flag(c.assigned));
    put(&mut entries, "last_seen_ms", Node::Integer(c.last_seen_ms as i64));
    Node::Table(entries)
}

fn directory_document(entries: &Vec<KnownEntry>) -> (r: Option<Node>)
    ensures
        match r {
            Some(n) => {
                &&& all_times_fit(entries.deep_view())
                &&& n@ == directory_tree(entries.deep_view())
                &&& document::spelled(n)
            },
            None => !all_times_fit(entries.deep_view()),
        },
{
    let ghost model = entries.deep_view();
    let mut lines: Vec<Entry> = Vec::new();
    let mut i: usize = 0;
    assert(model.take(0) =~= Seq::<KnownEntryModel>::empty());
    while i < entries.len()
        invariant
            0 <= i <= entries.len(),
            model == entries.deep_view(),
            document::table_of(lines@) == directory_table(model.take(i as int)),
            document::all_spelled(lines@),
            forall|k: int| 0 <= k < i ==> time_fits((#[trigger] model[k]).client),
        decreases entries.len() - i,
    {
        assert(model[i as int] == entries@[i as int].deep_view());
        assert(model.take(i + 1).drop_last() =~= model.take(i as int));
        if entries[i].client.last_seen_ms > i64::MAX as u64 {
            assert(!time_fits(model[i as int].client));
            return None;
        }
        let line: Node = write_known(&entries[i].client);
        put(&mut lines, entries[i].client_id.as_str(), line);
        i = i + 1;
    }
    assert(model.take(i as int) =~= model);
    let mut top: Vec<Entry> = Vec::new();
    put(&mut top, "clients", Node::Table(lines));
    Some(Node::Table(top))
}

proof fn lemma_known_reads_back(c: KnownModel)
    requires
        time_fits(c),
    ensures
        known_in(Tree::Table(known_table(c))) == Some(c),
        document::displayed(Tree::Table(known_table(c)), Tree::Table(known_table(c))),
        document::shallow(Tree::Table(known_table(c)), 14),
        document::floatless(Tree::Table(known_table(c))),
{
    reveal_strlit("name");
    reveal_strlit("assigned");
    reveal_strlit("last_seen_ms");
    assert("name"@.len() == 4);
    assert("assigned"@.len() == 8);
    assert("last_seen_ms"@.len() == 12);
    let m = known_table(c);
    assert forall|k: Seq<char>| #[trigger] m.dom().contains(k) implies document::displayed(
        m[k],
        m[k],
    ) && document::shallow(m[k], 13) && document::floatless(m[k]) by {}
}

/// The table of a directory has a line for each client that the directory
/// knows, and no other.
proof fn lemma_directory_table(entries: Seq<KnownEntryModel>, id: Seq<char>)
    requires
        distinct_entries(entries),
    ensures
        directory_table(entries).dom().contains(id) <==> lookup(entries, id) is Some,
        lookup(entries, id) is Some ==> directory_table(entries)[id] == Tree::Table(
            known_table(lookup(entries, id)->0),
        ),
    decreases entries.len(),
{
    if entries.len() > 0 {
        let front = entries.drop_last();
        lemma_directory_table(front, id);
        lemma_entry_index(front, id);
        lemma_entry_index(entries, id);
        let i = entry_index(front, id);
        if i < front.len() {
            assert(entries[i].client_id == id);
            assert(entries[entries.len() - 1].client_id != id);
        }
    }
}

/// A directory whose times fit reads back from its own tree: each client is
/// known in it as it was, and no other client is known.
pub proof fn law_directory_reads_back(entries: Seq<KnownEntryModel>, id: Seq<char>)
    requires
        distinct_entries(entries),
        all_times_fit(entries),
    ensures
        stored_lookup(Ok(directory_tree(entries)), id) == lookup(entries, id),
{
    let t = directory_tree(entries);
    let m = directory_table(entries);
    assert(document::field_of(t, "clients"@, 0) == Some(Tree::Table(m)));
    assert forall|k: Seq<char>| #[trigger] m.dom().contains(k) implies known_in(m[k]) is Some by {
        lemma_directory_table(entries, k);
        lemma_entry_index(entries, k);
        lemma_known_reads_back(lookup(entries, k)->0);
    }
    lemma_directory_table(entries, id);
    lemma_entry_index(entries, id);
    if lookup(entries, id) is Some {
        lemma_known_reads_back(lookup(entries, id)->0);
    }
}

proof fn lemma_directory_written(entries: Seq<KnownEntryModel>)
    requires
        distinct_entries(entries),
        all_times_fit(entries),
    ensures
        document::displayed(directory_tree(entries), directory_tree(entries)),
        document::shallow(directory_tree(entries), 16),
        document::floatless(directory_tree(entries)),
{
    let m = directory_table(entries);
    assert forall|k: Seq<char>| #[trigger] m.dom().contains(k) implies document::displayed(
        m[k],
        m[k],
    ) && document::shallow(m[k], 14) && document::floatless(m[k]) by {
        lemma_directory_table(entries, k);
        lemma_entry_index(entries, k);
        lemma_known_reads_back(lookup(entries, k)->0);
    }
    let lines = Tree::Table(m);
    assert(document::displayed(lines, lines));
    assert(document::shallow(lines, 15));
    assert(document::floatless(lines));
    let top = directory_tree(entries)->Table_0;
    assert forall|k: Seq<char>| #[trigger] top.dom().contains(k) implies document::displayed(
        top[k],
        top[k],
    ) && document::shallow(top[k], 15) && document::floatless(top[k]) by {}
}

/// The directory as the text of its file, if its times can be written. Loading
/// the text gives each client back as it was known, and no other.
pub fn to_toml(entries: &Vec<KnownEntry>) -> (r: Option<String>)
    requires
        distinct_entries(entries.deep_view()),
        all_times_fit(entries.deep_view()) ==> document::calm(
            directory_tree(entries.deep_view()),
        ),
    ensures
        match r {
            Some(s) => {
                &&& all_times_fit(entries.deep_view())
                &&& forall|id: Seq<char>| #[trigger]
                    stored_lookup(document::parsed_toml(s@), id) == lookup(entries.deep_view(), id)
            },
            None => !all_times_fit(entries.deep_view()),
        },
{
    let ghost model = entries.deep_view();
    match directory_document(entries) {
        Some(n) => {
            proof {
                lemma_directory_written(model);
            }
            match write_document(n) {
                Ok(s) => {
                    proof {
                        document::lemma_displayed_once(
                            directory_tree(model),
                            document::parsed_toml(s@)->Ok_0,
                            directory_tree(model),
                        );
                        assert forall|id: Seq<char>| #[trigger] stored_lookup(
                            document::parsed_toml(s@),
                            id,
                        ) == lookup(model, id) by {
                            law_directory_reads_back(model, id);
                        }
                    }
                    Some(s)
                },
                Err(_) => None,
            }
        },
        None => None,
    }
}

/// May the directory be handed to [`to_toml`]: is there no text in it with 256
/// quotation marks in a row, or a time that cannot be written anyway?
pub fn can_write(entries: &Vec<KnownEntry>) -> (r: bool)
    ensures
        r == (all_times_fit(entries.deep_view()) ==> document::calm(
            directory_tree(entries.deep_view()),
        )),
{
    match directory_document(entries) {
        Some(n) => is_calm(&n),
        None => true,
    }
}

/// The directory says of a client what the first line of its id says, and
/// nothing where no line has its id.
pub proof fn law_lookup_is_the_first_line(entries: Seq<KnownEntryModel>, id: Seq<char>, i: int)
    requires
        0 <= i <= entries.len(),
        forall|k: int| 0 <= k < i ==> (#[trigger] entries[k]).client_id != id,
        i < entries.len() ==> entries[i].client_id == id,
    ensures
        i < entries.len() ==> lookup(entries, id) == Some(entries[i].client),
        i == entries.len() ==> lookup(entries, id) is None,
{
    lemma_entry_index_is(entries, id, i);
}

/// What reporting in does to a client's line, and what the client is told. A
/// name that the operator assigned stays, and is told where the client goes by
/// another. Any other client goes by the name it reports, and is told nothing.
/// Either way it was last seen now.
pub proof fn law_what_reporting_in_does(
    known: Option<KnownModel>,
    reported: Seq<char>,
    now_ms: u64,
)
    ensures
        ({
            let named = known is Some && known->0.assigned;
            let line = greeted(known, reported, now_ms);
            let told = name_to_assign(known, reported);
            &&& line.last_seen_ms == now_ms
            &&& line.assigned == named
            &&& line.name == if named {
                known->0.name
            } else {
                reported
            }
            &&& told is Some <==> line.name != reported
            &&& told is Some ==> told->0 == line.name
        }),
{
}

/// What renaming a client does, connected or not. Its line carries the new name,
/// as one that the operator assigned, and the time it was last seen stays (zero
/// for a client never seen). Its row, the first of its id, shows the name, and
/// it is told so, once; a client that is not connected is told nothing. Nothing
/// else changes.
pub proof fn law_what_renaming_does(
    s: AppModel,
    client_id: Seq<char>,
    name: Seq<char>,
    i: int,
    other: Seq<char>,
)
    requires
        0 <= i <= s.clients.len(),
        forall|k: int| 0 <= k < i ==> (#[trigger] s.clients[k]).client_id != client_id,
        i < s.clients.len() ==> s.clients[i].client_id == client_id,
    ensures
        ({
            let t = after_rename(s, client_id, name);
            let sent = rename_messages(s, client_id, name);
            let had = lookup(s.known_clients, client_id);
            let has = lookup(t.known_clients, client_id);
            &&& has is Some
            &&& has->0.name == name
            &&& has->0.assigned
            &&& has->0.last_seen_ms == if had is Some {
                had->0.last_seen_ms
            } else {
                0
            }
            &&& other != client_id ==> lookup(t.known_clients, other) == lookup(
                s.known_clients,
                other,
            )
            &&& t == (AppModel { known_clients: t.known_clients, clients: t.clients, ..s })
            &&& t.clients.len() == s.clients.len()
            &&& forall|k: int|
                0 <= k < s.clients.len() && k != i ==> (#[trigger] t.clients[k]) == s.clients[k]
            &&& i < s.clients.len() ==> {
                &&& t.clients[i] == (RowModel { name, ..s.clients[i] })
                &&& sent.len() == 1
                &&& sent[0].client_id == client_id
                &&& sent[0].msg == ControllerMsgModel::AssignName { client_id, name }
            }
            &&& i == s.clients.len() ==> sent.len() == 0
        }),
{
    state::lemma_row_index_is(s.clients, client_id, i);
    law_directory_put(
        s.known_clients,
        client_id,
        renamed(lookup(s.known_clients, client_id), name),
        other,
    );
}

/// Which line a table of the directory's file reads as, by its keys. Only the
/// name must be there: a client is not renamed, and was never seen, where the
/// table does not say.
pub proof fn law_line_of_a_table(m: Map<Seq<char>, Tree>, c: KnownModel)
    requires
        c.last_seen_ms <= i64::MAX,
    ensures
        known_in(Tree::Table(m)) == Some(c) <==> {
            &&& m.dom().contains("name"@) && m["name"@] == Tree::Text(c.name)
            &&& if m.dom().contains("assigned"@) {
                m["assigned"@] == Tree::Flag(c.assigned)
            } else {
                !c.assigned
            }
            &&& if m.dom().contains("last_seen_ms"@) {
                m["last_seen_ms"@] == Tree::Integer(c.last_seen_ms as i64)
            } else {
                c.last_seen_ms == 0
            }
        },
{
    let read = known_in(Tree::Table(m));
    if read is Some && read->0.name == c.name && read->0.assigned == c.assigned
        && read->0.last_seen_ms == c.last_seen_ms {
        assert(read->0 =~= c);
    }
}

/// What a document says of a client: what the table under its id says, in the
/// table under `clients`; nothing where there is none, or where any of the
/// tables there cannot be read.
pub proof fn law_directory_of_a_table(
    m: Map<Seq<char>, Tree>,
    clients: Map<Seq<char>, Tree>,
    id: Seq<char>,
    error: Seq<char>,
)
    requires
        m.dom().contains("clients"@),
        m["clients"@] == Tree::Table(clients),
    ensures
        (forall|key: Seq<char>| #[trigger]
            clients.dom().contains(key) ==> known_in(clients[key]) is Some) ==> stored_lookup(
            Ok(Tree::Table(m)),
            id,
        ) == if clients.dom().contains(id) {
            known_in(clients[id])
        } else {
            None
        },
        (exists|key: Seq<char>| #[trigger]
            clients.dom().contains(key) && known_in(clients[key]) is None) ==> stored_lookup(
            Ok(Tree::Table(m)),
            id,
        ) is None,
        stored_lookup(Err(error), id) is None,
{
}

/// A directory can be written exactly when no client was last seen at a time that
/// is beyond the largest signed 64-bit number.
pub proof fn law_times_that_fit(entries: Seq<KnownEntryModel>)
    ensures
        all_times_fit(entries) <==> (forall|i: int|
            0 <= i < entries.len() ==> (#[trigger] entries[i]).client.last_seen_ms
                <= 0x7FFF_FFFF_FFFF_FFFF),
{
    if forall|i: int|
        0 <= i < entries.len() ==> (#[trigger] entries[i]).client.last_seen_ms
            <= 0x7FFF_FFFF_FFFF_FFFF {
        assert forall|i: int| 0 <= i < entries.len() implies time_fits(
            (#[trigger] entries[i]).client,
        ) by {}
    }
    if all_times_fit(entries) {
        assert forall|i: int| 0 <= i < entries.len() implies (
        #[trigger] entries[i]).client.last_seen_ms <= 0x7FFF_FFFF_FFFF_FFFF by {
            assert(time_fits(entries[i].client));
        }
    }
}

/// The directory is kept in `known_clients.toml`, in the configured directory, or
/// else beside the program, or else here.
pub proof fn law_where_the_directory_is(
    data: Seq<char>,
    program: Seq<char>,
    program_dir: Option<Seq<char>>,
)
    ensures
        directory_path(Some(data), program_dir) == crate::paths::joined(
            data,
            "known_clients.toml"@,
        ),
        directory_path(None, Some(program)) == crate::paths::joined(
            program,
            "known_clients.toml"@,
        ),
        directory_path(None, None) == directory_path(None, Some("."@)),
{
}

/// A list reads as the line that a table reads as that holds its items, in
/// order, under the same keys.
pub proof fn law_line_of_a_list(items: Seq<Tree>, m: Map<Seq<char>, Tree>)
    requires
        ({
            let keys = seq!["name"@, "assigned"@, "last_seen_ms"@];
            forall|k: int|
                0 <= k < keys.len() ==> (m.dom().contains(#[trigger] keys[k]) <==> k < items.len())
                    && (k < items.len() ==> m[keys[k]] == items[k])
        }),
    ensures
        known_in(Tree::List(items)) == known_in(Tree::Table(m)),
{
    let keys = seq!["name"@, "assigned"@, "last_seen_ms"@];
    assert(keys[0] == "name"@);
    assert(keys[1] == "assigned"@);
    assert(keys[2] == "last_seen_ms"@);
}

} // verus!
