//! The cue editor's client picker: every client the operator has ever seen or
//! named, by name.

use vstd::prelude::*;

use crate::known_clients;
use crate::known_clients::{find_entry, KnownEntry, KnownEntryModel};
use crate::state;
use crate::state::{find_row, AppState, ClientRow, RowModel};
use crate::text::chars_of;

verus! {

/// Does `a` come before `b` in the order of their characters' code points?
pub open spec fn before(a: Seq<char>, b: Seq<char>) -> bool
    decreases b.len(),
{
    if b.len() == 0 {
        false
    } else if a.len() == 0 {
        true
    } else if a[0] == b[0] {
        before(a.skip(1), b.skip(1))
    } else {
        (a[0] as int) < (b[0] as int)
    }
}

/// Does the code point of `a` come before that of `b`?
fn code_before(a: char, b: char) -> (r: bool)
    ensures
        r == ((a as int) < (b as int)),
{
    (a as u32) < (b as u32)
}

/// Does `a` come before `b`?
pub fn comes_before(a: &str, b: &str) -> (r: bool)
    ensures
        r == before(a@, b@),
{
    let v: Vec<char> = chars_of(a);
    let w: Vec<char> = chars_of(b);
    let mut i: usize = 0;
    assert(a@.skip(0) =~= a@);
    assert(b@.skip(0) =~= b@);
    while i < v.len() && i < w.len() && v[i] == w[i]
        invariant
            0 <= i <= v.len(),
            i <= w.len(),
            v@ == a@,
            w@ == b@,
            before(a@, b@) == before(a@.skip(i as int), b@.skip(i as int)),
        decreases v.len() - i,
    {
        assert(a@.skip(i as int).skip(1) =~= a@.skip(i + 1));
        assert(b@.skip(i as int).skip(1) =~= b@.skip(i + 1));
        i = i + 1;
    }
    if i == w.len() {
        false
    } else if i == v.len() {
        true
    } else {
        code_before(v[i], w[i])
    }
}

/// What does not come before `y` does not come before anything that comes
/// before `y`.
proof fn lemma_before(x: Seq<char>, y: Seq<char>, z: Seq<char>)
    requires
        before(x, y),
        !before(z, y),
    ensures
        !before(z, x),
    decreases x.len(),
{
    if x.len() > 0 && z.len() > 0 && y.len() > 0 {
        if x[0] == y[0] && y[0] == z[0] {
            lemma_before(x.skip(1), y.skip(1), z.skip(1));
        }
    }
}

/// A client that can be picked.
#[derive(Debug, PartialEq, Eq)]
pub struct Pick {
    pub client_id: String,
    pub name: String,
}

/// The model of a [`Pick`].
#[verifier::ext_equal]
pub struct PickModel {
    pub client_id: Seq<char>,
    pub name: Seq<char>,
}

impl DeepView for Pick {
    type V = PickModel;

    open spec fn deep_view(&self) -> PickModel {
        PickModel { client_id: self.client_id@, name: self.name@ }
    }
}

/// The name of a client of the directory: the one it has in the roster while it
/// is connected, else the one it is known by.
pub open spec fn name_of(entry: KnownEntryModel, rows: Seq<RowModel>) -> Seq<char> {
    let i = state::row_index(rows, entry.client_id);
    if i < rows.len() {
        rows[i].name
    } else {
        entry.client.name
    }
}

/// The clients of the directory, then those of the roster that the directory
/// does not know.
pub open spec fn merged(known: Seq<KnownEntryModel>, rows: Seq<RowModel>) -> Seq<PickModel> {
    known.map_values(
        |e: KnownEntryModel| PickModel { client_id: e.client_id, name: name_of(e, rows) },
    ) + unknown_part(known, rows)
}

/// The clients of the roster that the directory does not know.
pub open spec fn unknown_part(known: Seq<KnownEntryModel>, rows: Seq<RowModel>) -> Seq<PickModel>
    decreases rows.len(),
{
    if rows.len() == 0 {
        Seq::empty()
    } else {
        let front = unknown_part(known, rows.drop_last());
        let row = rows.last();
        if known_clients::lookup(known, row.client_id) is None {
            front.push(PickModel { client_id: row.client_id, name: row.name })
        } else {
            front
        }
    }
}

/// Are the clients in the order of their names?
pub open spec fn by_name(picks: Seq<PickModel>) -> bool {
    forall|i: int, j: int|
        0 <= i < j < picks.len() ==> !before((#[trigger] picks[j]).name, (#[trigger] picks[i]).name)
}

/// Put a client where its name belongs.
fn insert_by_name(picks: &mut Vec<Pick>, pick: Pick)
    requires
        by_name(old(picks).deep_view()),
    ensures
        by_name(final(picks).deep_view()),
        final(picks).deep_view().to_multiset() == old(picks).deep_view().to_multiset().insert(
            pick.deep_view(),
        ),
{
    let ghost list = picks.deep_view();
    let ghost model = pick.deep_view();
    let mut i: usize = 0;
    while i < picks.len() && !comes_before(pick.name.as_str(), picks[i].name.as_str())
        invariant
            0 <= i <= picks.len(),
            list == picks.deep_view(),
            model == pick.deep_view(),
            forall|k: int| 0 <= k < i ==> !before(model.name, (#[trigger] list[k]).name),
        decreases picks.len() - i,
    {
        assert(list[i as int] == picks@[i as int].deep_view());
        i = i + 1;
    }
    picks.insert(i, pick);
    proof {
        let after = picks.deep_view();
        assert(after =~= list.insert(i as int, model));
        vstd::seq_lib::to_multiset_insert(list, i as int, model);
        assert forall|a: int, b: int| 0 <= a < b < after.len() implies !before(
            (#[trigger] after[b]).name,
            (#[trigger] after[a]).name,
        ) by {
            if b < i {
                assert(after[a] == list[a] && after[b] == list[b]);
            } else if b == i {
                assert(after[a] == list[a]);
            } else if a < i {
                assert(after[a] == list[a] && after[b] == list[b - 1]);
            } else if a == i {
                assert(after[b] == list[b - 1]);
                assert(before(model.name, list[i as int].name));
                if b - 1 > i {
                    lemma_before(model.name, list[i as int].name, list[b - 1].name);
                } else {
                    lemma_not_before_itself(list[i as int].name);
                    lemma_before(model.name, list[i as int].name, list[i as int].name);
                }
            } else {
                assert(after[a] == list[a - 1] && after[b] == list[b - 1]);
            }
        }
    }
}

proof fn lemma_not_before_itself(s: Seq<char>)
    ensures
        !before(s, s),
    decreases s.len(),
{
    if s.len() > 0 {
        lemma_not_before_itself(s.skip(1));
    }
}

/// Everyone the operator can target, connected or not, by name. A connected
/// client goes by its name in the roster.
pub fn client_picks(state: &AppState) -> (r: Vec<Pick>)
    ensures
        by_name(r.deep_view()),
        r.deep_view().to_multiset() == merged(
            state@.known_clients,
            state@.clients,
        ).to_multiset(),
        forall|i: int, j: int|
            0 <= i < j < r@.len() ==> !before((#[trigger] r@[j]).name@, (#[trigger] r@[i]).name@),
{
    let known: &Vec<KnownEntry> = &state.known_clients;
    let rows: &Vec<ClientRow> = &state.clients;
    let ghost known_model = known.deep_view();
    let ghost row_model = rows.deep_view();
    let ghost all = merged(known_model, row_model);
    let mut picks: Vec<Pick> = Vec::new();
    let mut i: usize = 0;
    let ghost first = known_model.map_values(
        |e: KnownEntryModel| PickModel { client_id: e.client_id, name: name_of(e, row_model) },
    );
    proof {
        assert(picks.deep_view() =~= Seq::<PickModel>::empty());
        assert(first.take(0) =~= Seq::<PickModel>::empty());
    }
    while i < known.len()
        invariant
            0 <= i <= known.len(),
            known_model == known.deep_view(),
            row_model == rows.deep_view(),
            first == known_model.map_values(
                |e: KnownEntryModel|
                    PickModel { client_id: e.client_id, name: name_of(e, row_model) },
            ),
            by_name(picks.deep_view()),
            picks.deep_view().to_multiset() == first.take(i as int).to_multiset(),
        decreases known.len() - i,
    {
        assert(known_model[i as int] == known@[i as int].deep_view());
        let k: usize = find_row(rows, known[i].client_id.as_str());
        let name: String = if k < rows.len() {
            assert(row_model[k as int] == rows@[k as int].deep_view());
            rows[k].name.clone()
        } else {
            known[i].client.name.clone()
        };
        insert_by_name(&mut picks, Pick { client_id: known[i].client_id.clone(), name });
        proof {
            assert(first.take(i + 1) =~= first.take(i as int).push(first[i as int]));
            vstd::seq_lib::to_multiset_build(first.take(i as int), first[i as int]);
        }
        i = i + 1;
    }
    assert(first.take(i as int) =~= first);
    let mut j: usize = 0;
    proof {
        assert(row_model.take(0) =~= Seq::<RowModel>::empty());
        assert(first + unknown_part(known_model, row_model.take(0)) =~= first);
    }
    while j < rows.len()
        invariant
            0 <= j <= rows.len(),
            known_model == known.deep_view(),
            row_model == rows.deep_view(),
            by_name(picks.deep_view()),
            picks.deep_view().to_multiset() == (first + unknown_part(
                known_model,
                row_model.take(j as int),
            )).to_multiset(),
        decreases rows.len() - j,
    {
        assert(row_model[j as int] == rows@[j as int].deep_view());
        assert(row_model.take(j + 1).drop_last() =~= row_model.take(j as int));
        let k: usize = find_entry(known, rows[j].client_id.as_str());
        if k >= known.len() {
            insert_by_name(
                &mut picks,
                Pick { client_id: rows[j].client_id.clone(), name: rows[j].name.clone() },
            );
            proof {
                let front = first + unknown_part(known_model, row_model.take(j as int));
                let row = row_model[j as int];
                let pick = PickModel { client_id: row.client_id, name: row.name };
                assert(first + unknown_part(known_model, row_model.take(j + 1)) =~= front.push(
                    pick,
                ));
                vstd::seq_lib::to_multiset_build(front, pick);
            }
        }
        j = j + 1;
    }
    assert(row_model.take(j as int) =~= row_model);
    proof {
        let model = picks.deep_view();
        assert forall|a: int, b: int| 0 <= a < b < picks@.len() implies !before(
            (#[trigger] picks@[b]).name@,
            (#[trigger] picks@[a]).name@,
        ) by {
            assert(model[a] == picks@[a].deep_view() && model[b] == picks@[b].deep_view());
        }
    }
    picks
}

/// One text comes before another exactly when, behind what they have in common at
/// the start, it ends or goes on with the lower code point.
pub proof fn law_before_by_code_points(a: Seq<char>, b: Seq<char>)
    ensures
        before(a, b) <==> exists|k: int|
            0 <= k <= a.len() && k < b.len() && #[trigger] a.take(k) == b.take(k) && (k == a.len()
                || (k < a.len() && (a[k] as int) < (b[k] as int))),
    decreases b.len(),
{
    if before(a, b) {
        let k = lemma_before_at(a, b);
        assert(a.take(k) == b.take(k));
    }
    if exists|k: int|
        0 <= k <= a.len() && k < b.len() && #[trigger] a.take(k) == b.take(k) && (k == a.len() || (k
            < a.len() && (a[k] as int) < (b[k] as int))) {
        let k = choose|k: int|
            0 <= k <= a.len() && k < b.len() && #[trigger] a.take(k) == b.take(k) && (k == a.len()
                || (k < a.len() && (a[k] as int) < (b[k] as int)));
        lemma_before_from(a, b, k);
    }
}

proof fn lemma_before_at(a: Seq<char>, b: Seq<char>) -> (k: int)
    requires
        before(a, b),
    ensures
        0 <= k <= a.len(),
        k < b.len(),
        a.take(k) == b.take(k),
        k == a.len() || (k < a.len() && (a[k] as int) < (b[k] as int)),
    decreases b.len(),
{
    if a.len() > 0 && a[0] == b[0] {
        let k = lemma_before_at(a.skip(1), b.skip(1));
        let p = a.take(k + 1);
        let q = b.take(k + 1);
        assert forall|i: int| 0 <= i < k + 1 implies #[trigger] p[i] == q[i] by {
            if i > 0 {
                assert(a.skip(1).take(k)[i - 1] == b.skip(1).take(k)[i - 1]);
            }
        }
        assert(p =~= q);
        k + 1
    } else {
        assert(a.take(0) =~= b.take(0));
        0
    }
}

proof fn lemma_before_from(a: Seq<char>, b: Seq<char>, k: int)
    requires
        0 <= k <= a.len(),
        k < b.len(),
        a.take(k) == b.take(k),
        k == a.len() || (k < a.len() && (a[k] as int) < (b[k] as int)),
    ensures
        before(a, b),
    decreases k,
{
    if k > 0 {
        assert(a.take(k)[0] == a[0] && b.take(k)[0] == b[0]);
        assert(a[0] == b[0]);
        assert(a.skip(1).take(k - 1) =~= a.take(k).skip(1));
        assert(b.skip(1).take(k - 1) =~= b.take(k).skip(1));
        lemma_before_from(a.skip(1), b.skip(1), k - 1);
    }
}

proof fn lemma_unknown_has(known: Seq<KnownEntryModel>, rows: Seq<RowModel>, i: int) -> (k: int)
    requires
        0 <= i < rows.len(),
        known_clients::lookup(known, rows[i].client_id) is None,
    ensures
        0 <= k < unknown_part(known, rows).len(),
        unknown_part(known, rows)[k].client_id == rows[i].client_id,
        unknown_part(known, rows)[k].name == rows[i].name,
    decreases rows.len(),
{
    let front = rows.drop_last();
    if i == front.len() {
        unknown_part(known, rows).len() - 1
    } else {
        let k = lemma_unknown_has(known, front, i);
        assert(unknown_part(known, rows)[k] == unknown_part(known, front)[k]);
        k
    }
}

proof fn lemma_unknown_from(known: Seq<KnownEntryModel>, rows: Seq<RowModel>, k: int) -> (i: int)
    requires
        0 <= k < unknown_part(known, rows).len(),
    ensures
        0 <= i < rows.len(),
        known_clients::lookup(known, rows[i].client_id) is None,
        unknown_part(known, rows)[k].client_id == rows[i].client_id,
        unknown_part(known, rows)[k].name == rows[i].name,
    decreases rows.len(),
{
    let front = rows.drop_last();
    if k < unknown_part(known, front).len() {
        let i = lemma_unknown_from(known, front, k);
        assert(unknown_part(known, rows)[k] == unknown_part(known, front)[k]);
        i
    } else {
        rows.len() - 1
    }
}

proof fn lemma_unknown_once(known: Seq<KnownEntryModel>, rows: Seq<RowModel>, a: int, b: int)
    requires
        state::distinct_rows(rows),
        0 <= a < b < unknown_part(known, rows).len(),
    ensures
        unknown_part(known, rows)[a].client_id != unknown_part(known, rows)[b].client_id,
    decreases rows.len(),
{
    let front = rows.drop_last();
    let part = unknown_part(known, front);
    assert(unknown_part(known, rows)[a] == part[a]);
    assert forall|i: int, j: int| 0 <= i < j < front.len() implies (
    #[trigger] front[i]).client_id != (#[trigger] front[j]).client_id by {
        assert(rows[i].client_id != rows[j].client_id);
    }
    if b < part.len() {
        assert(unknown_part(known, rows)[b] == part[b]);
        lemma_unknown_once(known, front, a, b);
    } else {
        let i = lemma_unknown_from(known, front, a);
        assert(rows[i].client_id != rows[rows.len() - 1].client_id);
    }
}

/// Every client of the directory and every connected client can be picked, once,
/// and no one else. A connected client goes by its name in the roster, any other
/// by the name it is known by.
pub proof fn law_everyone_can_be_picked(known: Seq<KnownEntryModel>, rows: Seq<RowModel>)
    requires
        known_clients::distinct_entries(known),
        state::distinct_rows(rows),
    ensures
        ({
            let picks = merged(known, rows);
            &&& forall|i: int|
                0 <= i < rows.len() ==> exists|k: int|
                    0 <= k < picks.len() && (#[trigger] picks[k]).client_id == (
                    #[trigger] rows[i]).client_id && picks[k].name == rows[i].name
            &&& forall|i: int|
                0 <= i < known.len() ==> exists|k: int|
                    0 <= k < picks.len() && (#[trigger] picks[k]).client_id == (
                    #[trigger] known[i]).client_id && ((forall|j: int|
                        0 <= j < rows.len() ==> (#[trigger] rows[j]).client_id
                            != known[i].client_id) ==> picks[k].name == known[i].client.name)
            &&& forall|k: int|
                0 <= k < picks.len() ==> (exists|i: int|
                    0 <= i < rows.len() && (#[trigger] rows[i]).client_id == (
                    #[trigger] picks[k]).client_id) || (exists|i: int|
                    0 <= i < known.len() && (#[trigger] known[i]).client_id == picks[k].client_id)
            &&& forall|a: int, b: int|
                0 <= a < b < picks.len() ==> (#[trigger] picks[a]).client_id != (
                #[trigger] picks[b]).client_id
        }),
{
    let picks = merged(known, rows);
    let first = known.map_values(
        |e: KnownEntryModel| PickModel { client_id: e.client_id, name: name_of(e, rows) },
    );
    let part = unknown_part(known, rows);
    assert forall|i: int| 0 <= i < rows.len() implies exists|k: int|
        0 <= k < picks.len() && (#[trigger] picks[k]).client_id == (#[trigger] rows[i]).client_id
            && picks[k].name == rows[i].name by {
        let id = rows[i].client_id;
        known_clients::lemma_entry_index(known, id);
        let e = known_clients::entry_index(known, id);
        if e < known.len() {
            assert forall|j: int| 0 <= j < i implies (#[trigger] rows[j]).client_id != id by {
                assert(rows[j].client_id != rows[i].client_id);
            }
            state::lemma_row_index_is(rows, id, i);
            assert(picks[e] == first[e]);
        } else {
            let k = lemma_unknown_has(known, rows, i);
            assert(picks[first.len() + k] == part[k]);
        }
    }
    assert forall|i: int| 0 <= i < known.len() implies exists|k: int|
        0 <= k < picks.len() && (#[trigger] picks[k]).client_id == (#[trigger] known[i]).client_id
            && ((forall|j: int|
            0 <= j < rows.len() ==> (#[trigger] rows[j]).client_id != known[i].client_id)
            ==> picks[k].name == known[i].client.name) by {
        assert(picks[i] == first[i]);
        state::lemma_row_index(rows, known[i].client_id);
        let r = state::row_index(rows, known[i].client_id);
        if r < rows.len() {
            assert(rows[r].client_id == known[i].client_id);
        }
    }
    assert forall|k: int| 0 <= k < picks.len() implies (exists|i: int|
        0 <= i < rows.len() && (#[trigger] rows[i]).client_id == (#[trigger] picks[k]).client_id)
        || (exists|i: int|
        0 <= i < known.len() && (#[trigger] known[i]).client_id == picks[k].client_id) by {
        if k < first.len() {
            assert(picks[k] == first[k]);
            assert(known[k].client_id == picks[k].client_id);
        } else {
            let i = lemma_unknown_from(known, rows, k - first.len());
            assert(picks[k] == part[k - first.len()]);
            assert(rows[i].client_id == picks[k].client_id);
        }
    }
    assert forall|a: int, b: int| 0 <= a < b < picks.len() implies (#[trigger] picks[a]).client_id
        != (#[trigger] picks[b]).client_id by {
        if b < first.len() {
            assert(picks[a] == first[a] && picks[b] == first[b]);
            assert(known[a].client_id != known[b].client_id);
        } else if a >= first.len() {
            assert(picks[a] == part[a - first.len()] && picks[b] == part[b - first.len()]);
            lemma_unknown_once(known, rows, a - first.len(), b - first.len());
        } else {
            assert(picks[a] == first[a] && picks[b] == part[b - first.len()]);
            let i = lemma_unknown_from(known, rows, b - first.len());
            known_clients::lemma_entry_index(known, rows[i].client_id);
            assert(known[a].client_id != rows[i].client_id);
        }
    }
}

} // verus!
