//! Show files (`*.multiplex.toml`): what a show is as TOML.
//!
//! Keys that a show does not know are passed over, so that files of older
//! versions still open.

use vstd::prelude::*;

use crate::document;
use crate::document::{
    field, is_calm, parse_document, put, put_optional_text, read_choice, read_number, read_optional_flag,
    read_optional_number, read_optional_text, read_rate, read_text, read_text_list, write_document, Entry, Node, Tree,
};
use crate::show::{
    CorrectionModel, Cue, CueKind, CueModel, CueTarget, DropoutPolicy, EndAction, ExcludeAction,
    Poster, PosterModel, Show, ShowError, ShowErrorModel, ShowFile, ShowFileModel, ShowModel,
    SyncConfig, SyncCorrection, SyncModel, TargetModel,
};
use crate::text::same_text;

verus! {

/// The cue kind that a field chooses.
pub open spec fn kind_in(f: Option<Tree>) -> Option<CueKind> {
    if document::chooses(f, "video"@) {
        Some(CueKind::Video)
    } else if document::chooses(f, "image"@) {
        Some(CueKind::Image)
    } else if document::chooses(f, "color"@) {
        Some(CueKind::Color)
    } else {
        None
    }
}

fn read_kind(f: Option<&Node>) -> (r: Option<CueKind>)
    ensures
        r == kind_in(document::seen(f)),
{
    if read_choice(f, "video") {
        Some(CueKind::Video)
    } else if read_choice(f, "image") {
        Some(CueKind::Image)
    } else if read_choice(f, "color") {
        Some(CueKind::Color)
    } else {
        None
    }
}

/// The end action that a field chooses; one that is not there cuts.
pub open spec fn end_in(f: Option<Tree>) -> Option<EndAction> {
    if f is None || document::chooses(f, "cut"@) {
        Some(EndAction::Cut)
    } else if document::chooses(f, "freeze"@) {
        Some(EndAction::Freeze)
    } else if document::chooses(f, "fade"@) {
        Some(EndAction::Fade)
    } else {
        None
    }
}

fn read_end(f: Option<&Node>) -> (r: Option<EndAction>)
    ensures
        r == end_in(document::seen(f)),
{
    if f.is_none() || read_choice(f, "cut") {
        Some(EndAction::Cut)
    } else if read_choice(f, "freeze") {
        Some(EndAction::Freeze)
    } else if read_choice(f, "fade") {
        Some(EndAction::Fade)
    } else {
        None
    }
}

/// The exclude action that a field chooses; one that is not there ignores.
pub open spec fn exclude_in(f: Option<Tree>) -> Option<ExcludeAction> {
    if f is None || document::chooses(f, "ignore"@) {
        Some(ExcludeAction::Ignore)
    } else if document::chooses(f, "poster"@) {
        Some(ExcludeAction::Poster)
    } else if document::chooses(f, "color"@) {
        Some(ExcludeAction::Color)
    } else {
        None
    }
}

fn read_exclude(f: Option<&Node>) -> (r: Option<ExcludeAction>)
    ensures
        r == exclude_in(document::seen(f)),
{
    if f.is_none() || read_choice(f, "ignore") {
        Some(ExcludeAction::Ignore)
    } else if read_choice(f, "poster") {
        Some(ExcludeAction::Poster)
    } else if read_choice(f, "color") {
        Some(ExcludeAction::Color)
    } else {
        None
    }
}

/// The dropout policy that a field chooses; one that is not there continues.
pub open spec fn dropout_in(f: Option<Tree>) -> Option<DropoutPolicy> {
    if f is None || document::chooses(f, "continue"@) {
        Some(DropoutPolicy::Continue)
    } else if document::chooses(f, "freeze"@) {
        Some(DropoutPolicy::Freeze)
    } else if document::chooses(f, "black"@) {
        Some(DropoutPolicy::Black)
    } else {
        None
    }
}

/// The dropout policy that a field chooses; one that is not there continues.
pub fn read_dropout(f: Option<&Node>) -> (r: Option<DropoutPolicy>)
    ensures
        r == dropout_in(document::seen(f)),
{
    if f.is_none() || read_choice(f, "continue") {
        Some(DropoutPolicy::Continue)
    } else if read_choice(f, "freeze") {
        Some(DropoutPolicy::Freeze)
    } else if read_choice(f, "black") {
        Some(DropoutPolicy::Black)
    } else {
        None
    }
}

/// The target that a field gives. It names a mode and, unless the mode is
/// `all`, the clients; a list must then hold nothing more.
pub open spec fn target_in(f: Option<Tree>) -> Option<TargetModel> {
    match f {
        None => Some(TargetModel::All),
        Some(t) => {
            let mode = document::field_of(t, "mode"@, 0);
            let clients = document::field_of(t, "clients"@, 1);
            let fits = |n: int| t matches Tree::List(items) ==> items.len() == n;
            if mode == Some(Tree::Text("all"@)) && fits(1) {
                Some(TargetModel::All)
            } else if mode == Some(Tree::Text("whitelist"@)) && document::is_text_list(clients)
                && fits(2) {
                Some(TargetModel::Whitelist { clients: document::text_list_in(clients) })
            } else if mode == Some(Tree::Text("blacklist"@)) && document::is_text_list(clients)
                && fits(2) {
                Some(TargetModel::Blacklist { clients: document::text_list_in(clients) })
            } else {
                None
            }
        },
    }
}

/// The length of a list, if the node is one.
fn list_len(n: &Node) -> (r: Option<usize>)
    ensures
        match n@ {
            Tree::List(items) => r is Some && r->0 == items.len(),
            _ => r is None,
        },
{
    match n {
        Node::List(items) => {
            proof {
                document::lemma_list_of(items@);
            }
            Some(items.len())
        },
        _ => None,
    }
}

fn read_target(f: Option<&Node>) -> (r: Option<CueTarget>)
    ensures
        match r {
            Some(t) => target_in(document::seen(f)) == Some(t@),
            None => target_in(document::seen(f)) is None,
        },
{
    let n: &Node = match f {
        Some(n) => n,
        None => {
            return Some(CueTarget::All);
        },
    };
    let mode: String = match read_text(field(n, "mode", 0)) {
        Some(mode) => mode,
        None => {
            return None;
        },
    };
    let len: Option<usize> = list_len(n);
    let fits_one: bool = match len {
        Some(n) => n == 1,
        None => true,
    };
    let fits_two: bool = match len {
        Some(n) => n == 2,
        None => true,
    };
    if same_text(mode.as_str(), "all") && fits_one {
        return Some(CueTarget::All);
    }
    if !fits_two {
        return None;
    }
    match read_text_list(field(n, "clients", 1)) {
        Some(clients) => if same_text(mode.as_str(), "whitelist") {
            Some(CueTarget::Whitelist { clients })
        } else if same_text(mode.as_str(), "blacklist") {
            Some(CueTarget::Blacklist { clients })
        } else {
            None
        },
        None => None,
    }
}

/// The first field of a cue that is missing or does not hold what it should.
pub open spec fn cue_problem(t: Tree) -> Option<Seq<char>> {
    if !document::record(t) {
        Some("cues"@)
    } else if !document::is_text(document::field_of(t, "id"@, 0)) {
        Some("id"@)
    } else if !document::is_text(document::field_of(t, "name"@, 1)) {
        Some("name"@)
    } else if kind_in(document::field_of(t, "type"@, 2)) is None {
        Some("type"@)
    } else if !document::is_text_or_absent(document::field_of(t, "file"@, 3)) {
        Some("file"@)
    } else if !document::is_text_or_absent(document::field_of(t, "color"@, 4)) {
        Some("color"@)
    } else if !document::is_number_or_absent(
        document::field_of(t, "fade_in_ms"@, 5),
        u32::MAX as int,
    ) {
        Some("fade_in_ms"@)
    } else if !document::is_number_or_absent(document::field_of(t, "in_ms"@, 6), u32::MAX as int) {
        Some("in_ms"@)
    } else if !document::is_number_or_absent(document::field_of(t, "out_ms"@, 7), u32::MAX as int) {
        Some("out_ms"@)
    } else if !document::is_flag_or_absent(document::field_of(t, "loop"@, 8)) {
        Some("loop"@)
    } else if end_in(document::field_of(t, "on_end"@, 9)) is None {
        Some("on_end"@)
    } else if !document::is_text_or_absent(document::field_of(t, "notes"@, 10)) {
        Some("notes"@)
    } else if target_in(document::field_of(t, "target"@, 11)) is None {
        Some("target"@)
    } else if exclude_in(document::field_of(t, "exclude_action"@, 12)) is None {
        Some("exclude_action"@)
    } else if !document::is_text_or_absent(document::field_of(t, "exclude_color"@, 13)) {
        Some("exclude_color"@)
    } else {
        None
    }
}

/// The cue that a tree without a problem holds.
pub open spec fn cue_in(t: Tree) -> CueModel {
    CueModel {
        id: document::text_in(document::field_of(t, "id"@, 0)),
        name: document::text_in(document::field_of(t, "name"@, 1)),
        kind: kind_in(document::field_of(t, "type"@, 2))->0,
        file: document::text_in(document::field_of(t, "file"@, 3)),
        color: document::some_text_in(document::field_of(t, "color"@, 4)),
        fade_in_ms: document::number_in(document::field_of(t, "fade_in_ms"@, 5), 0) as u32,
        in_ms: document::number_in(document::field_of(t, "in_ms"@, 6), 0) as u32,
        out_ms: match document::field_of(t, "out_ms"@, 7) {
            Some(n) => Some(document::number_in(Some(n), 0) as u32),
            None => None,
        },
        loops: document::flag_in(document::field_of(t, "loop"@, 8)),
        on_end: end_in(document::field_of(t, "on_end"@, 9))->0,
        notes: document::some_text_in(document::field_of(t, "notes"@, 10)),
        target: target_in(document::field_of(t, "target"@, 11))->0,
        exclude_action: exclude_in(document::field_of(t, "exclude_action"@, 12))->0,
        exclude_color: document::some_text_in(document::field_of(t, "exclude_color"@, 13)),
    }
}

/// Can the node be read as a record?
pub fn is_record(n: &Node) -> (r: bool)
    ensures
        r == document::record(n@),
{
    match n {
        Node::Table(_) => true,
        Node::List(_) => true,
        _ => false,
    }
}

/// Read a cue.
fn read_cue(n: &Node) -> (r: Result<Cue, &'static str>)
    ensures
        match r {
            Ok(c) => cue_problem(n@) is None && c@ == cue_in(n@),
            Err(key) => cue_problem(n@) == Some(key@),
        },
{
    if !is_record(n) {
        return Err("cues");
    }
    let id: String = match read_text(field(n, "id", 0)) {
        Some(v) => v,
        None => {
            return Err("id");
        },
    };
    let name: String = match read_text(field(n, "name", 1)) {
        Some(v) => v,
        None => {
            return Err("name");
        },
    };
    let kind: CueKind = match read_kind(field(n, "type", 2)) {
        Some(v) => v,
        None => {
            return Err("type");
        },
    };
    let file: String = match read_optional_text(field(n, "file", 3)) {
        Some(Some(v)) => v,
        Some(None) => String::new(),
        None => {
            return Err("file");
        },
    };
    let color: Option<String> = match read_optional_text(field(n, "color", 4)) {
        Some(v) => v,
        None => {
            return Err("color");
        },
    };
    let fade_in_ms: u64 = match read_optional_number(
        field(n, "fade_in_ms", 5),
        u32::MAX as u64,
        0,
    ) {
        Some(v) => v,
        None => {
            return Err("fade_in_ms");
        },
    };
    let in_ms: u64 = match read_optional_number(field(n, "in_ms", 6), u32::MAX as u64, 0) {
        Some(v) => v,
        None => {
            return Err("in_ms");
        },
    };
    let out_field: Option<&Node> = field(n, "out_ms", 7);
    let out_ms: Option<u32> = match read_optional_number(out_field, u32::MAX as u64, 0) {
        Some(v) => if out_field.is_some() {
            Some(v as u32)
        } else {
            None
        },
        None => {
            return Err("out_ms");
        },
    };
    let loops: bool = match read_optional_flag(field(n, "loop", 8)) {
        Some(v) => v,
        None => {
            return Err("loop");
        },
    };
    let on_end: EndAction = match read_end(field(n, "on_end", 9)) {
        Some(v) => v,
        None => {
            return Err("on_end");
        },
    };
    let notes: Option<String> = match read_optional_text(field(n, "notes", 10)) {
        Some(v) => v,
        None => {
            return Err("notes");
        },
    };
    let target: CueTarget = match read_target(field(n, "target", 11)) {
        Some(v) => v,
        None => {
            return Err("target");
        },
    };
    let exclude_action: ExcludeAction = match read_exclude(field(n, "exclude_action", 12)) {
        Some(v) => v,
        None => {
            return Err("exclude_action");
        },
    };
    let exclude_color: Option<String> = match read_optional_text(field(n, "exclude_color", 13)) {
        Some(v) => v,
        None => {
            return Err("exclude_color");
        },
    };
    let cue = Cue {
        id,
        name,
        kind,
        file,
        color,
        fade_in_ms: fade_in_ms as u32,
        in_ms: in_ms as u32,
        out_ms,
        loops,
        on_end,
        notes,
        target,
        exclude_action,
        exclude_color,
    };
    assert(cue@ =~= cue_in(n@));
    Ok(cue)
}

/// The first problem of the cues from index `i` on.
pub open spec fn cues_problem(items: Seq<Tree>, i: int) -> Option<Seq<char>>
    decreases items.len() - i,
{
    if i >= items.len() {
        None
    } else {
        match cue_problem(items[i]) {
            Some(key) => Some(key),
            None => cues_problem(items, i + 1),
        }
    }
}

/// The cues of a list of trees without a problem.
pub open spec fn cues_in(items: Seq<Tree>) -> Seq<CueModel> {
    items.map_values(|t: Tree| cue_in(t))
}

/// The cues that a field lists.
pub open spec fn cue_items(f: Option<Tree>) -> Seq<Tree> {
    match f {
        Some(Tree::List(items)) => items,
        _ => Seq::empty(),
    }
}

/// The problem of a list of cues; one that is not there is empty.
pub open spec fn cue_list_problem(f: Option<Tree>) -> Option<Seq<char>> {
    match f {
        None => None,
        Some(Tree::List(items)) => cues_problem(items, 0),
        _ => Some("cues"@),
    }
}

fn read_cues(f: Option<&Node>) -> (r: Result<Vec<Cue>, &'static str>)
    ensures
        match r {
            Ok(cues) => cue_list_problem(document::seen(f)) is None && cues.deep_view() == cues_in(
                cue_items(document::seen(f)),
            ),
            Err(key) => cue_list_problem(document::seen(f)) == Some(key@),
        },
{
    let mut cues: Vec<Cue> = Vec::new();
    match f {
        None => {
            assert(cues.deep_view() =~= cues_in(cue_items(document::seen(f))));
            Ok(cues)
        },
        Some(Node::List(items)) => {
            let ghost trees = document::list_of(items@);
            proof {
                document::lemma_list_of(items@);
            }
            let mut i: usize = 0;
            while i < items.len()
                invariant
                    0 <= i <= items.len(),
                    trees == document::list_of(items@),
                    trees.len() == items.len(),
                    forall|k: int| 0 <= k < items.len() ==> #[trigger] trees[k] == items@[k]@,
                    document::seen(f) == Some(Tree::List(trees)),
                    cues_problem(trees, 0) == cues_problem(trees, i as int),
                    cues@.len() == i,
                    forall|k: int| 0 <= k < i ==> (#[trigger] cues@[k])@ == cue_in(trees[k]),
                decreases items.len() - i,
            {
                assert(trees[i as int] == items@[i as int]@);
                match read_cue(&items[i]) {
                    Ok(cue) => {
                        cues.push(cue);
                    },
                    Err(key) => {
                        return Err(key);
                    },
                }
                i = i + 1;
            }
            assert(cues.deep_view() =~= cues_in(trees));
            Ok(cues)
        },
        _ => Err("cues"),
    }
}

/// The first field of the sync settings that is missing or does not hold what
/// it should. Settings that are not there at all have no problem.
pub open spec fn sync_problem(f: Option<Tree>) -> Option<Seq<char>> {
    match f {
        None => None,
        Some(t) => {
            let c = document::field_of(t, "correction"@, 2);
            if !document::record(t) {
                Some("sync"@)
            } else if !document::is_number(
                document::field_of(t, "max_drift_ms"@, 0),
                u32::MAX as int,
            ) {
                Some("max_drift_ms"@)
            } else if !document::is_number(
                document::field_of(t, "start_lead_ms"@, 1),
                u32::MAX as int,
            ) {
                Some("start_lead_ms"@)
            } else {
                match c {
                    Some(c) => correction_problem(c),
                    None => Some("correction"@),
                }
            }
        },
    }
}

/// The first field of the rate correction that is missing or does not hold what
/// it should.
pub open spec fn correction_problem(t: Tree) -> Option<Seq<char>> {
    if !document::record(t) {
        Some("correction"@)
    } else if !document::is_rate(document::field_of(t, "rate_min"@, 0)) {
        Some("rate_min"@)
    } else if !document::is_rate(document::field_of(t, "rate_max"@, 1)) {
        Some("rate_max"@)
    } else if !document::is_number(
        document::field_of(t, "hard_seek_threshold_ms"@, 2),
        u32::MAX as int,
    ) {
        Some("hard_seek_threshold_ms"@)
    } else if !document::is_number(
        document::field_of(t, "sync_interval_ms"@, 3),
        u32::MAX as int,
    ) {
        Some("sync_interval_ms"@)
    } else {
        None
    }
}

/// The rate correction that a tree without a problem holds.
pub open spec fn correction_in(t: Tree) -> CorrectionModel {
    CorrectionModel {
        rate_min: document::rate_in(document::field_of(t, "rate_min"@, 0)),
        rate_max: document::rate_in(document::field_of(t, "rate_max"@, 1)),
        hard_seek_threshold_ms: document::number_in(
            document::field_of(t, "hard_seek_threshold_ms"@, 2),
            0,
        ) as u32,
        sync_interval_ms: document::number_in(
            document::field_of(t, "sync_interval_ms"@, 3),
            0,
        ) as u32,
    }
}

/// The sync settings that a field without a problem holds.
pub open spec fn sync_in(f: Option<Tree>) -> SyncModel {
    match f {
        None => SyncModel::standard(),
        Some(t) => SyncModel {
            max_drift_ms: document::number_in(
                document::field_of(t, "max_drift_ms"@, 0),
                0,
            ) as u32,
            start_lead_ms: document::number_in(
                document::field_of(t, "start_lead_ms"@, 1),
                0,
            ) as u32,
            correction: correction_in(document::field_of(t, "correction"@, 2)->0),
        },
    }
}

fn read_correction(n: &Node) -> (r: Result<SyncCorrection, &'static str>)
    ensures
        match r {
            Ok(c) => correction_problem(n@) is None && c@ == correction_in(n@),
            Err(key) => correction_problem(n@) == Some(key@),
        },
{
    if !is_record(n) {
        return Err("correction");
    }
    let rate_min: String = match read_rate(field(n, "rate_min", 0)) {
        Some(v) => v,
        None => {
            return Err("rate_min");
        },
    };
    let rate_max: String = match read_rate(field(n, "rate_max", 1)) {
        Some(v) => v,
        None => {
            return Err("rate_max");
        },
    };
    let threshold: u64 = match read_number(
        field(n, "hard_seek_threshold_ms", 2),
        u32::MAX as u64,
    ) {
        Some(v) => v,
        None => {
            return Err("hard_seek_threshold_ms");
        },
    };
    let interval: u64 = match read_number(field(n, "sync_interval_ms", 3), u32::MAX as u64) {
        Some(v) => v,
        None => {
            return Err("sync_interval_ms");
        },
    };
    Ok(
        SyncCorrection {
            rate_min,
            rate_max,
            hard_seek_threshold_ms: threshold as u32,
            sync_interval_ms: interval as u32,
        },
    )
}

/// Read the sync settings; those of a show that names none are the standard
/// ones.
pub fn read_sync(f: Option<&Node>) -> (r: Result<SyncConfig, &'static str>)
    ensures
        match r {
            Ok(c) => sync_problem(document::seen(f)) is None && c@ == sync_in(document::seen(f)),
            Err(key) => sync_problem(document::seen(f)) == Some(key@),
        },
{
    let n: &Node = match f {
        Some(n) => n,
        None => {
            return Ok(SyncConfig::default());
        },
    };
    if !is_record(n) {
        return Err("sync");
    }
    let max_drift_ms: u64 = match read_number(field(n, "max_drift_ms", 0), u32::MAX as u64) {
        Some(v) => v,
        None => {
            return Err("max_drift_ms");
        },
    };
    let start_lead_ms: u64 = match read_number(field(n, "start_lead_ms", 1), u32::MAX as u64) {
        Some(v) => v,
        None => {
            return Err("start_lead_ms");
        },
    };
    match field(n, "correction", 2) {
        Some(c) => match read_correction(c) {
            Ok(correction) => Ok(
                SyncConfig {
                    max_drift_ms: max_drift_ms as u32,
                    start_lead_ms: start_lead_ms as u32,
                    correction,
                },
            ),
            Err(key) => Err(key),
        },
        None => Err("correction"),
    }
}

/// The first problem of the poster. One that is not there has none.
pub open spec fn poster_problem(f: Option<Tree>) -> Option<Seq<char>> {
    match f {
        None => None,
        Some(t) => if !document::record(t) {
            Some("poster"@)
        } else if kind_in(document::field_of(t, "type"@, 0)) is None {
            Some("type"@)
        } else if !document::is_text(document::field_of(t, "file"@, 1)) {
            Some("file"@)
        } else {
            None
        },
    }
}

/// The poster that a field without a problem holds.
pub open spec fn poster_in(f: Option<Tree>) -> Option<PosterModel> {
    match f {
        None => None,
        Some(t) => Some(
            PosterModel {
                kind: kind_in(document::field_of(t, "type"@, 0))->0,
                file: document::text_in(document::field_of(t, "file"@, 1)),
            },
        ),
    }
}

fn read_poster(f: Option<&Node>) -> (r: Result<Option<Poster>, &'static str>)
    ensures
        match r {
            Ok(p) => poster_problem(document::seen(f)) is None && p.deep_view() == poster_in(
                document::seen(f),
            ),
            Err(key) => poster_problem(document::seen(f)) == Some(key@),
        },
{
    let n: &Node = match f {
        Some(n) => n,
        None => {
            return Ok(None);
        },
    };
    if !is_record(n) {
        return Err("poster");
    }
    match read_kind(field(n, "type", 0)) {
        Some(kind) => match read_text(field(n, "file", 1)) {
            Some(file) => Ok(Some(Poster { kind, file })),
            None => Err("file"),
        },
        None => Err("type"),
    }
}

/// The first problem of a show's settings.
pub open spec fn settings_problem(t: Tree) -> Option<Seq<char>> {
    if !document::record(t) {
        Some("show"@)
    } else if !document::is_text(document::field_of(t, "title"@, 0)) {
        Some("title"@)
    } else if !document::is_number(document::field_of(t, "version"@, 1), u32::MAX as int) {
        Some("version"@)
    } else if !document::is_text(document::field_of(t, "media_root"@, 2)) {
        Some("media_root"@)
    } else if dropout_in(document::field_of(t, "dropout_policy"@, 3)) is None {
        Some("dropout_policy"@)
    } else {
        match sync_problem(document::field_of(t, "sync"@, 4)) {
            Some(key) => Some(key),
            None => poster_problem(document::field_of(t, "poster"@, 5)),
        }
    }
}

/// The settings that a tree without a problem holds.
pub open spec fn settings_in(t: Tree) -> ShowModel {
    ShowModel {
        title: document::text_in(document::field_of(t, "title"@, 0)),
        version: document::number_in(document::field_of(t, "version"@, 1), 0) as u32,
        media_root: document::text_in(document::field_of(t, "media_root"@, 2)),
        dropout_policy: dropout_in(document::field_of(t, "dropout_policy"@, 3))->0,
        sync: sync_in(document::field_of(t, "sync"@, 4)),
        poster: poster_in(document::field_of(t, "poster"@, 5)),
    }
}

fn read_settings(n: &Node) -> (r: Result<Show, &'static str>)
    ensures
        match r {
            Ok(s) => settings_problem(n@) is None && s@ == settings_in(n@),
            Err(key) => settings_problem(n@) == Some(key@),
        },
{
    if !is_record(n) {
        return Err("show");
    }
    let title: String = match read_text(field(n, "title", 0)) {
        Some(v) => v,
        None => {
            return Err("title");
        },
    };
    let version: u64 = match read_number(field(n, "version", 1), u32::MAX as u64) {
        Some(v) => v,
        None => {
            return Err("version");
        },
    };
    let media_root: String = match read_text(field(n, "media_root", 2)) {
        Some(v) => v,
        None => {
            return Err("media_root");
        },
    };
    let dropout_policy: DropoutPolicy = match read_dropout(field(n, "dropout_policy", 3)) {
        Some(v) => v,
        None => {
            return Err("dropout_policy");
        },
    };
    let sync: SyncConfig = match read_sync(field(n, "sync", 4)) {
        Ok(v) => v,
        Err(key) => {
            return Err(key);
        },
    };
    let poster: Option<Poster> = match read_poster(field(n, "poster", 5)) {
        Ok(v) => v,
        Err(key) => {
            return Err(key);
        },
    };
    Ok(Show { title, version: version as u32, media_root, dropout_policy, sync, poster })
}

/// The first field of a show file that is missing or does not hold what it
/// should.
pub open spec fn show_problem(t: Tree) -> Option<Seq<char>> {
    match document::field_of(t, "show"@, 0) {
        None => Some("show"@),
        Some(s) => match settings_problem(s) {
            Some(key) => Some(key),
            None => cue_list_problem(document::field_of(t, "cues"@, 1)),
        },
    }
}

/// The show that a tree without a problem holds.
pub open spec fn show_in(t: Tree) -> ShowFileModel {
    ShowFileModel {
        show: settings_in(document::field_of(t, "show"@, 0)->0),
        cues: cues_in(cue_items(document::field_of(t, "cues"@, 1))),
    }
}

/// Read a show from a document.
pub fn read_show(n: &Node) -> (r: Result<ShowFile, &'static str>)
    ensures
        match r {
            Ok(s) => show_problem(n@) is None && s@ == show_in(n@),
            Err(key) => show_problem(n@) == Some(key@),
        },
{
    let show: Show = match field(n, "show", 0) {
        Some(s) => match read_settings(s) {
            Ok(v) => v,
            Err(key) => {
                return Err(key);
            },
        },
        None => {
            return Err("show");
        },
    };
    match read_cues(field(n, "cues", 1)) {
        Ok(cues) => Ok(ShowFile { show, cues }),
        Err(key) => Err(key),
    }
}

/// The complaint about a field.
pub open spec fn complaint(key: Seq<char>) -> Seq<char> {
    "invalid or missing field `"@ + key + "`"@
}

/// What a text holds as a show file: a valid show, or what is wrong with it.
pub open spec fn opened(parsed: Result<Tree, Seq<char>>) -> Result<ShowFileModel, ShowErrorModel> {
    match parsed {
        Err(e) => Err(ShowErrorModel::Toml(e)),
        Ok(t) => match show_problem(t) {
            Some(key) => Err(ShowErrorModel::Toml(complaint(key))),
            None => match show_in(t).fault() {
                Some(e) => Err(e),
                None => Ok(show_in(t)),
            },
        },
    }
}

/// What loading a show file gives, from the outcome of reading it: the show
/// that its text holds, or what went wrong.
pub open spec fn loaded(read: Result<Seq<char>, Seq<char>>) -> Result<
    ShowFileModel,
    ShowErrorModel,
> {
    match read {
        Ok(raw) => opened(document::parsed_toml(raw)),
        Err(e) => Err(ShowErrorModel::Io(e)),
    }
}

/// The model of the outcome of reading a file.
pub open spec fn read_outcome(read: Result<String, String>) -> Result<Seq<char>, Seq<char>> {
    match read {
        Ok(raw) => Ok(raw@),
        Err(e) => Err(e@),
    }
}

/// A show from the outcome of reading its document: a valid one, or what is
/// wrong with it.
pub fn open_document(parsed: Result<Node, String>) -> (r: Result<ShowFile, ShowError>)
    ensures
        match r {
            Ok(s) => opened(document::outcome(parsed)) == Ok::<ShowFileModel, ShowErrorModel>(s@),
            Err(e) => opened(document::outcome(parsed)) == Err::<ShowFileModel, ShowErrorModel>(e@),
        },
{
    match parsed {
        Ok(n) => match read_show(&n) {
            Ok(show) => match show.validate() {
                Ok(()) => Ok(show),
                Err(e) => Err(e),
            },
            Err(key) => Err(
                ShowError::Toml(
                    "invalid or missing field `".to_owned().concat(key).concat("`"),
                ),
            ),
        },
        Err(e) => Err(ShowError::Toml(e)),
    }
}

impl ShowFile {
    /// Load a show file from the outcome of reading it: parse its text and
    /// validate the show.
    pub fn load(read: Result<String, String>) -> (r: Result<Self, ShowError>)
        ensures
            match r {
                Ok(s) => loaded(read_outcome(read)) == Ok::<ShowFileModel, ShowErrorModel>(s@),
                Err(e) => loaded(read_outcome(read)) == Err::<ShowFileModel, ShowErrorModel>(
                    e@,
                ),
            },
    {
        match read {
            Ok(raw) => Self::parse_str(raw.as_str()),
            Err(e) => Err(ShowError::Io(e)),
        }
    }

    /// Parse a show file from an in-memory string, then validate.
    pub fn parse_str(raw: &str) -> (r: Result<Self, ShowError>)
        ensures
            match r {
                Ok(s) => opened(document::parsed_toml(raw@)) == Ok::<ShowFileModel, ShowErrorModel>(
                    s@,
                ),
                Err(e) => opened(document::parsed_toml(raw@)) == Err::<
                    ShowFileModel,
                    ShowErrorModel,
                >(e@),
            },
    {
        open_document(parse_document(raw))
    }
}

/// The name of a cue kind.
pub open spec fn kind_name(kind: CueKind) -> Seq<char> {
    match kind {
        CueKind::Video => "video"@,
        CueKind::Image => "image"@,
        CueKind::Color => "color"@,
    }
}

/// The name of an end action.
pub open spec fn end_name(action: EndAction) -> Seq<char> {
    match action {
        EndAction::Cut => "cut"@,
        EndAction::Freeze => "freeze"@,
        EndAction::Fade => "fade"@,
    }
}

/// The name of an exclude action.
pub open spec fn exclude_name(action: ExcludeAction) -> Seq<char> {
    match action {
        ExcludeAction::Ignore => "ignore"@,
        ExcludeAction::Poster => "poster"@,
        ExcludeAction::Color => "color"@,
    }
}

/// The name of a dropout policy.
pub open spec fn dropout_name(policy: DropoutPolicy) -> Seq<char> {
    match policy {
        DropoutPolicy::Continue => "continue"@,
        DropoutPolicy::Freeze => "freeze"@,
        DropoutPolicy::Black => "black"@,
    }
}

/// A list of texts as a tree.
pub open spec fn texts_tree(texts: Seq<Seq<char>>) -> Tree {
    Tree::List(texts.map_values(|s: Seq<char>| Tree::Text(s)))
}

/// A target as a table.
pub open spec fn target_table(target: TargetModel) -> Map<Seq<char>, Tree> {
    match target {
        TargetModel::All => Map::empty().insert("mode"@, Tree::Text("all"@)),
        TargetModel::Whitelist { clients } => Map::empty().insert(
            "mode"@,
            Tree::Text("whitelist"@),
        ).insert("clients"@, texts_tree(clients)),
        TargetModel::Blacklist { clients } => Map::empty().insert(
            "mode"@,
            Tree::Text("blacklist"@),
        ).insert("clients"@, texts_tree(clients)),
    }
}

/// A cue as a table. Values that are not set are left out.
pub open spec fn cue_table(c: CueModel) -> Map<Seq<char>, Tree> {
    let head = Map::empty().insert("id"@, Tree::Text(c.id)).insert("name"@, Tree::Text(c.name)).insert(
        "type"@,
        Tree::Text(kind_name(c.kind)),
    ).insert("file"@, Tree::Text(c.file));
    let timed = document::with_text(head, "color"@, c.color).insert(
        "fade_in_ms"@,
        Tree::Integer(c.fade_in_ms as i64),
    ).insert("in_ms"@, Tree::Integer(c.in_ms as i64));
    let bounded = match c.out_ms {
        Some(ms) => timed.insert("out_ms"@, Tree::Integer(ms as i64)),
        None => timed,
    }.insert("loop"@, Tree::Flag(c.loops)).insert("on_end"@, Tree::Text(end_name(c.on_end)));
    let targeted = document::with_text(bounded, "notes"@, c.notes).insert(
        "target"@,
        Tree::Table(target_table(c.target)),
    ).insert("exclude_action"@, Tree::Text(exclude_name(c.exclude_action)));
    document::with_text(targeted, "exclude_color"@, c.exclude_color)
}

/// Cues as trees.
pub open spec fn cue_trees(cues: Seq<CueModel>) -> Seq<Tree> {
    cues.map_values(|c: CueModel| Tree::Table(cue_table(c)))
}

/// A rate correction as a table.
pub open spec fn correction_table(c: CorrectionModel) -> Map<Seq<char>, Tree> {
    Map::empty().insert("rate_min"@, Tree::Float(c.rate_min)).insert(
        "rate_max"@,
        Tree::Float(c.rate_max),
    ).insert("hard_seek_threshold_ms"@, Tree::Integer(c.hard_seek_threshold_ms as i64)).insert(
        "sync_interval_ms"@,
        Tree::Integer(c.sync_interval_ms as i64),
    )
}

/// Sync settings as a table.
pub open spec fn sync_table(c: SyncModel) -> Map<Seq<char>, Tree> {
    Map::empty().insert("max_drift_ms"@, Tree::Integer(c.max_drift_ms as i64)).insert(
        "start_lead_ms"@,
        Tree::Integer(c.start_lead_ms as i64),
    ).insert("correction"@, Tree::Table(correction_table(c.correction)))
}

/// A poster as a table.
pub open spec fn poster_table(p: PosterModel) -> Map<Seq<char>, Tree> {
    Map::empty().insert("type"@, Tree::Text(kind_name(p.kind))).insert("file"@, Tree::Text(p.file))
}

/// A show's settings as a table.
pub open spec fn settings_table(s: ShowModel) -> Map<Seq<char>, Tree> {
    let m = Map::empty().insert("title"@, Tree::Text(s.title)).insert(
        "version"@,
        Tree::Integer(s.version as i64),
    ).insert("media_root"@, Tree::Text(s.media_root)).insert(
        "dropout_policy"@,
        Tree::Text(dropout_name(s.dropout_policy)),
    ).insert("sync"@, Tree::Table(sync_table(s.sync)));
    match s.poster {
        Some(p) => m.insert("poster"@, Tree::Table(poster_table(p))),
        None => m,
    }
}

/// A show as a tree.
pub open spec fn show_tree(s: ShowFileModel) -> Tree {
    Tree::Table(
        Map::empty().insert("show"@, Tree::Table(settings_table(s.show))).insert(
            "cues"@,
            Tree::List(cue_trees(s.cues)),
        ),
    )
}

fn write_texts(texts: &Vec<String>) -> (r: Node)
    ensures
        r@ == texts_tree(texts.deep_view()),
        document::spelled(r),
{
    let mut items: Vec<Node> = Vec::new();
    let mut i: usize = 0;
    while i < texts.len()
        invariant
            0 <= i <= texts.len(),
            items@.len() == i,
            forall|k: int|
                0 <= k < i ==> (#[trigger] items@[k])@ == Tree::Text(texts@[k]@)
                    && document::spelled(items@[k]),
        decreases texts.len() - i,
    {
        items.push(Node::Text(texts[i].clone()));
        i = i + 1;
    }
    proof {
        document::lemma_list_of(items@);
        assert(document::list_of(items@) =~= texts.deep_view().map_values(
            |s: Seq<char>| Tree::Text(s),
        ));
    }
    Node::List(items)
}

fn write_target(target: &CueTarget) -> (r: Node)
    ensures
        r@ == Tree::Table(target_table(target@)),
        document::spelled(r),
{
    let mut entries: Vec<Entry> = Vec::new();
    match target {
        CueTarget::All => {
            put(&mut entries, "mode", Node::Text("all".to_owned()));
        },
        CueTarget::Whitelist { clients } => {
            put(&mut entries, "mode", Node::Text("whitelist".to_owned()));
            put(&mut entries, "clients", write_texts(clients));
        },
        CueTarget::Blacklist { clients } => {
            put(&mut entries, "mode", Node::Text("blacklist".to_owned()));
            put(&mut entries, "clients", write_texts(clients));
        },
    }
    Node::Table(entries)
}

fn write_kind(kind: CueKind) -> (r: Node)
    ensures
        r@ == Tree::Text(kind_name(kind)),
        document::spelled(r),
{
    Node::Text(
        match kind {
            CueKind::Video => "video",
            CueKind::Image => "image",
            CueKind::Color => "color",
        }.to_owned(),
    )
}

fn write_cue(c: &Cue) -> (r: Node)
    ensures
        r@ == Tree::Table(cue_table(c@)),
        document::spelled(r),
{
    let mut entries: Vec<Entry> = Vec::new();
    put(&mut entries, "id", Node::Text(c.id.clone()));
    put(&mut entries, "name", Node::Text(c.name.clone()));
    put(&mut entries, "type", write_kind(c.kind));
    put(&mut entries, "file", Node::Text(c.file.clone()));
    put_optional_text(&mut entries, "color", &c.color);
    put(&mut entries, "fade_in_ms", Node::Integer(c.fade_in_ms as i64));
    put(&mut entries, "in_ms", Node::Integer(c.in_ms as i64));
    if let Some(ms) = c.out_ms {
        put(&mut entries, "out_ms", Node::Integer(ms as i64));
    }
    put(&mut entries, "loop", Node::Flag(c.loops));
    put(
        &mut entries,
        "on_end",
        Node::Text(
            match c.on_end {
                EndAction::Cut => "cut",
                EndAction::Freeze => "freeze",
                EndAction::Fade => "fade",
            }.to_owned(),
        ),
    );
    put_optional_text(&mut entries, "notes", &c.notes);
    put(&mut entries, "target", write_target(&c.target));
    put(
        &mut entries,
        "exclude_action",
        Node::Text(
            match c.exclude_action {
                ExcludeAction::Ignore => "ignore",
                ExcludeAction::Poster => "poster",
                ExcludeAction::Color => "color",
            }.to_owned(),
        ),
    );
    put_optional_text(&mut entries, "exclude_color", &c.exclude_color);
    Node::Table(entries)
}

fn write_cues(cues: &Vec<Cue>) -> (r: Node)
    ensures
        r@ == Tree::List(cue_trees(cues.deep_view())),
        document::spelled(r),
{
    let mut items: Vec<Node> = Vec::new();
    let mut i: usize = 0;
    while i < cues.len()
        invariant
            0 <= i <= cues.len(),
            items@.len() == i,
            forall|k: int|
                0 <= k < i ==> (#[trigger] items@[k])@ == Tree::Table(cue_table(cues@[k]@))
                    && document::spelled(items@[k]),
        decreases cues.len() - i,
    {
        items.push(write_cue(&cues[i]));
        i = i + 1;
    }
    proof {
        document::lemma_list_of(items@);
        assert(document::list_of(items@) =~= cue_trees(cues.deep_view()));
    }
    Node::List(items)
}

/// Do both rates spell a number?
pub open spec fn rates_spelled(c: CorrectionModel) -> bool {
    document::float_form(c.rate_min) is Some && document::float_form(c.rate_max) is Some
}

/// Are both rates in the form in which they are displayed?
pub open spec fn rates_displayed(c: CorrectionModel) -> bool {
    document::float_form(c.rate_min) == Some(c.rate_min) && document::float_form(c.rate_max)
        == Some(c.rate_max)
}

fn write_sync(sync: &SyncConfig) -> (r: Node)
    ensures
        r@ == Tree::Table(sync_table(sync@)),
        document::spelled(r) <==> rates_spelled(sync@.correction),
{
    let mut rates: Vec<Entry> = Vec::new();
    put(&mut rates, "rate_min", Node::Float(sync.correction.rate_min.clone()));
    put(&mut rates, "rate_max", Node::Float(sync.correction.rate_max.clone()));
    put(
        &mut rates,
        "hard_seek_threshold_ms",
        Node::Integer(sync.correction.hard_seek_threshold_ms as i64),
    );
    put(&mut rates, "sync_interval_ms", Node::Integer(sync.correction.sync_interval_ms as i64));
    let mut entries: Vec<Entry> = Vec::new();
    put(&mut entries, "max_drift_ms", Node::Integer(sync.max_drift_ms as i64));
    put(&mut entries, "start_lead_ms", Node::Integer(sync.start_lead_ms as i64));
    put(&mut entries, "correction", Node::Table(rates));
    Node::Table(entries)
}

fn write_settings(s: &Show) -> (r: Node)
    ensures
        r@ == Tree::Table(settings_table(s@)),
        document::spelled(r) <==> rates_spelled(s@.sync.correction),
{
    let mut entries: Vec<Entry> = Vec::new();
    put(&mut entries, "title", Node::Text(s.title.clone()));
    put(&mut entries, "version", Node::Integer(s.version as i64));
    put(&mut entries, "media_root", Node::Text(s.media_root.clone()));
    put(
        &mut entries,
        "dropout_policy",
        Node::Text(
            match s.dropout_policy {
                DropoutPolicy::Continue => "continue",
                DropoutPolicy::Freeze => "freeze",
                DropoutPolicy::Black => "black",
            }.to_owned(),
        ),
    );
    put(&mut entries, "sync", write_sync(&s.sync));
    if let Some(p) = &s.poster {
        let mut poster: Vec<Entry> = Vec::new();
        put(&mut poster, "type", write_kind(p.kind));
        put(&mut poster, "file", Node::Text(p.file.clone()));
        put(&mut entries, "poster", Node::Table(poster));
    }
    Node::Table(entries)
}

/// A show as a document.
pub fn show_document(s: &ShowFile) -> (r: Node)
    ensures
        r@ == show_tree(s@),
        document::spelled(r) <==> rates_spelled(s@.show.sync.correction),
{
    let mut entries: Vec<Entry> = Vec::new();
    put(&mut entries, "show", write_settings(&s.show));
    put(&mut entries, "cues", write_cues(&s.cues));
    Node::Table(entries)
}

proof fn lemma_choice_names()
    ensures
        "video"@ != "image"@,
        "video"@ != "color"@,
        "image"@ != "color"@,
        "cut"@ != "freeze"@,
        "cut"@ != "fade"@,
        "freeze"@ != "fade"@,
        "ignore"@ != "poster"@,
        "ignore"@ != "color"@,
        "poster"@ != "color"@,
        "continue"@ != "freeze"@,
        "continue"@ != "black"@,
        "freeze"@ != "black"@,
        "all"@ != "whitelist"@,
        "all"@ != "blacklist"@,
        "whitelist"@ != "blacklist"@,
        "mode"@ != "clients"@,
{
    reveal_strlit("video");
    assert("video"@.len() == 5);
    reveal_strlit("image");
    assert("image"@.len() == 5);
    reveal_strlit("color");
    assert("color"@.len() == 5);
    reveal_strlit("cut");
    assert("cut"@.len() == 3);
    reveal_strlit("freeze");
    assert("freeze"@.len() == 6);
    reveal_strlit("fade");
    assert("fade"@.len() == 4);
    reveal_strlit("ignore");
    assert("ignore"@.len() == 6);
    reveal_strlit("poster");
    assert("poster"@.len() == 6);
    reveal_strlit("continue");
    assert("continue"@.len() == 8);
    reveal_strlit("black");
    assert("black"@.len() == 5);
    reveal_strlit("all");
    assert("all"@.len() == 3);
    reveal_strlit("whitelist");
    assert("whitelist"@.len() == 9);
    reveal_strlit("blacklist");
    assert("blacklist"@.len() == 9);
    reveal_strlit("mode");
    assert("mode"@.len() == 4);
    reveal_strlit("clients");
    assert("clients"@.len() == 7);
    assert("video"@[0] != "image"@[0]);
    assert("video"@[0] != "color"@[0]);
    assert("image"@[0] != "color"@[0]);
    assert("ignore"@[0] != "poster"@[0]);
    assert("whitelist"@[0] != "blacklist"@[0]);
}

proof fn lemma_target_reads_back(target: TargetModel)
    ensures
        target_in(Some(Tree::Table(target_table(target)))) == Some(target),
{
    lemma_choice_names();
    match target {
        TargetModel::All => {},
        TargetModel::Whitelist { clients } => {
            assert(document::text_list_in(Some(texts_tree(clients))) =~= clients);
        },
        TargetModel::Blacklist { clients } => {
            assert(document::text_list_in(Some(texts_tree(clients))) =~= clients);
        },
    }
}

proof fn lemma_cue_reads_back(c: CueModel)
    ensures
        cue_problem(Tree::Table(cue_table(c))) is None,
        cue_in(Tree::Table(cue_table(c))) == c,
{
    lemma_choice_names();
    lemma_target_reads_back(c.target);
    reveal_strlit("id");
    assert("id"@.len() == 2);
    reveal_strlit("name");
    assert("name"@.len() == 4);
    reveal_strlit("type");
    assert("type"@.len() == 4);
    reveal_strlit("file");
    assert("file"@.len() == 4);
    reveal_strlit("color");
    assert("color"@.len() == 5);
    reveal_strlit("fade_in_ms");
    assert("fade_in_ms"@.len() == 10);
    reveal_strlit("in_ms");
    assert("in_ms"@.len() == 5);
    reveal_strlit("out_ms");
    assert("out_ms"@.len() == 6);
    reveal_strlit("loop");
    assert("loop"@.len() == 4);
    reveal_strlit("on_end");
    assert("on_end"@.len() == 6);
    reveal_strlit("notes");
    assert("notes"@.len() == 5);
    reveal_strlit("target");
    assert("target"@.len() == 6);
    reveal_strlit("exclude_action");
    assert("exclude_action"@.len() == 14);
    reveal_strlit("exclude_color");
    assert("exclude_color"@.len() == 13);
    assert("name"@[0] != "type"@[0]);
    assert("name"@[0] != "file"@[0]);
    assert("name"@[0] != "loop"@[0]);
    assert("type"@[0] != "file"@[0]);
    assert("type"@[0] != "loop"@[0]);
    assert("file"@[0] != "loop"@[0]);
    assert("color"@[0] != "in_ms"@[0]);
    assert("color"@[0] != "notes"@[0]);
    assert("in_ms"@[0] != "notes"@[0]);
    assert("out_ms"@[1] != "on_end"@[1]);
    assert("out_ms"@[0] != "target"@[0]);
    assert("on_end"@[0] != "target"@[0]);
    assert(cue_in(Tree::Table(cue_table(c))) =~= c);
}

proof fn lemma_cues_read_back(cues: Seq<CueModel>, i: int)
    requires
        0 <= i <= cues.len(),
    ensures
        cues_problem(cue_trees(cues), i) is None,
    decreases cues.len() - i,
{
    if i < cues.len() {
        lemma_cue_reads_back(cues[i]);
        lemma_cues_read_back(cues, i + 1);
    }
}

proof fn lemma_settings_read_back(s: ShowModel)
    ensures
        settings_problem(Tree::Table(settings_table(s))) is None,
        settings_in(Tree::Table(settings_table(s))) == s,
{
    lemma_choice_names();
    reveal_strlit("title");
    assert("title"@.len() == 5);
    reveal_strlit("version");
    assert("version"@.len() == 7);
    reveal_strlit("media_root");
    assert("media_root"@.len() == 10);
    reveal_strlit("dropout_policy");
    assert("dropout_policy"@.len() == 14);
    reveal_strlit("sync");
    assert("sync"@.len() == 4);
    reveal_strlit("poster");
    assert("poster"@.len() == 6);
    reveal_strlit("max_drift_ms");
    assert("max_drift_ms"@.len() == 12);
    reveal_strlit("start_lead_ms");
    assert("start_lead_ms"@.len() == 13);
    reveal_strlit("correction");
    assert("correction"@.len() == 10);
    reveal_strlit("rate_min");
    assert("rate_min"@.len() == 8);
    reveal_strlit("rate_max");
    assert("rate_max"@.len() == 8);
    reveal_strlit("hard_seek_threshold_ms");
    assert("hard_seek_threshold_ms"@.len() == 22);
    reveal_strlit("sync_interval_ms");
    assert("sync_interval_ms"@.len() == 16);
    reveal_strlit("type");
    assert("type"@.len() == 4);
    reveal_strlit("file");
    assert("file"@.len() == 4);
    assert("rate_min"@[6] != "rate_max"@[6]);
    assert("type"@[0] != "file"@[0]);
    assert(correction_in(Tree::Table(correction_table(s.sync.correction))) =~= s.sync.correction);
    assert(sync_in(Some(Tree::Table(sync_table(s.sync)))) =~= s.sync);
    assert(settings_in(Tree::Table(settings_table(s))) =~= s);
}

/// A show reads back from its own tree, whatever it holds.
pub proof fn law_show_reads_back(s: ShowFileModel)
    ensures
        show_problem(show_tree(s)) is None,
        show_in(show_tree(s)) == s,
{
    reveal_strlit("show");
    assert("show"@.len() == 4);
    reveal_strlit("cues");
    assert("cues"@.len() == 4);
    assert("show"@[0] != "cues"@[0]);
    lemma_settings_read_back(s.show);
    lemma_cues_read_back(s.cues, 0);
    assert forall|i: int| 0 <= i < s.cues.len() implies #[trigger] cues_in(cue_trees(s.cues))[i]
        == s.cues[i] by {
        lemma_cue_reads_back(s.cues[i]);
    }
    assert(cues_in(cue_trees(s.cues)) =~= s.cues);
    assert(show_in(show_tree(s)) =~= s);
}

/// A show with its rates in the form in which they are displayed.
pub open spec fn settled(s: ShowFileModel) -> ShowFileModel {
    let c = s.show.sync.correction;
    ShowFileModel {
        show: ShowModel {
            sync: SyncModel {
                correction: CorrectionModel {
                    rate_min: document::float_form(c.rate_min)->0,
                    rate_max: document::float_form(c.rate_max)->0,
                    ..c
                },
                ..s.show.sync
            },
            ..s.show
        },
        ..s
    }
}

proof fn lemma_texts_displayed(texts: Seq<Seq<char>>)
    ensures
        document::displayed(texts_tree(texts), texts_tree(texts)),
{
    let items = texts.map_values(|s: Seq<char>| Tree::Text(s));
    assert forall|i: int| 0 <= i < items.len() implies document::displayed(
        #[trigger] items[i],
        items[i],
    ) by {}
}

proof fn lemma_target_displayed(target: TargetModel)
    ensures
        document::displayed(
            Tree::Table(target_table(target)),
            Tree::Table(target_table(target)),
        ),
{
    match target {
        TargetModel::All => {},
        TargetModel::Whitelist { clients } => {
            lemma_texts_displayed(clients);
        },
        TargetModel::Blacklist { clients } => {
            lemma_texts_displayed(clients);
        },
    }
    let m = target_table(target);
    assert forall|k: Seq<char>| #[trigger] m.dom().contains(k) implies document::displayed(
        m[k],
        m[k],
    ) by {}
}

proof fn lemma_cue_displayed(c: CueModel)
    ensures
        document::displayed(Tree::Table(cue_table(c)), Tree::Table(cue_table(c))),
{
    lemma_target_displayed(c.target);
    let m = cue_table(c);
    assert forall|k: Seq<char>| #[trigger] m.dom().contains(k) implies document::displayed(
        m[k],
        m[k],
    ) by {}
}

proof fn lemma_settings_displayed(s: ShowFileModel)
    requires
        rates_spelled(s.show.sync.correction),
    ensures
        document::displayed(
            Tree::Table(settings_table(s.show)),
            Tree::Table(settings_table(settled(s).show)),
        ),
{
    let a = s.show;
    let b = settled(s).show;
    let a1 = correction_table(a.sync.correction);
    let b1 = correction_table(b.sync.correction);
    assert(a1.dom() =~= b1.dom());
    assert forall|k: Seq<char>| #[trigger] a1.dom().contains(k) implies document::displayed(
        a1[k],
        b1[k],
    ) by {}
    assert(document::displayed(Tree::Table(a1), Tree::Table(b1)));
    let a2 = sync_table(a.sync);
    let b2 = sync_table(b.sync);
    assert(a2.dom() =~= b2.dom());
    assert forall|k: Seq<char>| #[trigger] a2.dom().contains(k) implies document::displayed(
        a2[k],
        b2[k],
    ) by {}
    assert(document::displayed(Tree::Table(a2), Tree::Table(b2)));
    if let Some(p) = a.poster {
        let m = poster_table(p);
        assert forall|k: Seq<char>| #[trigger] m.dom().contains(k) implies document::displayed(
            m[k],
            m[k],
        ) by {}
        assert(document::displayed(Tree::Table(m), Tree::Table(m)));
    }
    let a3 = settings_table(a);
    let b3 = settings_table(b);
    assert(a3.dom() =~= b3.dom());
    assert forall|k: Seq<char>| #[trigger] a3.dom().contains(k) implies document::displayed(
        a3[k],
        b3[k],
    ) by {}
}

proof fn lemma_show_displayed(s: ShowFileModel)
    requires
        rates_spelled(s.show.sync.correction),
    ensures
        document::displayed(show_tree(s), show_tree(settled(s))),
{
    lemma_settings_displayed(s);
    let cues = cue_trees(s.cues);
    assert forall|i: int| 0 <= i < cues.len() implies document::displayed(
        #[trigger] cues[i],
        cues[i],
    ) by {
        lemma_cue_displayed(s.cues[i]);
    }
    assert(document::displayed(Tree::List(cues), Tree::List(cues)));
    let a = show_tree(s)->Table_0;
    let b = show_tree(settled(s))->Table_0;
    assert(a.dom() =~= b.dom());
    assert forall|k: Seq<char>| #[trigger] a.dom().contains(k) implies document::displayed(
        a[k],
        b[k],
    ) by {}
}

proof fn lemma_cue_tame(c: CueModel)
    ensures
        document::tame(Tree::Table(cue_table(c)), 14),
{
    reveal_strlit("$__toml_private_datetime");
    assert("$__toml_private_datetime"@.len() == 24);
    reveal_strlit("id");
    assert("id"@.len() == 2);
    reveal_strlit("name");
    assert("name"@.len() == 4);
    reveal_strlit("type");
    assert("type"@.len() == 4);
    reveal_strlit("file");
    assert("file"@.len() == 4);
    reveal_strlit("color");
    assert("color"@.len() == 5);
    reveal_strlit("fade_in_ms");
    assert("fade_in_ms"@.len() == 10);
    reveal_strlit("in_ms");
    assert("in_ms"@.len() == 5);
    reveal_strlit("out_ms");
    assert("out_ms"@.len() == 6);
    reveal_strlit("loop");
    assert("loop"@.len() == 4);
    reveal_strlit("on_end");
    assert("on_end"@.len() == 6);
    reveal_strlit("notes");
    assert("notes"@.len() == 5);
    reveal_strlit("target");
    assert("target"@.len() == 6);
    reveal_strlit("exclude_action");
    assert("exclude_action"@.len() == 14);
    reveal_strlit("exclude_color");
    assert("exclude_color"@.len() == 13);
    reveal_strlit("mode");
    assert("mode"@.len() == 4);
    reveal_strlit("clients");
    assert("clients"@.len() == 7);
    let target = target_table(c.target);
    assert forall|k: Seq<char>| #[trigger] target.dom().contains(k) implies k
        != document::date_key() && document::tame(target[k], 12) by {
        if let Tree::List(items) = target[k] {
            assert forall|i: int| 0 <= i < items.len() implies document::tame(
                #[trigger] items[i],
                11,
            ) by {}
        }
    }
    assert(document::tame(Tree::Table(target), 13));
    let m = cue_table(c);
    assert forall|k: Seq<char>| #[trigger] m.dom().contains(k) implies k != document::date_key()
        && document::tame(m[k], 13) by {}
}

proof fn lemma_settings_tame(s: ShowModel)
    ensures
        document::tame(Tree::Table(settings_table(s)), 15),
{
    reveal_strlit("$__toml_private_datetime");
    assert("$__toml_private_datetime"@.len() == 24);
    reveal_strlit("title");
    assert("title"@.len() == 5);
    reveal_strlit("version");
    assert("version"@.len() == 7);
    reveal_strlit("media_root");
    assert("media_root"@.len() == 10);
    reveal_strlit("dropout_policy");
    assert("dropout_policy"@.len() == 14);
    reveal_strlit("sync");
    assert("sync"@.len() == 4);
    reveal_strlit("poster");
    assert("poster"@.len() == 6);
    reveal_strlit("max_drift_ms");
    assert("max_drift_ms"@.len() == 12);
    reveal_strlit("start_lead_ms");
    assert("start_lead_ms"@.len() == 13);
    reveal_strlit("correction");
    assert("correction"@.len() == 10);
    reveal_strlit("rate_min");
    assert("rate_min"@.len() == 8);
    reveal_strlit("rate_max");
    assert("rate_max"@.len() == 8);
    reveal_strlit("hard_seek_threshold_ms");
    assert("hard_seek_threshold_ms"@.len() == 22);
    reveal_strlit("sync_interval_ms");
    assert("sync_interval_ms"@.len() == 16);
    reveal_strlit("type");
    assert("type"@.len() == 4);
    reveal_strlit("file");
    assert("file"@.len() == 4);
    let rates = correction_table(s.sync.correction);
    assert forall|k: Seq<char>| #[trigger] rates.dom().contains(k) implies k
        != document::date_key() && document::tame(rates[k], 12) by {}
    assert(document::tame(Tree::Table(rates), 13));
    let sync = sync_table(s.sync);
    assert forall|k: Seq<char>| #[trigger] sync.dom().contains(k) implies k
        != document::date_key() && document::tame(sync[k], 13) by {}
    assert(document::tame(Tree::Table(sync), 14));
    if let Some(p) = s.poster {
        let m = poster_table(p);
        assert forall|k: Seq<char>| #[trigger] m.dom().contains(k) implies k
            != document::date_key() && document::tame(m[k], 13) by {}
        assert(document::tame(Tree::Table(m), 14));
    }
    let m = settings_table(s);
    assert forall|k: Seq<char>| #[trigger] m.dom().contains(k) implies k != document::date_key()
        && document::tame(m[k], 14) by {}
}

proof fn lemma_show_tame(s: ShowFileModel)
    ensures
        document::tame(show_tree(s), 16),
{
    reveal_strlit("$__toml_private_datetime");
    assert("$__toml_private_datetime"@.len() == 24);
    reveal_strlit("show");
    assert("show"@.len() == 4);
    reveal_strlit("cues");
    assert("cues"@.len() == 4);
    lemma_settings_tame(s.show);
    let cues = cue_trees(s.cues);
    assert forall|i: int| 0 <= i < cues.len() implies document::tame(#[trigger] cues[i], 14) by {
        lemma_cue_tame(s.cues[i]);
    }
    assert(document::tame(Tree::List(cues), 15));
    let m = show_tree(s)->Table_0;
    assert forall|k: Seq<char>| #[trigger] m.dom().contains(k) implies k != document::date_key()
        && document::tame(m[k], 15) by {}
}

impl ShowFile {
    /// The show as the text of a show file, if it is valid and its rates are
    /// numbers. Reading the text gives the show back, its rates in the form in
    /// which they are displayed; the same show, if they were in it already.
    pub fn to_toml(&self) -> (r: Result<String, ShowError>)
        requires
            self@.fault() is None ==> document::calm(show_tree(self@)),
        ensures
            match r {
                Ok(s) => {
                    &&& self@.fault() is None
                    &&& rates_spelled(self@.show.sync.correction)
                    &&& loaded(Ok(s@)) == Ok::<ShowFileModel, ShowErrorModel>(settled(self@))
                    &&& rates_displayed(self@.show.sync.correction) ==> loaded(Ok(s@)) == Ok::<
                        ShowFileModel,
                        ShowErrorModel,
                    >(self@)
                },
                Err(e) => match self@.fault() {
                    Some(fault) => e@ == fault,
                    None => e@ is Serialize && !rates_spelled(self@.show.sync.correction),
                },
            },
    {
        if let Err(e) = self.validate() {
            return Err(e);
        }
        let n: Node = show_document(self);
        proof {
            lemma_show_tame(self@);
        }
        match write_document(n) {
            Ok(s) => {
                proof {
                    let read = document::parsed_toml(s@)->Ok_0;
                    lemma_show_displayed(self@);
                    document::lemma_displayed_once(
                        show_tree(self@),
                        read,
                        show_tree(settled(self@)),
                    );
                    law_show_reads_back(settled(self@));
                    if rates_displayed(self@.show.sync.correction) {
                        assert(settled(self@) =~= self@);
                    }
                }
                Ok(s)
            },
            Err(e) => Err(ShowError::Serialize(e)),
        }
    }

    /// May the show be handed to [`Self::to_toml`]: is there no text in it with
    /// 256 quotation marks in a row, or a fault for which it is refused anyway?
    pub fn can_write(&self) -> (r: bool)
        ensures
            r == (self@.fault() is None ==> document::calm(show_tree(self@))),
    {
        match self.validate() {
            Ok(()) => is_calm(&show_document(self)),
            Err(_) => true,
        }
    }
}

impl std::str::FromStr for ShowFile {
    type Err = ShowError;

    fn from_str(raw: &str) -> (r: Result<Self, ShowError>)
        ensures
            match r {
                Ok(s) => opened(document::parsed_toml(raw@)) == Ok::<ShowFileModel, ShowErrorModel>(
                    s@,
                ),
                Err(e) => opened(document::parsed_toml(raw@)) == Err::<
                    ShowFileModel,
                    ShowErrorModel,
                >(e@),
            },
    {
        ShowFile::parse_str(raw)
    }
}

proof fn lemma_kind_options(f: Option<Tree>)
    ensures
        !(document::chooses(f, "video"@) && document::chooses(f, "image"@)),
        !(document::chooses(f, "video"@) && document::chooses(f, "color"@)),
        !(document::chooses(f, "image"@) && document::chooses(f, "color"@)),
{
    reveal_strlit("video");
    reveal_strlit("image");
    reveal_strlit("color");
    assert("video"@.len() == 5);
    assert("image"@.len() == 5);
    assert("color"@.len() == 5);
    assert("video"@[0] != "image"@[0]);
    assert("video"@[0] != "color"@[0]);
    assert("image"@[0] != "color"@[0]);
    document::lemma_one_choice(f, "video"@, "image"@);
    document::lemma_one_choice(f, "video"@, "color"@);
    document::lemma_one_choice(f, "image"@, "color"@);
}

proof fn lemma_end_options(f: Option<Tree>)
    ensures
        !(document::chooses(f, "cut"@) && document::chooses(f, "freeze"@)),
        !(document::chooses(f, "cut"@) && document::chooses(f, "fade"@)),
        !(document::chooses(f, "freeze"@) && document::chooses(f, "fade"@)),
{
    reveal_strlit("cut");
    reveal_strlit("freeze");
    reveal_strlit("fade");
    assert("cut"@.len() == 3);
    assert("freeze"@.len() == 6);
    assert("fade"@.len() == 4);
    document::lemma_one_choice(f, "cut"@, "freeze"@);
    document::lemma_one_choice(f, "cut"@, "fade"@);
    document::lemma_one_choice(f, "freeze"@, "fade"@);
}

proof fn lemma_exclude_options(f: Option<Tree>)
    ensures
        !(document::chooses(f, "ignore"@) && document::chooses(f, "poster"@)),
        !(document::chooses(f, "ignore"@) && document::chooses(f, "color"@)),
        !(document::chooses(f, "poster"@) && document::chooses(f, "color"@)),
{
    reveal_strlit("ignore");
    reveal_strlit("poster");
    reveal_strlit("color");
    assert("ignore"@.len() == 6);
    assert("poster"@.len() == 6);
    assert("color"@.len() == 5);
    assert("ignore"@[0] != "poster"@[0]);
    document::lemma_one_choice(f, "ignore"@, "poster"@);
    document::lemma_one_choice(f, "ignore"@, "color"@);
    document::lemma_one_choice(f, "poster"@, "color"@);
}

proof fn lemma_dropout_options(f: Option<Tree>)
    ensures
        !(document::chooses(f, "continue"@) && document::chooses(f, "freeze"@)),
        !(document::chooses(f, "continue"@) && document::chooses(f, "black"@)),
        !(document::chooses(f, "freeze"@) && document::chooses(f, "black"@)),
{
    reveal_strlit("continue");
    reveal_strlit("freeze");
    reveal_strlit("black");
    assert("continue"@.len() == 8);
    assert("freeze"@.len() == 6);
    assert("black"@.len() == 5);
    document::lemma_one_choice(f, "continue"@, "freeze"@);
    document::lemma_one_choice(f, "continue"@, "black"@);
    document::lemma_one_choice(f, "freeze"@, "black"@);
}

proof fn lemma_target_modes()
    ensures
        "all"@ != "whitelist"@,
        "all"@ != "blacklist"@,
        "whitelist"@ != "blacklist"@,
{
    reveal_strlit("all");
    reveal_strlit("whitelist");
    reveal_strlit("blacklist");
    assert("all"@.len() == 3);
    assert("whitelist"@[0] == 'w');
    assert("blacklist"@[0] == 'b');
}

/// Which target a table gives: the one its `mode` names, of the client ids that
/// its list `clients` holds, one text for each, in order. No other table gives a
/// target.
pub proof fn law_target_of_a_table(m: Map<Seq<char>, Tree>, target: TargetModel)
    ensures
        target_in(Some(Tree::Table(m))) == Some(target) <==> {
            &&& m.dom().contains("mode"@)
            &&& match target {
                TargetModel::All => m["mode"@] == Tree::Text("all"@),
                TargetModel::Whitelist { clients } => {
                    &&& m["mode"@] == Tree::Text("whitelist"@)
                    &&& m.dom().contains("clients"@)
                    &&& m["clients"@] matches Tree::List(items)
                    &&& items.len() == clients.len()
                    &&& forall|i: int|
                        0 <= i < items.len() ==> (#[trigger] items[i]) == Tree::Text(clients[i])
                },
                TargetModel::Blacklist { clients } => {
                    &&& m["mode"@] == Tree::Text("blacklist"@)
                    &&& m.dom().contains("clients"@)
                    &&& m["clients"@] matches Tree::List(items)
                    &&& items.len() == clients.len()
                    &&& forall|i: int|
                        0 <= i < items.len() ==> (#[trigger] items[i]) == Tree::Text(clients[i])
                },
            }
        },
{
    lemma_target_modes();
    if m.dom().contains("clients"@) {
        if let Tree::List(items) = m["clients"@] {
            let read = document::text_list_in(Some(m["clients"@]));
            match target {
                TargetModel::All => {},
                TargetModel::Whitelist { clients } => {
                    if items.len() == clients.len() && (forall|i: int|
                        0 <= i < items.len() ==> (#[trigger] items[i]) == Tree::Text(clients[i])) {
                        assert(read =~= clients);
                    }
                    if read == clients && document::is_text_list(Some(m["clients"@])) {
                        assert forall|i: int| 0 <= i < items.len() implies (#[trigger] items[i])
                            == Tree::Text(clients[i]) by {
                            assert(items[i] is Text);
                            assert(read[i] == clients[i]);
                        }
                    }
                },
                TargetModel::Blacklist { clients } => {
                    if items.len() == clients.len() && (forall|i: int|
                        0 <= i < items.len() ==> (#[trigger] items[i]) == Tree::Text(clients[i])) {
                        assert(read =~= clients);
                    }
                    if read == clients && document::is_text_list(Some(m["clients"@])) {
                        assert forall|i: int| 0 <= i < items.len() implies (#[trigger] items[i])
                            == Tree::Text(clients[i]) by {
                            assert(items[i] is Text);
                            assert(read[i] == clients[i]);
                        }
                    }
                },
            }
        }
    }
}

/// A list gives the target that a table with its first item as `mode` and, for a
/// mode that names clients, its second as `clients` gives, if it holds no more
/// and no less than that. Nothing but a table or a list gives a target; where
/// there is none the cue is for everyone.
pub proof fn law_target_of_a_list(items: Seq<Tree>, m: Map<Seq<char>, Tree>, other: Tree)
    requires
        items.len() > 0 <==> m.dom().contains("mode"@),
        items.len() > 0 ==> m["mode"@] == items[0],
        items.len() > 1 <==> m.dom().contains("clients"@),
        items.len() > 1 ==> m["clients"@] == items[1],
        !(other is Table),
        !(other is List),
    ensures
        items.len() == 1 ==> target_in(Some(Tree::List(items))) == target_in(Some(Tree::Table(m))),
        items.len() == 2 && items[0] != Tree::Text("all"@) ==> target_in(Some(Tree::List(items)))
            == target_in(Some(Tree::Table(m))),
        items.len() == 2 && items[0] == Tree::Text("all"@) ==> target_in(
            Some(Tree::List(items)),
        ) is None,
        items.len() == 0 || items.len() > 2 ==> target_in(Some(Tree::List(items))) is None,
        target_in(Some(other)) is None,
        target_in(None) == Some(TargetModel::All),
{
    lemma_target_modes();
}

/// A cue table whose target has the mode `whitelist` and a list of client ids
/// reads as a cue for exactly the clients on the list; with the mode `blacklist`
/// as one for exactly those not on it; with the mode `all`, or without a target,
/// as one for everyone.
pub proof fn law_cue_targets_by_its_lists(
    m: Map<Seq<char>, Tree>,
    target: Map<Seq<char>, Tree>,
    items: Seq<Tree>,
    id: Seq<char>,
)
    requires
        forall|i: int| 0 <= i < items.len() ==> (#[trigger] items[i]) is Text,
        target.dom().contains("mode"@),
        target.dom().contains("clients"@),
        target["clients"@] == Tree::List(items),
    ensures
        ({
            let cue = cue_in(Tree::Table(m));
            let named = exists|i: int| 0 <= i < items.len() && items[i] == Tree::Text(id);
            let targeted = match cue.target {
                TargetModel::All => true,
                TargetModel::Whitelist { clients } => clients.contains(id),
                TargetModel::Blacklist { clients } => !clients.contains(id),
            };
            let given = m.dom().contains("target"@) && m["target"@] == Tree::Table(target);
            &&& given && target["mode"@] == Tree::Text("whitelist"@) ==> (targeted <==> named)
            &&& given && target["mode"@] == Tree::Text("blacklist"@) ==> (targeted <==> !named)
            &&& given && target["mode"@] == Tree::Text("all"@) ==> targeted
            &&& !m.dom().contains("target"@) ==> targeted
            &&& targeted == cue.target.includes(id)
        }),
{
    lemma_target_modes();
    let read = document::text_list_in(Some(Tree::List(items)));
    assert(read.len() == items.len());
    assert(document::is_text_list(Some(target["clients"@])));
    if read.contains(id) {
        let i = choose|i: int| 0 <= i < read.len() && read[i] == id;
        assert(items[i] is Text);
        assert(items[i] == Tree::Text(id));
    }
    if exists|i: int| 0 <= i < items.len() && items[i] == Tree::Text(id) {
        let i = choose|i: int| 0 <= i < items.len() && items[i] == Tree::Text(id);
        assert(read[i] == id);
    }
}

/// Which cue a table reads as: the one whose every setting is what the table
/// holds under its key, or its default where the key may be missing and is. No
/// other table is accepted.
pub proof fn law_cue_of_a_table(m: Map<Seq<char>, Tree>, c: CueModel)
    ensures
        (cue_problem(Tree::Table(m)) is None && cue_in(Tree::Table(m)) == c) <==> {
            &&& m.dom().contains("id"@) && m["id"@] == Tree::Text(c.id)
            &&& m.dom().contains("name"@) && m["name"@] == Tree::Text(c.name)
            &&& match c.kind {
                CueKind::Video => m.dom().contains("type"@) && document::chooses(
                    Some(m["type"@]),
                    "video"@,
                ),
                CueKind::Image => m.dom().contains("type"@) && document::chooses(
                    Some(m["type"@]),
                    "image"@,
                ),
                CueKind::Color => m.dom().contains("type"@) && document::chooses(
                    Some(m["type"@]),
                    "color"@,
                ),
            }
            &&& if m.dom().contains("file"@) {
                m["file"@] == Tree::Text(c.file)
            } else {
                c.file.len() == 0
            }
            &&& match c.color {
                Some(s) => m.dom().contains("color"@) && m["color"@] == Tree::Text(s),
                None => !m.dom().contains("color"@),
            }
            &&& if m.dom().contains("fade_in_ms"@) {
                m["fade_in_ms"@] == Tree::Integer(c.fade_in_ms as i64)
            } else {
                c.fade_in_ms == 0
            }
            &&& if m.dom().contains("in_ms"@) {
                m["in_ms"@] == Tree::Integer(c.in_ms as i64)
            } else {
                c.in_ms == 0
            }
            &&& match c.out_ms {
                Some(n) => m.dom().contains("out_ms"@) && m["out_ms"@] == Tree::Integer(n as i64),
                None => !m.dom().contains("out_ms"@),
            }
            &&& if m.dom().contains("loop"@) {
                m["loop"@] == Tree::Flag(c.loops)
            } else {
                !c.loops
            }
            &&& match c.on_end {
                EndAction::Cut => !m.dom().contains("on_end"@) || document::chooses(
                    Some(m["on_end"@]),
                    "cut"@,
                ),
                EndAction::Freeze => m.dom().contains("on_end"@) && document::chooses(
                    Some(m["on_end"@]),
                    "freeze"@,
                ),
                EndAction::Fade => m.dom().contains("on_end"@) && document::chooses(
                    Some(m["on_end"@]),
                    "fade"@,
                ),
            }
            &&& match c.notes {
                Some(s) => m.dom().contains("notes"@) && m["notes"@] == Tree::Text(s),
                None => !m.dom().contains("notes"@),
            }
            &&& target_in(
                if m.dom().contains("target"@) {
                    Some(m["target"@])
                } else {
                    None
                },
            ) == Some(c.target)
            &&& match c.exclude_action {
                ExcludeAction::Ignore => !m.dom().contains("exclude_action"@) || document::chooses(
                    Some(m["exclude_action"@]),
                    "ignore"@,
                ),
                ExcludeAction::Poster => m.dom().contains("exclude_action"@) && document::chooses(
                    Some(m["exclude_action"@]),
                    "poster"@,
                ),
                ExcludeAction::Color => m.dom().contains("exclude_action"@) && document::chooses(
                    Some(m["exclude_action"@]),
                    "color"@,
                ),
            }
            &&& match c.exclude_color {
                Some(s) => m.dom().contains("exclude_color"@) && m["exclude_color"@] == Tree::Text(s),
                None => !m.dom().contains("exclude_color"@),
            }
        },
{
    let t = Tree::Table(m);
    lemma_kind_options(document::field_of(t, "type"@, 2));
    lemma_end_options(document::field_of(t, "on_end"@, 9));
    lemma_exclude_options(document::field_of(t, "exclude_action"@, 12));
    let read = cue_in(t);
    if c.file.len() == 0 {
        assert(c.file =~= Seq::<char>::empty());
    }
    if cue_problem(t) is None && read.id == c.id && read.name == c.name && read.kind == c.kind
        && read.file == c.file && read.color == c.color && read.fade_in_ms == c.fade_in_ms
        && read.in_ms == c.in_ms && read.out_ms == c.out_ms && read.loops == c.loops
        && read.on_end == c.on_end && read.notes == c.notes && read.target == c.target
        && read.exclude_action == c.exclude_action && read.exclude_color == c.exclude_color {
        assert(read =~= c);
    }
}

/// A list reads as the cue that a table reads as that holds its items, in order,
/// under the keys of a cue.
pub proof fn law_cue_of_a_list(items: Seq<Tree>, m: Map<Seq<char>, Tree>)
    requires
        ({
            let keys = seq![
                "id"@,
                "name"@,
                "type"@,
                "file"@,
                "color"@,
                "fade_in_ms"@,
                "in_ms"@,
                "out_ms"@,
                "loop"@,
                "on_end"@,
                "notes"@,
                "target"@,
                "exclude_action"@,
                "exclude_color"@,
            ];
            forall|k: int|
                0 <= k < keys.len() ==> (m.dom().contains(#[trigger] keys[k]) <==> k < items.len())
                    && (k < items.len() ==> m[keys[k]] == items[k])
        }),
    ensures
        cue_problem(Tree::List(items)) == cue_problem(Tree::Table(m)),
        cue_in(Tree::List(items)) == cue_in(Tree::Table(m)),
{
    let keys = seq![
        "id"@,
        "name"@,
        "type"@,
        "file"@,
        "color"@,
        "fade_in_ms"@,
        "in_ms"@,
        "out_ms"@,
        "loop"@,
        "on_end"@,
        "notes"@,
        "target"@,
        "exclude_action"@,
        "exclude_color"@,
    ];
    assert(keys[0] == "id"@);
    assert(keys[1] == "name"@);
    assert(keys[2] == "type"@);
    assert(keys[3] == "file"@);
    assert(keys[4] == "color"@);
    assert(keys[5] == "fade_in_ms"@);
    assert(keys[6] == "in_ms"@);
    assert(keys[7] == "out_ms"@);
    assert(keys[8] == "loop"@);
    assert(keys[9] == "on_end"@);
    assert(keys[10] == "notes"@);
    assert(keys[11] == "target"@);
    assert(keys[12] == "exclude_action"@);
    assert(keys[13] == "exclude_color"@);
}

/// Which corrections a table reads as, by its keys, all of which it must have.
pub proof fn law_correction_of_a_table(m: Map<Seq<char>, Tree>, c: CorrectionModel)
    ensures
        (correction_problem(Tree::Table(m)) is None && correction_in(Tree::Table(m)) == c) <==> {
            &&& m.dom().contains("rate_min"@) && match m["rate_min"@] {
                Tree::Float(s) => c.rate_min == s,
                Tree::Integer(i) => c.rate_min == crate::text::signed_decimal(i as int),
                _ => false,
            }
            &&& m.dom().contains("rate_max"@) && match m["rate_max"@] {
                Tree::Float(s) => c.rate_max == s,
                Tree::Integer(i) => c.rate_max == crate::text::signed_decimal(i as int),
                _ => false,
            }
            &&& m.dom().contains("hard_seek_threshold_ms"@) && m["hard_seek_threshold_ms"@] == Tree::Integer(
                c.hard_seek_threshold_ms as i64,
            )
            &&& m.dom().contains("sync_interval_ms"@) && m["sync_interval_ms"@] == Tree::Integer(
                c.sync_interval_ms as i64,
            )
        },
{
    let read = correction_in(Tree::Table(m));
    if correction_problem(Tree::Table(m)) is None && read.rate_min == c.rate_min
        && read.rate_max == c.rate_max
        && read.hard_seek_threshold_ms == c.hard_seek_threshold_ms
        && read.sync_interval_ms == c.sync_interval_ms {
        assert(read =~= c);
    }
}

/// Which sync settings a table reads as, by its keys, all of which it must have;
/// a show without any has the standard ones.
pub proof fn law_sync_of_a_table(m: Map<Seq<char>, Tree>, c: SyncModel)
    ensures
        (sync_problem(Some(Tree::Table(m))) is None && sync_in(Some(Tree::Table(m))) == c) <==> {
            &&& m.dom().contains("max_drift_ms"@) && m["max_drift_ms"@] == Tree::Integer(
                c.max_drift_ms as i64,
            )
            &&& m.dom().contains("start_lead_ms"@) && m["start_lead_ms"@] == Tree::Integer(
                c.start_lead_ms as i64,
            )
            &&& m.dom().contains("correction"@) && correction_problem(m["correction"@]) is None
                && correction_in(m["correction"@]) == c.correction
        },
        sync_problem(None) is None,
        sync_in(None).max_drift_ms == 150,
        sync_in(None).start_lead_ms == 250,
        sync_in(None).correction.rate_min == "0.95"@,
        sync_in(None).correction.rate_max == "1.05"@,
        sync_in(None).correction.hard_seek_threshold_ms == 300,
        sync_in(None).correction.sync_interval_ms == 1000,
{
    let read = sync_in(Some(Tree::Table(m)));
    if sync_problem(Some(Tree::Table(m))) is None && read.max_drift_ms == c.max_drift_ms
        && read.start_lead_ms == c.start_lead_ms && read.correction == c.correction {
        assert(read =~= c);
    }
}

/// Which poster a table reads as, by its keys, both of which it must have; a
/// show need not have one.
pub proof fn law_poster_of_a_table(m: Map<Seq<char>, Tree>, c: PosterModel)
    ensures
        (poster_problem(Some(Tree::Table(m))) is None && poster_in(Some(Tree::Table(m))) == Some(
            c,
        )) <==> {
            &&& match c.kind {
                CueKind::Video => m.dom().contains("type"@) && document::chooses(
                    Some(m["type"@]),
                    "video"@,
                ),
                CueKind::Image => m.dom().contains("type"@) && document::chooses(
                    Some(m["type"@]),
                    "image"@,
                ),
                CueKind::Color => m.dom().contains("type"@) && document::chooses(
                    Some(m["type"@]),
                    "color"@,
                ),
            }
            &&& m.dom().contains("file"@) && m["file"@] == Tree::Text(c.file)
        },
        poster_problem(None) is None,
        poster_in(None) is None,
{
    let t = Tree::Table(m);
    lemma_kind_options(document::field_of(t, "type"@, 0));
    let read = poster_in(Some(t))->0;
    if poster_problem(Some(t)) is None && read.kind == c.kind && read.file == c.file {
        assert(read =~= c);
    }
}

/// Which settings a table reads as, by its keys. Only the dropout policy, the
/// sync settings and the poster may be missing.
pub proof fn law_settings_of_a_table(m: Map<Seq<char>, Tree>, c: ShowModel)
    ensures
        (settings_problem(Tree::Table(m)) is None && settings_in(Tree::Table(m)) == c) <==> {
            &&& m.dom().contains("title"@) && m["title"@] == Tree::Text(c.title)
            &&& m.dom().contains("version"@) && m["version"@] == Tree::Integer(c.version as i64)
            &&& m.dom().contains("media_root"@) && m["media_root"@] == Tree::Text(c.media_root)
            &&& match c.dropout_policy {
                DropoutPolicy::Continue => !m.dom().contains("dropout_policy"@) || document::chooses(
                    Some(m["dropout_policy"@]),
                    "continue"@,
                ),
                DropoutPolicy::Freeze => m.dom().contains("dropout_policy"@) && document::chooses(
                    Some(m["dropout_policy"@]),
                    "freeze"@,
                ),
                DropoutPolicy::Black => m.dom().contains("dropout_policy"@) && document::chooses(
                    Some(m["dropout_policy"@]),
                    "black"@,
                ),
            }
            &&& ({
                let f = if m.dom().contains("sync"@) {
                    Some(m["sync"@])
                } else {
                    None
                };
                sync_problem(f) is None && sync_in(f) == c.sync
            })
            &&& ({
                let f = if m.dom().contains("poster"@) {
                    Some(m["poster"@])
                } else {
                    None
                };
                poster_problem(f) is None && poster_in(f) == c.poster
            })
        },
{
    let t = Tree::Table(m);
    lemma_dropout_options(document::field_of(t, "dropout_policy"@, 3));
    let read = settings_in(t);
    if settings_problem(t) is None && read.title == c.title && read.version == c.version
        && read.media_root == c.media_root && read.dropout_policy == c.dropout_policy && read.sync
        == c.sync && read.poster == c.poster {
        assert(read =~= c);
    }
}

proof fn lemma_cues_problem(items: Seq<Tree>, i: int)
    requires
        0 <= i <= items.len(),
    ensures
        cues_problem(items, i) is None <==> (forall|k: int|
            i <= k < items.len() ==> cue_problem(#[trigger] items[k]) is None),
    decreases items.len() - i,
{
    if i < items.len() {
        lemma_cues_problem(items, i + 1);
    }
}

/// Which show a document reads as: its settings stand under `show`, and its cues,
/// in order, in the list under `cues`, which may be missing.
pub proof fn law_show_of_a_table(m: Map<Seq<char>, Tree>, s: ShowFileModel)
    ensures
        (show_problem(Tree::Table(m)) is None && show_in(Tree::Table(m)) == s) <==> {
            &&& m.dom().contains("show"@)
            &&& settings_problem(m["show"@]) is None
            &&& settings_in(m["show"@]) == s.show
            &&& if m.dom().contains("cues"@) {
                &&& m["cues"@] matches Tree::List(items)
                &&& items.len() == s.cues.len()
                &&& forall|i: int|
                    0 <= i < items.len() ==> cue_problem(#[trigger] items[i]) is None && cue_in(
                        items[i],
                    ) == s.cues[i]
            } else {
                s.cues.len() == 0
            }
        },
{
    let read = show_in(Tree::Table(m));
    if m.dom().contains("cues"@) {
        if let Tree::List(items) = m["cues"@] {
            lemma_cues_problem(items, 0);
            assert(read.cues.len() == items.len());
            if read.cues == s.cues {
                assert forall|i: int| 0 <= i < items.len() implies cue_in(#[trigger] items[i])
                    == s.cues[i] by {
                    assert(read.cues[i] == s.cues[i]);
                }
            }
            if items.len() == s.cues.len() && (forall|i: int|
                0 <= i < items.len() ==> cue_problem(#[trigger] items[i]) is None && cue_in(
                    items[i],
                ) == s.cues[i]) {
                assert(read.cues =~= s.cues);
            }
        }
    } else if s.cues.len() == 0 {
        assert(read.cues =~= s.cues);
    }
    if show_problem(Tree::Table(m)) is None && read.show == s.show && read.cues == s.cues {
        assert(read =~= s);
    }
}

/// A show is opened exactly where the file could be read, its text is TOML, that
/// reads as a show, and the show is valid: then it is that show. Otherwise the
/// error says which of these failed.
pub proof fn law_what_loading_gives(raw: Seq<char>, error: Seq<char>)
    ensures
        loaded(Err(error)) == Err::<ShowFileModel, ShowErrorModel>(ShowErrorModel::Io(error)),
        match document::parsed_toml(raw) {
            Err(e) => loaded(Ok(raw)) == Err::<ShowFileModel, ShowErrorModel>(
                ShowErrorModel::Toml(e),
            ),
            Ok(t) => {
                &&& loaded(Ok(raw)) is Ok <==> show_problem(t) is None && show_in(
                    t,
                ).fault() is None
                &&& loaded(Ok(raw)) is Ok ==> loaded(Ok(raw))->Ok_0 == show_in(t)
                &&& show_problem(t) is Some ==> loaded(Ok(raw)) == Err::<
                    ShowFileModel,
                    ShowErrorModel,
                >(
                    ShowErrorModel::Toml(
                        "invalid or missing field `"@ + show_problem(t)->0 + "`"@,
                    ),
                )
                &&& show_problem(t) is None && show_in(t).fault() is Some ==> loaded(Ok(raw))
                    == Err::<ShowFileModel, ShowErrorModel>(show_in(t).fault()->0)
            },
        },
{
}

/// The complaint about a table that is no cue names the first field, in the order
/// of a cue's fields, that is missing or does not hold what it should.
pub proof fn law_first_bad_field_is_named(m: Map<Seq<char>, Tree>)
    ensures
        ({
            let problem = cue_problem(Tree::Table(m));
            let id_ok = m.dom().contains("id"@) && m["id"@] is Text;
            let name_ok = m.dom().contains("name"@) && m["name"@] is Text;
            let type_ok = {
                &&& m.dom().contains("type"@)
                &&& {
                    ||| document::chooses(Some(m["type"@]), "video"@)
                    ||| document::chooses(Some(m["type"@]), "image"@)
                    ||| document::chooses(Some(m["type"@]), "color"@)
                }
            };
            let file_ok = (m.dom().contains("file"@) ==> m["file"@] is Text);
            let color_ok = (m.dom().contains("color"@) ==> m["color"@] is Text);
            let fade_in_ms_ok = m.dom().contains("fade_in_ms"@) ==> {
                &&& m["fade_in_ms"@] matches Tree::Integer(n)
                &&& 0 <= n <= u32::MAX
            };
            let in_ms_ok = m.dom().contains("in_ms"@) ==> {
                &&& m["in_ms"@] matches Tree::Integer(n)
                &&& 0 <= n <= u32::MAX
            };
            let out_ms_ok = m.dom().contains("out_ms"@) ==> {
                &&& m["out_ms"@] matches Tree::Integer(n)
                &&& 0 <= n <= u32::MAX
            };
            let loop_ok = (m.dom().contains("loop"@) ==> m["loop"@] is Flag);
            let on_end_ok = m.dom().contains("on_end"@) ==> {
                ||| document::chooses(Some(m["on_end"@]), "cut"@)
                ||| document::chooses(Some(m["on_end"@]), "freeze"@)
                ||| document::chooses(Some(m["on_end"@]), "fade"@)
            };
            let notes_ok = (m.dom().contains("notes"@) ==> m["notes"@] is Text);
            let target_ok = m.dom().contains("target"@) ==> {
                target_in(Some(m["target"@])) is Some
            };
            let exclude_action_ok = m.dom().contains("exclude_action"@) ==> {
                ||| document::chooses(Some(m["exclude_action"@]), "ignore"@)
                ||| document::chooses(Some(m["exclude_action"@]), "poster"@)
                ||| document::chooses(Some(m["exclude_action"@]), "color"@)
            };
            let exclude_color_ok = m.dom().contains("exclude_color"@) ==> {
                m["exclude_color"@] is Text
            };
            if !id_ok {
                problem == Some("id"@)
            } else if !name_ok {
                problem == Some("name"@)
            } else if !type_ok {
                problem == Some("type"@)
            } else if !file_ok {
                problem == Some("file"@)
            } else if !color_ok {
                problem == Some("color"@)
            } else if !fade_in_ms_ok {
                problem == Some("fade_in_ms"@)
            } else if !in_ms_ok {
                problem == Some("in_ms"@)
            } else if !out_ms_ok {
                problem == Some("out_ms"@)
            } else if !loop_ok {
                problem == Some("loop"@)
            } else if !on_end_ok {
                problem == Some("on_end"@)
            } else if !notes_ok {
                problem == Some("notes"@)
            } else if !target_ok {
                problem == Some("target"@)
            } else if !exclude_action_ok {
                problem == Some("exclude_action"@)
            } else if !exclude_color_ok {
                problem == Some("exclude_color"@)
            } else {
                problem is None
            }
        }),
{
}

/// A list reads as the corrections that a table reads as that holds its items, in
/// order, under the same keys.
pub proof fn law_correction_of_a_list(items: Seq<Tree>, m: Map<Seq<char>, Tree>)
    requires
        ({
            let keys = seq![
                "rate_min"@,
                "rate_max"@,
                "hard_seek_threshold_ms"@,
                "sync_interval_ms"@,
            ];
            forall|k: int|
                0 <= k < keys.len() ==> (m.dom().contains(#[trigger] keys[k]) <==> k < items.len())
                    && (k < items.len() ==> m[keys[k]] == items[k])
        }),
    ensures
        correction_problem(Tree::List(items)) == correction_problem(Tree::Table(m)),
        correction_in(Tree::List(items)) == correction_in(Tree::Table(m)),
{
    let keys = seq!["rate_min"@, "rate_max"@, "hard_seek_threshold_ms"@, "sync_interval_ms"@];
    assert(keys[0] == "rate_min"@);
    assert(keys[1] == "rate_max"@);
    assert(keys[2] == "hard_seek_threshold_ms"@);
    assert(keys[3] == "sync_interval_ms"@);
}

/// A list reads as the sync settings that a table reads as that holds its items, in
/// order, under the same keys.
pub proof fn law_sync_of_a_list(items: Seq<Tree>, m: Map<Seq<char>, Tree>)
    requires
        ({
            let keys = seq!["max_drift_ms"@, "start_lead_ms"@, "correction"@];
            forall|k: int|
                0 <= k < keys.len() ==> (m.dom().contains(#[trigger] keys[k]) <==> k < items.len())
                    && (k < items.len() ==> m[keys[k]] == items[k])
        }),
    ensures
        sync_problem(Some(Tree::List(items))) == sync_problem(Some(Tree::Table(m))),
        sync_in(Some(Tree::List(items))) == sync_in(Some(Tree::Table(m))),
{
    let keys = seq!["max_drift_ms"@, "start_lead_ms"@, "correction"@];
    assert(keys[0] == "max_drift_ms"@);
    assert(keys[1] == "start_lead_ms"@);
    assert(keys[2] == "correction"@);
}

/// A list reads as the poster that a table reads as that holds its items, in
/// order, under the same keys.
pub proof fn law_poster_of_a_list(items: Seq<Tree>, m: Map<Seq<char>, Tree>)
    requires
        ({
            let keys = seq!["type"@, "file"@];
            forall|k: int|
                0 <= k < keys.len() ==> (m.dom().contains(#[trigger] keys[k]) <==> k < items.len())
                    && (k < items.len() ==> m[keys[k]] == items[k])
        }),
    ensures
        poster_problem(Some(Tree::List(items))) == poster_problem(Some(Tree::Table(m))),
        poster_in(Some(Tree::List(items))) == poster_in(Some(Tree::Table(m))),
{
    let keys = seq!["type"@, "file"@];
    assert(keys[0] == "type"@);
    assert(keys[1] == "file"@);
}

/// A list reads as the settings that a table reads as that holds its items, in
/// order, under the same keys.
pub proof fn law_settings_of_a_list(items: Seq<Tree>, m: Map<Seq<char>, Tree>)
    requires
        ({
            let keys = seq![
                "title"@,
                "version"@,
                "media_root"@,
                "dropout_policy"@,
                "sync"@,
                "poster"@,
            ];
            forall|k: int|
                0 <= k < keys.len() ==> (m.dom().contains(#[trigger] keys[k]) <==> k < items.len())
                    && (k < items.len() ==> m[keys[k]] == items[k])
        }),
    ensures
        settings_problem(Tree::List(items)) == settings_problem(Tree::Table(m)),
        settings_in(Tree::List(items)) == settings_in(Tree::Table(m)),
{
    let keys = seq![
        "title"@,
        "version"@,
        "media_root"@,
        "dropout_policy"@,
        "sync"@,
        "poster"@,
    ];
    assert(keys[0] == "title"@);
    assert(keys[1] == "version"@);
    assert(keys[2] == "media_root"@);
    assert(keys[3] == "dropout_policy"@);
    assert(keys[4] == "sync"@);
    assert(keys[5] == "poster"@);
}

/// A list reads as the show that a table reads as that holds its items, in
/// order, under the same keys.
pub proof fn law_show_of_a_list(items: Seq<Tree>, m: Map<Seq<char>, Tree>)
    requires
        ({
            let keys = seq!["show"@, "cues"@];
            forall|k: int|
                0 <= k < keys.len() ==> (m.dom().contains(#[trigger] keys[k]) <==> k < items.len())
                    && (k < items.len() ==> m[keys[k]] == items[k])
        }),
    ensures
        show_problem(Tree::List(items)) == show_problem(Tree::Table(m)),
        show_in(Tree::List(items)) == show_in(Tree::Table(m)),
{
    let keys = seq!["show"@, "cues"@];
    assert(keys[0] == "show"@);
    assert(keys[1] == "cues"@);
}

} // verus!
