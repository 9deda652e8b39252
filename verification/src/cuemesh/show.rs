//! CueMesh2 shows (`*.cuemesh.toml`): cues, validation, and the file format.

use vstd::prelude::*;

use crate::document;
use crate::document::{
    field, parse_document, read_choice, read_number, read_optional_number, read_optional_text,
    read_text, Node, Tree,
};
use crate::paths;
use crate::paths::join_path;
use crate::show_file;
use crate::show_file::{is_record, read_dropout, read_sync};
use crate::text;
use crate::text::{contains_text, copy_option, same_text, u64_text};

pub use crate::show::{
    CorrectionModel, DropoutPolicy, MediaNeed, MediaNeedModel, SyncConfig, SyncCorrection,
    SyncModel,
};

verus! {

/// What a cue shows.
#[derive(Debug, Clone, Copy, PartialEq, Eq, Structural)]
pub enum CueKind {
    Video,
    Image,
}

/// One cue of a show.
#[derive(Debug, PartialEq, Eq)]
pub struct Cue {
    pub id: String,
    pub name: String,
    pub kind: CueKind,
    pub file: String,
    pub volume: u8,
    pub fade_in_ms: u32,
    pub fade_out_ms: u32,
    /// If above 0, the client preloads the following cue on the idle layer once
    /// the fades on that layer are complete, then crossfades on cue end.
    pub crossfade_to_next_ms: u32,
    pub notes: Option<String>,
}

/// The model of a [`Cue`].
#[verifier::ext_equal]
pub struct CueModel {
    pub id: Seq<char>,
    pub name: Seq<char>,
    pub kind: CueKind,
    pub file: Seq<char>,
    pub volume: u8,
    pub fade_in_ms: u32,
    pub fade_out_ms: u32,
    pub crossfade_to_next_ms: u32,
    pub notes: Option<Seq<char>>,
}

impl View for Cue {
    type V = CueModel;

    open spec fn view(&self) -> CueModel {
        CueModel {
            id: self.id@,
            name: self.name@,
            kind: self.kind,
            file: self.file@,
            volume: self.volume,
            fade_in_ms: self.fade_in_ms,
            fade_out_ms: self.fade_out_ms,
            crossfade_to_next_ms: self.crossfade_to_next_ms,
            notes: self.notes.deep_view(),
        }
    }
}

impl DeepView for Cue {
    type V = CueModel;

    open spec fn deep_view(&self) -> CueModel {
        self@
    }
}

impl Clone for Cue {
    fn clone(&self) -> (r: Self)
        ensures
            r@ == self@,
    {
        Cue {
            id: self.id.clone(),
            name: self.name.clone(),
            kind: self.kind,
            file: self.file.clone(),
            volume: self.volume,
            fade_in_ms: self.fade_in_ms,
            fade_out_ms: self.fade_out_ms,
            crossfade_to_next_ms: self.crossfade_to_next_ms,
            notes: copy_option(&self.notes),
        }
    }
}

/// Settings of a show that the operator's commands use.
#[derive(Debug, Clone, Copy, PartialEq, Eq, Structural)]
pub struct ShowSettings {
    /// Duration used by the operator FADE command to fade all layers to black.
    pub default_fade_ms: u32,
}

impl Default for ShowSettings {
    fn default() -> (r: Self)
        ensures
            r == (ShowSettings { default_fade_ms: 1500 }),
    {
        ShowSettings { default_fade_ms: 1500 }
    }
}

/// The settings of a show.
#[derive(Debug, PartialEq, Eq)]
pub struct Show {
    pub title: String,
    pub version: u32,
    pub media_root: String,
    pub dropout_policy: DropoutPolicy,
    pub sync: SyncConfig,
    pub settings: ShowSettings,
}

/// The model of a [`Show`].
#[verifier::ext_equal]
pub struct ShowModel {
    pub title: Seq<char>,
    pub version: u32,
    pub media_root: Seq<char>,
    pub dropout_policy: DropoutPolicy,
    pub sync: SyncModel,
    pub settings: ShowSettings,
}

impl View for Show {
    type V = ShowModel;

    open spec fn view(&self) -> ShowModel {
        ShowModel {
            title: self.title@,
            version: self.version,
            media_root: self.media_root@,
            dropout_policy: self.dropout_policy,
            sync: self.sync@,
            settings: self.settings,
        }
    }
}

/// A whole show: its settings and its cues.
#[derive(Debug, PartialEq, Eq)]
pub struct ShowFile {
    pub show: Show,
    pub cues: Vec<Cue>,
}

/// The model of a [`ShowFile`].
#[verifier::ext_equal]
pub struct ShowFileModel {
    pub show: ShowModel,
    pub cues: Seq<CueModel>,
}

impl View for ShowFile {
    type V = ShowFileModel;

    open spec fn view(&self) -> ShowFileModel {
        ShowFileModel { show: self.show@, cues: self.cues.deep_view() }
    }
}

impl DeepView for ShowFile {
    type V = ShowFileModel;

    open spec fn deep_view(&self) -> ShowFileModel {
        self@
    }
}

/// What can be wrong with a show or its file.
#[derive(Debug, PartialEq, Eq)]
pub enum ShowError {
    /// The file could not be read.
    Io(String),
    /// The file is not TOML, or not the TOML of a show.
    Toml(String),
    DuplicateCueId(String),
    MediaMissing { cue_id: String, path: String },
    VolumeOutOfRange { cue_id: String, volume: u8 },
}

/// The model of a [`ShowError`].
#[verifier::ext_equal]
pub enum ShowErrorModel {
    Io(Seq<char>),
    Toml(Seq<char>),
    DuplicateCueId(Seq<char>),
    MediaMissing { cue_id: Seq<char>, path: Seq<char> },
    VolumeOutOfRange { cue_id: Seq<char>, volume: u8 },
}

impl View for ShowError {
    type V = ShowErrorModel;

    open spec fn view(&self) -> ShowErrorModel {
        match self {
            ShowError::Io(s) => ShowErrorModel::Io(s@),
            ShowError::Toml(s) => ShowErrorModel::Toml(s@),
            ShowError::DuplicateCueId(s) => ShowErrorModel::DuplicateCueId(s@),
            ShowError::MediaMissing { cue_id, path } => ShowErrorModel::MediaMissing {
                cue_id: cue_id@,
                path: path@,
            },
            ShowError::VolumeOutOfRange { cue_id, volume } => ShowErrorModel::VolumeOutOfRange {
                cue_id: cue_id@,
                volume: *volume,
            },
        }
    }
}

impl ShowErrorModel {
    /// The error in words.
    pub open spec fn message(self) -> Seq<char> {
        match self {
            ShowErrorModel::Io(s) => "failed to read show file: "@ + s,
            ShowErrorModel::Toml(s) => "failed to parse TOML: "@ + s,
            ShowErrorModel::DuplicateCueId(s) => "duplicate cue id: "@ + s,
            ShowErrorModel::MediaMissing { cue_id, path } => "cue "@ + cue_id
                + ": media file not found at "@ + path,
            ShowErrorModel::VolumeOutOfRange { cue_id, volume } => "cue "@ + cue_id + ": volume "@
                + text::decimal(volume as nat) + " out of range 0..=100"@,
        }
    }
}

impl ShowError {
    /// The error in words.
    pub fn message(&self) -> (r: String)
        ensures
            r@ == self@.message(),
            match self {
                ShowError::Io(s) => r@ == "failed to read show file: "@ + s@,
                ShowError::Toml(s) => r@ == "failed to parse TOML: "@ + s@,
                ShowError::DuplicateCueId(s) => r@ == "duplicate cue id: "@ + s@,
                ShowError::MediaMissing { cue_id, path } => r@ == "cue "@ + cue_id@
                    + ": media file not found at "@ + path@,
                ShowError::VolumeOutOfRange { cue_id, volume } => r@ == "cue "@ + cue_id@ + ": volume "@
                    + text::decimal(*volume as nat) + " out of range 0..=100"@,
            },
    {
        match self {
            ShowError::Io(s) => "failed to read show file: ".to_owned().concat(s.as_str()),
            ShowError::Toml(s) => "failed to parse TOML: ".to_owned().concat(s.as_str()),
            ShowError::DuplicateCueId(s) => "duplicate cue id: ".to_owned().concat(s.as_str()),
            ShowError::MediaMissing { cue_id, path } => "cue ".to_owned().concat(
                cue_id.as_str(),
            ).concat(": media file not found at ").concat(path.as_str()),
            ShowError::VolumeOutOfRange { cue_id, volume } => "cue ".to_owned().concat(
                cue_id.as_str(),
            ).concat(": volume ").concat(u64_text(*volume as u64).as_str()).concat(
                " out of range 0..=100",
            ),
        }
    }
}

/// Does one of the first `n` cues have this id?
pub open spec fn id_taken(cues: Seq<CueModel>, n: int, id: Seq<char>) -> bool {
    exists|j: int| 0 <= j < n && (#[trigger] cues[j]).id == id
}

/// What is wrong with cue `i` of a show, given the cues before it.
pub open spec fn cue_fault(cues: Seq<CueModel>, i: int) -> Option<ShowErrorModel> {
    let cue = cues[i];
    if id_taken(cues, i, cue.id) {
        Some(ShowErrorModel::DuplicateCueId(cue.id))
    } else if cue.volume > 100 {
        Some(ShowErrorModel::VolumeOutOfRange { cue_id: cue.id, volume: cue.volume })
    } else {
        None
    }
}

/// The fault of the first faulty cue from index `i` on.
pub open spec fn fault_from(cues: Seq<CueModel>, i: int) -> Option<ShowErrorModel>
    decreases cues.len() - i,
{
    if i >= cues.len() {
        None
    } else {
        match cue_fault(cues, i) {
            Some(e) => Some(e),
            None => fault_from(cues, i + 1),
        }
    }
}

/// The first media file that is not among those present, from cue `i` on.
pub open spec fn missing_from(
    cues: Seq<CueModel>,
    media_root: Seq<char>,
    present: Seq<Seq<char>>,
    i: int,
) -> Option<ShowErrorModel>
    decreases cues.len() - i,
{
    if i >= cues.len() {
        None
    } else {
        let path = paths::joined(media_root, cues[i].file);
        if present.contains(path) {
            missing_from(cues, media_root, present, i + 1)
        } else {
            Some(ShowErrorModel::MediaMissing { cue_id: cues[i].id, path })
        }
    }
}

impl ShowFileModel {
    /// The first structural fault of the show, if it has one.
    pub open spec fn fault(self) -> Option<ShowErrorModel> {
        fault_from(self.cues, 0)
    }

    /// The media files that the show needs, in cue order.
    pub open spec fn media(self, media_root: Seq<char>) -> Seq<MediaNeedModel> {
        self.cues.map_values(
            |c: CueModel|
                MediaNeedModel { cue_id: c.id, path: paths::joined(media_root, c.file) },
        )
    }
}

impl ShowFile {
    /// Structural validation. Does *not* look for media files: see
    /// [`Self::validate_media`] for that.
    pub fn validate(&self) -> (r: Result<(), ShowError>)
        ensures
            match r {
                Ok(()) => self@.fault() is None,
                Err(e) => self@.fault() == Some(e@),
            },
    {
        let ghost cues = self@.cues;
        let mut i: usize = 0;
        while i < self.cues.len()
            invariant
                0 <= i <= self.cues.len(),
                cues == self@.cues,
                fault_from(cues, 0) == fault_from(cues, i as int),
            decreases self.cues.len() - i,
        {
            let cue: &Cue = &self.cues[i];
            assert(cues[i as int] == cue@);
            let mut j: usize = 0;
            while j < i
                invariant
                    0 <= j <= i < self.cues.len(),
                    cues == self@.cues,
                    cue@ == cues[i as int],
                    fault_from(cues, 0) == fault_from(cues, i as int),
                    forall|k: int| 0 <= k < j ==> (#[trigger] cues[k]).id != cue@.id,
                decreases i - j,
            {
                if same_text(self.cues[j].id.as_str(), cue.id.as_str()) {
                    assert(cues[j as int].id == cue@.id);
                    return Err(ShowError::DuplicateCueId(cue.id.clone()));
                }
                assert(cues[j as int].id == self.cues@[j as int].id@);
                j = j + 1;
            }
            if cue.volume > 100 {
                return Err(
                    ShowError::VolumeOutOfRange { cue_id: cue.id.clone(), volume: cue.volume },
                );
            }
            i = i + 1;
        }
        Ok(())
    }

    /// The media files that the show needs under `media_root`, in cue order.
    pub fn media_needs(&self, media_root: &str) -> (r: Vec<MediaNeed>)
        ensures
            r.deep_view() == self@.media(media_root@),
    {
        let mut r: Vec<MediaNeed> = Vec::new();
        let mut i: usize = 0;
        while i < self.cues.len()
            invariant
                0 <= i <= self.cues.len(),
                r@.len() == i,
                forall|k: int|
                    0 <= k < i ==> (#[trigger] r@[k]).deep_view() == (MediaNeedModel {
                        cue_id: self.cues@[k].id@,
                        path: paths::joined(media_root@, self.cues@[k].file@),
                    }),
            decreases self.cues.len() - i,
        {
            r.push(
                MediaNeed {
                    cue_id: self.cues[i].id.clone(),
                    path: join_path(media_root, self.cues[i].file.as_str()),
                },
            );
            i = i + 1;
        }
        assert(r.deep_view() =~= self@.media(media_root@));
        r
    }

    /// Check that every cue's file under the (already expanded) `media_root` is
    /// among the files `present`.
    pub fn validate_media(&self, media_root: &str, present: &Vec<String>) -> (r: Result<
        (),
        ShowError,
    >)
        ensures
            match r {
                Ok(()) => missing_from(self@.cues, media_root@, present.deep_view(), 0) is None,
                Err(e) => missing_from(self@.cues, media_root@, present.deep_view(), 0) == Some(e@),
            },
    {
        let ghost cues = self@.cues;
        let mut i: usize = 0;
        while i < self.cues.len()
            invariant
                0 <= i <= self.cues.len(),
                cues == self@.cues,
                missing_from(cues, media_root@, present.deep_view(), 0) == missing_from(
                    cues,
                    media_root@,
                    present.deep_view(),
                    i as int,
                ),
            decreases self.cues.len() - i,
        {
            let cue: &Cue = &self.cues[i];
            assert(cues[i as int] == cue@);
            let path: String = join_path(media_root, cue.file.as_str());
            if !contains_text(present, path.as_str()) {
                return Err(ShowError::MediaMissing { cue_id: cue.id.clone(), path });
            }
            i = i + 1;
        }
        Ok(())
    }
}

/// The cue kind that a field chooses.
pub open spec fn kind_in(f: Option<Tree>) -> Option<CueKind> {
    if document::chooses(f, "video"@) {
        Some(CueKind::Video)
    } else if document::chooses(f, "image"@) {
        Some(CueKind::Image)
    } else {
        None
    }
}

fn read_kind(f: Option<&Node>) -> (r: Option<CueKind>)
    ensures
        r == kind_in(document::seen(f)),
{
    if read_choice(f, "video") {
        Some(CueKind::Video)
    } else if read_choice(f, "image") {
        Some(CueKind::Image)
    } else {
        None
    }
}

/// The first field of a cue that is missing or does not hold what it should.
pub open spec fn cue_problem(t: Tree) -> Option<Seq<char>> {
    if !document::record(t) {
        Some("cues"@)
    } else if !document::is_text(document::field_of(t, "id"@, 0)) {
        Some("id"@)
    } else if !document::is_text(document::field_of(t, "name"@, 1)) {
        Some("name"@)
    } else if kind_in(document::field_of(t, "type"@, 2)) is None {
        Some("type"@)
    } else if !document::is_text(document::field_of(t, "file"@, 3)) {
        Some("file"@)
    } else if !document::is_number_or_absent(
        document::field_of(t, "volume"@, 4),
        u8::MAX as int,
    ) {
        Some("volume"@)
    } else if !document::is_number_or_absent(
        document::field_of(t, "fade_in_ms"@, 5),
        u32::MAX as int,
    ) {
        Some("fade_in_ms"@)
    } else if !document::is_number_or_absent(
        document::field_of(t, "fade_out_ms"@, 6),
        u32::MAX as int,
    ) {
        Some("fade_out_ms"@)
    } else if !document::is_number_or_absent(
        document::field_of(t, "crossfade_to_next_ms"@, 7),
        u32::MAX as int,
    ) {
        Some("crossfade_to_next_ms"@)
    } else if !document::is_text_or_absent(document::field_of(t, "notes"@, 8)) {
        Some("notes"@)
    } else {
        None
    }
}

/// The cue that a tree without a problem holds. A cue without a volume plays at
/// full volume.
pub open spec fn cue_in(t: Tree) -> CueModel {
    CueModel {
        id: document::text_in(document::field_of(t, "id"@, 0)),
        name: document::text_in(document::field_of(t, "name"@, 1)),
        kind: kind_in(document::field_of(t, "type"@, 2))->0,
        file: document::text_in(document::field_of(t, "file"@, 3)),
        volume: document::number_in(document::field_of(t, "volume"@, 4), 100) as u8,
        fade_in_ms: document::number_in(document::field_of(t, "fade_in_ms"@, 5), 0) as u32,
        fade_out_ms: document::number_in(document::field_of(t, "fade_out_ms"@, 6), 0) as u32,
        crossfade_to_next_ms: document::number_in(
            document::field_of(t, "crossfade_to_next_ms"@, 7),
            0,
        ) as u32,
        notes: document::some_text_in(document::field_of(t, "notes"@, 8)),
    }
}

/// The volume of a cue that names none.
fn default_volume() -> (r: u8)
    ensures
        r == 100,
{
    100
}

fn read_cue(n: &Node) -> (r: Result<Cue, &'static str>)
    ensures
        match r {
            Ok(c) => cue_problem(n@) is None && c@ == cue_in(n@),
            Err(key) => cue_problem(n@) == Some(key@),
        },
{
    if !is_record(n) {
        return Err("cues");
    }
    let id: String = match read_text(field(n, "id", 0)) {
        Some(v) => v,
        None => {
            return Err("id");
        },
    };
    let name: String = match read_text(field(n, "name", 1)) {
        Some(v) => v,
        None => {
            return Err("name");
        },
    };
    let kind: CueKind = match read_kind(field(n, "type", 2)) {
        Some(v) => v,
        None => {
            return Err("type");
        },
    };
    let file: String = match read_text(field(n, "file", 3)) {
        Some(v) => v,
        None => {
            return Err("file");
        },
    };
    let volume: u64 = match read_optional_number(
        field(n, "volume", 4),
        u8::MAX as u64,
        default_volume() as u64,
    ) {
        Some(v) => v,
        None => {
            return Err("volume");
        },
    };
    let fade_in_ms: u64 = match read_optional_number(
        field(n, "fade_in_ms", 5),
        u32::MAX as u64,
        0,
    ) {
        Some(v) => v,
        None => {
            return Err("fade_in_ms");
        },
    };
    let fade_out_ms: u64 = match read_optional_number(
        field(n, "fade_out_ms", 6),
        u32::MAX as u64,
        0,
    ) {
        Some(v) => v,
        None => {
            return Err("fade_out_ms");
        },
    };
    let crossfade: u64 = match read_optional_number(
        field(n, "crossfade_to_next_ms", 7),
        u32::MAX as u64,
        0,
    ) {
        Some(v) => v,
        None => {
            return Err("crossfade_to_next_ms");
        },
    };
    let notes: Option<String> = match read_optional_text(field(n, "notes", 8)) {
        Some(v) => v,
        None => {
            return Err("notes");
        },
    };
    Ok(
        Cue {
            id,
            name,
            kind,
            file,
            volume: volume as u8,
            fade_in_ms: fade_in_ms as u32,
            fade_out_ms: fade_out_ms as u32,
            crossfade_to_next_ms: crossfade as u32,
            notes,
        },
    )
}

/// The first problem of the cues from index `i` on.
pub open spec fn cues_problem(items: Seq<Tree>, i: int) -> Option<Seq<char>>
    decreases items.len() - i,
{
    if i >= items.len() {
        None
    } else {
        match cue_problem(items[i]) {
            Some(key) => Some(key),
            None => cues_problem(items, i + 1),
        }
    }
}

/// The cues of a list of trees without a problem.
pub open spec fn cues_in(items: Seq<Tree>) -> Seq<CueModel> {
    items.map_values(|t: Tree| cue_in(t))
}

/// The problem of a list of cues; one that is not there is empty.
pub open spec fn cue_list_problem(f: Option<Tree>) -> Option<Seq<char>> {
    match f {
        None => None,
        Some(Tree::List(items)) => cues_problem(items, 0),
        _ => Some("cues"@),
    }
}

fn read_cues(f: Option<&Node>) -> (r: Result<Vec<Cue>, &'static str>)
    ensures
        match r {
            Ok(cues) => cue_list_problem(document::seen(f)) is None && cues.deep_view() == cues_in(
                show_file::cue_items(document::seen(f)),
            ),
            Err(key) => cue_list_problem(document::seen(f)) == Some(key@),
        },
{
    let mut cues: Vec<Cue> = Vec::new();
    match f {
        None => {
            assert(cues.deep_view() =~= cues_in(show_file::cue_items(document::seen(f))));
            Ok(cues)
        },
        Some(Node::List(items)) => {
            let ghost trees = document::list_of(items@);
            proof {
                document::lemma_list_of(items@);
            }
            let mut i: usize = 0;
            while i < items.len()
                invariant
                    0 <= i <= items.len(),
                    trees == document::list_of(items@),
                    trees.len() == items.len(),
                    forall|k: int| 0 <= k < items.len() ==> #[trigger] trees[k] == items@[k]@,
                    document::seen(f) == Some(Tree::List(trees)),
                    cues_problem(trees, 0) == cues_problem(trees, i as int),
                    cues@.len() == i,
                    forall|k: int| 0 <= k < i ==> (#[trigger] cues@[k])@ == cue_in(trees[k]),
                decreases items.len() - i,
            {
                assert(trees[i as int] == items@[i as int]@);
                match read_cue(&items[i]) {
                    Ok(cue) => {
                        cues.push(cue);
                    },
                    Err(key) => {
                        return Err(key);
                    },
                }
                i = i + 1;
            }
            assert(cues.deep_view() =~= cues_in(trees));
            Ok(cues)
        },
        _ => Err("cues"),
    }
}

/// The problem of the operator settings. Settings that are not there have none.
pub open spec fn operator_problem(f: Option<Tree>) -> Option<Seq<char>> {
    match f {
        None => None,
        Some(t) => if !document::record(t) {
            Some("settings"@)
        } else if !document::is_number(
            document::field_of(t, "default_fade_ms"@, 0),
            u32::MAX as int,
        ) {
            Some("default_fade_ms"@)
        } else {
            None
        },
    }
}

/// The operator settings that a field without a problem holds.
pub open spec fn operator_in(f: Option<Tree>) -> ShowSettings {
    ShowSettings {
        default_fade_ms: match f {
            None => 1500,
            Some(t) => document::number_in(
                document::field_of(t, "default_fade_ms"@, 0),
                0,
            ) as u32,
        },
    }
}

fn read_operator(f: Option<&Node>) -> (r: Result<ShowSettings, &'static str>)
    ensures
        match r {
            Ok(s) => operator_problem(document::seen(f)) is None && s == operator_in(
                document::seen(f),
            ),
            Err(key) => operator_problem(document::seen(f)) == Some(key@),
        },
{
    let n: &Node = match f {
        Some(n) => n,
        None => {
            return Ok(ShowSettings::default());
        },
    };
    if !is_record(n) {
        return Err("settings");
    }
    match read_number(field(n, "default_fade_ms", 0), u32::MAX as u64) {
        Some(v) => Ok(ShowSettings { default_fade_ms: v as u32 }),
        None => Err("default_fade_ms"),
    }
}

/// The first problem of a show's settings.
pub open spec fn settings_problem(t: Tree) -> Option<Seq<char>> {
    if !document::record(t) {
        Some("show"@)
    } else if !document::is_text(document::field_of(t, "title"@, 0)) {
        Some("title"@)
    } else if !document::is_number(document::field_of(t, "version"@, 1), u32::MAX as int) {
        Some("version"@)
    } else if !document::is_text(document::field_of(t, "media_root"@, 2)) {
        Some("media_root"@)
    } else if show_file::dropout_in(document::field_of(t, "dropout_policy"@, 3)) is None {
        Some("dropout_policy"@)
    } else {
        match show_file::sync_problem(document::field_of(t, "sync"@, 4)) {
            Some(key) => Some(key),
            None => operator_problem(document::field_of(t, "settings"@, 5)),
        }
    }
}

/// The settings that a tree without a problem holds.
pub open spec fn settings_in(t: Tree) -> ShowModel {
    ShowModel {
        title: document::text_in(document::field_of(t, "title"@, 0)),
        version: document::number_in(document::field_of(t, "version"@, 1), 0) as u32,
        media_root: document::text_in(document::field_of(t, "media_root"@, 2)),
        dropout_policy: show_file::dropout_in(document::field_of(t, "dropout_policy"@, 3))->0,
        sync: show_file::sync_in(document::field_of(t, "sync"@, 4)),
        settings: operator_in(document::field_of(t, "settings"@, 5)),
    }
}

fn read_settings(n: &Node) -> (r: Result<Show, &'static str>)
    ensures
        match r {
            Ok(s) => settings_problem(n@) is None && s@ == settings_in(n@),
            Err(key) => settings_problem(n@) == Some(key@),
        },
{
    if !is_record(n) {
        return Err("show");
    }
    let title: String = match read_text(field(n, "title", 0)) {
        Some(v) => v,
        None => {
            return Err("title");
        },
    };
    let version: u64 = match read_number(field(n, "version", 1), u32::MAX as u64) {
        Some(v) => v,
        None => {
            return Err("version");
        },
    };
    let media_root: String = match read_text(field(n, "media_root", 2)) {
        Some(v) => v,
        None => {
            return Err("media_root");
        },
    };
    let dropout_policy: DropoutPolicy = match read_dropout(field(n, "dropout_policy", 3)) {
        Some(v) => v,
        None => {
            return Err("dropout_policy");
        },
    };
    let sync: SyncConfig = match read_sync(field(n, "sync", 4)) {
        Ok(v) => v,
        Err(key) => {
            return Err(key);
        },
    };
    let settings: ShowSettings = match read_operator(field(n, "settings", 5)) {
        Ok(v) => v,
        Err(key) => {
            return Err(key);
        },
    };
    Ok(Show { title, version: version as u32, media_root, dropout_policy, sync, settings })
}

/// The first field of a show file that is missing or does not hold what it
/// should.
pub open spec fn show_problem(t: Tree) -> Option<Seq<char>> {
    match document::field_of(t, "show"@, 0) {
        None => Some("show"@),
        Some(s) => match settings_problem(s) {
            Some(key) => Some(key),
            None => cue_list_problem(document::field_of(t, "cues"@, 1)),
        },
    }
}

/// The show that a tree without a problem holds.
pub open spec fn show_in(t: Tree) -> ShowFileModel {
    ShowFileModel {
        show: settings_in(document::field_of(t, "show"@, 0)->0),
        cues: cues_in(show_file::cue_items(document::field_of(t, "cues"@, 1))),
    }
}

/// What a text holds as a show file: a valid show, or what is wrong with it.
pub open spec fn opened(parsed: Result<Tree, Seq<char>>) -> Result<ShowFileModel, ShowErrorModel> {
    match parsed {
        Err(e) => Err(ShowErrorModel::Toml(e)),
        Ok(t) => match show_problem(t) {
            Some(key) => Err(ShowErrorModel::Toml(show_file::complaint(key))),
            None => match show_in(t).fault() {
                Some(e) => Err(e),
                None => Ok(show_in(t)),
            },
        },
    }
}

/// Read a show from a document.
fn read_show(n: &Node) -> (r: Result<ShowFile, &'static str>)
    ensures
        match r {
            Ok(s) => show_problem(n@) is None && s@ == show_in(n@),
            Err(key) => show_problem(n@) == Some(key@),
        },
{
    let show: Show = match field(n, "show", 0) {
        Some(s) => match read_settings(s) {
            Ok(v) => v,
            Err(key) => {
                return Err(key);
            },
        },
        None => {
            return Err("show");
        },
    };
    match read_cues(field(n, "cues", 1)) {
        Ok(cues) => Ok(ShowFile { show, cues }),
        Err(key) => Err(key),
    }
}

/// What loading a show file gives, from the outcome of reading it: the show
/// that its text holds, or what went wrong.
pub open spec fn loaded(read: Result<Seq<char>, Seq<char>>) -> Result<
    ShowFileModel,
    ShowErrorModel,
> {
    match read {
        Ok(raw) => opened(document::parsed_toml(raw)),
        Err(e) => Err(ShowErrorModel::Io(e)),
    }
}

/// A show from the outcome of reading its document: a valid one, or what is
/// wrong with it.
pub fn open_document(parsed: Result<Node, String>) -> (r: Result<ShowFile, ShowError>)
    ensures
        match r {
            Ok(s) => opened(document::outcome(parsed)) == Ok::<ShowFileModel, ShowErrorModel>(s@),
            Err(e) => opened(document::outcome(parsed)) == Err::<ShowFileModel, ShowErrorModel>(e@),
        },
{
    match parsed {
        Ok(n) => match read_show(&n) {
            Ok(show) => match show.validate() {
                Ok(()) => Ok(show),
                Err(e) => Err(e),
            },
            Err(key) => Err(
                ShowError::Toml(
                    "invalid or missing field `".to_owned().concat(key).concat("`"),
                ),
            ),
        },
        Err(e) => Err(ShowError::Toml(e)),
    }
}

impl ShowFile {
    /// Load a show file from the outcome of reading it: parse its text and
    /// validate the show.
    pub fn load(read: Result<String, String>) -> (r: Result<Self, ShowError>)
        ensures
            match r {
                Ok(s) => loaded(show_file::read_outcome(read)) == Ok::<ShowFileModel, ShowErrorModel>(s@),
                Err(e) => loaded(show_file::read_outcome(read)) == Err::<ShowFileModel, ShowErrorModel>(
                    e@,
                ),
            },
    {
        match read {
            Ok(raw) => Self::from_str(raw.as_str()),
            Err(e) => Err(ShowError::Io(e)),
        }
    }

    /// Parse a show file from an in-memory string, then validate.
    pub fn from_str(raw: &str) -> (r: Result<Self, ShowError>)
        ensures
            match r {
                Ok(s) => opened(document::parsed_toml(raw@)) == Ok::<ShowFileModel, ShowErrorModel>(
                    s@,
                ),
                Err(e) => opened(document::parsed_toml(raw@)) == Err::<
                    ShowFileModel,
                    ShowErrorModel,
                >(e@),
            },
    {
        open_document(parse_document(raw))
    }
}

proof fn lemma_fault_from(cues: Seq<CueModel>, i: int)
    requires
        0 <= i <= cues.len(),
    ensures
        fault_from(cues, i) is None <==> (forall|k: int|
            i <= k < cues.len() ==> (#[trigger] cue_fault(cues, k)) is None),
    decreases cues.len() - i,
{
    if i < cues.len() {
        lemma_fault_from(cues, i + 1);
    }
}

/// A show passes validation exactly when every volume is at most 100 and no two
/// cues share an id.
pub proof fn law_valid_show(show: ShowFileModel)
    ensures
        show.fault() is None <==> {
            &&& forall|i: int| 0 <= i < show.cues.len() ==> (#[trigger] show.cues[i]).volume <= 100
            &&& forall|i: int, j: int|
                0 <= i < j < show.cues.len() ==> (#[trigger] show.cues[i]).id != (
                #[trigger] show.cues[j]).id
        },
{
    let cues = show.cues;
    lemma_fault_from(cues, 0);
    if show.fault() is None {
        assert forall|i: int| 0 <= i < cues.len() implies (#[trigger] cues[i]).volume <= 100 by {
            assert(cue_fault(cues, i) is None);
        }
        assert forall|i: int, j: int| 0 <= i < j < cues.len() implies (#[trigger] cues[i]).id != (
        #[trigger] cues[j]).id by {
            assert(cue_fault(cues, j) is None);
        }
    } else if (forall|i: int| 0 <= i < cues.len() ==> (#[trigger] cues[i]).volume <= 100) && (
    forall|i: int, j: int|
        0 <= i < j < cues.len() ==> (#[trigger] cues[i]).id != (#[trigger] cues[j]).id) {
        assert forall|k: int| 0 <= k < cues.len() implies (#[trigger] cue_fault(
            cues,
            k,
        )) is None by {
            assert(cues[k].volume <= 100);
        }
    }
}

/// Media validation passes exactly when the file of every cue is present.
pub proof fn law_media_present(
    show: ShowFileModel,
    media_root: Seq<char>,
    present: Seq<Seq<char>>,
)
    ensures
        missing_from(show.cues, media_root, present, 0) is None <==> (forall|i: int|
            0 <= i < show.cues.len() ==> present.contains(
                paths::joined(media_root, (#[trigger] show.cues[i]).file),
            )),
{
    lemma_missing_from(show.cues, media_root, present, 0);
}

proof fn lemma_missing_from(
    cues: Seq<CueModel>,
    media_root: Seq<char>,
    present: Seq<Seq<char>>,
    i: int,
)
    requires
        0 <= i <= cues.len(),
    ensures
        missing_from(cues, media_root, present, i) is None <==> (forall|k: int|
            i <= k < cues.len() ==> present.contains(
                paths::joined(media_root, (#[trigger] cues[k]).file),
            )),
    decreases cues.len() - i,
{
    if i < cues.len() {
        lemma_missing_from(cues, media_root, present, i + 1);
    }
}

proof fn lemma_kind_options(f: Option<Tree>)
    ensures
        !(document::chooses(f, "video"@) && document::chooses(f, "image"@)),
{
    reveal_strlit("video");
    reveal_strlit("image");
    assert("video"@[0] != "image"@[0]);
    document::lemma_one_choice(f, "video"@, "image"@);
}

/// Which cue a table reads as: the one whose every setting is what the table
/// holds under its key, or its default (full volume, no fade, no notes) where
/// the key may be missing and is. No other table is accepted.
pub proof fn law_cue_of_a_table(m: Map<Seq<char>, Tree>, c: CueModel)
    ensures
        (cue_problem(Tree::Table(m)) is None && cue_in(Tree::Table(m)) == c) <==> {
            &&& m.dom().contains("id"@) && m["id"@] == Tree::Text(c.id)
            &&& m.dom().contains("name"@) && m["name"@] == Tree::Text(c.name)
            &&& match c.kind {
                CueKind::Video => m.dom().contains("type"@) && document::chooses(
                    Some(m["type"@]),
                    "video"@,
                ),
                CueKind::Image => m.dom().contains("type"@) && document::chooses(
                    Some(m["type"@]),
                    "image"@,
                ),
            }
            &&& m.dom().contains("file"@) && m["file"@] == Tree::Text(c.file)
            &&& if m.dom().contains("volume"@) {
                m["volume"@] == Tree::Integer(c.volume as i64)
            } else {
                c.volume == 100
            }
            &&& if m.dom().contains("fade_in_ms"@) {
                m["fade_in_ms"@] == Tree::Integer(c.fade_in_ms as i64)
            } else {
                c.fade_in_ms == 0
            }
            &&& if m.dom().contains("fade_out_ms"@) {
                m["fade_out_ms"@] == Tree::Integer(c.fade_out_ms as i64)
            } else {
                c.fade_out_ms == 0
            }
            &&& if m.dom().contains("crossfade_to_next_ms"@) {
                m["crossfade_to_next_ms"@] == Tree::Integer(c.crossfade_to_next_ms as i64)
            } else {
                c.crossfade_to_next_ms == 0
            }
            &&& match c.notes {
                Some(s) => m.dom().contains("notes"@) && m["notes"@] == Tree::Text(s),
                None => !m.dom().contains("notes"@),
            }
        },
{
    let t = Tree::Table(m);
    lemma_kind_options(document::field_of(t, "type"@, 2));
    let read = cue_in(t);
    if cue_problem(t) is None && read.id == c.id
        && read.name == c.name
        && read.kind == c.kind
        && read.file == c.file
        && read.volume == c.volume
        && read.fade_in_ms == c.fade_in_ms
        && read.fade_out_ms == c.fade_out_ms
        && read.crossfade_to_next_ms == c.crossfade_to_next_ms
        && read.notes == c.notes {
        assert(read =~= c);
    }
}

/// A list reads as the cue that a table reads as that holds its items, in order,
/// under the keys of a cue.
pub proof fn law_cue_of_a_list(items: Seq<Tree>, m: Map<Seq<char>, Tree>)
    requires
        ({
            let keys = seq![
                "id"@,
                "name"@,
                "type"@,
                "file"@,
                "volume"@,
                "fade_in_ms"@,
                "fade_out_ms"@,
                "crossfade_to_next_ms"@,
                "notes"@,
            ];
            forall|k: int|
                0 <= k < keys.len() ==> (m.dom().contains(#[trigger] keys[k]) <==> k < items.len())
                    && (k < items.len() ==> m[keys[k]] == items[k])
        }),
    ensures
        cue_problem(Tree::List(items)) == cue_problem(Tree::Table(m)),
        cue_in(Tree::List(items)) == cue_in(Tree::Table(m)),
{
    let keys = seq![
        "id"@,
        "name"@,
        "type"@,
        "file"@,
        "volume"@,
        "fade_in_ms"@,
        "fade_out_ms"@,
        "crossfade_to_next_ms"@,
        "notes"@,
    ];
    assert(keys[0] == "id"@);
    assert(keys[1] == "name"@);
    assert(keys[2] == "type"@);
    assert(keys[3] == "file"@);
    assert(keys[4] == "volume"@);
    assert(keys[5] == "fade_in_ms"@);
    assert(keys[6] == "fade_out_ms"@);
    assert(keys[7] == "crossfade_to_next_ms"@);
    assert(keys[8] == "notes"@);
}

/// Which settings a table reads as, by its keys. Only the dropout policy, the
/// sync settings and the operator settings may be missing; the operator's fade
/// then takes a second and a half.
pub proof fn law_settings_of_a_table(m: Map<Seq<char>, Tree>, c: ShowModel)
    ensures
        (settings_problem(Tree::Table(m)) is None && settings_in(Tree::Table(m)) == c) <==> {
            &&& m.dom().contains("title"@) && m["title"@] == Tree::Text(c.title)
            &&& m.dom().contains("version"@) && m["version"@] == Tree::Integer(c.version as i64)
            &&& m.dom().contains("media_root"@) && m["media_root"@] == Tree::Text(c.media_root)
            &&& ({
                let f = if m.dom().contains("dropout_policy"@) {
                    Some(m["dropout_policy"@])
                } else {
                    None
                };
                show_file::dropout_in(f) == Some(c.dropout_policy)
            })
            &&& ({
                let f = if m.dom().contains("sync"@) {
                    Some(m["sync"@])
                } else {
                    None
                };
                show_file::sync_problem(f) is None && show_file::sync_in(f) == c.sync
            })
            &&& ({
                let f = if m.dom().contains("settings"@) {
                    Some(m["settings"@])
                } else {
                    None
                };
                operator_problem(f) is None && operator_in(f) == c.settings
            })
        },
        operator_problem(None) is None,
        operator_in(None).default_fade_ms == 1500,
{
    let t = Tree::Table(m);
    let read = settings_in(t);
    if settings_problem(t) is None && read.title == c.title && read.version == c.version
        && read.media_root == c.media_root && read.dropout_policy == c.dropout_policy && read.sync
        == c.sync && read.settings == c.settings {
        assert(read =~= c);
    }
}

/// Which operator settings a table reads as: its fade time must be there.
pub proof fn law_operator_of_a_table(m: Map<Seq<char>, Tree>, default_fade_ms: u32)
    ensures
        (operator_problem(Some(Tree::Table(m))) is None && operator_in(
            Some(Tree::Table(m)),
        ).default_fade_ms == default_fade_ms) <==> m.dom().contains("default_fade_ms"@)
            && m["default_fade_ms"@] == Tree::Integer(default_fade_ms as i64),
{
}

proof fn lemma_cues_problem(items: Seq<Tree>, i: int)
    requires
        0 <= i <= items.len(),
    ensures
        cues_problem(items, i) is None <==> (forall|k: int|
            i <= k < items.len() ==> cue_problem(#[trigger] items[k]) is None),
    decreases items.len() - i,
{
    if i < items.len() {
        lemma_cues_problem(items, i + 1);
    }
}

/// Which show a document reads as: its settings stand under `show`, and its cues,
/// in order, in the list under `cues`, which may be missing.
pub proof fn law_show_of_a_table(m: Map<Seq<char>, Tree>, s: ShowFileModel)
    ensures
        (show_problem(Tree::Table(m)) is None && show_in(Tree::Table(m)) == s) <==> {
            &&& m.dom().contains("show"@)
            &&& settings_problem(m["show"@]) is None
            &&& settings_in(m["show"@]) == s.show
            &&& if m.dom().contains("cues"@) {
                &&& m["cues"@] matches Tree::List(items)
                &&& items.len() == s.cues.len()
                &&& forall|i: int|
                    0 <= i < items.len() ==> cue_problem(#[trigger] items[i]) is None && cue_in(
                        items[i],
                    ) == s.cues[i]
            } else {
                s.cues.len() == 0
            }
        },
{
    let read = show_in(Tree::Table(m));
    if m.dom().contains("cues"@) {
        if let Tree::List(items) = m["cues"@] {
            lemma_cues_problem(items, 0);
            assert(read.cues.len() == items.len());
            if read.cues == s.cues {
                assert forall|i: int| 0 <= i < items.len() implies cue_in(#[trigger] items[i])
                    == s.cues[i] by {
                    assert(read.cues[i] == s.cues[i]);
                }
            }
            if items.len() == s.cues.len() && (forall|i: int|
                0 <= i < items.len() ==> cue_problem(#[trigger] items[i]) is None && cue_in(
                    items[i],
                ) == s.cues[i]) {
                assert(read.cues =~= s.cues);
            }
        }
    } else if s.cues.len() == 0 {
        assert(read.cues =~= s.cues);
    }
    if show_problem(Tree::Table(m)) is None && read.show == s.show && read.cues == s.cues {
        assert(read =~= s);
    }
}

/// A show is opened exactly where the file could be read, its text is TOML, that
/// reads as a show, and the show is valid: then it is that show. Otherwise the
/// error says which of these failed.
pub proof fn law_what_loading_gives(raw: Seq<char>, error: Seq<char>)
    ensures
        loaded(Err(error)) == Err::<ShowFileModel, ShowErrorModel>(ShowErrorModel::Io(error)),
        match document::parsed_toml(raw) {
            Err(e) => loaded(Ok(raw)) == Err::<ShowFileModel, ShowErrorModel>(
                ShowErrorModel::Toml(e),
            ),
            Ok(t) => {
                &&& loaded(Ok(raw)) is Ok <==> show_problem(t) is None && show_in(
                    t,
                ).fault() is None
                &&& loaded(Ok(raw)) is Ok ==> loaded(Ok(raw))->Ok_0 == show_in(t)
                &&& show_problem(t) is Some ==> loaded(Ok(raw)) == Err::<
                    ShowFileModel,
                    ShowErrorModel,
                >(
                    ShowErrorModel::Toml(
                        "invalid or missing field `"@ + show_problem(t)->0 + "`"@,
                    ),
                )
                &&& show_problem(t) is None && show_in(t).fault() is Some ==> loaded(Ok(raw))
                    == Err::<ShowFileModel, ShowErrorModel>(show_in(t).fault()->0)
            },
        },
{
}

/// The needed media are the files of all cues, in cue order: one for each, with
/// the cue's id and the path of its file under the media root.
pub proof fn law_every_cue_file_is_needed(show: ShowFileModel, media_root: Seq<char>)
    ensures
        show.media(media_root).len() == show.cues.len(),
        forall|i: int|
            0 <= i < show.cues.len() ==> (#[trigger] show.media(media_root)[i]).cue_id
                == show.cues[i].id && show.media(media_root)[i].path == paths::joined(
                media_root,
                show.cues[i].file,
            ),
{
}

/// What media validation complains of is the first cue whose file is not
/// present.
pub proof fn law_first_missing_file_is_named(
    cues: Seq<CueModel>,
    media_root: Seq<char>,
    present: Seq<Seq<char>>,
    from: int,
)
    requires
        0 <= from <= cues.len(),
        missing_from(cues, media_root, present, from) is Some,
    ensures
        exists|k: int|
            from <= k < cues.len() && !present.contains(
                paths::joined(media_root, (#[trigger] cues[k]).file),
            ) && (forall|j: int|
                from <= j < k ==> present.contains(
                    paths::joined(media_root, (#[trigger] cues[j]).file),
                )) && missing_from(cues, media_root, present, from) == Some(
                ShowErrorModel::MediaMissing {
                    cue_id: cues[k].id,
                    path: paths::joined(media_root, cues[k].file),
                },
            ),
    decreases cues.len() - from,
{
    if present.contains(paths::joined(media_root, cues[from].file)) {
        law_first_missing_file_is_named(cues, media_root, present, from + 1);
    } else {
        assert(!present.contains(paths::joined(media_root, cues[from].file)));
    }
}

/// What validation complains of is the first faulty cue, by its id: one that an
/// earlier cue has, or else a volume above 100.
pub proof fn law_first_faulty_cue_is_named(cues: Seq<CueModel>, from: int)
    requires
        0 <= from <= cues.len(),
        fault_from(cues, from) is Some,
    ensures
        exists|i: int|
            from <= i < cues.len() && (forall|j: int|
                from <= j < i ==> (#[trigger] cue_fault(cues, j)) is None) && {
                let cue = #[trigger] cues[i];
                let taken = exists|j: int| 0 <= j < i && (#[trigger] cues[j]).id == cue.id;
                if taken {
                    fault_from(cues, from) == Some(ShowErrorModel::DuplicateCueId(cue.id))
                } else {
                    cue.volume > 100 && fault_from(cues, from) == Some(
                        ShowErrorModel::VolumeOutOfRange { cue_id: cue.id, volume: cue.volume },
                    )
                }
            },
    decreases cues.len() - from,
{
    if cue_fault(cues, from) is None {
        law_first_faulty_cue_is_named(cues, from + 1);
    } else {
        assert(cues[from] == cues[from]);
        assert(id_taken(cues, from, cues[from].id) == (exists|j: int|
            0 <= j < from && (#[trigger] cues[j]).id == cues[from].id));
    }
}

/// The complaint about a table that is no cue names the first field, in the order
/// of a cue's fields, that is missing or does not hold what it should.
pub proof fn law_first_bad_field_is_named(m: Map<Seq<char>, Tree>)
    ensures
        ({
            let problem = cue_problem(Tree::Table(m));
            let id_ok = m.dom().contains("id"@) && m["id"@] is Text;
            let name_ok = m.dom().contains("name"@) && m["name"@] is Text;
            let type_ok = {
                &&& m.dom().contains("type"@)
                &&& {
                    ||| document::chooses(Some(m["type"@]), "video"@)
                    ||| document::chooses(Some(m["type"@]), "image"@)
                }
            };
            let file_ok = m.dom().contains("file"@) && m["file"@] is Text;
            let volume_ok = m.dom().contains("volume"@) ==> {
                &&& m["volume"@] matches Tree::Integer(n)
                &&& 0 <= n <= u8::MAX
            };
            let fade_in_ms_ok = m.dom().contains("fade_in_ms"@) ==> {
                &&& m["fade_in_ms"@] matches Tree::Integer(n)
                &&& 0 <= n <= u32::MAX
            };
            let fade_out_ms_ok = m.dom().contains("fade_out_ms"@) ==> {
                &&& m["fade_out_ms"@] matches Tree::Integer(n)
                &&& 0 <= n <= u32::MAX
            };
            let crossfade_to_next_ms_ok = m.dom().contains("crossfade_to_next_ms"@) ==> {
                &&& m["crossfade_to_next_ms"@] matches Tree::Integer(n)
                &&& 0 <= n <= u32::MAX
            };
            let notes_ok = (m.dom().contains("notes"@) ==> m["notes"@] is Text);
            if !id_ok {
                problem == Some("id"@)
            } else if !name_ok {
                problem == Some("name"@)
            } else if !type_ok {
                problem == Some("type"@)
            } else if !file_ok {
                problem == Some("file"@)
            } else if !volume_ok {
                problem == Some("volume"@)
            } else if !fade_in_ms_ok {
                problem == Some("fade_in_ms"@)
            } else if !fade_out_ms_ok {
                problem == Some("fade_out_ms"@)
            } else if !crossfade_to_next_ms_ok {
                problem == Some("crossfade_to_next_ms"@)
            } else if !notes_ok {
                problem == Some("notes"@)
            } else {
                problem is None
            }
        }),
{
}

/// A list reads as the operator settings that a table reads as that holds its items, in
/// order, under the same keys.
pub proof fn law_operator_of_a_list(items: Seq<Tree>, m: Map<Seq<char>, Tree>)
    requires
        ({
            let keys = seq!["default_fade_ms"@];
            forall|k: int|
                0 <= k < keys.len() ==> (m.dom().contains(#[trigger] keys[k]) <==> k < items.len())
                    && (k < items.len() ==> m[keys[k]] == items[k])
        }),
    ensures
        operator_problem(Some(Tree::List(items))) == operator_problem(Some(Tree::Table(m))),
        operator_in(Some(Tree::List(items))) == operator_in(Some(Tree::Table(m))),
{
    let keys = seq!["default_fade_ms"@];
    assert(keys[0] == "default_fade_ms"@);
}

/// A list reads as the settings that a table reads as that holds its items, in
/// order, under the same keys.
pub proof fn law_settings_of_a_list(items: Seq<Tree>, m: Map<Seq<char>, Tree>)
    requires
        ({
            let keys = seq![
                "title"@,
                "version"@,
                "media_root"@,
                "dropout_policy"@,
                "sync"@,
                "settings"@,
            ];
            forall|k: int|
                0 <= k < keys.len() ==> (m.dom().contains(#[trigger] keys[k]) <==> k < items.len())
                    && (k < items.len() ==> m[keys[k]] == items[k])
        }),
    ensures
        settings_problem(Tree::List(items)) == settings_problem(Tree::Table(m)),
        settings_in(Tree::List(items)) == settings_in(Tree::Table(m)),
{
    let keys = seq![
        "title"@,
        "version"@,
        "media_root"@,
        "dropout_policy"@,
        "sync"@,
        "settings"@,
    ];
    assert(keys[0] == "title"@);
    assert(keys[1] == "version"@);
    assert(keys[2] == "media_root"@);
    assert(keys[3] == "dropout_policy"@);
    assert(keys[4] == "sync"@);
    assert(keys[5] == "settings"@);
}

/// A list reads as the show that a table reads as that holds its items, in
/// order, under the same keys.
pub proof fn law_show_of_a_list(items: Seq<Tree>, m: Map<Seq<char>, Tree>)
    requires
        ({
            let keys = seq!["show"@, "cues"@];
            forall|k: int|
                0 <= k < keys.len() ==> (m.dom().contains(#[trigger] keys[k]) <==> k < items.len())
                    && (k < items.len() ==> m[keys[k]] == items[k])
        }),
    ensures
        show_problem(Tree::List(items)) == show_problem(Tree::Table(m)),
        show_in(Tree::List(items)) == show_in(Tree::Table(m)),
{
    let keys = seq!["show"@, "cues"@];
    assert(keys[0] == "show"@);
    assert(keys[1] == "cues"@);
}

} // verus!
