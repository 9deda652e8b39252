//! What the operator's window shows, and what its controls mean.
//!
//! Drawing is outside. Glyphs come from an icon font, which the window hands in.

use vstd::prelude::*;

use crate::console;
use crate::console::{broadcast, go_selected_at, maybe_standby_at, move_selection};
use crate::known_clients::rename;
use crate::logbook;
use crate::logbook::log_tail;
use crate::protocol::{ControllerMsg, ControllerMsgModel, Outgoing, OutgoingModel};
use crate::show::{CueKind, CueModel};
use crate::state::{
    AppModel, AppState, ClientRow, ClientStatus, ClientUpdate, MediaFileStatus, PreflightEntry,
};
use crate::text;
use crate::text::{align_right, chars_of, i64_text, trim, two_digit_text, u64_text};

verus! {

/// How many log lines the window shows.
pub const SHOWN_LINES: usize = 80;

/// How old (ms) the last sign of life of a client may be before it counts as
/// stale.
pub const STALE_AFTER_MS: u64 = 3000;

/// A time as minutes and seconds.
pub open spec fn clock_text(ms: u64) -> Seq<char> {
    let s = ms as int / 1000;
    text::decimal((s / 60) as nat) + ":"@ + text::two_digits((s % 60) as nat)
}

/// A time as minutes and seconds.
pub fn fmt_ms(ms: u64) -> (r: String)
    ensures
        r@ == clock_text(ms),
{
    let s: u64 = ms / 1000;
    u64_text(s / 60).concat(":").concat(two_digit_text(s % 60).as_str())
}

/// The line that says which show is loaded.
pub open spec fn summary_of(s: AppModel) -> Seq<char> {
    match s.show {
        Some(show) => show.show.title + "  ("@ + text::decimal(show.cues.len()) + " cues)"@,
        None => "(no show loaded)"@,
    }
}

/// The line that says which show is loaded.
pub fn show_summary(state: &AppState) -> (r: String)
    ensures
        r@ == summary_of(state@),
{
    match &state.show {
        Some(show) => show.show.title.clone().concat("  (").concat(
            u64_text(show.cues.len() as u64).as_str(),
        ).concat(" cues)"),
        None => "(no show loaded)".to_owned(),
    }
}

/// The glyphs of the cue list.
#[derive(Debug, PartialEq, Eq)]
pub struct CueGlyphs {
    pub play: String,
    pub film: String,
    pub image: String,
    pub palette: String,
}

impl CueGlyphs {
    /// The glyph of a cue kind.
    pub open spec fn of(self, kind: CueKind) -> Seq<char> {
        match kind {
            CueKind::Video => self.film@,
            CueKind::Image => self.image@,
            CueKind::Color => self.palette@,
        }
    }
}

/// The label of a cue in the list: whether it is on air, its number, its kind
/// and its name.
pub open spec fn cue_label(glyphs: CueGlyphs, i: int, cue: CueModel, on_air: bool) -> Seq<char> {
    (if on_air {
        glyphs.play@
    } else {
        " "@
    }) + " "@ + text::right_aligned(text::decimal(i as nat), 3) + "  "@ + glyphs.of(cue.kind) + " "@
        + cue.name
}

/// A cue of the list.
#[derive(Debug, PartialEq, Eq)]
pub struct CueEntry {
    pub label: String,
    pub selected: bool,
}

/// Is entry `i` of the list as it should be?
pub open spec fn entry_shows(
    entry: CueEntry,
    glyphs: CueGlyphs,
    i: int,
    cue: CueModel,
    s: AppModel,
) -> bool {
    &&& entry.label@ == cue_label(glyphs, i, cue, s.run.playing_cue_idx == Some(i as usize))
    &&& entry.selected == (s.selected_cue_idx == Some(i as usize))
}

/// The cue list.
pub fn cue_entries(state: &AppState, glyphs: &CueGlyphs) -> (r: Vec<CueEntry>)
    ensures
        match state@.show {
            Some(show) => {
                &&& r@.len() == show.cues.len()
                &&& forall|i: int|
                    0 <= i < r@.len() ==> entry_shows(
                        #[trigger] r@[i],
                        *glyphs,
                        i,
                        show.cues[i],
                        state@,
                    )
            },
            None => r@.len() == 0,
        },
        forall|i: int|
            0 <= i < r@.len() ==> {
                let cue = state.show->0.cues@[i];
                let on_air = state.run.playing_cue_idx == Some(i as usize);
                &&& (#[trigger] r@[i]).label@ == cue_label(*glyphs, i, cue@, on_air)
                &&& r@[i].selected == (state.selected_cue_idx == Some(i as usize))
            },
{
    let mut r: Vec<CueEntry> = Vec::new();
    if let Some(show) = &state.show {
        let mut i: usize = 0;
        while i < show.cues.len()
            invariant
                0 <= i <= show.cues.len(),
                r@.len() == i,
                state.show == Some(*show),
                forall|k: int|
                    0 <= k < i ==> entry_shows(
                        #[trigger] r@[k],
                        *glyphs,
                        k,
                        show@.cues[k],
                        state@,
                    ),
            decreases show.cues.len() - i,
        {
            assert(show@.cues[i as int] == show.cues@[i as int]@);
            let on_air: bool = match state.run.playing_cue_idx {
                Some(p) => p == i,
                None => false,
            };
            let selected: bool = match state.selected_cue_idx {
                Some(p) => p == i,
                None => false,
            };
            let marker: &str = if on_air {
                glyphs.play.as_str()
            } else {
                " "
            };
            let kind: &str = match show.cues[i].kind {
                CueKind::Video => glyphs.film.as_str(),
                CueKind::Image => glyphs.image.as_str(),
                CueKind::Color => glyphs.palette.as_str(),
            };
            let label: String = marker.to_owned().concat(" ").concat(
                align_right(u64_text(i as u64).as_str(), 3).as_str(),
            ).concat("  ").concat(kind).concat(" ").concat(show.cues[i].name.as_str());
            r.push(CueEntry { label, selected });
            i = i + 1;
        }
    }
    r
}

/// Select a cue of the list.
pub fn select(state: &mut AppState, idx: usize)
    ensures
        final(state)@ == (AppModel { selected_cue_idx: Some(idx), ..old(state)@ }),
{
    let ghost before = state@;
    state.selected_cue_idx = Some(idx);
    assert(state@ =~= AppModel { selected_cue_idx: Some(idx), ..before });
}

/// The newest log lines, newest first.
pub fn shown_log(state: &AppState) -> (r: Vec<String>)
    ensures
        r.deep_view() == logbook::tail_reversed(state@.log_lines, SHOWN_LINES as nat),
        r@.len() == if state.log_lines@.len() <= 80 {
            state.log_lines@.len()
        } else {
            80
        },
        forall|k: int|
            0 <= k < r@.len() ==> (#[trigger] r@[k])@
                == state.log_lines@[state.log_lines@.len() - 1 - k]@,
{
    let r: Vec<String> = log_tail(&state.log_lines, SHOWN_LINES);
    proof {
        let lines = state.log_lines.deep_view();
        logbook::law_newest_shown_first(lines, SHOWN_LINES as nat);
        assert forall|k: int| 0 <= k < r@.len() implies (#[trigger] r@[k])@
            == state.log_lines@[state.log_lines@.len() - 1 - k]@ by {
            assert(r.deep_view()[k] == r@[k]@);
            assert(lines[lines.len() - 1 - k] == state.log_lines@[lines.len() - 1 - k]@);
        }
    }
    r
}

/// How many bytes a character takes in UTF-8.
pub open spec fn utf8_len(c: char) -> int {
    let n = c as int;
    if n < 0x80 {
        1
    } else if n < 0x800 {
        2
    } else if n < 0x10000 {
        3
    } else {
        4
    }
}

fn char_bytes(c: char) -> (r: usize)
    ensures
        r == utf8_len(c),
{
    let n: u32 = c as u32;
    if n < 0x80 {
        1
    } else if n < 0x800 {
        2
    } else if n < 0x10000 {
        3
    } else {
        4
    }
}

/// How many bytes a text takes in UTF-8.
pub open spec fn byte_len(s: Seq<char>) -> int
    decreases s.len(),
{
    if s.len() == 0 {
        0
    } else {
        byte_len(s.drop_last()) + utf8_len(s.last())
    }
}

/// Is `k` the length of the longest beginning of `s` that takes at most `limit`
/// bytes?
pub open spec fn fitting(s: Seq<char>, limit: int, k: int) -> bool {
    &&& 0 <= k <= s.len()
    &&& byte_len(s.take(k)) <= limit
    &&& k < s.len() ==> byte_len(s.take(k + 1)) > limit
}

/// The first eight bytes of an id, or fewer so as not to cut a character.
pub fn short_id<'a>(id: &'a str) -> (r: &'a str)
    ensures
        exists|k: int| #[trigger] fitting(id@, 8, k) && r@ == id@.take(k),
{
    let v: Vec<char> = chars_of(id);
    let mut used: usize = 0;
    let mut k: usize = 0;
    assert(id@.take(0) =~= Seq::<char>::empty());
    while k < v.len() && used + char_bytes(v[k]) <= 8
        invariant
            0 <= k <= v.len(),
            v@ == id@,
            used == byte_len(id@.take(k as int)),
            used <= 8,
        decreases v.len() - k,
    {
        assert(id@.take(k + 1).drop_last() =~= id@.take(k as int));
        used = used + char_bytes(v[k]);
        k = k + 1;
    }
    proof {
        if k < v.len() {
            assert(id@.take(k + 1).drop_last() =~= id@.take(k as int));
        }
        assert(fitting(id@, 8, k as int));
    }
    let r: &str = id.substring_char(0, k);
    assert(r@ =~= id@.take(k as int));
    r
}

/// Is a client's last sign of life too old?
pub open spec fn is_stale(last_heartbeat_ms: u64, now_ms: u64) -> bool {
    now_ms - last_heartbeat_ms > STALE_AFTER_MS
}

/// A measurement in milliseconds, or a dash where there is none.
pub open spec fn measured(v: Option<i64>) -> Seq<char> {
    match v {
        Some(ms) => text::signed_decimal(ms as int) + " ms"@,
        None => "—"@,
    }
}

fn measured_text(v: Option<i64>) -> (r: String)
    ensures
        r@ == measured(v),
{
    match v {
        Some(ms) => i64_text(ms).concat(" ms"),
        None => "—".to_owned(),
    }
}

/// What the roster offers about a client's software.
#[derive(Debug, PartialEq, Eq)]
pub enum UpdateControl {
    Hidden,
    Sending,
    Restarting,
    /// This version can be applied.
    Apply(String),
    /// The update failed; it can be tried again where a version is given.
    Failed { error: String, retry: Option<String> },
    /// An update to this version can be sent.
    Offer(String),
}

/// The model of an [`UpdateControl`].
#[verifier::ext_equal]
pub enum UpdateControlModel {
    Hidden,
    Sending,
    Restarting,
    Apply(Seq<char>),
    Failed { error: Seq<char>, retry: Option<Seq<char>> },
    Offer(Seq<char>),
}

impl View for UpdateControl {
    type V = UpdateControlModel;

    open spec fn view(&self) -> UpdateControlModel {
        match self {
            UpdateControl::Hidden => UpdateControlModel::Hidden,
            UpdateControl::Sending => UpdateControlModel::Sending,
            UpdateControl::Restarting => UpdateControlModel::Restarting,
            UpdateControl::Apply(v) => UpdateControlModel::Apply(v@),
            UpdateControl::Failed { error, retry } => UpdateControlModel::Failed {
                error: error@,
                retry: retry.deep_view(),
            },
            UpdateControl::Offer(v) => UpdateControlModel::Offer(v@),
        }
    }
}

/// What the roster offers, given how far the client's update has come and which
/// version is available for it.
pub open spec fn update_control_of(
    update: ClientUpdate,
    available: Option<Seq<char>>,
) -> UpdateControlModel {
    match update {
        ClientUpdate::Pushing => UpdateControlModel::Sending,
        ClientUpdate::Applying => UpdateControlModel::Restarting,
        ClientUpdate::Staged(v) => UpdateControlModel::Apply(v@),
        ClientUpdate::Failed(e) => UpdateControlModel::Failed { error: e@, retry: available },
        ClientUpdate::Idle => match available {
            Some(v) => UpdateControlModel::Offer(v),
            None => UpdateControlModel::Hidden,
        },
    }
}

fn update_control(update: &ClientUpdate, available: &Option<String>) -> (r: UpdateControl)
    ensures
        r@ == update_control_of(*update, available.deep_view()),
{
    match update {
        ClientUpdate::Pushing => UpdateControl::Sending,
        ClientUpdate::Applying => UpdateControl::Restarting,
        ClientUpdate::Staged(v) => UpdateControl::Apply(v.clone()),
        ClientUpdate::Failed(e) => UpdateControl::Failed {
            error: e.clone(),
            retry: text::copy_option(available),
        },
        ClientUpdate::Idle => match available {
            Some(v) => UpdateControl::Offer(v.clone()),
            None => UpdateControl::Hidden,
        },
    }
}

/// How many of the files are present.
pub open spec fn present_count(files: Seq<PreflightEntry>) -> nat
    decreases files.len(),
{
    if files.len() == 0 {
        0
    } else {
        present_count(files.drop_last()) + if files.last().status == MediaFileStatus::Present {
            1nat
        } else {
            0nat
        }
    }
}

/// The lines about the files that are not as they should be, in order.
pub open spec fn problem_lines(files: Seq<PreflightEntry>, glyph: Seq<char>) -> Seq<Seq<char>>
    decreases files.len(),
{
    if files.len() == 0 {
        Seq::empty()
    } else {
        let before = problem_lines(files.drop_last(), glyph);
        let line = |what: Seq<char>|
            "   "@ + glyph + " "@ + files.last().path@ + " ("@ + what + ")"@;
        match files.last().status {
            MediaFileStatus::Present => before,
            MediaFileStatus::Missing => before.push(line("missing"@)),
            MediaFileStatus::Mismatch => before.push(line("mismatch"@)),
        }
    }
}

/// What the roster shows of a client's media.
#[derive(Debug, PartialEq, Eq)]
pub struct MediaReport {
    pub line: String,
    pub problems: Vec<String>,
    /// Can the missing files be sent now?
    pub can_push: bool,
}

/// What the roster shows of a client's media; nothing before they were checked.
fn media_report(status: &ClientStatus, glyph: &str) -> (r: Option<MediaReport>)
    ensures
        match r {
            None => status.preflight@.len() == 0,
            Some(m) => {
                let files = status.preflight@;
                &&& files.len() > 0
                &&& m.line@ == "media: "@ + text::decimal(present_count(files)) + "/"@
                    + text::decimal(files.len()) + " ok"@
                &&& m.problems.deep_view() == problem_lines(files, glyph@)
                &&& m.can_push == (status.push_progress is None && present_count(files)
                    < files.len())
            },
        },
{
    let files: &Vec<PreflightEntry> = &status.preflight;
    if files.len() == 0 {
        return None;
    }
    let mut count: usize = 0;
    let mut problems: Vec<String> = Vec::new();
    let mut i: usize = 0;
    assert(files@.take(0) =~= Seq::<PreflightEntry>::empty());
    assert(problems.deep_view() =~= Seq::<Seq<char>>::empty());
    while i < files.len()
        invariant
            0 <= i <= files.len(),
            count <= i,
            count == present_count(files@.take(i as int)),
            problems.deep_view() == problem_lines(files@.take(i as int), glyph@),
        decreases files.len() - i,
    {
        let ghost before = problems.deep_view();
        assert(files@.take(i + 1).drop_last() =~= files@.take(i as int));
        assert(files@.take(i + 1).last() == files@[i as int]);
        let what: &str = match files[i].status {
            MediaFileStatus::Present => "",
            MediaFileStatus::Missing => "missing",
            MediaFileStatus::Mismatch => "mismatch",
        };
        if files[i].status == MediaFileStatus::Present {
            count = count + 1;
        } else {
            let line: String = "   ".to_owned().concat(glyph).concat(" ").concat(
                files[i].path.as_str(),
            ).concat(" (").concat(what).concat(")");
            let ghost model = line@;
            problems.push(line);
            assert(problems.deep_view() =~= before.push(model));
        }
        i = i + 1;
    }
    assert(files@.take(i as int) =~= files@);
    let can_push: bool = match &status.push_progress {
        None => count < files.len(),
        Some(_) => false,
    };
    let line: String = "media: ".to_owned().concat(u64_text(count as u64).as_str()).concat(
        "/",
    ).concat(u64_text(files.len() as u64).as_str()).concat(" ok");
    Some(MediaReport { line, problems, can_push })
}

/// What the roster shows of a client.
#[derive(Debug, PartialEq, Eq)]
pub struct RosterEntry {
    pub stale: bool,
    pub title: String,
    pub address: String,
    pub cue: Option<String>,
    pub clocks: String,
    pub version: String,
    pub platform: String,
    pub update: UpdateControl,
    pub media: Option<MediaReport>,
}

/// The line about the cue that a client reports.
pub open spec fn current_cue_line(status: ClientStatus) -> Option<Seq<char>> {
    match status.current_cue {
        Some(cue) => Some("cue: "@ + cue@ + "  @ "@ + clock_text(status.position_ms)),
        None => None,
    }
}

/// The line about a client's version.
pub open spec fn version_line(status: ClientStatus) -> Seq<char> {
    "version: "@ + if status.app_version@.len() == 0 {
        "?"@
    } else {
        status.app_version@
    }
}

/// What is said of a client's platform.
pub open spec fn platform_line(status: ClientStatus) -> Seq<char> {
    if status.target_triple@.len() == 0 {
        "platform unknown (pre-update client)"@
    } else {
        status.target_triple@
    }
}

/// What the roster shows of a client at `now_ms`. `available` is the version
/// that its software could be updated to.
pub fn roster_entry(
    row: &ClientRow,
    available: &Option<String>,
    warning_glyph: &str,
    now_ms: u64,
) -> (r: RosterEntry)
    ensures
        r.stale == is_stale(row.status.last_heartbeat_ms, now_ms),
        exists|k: int| #[trigger]
            fitting(row.client_id@, 8, k) && r.title@ == row.name@ + "  ("@ + row.client_id@.take(k)
                + ")"@,
        r.address@ == "addr: "@ + row.status.addr@ + "   state: "@ + row.status.state.label(),
        r.cue.deep_view() == current_cue_line(row.status),
        r.clocks@ == "offset: "@ + measured(row.status.offset_ms) + "   drift: "@ + measured(
            row.status.last_drift_ms,
        ),
        r.version@ == version_line(row.status),
        r.platform@ == platform_line(row.status),
        r.update@ == update_control_of(row.status.update, available.deep_view()),
        match r.media {
            None => row.status.preflight@.len() == 0,
            Some(m) => {
                let files = row.status.preflight@;
                &&& files.len() > 0
                &&& m.line@ == "media: "@ + text::decimal(present_count(files)) + "/"@
                    + text::decimal(files.len()) + " ok"@
                &&& m.problems.deep_view() == problem_lines(files, warning_glyph@)
                &&& m.can_push == (row.status.push_progress is None && present_count(files)
                    < files.len())
            },
        },
{
    let status: &ClientStatus = &row.status;
    let stale: bool = now_ms > status.last_heartbeat_ms && now_ms - status.last_heartbeat_ms
        > STALE_AFTER_MS;
    let cue: Option<String> = match &status.current_cue {
        Some(cue) => Some(
            "cue: ".to_owned().concat(cue.as_str()).concat("  @ ").concat(
                fmt_ms(status.position_ms).as_str(),
            ),
        ),
        None => None,
    };
    let version: &str = if status.app_version.as_str().is_empty() {
        "?"
    } else {
        status.app_version.as_str()
    };
    let platform: String = if status.target_triple.as_str().is_empty() {
        "platform unknown (pre-update client)".to_owned()
    } else {
        status.target_triple.clone()
    };
    RosterEntry {
        stale,
        title: row.name.clone().concat("  (").concat(short_id(row.client_id.as_str())).concat(")"),
        address: "addr: ".to_owned().concat(status.addr.as_str()).concat("   state: ").concat(
            status.state.name(),
        ),
        cue,
        clocks: "offset: ".to_owned().concat(measured_text(status.offset_ms).as_str()).concat(
            "   drift: ",
        ).concat(measured_text(status.last_drift_ms).as_str()),
        version: "version: ".to_owned().concat(version),
        platform,
        update: update_control(&status.update, available),
        media: media_report(status, warning_glyph),
    }
}

/// The update of the controller itself.
#[derive(Debug, PartialEq, Eq)]
pub enum SelfUpdate {
    Idle,
    Failed(String),
    /// What is being done.
    Working(String),
    /// This version is ready.
    ReadyToRestart(String),
}

/// What the window offers about the controller's own software.
#[derive(Debug, PartialEq, Eq)]
pub enum SelfUpdateControl {
    /// Look for an update; an error of the last attempt is shown besides.
    Offer { label: String, hint: String, error: Option<String> },
    /// Busy, with what.
    Busy(String),
    /// Restart into the new version.
    Restart { label: String },
}

/// The model of a [`SelfUpdateControl`].
#[verifier::ext_equal]
pub enum SelfUpdateControlModel {
    Offer { label: Seq<char>, hint: Seq<char>, error: Option<Seq<char>> },
    Busy(Seq<char>),
    Restart { label: Seq<char> },
}

impl View for SelfUpdateControl {
    type V = SelfUpdateControlModel;

    open spec fn view(&self) -> SelfUpdateControlModel {
        match self {
            SelfUpdateControl::Offer { label, hint, error } => SelfUpdateControlModel::Offer {
                label: label@,
                hint: hint@,
                error: error.deep_view(),
            },
            SelfUpdateControl::Busy(what) => SelfUpdateControlModel::Busy(what@),
            SelfUpdateControl::Restart { label } => SelfUpdateControlModel::Restart {
                label: label@,
            },
        }
    }
}

/// What the window offers about the controller's own software, which is at
/// `version`.
pub open spec fn self_update_control_of(
    update: SelfUpdate,
    version: Seq<char>,
) -> SelfUpdateControlModel {
    let offer = |error: Option<Seq<char>>|
        SelfUpdateControlModel::Offer {
            label: "Update controller"@,
            hint: "v"@ + version + " — check the release server for a newer version"@,
            error,
        };
    match update {
        SelfUpdate::Idle => offer(None),
        SelfUpdate::Failed(e) => offer(Some(e@)),
        SelfUpdate::Working(what) => SelfUpdateControlModel::Busy(what@),
        SelfUpdate::ReadyToRestart(v) => SelfUpdateControlModel::Restart {
            label: "Restart into v"@ + v@,
        },
    }
}

/// What the window offers about the controller's own software.
pub fn self_update_control(update: &SelfUpdate, version: &str) -> (r: SelfUpdateControl)
    ensures
        r@ == self_update_control_of(*update, version@),
{
    let error: Option<String> = match update {
        SelfUpdate::Failed(e) => Some(e.clone()),
        SelfUpdate::Idle => None,
        SelfUpdate::Working(what) => {
            return SelfUpdateControl::Busy(what.clone());
        },
        SelfUpdate::ReadyToRestart(v) => {
            return SelfUpdateControl::Restart {
                label: "Restart into v".to_owned().concat(v.as_str()),
            };
        },
    };
    SelfUpdateControl::Offer {
        label: "Update controller".to_owned(),
        hint: "v".to_owned().concat(version).concat(
            " — check the release server for a newer version",
        ),
        error,
    }
}

/// How many clients have an update staged.
pub open spec fn staged_count(rows: Seq<ClientRow>) -> nat
    decreases rows.len(),
{
    if rows.len() == 0 {
        0
    } else {
        staged_count(rows.drop_last()) + if rows.last().status.update is Staged {
            1nat
        } else {
            0nat
        }
    }
}

/// What the window offers about the software of all clients.
#[derive(Debug, PartialEq, Eq)]
pub struct FleetControls {
    /// Send the new version to every client that lacks it.
    pub update: Option<String>,
    /// Restart every client that has one staged.
    pub apply: Option<String>,
}

/// What the window offers about the software of all clients: nothing until it is
/// known which version there is. `outdated` says whether a client lacks it.
pub fn fleet_controls(
    version: &Option<String>,
    outdated: bool,
    rows: &Vec<ClientRow>,
) -> (r: FleetControls)
    ensures
        r.update.deep_view() == match *version {
            Some(v) if outdated => Some("Update fleet (v"@ + v@ + ")"@),
            _ => None,
        },
        r.apply.deep_view() == if version is Some && staged_count(rows@) > 0 {
            Some("Apply fleet ("@ + text::decimal(staged_count(rows@)) + " staged)"@)
        } else {
            None
        },
{
    let mut staged: usize = 0;
    let mut i: usize = 0;
    assert(rows@.take(0) =~= Seq::<ClientRow>::empty());
    while i < rows.len()
        invariant
            0 <= i <= rows.len(),
            staged <= i,
            staged == staged_count(rows@.take(i as int)),
        decreases rows.len() - i,
    {
        assert(rows@.take(i + 1).drop_last() =~= rows@.take(i as int));
        assert(rows@.take(i + 1).last() == rows@[i as int]);
        if let ClientUpdate::Staged(_) = &rows[i].status.update {
            staged = staged + 1;
        }
        i = i + 1;
    }
    assert(rows@.take(i as int) =~= rows@);
    match version {
        Some(v) => FleetControls {
            update: if outdated {
                Some("Update fleet (v".to_owned().concat(v.as_str()).concat(")"))
            } else {
                None
            },
            apply: if staged > 0 {
                Some(
                    "Apply fleet (".to_owned().concat(u64_text(staged as u64).as_str()).concat(
                        " staged)",
                    ),
                )
            } else {
                None
            },
        },
        None => FleetControls { update: None, apply: None },
    }
}

/// The label of the test screen's switch.
pub fn testscreen_label(on: bool) -> (r: &'static str)
    ensures
        r@ == if on {
            "Hide testscreen"@
        } else {
            "Testscreen"@
        },
{
    if on {
        "Hide testscreen"
    } else {
        "Testscreen"
    }
}

/// Switch the test screen of every client on or off.
pub fn toggle_testscreen(on: &mut bool, rows: &Vec<ClientRow>) -> (r: Vec<Outgoing>)
    ensures
        *final(on) == !*old(on),
        r.deep_view() == console::to_all(
            rows.deep_view(),
            if *final(on) {
                ControllerMsgModel::ShowTestscreen
            } else {
                ControllerMsgModel::HideTestscreen
            },
        ),
        r@.len() == rows@.len(),
        forall|k: int|
            0 <= k < r@.len() ==> (#[trigger] r@[k]).client_id@ == rows@[k].client_id@
                && if *old(on) {
                r@[k].msg is HideTestscreen
            } else {
                r@[k].msg is ShowTestscreen
            },
{
    *on = !*on;
    broadcast(
        rows,
        if *on {
            ControllerMsg::ShowTestscreen
        } else {
            ControllerMsg::HideTestscreen
        },
    )
}

/// Pause every client.
pub fn pause_all(rows: &Vec<ClientRow>) -> (r: Vec<Outgoing>)
    ensures
        r.deep_view() == console::to_all(rows.deep_view(), ControllerMsgModel::Pause),
        r@.len() == rows@.len(),
        forall|k: int|
            0 <= k < r@.len() ==> (#[trigger] r@[k]).client_id@ == rows@[k].client_id@
                && r@[k].msg is Pause,
{
    broadcast(rows, ControllerMsg::Pause)
}

/// Let every client go on.
pub fn resume_all(rows: &Vec<ClientRow>) -> (r: Vec<Outgoing>)
    ensures
        r.deep_view() == console::to_all(rows.deep_view(), ControllerMsgModel::Resume),
        r@.len() == rows@.len(),
        forall|k: int|
            0 <= k < r@.len() ==> (#[trigger] r@[k]).client_id@ == rows@[k].client_id@
                && r@[k].msg is Resume,
{
    broadcast(rows, ControllerMsg::Resume)
}

/// The name that a rename draft commits, if it is not blank.
pub open spec fn committed(draft: Seq<char>) -> Option<Seq<char>> {
    if text::trimmed(draft).len() == 0 {
        None
    } else {
        Some(text::trimmed(draft))
    }
}

/// Commit a rename draft: a blank one changes nothing.
pub fn commit_rename(state: &mut AppState, client_id: &str, draft: &str) -> (r: Vec<Outgoing>)
    ensures
        match committed(draft@) {
            Some(name) => {
                &&& final(state)@ == crate::known_clients::after_rename(
                    old(state)@,
                    client_id@,
                    name,
                )
                &&& r.deep_view() == crate::known_clients::rename_messages(
                    old(state)@,
                    client_id@,
                    name,
                )
            },
            None => final(state)@ == old(state)@ && r@.len() == 0,
        },
{
    let name: &str = trim(draft);
    if name.is_empty() {
        Vec::new()
    } else {
        rename(state, client_id, name)
    }
}

/// The lower-case form of an ASCII letter; any other character stays.
pub open spec fn ascii_lower(c: char) -> char {
    if 65 <= c as int <= 90 {
        (c as int + 32) as char
    } else {
        c
    }
}

/// Is `s` the ending of a path, in letters of either case?
pub open spec fn ends_with_ignoring_case(path: Seq<char>, s: Seq<char>) -> bool {
    &&& path.len() >= s.len()
    &&& forall|i: int|
        0 <= i < s.len() ==> ascii_lower(path[path.len() - s.len() + i]) == #[trigger] s[i]
}

/// Is `d` the lower-case form of `c`?
fn is_lower_of(c: char, d: char) -> (r: bool)
    ensures
        r == (ascii_lower(c) == d),
{
    let n: u32 = c as u32;
    let m: u32 = d as u32;
    if 65 <= n && n <= 90 {
        assert(ascii_lower(c) as int == n + 32);
        n + 32 == m
    } else {
        n == m
    }
}

/// Does the file dialog offer this path: is it one of a show file?
pub fn is_show_file(path: &str) -> (r: bool)
    ensures
        r == ends_with_ignoring_case(path@, ".multiplex.toml"@),
{
    let v: Vec<char> = chars_of(path);
    let w: Vec<char> = chars_of(".multiplex.toml");
    if v.len() < w.len() {
        return false;
    }
    let offset: usize = v.len() - w.len();
    let mut i: usize = 0;
    while i < w.len()
        invariant
            0 <= i <= w.len(),
            v@ == path@,
            w@ == ".multiplex.toml"@,
            offset == v.len() - w.len(),
            forall|k: int| 0 <= k < i ==> ascii_lower(v@[offset + k]) == #[trigger] w@[k],
        decreases w.len() - i,
    {
        if !is_lower_of(v[offset + i], w[i]) {
            assert(ascii_lower(path@[path@.len() - w@.len() + i]) != w@[i as int]);
            return false;
        }
        i = i + 1;
    }
    true
}

/// What the operator pressed since the last frame, and whether it counts.
#[derive(Debug, Clone, Copy, PartialEq, Eq, Structural)]
pub struct FrameInput {
    pub editor_open: bool,
    /// A text field wants the keyboard.
    pub typing: bool,
    pub space: bool,
    pub down: bool,
    pub up: bool,
}

/// Do keys move the show?
pub open spec fn keys_count(input: FrameInput) -> bool {
    !input.editor_open && !input.typing
}

/// The controller's state after the keys of a frame: space fires the selected
/// cue, the arrows move the selection.
pub open spec fn after_keys(s: AppModel, input: FrameInput, now_ms: u64) -> AppModel {
    if keys_count(input) {
        let fired = if input.space {
            console::after_go_selected(s, now_ms)
        } else {
            s
        };
        let lowered = if input.down {
            console::after_move(fired, 1)
        } else {
            fired
        };
        if input.up {
            console::after_move(lowered, -1)
        } else {
            lowered
        }
    } else {
        s
    }
}

/// What the keys of a frame send.
pub open spec fn keys_messages(s: AppModel, input: FrameInput, now_ms: u64) -> Seq<OutgoingModel> {
    if keys_count(input) && input.space {
        console::go_selected_messages(s, now_ms)
    } else {
        Seq::empty()
    }
}

/// Since when the selection has held still.
#[derive(Debug, Clone, Copy, PartialEq, Eq, Structural)]
pub struct SelectionClock {
    pub last_selected: Option<usize>,
    /// A reading of a clock that only runs forward.
    pub since_ms: u128,
}

impl SelectionClock {
    /// The clock after a look at the selection.
    pub open spec fn seen(self, selected: Option<usize>, tick_ms: u128) -> SelectionClock {
        if self.last_selected == selected {
            self
        } else {
            SelectionClock { last_selected: selected, since_ms: tick_ms }
        }
    }

    /// How long the selection has held still.
    pub open spec fn held(self, tick_ms: u128) -> u128 {
        if tick_ms >= self.since_ms {
            (tick_ms - self.since_ms) as u128
        } else {
            0
        }
    }
}

/// Do two selections name the same cue?
fn same_selection(a: Option<usize>, b: Option<usize>) -> (r: bool)
    ensures
        r == (a == b),
{
    match (a, b) {
        (Some(i), Some(j)) => i == j,
        (None, None) => true,
        _ => false,
    }
}

/// One frame of the operator's window: take up the keys, note whether the
/// selection moved, and preload a selection that has held still. `tick_ms` is a
/// reading of the clock that only runs forward.
pub fn run_frame_at(
    state: &mut AppState,
    clock: &mut SelectionClock,
    input: FrameInput,
    tick_ms: u128,
    now_ms: u64,
) -> (r: Vec<Outgoing>)
    ensures
        ({
            let keyed = after_keys(old(state)@, input, now_ms);
            let sent = keys_messages(old(state)@, input, now_ms);
            let seen = old(clock).seen(keyed.selected_cue_idx, tick_ms);
            &&& *final(clock) == seen
            &&& if input.editor_open {
                final(state)@ == keyed && r.deep_view() == sent
            } else {
                &&& final(state)@ == console::after_maybe_standby(
                    keyed,
                    seen.held(tick_ms),
                    now_ms,
                )
                &&& r.deep_view() == sent + console::maybe_standby_messages(
                    keyed,
                    seen.held(tick_ms),
                    now_ms,
                )
            }
        }),
{
    let ghost before = state@;
    let mut out: Vec<Outgoing> = Vec::new();
    assert(out.deep_view() =~= Seq::<OutgoingModel>::empty());
    if !input.editor_open && !input.typing {
        if input.space {
            out = go_selected_at(state, now_ms);
        }
        if input.down {
            move_selection(state, 1);
        }
        if input.up {
            move_selection(state, -1);
        }
    }
    assert(state@ == after_keys(before, input, now_ms));
    if !same_selection(clock.last_selected, state.selected_cue_idx) {
        clock.last_selected = state.selected_cue_idx;
        clock.since_ms = tick_ms;
    }
    if !input.editor_open {
        let held_ms: u128 = if tick_ms >= clock.since_ms {
            tick_ms - clock.since_ms
        } else {
            0
        };
        let ghost sent = out.deep_view();
        let mut more: Vec<Outgoing> = maybe_standby_at(state, held_ms, now_ms);
        let ghost rest = more.deep_view();
        out.append(&mut more);
        assert(out.deep_view() =~= sent + rest);
    }
    out
}

/// A selection that moved in this frame is not preloaded in it, however long the
/// one before it had held still.
pub proof fn law_moved_selection_waits(
    s: AppModel,
    clock: SelectionClock,
    selected: Option<usize>,
    tick_ms: u128,
    now_ms: u64,
)
    requires
        clock.last_selected != selected,
    ensures
        ({
            let held_ms = clock.seen(selected, tick_ms).held(tick_ms);
            &&& console::after_maybe_standby(s, held_ms, now_ms) == s
            &&& console::maybe_standby_messages(s, held_ms, now_ms).len() == 0
        }),
{
}

/// A time is shown as its whole minutes, a colon and two digits of the seconds
/// beyond them; what is less than a second is left off.
pub proof fn law_clock_text(minutes: nat, seconds: nat, millis: nat, ms: u64)
    requires
        seconds < 60,
        millis < 1000,
        ms == (minutes * 60 + seconds) * 1000 + millis,
    ensures
        clock_text(ms) == text::decimal(minutes) + seq![
            ':',
            "0123456789"@[seconds as int / 10],
            "0123456789"@[seconds as int % 10],
        ],
{
    let total = minutes * 60 + seconds;
    assert(ms as int / 1000 == total);
    assert(total / 60 == minutes && total % 60 == seconds);
    text::law_two_digits(seconds);
    reveal_strlit(":");
    assert(clock_text(ms) =~= text::decimal(minutes) + seq![
        ':',
        "0123456789"@[seconds as int / 10],
        "0123456789"@[seconds as int % 10],
    ]);
}

/// A client is stale once its last sign of life is more than three seconds old,
/// and not before.
pub proof fn law_stale_after_three_seconds(last_heartbeat_ms: u64, now_ms: u64)
    ensures
        is_stale(last_heartbeat_ms, now_ms) <==> now_ms > last_heartbeat_ms + 3000,
{
}

/// A reading is shown in milliseconds with its sign, and one that is missing as a
/// dash.
pub proof fn law_measured_text(n: nat)
    requires
        0 < n <= i64::MAX,
    ensures
        measured(Some(n as i64)) == text::decimal(n) + " ms"@,
        measured(Some(-(n as int) as i64)) == seq!['-'] + text::decimal(n) + " ms"@,
        measured(Some(0i64)) == seq!['0'] + " ms"@,
        measured(None) == "—"@,
{
    text::law_signed_decimal(n);
    text::law_decimal_by_digits(0, 0);
    reveal_strlit("0123456789");
}

/// What the window offers about a client's software: nothing while there is no
/// newer version, that version where the client is idle, the staged one where it
/// has one, and a retry where the update failed and there is a version to retry.
pub proof fn law_update_control(update: ClientUpdate, available: Option<Seq<char>>)
    ensures
        ({
            let control = update_control_of(update, available);
            match update {
                ClientUpdate::Idle => if available is Some {
                    control == UpdateControlModel::Offer(available->0)
                } else {
                    control is Hidden
                },
                ClientUpdate::Pushing => control is Sending,
                ClientUpdate::Staged(v) => control == UpdateControlModel::Apply(v@),
                ClientUpdate::Applying => control is Restarting,
                ClientUpdate::Failed(e) => control == (UpdateControlModel::Failed {
                    error: e@,
                    retry: available,
                }),
            }
        }),
{
}

/// The count of a client's media is the number of files that are present. The
/// others each have a line, in order, with the file's path and what is wrong with
/// it, so that the two make up all files.
pub proof fn law_media_count_and_lines(files: Seq<PreflightEntry>, glyph: Seq<char>)
    ensures
        present_count(files) == files.filter(
            |f: PreflightEntry| f.status == MediaFileStatus::Present,
        ).len(),
        problem_lines(files, glyph) =~= files.filter(
            |f: PreflightEntry| f.status != MediaFileStatus::Present,
        ).map_values(
            |f: PreflightEntry|
                "   "@ + glyph + " "@ + f.path@ + " ("@ + (if f.status == MediaFileStatus::Missing {
                    "missing"@
                } else {
                    "mismatch"@
                }) + ")"@,
        ),
        present_count(files) + problem_lines(files, glyph).len() == files.len(),
    decreases files.len(),
{
    reveal(Seq::filter);
    if files.len() > 0 {
        law_media_count_and_lines(files.drop_last(), glyph);
    }
}

/// The staged count is the number of clients that have an update staged.
pub proof fn law_staged_count(rows: Seq<ClientRow>)
    ensures
        staged_count(rows) == rows.filter(|r: ClientRow| r.status.update is Staged).len(),
    decreases rows.len(),
{
    reveal(Seq::filter);
    if rows.len() > 0 {
        law_staged_count(rows.drop_last());
    }
}

/// The lines about a client say what its status says: the cue and how far it is,
/// its version, or a question mark, and its platform, where it told.
pub proof fn law_status_lines(status: ClientStatus)
    ensures
        status.current_cue is None ==> current_cue_line(status) is None,
        status.current_cue is Some ==> current_cue_line(status) == Some(
            "cue: "@ + status.current_cue->0@ + "  @ "@ + clock_text(status.position_ms),
        ),
        status.app_version@.len() > 0 ==> version_line(status) == "version: "@
            + status.app_version@,
        status.app_version@.len() == 0 ==> version_line(status) == "version: "@ + "?"@,
        status.target_triple@.len() > 0 ==> platform_line(status) == status.target_triple@,
        status.target_triple@.len() == 0 ==> platform_line(status)
            == "platform unknown (pre-update client)"@,
{
}

/// The label of a cue: a mark where it is on air, its number in three places, the
/// sign of its kind and its name.
pub proof fn law_cue_label(glyphs: CueGlyphs, i: nat, cue: CueModel, on_air: bool)
    ensures
        cue_label(glyphs, i as int, cue, on_air) == (if on_air {
            glyphs.play@
        } else {
            " "@
        }) + " "@ + text::right_aligned(text::decimal(i), 3) + "  "@ + (match cue.kind {
            CueKind::Video => glyphs.film@,
            CueKind::Image => glyphs.image@,
            CueKind::Color => glyphs.palette@,
        }) + " "@ + cue.name,
{
}

/// A rename commits the draft without the white space at its ends, and commits
/// nothing where that leaves nothing.
pub proof fn law_committed_name(left: Seq<char>, name: Seq<char>, right: Seq<char>)
    requires
        forall|k: int| 0 <= k < left.len() ==> text::white_space(#[trigger] left[k]),
        forall|k: int| 0 <= k < right.len() ==> text::white_space(#[trigger] right[k]),
        name.len() > 0 ==> !text::white_space(name[0]) && !text::white_space(name[name.len() - 1]),
    ensures
        name.len() > 0 ==> committed(left + name + right) == Some(name),
        name.len() == 0 ==> committed(left + name + right) is None,
{
    text::law_trimmed_core(left, name, right);
}

/// A path that ends with the given text in small letters is still taken for one
/// when any of its letters is a capital; a path that is shorter is not.
pub proof fn law_ending_in_either_case(stem: Seq<char>, ending: Seq<char>, s: Seq<char>)
    requires
        ending.len() == s.len(),
        forall|i: int|
            0 <= i < s.len() ==> {
                ||| (#[trigger] ending[i]) == s[i] && !('A' <= s[i] <= 'Z')
                ||| 'a' <= s[i] <= 'z' && ending[i] as int == s[i] as int - 32
            },
    ensures
        ends_with_ignoring_case(stem + ending, s),
        stem.len() < s.len() ==> !ends_with_ignoring_case(stem, s),
{
    let path = stem + ending;
    assert forall|i: int| 0 <= i < s.len() implies ascii_lower(path[path.len() - s.len() + i])
        == #[trigger] s[i] by {
        assert(path[path.len() - s.len() + i] == ending[i]);
    }
}

/// A path is taken for one with the ending only if its last characters are those
/// of the ending, each as it is or as the capital of that letter.
pub proof fn law_ending_is_needed(path: Seq<char>, s: Seq<char>, i: int)
    requires
        ends_with_ignoring_case(path, s),
        0 <= i < s.len(),
    ensures
        ({
            let c = path[path.len() - s.len() + i];
            c == s[i] || ('A' <= c <= 'Z' && c as int + 32 == s[i] as int)
        }),
{
    assert(ascii_lower(path[path.len() - s.len() + i]) == s[i]);
}

/// The keys count only while the editor is closed and no field is typed in. Then
/// space fires the selected cue, and down and up, after that, move the selection
/// by one. Nothing but space sends anything.
pub proof fn law_what_keys_do(s: AppModel, input: FrameInput, now_ms: u64)
    ensures
        input.editor_open || input.typing ==> after_keys(s, input, now_ms) == s && keys_messages(
            s,
            input,
            now_ms,
        ).len() == 0,
        !input.space ==> keys_messages(s, input, now_ms).len() == 0,
        !input.editor_open && !input.typing ==> {
            let fired = if input.space {
                console::after_go_selected(s, now_ms)
            } else {
                s
            };
            &&& input.space ==> keys_messages(s, input, now_ms) == console::go_selected_messages(
                s,
                now_ms,
            )
            &&& !input.down && !input.up ==> after_keys(s, input, now_ms) == fired
            &&& input.down && !input.up ==> after_keys(s, input, now_ms) == console::after_move(
                fired,
                1,
            )
            &&& !input.down && input.up ==> after_keys(s, input, now_ms) == console::after_move(
                fired,
                -1,
            )
            &&& input.down && input.up ==> after_keys(s, input, now_ms) == console::after_move(
                console::after_move(fired, 1),
                -1,
            )
        },
{
}

/// A selection that stays the same is held from when it was first seen, and one
/// that changed from now.
pub proof fn law_selection_held_since(
    clock: SelectionClock,
    selected: Option<usize>,
    tick_ms: u128,
    later_ms: u128,
)
    requires
        clock.since_ms <= tick_ms <= later_ms,
    ensures
        ({
            let seen = clock.seen(selected, tick_ms);
            &&& seen.last_selected == selected
            &&& clock.last_selected == selected ==> seen.held(later_ms) == later_ms
                - clock.since_ms
            &&& clock.last_selected != selected ==> seen.held(later_ms) == later_ms - tick_ms
            &&& seen.seen(selected, later_ms) == seen
        }),
{
}

/// A character takes one to four bytes, by its code point.
pub proof fn law_character_bytes(c: char)
    ensures
        c <= '\u{7f}' ==> utf8_len(c) == 1,
        '\u{80}' <= c <= '\u{7ff}' ==> utf8_len(c) == 2,
        '\u{800}' <= c <= '\u{ffff}' ==> utf8_len(c) == 3,
        c >= '\u{10000}' ==> utf8_len(c) == 4,
{
}

/// A text takes as many bytes as its characters do together.
pub proof fn law_text_bytes(a: Seq<char>, b: Seq<char>, c: char)
    ensures
        byte_len(Seq::empty()) == 0,
        byte_len(seq![c]) == utf8_len(c),
        byte_len(a + b) == byte_len(a) + byte_len(b),
    decreases b.len(),
{
    assert(seq![c].drop_last() =~= Seq::<char>::empty());
    assert(byte_len(Seq::<char>::empty()) == 0);
    if b.len() == 0 {
        assert(a + b =~= a);
    } else {
        let front = b.drop_last();
        law_text_bytes(a, front, c);
        assert((a + b).drop_last() =~= a + front);
    }
}

/// Of an id in plain letters and digits the first eight are shown, or all where
/// there are fewer.
pub proof fn law_short_plain_id(id: Seq<char>, k: int)
    requires
        forall|i: int| 0 <= i < id.len() ==> #[trigger] id[i] <= '\u{7f}',
    ensures
        fitting(id, 8, k) <==> k == if id.len() <= 8 {
            id.len() as int
        } else {
            8
        },
{
    let full = if id.len() <= 8 {
        id.len() as int
    } else {
        8
    };
    lemma_plain_bytes(id.take(full));
    if full < id.len() {
        lemma_plain_bytes(id.take(full + 1));
    }
    if 0 <= k <= id.len() {
        lemma_plain_bytes(id.take(k));
        if k < id.len() {
            lemma_plain_bytes(id.take(k + 1));
        }
    }
}

proof fn lemma_plain_bytes(s: Seq<char>)
    requires
        forall|i: int| 0 <= i < s.len() ==> #[trigger] s[i] <= '\u{7f}',
    ensures
        byte_len(s) == s.len(),
    decreases s.len(),
{
    if s.len() > 0 {
        let front = s.drop_last();
        assert forall|i: int| 0 <= i < front.len() implies #[trigger] front[i] <= '\u{7f}' by {
            assert(front[i] == s[i]);
        }
        assert(s[s.len() - 1] <= '\u{7f}');
        lemma_plain_bytes(front);
    }
}

/// The summary names the show and counts its cues, or says that there is none.
pub proof fn law_summary(s: AppModel)
    ensures
        s.show is Some ==> summary_of(s) == s.show->0.show.title + "  ("@ + text::decimal(
            s.show->0.cues.len(),
        ) + " cues)"@,
        s.show is None ==> summary_of(s) == "(no show loaded)"@,
{
}

/// What the window offers about the controller's own software: to look for an
/// update, along with the error of a failed attempt; what is being done, while it
/// is; and to restart, once a version is ready.
pub proof fn law_self_update_control(update: SelfUpdate, version: Seq<char>)
    ensures
        ({
            let control = self_update_control_of(update, version);
            let hint = "v"@ + version + " — check the release server for a newer version"@;
            match update {
                SelfUpdate::Idle => control == (SelfUpdateControlModel::Offer {
                    label: "Update controller"@,
                    hint,
                    error: None,
                }),
                SelfUpdate::Failed(e) => control == (SelfUpdateControlModel::Offer {
                    label: "Update controller"@,
                    hint,
                    error: Some(e@),
                }),
                SelfUpdate::Working(what) => control == SelfUpdateControlModel::Busy(what@),
                SelfUpdate::ReadyToRestart(v) => control == (SelfUpdateControlModel::Restart {
                    label: "Restart into v"@ + v@,
                }),
            }
        }),
{
}

} // verus!
