//! Entering the show editor and acting on what it is asked to do.
//!
//! The editor itself is outside; what becomes of an edited show is in
//! [`crate::console`].

use vstd::prelude::*;

use crate::picker;
use crate::picker::{client_picks, Pick};
use crate::show::ShowFile;
use crate::state::AppState;
use crate::text::copy_option;

verus! {

/// What the editor starts from.
#[derive(Debug)]
pub struct Seed {
    pub show: Option<ShowFile>,
    pub path: Option<String>,
    /// Everyone whom a cue can target, by name.
    pub clients: Vec<Pick>,
}

fn copy_show(show: &Option<ShowFile>) -> (r: Option<ShowFile>)
    ensures
        r.deep_view() == show.deep_view(),
{
    match show {
        Some(s) => Some(s.clone()),
        None => None,
    }
}

/// Start the editor from the running show, or from nothing if it is to be
/// `blank`. Either way it can target every client ever seen, not just those who
/// are connected.
pub fn open_editor(state: &AppState, blank: bool) -> (r: Seed)
    ensures
        blank ==> r.show is None && r.path is None,
        !blank ==> r.show.deep_view() == state@.show && r.path.deep_view() == state@.show_path,
        picker::by_name(r.clients.deep_view()),
        r.clients.deep_view().to_multiset() == picker::merged(
            state@.known_clients,
            state@.clients,
        ).to_multiset(),
{
    let clients: Vec<Pick> = client_picks(state);
    if blank {
        Seed { show: None, path: None, clients }
    } else {
        Seed { show: copy_show(&state.show), path: copy_option(&state.show_path), clients }
    }
}

/// What the operator asked of the editor.
#[derive(Debug, Clone, Copy, PartialEq, Eq, Structural)]
pub enum EditorAction {
    Nothing,
    /// Use the edited show as the running one.
    Apply,
    /// Write it to the file it came from, and use it.
    Save,
    /// Write it to another file, and use it.
    SaveAs,
    Close,
}

/// What is to be done about it.
#[derive(Debug, PartialEq, Eq)]
pub enum EditorStep {
    Nothing,
    Apply,
    /// Write the show to this path.
    SaveTo(String),
    /// Ask for a path first.
    AskPath,
    Close,
}

/// What is to be done about an action: saving a show that has no file yet asks
/// for one.
pub fn editor_step(action: EditorAction, save_path: &Option<String>) -> (r: EditorStep)
    ensures
        match action {
            EditorAction::Nothing => r is Nothing,
            EditorAction::Apply => r is Apply,
            EditorAction::Save => match save_path {
                Some(path) => r matches EditorStep::SaveTo(p) && p@ == path@,
                None => r is AskPath,
            },
            EditorAction::SaveAs => r is AskPath,
            EditorAction::Close => r is Close,
        },
{
    match action {
        EditorAction::Nothing => EditorStep::Nothing,
        EditorAction::Apply => EditorStep::Apply,
        EditorAction::Save => match save_path {
            Some(path) => EditorStep::SaveTo(path.clone()),
            None => EditorStep::AskPath,
        },
        EditorAction::SaveAs => EditorStep::AskPath,
        EditorAction::Close => EditorStep::Close,
    }
}

} // verus!
