//! Decisions of the desktop shell: the overlay's size, what the tray menu
//! entries do, and where the local worker script is looked for.

use vstd::prelude::*;
use crate::text::same_text;

verus! {

/// The overlay's size in logical pixels, compact or expanded.
pub open spec fn overlay_dimensions(compact: bool) -> (u32, u32) {
    if compact {
        (380, 78)
    } else {
        (920, 420)
    }
}

/// The overlay's width and height in logical pixels: a compact bar of
/// 380 by 78, or the full panel of 920 by 420.
pub fn overlay_size(compact: bool) -> (r: (u32, u32))
    ensures
        r == overlay_dimensions(compact),
{
    if compact {
        (380, 78)
    } else {
        (920, 420)
    }
}

/// What a tray menu entry does.
#[derive(Clone, Copy, Debug, PartialEq, Eq, Structural)]
pub enum TrayAction {
    /// Show and focus the overlay.
    Show,
    /// Minimize the overlay.
    Minimize,
    /// Quit the application.
    Quit,
}

/// The action of the tray menu entry with the given id.
pub open spec fn tray_action_for(id: Seq<char>) -> Option<TrayAction> {
    if id == "show"@ {
        Some(TrayAction::Show)
    } else if id == "minimize"@ {
        Some(TrayAction::Minimize)
    } else if id == "quit"@ {
        Some(TrayAction::Quit)
    } else {
        None
    }
}

/// The action of the tray menu entry with the given id; other ids do nothing.
pub fn tray_action(id: &str) -> (r: Option<TrayAction>)
    ensures
        r == tray_action_for(id@),
{
    if same_text(id, "show") {
        Some(TrayAction::Show)
    } else if same_text(id, "minimize") {
        Some(TrayAction::Minimize)
    } else if same_text(id, "quit") {
        Some(TrayAction::Quit)
    } else {
        None
    }
}

/// A place where the worker script `scripts/local-transcribe.py` is looked for.
#[derive(Clone, Copy, Debug, PartialEq, Eq, Structural)]
pub enum ScriptLocation {
    /// Relative to wherever the process resolves relative paths.
    Relative,
    /// Under the current directory.
    CurrentDir,
    /// Under the current directory's parent.
    CurrentDirParent,
    /// Next to the executable.
    ExeDir,
    /// Three directories above the executable's.
    ExeDirUp3,
}

/// The places searched, in order: always the relative path, then the two
/// under the current directory where it is known, then the two near the
/// executable where its directory is known.
pub open spec fn script_locations(has_current_dir: bool, has_exe_dir: bool) -> Seq<ScriptLocation> {
    seq![ScriptLocation::Relative] + (if has_current_dir {
        seq![ScriptLocation::CurrentDir, ScriptLocation::CurrentDirParent]
    } else {
        Seq::empty()
    }) + (if has_exe_dir {
        seq![ScriptLocation::ExeDir, ScriptLocation::ExeDirUp3]
    } else {
        Seq::empty()
    })
}

/// Lists the places searched for the worker script.
pub fn script_candidates(has_current_dir: bool, has_exe_dir: bool) -> (r: Vec<ScriptLocation>)
    ensures
        r@ == script_locations(has_current_dir, has_exe_dir),
{
    let mut v: Vec<ScriptLocation> = Vec::new();
    v.push(ScriptLocation::Relative);
    if has_current_dir {
        v.push(ScriptLocation::CurrentDir);
        v.push(ScriptLocation::CurrentDirParent);
    }
    if has_exe_dir {
        v.push(ScriptLocation::ExeDir);
        v.push(ScriptLocation::ExeDirUp3);
    }
    assert(v@ =~= script_locations(has_current_dir, has_exe_dir));
    v
}

/// Which worker script is used.
#[derive(Clone, Copy, Debug, PartialEq, Eq, Structural)]
pub enum ScriptChoice {
    /// The path named by the `ECHOTYPE_LOCAL_TRANSCRIBE` environment variable.
    Override,
    /// The candidate at this position.
    Candidate(usize),
}

/// Picks the worker script: the override where one is set, else the first
/// candidate that exists, else the first candidate (the relative path).
pub fn pick_script(override_set: bool, exists: &Vec<bool>) -> (r: ScriptChoice)
    ensures
        override_set ==> r == ScriptChoice::Override,
        !override_set ==> (r matches ScriptChoice::Candidate(i) && {
            ||| 0 <= i < exists@.len() && exists@[i as int] && forall|j: int| 0 <= j < i ==> !exists@[j]
            ||| i == 0 && forall|j: int| 0 <= j < exists@.len() ==> !exists@[j]
        }),
{
    if override_set {
        return ScriptChoice::Override;
    }
    let n = exists.len();
    let mut i: usize = 0;
    while i < n
        invariant
            !override_set,
            n == exists@.len(),
            0 <= i <= n,
            forall|j: int| 0 <= j < i ==> !exists@[j],
        decreases n - i,
    {
        if exists[i] {
            return ScriptChoice::Candidate(i);
        }
        i = i + 1;
    }
    ScriptChoice::Candidate(0)
}

} // verus!
