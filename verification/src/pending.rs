//! The checks made on a dialog once the delay after its appearance has run
//! out, up to the point the cursor is sent to its OK button.
//!
//! The checks ask the window system only what they need, one question at a
//! time: [`next_step`] looks at the answers given so far and either asks the
//! next question or gives the verdict. The verdict never depends on answers
//! that were not asked for.
use vstd::prelude::*;
use crate::config::{contains_ignore_ascii_case, contains_ignoring_case, Config, Settings};
use crate::dialog::{center_of, centre, extent_fits, point_in_rect, Point, Rect};
use crate::text::{chars_eq_ignore_case, chars_of, eq_ignore_case};

verus! {

/// What the checks ask about the dialog.
#[derive(Clone, Copy, PartialEq, Eq, Structural, Debug)]
pub enum Question {
    /// Does the window still exist and is it visible?
    Alive,
    /// Is it minimized?
    Minimized,
    /// Is it the foreground window, or owned by it?
    Foreground,
    /// Is it shaped like a dialog?
    DialogLike,
    /// What is its title?
    Title,
    /// Which executable owns it?
    Process,
    /// Is it a file or folder picker?
    FileDialog,
    /// Does it show a progress bar?
    ProgressBar,
    /// Where is a child button labelled OK?
    OkButton,
    /// Is it a web browser?
    Browser,
    /// Where is its default button, when that counts?
    DefaultButton,
    /// Where does UI Automation find an OK button, and does it see a progress bar?
    UiaButton,
    /// Where is the cursor?
    Cursor,
    /// Is this point on a monitor?
    OnMonitor,
    /// Which button has the keyboard focus?
    FocusedButton,
    /// Does a button saying cancel sit in the same row as the focused one?
    CancelSibling,
}

/// Why a dialog is left alone.
#[derive(Clone, Copy, PartialEq, Eq, Structural, Debug)]
pub enum Reason {
    Disabled,
    Closed,
    Minimized,
    NotForeground,
    NotDialogLike,
    ExcludedTitle,
    ExcludedProcess,
    FileDialog,
    ProgressBar,
    ProgressBarSeenByUia,
    CursorInside,
    OffMonitor,
    /// The focus is on no button.
    NoFocusedButton,
    /// The focused button's label is not known to mean OK, and default buttons are not followed.
    UnknownLabel,
    /// The focused button is in a web browser, where default buttons are not followed.
    Browser,
    /// The focused button says cancel.
    CancelLabel,
    /// The focused button is not in a row with a cancel button.
    NotButtonRow,
}

/// How the button was found.
#[derive(Clone, Copy, PartialEq, Eq, Structural, Debug)]
pub enum Via {
    /// A child window labelled OK.
    Hwnd,
    /// The dialog's default button.
    HwndDefault,
    /// UI Automation.
    Uia,
    /// The focused button, whose label means OK.
    Focus,
    /// The focused button, as the default button of a dialog.
    FocusDefault,
}

/// What to do next.
#[derive(Clone, Copy, PartialEq, Eq, Structural, Debug)]
pub enum Step {
    /// Find this out and call again.
    Ask(Question),
    /// Leave the dialog alone.
    Skip(Reason),
    /// No button to go to was found.
    NotFound,
    /// Send the cursor to this point.
    Move(Point, Via),
}

/// The answers given so far; `None` for a question not yet asked.
pub struct PendingFacts {
    pub alive: Option<bool>,
    pub minimized: Option<bool>,
    pub foreground: Option<bool>,
    pub dialog_like: Option<bool>,
    pub title: Option<String>,
    /// `Some(None)`: the owning executable could not be found out.
    pub process: Option<Option<String>>,
    pub file_dialog: Option<bool>,
    pub progress_bar: Option<bool>,
    /// `Some(None)`: there is no such button (or its rectangle is unknown).
    pub ok_button: Option<Option<Rect>>,
    pub browser: Option<bool>,
    pub default_button: Option<Option<Rect>>,
    /// The button UI Automation found, and whether it saw a visible progress bar.
    pub uia: Option<(Option<Rect>, bool)>,
    /// `Some(None)`: the cursor position could not be read.
    pub cursor: Option<Option<Point>>,
    pub on_monitor: Option<bool>,
}

impl PendingFacts {
    /// Nothing known yet.
    pub fn new() -> (f: PendingFacts)
        ensures
            nothing_known(f),
    {
        PendingFacts {
            alive: None,
            minimized: None,
            foreground: None,
            dialog_like: None,
            title: None,
            process: None,
            file_dialog: None,
            progress_bar: None,
            ok_button: None,
            browser: None,
            default_button: None,
            uia: None,
            cursor: None,
            on_monitor: None,
        }
    }
}

/// No question answered yet.
pub open spec fn nothing_known(f: PendingFacts) -> bool {
    &&& f.alive is None && f.minimized is None && f.foreground is None && f.dialog_like is None
    &&& f.title is None && f.process is None && f.file_dialog is None && f.progress_bar is None
    &&& f.ok_button is None && f.browser is None && f.default_button is None && f.uia is None
    &&& f.cursor is None && f.on_monitor is None
}

/// Every question answered.
pub open spec fn all_known(f: PendingFacts) -> bool {
    &&& f.alive is Some && f.minimized is Some && f.foreground is Some && f.dialog_like is Some
    &&& f.title is Some && f.process is Some && f.file_dialog is Some && f.progress_bar is Some
    &&& f.ok_button is Some && f.browser is Some && f.default_button is Some && f.uia is Some
    &&& f.cursor is Some && f.on_monitor is Some
}

/// `a` agrees with every answer given in `p`.
pub open spec fn extends(p: PendingFacts, a: PendingFacts) -> bool {
    &&& p.alive is Some ==> a.alive == p.alive
    &&& p.minimized is Some ==> a.minimized == p.minimized
    &&& p.foreground is Some ==> a.foreground == p.foreground
    &&& p.dialog_like is Some ==> a.dialog_like == p.dialog_like
    &&& p.title is Some ==> a.title is Some && a.title.unwrap()@ == p.title.unwrap()@
    &&& p.process is Some ==> a.process is Some && (a.process.unwrap() is Some <==> p.process.unwrap() is Some)
        && (p.process.unwrap() is Some ==> a.process.unwrap().unwrap()@ == p.process.unwrap().unwrap()@)
    &&& p.file_dialog is Some ==> a.file_dialog == p.file_dialog
    &&& p.progress_bar is Some ==> a.progress_bar == p.progress_bar
    &&& p.ok_button is Some ==> a.ok_button == p.ok_button
    &&& p.browser is Some ==> a.browser == p.browser
    &&& p.default_button is Some ==> a.default_button == p.default_button
    &&& p.uia is Some ==> a.uia == p.uia
    &&& p.cursor is Some ==> a.cursor == p.cursor
    &&& p.on_monitor is Some ==> a.on_monitor == p.on_monitor
}

/// The rectangles given are ones whose centre can be computed.
pub open spec fn rects_fit(f: PendingFacts) -> bool {
    &&& f.ok_button matches Some(Some(r)) ==> extent_fits(r)
    &&& f.default_button matches Some(Some(r)) ==> extent_fits(r)
    &&& f.uia matches Some((Some(r), _)) ==> extent_fits(r)
}

/// The title contains one of the excluded strings, ignoring ASCII case.
pub open spec fn title_excluded(title: Seq<char>, excluded: Seq<Seq<char>>) -> bool {
    exists|i: int| 0 <= i < excluded.len() && contains_ignoring_case(title, #[trigger] excluded[i])
}

/// The executable is one of the excluded ones, ignoring ASCII case.
pub open spec fn process_excluded(exe: Option<Seq<char>>, excluded: Seq<Seq<char>>) -> bool {
    exe matches Some(e) && exists|i: int| 0 <= i < excluded.len() && eq_ignore_case(#[trigger] excluded[i], e)
}

/// The button to go to, once the questions about buttons are answered as far
/// as they are asked: a child labelled OK; else, when the default button is
/// followed (and, in a browser, only when allowed there), the default button;
/// else, when UI Automation is enabled, what it finds.
pub open spec fn button_step(c: Settings, f: PendingFacts) -> Step {
    match f.ok_button {
        None => Step::Ask(Question::OkButton),
        Some(Some(r)) => after_found(c, f, r, Via::Hwnd),
        Some(None) => {
            let try_default = c.follow_dialog_default_button && (c.follow_default_in_browser || f.browser == Some(false));
            if c.follow_dialog_default_button && !c.follow_default_in_browser && f.browser is None {
                Step::Ask(Question::Browser)
            } else if try_default && f.default_button is None {
                Step::Ask(Question::DefaultButton)
            } else if try_default && f.default_button matches Some(Some(_)) {
                after_found(c, f, f.default_button.unwrap().unwrap(), Via::HwndDefault)
            } else if !c.uia_enabled {
                Step::NotFound
            } else {
                match f.uia {
                    None => Step::Ask(Question::UiaButton),
                    Some((found, progress)) => if c.skip_progress_dialogs && progress {
                        Step::Skip(Reason::ProgressBarSeenByUia)
                    } else {
                        match found {
                            None => Step::NotFound,
                            Some(r) => after_found(c, f, r, Via::Uia),
                        }
                    },
                }
            }
        },
    }
}

/// The last checks once a button at `r` was found.
pub open spec fn after_found(c: Settings, f: PendingFacts, r: Rect, via: Via) -> Step {
    let p = Point { x: centre(r).0 as i32, y: centre(r).1 as i32 };
    if c.skip_if_cursor_inside && f.cursor is None {
        Step::Ask(Question::Cursor)
    } else if c.skip_if_cursor_inside && (f.cursor matches Some(Some(q)) && r.left <= q.x < r.right && r.top <= q.y < r.bottom) {
        Step::Skip(Reason::CursorInside)
    } else {
        match f.on_monitor {
            None => Step::Ask(Question::OnMonitor),
            Some(false) => Step::Skip(Reason::OffMonitor),
            Some(true) => Step::Move(p, via),
        }
    }
}

/// The checks, in order: the window still open and visible, not minimized,
/// in front (when required), still shaped like a dialog (when it came through
/// UI Automation and that is required), its title and executable not excluded,
/// not a file picker or a window with a progress bar (when those are skipped),
/// then a button found ([`button_step`]), the cursor not already on it, and its
/// centre on a monitor.
pub open spec fn pending_step(c: Settings, via_uia: bool, target: usize, f: PendingFacts) -> Step {
    if target == 0 || !c.enabled {
        Step::Skip(Reason::Disabled)
    } else if f.alive is None {
        Step::Ask(Question::Alive)
    } else if f.alive == Some(false) {
        Step::Skip(Reason::Closed)
    } else if f.minimized is None {
        Step::Ask(Question::Minimized)
    } else if f.minimized == Some(true) {
        Step::Skip(Reason::Minimized)
    } else if c.require_foreground && f.foreground is None {
        Step::Ask(Question::Foreground)
    } else if c.require_foreground && f.foreground == Some(false) {
        Step::Skip(Reason::NotForeground)
    } else if via_uia && c.uia_dialog_like_only && f.dialog_like is None {
        Step::Ask(Question::DialogLike)
    } else if via_uia && c.uia_dialog_like_only && f.dialog_like == Some(false) {
        Step::Skip(Reason::NotDialogLike)
    } else if c.exclude_titles.len() > 0 && f.title is None {
        Step::Ask(Question::Title)
    } else if c.exclude_titles.len() > 0 && title_excluded(f.title.unwrap()@, c.exclude_titles) {
        Step::Skip(Reason::ExcludedTitle)
    } else if c.exclude_processes.len() > 0 && f.process is None {
        Step::Ask(Question::Process)
    } else if c.exclude_processes.len() > 0 && process_excluded(
        match f.process.unwrap() { Some(e) => Some(e@), None => None },
        c.exclude_processes,
    ) {
        Step::Skip(Reason::ExcludedProcess)
    } else if c.skip_file_dialogs && f.file_dialog is None {
        Step::Ask(Question::FileDialog)
    } else if c.skip_file_dialogs && f.file_dialog == Some(true) {
        Step::Skip(Reason::FileDialog)
    } else if c.skip_progress_dialogs && f.progress_bar is None {
        Step::Ask(Question::ProgressBar)
    } else if c.skip_progress_dialogs && f.progress_bar == Some(true) {
        Step::Skip(Reason::ProgressBar)
    } else {
        button_step(c, f)
    }
}

/// Answers given later never change a verdict already reached: the verdict
/// depends only on the answers to the questions actually asked.
pub proof fn lemma_verdict_stable(c: Settings, via_uia: bool, target: usize, p: PendingFacts, a: PendingFacts)
    requires
        extends(p, a),
        !(pending_step(c, via_uia, target, p) is Ask),
    ensures
        pending_step(c, via_uia, target, a) == pending_step(c, via_uia, target, p),
{
}

/// Once every question is answered there is a verdict.
pub proof fn lemma_verdict_reached(c: Settings, via_uia: bool, target: usize, a: PendingFacts)
    requires
        all_known(a),
    ensures
        !(pending_step(c, via_uia, target, a) is Ask),
{
}

/// A question is asked only while it is unanswered, so answering the
/// questions in turn reaches a verdict.
pub proof fn lemma_asks_unanswered(c: Settings, via_uia: bool, target: usize, f: PendingFacts)
    ensures
        pending_step(c, via_uia, target, f) matches Step::Ask(q) ==> !answered(f, q),
{
}

/// The cursor is sent only to a dialog that passed every check switched on:
/// watching enabled, the window open, not minimized, in front when required,
/// shaped like a dialog when required, its title and executable not excluded,
/// not a file picker when those are skipped, without a progress bar when those
/// are skipped, and the target point on a monitor. In particular a file picker
/// is never moved to while file pickers are skipped.
pub proof fn lemma_move_passes_checks(c: Settings, via_uia: bool, target: usize, f: PendingFacts)
    ensures
        pending_step(c, via_uia, target, f) is Move ==> {
            &&& target != 0 && c.enabled
            &&& f.alive == Some(true) && f.minimized == Some(false)
            &&& c.require_foreground ==> f.foreground == Some(true)
            &&& via_uia && c.uia_dialog_like_only ==> f.dialog_like == Some(true)
            &&& c.exclude_titles.len() > 0 ==> f.title is Some && !title_excluded(f.title.unwrap()@, c.exclude_titles)
            &&& c.skip_file_dialogs ==> f.file_dialog == Some(false)
            &&& c.skip_progress_dialogs ==> f.progress_bar == Some(false)
            &&& f.on_monitor == Some(true)
        },
        c.skip_file_dialogs && f.file_dialog == Some(true) ==> !(pending_step(c, via_uia, target, f) is Move),
        c.skip_progress_dialogs && f.progress_bar == Some(true) ==> !(pending_step(c, via_uia, target, f) is Move),
{
}

/// Once the earlier checks have passed, a file picker is skipped as such while
/// file pickers are skipped.
pub proof fn lemma_file_picker_skipped(c: Settings, via_uia: bool, target: usize, f: PendingFacts)
    requires
        c.skip_file_dialogs,
        f.file_dialog == Some(true),
        !(pending_step(c, via_uia, target, f) is Ask),
        !(pending_step(c, via_uia, target, f) matches Step::Skip(r) && (r == Reason::Disabled
            || r == Reason::Closed || r == Reason::Minimized || r == Reason::NotForeground
            || r == Reason::NotDialogLike || r == Reason::ExcludedTitle || r == Reason::ExcludedProcess)),
    ensures
        pending_step(c, via_uia, target, f) == Step::Skip(Reason::FileDialog),
{
}

/// Whether the question `q` was answered in `f`.
pub open spec fn answered(f: PendingFacts, q: Question) -> bool {
    match q {
        Question::Alive => f.alive is Some,
        Question::Minimized => f.minimized is Some,
        Question::Foreground => f.foreground is Some,
        Question::DialogLike => f.dialog_like is Some,
        Question::Title => f.title is Some,
        Question::Process => f.process is Some,
        Question::FileDialog => f.file_dialog is Some,
        Question::ProgressBar => f.progress_bar is Some,
        Question::OkButton => f.ok_button is Some,
        Question::Browser => f.browser is Some,
        Question::DefaultButton => f.default_button is Some,
        Question::UiaButton => f.uia is Some,
        Question::Cursor => f.cursor is Some,
        Question::OnMonitor => f.on_monitor is Some,
        _ => false,
    }
}

fn title_is_excluded(title: &str, excluded: &Vec<String>) -> (b: bool)
    ensures
        b == title_excluded(title@, crate::config::string_views(excluded@)),
{
    let ghost ev = crate::config::string_views(excluded@);
    let mut i: usize = 0;
    while i < excluded.len()
        invariant
            i <= excluded@.len(),
            ev == crate::config::string_views(excluded@),
            forall|j: int| 0 <= j < i ==> !contains_ignoring_case(title@, #[trigger] ev[j]),
        decreases excluded@.len() - i,
    {
        assert(ev[i as int] == excluded@[i as int]@);
        if contains_ignore_ascii_case(title, excluded[i].as_str()) {
            return true;
        }
        i = i + 1;
    }
    false
}

fn process_is_excluded(exe: &Option<String>, excluded: &Vec<String>) -> (b: bool)
    ensures
        b == process_excluded(match *exe { Some(e) => Some(e@), None => None }, crate::config::string_views(excluded@)),
{
    let e = match exe {
        None => return false,
        Some(e) => chars_of(e.as_str()),
    };
    let ghost ev = crate::config::string_views(excluded@);
    let mut i: usize = 0;
    while i < excluded.len()
        invariant
            i <= excluded@.len(),
            ev == crate::config::string_views(excluded@),
            exe is Some,
            e@ == exe.unwrap()@,
            forall|j: int| 0 <= j < i ==> !eq_ignore_case(#[trigger] ev[j], e@),
        decreases excluded@.len() - i,
    {
        assert(ev[i as int] == excluded@[i as int]@);
        let p = chars_of(excluded[i].as_str());
        if chars_eq_ignore_case(&p, &e) {
            return true;
        }
        i = i + 1;
    }
    false
}

fn found_step(c: &Config, f: &PendingFacts, r: Rect, via: Via) -> (s: Step)
    requires
        extent_fits(r),
    ensures
        s == after_found(c@, *f, r, via),
{
    if c.skip_if_cursor_inside {
        match f.cursor {
            None => return Step::Ask(Question::Cursor),
            Some(Some(q)) => {
                if point_in_rect(&q, &r) {
                    return Step::Skip(Reason::CursorInside);
                }
            },
            Some(None) => {},
        }
    }
    let p = center_of(&r);
    match f.on_monitor {
        None => Step::Ask(Question::OnMonitor),
        Some(false) => Step::Skip(Reason::OffMonitor),
        Some(true) => Step::Move(p, via),
    }
}

/// The next question about the pending dialog `target`, or the verdict
/// (see [`pending_step`]); `via_uia` tells whether it was found through UI
/// Automation.
pub fn next_step(c: &Config, via_uia: bool, target: usize, f: &PendingFacts) -> (s: Step)
    requires
        rects_fit(*f),
    ensures
        s == pending_step(c@, via_uia, target, *f),
{
    if target == 0 || !c.enabled {
        return Step::Skip(Reason::Disabled);
    }
    match f.alive {
        None => return Step::Ask(Question::Alive),
        Some(false) => return Step::Skip(Reason::Closed),
        Some(true) => {},
    }
    match f.minimized {
        None => return Step::Ask(Question::Minimized),
        Some(true) => return Step::Skip(Reason::Minimized),
        Some(false) => {},
    }
    if c.require_foreground {
        match f.foreground {
            None => return Step::Ask(Question::Foreground),
            Some(false) => return Step::Skip(Reason::NotForeground),
            Some(true) => {},
        }
    }
    if via_uia && c.uia_dialog_like_only {
        match f.dialog_like {
            None => return Step::Ask(Question::DialogLike),
            Some(false) => return Step::Skip(Reason::NotDialogLike),
            Some(true) => {},
        }
    }
    if c.exclude_titles.len() > 0 {
        match &f.title {
            None => return Step::Ask(Question::Title),
            Some(t) => {
                if title_is_excluded(t.as_str(), &c.exclude_titles) {
                    return Step::Skip(Reason::ExcludedTitle);
                }
            },
        }
    }
    if c.exclude_processes.len() > 0 {
        match &f.process {
            None => return Step::Ask(Question::Process),
            Some(p) => {
                if process_is_excluded(p, &c.exclude_processes) {
                    return Step::Skip(Reason::ExcludedProcess);
                }
            },
        }
    }
    if c.skip_file_dialogs {
        match f.file_dialog {
            None => return Step::Ask(Question::FileDialog),
            Some(true) => return Step::Skip(Reason::FileDialog),
            Some(false) => {},
        }
    }
    if c.skip_progress_dialogs {
        match f.progress_bar {
            None => return Step::Ask(Question::ProgressBar),
            Some(true) => return Step::Skip(Reason::ProgressBar),
            Some(false) => {},
        }
    }
    match f.ok_button {
        None => return Step::Ask(Question::OkButton),
        Some(Some(r)) => return found_step(c, f, r, Via::Hwnd),
        Some(None) => {},
    }
    if c.follow_dialog_default_button && !c.follow_default_in_browser && f.browser.is_none() {
        return Step::Ask(Question::Browser);
    }
    let try_default = c.follow_dialog_default_button && (c.follow_default_in_browser || f.browser == Some(false));
    if try_default {
        match f.default_button {
            None => return Step::Ask(Question::DefaultButton),
            Some(Some(r)) => return found_step(c, f, r, Via::HwndDefault),
            Some(None) => {},
        }
    }
    if !c.uia_enabled {
        return Step::NotFound;
    }
    match f.uia {
        None => Step::Ask(Question::UiaButton),
        Some((found, progress)) => {
            if c.skip_progress_dialogs && progress {
                Step::Skip(Reason::ProgressBarSeenByUia)
            } else {
                match found {
                    None => Step::NotFound,
                    Some(r) => found_step(c, f, r, Via::Uia),
                }
            }
        },
    }
}

// ---------------------------------------------------------------------------
// The focused button
// ---------------------------------------------------------------------------

/// The button that has the keyboard focus.
pub struct FocusedButton {
    pub name: String,
    pub rect: Rect,
    /// The label is one known to mean OK.
    pub label_matched: bool,
}

/// The answers given so far about the foreground window and its focused button.
pub struct FocusFacts {
    pub title: Option<String>,
    pub process: Option<Option<String>>,
    pub file_dialog: Option<bool>,
    pub progress_bar: Option<bool>,
    /// `Some(None)`: the focus is on no button.
    pub focused: Option<Option<FocusedButton>>,
    pub browser: Option<bool>,
    pub cancel_sibling: Option<bool>,
    pub cursor: Option<Option<Point>>,
    pub on_monitor: Option<bool>,
}

impl FocusFacts {
    /// Nothing known yet.
    pub fn new() -> (f: FocusFacts)
        ensures
            f.title is None && f.process is None && f.file_dialog is None && f.progress_bar is None
                && f.focused is None && f.browser is None && f.cancel_sibling is None && f.cursor is None
                && f.on_monitor is None,
    {
        FocusFacts {
            title: None,
            process: None,
            file_dialog: None,
            progress_bar: None,
            focused: None,
            browser: None,
            cancel_sibling: None,
            cursor: None,
            on_monitor: None,
        }
    }
}

/// The last checks on the focused button at `r`.
pub open spec fn focus_found(c: Settings, f: FocusFacts, r: Rect, via: Via) -> Step {
    let p = Point { x: centre(r).0 as i32, y: centre(r).1 as i32 };
    if c.skip_if_cursor_inside && f.cursor is None {
        Step::Ask(Question::Cursor)
    } else if c.skip_if_cursor_inside && (f.cursor matches Some(Some(q)) && r.left <= q.x < r.right && r.top <= q.y < r.bottom) {
        Step::Skip(Reason::CursorInside)
    } else {
        match f.on_monitor {
            None => Step::Ask(Question::OnMonitor),
            Some(false) => Step::Skip(Reason::OffMonitor),
            Some(true) => Step::Move(p, via),
        }
    }
}

/// The checks on a focus change, in order: the foreground window's title and
/// executable not excluded, not a file picker or a window with a progress bar
/// (when those are skipped), the focus on a button, and that button either
/// labelled OK, or followed as the default button: allowed by the settings
/// (in a browser only when allowed there), not saying cancel, and in a row
/// with a cancel button. Then the cursor not already on it, and its centre on
/// a monitor.
pub open spec fn focus_step(c: Settings, f: FocusFacts) -> Step {
    if c.exclude_titles.len() > 0 && f.title is None {
        Step::Ask(Question::Title)
    } else if c.exclude_titles.len() > 0 && title_excluded(f.title.unwrap()@, c.exclude_titles) {
        Step::Skip(Reason::ExcludedTitle)
    } else if c.exclude_processes.len() > 0 && f.process is None {
        Step::Ask(Question::Process)
    } else if c.exclude_processes.len() > 0 && process_excluded(
        match f.process.unwrap() { Some(e) => Some(e@), None => None },
        c.exclude_processes,
    ) {
        Step::Skip(Reason::ExcludedProcess)
    } else if c.skip_file_dialogs && f.file_dialog is None {
        Step::Ask(Question::FileDialog)
    } else if c.skip_file_dialogs && f.file_dialog == Some(true) {
        Step::Skip(Reason::FileDialog)
    } else if c.skip_progress_dialogs && f.progress_bar is None {
        Step::Ask(Question::ProgressBar)
    } else if c.skip_progress_dialogs && f.progress_bar == Some(true) {
        Step::Skip(Reason::ProgressBar)
    } else {
        match f.focused {
            None => Step::Ask(Question::FocusedButton),
            Some(None) => Step::Skip(Reason::NoFocusedButton),
            Some(Some(b)) => if b.label_matched {
                focus_found(c, f, b.rect, Via::Focus)
            } else if !c.follow_dialog_default_button {
                Step::Skip(Reason::UnknownLabel)
            } else if !c.follow_default_in_browser && f.browser is None {
                Step::Ask(Question::Browser)
            } else if !c.follow_default_in_browser && f.browser == Some(true) {
                Step::Skip(Reason::Browser)
            } else if crate::dialog::cancel_label(b.name@) {
                Step::Skip(Reason::CancelLabel)
            } else if f.cancel_sibling is None {
                Step::Ask(Question::CancelSibling)
            } else if f.cancel_sibling == Some(false) {
                Step::Skip(Reason::NotButtonRow)
            } else {
                focus_found(c, f, b.rect, Via::FocusDefault)
            },
        }
    }
}

/// `a` agrees with every answer given in `p`.
pub open spec fn focus_extends(p: FocusFacts, a: FocusFacts) -> bool {
    &&& p.title is Some ==> a.title is Some && a.title.unwrap()@ == p.title.unwrap()@
    &&& p.process is Some ==> a.process is Some && (a.process.unwrap() is Some <==> p.process.unwrap() is Some)
        && (p.process.unwrap() is Some ==> a.process.unwrap().unwrap()@ == p.process.unwrap().unwrap()@)
    &&& p.file_dialog is Some ==> a.file_dialog == p.file_dialog
    &&& p.progress_bar is Some ==> a.progress_bar == p.progress_bar
    &&& p.focused is Some ==> a.focused is Some && (a.focused.unwrap() is Some <==> p.focused.unwrap() is Some)
        && (p.focused.unwrap() is Some ==> {
            let x = a.focused.unwrap().unwrap();
            let y = p.focused.unwrap().unwrap();
            x.name@ == y.name@ && x.rect == y.rect && x.label_matched == y.label_matched
        })
    &&& p.browser is Some ==> a.browser == p.browser
    &&& p.cancel_sibling is Some ==> a.cancel_sibling == p.cancel_sibling
    &&& p.cursor is Some ==> a.cursor == p.cursor
    &&& p.on_monitor is Some ==> a.on_monitor == p.on_monitor
}

/// On the focus path too, answers given later never change a verdict.
pub proof fn lemma_focus_verdict_stable(c: Settings, p: FocusFacts, a: FocusFacts)
    requires
        focus_extends(p, a),
        !(focus_step(c, p) is Ask),
    ensures
        focus_step(c, a) == focus_step(c, p),
{
}

/// On the focus path too, the cursor is sent only when every check switched
/// on has passed: title and executable not excluded, not a file picker or a
/// window with a progress bar when those are skipped, the focus on a button
/// that either says OK or is followed as a default button that does not say
/// cancel, and the target point on a monitor.
pub proof fn lemma_focus_move_passes_checks(c: Settings, f: FocusFacts)
    ensures
        focus_step(c, f) is Move ==> {
            &&& c.exclude_titles.len() > 0 ==> f.title is Some && !title_excluded(f.title.unwrap()@, c.exclude_titles)
            &&& c.skip_file_dialogs ==> f.file_dialog == Some(false)
            &&& c.skip_progress_dialogs ==> f.progress_bar == Some(false)
            &&& f.focused matches Some(Some(b)) && (b.label_matched || (c.follow_dialog_default_button
                && !crate::dialog::cancel_label(b.name@) && f.cancel_sibling == Some(true)))
            &&& f.on_monitor == Some(true)
        },
        c.skip_file_dialogs && f.file_dialog == Some(true) ==> !(focus_step(c, f) is Move),
{
}

fn focus_found_step(c: &Config, f: &FocusFacts, r: Rect, via: Via) -> (s: Step)
    requires
        extent_fits(r),
    ensures
        s == focus_found(c@, *f, r, via),
{
    if c.skip_if_cursor_inside {
        match f.cursor {
            None => return Step::Ask(Question::Cursor),
            Some(Some(q)) => {
                if point_in_rect(&q, &r) {
                    return Step::Skip(Reason::CursorInside);
                }
            },
            Some(None) => {},
        }
    }
    let p = center_of(&r);
    match f.on_monitor {
        None => Step::Ask(Question::OnMonitor),
        Some(false) => Step::Skip(Reason::OffMonitor),
        Some(true) => Step::Move(p, via),
    }
}

/// The next question on a focus change, or the verdict (see [`focus_step`]).
pub fn next_focus_step(c: &Config, f: &FocusFacts) -> (s: Step)
    requires
        f.focused matches Some(Some(b)) ==> extent_fits(b.rect),
    ensures
        s == focus_step(c@, *f),
{
    if c.exclude_titles.len() > 0 {
        match &f.title {
            None => return Step::Ask(Question::Title),
            Some(t) => {
                if title_is_excluded(t.as_str(), &c.exclude_titles) {
                    return Step::Skip(Reason::ExcludedTitle);
                }
            },
        }
    }
    if c.exclude_processes.len() > 0 {
        match &f.process {
            None => return Step::Ask(Question::Process),
            Some(p) => {
                if process_is_excluded(p, &c.exclude_processes) {
                    return Step::Skip(Reason::ExcludedProcess);
                }
            },
        }
    }
    if c.skip_file_dialogs {
        match f.file_dialog {
            None => return Step::Ask(Question::FileDialog),
            Some(true) => return Step::Skip(Reason::FileDialog),
            Some(false) => {},
        }
    }
    if c.skip_progress_dialogs {
        match f.progress_bar {
            None => return Step::Ask(Question::ProgressBar),
            Some(true) => return Step::Skip(Reason::ProgressBar),
            Some(false) => {},
        }
    }
    let b = match &f.focused {
        None => return Step::Ask(Question::FocusedButton),
        Some(None) => return Step::Skip(Reason::NoFocusedButton),
        Some(Some(b)) => b,
    };
    if b.label_matched {
        return focus_found_step(c, f, b.rect, Via::Focus);
    }
    if !c.follow_dialog_default_button {
        return Step::Skip(Reason::UnknownLabel);
    }
    if !c.follow_default_in_browser {
        match f.browser {
            None => return Step::Ask(Question::Browser),
            Some(true) => return Step::Skip(Reason::Browser),
            Some(false) => {},
        }
    }
    if crate::dialog::is_cancel_label(b.name.as_str()) {
        return Step::Skip(Reason::CancelLabel);
    }
    match f.cancel_sibling {
        None => Step::Ask(Question::CancelSibling),
        Some(false) => Step::Skip(Reason::NotButtonRow),
        Some(true) => focus_found_step(c, f, b.rect, Via::FocusDefault),
    }
}

} // verus!

