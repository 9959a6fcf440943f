//! What is made of the elements that UI Automation reports: which are
//! buttons that can be pressed, which of them is the OK button, and whether a
//! button saying cancel sits next to a given one.
use vstd::prelude::*;
use crate::dialog::{cancel_label, is_cancel_label, label_score, row_inputs_fit, same_button_row, same_row, score_of, views, Rect};
use crate::pending::FocusedButton;

verus! {

/// `UIA_ButtonControlTypeId`.
pub const CONTROL_TYPE_BUTTON: i32 = 50000;
/// `UIA_HyperlinkControlTypeId`; the command links of task dialogs have it.
pub const CONTROL_TYPE_HYPERLINK: i32 = 50005;
/// `UIA_ProgressBarControlTypeId`.
pub const CONTROL_TYPE_PROGRESSBAR: i32 = 50012;
/// At most this many names of seen buttons are kept for the log.
pub const MAX_SEEN: usize = 30;

/// The properties of one element, each `None` when it could not be read.
pub struct ElementFacts {
    pub control_type: Option<i32>,
    pub offscreen: Option<bool>,
    pub enabled: Option<bool>,
    pub name: Option<String>,
    pub rect: Option<Rect>,
}

/// A button that can be pressed.
pub struct ButtonInfo {
    pub name: String,
    pub rect: Rect,
}

/// What a scan noticed besides buttons.
pub struct ScanInfo {
    /// The names of the pressable elements seen (for the log), without repeats.
    pub seen: Vec<String>,
    /// A visible progress bar was seen.
    pub progress: bool,
}

impl ScanInfo {
    /// Nothing seen yet.
    pub fn new() -> (s: ScanInfo)
        ensures
            s.seen@.len() == 0 && !s.progress,
    {
        ScanInfo { seen: Vec::new(), progress: false }
    }
}

/// The names seen, as character sequences.
pub open spec fn seen_names(s: ScanInfo) -> Seq<Seq<char>> {
    views(s.seen@)
}

/// The element is visible unless it says it is off screen.
pub open spec fn element_visible(e: ElementFacts) -> bool {
    !(e.offscreen == Some(true))
}

/// A pressable button: a button or hyperlink, enabled, visible, with a name and
/// a rectangle that is not empty.
pub open spec fn pressable(e: ElementFacts) -> bool {
    &&& e.control_type matches Some(t) && (t == CONTROL_TYPE_BUTTON || t == CONTROL_TYPE_HYPERLINK)
    &&& e.enabled == Some(true)
    &&& element_visible(e)
    &&& e.name matches Some(n) && n@.len() > 0
    &&& e.rect matches Some(r) && r.right > r.left && r.bottom > r.top
}

/// A named, enabled, visible button or hyperlink: its name is noted even when
/// its rectangle cannot be read.
pub open spec fn named_button(e: ElementFacts) -> bool {
    &&& e.control_type matches Some(t) && (t == CONTROL_TYPE_BUTTON || t == CONTROL_TYPE_HYPERLINK)
    &&& e.enabled == Some(true)
    &&& element_visible(e)
    &&& e.name matches Some(n) && n@.len() > 0
}

fn contains_name(v: &Vec<String>, name: &str) -> (b: bool)
    ensures
        b == views(v@).contains(name@),
{
    let ghost vv = views(v@);
    let mut i: usize = 0;
    while i < v.len()
        invariant
            i <= v@.len(),
            vv == views(v@),
            forall|j: int| 0 <= j < i ==> vv[j] != name@,
        decreases v@.len() - i,
    {
        assert(vv[i as int] == v@[i as int]@);
        let a = crate::text::chars_of(v[i].as_str());
        let b = crate::text::chars_of(name);
        if crate::text::chars_eq(&a, &b) {
            assert(vv[i as int] == name@);
            return true;
        }
        i = i + 1;
    }
    false
}

/// Reads one element: a pressable button comes back as such. On the way a
/// visible progress bar is noted, and so is the name of a named button
/// (when fewer than [`MAX_SEEN`] are noted and it is not noted yet).
pub fn read_button(e: ElementFacts, info: &mut ScanInfo) -> (b: Option<ButtonInfo>)
    ensures
        b is Some <==> pressable(e),
        b matches Some(x) ==> e.name matches Some(n) && x.name@ == n@ && e.rect == Some(x.rect),
        final(info).progress == (old(info).progress || (e.control_type == Some(CONTROL_TYPE_PROGRESSBAR) && element_visible(e))),
        named_button(e) && old(info).seen@.len() < MAX_SEEN && !seen_names(*old(info)).contains(e.name.unwrap()@)
            ==> seen_names(*final(info)) == seen_names(*old(info)).push(e.name.unwrap()@),
        !(named_button(e) && old(info).seen@.len() < MAX_SEEN && !seen_names(*old(info)).contains(e.name.unwrap()@))
            ==> seen_names(*final(info)) == seen_names(*old(info)),
{
    let t = match e.control_type {
        None => return None,
        Some(t) => t,
    };
    let visible = !(e.offscreen == Some(true));
    if t == CONTROL_TYPE_PROGRESSBAR {
        if visible {
            info.progress = true;
        }
        return None;
    }
    if t != CONTROL_TYPE_BUTTON && t != CONTROL_TYPE_HYPERLINK {
        return None;
    }
    if e.enabled != Some(true) || !visible {
        return None;
    }
    let name = match e.name {
        None => return None,
        Some(n) => n,
    };
    if name.as_str().is_empty() {
        return None;
    }
    if info.seen.len() < MAX_SEEN && !contains_name(&info.seen, name.as_str()) {
        let ghost before = info.seen@;
        info.seen.push(name.clone());
        assert(views(info.seen@) =~= views(before).push(name@));
    }
    let r = match e.rect {
        None => return None,
        Some(r) => r,
    };
    if r.right <= r.left || r.bottom <= r.top {
        return None;
    }
    Some(ButtonInfo { name, rect: r })
}

/// The OK button that a scan found: where it is and what it says.
pub struct Found {
    pub rect: Rect,
    pub name: String,
}

/// Where among `buttons` the OK button stands: the one with the highest label
/// score, the first of them on a tie; `None` when no label scores.
fn best_button(buttons: &[ButtonInfo], extra: &[String]) -> (r: Option<usize>)
    ensures
        r is None <==> forall|j: int| 0 <= j < buttons@.len() ==> score_of((#[trigger] buttons@[j]).name@, views(extra@)) <= 0,
        r matches Some(i) ==> {
            &&& i < buttons@.len()
            &&& score_of(buttons@[i as int].name@, views(extra@)) > 0
            &&& forall|j: int| 0 <= j < buttons@.len() ==> score_of((#[trigger] buttons@[j]).name@, views(extra@))
                <= score_of(buttons@[i as int].name@, views(extra@))
            &&& forall|j: int| 0 <= j < i ==> score_of((#[trigger] buttons@[j]).name@, views(extra@))
                < score_of(buttons@[i as int].name@, views(extra@))
        },
{
    let ghost ex = views(extra@);
    let mut best: Option<(i32, usize)> = None;
    let mut k: usize = 0;
    while k < buttons.len()
        invariant
            k <= buttons@.len(),
            ex == views(extra@),
            best is None ==> forall|j: int| 0 <= j < k ==> score_of((#[trigger] buttons@[j]).name@, ex) <= 0,
            best matches Some(b) ==> {
                &&& b.1 < k
                &&& b.0 == score_of(buttons@[b.1 as int].name@, ex)
                &&& b.0 > 0
                &&& forall|j: int| 0 <= j < k ==> score_of((#[trigger] buttons@[j]).name@, ex) <= b.0
                &&& forall|j: int| 0 <= j < b.1 ==> score_of((#[trigger] buttons@[j]).name@, ex) < b.0
            },
        decreases buttons@.len() - k,
    {
        let score = label_score(buttons[k].name.as_str(), extra);
        if score > 0 {
            match best {
                None => {
                    best = Some((score, k));
                },
                Some((s, _)) => {
                    if score > s {
                        best = Some((score, k));
                    }
                },
            }
        }
        k = k + 1;
    }
    match best {
        None => None,
        Some((_, i)) => Some(i),
    }
}

/// The OK button among the buttons found: the one with the highest label
/// score, the first of them on a tie; `None` when no label scores.
pub fn find_ok_button(buttons: &[ButtonInfo], extra: &[String]) -> (r: Option<Found>)
    ensures
        r is None <==> forall|j: int| 0 <= j < buttons@.len() ==> score_of((#[trigger] buttons@[j]).name@, views(extra@)) <= 0,
        r matches Some(f) ==> exists|i: int| {
            &&& 0 <= i < buttons@.len()
            &&& f.name@ == buttons@[i].name@
            &&& f.rect == buttons@[i].rect
            &&& score_of(buttons@[i].name@, views(extra@)) > 0
            &&& forall|j: int| 0 <= j < buttons@.len() ==> score_of((#[trigger] buttons@[j]).name@, views(extra@))
                <= score_of(buttons@[i].name@, views(extra@))
            &&& forall|j: int| 0 <= j < i ==> score_of((#[trigger] buttons@[j]).name@, views(extra@))
                < score_of(buttons@[i].name@, views(extra@))
        },
{
    match best_button(buttons, extra) {
        None => None,
        Some(i) => {
            let f = Found { rect: buttons[i].rect, name: buttons[i].name.clone() };
            assert(f.name@ == buttons@[i as int].name@);
            Some(f)
        },
    }
}

/// Whether a button saying cancel sits in the same row or stack as the
/// focused button at `focused`; `scale` is the display scale in percent.
pub fn has_cancel_sibling(buttons: &[ButtonInfo], focused: &Rect, scale: i32) -> (b: bool)
    requires
        forall|j: int| 0 <= j < buttons@.len() && cancel_label((#[trigger] buttons@[j]).name@) ==> row_inputs_fit(buttons@[j].rect, *focused, scale),
    ensures
        b == exists|j: int| 0 <= j < buttons@.len() && cancel_label((#[trigger] buttons@[j]).name@)
            && same_row(buttons@[j].rect, *focused, scale as int),
{
    let mut k: usize = 0;
    while k < buttons.len()
        invariant
            k <= buttons@.len(),
            forall|j: int| 0 <= j < buttons@.len() && cancel_label((#[trigger] buttons@[j]).name@) ==> row_inputs_fit(buttons@[j].rect, *focused, scale),
            forall|j: int| 0 <= j < k ==> !(cancel_label((#[trigger] buttons@[j]).name@)
                && same_row(buttons@[j].rect, *focused, scale as int)),
        decreases buttons@.len() - k,
    {
        let b = &buttons[k];
        if is_cancel_label(b.name.as_str()) {
            assert(row_inputs_fit(b.rect, *focused, scale));
            if same_button_row(&b.rect, focused, scale) {
                return true;
            }
        }
        k = k + 1;
    }
    false
}

/// The focused element as a focused button: `None` unless it is a pressable
/// button; its label matched when it scores as OK.
pub fn focused_button(e: ElementFacts, extra: &[String]) -> (f: Option<FocusedButton>)
    ensures
        f is Some <==> pressable(e),
        f matches Some(b) ==> e.name matches Some(n) && b.name@ == n@ && e.rect == Some(b.rect)
            && b.label_matched == (score_of(n@, views(extra@)) > 0),
{
    let mut info = ScanInfo::new();
    let b = match read_button(e, &mut info) {
        None => return None,
        Some(b) => b,
    };
    let matched = label_score(b.name.as_str(), extra) > 0;
    Some(FocusedButton { name: b.name, rect: b.rect, label_matched: matched })
}

} // verus!
