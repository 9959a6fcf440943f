//! The decisions of the resident monitor: which window events lead to a
//! cursor move, how repeated events are suppressed, and when a move is made.
//!
//! The caller observes the window system and the clock and hands the facts in;
//! times are milliseconds of a monotonic clock.
use vstd::prelude::*;
use crate::dialog::Point;
use crate::config::Flags;

verus! {

/// Events for the same window within this many milliseconds are one event.
pub const DEDUP_WINDOW_MS: u64 = 1500;
/// A window is scanned with UI Automation at most once in this many milliseconds.
pub const UIA_THROTTLE_MS: u64 = 600;
/// The cursor is not sent to the same spot of the same window twice within this
/// many milliseconds.
pub const MOVE_DEDUP_WINDOW_MS: u64 = 2500;
/// Focus changes are looked at no more often than this.
pub const FOCUS_THROTTLE_MS: u64 = 200;
/// At most this many recent windows and handled windows are remembered.
pub const MAX_REMEMBERED: usize = 64;
/// Registering the tray icon is retried this many times.
pub const TRAY_RETRY_LIMIT: u32 = 20;

/// The time from `then` to `now`, 0 when `then` lies in the future
/// (`Instant::duration_since`).
pub open spec fn elapsed(now: u64, then: u64) -> int {
    if now >= then { now - then } else { 0 }
}

/// Filtering a list of timed entries extended by one entry.
pub proof fn lemma_filter_push_timed(s: Seq<(usize, u64)>, p: spec_fn((usize, u64)) -> bool, e: (usize, u64))
    ensures
        s.push(e).filter(p) == (if p(e) { s.filter(p).push(e) } else { s.filter(p) }),
{
    reveal_with_fuel(Seq::<(usize, u64)>::filter, 1);
    assert(s.push(e).drop_last() =~= s);
}

/// Filtering a list of windows extended by one window.
pub proof fn lemma_filter_push_window(s: Seq<usize>, p: spec_fn(usize) -> bool, e: usize)
    ensures
        s.push(e).filter(p) == (if p(e) { s.filter(p).push(e) } else { s.filter(p) }),
{
    reveal_with_fuel(Seq::<usize>::filter, 1);
    assert(s.push(e).drop_last() =~= s);
}

/// Entries seen within the last [`DEDUP_WINDOW_MS`] before `now`.
pub open spec fn fresh(now: u64) -> spec_fn((usize, u64)) -> bool {
    |e: (usize, u64)| elapsed(now, e.1) < DEDUP_WINDOW_MS
}

/// Windows that are not among `closed`.
pub open spec fn still_open(closed: Seq<usize>) -> spec_fn(usize) -> bool {
    |h: usize| !closed.contains(h)
}

/// `subject` was seen within the last [`DEDUP_WINDOW_MS`] before `now`
/// according to the timed list `recent`.
pub open spec fn seen_recently(recent: Seq<(usize, u64)>, subject: usize, now: u64) -> bool {
    let kept = recent.filter(fresh(now));
    exists|i: int| 0 <= i < kept.len() && (#[trigger] kept[i]).0 == subject
}

/// The timed list after `subject` is noted at `now`: entries that are no
/// longer fresh are dropped, and the oldest goes when more than
/// [`MAX_REMEMBERED`] would remain.
pub open spec fn noted(recent: Seq<(usize, u64)>, subject: usize, now: u64) -> Seq<(usize, u64)> {
    let kept = recent.filter(fresh(now));
    if kept.len() + 1 > MAX_REMEMBERED {
        kept.push((subject, now)).drop_first()
    } else {
        kept.push((subject, now))
    }
}

/// The windows moved to after `window` is claimed: those closed are
/// forgotten, and the oldest goes when more than [`MAX_REMEMBERED`] would remain.
pub open spec fn claimed(handled: Seq<usize>, window: usize, closed: Seq<usize>) -> Seq<usize> {
    let alive = handled.filter(still_open(closed));
    if alive.len() + 1 > MAX_REMEMBERED {
        alive.push(window).drop_first()
    } else {
        alive.push(window)
    }
}

/// A dialog noted at `t1` is a repeat at any later `t2` within
/// [`DEDUP_WINDOW_MS`]: the same dialog is not handled twice in that time.
pub proof fn lemma_noted_is_seen(recent: Seq<(usize, u64)>, subject: usize, t1: u64, t2: u64)
    requires
        t1 <= t2,
        t2 - t1 < DEDUP_WINDOW_MS,
    ensures
        seen_recently(noted(recent, subject, t1), subject, t2),
{
    let kept = recent.filter(fresh(t1));
    let e = (subject, t1);
    let q = if kept.len() + 1 > MAX_REMEMBERED { kept.drop_first() } else { kept };
    assert(noted(recent, subject, t1) =~= q.push(e));
    lemma_filter_push_timed(q, fresh(t2), e);
    let k2 = q.push(e).filter(fresh(t2));
    assert(fresh(t2)(e));
    assert(k2 == q.filter(fresh(t2)).push(e));
    assert(k2[k2.len() - 1].0 == subject);
}

/// A window claimed once is not claimed again while it stays open: a dialog is
/// moved to at most once.
pub proof fn lemma_claimed_stays(handled: Seq<usize>, window: usize, closed1: Seq<usize>, closed2: Seq<usize>)
    requires
        !closed2.contains(window),
    ensures
        claimed(handled, window, closed1).filter(still_open(closed2)).contains(window),
{
    let alive = handled.filter(still_open(closed1));
    let q = if alive.len() + 1 > MAX_REMEMBERED { alive.drop_first() } else { alive };
    assert(claimed(handled, window, closed1) =~= q.push(window));
    lemma_filter_push_window(q, still_open(closed2), window);
    let k2 = q.push(window).filter(still_open(closed2));
    assert(still_open(closed2)(window));
    assert(k2 == q.filter(still_open(closed2)).push(window));
    assert(k2[k2.len() - 1] == window);
}

/// How a pending dialog was found.
#[derive(Clone, Copy, PartialEq, Eq, Structural, Debug)]
pub enum PendingKind {
    /// A classic dialog window.
    Window,
    /// A window whose buttons are looked for with UI Automation.
    Uia,
}

/// The state of the monitor between events.
pub struct Monitor {
    /// The window to handle when the delay runs out (0 = none).
    pub pending: usize,
    pub pending_kind: PendingKind,
    /// When a focus change was last looked at.
    pub last_focus: Option<u64>,
    /// Windows seen recently, with the time they were seen.
    pub recent: Vec<(usize, u64)>,
    /// Let the next dialog of this process through once.
    pub allow_own_once: bool,
    /// How many nested places currently suppress this process's own dialogs.
    pub suppress_own: u32,
    /// The window last scanned with UI Automation, and when.
    pub last_uia: Option<(usize, u64)>,
    /// The window, point and time of the last move.
    pub last_move: Option<(usize, Point, u64)>,
    /// Windows the cursor was already moved to.
    pub handled: Vec<usize>,
    /// The window whose focused button was last followed.
    pub focus_handled: Option<usize>,
    /// Failed attempts to register the tray icon.
    pub tray_retries: u32,
}

/// The fields that handling a new dialog leaves alone are the same in `a` and `b`.
pub open spec fn same_bookkeeping(a: Monitor, b: Monitor) -> bool {
    &&& a.last_focus == b.last_focus
    &&& a.suppress_own == b.suppress_own
    &&& a.last_uia == b.last_uia
    &&& a.last_move == b.last_move
    &&& a.handled == b.handled
    &&& a.focus_handled == b.focus_handled
    &&& a.tray_retries == b.tray_retries
}

impl Monitor {
    /// The state at start: nothing pending, nothing remembered.
    pub fn new() -> (m: Monitor)
        ensures
            m.pending == 0,
            m.pending_kind == PendingKind::Window,
            m.last_focus is None,
            m.recent@.len() == 0,
            !m.allow_own_once,
            m.suppress_own == 0,
            m.last_uia is None,
            m.last_move is None,
            m.handled@.len() == 0,
            m.focus_handled is None,
            m.tray_retries == 0,
    {
        Monitor {
            pending: 0,
            pending_kind: PendingKind::Window,
            last_focus: None,
            recent: Vec::new(),
            allow_own_once: false,
            suppress_own: 0,
            last_uia: None,
            last_move: None,
            handled: Vec::new(),
            focus_handled: None,
            tray_retries: 0,
        }
    }

    /// Whether a UI Automation scan of `root` was made too recently. When it
    /// was not, the scan is recorded as made now.
    pub fn uia_throttled(&mut self, root: usize, now: u64) -> (b: bool)
        ensures
            b == (old(self).last_uia matches Some(p) && p.0 == root && elapsed(now, p.1) < UIA_THROTTLE_MS),
            b ==> final(self).last_uia == old(self).last_uia,
            !b ==> final(self).last_uia == Some((root, now)),
            final(self).recent == old(self).recent,
            final(self).handled == old(self).handled,
            final(self).pending == old(self).pending,
    {
        if let Some((h, t)) = self.last_uia {
            let e = if now >= t { now - t } else { 0 };
            if h == root && e < UIA_THROTTLE_MS {
                return true;
            }
        }
        self.last_uia = Some((root, now));
        false
    }

    /// Whether a dialog of this very process is to be skipped: unless one was
    /// allowed once (which uses that allowance up), it is skipped when own
    /// dialogs are ignored by the settings or suppressed at the moment.
    pub fn own_dialog_skipped(&mut self, ignore_own: bool) -> (b: bool)
        ensures
            b == (!old(self).allow_own_once && (ignore_own || old(self).suppress_own > 0)),
            !final(self).allow_own_once,
            final(self).suppress_own == old(self).suppress_own,
            final(self).recent == old(self).recent,
            final(self).pending == old(self).pending,
            final(self).pending_kind == old(self).pending_kind,
            same_bookkeeping(*old(self), *final(self)),
    {
        let allowed = self.allow_own_once;
        if allowed {
            self.allow_own_once = false;
        }
        !allowed && (ignore_own || self.suppress_own > 0)
    }

    /// Whether `subject` was seen within the last [`DEDUP_WINDOW_MS`]. Entries
    /// older than that are forgotten first; a window not seen is remembered,
    /// the oldest entry giving way when more than [`MAX_REMEMBERED`] are kept.
    pub fn is_duplicate(&mut self, subject: usize, now: u64) -> (b: bool)
        ensures
            b == seen_recently(old(self).recent@, subject, now),
            b ==> final(self).recent@ == old(self).recent@.filter(fresh(now)),
            !b ==> final(self).recent@ == noted(old(self).recent@, subject, now),
            final(self).recent@.len() <= MAX_REMEMBERED || final(self).recent@.len() <= old(self).recent@.len(),
            final(self).pending == old(self).pending,
            final(self).pending_kind == old(self).pending_kind,
            final(self).allow_own_once == old(self).allow_own_once,
            same_bookkeeping(*old(self), *final(self)),
    {
        let ghost keep = fresh(now);
        let ghost before = self.recent@;
        assert(before.take(0) =~= Seq::<(usize, u64)>::empty());
        proof { reveal_with_fuel(Seq::<(usize, u64)>::filter, 1); }
        let mut kept: Vec<(usize, u64)> = Vec::new();
        let mut i: usize = 0;
        while i < self.recent.len()
            invariant
                i <= before.len(),
                before == self.recent@,
                keep == fresh(now),
                kept@ == before.take(i as int).filter(keep),
            decreases before.len() - i,
        {
            let e = self.recent[i];
            proof {
                assert(before.take(i + 1).drop_last() =~= before.take(i as int));
                assert(before.take(i + 1).last() == e);
                lemma_filter_push_timed(before.take(i as int), keep, e);
                assert(before.take(i as int).push(e) =~= before.take(i + 1));
            }
            let age = if now >= e.1 { now - e.1 } else { 0 };
            assert(keep(e) == (age < DEDUP_WINDOW_MS));
            if age < DEDUP_WINDOW_MS {
                kept.push(e);
            }
            i = i + 1;
        }
        assert(before.take(before.len() as int) =~= before);
        let mut found = false;
        let mut j: usize = 0;
        while j < kept.len()
            invariant
                j <= kept@.len(),
                found == exists|k: int| 0 <= k < j && (#[trigger] kept@[k]).0 == subject,
            decreases kept@.len() - j,
        {
            if kept[j].0 == subject {
                found = true;
            }
            j = j + 1;
        }
        if found {
            self.recent = kept;
            return true;
        }
        kept.push((subject, now));
        if kept.len() > MAX_REMEMBERED {
            kept.remove(0);
        }
        self.recent = kept;
        false
    }

    /// Makes `subject` the pending window.
    pub fn schedule(&mut self, subject: usize, kind: PendingKind)
        ensures
            final(self).pending == subject,
            final(self).pending_kind == kind,
            final(self).recent == old(self).recent,
            final(self).last_move == old(self).last_move,
            final(self).handled == old(self).handled,
            final(self).allow_own_once == old(self).allow_own_once,
            same_bookkeeping(*old(self), *final(self)),
    {
        self.pending = subject;
        self.pending_kind = kind;
    }

    /// After `target` was handled: it is no longer pending, unless another
    /// window has become pending meanwhile.
    pub fn finish_pending(&mut self, target: usize)
        ensures
            old(self).pending == target ==> final(self).pending == 0 && final(self).pending_kind == PendingKind::Window,
            old(self).pending != target ==> final(self).pending == old(self).pending && final(self).pending_kind == old(self).pending_kind,
            final(self).recent == old(self).recent,
            final(self).handled == old(self).handled,
    {
        if self.pending == target {
            self.pending = 0;
            self.pending_kind = PendingKind::Window;
        }
    }

    /// Whether a focus change comes too soon after the last one looked at;
    /// when it does not, it is recorded as looked at now.
    pub fn focus_throttled(&mut self, now: u64) -> (b: bool)
        ensures
            b == (old(self).last_focus matches Some(t) && elapsed(now, t) < FOCUS_THROTTLE_MS),
            b ==> final(self).last_focus == old(self).last_focus,
            !b ==> final(self).last_focus == Some(now),
            final(self).pending == old(self).pending,
    {
        if let Some(t) = self.last_focus {
            let e = if now >= t { now - t } else { 0 };
            if e < FOCUS_THROTTLE_MS {
                return true;
            }
        }
        self.last_focus = Some(now);
        false
    }

    /// Whether the cursor was sent to `point` of `window` within the last
    /// [`MOVE_DEDUP_WINDOW_MS`].
    pub fn recently_moved(&self, window: usize, point: Point, now: u64) -> (b: bool)
        ensures
            b == (self.last_move matches Some(m) && m.0 == window && m.1 == point && elapsed(now, m.2) < MOVE_DEDUP_WINDOW_MS),
    {
        match self.last_move {
            Some((w, p, t)) => {
                let e = if now >= t { now - t } else { 0 };
                w == window && p.x == point.x && p.y == point.y && e < MOVE_DEDUP_WINDOW_MS
            },
            None => false,
        }
    }

    /// Records a move to `point` of `window` made now.
    pub fn record_move(&mut self, window: usize, point: Point, now: u64)
        ensures
            final(self).last_move == Some((window, point, now)),
            final(self).handled == old(self).handled,
            final(self).pending == old(self).pending,
            final(self).focus_handled == old(self).focus_handled,
    {
        self.last_move = Some((window, point, now));
    }

    /// Claims the one move allowed per dialog for `window`. Without
    /// `once_per_dialog` every move is allowed. Otherwise the windows in
    /// `closed` (those that no longer exist) are forgotten first; the claim
    /// fails when `window` was already handled and succeeds, remembering it,
    /// otherwise (the oldest entry giving way beyond [`MAX_REMEMBERED`]).
    pub fn claim_move(&mut self, window: usize, once_per_dialog: bool, closed: &[usize]) -> (b: bool)
        ensures
            !once_per_dialog ==> b && final(self).handled == old(self).handled,
            once_per_dialog ==> b == !old(self).handled@.filter(still_open(closed@)).contains(window),
            once_per_dialog && !b ==> final(self).handled@ == old(self).handled@.filter(still_open(closed@)),
            once_per_dialog && b ==> final(self).handled@ == claimed(old(self).handled@, window, closed@),
            final(self).pending == old(self).pending,
            final(self).last_move == old(self).last_move,
    {
        if !once_per_dialog {
            return true;
        }
        let ghost keep = still_open(closed@);
        let ghost before = self.handled@;
        assert(before.take(0) =~= Seq::<usize>::empty());
        proof { reveal_with_fuel(Seq::<usize>::filter, 1); }
        let mut alive: Vec<usize> = Vec::new();
        let mut i: usize = 0;
        while i < self.handled.len()
            invariant
                i <= before.len(),
                before == self.handled@,
                keep == still_open(closed@),
                alive@ == before.take(i as int).filter(keep),
            decreases before.len() - i,
        {
            let h = self.handled[i];
            proof {
                lemma_filter_push_window(before.take(i as int), keep, h);
                assert(before.take(i as int).push(h) =~= before.take(i + 1));
            }
            let mut gone = false;
            let mut k: usize = 0;
            while k < closed.len()
                invariant
                    k <= closed@.len(),
                    gone == exists|q: int| 0 <= q < k && closed@[q] == h,
                decreases closed@.len() - k,
            {
                if closed[k] == h {
                    gone = true;
                }
                k = k + 1;
            }
            assert(gone == closed@.contains(h));
            assert(keep(h) == !gone);
            if !gone {
                alive.push(h);
            }
            i = i + 1;
        }
        assert(before.take(before.len() as int) =~= before);
        let mut seen = false;
        let mut j: usize = 0;
        while j < alive.len()
            invariant
                j <= alive@.len(),
                seen == exists|q: int| 0 <= q < j && alive@[q] == window,
            decreases alive@.len() - j,
        {
            if alive[j] == window {
                seen = true;
            }
            j = j + 1;
        }
        if seen {
            self.handled = alive;
            return false;
        }
        alive.push(window);
        if alive.len() > MAX_REMEMBERED {
            alive.remove(0);
        }
        self.handled = alive;
        true
    }

    /// Claims the one move allowed while `window` keeps the focus on a button:
    /// without `once_per_dialog` always, otherwise only when that window was
    /// not the last one followed (and it is recorded as followed).
    pub fn claim_focus(&mut self, window: usize, once_per_dialog: bool) -> (b: bool)
        ensures
            b == (!once_per_dialog || old(self).focus_handled != Some(window)),
            once_per_dialog ==> final(self).focus_handled == Some(window),
            !once_per_dialog ==> final(self).focus_handled == old(self).focus_handled,
            final(self).last_move == old(self).last_move,
    {
        if !once_per_dialog {
            return true;
        }
        if self.focus_handled == Some(window) {
            return false;
        }
        self.focus_handled = Some(window);
        true
    }

    /// The focus has left any button: the next dialog in the same window is
    /// followed again.
    pub fn forget_focus(&mut self)
        ensures
            final(self).focus_handled is None,
            final(self).last_move == old(self).last_move,
    {
        self.focus_handled = None;
    }

    /// A nested place starts suppressing this process's own dialogs.
    pub fn begin_suppress(&mut self)
        ensures
            final(self).suppress_own == (if old(self).suppress_own == u32::MAX { u32::MAX as int } else { old(self).suppress_own + 1 }),
    {
        self.suppress_own = self.suppress_own.saturating_add(1);
    }

    /// A nested place stops suppressing this process's own dialogs.
    pub fn end_suppress(&mut self)
        ensures
            final(self).suppress_own == (if old(self).suppress_own == 0 { 0 } else { old(self).suppress_own - 1 }),
    {
        self.suppress_own = self.suppress_own.saturating_sub(1);
    }

    /// The tray icon was registered. Returns whether earlier attempts had
    /// failed (worth a note in the log); the count of failures starts over.
    pub fn tray_registered(&mut self) -> (had_failed: bool)
        ensures
            had_failed == (old(self).tray_retries > 0),
            final(self).tray_retries == 0,
    {
        let had = self.tray_retries > 0;
        self.tray_retries = 0;
        had
    }

    /// Registering the tray icon failed once more. Returns the number of the
    /// attempt that failed when another is due, or `None` when retrying stops
    /// (after [`TRAY_RETRY_LIMIT`] retries).
    pub fn tray_failed(&mut self) -> (next: Option<u32>)
        ensures
            final(self).tray_retries == (if old(self).tray_retries == u32::MAX { u32::MAX as int } else { old(self).tray_retries + 1 }),
            next is None <==> final(self).tray_retries > TRAY_RETRY_LIMIT,
            next matches Some(n) ==> n == final(self).tray_retries,
    {
        self.tray_retries = self.tray_retries.saturating_add(1);
        if self.tray_retries > TRAY_RETRY_LIMIT {
            None
        } else {
            Some(self.tray_retries)
        }
    }
}

/// What to make of a window that appeared or changed.
#[derive(Clone, Copy, PartialEq, Eq, Structural, Debug)]
pub enum Route {
    /// Watching is off.
    Disabled,
    /// A classic dialog: handle the window itself.
    Classic,
    /// Not a classic dialog, but its top-level window may hold one that UI
    /// Automation can see.
    ThroughUia,
    /// Neither.
    Uninteresting,
}

/// The route of a window event: nothing when watching is off; a classic
/// dialog as such; anything else through UI Automation when that is enabled.
pub fn dialog_route(flags: &Flags, classic: bool) -> (r: Route)
    ensures
        r == (if !flags.enabled { Route::Disabled } else if classic { Route::Classic } else if flags.uia_enabled {
            Route::ThroughUia
        } else {
            Route::Uninteresting
        }),
{
    if !flags.enabled {
        Route::Disabled
    } else if classic {
        Route::Classic
    } else if flags.uia_enabled {
        Route::ThroughUia
    } else {
        Route::Uninteresting
    }
}

/// What is known about the top-level window of an event's window.
pub struct UiaFacts {
    /// The event's window is one of this program's own arrival marks.
    pub is_ripple: bool,
    /// The top-level ancestor (0 when there is none).
    pub root: usize,
    /// This program's own message window.
    pub self_window: usize,
    pub root_visible: bool,
    /// Whether the root is shaped like a dialog; needed only when scans are
    /// limited to such windows.
    pub dialog_like: Option<bool>,
    /// The root is the foreground window or owned by it.
    pub in_front: bool,
}

/// Why a window is not scanned with UI Automation.
#[derive(Clone, Copy, PartialEq, Eq, Structural, Debug)]
pub enum UiaVerdict {
    /// Quietly ignored: a ripple, no root, this program's own window, or invisible.
    Ignored,
    NoRoot,
    NotDialogLike,
    NotInFront,
    Throttled,
    /// Scan this root window.
    Scan(usize),
}

impl Monitor {
    /// Whether the top-level window of an event is worth a UI Automation scan:
    /// not a ripple, existing, not this program's own window, visible, shaped
    /// like a dialog (when required), in front or owned by the window in
    /// front, and not scanned within the last [`UIA_THROTTLE_MS`].
    pub fn uia_candidate(&mut self, flags: &Flags, f: &UiaFacts, now: u64) -> (v: UiaVerdict)
        requires
            flags.uia_dialog_like_only ==> f.dialog_like is Some,
        ensures
            ({
                let pre = if f.is_ripple {
                    Some(UiaVerdict::Ignored)
                } else if f.root == 0 {
                    Some(UiaVerdict::NoRoot)
                } else if f.root == f.self_window || !f.root_visible {
                    Some(UiaVerdict::Ignored)
                } else if flags.uia_dialog_like_only && f.dialog_like == Some(false) {
                    Some(UiaVerdict::NotDialogLike)
                } else if !f.in_front {
                    Some(UiaVerdict::NotInFront)
                } else {
                    None::<UiaVerdict>
                };
                match pre {
                    Some(r) => v == r && final(self).last_uia == old(self).last_uia,
                    None => {
                        let throttled = old(self).last_uia matches Some(p) && p.0 == f.root && elapsed(now, p.1) < UIA_THROTTLE_MS;
                        &&& v == (if throttled { UiaVerdict::Throttled } else { UiaVerdict::Scan(f.root) })
                        &&& !throttled ==> final(self).last_uia == Some((f.root, now))
                        &&& throttled ==> final(self).last_uia == old(self).last_uia
                    },
                }
            }),
            final(self).recent == old(self).recent,
            final(self).pending == old(self).pending,
    {
        if f.is_ripple {
            return UiaVerdict::Ignored;
        }
        if f.root == 0 {
            return UiaVerdict::NoRoot;
        }
        if f.root == f.self_window || !f.root_visible {
            return UiaVerdict::Ignored;
        }
        if flags.uia_dialog_like_only && f.dialog_like == Some(false) {
            return UiaVerdict::NotDialogLike;
        }
        if !f.in_front {
            return UiaVerdict::NotInFront;
        }
        if self.uia_throttled(f.root, now) {
            UiaVerdict::Throttled
        } else {
            UiaVerdict::Scan(f.root)
        }
    }

    /// Accepts `subject` as the pending dialog: a dialog of this very process
    /// may be skipped (see [`Monitor::own_dialog_skipped`]), and a classic
    /// dialog seen within the last [`DEDUP_WINDOW_MS`] is a repeat. Returns
    /// whether it became pending.
    pub fn accept_dialog(&mut self, flags: &Flags, subject: usize, via_uia: bool, own_process: bool, now: u64) -> (b: bool)
        ensures
            ({
                let skipped = own_process && !old(self).allow_own_once && (flags.ignore_own_process || old(self).suppress_own > 0);
                let repeat = !via_uia && seen_recently(old(self).recent@, subject, now);
                &&& b == (!skipped && !repeat)
                &&& final(self).allow_own_once == (old(self).allow_own_once && !own_process)
                &&& final(self).recent@ == (if skipped || via_uia {
                    old(self).recent@
                } else if repeat {
                    old(self).recent@.filter(fresh(now))
                } else {
                    noted(old(self).recent@, subject, now)
                })
            }),
            b ==> final(self).pending == subject && final(self).pending_kind == (if via_uia { PendingKind::Uia } else { PendingKind::Window }),
            !b ==> final(self).pending == old(self).pending && final(self).pending_kind == old(self).pending_kind,
            same_bookkeeping(*old(self), *final(self)),
    {
        if own_process && self.own_dialog_skipped(flags.ignore_own_process) {
            return false;
        }
        if !via_uia && self.is_duplicate(subject, now) {
            return false;
        }
        self.schedule(subject, if via_uia { PendingKind::Uia } else { PendingKind::Window });
        true
    }
}

/// The timer delay for a setting of `delay_ms`: at least 1 ms, so that the
/// layout of a dialog is settled even with no delay configured.
pub fn timer_delay(delay_ms: u32) -> (d: u32)
    ensures
        d == (if delay_ms < 1 { 1 } else { delay_ms }),
{
    if delay_ms < 1 { 1 } else { delay_ms }
}

} // verus!
