//! The running cursor: which of a theme's six cursors is shown, and the
//! bookkeeping that lets the system cursor always be put back.
use vstd::prelude::*;

verus! {

/// How fast the cursor runs; chooses between a theme's cursors.
#[derive(Clone, Copy, PartialEq, Eq, Structural, Debug)]
pub enum Speed {
    Fast,
    Normal,
    Slow,
}

/// The speed of a run lasting `ms` milliseconds: at most 220 is fast, at
/// most 450 normal, anything longer slow.
pub open spec fn speed_of(ms: u32) -> Speed {
    if ms <= 220 {
        Speed::Fast
    } else if ms <= 450 {
        Speed::Normal
    } else {
        Speed::Slow
    }
}

/// The position of a speed among the three.
pub open spec fn speed_index(s: Speed) -> nat {
    match s {
        Speed::Fast => 0,
        Speed::Normal => 1,
        Speed::Slow => 2,
    }
}

impl Speed {
    /// The speed of a run lasting `ms` milliseconds (see [`speed_of`]).
    pub fn from_duration_ms(ms: u32) -> (s: Speed)
        ensures
            s == speed_of(ms),
    {
        if ms <= 220 {
            Speed::Fast
        } else if ms <= 450 {
            Speed::Normal
        } else {
            Speed::Slow
        }
    }

    /// The suffix of the cursor files for this speed; the normal speed has none.
    pub fn suffix(self) -> (s: &'static str)
        ensures
            s@ == (match self {
                Speed::Fast => "_fast"@,
                Speed::Normal => ""@,
                Speed::Slow => "_slow"@,
            }),
    {
        match self {
            Speed::Fast => "_fast",
            Speed::Normal => "",
            Speed::Slow => "_slow",
        }
    }
}

/// The slot of the cursor for a direction and speed: right-running ones in 0
/// to 2, left-running ones in 3 to 5.
pub fn slot_of(dir_right: bool, speed: Speed) -> (slot: usize)
    ensures
        slot == (if dir_right { 0nat } else { 3nat }) + speed_index(speed),
        slot < 6,
{
    let base: usize = if dir_right { 0 } else { 3 };
    let i: usize = match speed {
        Speed::Fast => 0,
        Speed::Normal => 1,
        Speed::Slow => 2,
    };
    base + i
}

/// A slot whose cursor could not be loaded.
pub const FAILED: usize = usize::MAX;

/// What a slot of the cache holds.
#[derive(Clone, Copy, PartialEq, Eq, Structural, Debug)]
pub enum Cached {
    /// Not tried yet.
    Empty,
    /// Tried, and no cursor could be loaded.
    Failed,
    /// The handle of the loaded cursor.
    Loaded(usize),
}

/// The cursors loaded for a theme and whether one replaces the system cursor.
pub struct CursorState {
    /// The theme the cache belongs to.
    pub theme: Option<String>,
    /// One handle per slot: 0 when not tried, [`FAILED`] when loading failed.
    pub handles: Vec<usize>,
    /// A theme cursor currently replaces the system cursor.
    pub active: bool,
    /// The slot currently shown, or -1.
    pub slot: i8,
}

impl CursorState {
    /// Nothing loaded, nothing replaced.
    pub fn new() -> (c: CursorState)
        ensures
            c.theme is None && c.handles@ == seq![0usize, 0, 0, 0, 0, 0] && !c.active && c.slot == -1,
    {
        CursorState { theme: None, handles: vec![0, 0, 0, 0, 0, 0], active: false, slot: -1 }
    }

    /// Whether a theme cursor replaces the system cursor.
    pub fn is_active(&self) -> (b: bool)
        ensures
            b == self.active,
    {
        self.active
    }

    /// Whether the cursor for `slot` has to be put in place (it is not the one
    /// already shown).
    pub fn needs_apply(&self, slot: usize) -> (b: bool)
        requires
            slot < 6,
        ensures
            b == !(self.active && self.slot == slot),
    {
        !(self.active && self.slot as i64 == slot as i64)
    }

    /// Prepares the cache for `theme`: when it belonged to another theme, it
    /// is emptied and the handles that were loaded are returned, to be
    /// destroyed; otherwise nothing changes and nothing is returned.
    pub fn use_theme(&mut self, theme: &str) -> (old_handles: Vec<usize>)
        requires
            old(self).handles@.len() == 6,
        ensures
            final(self).handles@.len() == 6,
            final(self).theme matches Some(t) && t@ == theme@,
            final(self).active == old(self).active && final(self).slot == old(self).slot,
            (old(self).theme matches Some(t) && t@ == theme@) ==> final(self).handles@ == old(self).handles@ && old_handles@.len() == 0,
            !(old(self).theme matches Some(t) && t@ == theme@) ==> final(self).handles@ == seq![0usize, 0, 0, 0, 0, 0]
                && old_handles@ == old(self).handles@.filter(|h: usize| h != 0 && h != FAILED),
    {
        let same = match &self.theme {
            Some(t) => crate::text::chars_eq(&crate::text::chars_of(t.as_str()), &crate::text::chars_of(theme)),
            None => false,
        };
        if same {
            return Vec::new();
        }
        self.theme = Some(crate::text::string_of(&crate::text::chars_of(theme)));
        let ghost before = self.handles@;
        let mut out: Vec<usize> = Vec::new();
        let mut i: usize = 0;
        assert(before.take(0) =~= Seq::<usize>::empty());
        proof { reveal_with_fuel(Seq::<usize>::filter, 1); }
        while i < 6
            invariant
                i <= 6,
                before.len() == 6,
                self.handles@ == before,
                out@ == before.take(i as int).filter(|h: usize| h != 0 && h != FAILED),
            decreases 6 - i,
        {
            let h = self.handles[i];
            proof {
                crate::monitor::lemma_filter_push_window(before.take(i as int), |h: usize| h != 0 && h != FAILED, h);
                assert(before.take(i as int).push(h) =~= before.take(i + 1));
            }
            if h != 0 && h != FAILED {
                out.push(h);
            }
            i = i + 1;
        }
        assert(before.take(6) =~= before);
        self.handles = vec![0, 0, 0, 0, 0, 0];
        out
    }

    /// What the cache holds for `slot`.
    pub fn cached(&self, slot: usize) -> (c: Cached)
        requires
            slot < self.handles@.len(),
        ensures
            c == (if self.handles@[slot as int] == 0 { Cached::Empty } else if self.handles@[slot as int] == FAILED {
                Cached::Failed
            } else {
                Cached::Loaded(self.handles@[slot as int])
            }),
    {
        let h = self.handles[slot];
        if h == 0 {
            Cached::Empty
        } else if h == FAILED {
            Cached::Failed
        } else {
            Cached::Loaded(h)
        }
    }

    /// Records what loading the cursor for `slot` gave: its handle, or
    /// `None` when no file could be loaded (then the slot is not tried again
    /// for this theme).
    pub fn remember(&mut self, slot: usize, handle: Option<usize>)
        requires
            slot < old(self).handles@.len(),
        ensures
            final(self).handles@ == old(self).handles@.update(slot as int, match handle { Some(h) => h, None => FAILED }),
            final(self).theme == old(self).theme && final(self).active == old(self).active && final(self).slot == old(self).slot,
    {
        let v = match handle {
            Some(h) => h,
            None => FAILED,
        };
        self.handles.set(slot, v);
    }

    /// The cursor for `slot` now replaces the system cursor. Returns whether
    /// this starts a replacement (so that the mark used to restore the cursor
    /// after a crash is to be written).
    pub fn applied(&mut self, slot: usize) -> (started: bool)
        requires
            slot < 6,
        ensures
            started == !old(self).active,
            final(self).active && final(self).slot == slot,
            final(self).handles == old(self).handles && final(self).theme == old(self).theme,
    {
        let started = !self.active;
        self.active = true;
        self.slot = slot as i8;
        started
    }

    /// The system cursor is put back. Returns whether a replacement was in
    /// place (so that the system cursors are to be reloaded and the mark removed).
    pub fn restored(&mut self) -> (was_active: bool)
        ensures
            was_active == old(self).active,
            !final(self).active,
            was_active ==> final(self).slot == -1,
            !was_active ==> final(self).slot == old(self).slot,
            final(self).handles == old(self).handles && final(self).theme == old(self).theme,
    {
        let was = self.active;
        if was {
            self.active = false;
            self.slot = -1;
        }
        was
    }
}

} // verus!
