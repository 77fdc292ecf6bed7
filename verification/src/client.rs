//! The scroll-region part of a panel update in a local terminal client.
//!
//! DECSTBM (`\x1b[r`, `\x1b[t;br`) moves the cursor to (1,1) as a side
//! effect per the VT100 spec, so the scroll region is only changed when
//! there are panels to make room for, or when the last panels went away,
//! and each change is wrapped in a cursor save/restore.
//!
//! Transition table:
//! - no panels → no panels: no scroll region change (avoids cursor jump)
//! - no panels → has panels: set scroll region
//! - has panels → has panels: update scroll region
//! - has panels → no panels: reset scroll region

use vstd::prelude::*;
use crate::text::{decimal, decimal_string, owned, concat3};

verus! {

/// How the scroll region changes.
#[derive(Debug, Clone, Copy, PartialEq, Eq, Structural)]
pub enum ScrollRegionChange {
    /// Leave the scroll region alone.
    Keep,
    /// Confine scrolling to rows `top..=bottom` (counted from one).
    Confine { top: u16, bottom: u16 },
    /// Scroll the whole screen again.
    Reset,
}

/// The change for a panel update: `had_panels` before, `has_panels` after,
/// and the rows left between the panels of the new layout.
pub open spec fn region_change(had_panels: bool, has_panels: bool, top: u16, bottom: u16) -> ScrollRegionChange {
    if has_panels {
        ScrollRegionChange::Confine { top, bottom }
    } else if had_panels {
        ScrollRegionChange::Reset
    } else {
        ScrollRegionChange::Keep
    }
}

/// Decide the scroll-region change of a panel update.
pub fn scroll_region_change(had_panels: bool, has_panels: bool, top: u16, bottom: u16) -> (r: ScrollRegionChange)
    ensures
        r == region_change(had_panels, has_panels, top, bottom),
{
    if has_panels {
        ScrollRegionChange::Confine { top, bottom }
    } else if had_panels {
        ScrollRegionChange::Reset
    } else {
        ScrollRegionChange::Keep
    }
}

/// Save cursor (SCOSC).
pub open spec fn save_cursor() -> Seq<char> {
    "\x1b[s"@
}

/// Restore cursor (SCORC).
pub open spec fn restore_cursor() -> Seq<char> {
    "\x1b[u"@
}

/// The escape sequence of a change, wrapped in a cursor save/restore.
pub open spec fn region_escape(c: ScrollRegionChange) -> Seq<char> {
    match c {
        ScrollRegionChange::Keep => seq![],
        ScrollRegionChange::Confine { top, bottom } => save_cursor() + "\x1b["@ + decimal(top as nat) + ";"@
            + decimal(bottom as nat) + "r"@ + restore_cursor(),
        ScrollRegionChange::Reset => save_cursor() + "\x1b[r"@ + restore_cursor(),
    }
}

/// The bytes (as text) that carry out a change.
pub fn scroll_region_escape(c: ScrollRegionChange) -> (r: String)
    ensures
        r@ == region_escape(c),
{
    match c {
        ScrollRegionChange::Keep => String::new(),
        ScrollRegionChange::Confine { top, bottom } => {
            let t = decimal_string(top as u64);
            let b = decimal_string(bottom as u64);
            let head = concat3("\x1b[s\x1b[", t.as_str(), ";");
            let r = concat3(head.as_str(), b.as_str(), "r\x1b[u");
            proof {
                reveal_strlit("\x1b[s\x1b[");
                reveal_strlit("r\x1b[u");
                reveal_strlit("\x1b[s");
                reveal_strlit("\x1b[");
                reveal_strlit("r");
                reveal_strlit("\x1b[u");
                assert(r@ =~= region_escape(c));
            }
            r
        },
        ScrollRegionChange::Reset => {
            let r = owned("\x1b[s\x1b[r\x1b[u");
            proof {
                reveal_strlit("\x1b[s\x1b[r\x1b[u");
                reveal_strlit("\x1b[s");
                reveal_strlit("\x1b[r");
                reveal_strlit("\x1b[u");
                assert(r@ =~= region_escape(c));
            }
            r
        },
    }
}

/// Going from no panels to no panels never touches the scroll region (so
/// the cursor does not jump), and every change that is made is wrapped in
/// a cursor save and restore.
pub proof fn law_scroll_region_only_on_transition(had_panels: bool, has_panels: bool, top: u16, bottom: u16)
    ensures
        !had_panels && !has_panels ==> region_escape(region_change(had_panels, has_panels, top, bottom)).len() == 0,
        (had_panels || has_panels) ==> {
            let e = region_escape(region_change(had_panels, has_panels, top, bottom));
            &&& e.len() >= 6
            &&& e.subrange(0, 3) == save_cursor()
            &&& e.subrange(e.len() - 3, e.len() as int) == restore_cursor()
        },
{
    reveal_strlit("\x1b[s");
    reveal_strlit("\x1b[u");
    reveal_strlit("\x1b[r");
    reveal_strlit("\x1b[");
    reveal_strlit(";");
    reveal_strlit("r");
    let c = region_change(had_panels, has_panels, top, bottom);
    let e = region_escape(c);
    if had_panels || has_panels {
        match c {
            ScrollRegionChange::Confine { top, bottom } => {
                let mid = "\x1b["@ + decimal(top as nat) + ";"@ + decimal(bottom as nat) + "r"@;
                assert(e =~= save_cursor() + mid + restore_cursor());
                assert(e.subrange(0, 3) =~= save_cursor());
                assert(e.subrange(e.len() - 3, e.len() as int) =~= restore_cursor());
            },
            _ => {
                assert(e.subrange(0, 3) =~= save_cursor());
                assert(e.subrange(e.len() - 3, e.len() as int) =~= restore_cursor());
            },
        }
    }
}

} // verus!
