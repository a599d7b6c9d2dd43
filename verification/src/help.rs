//! The help popup of the terminal view: where it goes and what it lists.

use vstd::prelude::*;
use crate::text::{left_align, push_left_aligned};

verus! {

/// A rectangle of the screen, in cells.
#[derive(Debug, Clone, Copy, PartialEq, Eq)]
pub struct Area {
    pub x: u16,
    pub y: u16,
    pub width: u16,
    pub height: u16,
}

/// A popup of `w` by `h` cells centred in `area`, cut to the area's size.
pub open spec fn centered_spec(area: Area, w: u16, h: u16) -> Area {
    Area {
        x: (area.x + (if area.width > w { area.width - w } else { 0 }) / 2) as u16,
        y: (area.y + (if area.height > h { area.height - h } else { 0 }) / 2) as u16,
        width: if w < area.width { w } else { area.width },
        height: if h < area.height { h } else { area.height },
    }
}

/// Centres a `w` by `h` popup in `area`.
pub fn centered(area: Area, w: u16, h: u16) -> (r: Area)
    requires
        area.x + area.width <= u16::MAX,
        area.y + area.height <= u16::MAX,
    ensures
        r == centered_spec(area, w, h),
{
    let x = area.x + area.width.saturating_sub(w) / 2;
    let y = area.y + area.height.saturating_sub(h) / 2;
    Area { x, y, width: if w < area.width { w } else { area.width }, height: if h < area.height { h } else { area.height } }
}

/// Which pane's key bindings the popup lists.
#[derive(Debug, Clone, Copy, PartialEq, Eq)]
pub enum HelpFor {
    Threads,
    Tasks,
}

/// The size of the help popup of a pane: 40 columns, and 16 rows for the
/// thread list or 14 for the tasks pane.
pub open spec fn help_size_spec(p: HelpFor) -> (u16, u16) {
    match p {
        HelpFor::Threads => (40, 16),
        HelpFor::Tasks => (40, 14),
    }
}

/// The key bindings of a pane, each with what it does.
pub open spec fn bindings_spec(p: HelpFor) -> Seq<(Seq<char>, Seq<char>)> {
    match p {
        HelpFor::Threads => seq![
            ("j / \u{2193}"@, "move down"@),
            ("k / \u{2191}"@, "move up"@),
            ("Enter"@, "view tasks for thread"@),
            ("gt"@, "tasks for active thread"@),
            ("ctrl-d"@, "page down"@),
            ("ctrl-u"@, "page up"@),
            ("gg"@, "jump to top"@),
            ("G"@, "jump to bottom"@),
            ("?"@, "toggle this help"@),
            ("q / esc"@, "quit"@),
        ],
        HelpFor::Tasks => seq![
            ("j / \u{2193}"@, "scroll down"@),
            ("k / \u{2191}"@, "scroll up"@),
            ("ctrl-d"@, "page down"@),
            ("ctrl-u"@, "page up"@),
            ("gg"@, "jump to top"@),
            ("G"@, "jump to bottom"@),
            ("esc"@, "back to threads"@),
            ("ctrl-o"@, "back to threads"@),
            ("?"@, "toggle this help"@),
            ("q"@, "quit"@),
        ],
    }
}

/// Where the help popup of pane `p` goes on a screen `area`.
pub fn help_area(p: HelpFor, area: Area) -> (r: Area)
    requires
        area.x + area.width <= u16::MAX,
        area.y + area.height <= u16::MAX,
    ensures
        r == centered_spec(area, help_size_spec(p).0, help_size_spec(p).1),
{
    match p {
        HelpFor::Threads => centered(area, 40, 16),
        HelpFor::Tasks => centered(area, 40, 14),
    }
}

/// The key bindings the help popup of pane `p` lists, in order.
pub fn help_bindings(p: HelpFor) -> (r: Vec<(&'static str, &'static str)>)
    ensures
        r@.map_values(|b: (&'static str, &'static str)| (b.0@, b.1@)) == bindings_spec(p),
{
    let r: Vec<(&'static str, &'static str)> = match p {
        HelpFor::Threads => vec![
            ("j / \u{2193}", "move down"),
            ("k / \u{2191}", "move up"),
            ("Enter", "view tasks for thread"),
            ("gt", "tasks for active thread"),
            ("ctrl-d", "page down"),
            ("ctrl-u", "page up"),
            ("gg", "jump to top"),
            ("G", "jump to bottom"),
            ("?", "toggle this help"),
            ("q / esc", "quit"),
        ],
        HelpFor::Tasks => vec![
            ("j / \u{2193}", "scroll down"),
            ("k / \u{2191}", "scroll up"),
            ("ctrl-d", "page down"),
            ("ctrl-u", "page up"),
            ("gg", "jump to top"),
            ("G", "jump to bottom"),
            ("esc", "back to threads"),
            ("ctrl-o", "back to threads"),
            ("?", "toggle this help"),
            ("q", "quit"),
        ],
    };
    assert(r@.map_values(|b: (&'static str, &'static str)| (b.0@, b.1@)) =~= bindings_spec(p));
    r
}

/// The key column of a help row: the key, left-aligned in 12 columns.
pub fn help_key_cell(key: &str) -> (r: String)
    ensures
        r@ == left_align(key@, 12),
{
    let mut r = String::new();
    push_left_aligned(&mut r, key, 12);
    assert(r@ =~= left_align(key@, 12));
    r
}

} // verus!
