//! Mapping mouse clicks to actions: a click in the sidebar selects the
//! context row under it, accounting for the separator drawn between the
//! fixed contexts and the rest.

use vstd::prelude::*;

verus! {

/// Width of the sidebar in character cells.
pub const SIDEBAR_WIDTH: u16 = 36;

/// The first sidebar row that lists contexts.
pub const CONTEXT_LIST_START_ROW: u16 = 2;

/// What a click decides.
#[derive(PartialEq, Eq, Structural, Debug, Clone, Copy)]
pub enum ClickAction {
    /// Nothing under the pointer.
    Ignore,
    /// Select the context with this position in the source table.
    SelectContext(usize),
}

/// The number of leading fixed contexts: the separator sits below them.
pub open spec fn spec_fixed_prefix(flags: Seq<bool>) -> int
    decreases flags.len(),
{
    if flags.len() == 0 {
        0
    } else if !flags[0] {
        0
    } else {
        1 + spec_fixed_prefix(flags.drop_first())
    }
}

/// What a click at sidebar row `y` selects, given which contexts are
/// fixed: rows above the list and the separator row select nothing, and
/// rows below the separator shift up by one.
pub open spec fn spec_sidebar_click(y: int, flags: Seq<bool>) -> ClickAction {
    let count = flags.len() as int;
    let fixed = spec_fixed_prefix(flags);
    let has_separator = 0 < fixed < count;
    let start = CONTEXT_LIST_START_ROW as int;
    if y < start {
        ClickAction::Ignore
    } else {
        let visual = y - start;
        let total = count + if has_separator {
            1int
        } else {
            0int
        };
        if visual >= total {
            ClickAction::Ignore
        } else if has_separator && visual == fixed {
            ClickAction::Ignore
        } else {
            let clicked = if has_separator && visual > fixed {
                visual - 1
            } else {
                visual
            };
            if clicked < count {
                ClickAction::SelectContext(clicked as usize)
            } else {
                ClickAction::Ignore
            }
        }
    }
}

/// Count the contexts before the first non-fixed one.
fn fixed_prefix(flags: &Vec<bool>) -> (r: usize)
    ensures
        r == spec_fixed_prefix(flags@),
        r <= flags@.len(),
{
    let n = flags.len();
    let mut i: usize = 0;
    proof {
        assert(flags@.subrange(0, n as int) =~= flags@);
    }
    while i < n
        invariant
            i <= n,
            n == flags@.len(),
            spec_fixed_prefix(flags@) == i + spec_fixed_prefix(flags@.subrange(i as int, n as int)),
            forall|j: int| 0 <= j < i ==> flags@[j],
        decreases n - i,
    {
        let ghost rest = flags@.subrange(i as int, n as int);
        proof {
            assert(rest[0] == flags@[i as int]);
            assert(rest.drop_first() =~= flags@.subrange(i + 1, n as int));
        }
        if !flags[i] {
            proof {
                assert(spec_fixed_prefix(rest) == 0);
            }
            return i;
        }
        i = i + 1;
    }
    proof {
        assert(flags@.subrange(n as int, n as int).len() == 0);
    }
    n
}

/// Handle a click inside the sidebar: select the context row under the
/// pointer, skipping the separator line.
pub fn handle_sidebar_click(_x: u16, y: u16, fixed_flags: &Vec<bool>) -> (r: ClickAction)
    ensures
        r == spec_sidebar_click(y as int, fixed_flags@),
{
    let count = fixed_flags.len();
    let fixed = fixed_prefix(fixed_flags);
    let has_separator = 0 < fixed && fixed < count;
    let start = CONTEXT_LIST_START_ROW as usize;
    let y_row = y as usize;
    if y_row < start {
        return ClickAction::Ignore;
    }
    let visual = y_row - start;
    if visual > count || (visual == count && !has_separator) {
        return ClickAction::Ignore;
    }
    if has_separator && visual == fixed {
        return ClickAction::Ignore;
    }
    let clicked = if has_separator && visual > fixed {
        visual - 1
    } else {
        visual
    };
    if clicked < count {
        ClickAction::SelectContext(clicked)
    } else {
        ClickAction::Ignore
    }
}

/// Handle a left click anywhere: only the sidebar reacts for now.
pub fn handle_left_click(x: u16, y: u16, fixed_flags: &Vec<bool>) -> (r: ClickAction)
    ensures
        x < SIDEBAR_WIDTH ==> r == spec_sidebar_click(y as int, fixed_flags@),
        x >= SIDEBAR_WIDTH ==> r == ClickAction::Ignore,
{
    if x < SIDEBAR_WIDTH {
        handle_sidebar_click(x, y, fixed_flags)
    } else {
        ClickAction::Ignore
    }
}

} // verus!
