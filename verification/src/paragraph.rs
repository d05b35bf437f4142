//! The paragraph controller.
//!
//! Every block-level renderer closes any open paragraph before emitting its
//! own markup and reopens one after; an explicit blank line closes and
//! reopens in place. Closing always flushes the pending inline-tag queue
//! first, so no inline tag leaks across a paragraph boundary.

use vstd::prelude::*;
use crate::bold_italic::clear_queue;
use crate::model::{spec_close_paragraph, spec_open_paragraph, spec_paragraph_break};
use crate::state::State;

verus! {

/// Renders an explicit paragraph break: flushes the inline queue, then
/// closes and reopens the paragraph.
pub fn render_paragraph_break(state: &mut State) -> (r: String)
    ensures
        r@ == spec_paragraph_break(old(state)@).0,
        final(state)@ == spec_paragraph_break(old(state)@).1,
{
    let mut r = clear_queue(state);
    r.append("</p><p>");
    r
}

/// Closes the open paragraph: flushes the inline queue and emits `\n</p>`.
pub fn close_paragraph(state: &mut State) -> (r: String)
    ensures
        r@ == spec_close_paragraph(old(state)@).0,
        final(state)@ == spec_close_paragraph(old(state)@).1,
{
    let mut r = clear_queue(state);
    r.append("\n</p>");
    r
}

/// Opens a paragraph: emits `\n<p>`.
pub fn open_paragraph() -> (r: String)
    ensures
        r@ == spec_open_paragraph(),
{
    String::from_str("\n<p>")
}

} // verus!
