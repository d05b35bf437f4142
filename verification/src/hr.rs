//! The horizontal divider renderer.

use vstd::prelude::*;
use crate::model::{spec_close_paragraph, spec_open_paragraph};
use crate::paragraph::{close_paragraph, open_paragraph};
use crate::state::State;

verus! {

/// Renders a horizontal divider, paragraph-bounded.
pub fn render_hr(state: &mut State) -> (r: String)
    ensures
        r@ == spec_close_paragraph(old(state)@).0 + "<hr>"@ + spec_open_paragraph(),
        final(state)@ == spec_close_paragraph(old(state)@).1,
{
    let mut r = close_paragraph(state);
    r.append("<hr>");
    let op = open_paragraph();
    r.append(op.as_str());
    proof {
        assert(r@ =~= spec_close_paragraph(old(state)@).0 + "<hr>"@ + spec_open_paragraph());
    }
    r
}

} // verus!
