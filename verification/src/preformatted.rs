//! The preformatted block renderer.

use vstd::prelude::*;
use crate::ast::Node;
use crate::model::spec_render_preformatted;
use crate::paragraph::{close_paragraph, open_paragraph};
use crate::renderer::render_nodes;
use crate::state::State;
use crate::store::ArticleStore;

verus! {

/// Renders a preformatted block, paragraph-bounded.
pub fn render_preformatted(
    nodes: &[Node],
    store: &ArticleStore,
    state: &mut State,
    depth: u64,
) -> (r: String)
    ensures
        r@ == spec_render_preformatted(*store, nodes@, old(state)@, depth).0,
        final(state)@ == spec_render_preformatted(*store, nodes@, old(state)@, depth).1,
    decreases depth, nodes@, 8int,
{
    let mut r = close_paragraph(state);
    r.append("<pre>");
    let inner = render_nodes(nodes, store, state, depth);
    r.append(inner.as_str());
    r.append("\n</pre>");
    let op = open_paragraph();
    r.append(op.as_str());
    proof {
        assert(r@ =~= spec_render_preformatted(*store, nodes@, old(state)@, depth).0);
    }
    r
}

} // verus!
