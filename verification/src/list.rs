//! The list renderers: ordered, unordered and definition lists.

use vstd::prelude::*;
use vstd::slice::slice_index_get;
use crate::ast::{DefinitionListItem, DefinitionListItemType, ListItem, Node};
use crate::model::{spec_render_definition_items, spec_render_definition_list, spec_render_items,
    spec_render_nodes, spec_render_ordered_list, spec_render_unordered_list};
use crate::paragraph::{close_paragraph, open_paragraph};
use crate::renderer::render_nodes;
use crate::state::State;
use crate::store::ArticleStore;

verus! {

/// Renders one list item.
fn render_list_items(item: &ListItem, store: &ArticleStore, state: &mut State, depth: u64) -> (r:
    String)
    ensures
        r@ == "<li>"@ + spec_render_nodes(*store, item.nodes@, old(state)@, depth).0 + "</li>"@,
        final(state)@ == spec_render_nodes(*store, item.nodes@, old(state)@, depth).1,
    decreases depth, item, 9int,
{
    let mut r = String::from_str("<li>");
    let inner = render_nodes(item.nodes.as_slice(), store, state, depth);
    r.append(inner.as_str());
    r.append("</li>");
    proof {
        assert(r@ =~= "<li>"@ + spec_render_nodes(*store, item.nodes@, old(state)@, depth).0
            + "</li>"@);
    }
    r
}

/// Renders a run of list items, newline-joined, starting with or without a
/// leading separator as `sep` says.
fn render_items(
    items: &[ListItem],
    store: &ArticleStore,
    state: &mut State,
    depth: u64,
    sep: bool,
) -> (r: String)
    ensures
        r@ == spec_render_items(*store, items@, old(state)@, depth, sep).0,
        final(state)@ == spec_render_items(*store, items@, old(state)@, depth, sep).1,
    decreases depth, items@, 3int,
{
    let mut body = String::new();
    let n = items.len();
    let mut j: usize = 0;
    proof {
        assert(items@.skip(0) =~= items@);
    }
    while j < n
        invariant
            j <= n,
            n == items@.len(),
            spec_render_items(*store, items@, old(state)@, depth, sep).0 == body@
                + spec_render_items(
                *store,
                items@.skip(j as int),
                state@,
                depth,
                sep || j > 0,
            ).0,
            spec_render_items(*store, items@, old(state)@, depth, sep).1 == spec_render_items(
                *store,
                items@.skip(j as int),
                state@,
                depth,
                sep || j > 0,
            ).1,
        decreases n - j,
    {
        proof {
            assert(items@.skip(j as int)[0] == items@[j as int]);
            assert(items@.skip(j as int).drop_first() =~= items@.skip(j as int + 1));
        }
        if sep || j > 0 {
            body.append("\n");
        }
        let item = slice_index_get(items, j);
        let piece = render_list_items(item, store, state, depth);
        body.append(piece.as_str());
        j = j + 1;
        proof {
            assert(spec_render_items(*store, items@, old(state)@, depth, sep).0 =~= body@
                + spec_render_items(*store, items@.skip(j as int), state@, depth, true).0);
        }
    }
    proof {
        assert(body@ =~= body@ + spec_render_items(
            *store,
            items@.skip(n as int),
            state@,
            depth,
            sep || n > 0,
        ).0);
    }
    body
}

/// Renders an unordered list, paragraph-bounded.
pub fn render_unordered_list(
    items: &[ListItem],
    store: &ArticleStore,
    state: &mut State,
    depth: u64,
) -> (r: String)
    ensures
        r@ == spec_render_unordered_list(*store, items@, old(state)@, depth).0,
        final(state)@ == spec_render_unordered_list(*store, items@, old(state)@, depth).1,
    decreases depth, items@, 8int,
{
    let mut r = close_paragraph(state);
    r.append("<ul>");
    let body = render_items(items, store, state, depth, false);
    r.append(body.as_str());
    r.append("</ul>");
    let op = open_paragraph();
    r.append(op.as_str());
    proof {
        assert(r@ =~= spec_render_unordered_list(*store, items@, old(state)@, depth).0);
    }
    r
}

/// Renders an ordered list, paragraph-bounded.
pub fn render_ordered_list(
    items: &[ListItem],
    store: &ArticleStore,
    state: &mut State,
    depth: u64,
) -> (r: String)
    ensures
        r@ == spec_render_ordered_list(*store, items@, old(state)@, depth).0,
        final(state)@ == spec_render_ordered_list(*store, items@, old(state)@, depth).1,
    decreases depth, items@, 8int,
{
    let mut r = close_paragraph(state);
    r.append("<ol>");
    let body = render_items(items, store, state, depth, false);
    r.append(body.as_str());
    r.append("</ol>");
    let op = open_paragraph();
    r.append(op.as_str());
    proof {
        assert(r@ =~= spec_render_ordered_list(*store, items@, old(state)@, depth).0);
    }
    r
}

/// Renders one definition list item, a term as `<dt>` and details as `<dd>`.
fn render_definition_list_items(
    item: &DefinitionListItem,
    store: &ArticleStore,
    state: &mut State,
    depth: u64,
) -> (r: String)
    ensures
        r@ == (match item.type_ {
            DefinitionListItemType::Term => "<dt>"@ + spec_render_nodes(
                *store,
                item.nodes@,
                old(state)@,
                depth,
            ).0 + "</dt>"@,
            DefinitionListItemType::Details => "<dd>"@ + spec_render_nodes(
                *store,
                item.nodes@,
                old(state)@,
                depth,
            ).0 + "</dd>"@,
        }),
        final(state)@ == spec_render_nodes(*store, item.nodes@, old(state)@, depth).1,
    decreases depth, item, 9int,
{
    match item.type_ {
        DefinitionListItemType::Term => {
            let mut r = String::from_str("<dt>");
            let inner = render_nodes(item.nodes.as_slice(), store, state, depth);
            r.append(inner.as_str());
            r.append("</dt>");
            proof {
                assert(r@ =~= "<dt>"@ + spec_render_nodes(
                    *store,
                    item.nodes@,
                    old(state)@,
                    depth,
                ).0 + "</dt>"@);
            }
            r
        },
        DefinitionListItemType::Details => {
            let mut r = String::from_str("<dd>");
            let inner = render_nodes(item.nodes.as_slice(), store, state, depth);
            r.append(inner.as_str());
            r.append("</dd>");
            proof {
                assert(r@ =~= "<dd>"@ + spec_render_nodes(
                    *store,
                    item.nodes@,
                    old(state)@,
                    depth,
                ).0 + "</dd>"@);
            }
            r
        },
    }
}

/// Renders a run of definition list items, newline-joined.
fn render_definition_items(
    items: &[DefinitionListItem],
    store: &ArticleStore,
    state: &mut State,
    depth: u64,
    sep: bool,
) -> (r: String)
    ensures
        r@ == spec_render_definition_items(*store, items@, old(state)@, depth, sep).0,
        final(state)@ == spec_render_definition_items(*store, items@, old(state)@, depth, sep).1,
    decreases depth, items@, 3int,
{
    let mut body = String::new();
    let n = items.len();
    let mut j: usize = 0;
    proof {
        assert(items@.skip(0) =~= items@);
    }
    while j < n
        invariant
            j <= n,
            n == items@.len(),
            spec_render_definition_items(*store, items@, old(state)@, depth, sep).0 == body@
                + spec_render_definition_items(
                *store,
                items@.skip(j as int),
                state@,
                depth,
                sep || j > 0,
            ).0,
            spec_render_definition_items(*store, items@, old(state)@, depth, sep).1
                == spec_render_definition_items(
                *store,
                items@.skip(j as int),
                state@,
                depth,
                sep || j > 0,
            ).1,
        decreases n - j,
    {
        proof {
            assert(items@.skip(j as int)[0] == items@[j as int]);
            assert(items@.skip(j as int).drop_first() =~= items@.skip(j as int + 1));
        }
        if sep || j > 0 {
            body.append("\n");
        }
        let item = slice_index_get(items, j);
        let piece = render_definition_list_items(item, store, state, depth);
        body.append(piece.as_str());
        j = j + 1;
        proof {
            assert(spec_render_definition_items(*store, items@, old(state)@, depth, sep).0
                =~= body@ + spec_render_definition_items(
                *store,
                items@.skip(j as int),
                state@,
                depth,
                true,
            ).0);
        }
    }
    proof {
        assert(body@ =~= body@ + spec_render_definition_items(
            *store,
            items@.skip(n as int),
            state@,
            depth,
            sep || n > 0,
        ).0);
    }
    body
}

/// Renders a definition list, paragraph-bounded.
pub fn render_definition_list(
    items: &[DefinitionListItem],
    store: &ArticleStore,
    state: &mut State,
    depth: u64,
) -> (r: String)
    ensures
        r@ == spec_render_definition_list(*store, items@, old(state)@, depth).0,
        final(state)@ == spec_render_definition_list(*store, items@, old(state)@, depth).1,
    decreases depth, items@, 8int,
{
    let mut r = close_paragraph(state);
    r.append("<dl>");
    let body = render_definition_items(items, store, state, depth, false);
    r.append(body.as_str());
    r.append("</dl>");
    let op = open_paragraph();
    r.append(op.as_str());
    proof {
        assert(r@ =~= spec_render_definition_list(*store, items@, old(state)@, depth).0);
    }
    r
}

} // verus!
