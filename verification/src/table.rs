//! The table renderer.
//!
//! Attributes of the table, of rows, cells and captions come from their
//! own structured channels; what those channels render to is emitted into
//! an opening tag only after it passes the attribute validator, so no
//! event-handler attribute reaches a live tag.

use vstd::prelude::*;
use vstd::slice::{slice_index_get, slice_subrange};
use crate::ast::{Node, TableCaption, TableCell, TableCellType, TableRow};
use crate::attrs::attrs_safe_exec;
use crate::model::{find_pbreak, lemma_find_pbreak_range, spec_render_caption,
    spec_render_captions, spec_render_cell, spec_render_cells, spec_render_node, spec_render_row,
    spec_render_rows};
use crate::paragraph::{close_paragraph, open_paragraph};
use crate::renderer::render_nodes;
use crate::state::State;
use crate::store::ArticleStore;

verus! {

/// A found paragraph break is the sequence's first one.
proof fn lemma_find_pbreak_chars(nodes: Seq<Node>)
    ensures
        (match find_pbreak(nodes) {
            Option::Some(p) => 0 <= p < nodes.len() && nodes[p] is ParagraphBreak && (forall|
                k: int,
            |
                0 <= k < p ==> !(nodes[k] is ParagraphBreak)),
            Option::None => (forall|k: int| 0 <= k < nodes.len() ==> !(nodes[k] is ParagraphBreak)),
        }),
    decreases nodes.len(),
{
    if nodes.len() == 0 {
    } else if nodes[0] is ParagraphBreak {
    } else {
        lemma_find_pbreak_chars(nodes.drop_first());
        match find_pbreak(nodes.drop_first()) {
            Option::Some(j) => {
                assert forall|k: int| 0 <= k < j + 1 implies !(nodes[k] is ParagraphBreak) by {
                    if k > 0 {
                        assert(nodes.drop_first()[k - 1] == nodes[k]);
                    }
                }
            },
            Option::None => {
                assert forall|k: int| 0 <= k < nodes.len() implies !(nodes[k]
                    is ParagraphBreak) by {
                    if k > 0 {
                        assert(nodes.drop_first()[k - 1] == nodes[k]);
                    }
                }
            },
        }
    }
}

/// Index of the first paragraph break among `nodes`, if any.
fn find_first_pbreak(nodes: &[Node]) -> (r: Option<usize>)
    ensures
        (match r {
            Option::Some(i) => find_pbreak(nodes@) == Option::Some(i as int),
            Option::None => find_pbreak(nodes@) is None,
        }),
{
    let n = nodes.len();
    let mut i: usize = 0;
    while i < n
        invariant
            i <= n,
            n == nodes@.len(),
            forall|k: int| 0 <= k < i ==> !(nodes@[k] is ParagraphBreak),
        decreases n - i,
    {
        let node = slice_index_get(nodes, i);
        match node {
            Node::ParagraphBreak => {
                proof {
                    lemma_find_pbreak_chars(nodes@);
                }
                return Some(i);
            },
            _ => {},
        }
        i = i + 1;
    }
    proof {
        lemma_find_pbreak_chars(nodes@);
    }
    None
}

/// Renders one table caption.
fn render_caption(caption: &TableCaption, store: &ArticleStore, state: &mut State, depth: u64) -> (r:
    String)
    ensures
        r@ == spec_render_caption(*store, *caption, old(state)@, depth).0,
        final(state)@ == spec_render_caption(*store, *caption, old(state)@, depth).1,
    decreases depth, caption, 9int,
{
    let mut r = String::from_str("\n");
    match &caption.attributes {
        Some(attrs) => {
            if attrs.len() > 0 {
                let attrs_out = render_nodes(attrs.as_slice(), store, state, depth);
                if attrs_safe_exec(attrs_out.as_str()) {
                    r.append("<caption ");
                    r.append(attrs_out.as_str());
                    r.append(">");
                } else {
                    r.append("<caption>");
                }
            } else {
                r.append("<caption>");
            }
        },
        None => {
            r.append("<caption>");
        },
    }
    let inner = render_nodes(caption.content.as_slice(), store, state, depth);
    r.append(inner.as_str());
    r.append("\n</caption>");
    proof {
        assert(r@ =~= spec_render_caption(*store, *caption, old(state)@, depth).0);
    }
    r
}

/// Renders a table's captions, in order.
fn render_captions(
    captions: &[TableCaption],
    store: &ArticleStore,
    state: &mut State,
    depth: u64,
) -> (r: String)
    ensures
        r@ == spec_render_captions(*store, captions@, old(state)@, depth).0,
        final(state)@ == spec_render_captions(*store, captions@, old(state)@, depth).1,
    decreases depth, captions@, 3int,
{
    let mut body = String::new();
    let n = captions.len();
    let mut j: usize = 0;
    proof {
        assert(captions@.skip(0) =~= captions@);
    }
    while j < n
        invariant
            j <= n,
            n == captions@.len(),
            spec_render_captions(*store, captions@, old(state)@, depth).0 == body@
                + spec_render_captions(*store, captions@.skip(j as int), state@, depth).0,
            spec_render_captions(*store, captions@, old(state)@, depth).1 == spec_render_captions(
                *store,
                captions@.skip(j as int),
                state@,
                depth,
            ).1,
        decreases n - j,
    {
        proof {
            assert(captions@.skip(j as int)[0] == captions@[j as int]);
            assert(captions@.skip(j as int).drop_first() =~= captions@.skip(j as int + 1));
        }
        let caption = slice_index_get(captions, j);
        let piece = render_caption(caption, store, state, depth);
        body.append(piece.as_str());
        j = j + 1;
        proof {
            assert(spec_render_captions(*store, captions@, old(state)@, depth).0 =~= body@
                + spec_render_captions(*store, captions@.skip(j as int), state@, depth).0);
        }
    }
    proof {
        assert(body@ =~= body@ + spec_render_captions(
            *store,
            captions@.skip(n as int),
            state@,
            depth,
        ).0);
    }
    body
}

/// Renders one table cell; a paragraph break inside it embeds a paragraph.
fn render_cell(cell: &TableCell, store: &ArticleStore, state: &mut State, depth: u64) -> (r: String)
    ensures
        r@ == spec_render_cell(*store, *cell, old(state)@, depth).0,
        final(state)@ == spec_render_cell(*store, *cell, old(state)@, depth).1,
    decreases depth, cell, 9int,
{
    let mut r = String::new();
    match &cell.attributes {
        Some(attrs) => {
            if attrs.len() > 0 {
                let attrs_out = render_nodes(attrs.as_slice(), store, state, depth);
                if attrs_safe_exec(attrs_out.as_str()) {
                    match cell.type_ {
                        TableCellType::Heading => r.append("<th "),
                        TableCellType::Ordinary => r.append("<td "),
                    }
                    r.append(attrs_out.as_str());
                    r.append(">");
                } else {
                    match cell.type_ {
                        TableCellType::Heading => r.append("<th>"),
                        TableCellType::Ordinary => r.append("<td>"),
                    }
                }
            } else {
                match cell.type_ {
                    TableCellType::Heading => r.append("<th>"),
                    TableCellType::Ordinary => r.append("<td>"),
                }
            }
        },
        None => {
            match cell.type_ {
                TableCellType::Heading => r.append("<th>"),
                TableCellType::Ordinary => r.append("<td>"),
            }
        },
    }
    let clen = cell.content.len();
    match find_first_pbreak(cell.content.as_slice()) {
        Some(p) => {
            proof {
                lemma_find_pbreak_range(cell.content@);
            }
            let before_slice = slice_subrange(cell.content.as_slice(), 0, p);
            let before = render_nodes(before_slice, store, state, depth);
            r.append(before.as_str());
            let op = open_paragraph();
            r.append(op.as_str());
            let after_slice = slice_subrange(cell.content.as_slice(), p + 1, clen);
            proof {
                assert(after_slice@ =~= cell.content@.skip(p + 1));
            }
            let after = render_nodes(after_slice, store, state, depth);
            r.append(after.as_str());
            let cp = close_paragraph(state);
            r.append(cp.as_str());
            match cell.type_ {
                TableCellType::Heading => r.append("\n</th>"),
                TableCellType::Ordinary => r.append("\n</td>"),
            }
            proof {
                assert(r@ =~= spec_render_cell(*store, *cell, old(state)@, depth).0);
            }
            r
        },
        None => {
            let inner = render_nodes(cell.content.as_slice(), store, state, depth);
            r.append(inner.as_str());
            match cell.type_ {
                TableCellType::Heading => r.append("\n</th>"),
                TableCellType::Ordinary => r.append("\n</td>"),
            }
            proof {
                assert(r@ =~= spec_render_cell(*store, *cell, old(state)@, depth).0);
            }
            r
        },
    }
}

/// Renders a row's cells, newline-joined.
fn render_cells(
    cells: &[TableCell],
    store: &ArticleStore,
    state: &mut State,
    depth: u64,
    sep: bool,
) -> (r: String)
    ensures
        r@ == spec_render_cells(*store, cells@, old(state)@, depth, sep).0,
        final(state)@ == spec_render_cells(*store, cells@, old(state)@, depth, sep).1,
    decreases depth, cells@, 3int,
{
    let mut body = String::new();
    let n = cells.len();
    let mut j: usize = 0;
    proof {
        assert(cells@.skip(0) =~= cells@);
    }
    while j < n
        invariant
            j <= n,
            n == cells@.len(),
            spec_render_cells(*store, cells@, old(state)@, depth, sep).0 == body@
                + spec_render_cells(*store, cells@.skip(j as int), state@, depth, sep || j > 0).0,
            spec_render_cells(*store, cells@, old(state)@, depth, sep).1 == spec_render_cells(
                *store,
                cells@.skip(j as int),
                state@,
                depth,
                sep || j > 0,
            ).1,
        decreases n - j,
    {
        proof {
            assert(cells@.skip(j as int)[0] == cells@[j as int]);
            assert(cells@.skip(j as int).drop_first() =~= cells@.skip(j as int + 1));
        }
        if sep || j > 0 {
            body.append("\n");
        }
        let cell = slice_index_get(cells, j);
        let piece = render_cell(cell, store, state, depth);
        body.append(piece.as_str());
        j = j + 1;
        proof {
            assert(spec_render_cells(*store, cells@, old(state)@, depth, sep).0 =~= body@
                + spec_render_cells(*store, cells@.skip(j as int), state@, depth, true).0);
        }
    }
    proof {
        assert(body@ =~= body@ + spec_render_cells(
            *store,
            cells@.skip(n as int),
            state@,
            depth,
            sep || n > 0,
        ).0);
    }
    body
}

/// Renders one table row.
fn render_row(row: &TableRow, store: &ArticleStore, state: &mut State, depth: u64) -> (r: String)
    ensures
        r@ == spec_render_row(*store, *row, old(state)@, depth).0,
        final(state)@ == spec_render_row(*store, *row, old(state)@, depth).1,
    decreases depth, row, 9int,
{
    let mut r = String::new();
    if row.attributes.len() > 0 {
        let attrs_out = render_nodes(row.attributes.as_slice(), store, state, depth);
        if attrs_safe_exec(attrs_out.as_str()) {
            r.append("<tr ");
            r.append(attrs_out.as_str());
            r.append(">");
        } else {
            r.append("<tr>");
        }
    } else {
        r.append("<tr>");
    }
    r.append("\n");
    let cells_out = render_cells(row.cells.as_slice(), store, state, depth, false);
    r.append(cells_out.as_str());
    r.append("</tr>");
    proof {
        assert(r@ =~= spec_render_row(*store, *row, old(state)@, depth).0);
    }
    r
}

/// Renders a table's rows, newline-joined, inside the table body.
fn render_rows(rows: &[TableRow], store: &ArticleStore, state: &mut State, depth: u64) -> (r:
    String)
    ensures
        r@ == "<tbody>"@ + spec_render_rows(*store, rows@, old(state)@, depth, false).0
            + "</tbody>"@,
        final(state)@ == spec_render_rows(*store, rows@, old(state)@, depth, false).1,
    decreases depth, rows@, 4int,
{
    let mut body = String::from_str("<tbody>");
    let n = rows.len();
    let mut j: usize = 0;
    proof {
        assert(rows@.skip(0) =~= rows@);
    }
    while j < n
        invariant
            j <= n,
            n == rows@.len(),
            "<tbody>"@ + spec_render_rows(*store, rows@, old(state)@, depth, false).0 == body@
                + spec_render_rows(*store, rows@.skip(j as int), state@, depth, j > 0).0,
            spec_render_rows(*store, rows@, old(state)@, depth, false).1 == spec_render_rows(
                *store,
                rows@.skip(j as int),
                state@,
                depth,
                j > 0,
            ).1,
        decreases n - j,
    {
        proof {
            assert(rows@.skip(j as int)[0] == rows@[j as int]);
            assert(rows@.skip(j as int).drop_first() =~= rows@.skip(j as int + 1));
        }
        if j > 0 {
            body.append("\n");
        }
        let row = slice_index_get(rows, j);
        let piece = render_row(row, store, state, depth);
        body.append(piece.as_str());
        j = j + 1;
        proof {
            assert("<tbody>"@ + spec_render_rows(*store, rows@, old(state)@, depth, false).0
                =~= body@ + spec_render_rows(*store, rows@.skip(j as int), state@, depth, true).0);
        }
    }
    body.append("</tbody>");
    proof {
        assert(body@ =~= "<tbody>"@ + spec_render_rows(*store, rows@, old(state)@, depth, false).0
            + "</tbody>"@);
    }
    body
}

/// Renders a table, paragraph-bounded: its attributes, captions and rows
/// come from their own structured channels.
pub fn render_table(node: &Node, store: &ArticleStore, state: &mut State, depth: u64) -> (r: String)
    requires
        node is Table,
    ensures
        r@ == spec_render_node(*store, *node, old(state)@, depth).0,
        final(state)@ == spec_render_node(*store, *node, old(state)@, depth).1,
    decreases depth, node, 8int,
{
    match node {
        Node::Table { attributes, captions, rows } => {
            proof {
                assert(*node == (Node::Table {
                    attributes: *attributes,
                    captions: *captions,
                    rows: *rows,
                }));
            }
            let mut open_tag = String::new();
            if attributes.len() > 0 {
                let attrs_out = render_nodes(attributes.as_slice(), store, state, depth);
                if attrs_safe_exec(attrs_out.as_str()) {
                    open_tag.append("<table ");
                    open_tag.append(attrs_out.as_str());
                    open_tag.append(">");
                } else {
                    open_tag.append("<table>");
                }
            } else {
                open_tag.append("<table>");
            }
            let caption_text = render_captions(captions.as_slice(), store, state, depth);
            let mut r = close_paragraph(state);
            r.append(open_tag.as_str());
            r.append(caption_text.as_str());
            r.append("\n");
            let rows_out = render_rows(rows.as_slice(), store, state, depth);
            r.append(rows_out.as_str());
            r.append("</table>");
            let op = open_paragraph();
            r.append(op.as_str());
            proof {
                reveal_strlit("<table ");
                reveal_strlit("<table>");
                assert(r@ =~= spec_render_node(*store, *node, old(state)@, depth).0);
            }
            r
        },
        _ => {
            proof {
                assert(false);
            }
            String::new()
        },
    }
}

} // verus!
