//! The node dispatcher and the top-level renderer.
//!
//! [`render_nodes`] drives one sibling run: a first pass feeds the inline
//! reconciler, a second pass renders every node in order, and whatever the
//! reconciler still holds open is drained at the end. [`render`] wraps the
//! root run in a paragraph and strips empty-paragraph artifacts.

use vstd::prelude::*;
use vstd::slice::slice_index_get;
use crate::ast::Node;
use crate::bold_italic::{clear_queue, render_bold_italic};
use crate::heading::render_heading;
use crate::hr::render_hr;
use crate::link::{render_category, render_external_link, render_internal_link};
use crate::list::{render_definition_list, render_ordered_list, render_unordered_list};
use crate::model::{BISlot, bold_italic_toggle, bold_toggle, force_close, is_toggle, italic_toggle,
    run_entries, spec_render, spec_render_node, spec_render_nodes, spec_render_seq, toggle_pass,
    toggle_step};
use crate::paragraph::render_paragraph_break;
use crate::preformatted::render_preformatted;
use crate::state::{BIStatus, RenderModel, State};
use crate::store::ArticleStore;
use crate::table::render_table;
use crate::template::render_template;
use crate::text::{escaped_char, push_escaped_char, replace_all};

verus! {

/// How many template transclusions may nest before the renderer gives up
/// on a run, so that self-referential templates cannot recurse forever.
pub const MAX_TRANSCLUSION_DEPTH: u64 = 16;

/// Renders literal text: it passes through verbatim.
pub fn render_text(value: &str) -> (r: String)
    ensures
        r@ == value@,
{
    value.to_owned()
}

/// Renders a character entity: the character, entity-escaped.
fn render_entity(character: char) -> (r: String)
    ensures
        r@ == escaped_char(character),
{
    let mut r = String::new();
    push_escaped_char(&mut r, character);
    proof {
        assert(r@ =~= escaped_char(character));
    }
    r
}

/// Renders one node, routing it to its renderer.
pub fn render_node(node: &Node, store: &ArticleStore, state: &mut State, depth: u64) -> (r: String)
    ensures
        r@ == spec_render_node(*store, *node, old(state)@, depth).0,
        final(state)@ == spec_render_node(*store, *node, old(state)@, depth).1,
    decreases depth, node, 9int,
{
    match node {
        Node::Text { value } => render_text(value.as_str()),
        Node::CharacterEntity { character } => render_entity(*character),
        Node::Bold => render_bold_italic(state),
        Node::Italic => render_bold_italic(state),
        Node::BoldItalic => render_bold_italic(state),
        Node::Link { target, text } => render_internal_link(
            target.as_str(),
            text.as_slice(),
            store,
            state,
            depth,
        ),
        Node::ExternalLink { nodes } => render_external_link(
            nodes.as_slice(),
            store,
            state,
            depth,
        ),
        Node::Category { target, ordinal } => render_category(
            target.as_str(),
            ordinal.as_slice(),
            store,
            state,
            depth,
        ),
        Node::HorizontalDivider => render_hr(state),
        Node::OrderedList { items } => render_ordered_list(items.as_slice(), store, state, depth),
        Node::UnorderedList { items } => render_unordered_list(
            items.as_slice(),
            store,
            state,
            depth,
        ),
        Node::DefinitionList { items } => render_definition_list(
            items.as_slice(),
            store,
            state,
            depth,
        ),
        Node::ParagraphBreak => render_paragraph_break(state),
        Node::Preformatted { nodes } => render_preformatted(nodes.as_slice(), store, state, depth),
        Node::Heading { level, nodes } => render_heading(
            *level,
            nodes.as_slice(),
            store,
            state,
            depth,
        ),
        Node::Table { .. } => render_table(node, store, state, depth),
        Node::Template { name, parameters } => render_template(
            name.as_slice(),
            parameters.as_slice(),
            store,
            state,
            depth,
        ),
        Node::Comment => String::new(),
        Node::Other => String::new(),
    }
}

/// Renders a full sibling run: feeds the inline reconciler over the run,
/// renders every node in order, and drains whatever the reconciler still
/// holds pending. The pending queue is empty afterwards.
pub fn render_nodes(nodes: &[Node], store: &ArticleStore, state: &mut State, depth: u64) -> (r:
    String)
    ensures
        r@ == spec_render_nodes(*store, nodes@, old(state)@, depth).0,
        final(state)@ == spec_render_nodes(*store, nodes@, old(state)@, depth).1,
        final(state)@.queue == Seq::<(BIStatus, usize)>::empty(),
    decreases depth, nodes@, 3int,
{
    let n = nodes.len();
    let ghost q0 = state@.queue;
    let ghost full = toggle_pass(nodes@, 0, (BISlot::Vacant, BISlot::Vacant));
    let mut stack: (BISlot, BISlot) = (BISlot::Vacant, BISlot::Vacant);
    let mut i: usize = 0;
    let mut k: usize = 0;
    let ghost mut emitted: Seq<(BIStatus, usize)> = Seq::empty();
    proof {
        assert(nodes@.skip(0) =~= nodes@);
        assert(state@.queue =~= q0 + emitted);
        assert(emitted + toggle_pass(nodes@, 0, stack).0 =~= toggle_pass(nodes@, 0, stack).0);
    }
    while k < n
        invariant
            k <= n,
            n == nodes@.len(),
            i <= k,
            state@.queue == q0 + emitted,
            full.0 == emitted + toggle_pass(nodes@.skip(k as int), i, stack).0,
            full.1 == toggle_pass(nodes@.skip(k as int), i, stack).1,
            full.2 == toggle_pass(nodes@.skip(k as int), i, stack).2,
            state@ == (RenderModel { queue: state@.queue, ..old(state)@ }),
        decreases n - k,
    {
        let ghost stack_old = stack;
        let ghost i_old = i;
        proof {
            assert(nodes@.skip(k as int)[0] == nodes@[k as int]);
            assert(nodes@.skip(k as int).drop_first() =~= nodes@.skip(k as int + 1));
        }
        let node = slice_index_get(nodes, k);
        match node {
            Node::Bold => {
                match stack {
                    (BISlot::Vacant, BISlot::Vacant) => {
                        state.bold_italic_queue.push_back((BIStatus::BoldOpen, i));
                        stack = (BISlot::Bold, BISlot::Vacant);
                    },
                    (BISlot::Italic, BISlot::Vacant) => {
                        state.bold_italic_queue.push_back((BIStatus::BoldClose, i));
                        stack = (BISlot::Italic, BISlot::Bold);
                    },
                    (BISlot::Italic, BISlot::Bold) => {
                        state.bold_italic_queue.push_back((BIStatus::BoldClose, i));
                        stack = (BISlot::Italic, BISlot::Vacant);
                    },
                    (BISlot::Bold, BISlot::Vacant) => {
                        state.bold_italic_queue.push_back((BIStatus::BoldClose, i));
                        stack = (BISlot::Vacant, BISlot::Vacant);
                    },
                    (BISlot::Bold, BISlot::Italic) => {
                        state.bold_italic_queue.push_back((BIStatus::ItalicClose, i));
                        state.bold_italic_queue.push_back((BIStatus::BoldClose, i));
                        state.bold_italic_queue.push_back((BIStatus::ItalicOpen, i));
                        stack = (BISlot::Italic, BISlot::Vacant);
                    },
                    _ => {},
                }
                i = i + 1;
            },
            Node::Italic => {
                match stack {
                    (BISlot::Vacant, BISlot::Vacant) => {
                        state.bold_italic_queue.push_back((BIStatus::ItalicOpen, i));
                        stack = (BISlot::Italic, BISlot::Vacant);
                    },
                    (BISlot::Bold, BISlot::Vacant) => {
                        state.bold_italic_queue.push_back((BIStatus::ItalicClose, i));
                        stack = (BISlot::Bold, BISlot::Italic);
                    },
                    (BISlot::Bold, BISlot::Italic) => {
                        state.bold_italic_queue.push_back((BIStatus::ItalicClose, i));
                        stack = (BISlot::Bold, BISlot::Vacant);
                    },
                    (BISlot::Italic, BISlot::Vacant) => {
                        state.bold_italic_queue.push_back((BIStatus::ItalicClose, i));
                        stack = (BISlot::Vacant, BISlot::Vacant);
                    },
                    (BISlot::Italic, BISlot::Bold) => {
                        state.bold_italic_queue.push_back((BIStatus::BoldClose, i));
                        state.bold_italic_queue.push_back((BIStatus::ItalicClose, i));
                        state.bold_italic_queue.push_back((BIStatus::BoldOpen, i));
                        stack = (BISlot::Bold, BISlot::Vacant);
                    },
                    _ => {},
                }
                i = i + 1;
            },
            Node::BoldItalic => {
                match stack {
                    (BISlot::Vacant, BISlot::Vacant) => {
                        state.bold_italic_queue.push_back((BIStatus::ItalicOpen, i));
                        state.bold_italic_queue.push_back((BIStatus::BoldOpen, i));
                        stack = (BISlot::Italic, BISlot::Bold);
                    },
                    (BISlot::Bold, BISlot::Vacant) => {
                        state.bold_italic_queue.push_back((BIStatus::BoldClose, i));
                        state.bold_italic_queue.push_back((BIStatus::ItalicOpen, i));
                        stack = (BISlot::Italic, BISlot::Vacant);
                    },
                    (BISlot::Bold, BISlot::Italic) => {
                        state.bold_italic_queue.push_back((BIStatus::ItalicClose, i));
                        state.bold_italic_queue.push_back((BIStatus::BoldClose, i));
                        stack = (BISlot::Vacant, BISlot::Vacant);
                    },
                    (BISlot::Italic, BISlot::Vacant) => {
                        state.bold_italic_queue.push_back((BIStatus::ItalicClose, i));
                        state.bold_italic_queue.push_back((BIStatus::BoldOpen, i));
                        stack = (BISlot::Bold, BISlot::Vacant);
                    },
                    (BISlot::Italic, BISlot::Bold) => {
                        state.bold_italic_queue.push_back((BIStatus::BoldClose, i));
                        state.bold_italic_queue.push_back((BIStatus::ItalicClose, i));
                        stack = (BISlot::Vacant, BISlot::Vacant);
                    },
                    _ => {},
                }
                i = i + 1;
            },
            _ => {},
        }
        proof {
            let step = toggle_step(nodes@[k as int], stack_old);
            let tagged = step.0.map_values(|t: BIStatus| (t, i_old));
            assert(state@.queue =~= (q0 + emitted) + tagged);
            emitted = emitted + tagged;
            assert(state@.queue =~= q0 + emitted);
            assert(full.0 =~= emitted + toggle_pass(nodes@.skip(k as int + 1), i, stack).0);
        }
        k = k + 1;
    }
    proof {
        assert(nodes@.skip(n as int).len() == 0);
        assert(full.0 =~= emitted);
    }
    // close whatever the run leaves open, innermost first
    match stack.1 {
        BISlot::Bold => state.bold_italic_queue.push_back((BIStatus::BoldClose, i)),
        BISlot::Italic => state.bold_italic_queue.push_back((BIStatus::ItalicClose, i)),
        BISlot::Vacant => {},
    }
    match stack.0 {
        BISlot::Bold => state.bold_italic_queue.push_back((BIStatus::BoldClose, i)),
        BISlot::Italic => state.bold_italic_queue.push_back((BIStatus::ItalicClose, i)),
        BISlot::Vacant => {},
    }
    proof {
        assert(state@.queue =~= q0 + run_entries(nodes@));
    }
    let ghost st_mid = state@;
    let mut out = String::new();
    let mut j: usize = 0;
    proof {
        assert(nodes@.skip(0) =~= nodes@);
        assert(out@ + spec_render_seq(*store, nodes@, st_mid, depth).0 =~= spec_render_seq(
            *store,
            nodes@,
            st_mid,
            depth,
        ).0);
    }
    while j < n
        invariant
            j <= n,
            n == nodes@.len(),
            spec_render_seq(*store, nodes@, st_mid, depth).0 == out@ + spec_render_seq(
                *store,
                nodes@.skip(j as int),
                state@,
                depth,
            ).0,
            spec_render_seq(*store, nodes@, st_mid, depth).1 == spec_render_seq(
                *store,
                nodes@.skip(j as int),
                state@,
                depth,
            ).1,
        decreases n - j,
    {
        proof {
            assert(nodes@.skip(j as int)[0] == nodes@[j as int]);
            assert(nodes@.skip(j as int).drop_first() =~= nodes@.skip(j as int + 1));
        }
        let node = slice_index_get(nodes, j);
        let piece = render_node(node, store, state, depth);
        out.append(piece.as_str());
        j = j + 1;
        proof {
            assert(spec_render_seq(*store, nodes@, st_mid, depth).0 =~= out@ + spec_render_seq(
                *store,
                nodes@.skip(j as int),
                state@,
                depth,
            ).0);
        }
    }
    let cleared = clear_queue(state);
    out.append(cleared.as_str());
    proof {
        assert(out@ =~= spec_render_nodes(*store, nodes@, old(state)@, depth).0);
    }
    out
}

/// Renders a document at the given transclusion depth: a fresh state, the
/// root run wrapped in a paragraph, and empty-paragraph artifacts stripped.
pub fn render_depth(store: &ArticleStore, nodes: &[Node], depth: u64) -> (r: String)
    ensures
        r@ == spec_render(*store, nodes@, depth),
    decreases depth, nodes@, 4int,
{
    let mut state = State::new();
    let body = render_nodes(nodes, store, &mut state, depth);
    let mut full = String::from_str("<p>");
    full.append(body.as_str());
    full.append("</p>");
    proof {
        reveal_strlit("<p></p>");
        reveal_strlit("<p>\n</p>");
        assert(full@ =~= "<p>"@ + body@ + "</p>"@);
    }
    proof {
        reveal_strlit("");
        assert(""@ =~= Seq::<char>::empty());
    }
    let pass1 = replace_all(full.as_str(), "<p></p>", "");
    let pass2 = replace_all(pass1.as_str(), "<p>\n</p>", "");
    pass2
}

/// Renders a document: the root node run, resolved against the store.
pub fn render(store: &ArticleStore, nodes: &[Node]) -> (r: String)
    ensures
        r@ == spec_render(*store, nodes@, MAX_TRANSCLUSION_DEPTH),
{
    render_depth(store, nodes, MAX_TRANSCLUSION_DEPTH)
}

} // verus!
