//! The mathematical model of rendering.
//!
//! Every specification here is a pure function from the article store, a
//! node (or sequence of nodes) and a [`RenderModel`] to the emitted HTML and
//! the successor state. The executable renderer is proved to compute exactly
//! these functions.
//!
//! The inline reconciler is modelled first: a pass over a sibling run turns
//! each Bold/Italic/BoldItalic toggle into queue entries of open/close tags
//! ([`toggle_pass`]), and rendering drains the queue run by run
//! ([`drain_group`], [`spec_clear_queue`]).

use vstd::prelude::*;
use crate::ast::{DefinitionListItem, DefinitionListItemType, ListItem, Node, TableCaption,
    TableCell, TableCellType, TableRow};
use crate::attrs::attrs_safe;
use crate::state::{BIStatus, RenderModel};
use crate::store::ArticleStore;
use crate::text::{dec_digits, escaped_char, percent_encoded, replaced};

verus! {

/// One slot of the reconciler's two-slot stack of currently open tags.
#[derive(Debug, Clone, Copy, PartialEq, Eq, Structural)]
pub enum BISlot {
    Vacant,
    Bold,
    Italic,
}

/// The stack states the reconciler can reach from a fresh run: at most one
/// bold and one italic tag open, outermost first.
pub open spec fn valid_stack(stack: (BISlot, BISlot)) -> bool {
    match stack {
        (BISlot::Vacant, BISlot::Vacant) => true,
        (BISlot::Bold, BISlot::Vacant) => true,
        (BISlot::Italic, BISlot::Vacant) => true,
        (BISlot::Italic, BISlot::Bold) => true,
        (BISlot::Bold, BISlot::Italic) => true,
        _ => false,
    }
}

/// Tags emitted and successor stack for a bold toggle.
pub open spec fn bold_toggle(stack: (BISlot, BISlot)) -> (Seq<BIStatus>, (BISlot, BISlot)) {
    match stack {
        (BISlot::Vacant, BISlot::Vacant) => (
            seq![BIStatus::BoldOpen],
            (BISlot::Bold, BISlot::Vacant),
        ),
        (BISlot::Italic, BISlot::Vacant) => (
            seq![BIStatus::BoldClose],
            (BISlot::Italic, BISlot::Bold),
        ),
        (BISlot::Italic, BISlot::Bold) => (
            seq![BIStatus::BoldClose],
            (BISlot::Italic, BISlot::Vacant),
        ),
        (BISlot::Bold, BISlot::Vacant) => (
            seq![BIStatus::BoldClose],
            (BISlot::Vacant, BISlot::Vacant),
        ),
        (BISlot::Bold, BISlot::Italic) => (
            seq![BIStatus::ItalicClose, BIStatus::BoldClose, BIStatus::ItalicOpen],
            (BISlot::Italic, BISlot::Vacant),
        ),
        _ => (Seq::empty(), stack),
    }
}

/// Tags emitted and successor stack for an italic toggle; the mirror image
/// of [`bold_toggle`].
pub open spec fn italic_toggle(stack: (BISlot, BISlot)) -> (Seq<BIStatus>, (BISlot, BISlot)) {
    match stack {
        (BISlot::Vacant, BISlot::Vacant) => (
            seq![BIStatus::ItalicOpen],
            (BISlot::Italic, BISlot::Vacant),
        ),
        (BISlot::Bold, BISlot::Vacant) => (
            seq![BIStatus::ItalicClose],
            (BISlot::Bold, BISlot::Italic),
        ),
        (BISlot::Bold, BISlot::Italic) => (
            seq![BIStatus::ItalicClose],
            (BISlot::Bold, BISlot::Vacant),
        ),
        (BISlot::Italic, BISlot::Vacant) => (
            seq![BIStatus::ItalicClose],
            (BISlot::Vacant, BISlot::Vacant),
        ),
        (BISlot::Italic, BISlot::Bold) => (
            seq![BIStatus::BoldClose, BIStatus::ItalicClose, BIStatus::BoldOpen],
            (BISlot::Bold, BISlot::Vacant),
        ),
        _ => (Seq::empty(), stack),
    }
}

/// Tags emitted and successor stack for a combined bold-italic toggle.
pub open spec fn bold_italic_toggle(stack: (BISlot, BISlot)) -> (Seq<BIStatus>, (BISlot, BISlot)) {
    match stack {
        (BISlot::Vacant, BISlot::Vacant) => (
            seq![BIStatus::ItalicOpen, BIStatus::BoldOpen],
            (BISlot::Italic, BISlot::Bold),
        ),
        (BISlot::Bold, BISlot::Vacant) => (
            seq![BIStatus::BoldClose, BIStatus::ItalicOpen],
            (BISlot::Italic, BISlot::Vacant),
        ),
        (BISlot::Bold, BISlot::Italic) => (
            seq![BIStatus::ItalicClose, BIStatus::BoldClose],
            (BISlot::Vacant, BISlot::Vacant),
        ),
        (BISlot::Italic, BISlot::Vacant) => (
            seq![BIStatus::ItalicClose, BIStatus::BoldOpen],
            (BISlot::Bold, BISlot::Vacant),
        ),
        (BISlot::Italic, BISlot::Bold) => (
            seq![BIStatus::BoldClose, BIStatus::ItalicClose],
            (BISlot::Vacant, BISlot::Vacant),
        ),
        _ => (Seq::empty(), stack),
    }
}

/// Whether a node is an inline toggle event.
pub open spec fn is_toggle(node: Node) -> bool {
    node is Bold || node is Italic || node is BoldItalic
}

/// The reconciler step for one node: toggles emit tags and move the stack,
/// every other node leaves both alone.
pub open spec fn toggle_step(node: Node, stack: (BISlot, BISlot)) -> (
    Seq<BIStatus>,
    (BISlot, BISlot),
) {
    match node {
        Node::Bold => bold_toggle(stack),
        Node::Italic => italic_toggle(stack),
        Node::BoldItalic => bold_italic_toggle(stack),
        _ => (Seq::empty(), stack),
    }
}

/// The reconciler pass over a sibling run: each toggle's tags are tagged
/// with the index of the toggle that produced them, and only toggles advance
/// that index. Returns the queue entries, the final index and the final
/// stack.
pub open spec fn toggle_pass(nodes: Seq<Node>, i: usize, stack: (BISlot, BISlot)) -> (
    Seq<(BIStatus, usize)>,
    usize,
    (BISlot, BISlot),
)
    decreases nodes.len(),
{
    if nodes.len() == 0 {
        (Seq::empty(), i, stack)
    } else {
        let (tags, stack1) = toggle_step(nodes[0], stack);
        let tagged = tags.map_values(|t: BIStatus| (t, i));
        let i1: usize = if is_toggle(nodes[0]) && i < usize::MAX {
            (i + 1) as usize
        } else {
            i
        };
        let (rest, i2, stack2) = toggle_pass(nodes.drop_first(), i1, stack1);
        (tagged + rest, i2, stack2)
    }
}

/// The entries that close whatever the stack still holds open at the end of
/// a run: innermost tag first, both tagged with the final index.
pub open spec fn force_close(stack: (BISlot, BISlot), i: usize) -> Seq<(BIStatus, usize)> {
    let last_part = match stack.1 {
        BISlot::Bold => seq![(BIStatus::BoldClose, i)],
        BISlot::Italic => seq![(BIStatus::ItalicClose, i)],
        BISlot::Vacant => Seq::empty(),
    };
    let first_part = match stack.0 {
        BISlot::Bold => seq![(BIStatus::BoldClose, i)],
        BISlot::Italic => seq![(BIStatus::ItalicClose, i)],
        BISlot::Vacant => Seq::empty(),
    };
    last_part + first_part
}

/// All queue entries one sibling run contributes: the toggle pass from a
/// fresh stack, then the forced closes.
pub open spec fn run_entries(nodes: Seq<Node>) -> Seq<(BIStatus, usize)> {
    let (tags, i, stack) = toggle_pass(nodes, 0, (BISlot::Vacant, BISlot::Vacant));
    tags + force_close(stack, i)
}

/// The literal text of one inline tag.
pub open spec fn tag_text(tag: BIStatus) -> Seq<char> {
    match tag {
        BIStatus::BoldOpen => "<b>"@,
        BIStatus::BoldClose => "</b>"@,
        BIStatus::ItalicOpen => "<i>"@,
        BIStatus::ItalicClose => "</i>"@,
    }
}

/// Drains the leading queue entries whose index is `n`, concatenating their
/// tag text; stops at the first entry of another index.
pub open spec fn drain_group_from(queue: Seq<(BIStatus, usize)>, n: usize) -> (
    Seq<char>,
    Seq<(BIStatus, usize)>,
)
    decreases queue.len(),
{
    if queue.len() > 0 && queue[0].1 == n {
        let (out, rest) = drain_group_from(queue.drop_first(), n);
        (tag_text(queue[0].0) + out, rest)
    } else {
        (Seq::empty(), queue)
    }
}

/// Drains the queue's first run: the leading entries that share the first
/// entry's index.
pub open spec fn drain_group(queue: Seq<(BIStatus, usize)>) -> (Seq<char>, Seq<(BIStatus, usize)>) {
    if queue.len() == 0 {
        (Seq::empty(), queue)
    } else {
        drain_group_from(queue, queue[0].1)
    }
}

/// Draining a run never grows the queue, and consumes at least the first
/// entry when it applies to it.
pub proof fn lemma_drain_group_from_len(queue: Seq<(BIStatus, usize)>, n: usize)
    ensures
        drain_group_from(queue, n).1.len() <= queue.len(),
        queue.len() > 0 && queue[0].1 == n ==> drain_group_from(queue, n).1.len() < queue.len(),
    decreases queue.len(),
{
    if queue.len() > 0 && queue[0].1 == n {
        lemma_drain_group_from_len(queue.drop_first(), n);
    }
}

/// The text emitted when the whole queue is drained, run by run.
pub open spec fn spec_clear_queue(queue: Seq<(BIStatus, usize)>) -> Seq<char>
    decreases queue.len(),
    via spec_clear_queue_decreases
{
    if queue.len() == 0 {
        Seq::empty()
    } else {
        let (out, rest) = drain_group(queue);
        out + spec_clear_queue(rest)
    }
}

#[via_fn]
proof fn spec_clear_queue_decreases(queue: Seq<(BIStatus, usize)>) {
    if queue.len() > 0 {
        lemma_drain_group_from_len(queue, queue[0].1);
    }
}

/// Closing a paragraph drains the queue and emits `\n</p>`.
pub open spec fn spec_close_paragraph(st: RenderModel) -> (Seq<char>, RenderModel) {
    (spec_clear_queue(st.queue) + "\n</p>"@, RenderModel { queue: Seq::empty(), ..st })
}

/// Opening a paragraph emits `\n<p>`.
pub open spec fn spec_open_paragraph() -> Seq<char> {
    "\n<p>"@
}

/// A paragraph break drains the queue and closes and reopens the paragraph.
pub open spec fn spec_paragraph_break(st: RenderModel) -> (Seq<char>, RenderModel) {
    (spec_clear_queue(st.queue) + "</p><p>"@, RenderModel { queue: Seq::empty(), ..st })
}

/// The auto-numbering counter after one more bare external link; saturates
/// at the type's maximum.
pub open spec fn next_counter(n: u64) -> u64 {
    if n < u64::MAX {
        (n + 1) as u64
    } else {
        n
    }
}

/// Index of the first space in `s`, if any.
pub open spec fn find_space(s: Seq<char>) -> Option<int>
    decreases s.len(),
{
    if s.len() == 0 {
        Option::None
    } else if s[0] == ' ' {
        Option::Some(0)
    } else {
        match find_space(s.drop_first()) {
            Option::Some(j) => Option::Some(j + 1),
            Option::None => Option::None,
        }
    }
}

/// Index of the first paragraph break among `nodes`, if any.
pub open spec fn find_pbreak(nodes: Seq<Node>) -> Option<int>
    decreases nodes.len(),
{
    if nodes.len() == 0 {
        Option::None
    } else if nodes[0] is ParagraphBreak {
        Option::Some(0)
    } else {
        match find_pbreak(nodes.drop_first()) {
            Option::Some(j) => Option::Some(j + 1),
            Option::None => Option::None,
        }
    }
}

/// A found paragraph break lies within the sequence searched.
pub proof fn lemma_find_pbreak_range(nodes: Seq<Node>)
    ensures
        (match find_pbreak(nodes) {
            Option::Some(p) => 0 <= p < nodes.len() && nodes[p] is ParagraphBreak,
            Option::None => true,
        }),
    decreases nodes.len(),
{
    if nodes.len() > 0 && !(nodes[0] is ParagraphBreak) {
        lemma_find_pbreak_range(nodes.drop_first());
    }
}

/// A found space is the sequence's first one; a miss means there is none.
pub proof fn lemma_find_space_chars(s: Seq<char>)
    ensures
        (match find_space(s) {
            Option::Some(p) => 0 <= p < s.len() && s[p] == ' ' && (forall|k: int|
                0 <= k < p ==> s[k] != ' '),
            Option::None => (forall|k: int| 0 <= k < s.len() ==> s[k] != ' '),
        }),
    decreases s.len(),
{
    if s.len() == 0 {
    } else if s[0] == ' ' {
    } else {
        lemma_find_space_chars(s.drop_first());
        match find_space(s.drop_first()) {
            Option::Some(j) => {
                assert forall|k: int| 0 <= k < j + 1 implies s[k] != ' ' by {
                    if k > 0 {
                        assert(s.drop_first()[k - 1] == s[k]);
                    }
                }
            },
            Option::None => {
                assert forall|k: int| 0 <= k < s.len() implies s[k] != ' ' by {
                    if k > 0 {
                        assert(s.drop_first()[k - 1] == s[k]);
                    }
                }
            },
        }
    }
}

/// The lookup title of a template: its name's literal text tokens,
/// concatenated.
pub open spec fn template_name(name: Seq<Node>) -> Seq<char>
    decreases name.len(),
{
    if name.len() == 0 {
        Seq::empty()
    } else {
        (match name[0] {
            Node::Text { value } => value@,
            _ => Seq::empty(),
        }) + template_name(name.drop_first())
    }
}

/// Rendering of a full sibling run: the reconciler pass appends this run's
/// queue entries, every node is rendered in order, and whatever is left in
/// the queue is drained at the end. The queue is empty afterwards.
pub open spec fn spec_render_nodes(
    store: ArticleStore,
    nodes: Seq<Node>,
    st: RenderModel,
    depth: u64,
) -> (Seq<char>, RenderModel)
    decreases depth, nodes, 3int,
{
    let entries = run_entries(nodes);
    let st1 = RenderModel { queue: st.queue + entries, ..st };
    let (out, st2) = spec_render_seq(store, nodes, st1, depth);
    (out + spec_clear_queue(st2.queue), RenderModel { queue: Seq::empty(), ..st2 })
}

/// Rendering of the nodes of a run, one after the other, threading the
/// state through.
pub open spec fn spec_render_seq(
    store: ArticleStore,
    nodes: Seq<Node>,
    st: RenderModel,
    depth: u64,
) -> (Seq<char>, RenderModel)
    decreases depth, nodes, 2int,
{
    if nodes.len() == 0 {
        (Seq::empty(), st)
    } else {
        let (out, st1) = spec_render_node(store, nodes[0], st, depth);
        let (rest, st2) = spec_render_seq(store, nodes.drop_first(), st1, depth);
        (out + rest, st2)
    }
}

/// Rendering of one node.
pub open spec fn spec_render_node(store: ArticleStore, node: Node, st: RenderModel, depth: u64) -> (
    Seq<char>,
    RenderModel,
)
    decreases depth, node, 9int,
{
    match node {
        Node::Text { value } => (value@, st),
        Node::CharacterEntity { character } => (escaped_char(character), st),
        Node::Bold => {
            let (out, rest) = drain_group(st.queue);
            (out, RenderModel { queue: rest, ..st })
        },
        Node::Italic => {
            let (out, rest) = drain_group(st.queue);
            (out, RenderModel { queue: rest, ..st })
        },
        Node::BoldItalic => {
            let (out, rest) = drain_group(st.queue);
            (out, RenderModel { queue: rest, ..st })
        },
        Node::Link { target, text } => spec_render_link(store, target@, text@, st, depth),
        Node::ExternalLink { nodes } => spec_render_external_link(store, nodes@, st, depth),
        Node::Category { target, ordinal } => spec_render_category(
            store,
            target@,
            ordinal@,
            st,
            depth,
        ),
        Node::HorizontalDivider => {
            let (close_out, st1) = spec_close_paragraph(st);
            (close_out + "<hr>"@ + spec_open_paragraph(), st1)
        },
        Node::OrderedList { items } => spec_render_ordered_list(store, items@, st, depth),
        Node::UnorderedList { items } => spec_render_unordered_list(store, items@, st, depth),
        Node::DefinitionList { items } => spec_render_definition_list(store, items@, st, depth),
        Node::ParagraphBreak => spec_paragraph_break(st),
        Node::Preformatted { nodes } => spec_render_preformatted(store, nodes@, st, depth),
        Node::Heading { level, nodes } => spec_render_heading(store, level, nodes@, st, depth),
        Node::Table { attributes, captions, rows } => {
            let (open_tag, st1) = if attributes@.len() > 0 {
                let (attrs_out, s) = spec_render_nodes(store, attributes@, st, depth);
                (
                    if attrs_safe(attrs_out) {
                        "<table "@ + attrs_out + ">"@
                    } else {
                        "<table>"@
                    },
                    s,
                )
            } else {
                ("<table>"@, st)
            };
            let (caps_out, st2) = spec_render_captions(store, captions@, st1, depth);
            let (close_out, st3) = spec_close_paragraph(st2);
            let (rows_out, st4) = spec_render_rows(store, rows@, st3, depth, false);
            (
                close_out + open_tag + caps_out + "\n"@ + "<tbody>"@ + rows_out + "</tbody>"@
                    + "</table>"@ + spec_open_paragraph(),
                st4,
            )
        },
        Node::Template { name, parameters } => spec_render_template(store, name@, st, depth),
        Node::Comment => (Seq::empty(), st),
        Node::Other => (Seq::empty(), st),
    }
}

/// Rendering of an internal link: the target is recorded, the display text
/// is rendered, and the anchor branches on whether the target exists in the
/// store.
pub open spec fn spec_render_link(
    store: ArticleStore,
    target: Seq<char>,
    text: Seq<Node>,
    st: RenderModel,
    depth: u64,
) -> (Seq<char>, RenderModel)
    decreases depth, text, 8int,
{
    let st1 = RenderModel { internal_links: st.internal_links.push(target), ..st };
    let (inner, st2) = spec_render_nodes(store, text, st1, depth);
    if store.spec_find(target) is Some {
        (
            "<a href=\""@ + st2.read_base_url + percent_encoded(target) + "\">"@ + inner + "</a>"@,
            st2,
        )
    } else {
        (
            "<a class=\"new\" href=\""@ + st2.edit_base_url + percent_encoded(target) + "\">"@
                + inner + "</a>"@,
            st2,
        )
    }
}

/// Rendering of an external link. The first child must be literal text
/// holding the URL; text after the URL's first space, if any, becomes the
/// link text, otherwise the link is auto-numbered.
pub open spec fn spec_render_external_link(
    store: ArticleStore,
    nodes: Seq<Node>,
    st: RenderModel,
    depth: u64,
) -> (Seq<char>, RenderModel)
    decreases depth, nodes, 8int,
{
    if nodes.len() == 0 {
        ("<code>External link does not starts with text node</code>"@, st)
    } else {
        match nodes[0] {
            Node::Text { value } => {
                match find_space(value@) {
                    Option::Some(sp) => {
                        let target = value@.subrange(0, sp);
                        let rest = value@.skip(sp + 1);
                        let (inner, st1) = spec_render_nodes(store, nodes.drop_first(), st, depth);
                        (
                            "<a target=\"_blank\" rel=\"nofollow noreferrer noopener\" class=\"external text\" href=\""@
                                + target + "\">"@ + rest + inner + "</a>"@,
                            st1,
                        )
                    },
                    Option::None => {
                        let n1 = next_counter(st.auto_number);
                        (
                            "<a target=\"_blank\" rel=\"nofollow noreferrer noopener\" class=\"external autonumber\" href=\""@
                                + value@ + "\">["@ + dec_digits(n1 as nat) + "]</a>"@,
                            RenderModel { auto_number: n1, ..st },
                        )
                    },
                }
            },
            _ => ("<code>External link does not starts with text node</code>"@, st),
        }
    }
}

/// Rendering of a category assignment: the ordinal is rendered, the pair is
/// recorded, and nothing is emitted.
pub open spec fn spec_render_category(
    store: ArticleStore,
    target: Seq<char>,
    ordinal: Seq<Node>,
    st: RenderModel,
    depth: u64,
) -> (Seq<char>, RenderModel)
    decreases depth, ordinal, 8int,
{
    let (inner, st1) = spec_render_nodes(store, ordinal, st, depth);
    (Seq::empty(), RenderModel { categories: st1.categories.push((target, inner)), ..st1 })
}

/// Rendering of the items of an ordered or unordered list, newline-joined.
pub open spec fn spec_render_items(
    store: ArticleStore,
    items: Seq<ListItem>,
    st: RenderModel,
    depth: u64,
    sep: bool,
) -> (Seq<char>, RenderModel)
    decreases depth, items, 2int,
{
    if items.len() == 0 {
        (Seq::empty(), st)
    } else {
        let (inner, st1) = spec_render_nodes(store, items[0].nodes@, st, depth);
        let item_out = "<li>"@ + inner + "</li>"@;
        let (rest, st2) = spec_render_items(store, items.drop_first(), st1, depth, true);
        ((if sep { "\n"@ + item_out } else { item_out }) + rest, st2)
    }
}

/// Rendering of an unordered list, paragraph-bounded.
pub open spec fn spec_render_unordered_list(
    store: ArticleStore,
    items: Seq<ListItem>,
    st: RenderModel,
    depth: u64,
) -> (Seq<char>, RenderModel)
    decreases depth, items, 8int,
{
    let (close_out, st1) = spec_close_paragraph(st);
    let (items_out, st2) = spec_render_items(store, items, st1, depth, false);
    (close_out + "<ul>"@ + items_out + "</ul>"@ + spec_open_paragraph(), st2)
}

/// Rendering of an ordered list, paragraph-bounded.
pub open spec fn spec_render_ordered_list(
    store: ArticleStore,
    items: Seq<ListItem>,
    st: RenderModel,
    depth: u64,
) -> (Seq<char>, RenderModel)
    decreases depth, items, 8int,
{
    let (close_out, st1) = spec_close_paragraph(st);
    let (items_out, st2) = spec_render_items(store, items, st1, depth, false);
    (close_out + "<ol>"@ + items_out + "</ol>"@ + spec_open_paragraph(), st2)
}

/// Rendering of the items of a definition list: terms as `<dt>`, details as
/// `<dd>`, newline-joined.
pub open spec fn spec_render_definition_items(
    store: ArticleStore,
    items: Seq<DefinitionListItem>,
    st: RenderModel,
    depth: u64,
    sep: bool,
) -> (Seq<char>, RenderModel)
    decreases depth, items, 2int,
{
    if items.len() == 0 {
        (Seq::empty(), st)
    } else {
        let (inner, st1) = spec_render_nodes(store, items[0].nodes@, st, depth);
        let item_out = match items[0].type_ {
            DefinitionListItemType::Term => "<dt>"@ + inner + "</dt>"@,
            DefinitionListItemType::Details => "<dd>"@ + inner + "</dd>"@,
        };
        let (rest, st2) = spec_render_definition_items(store, items.drop_first(), st1, depth, true);
        ((if sep { "\n"@ + item_out } else { item_out }) + rest, st2)
    }
}

/// Rendering of a definition list, paragraph-bounded.
pub open spec fn spec_render_definition_list(
    store: ArticleStore,
    items: Seq<DefinitionListItem>,
    st: RenderModel,
    depth: u64,
) -> (Seq<char>, RenderModel)
    decreases depth, items, 8int,
{
    let (close_out, st1) = spec_close_paragraph(st);
    let (items_out, st2) = spec_render_definition_items(store, items, st1, depth, false);
    (close_out + "<dl>"@ + items_out + "</dl>"@ + spec_open_paragraph(), st2)
}

/// Rendering of a preformatted block, paragraph-bounded.
pub open spec fn spec_render_preformatted(
    store: ArticleStore,
    nodes: Seq<Node>,
    st: RenderModel,
    depth: u64,
) -> (Seq<char>, RenderModel)
    decreases depth, nodes, 8int,
{
    let (close_out, st1) = spec_close_paragraph(st);
    let (inner, st2) = spec_render_nodes(store, nodes, st1, depth);
    (close_out + "<pre>"@ + inner + "\n</pre>"@ + spec_open_paragraph(), st2)
}

/// Rendering of a heading, paragraph-bounded.
pub open spec fn spec_render_heading(
    store: ArticleStore,
    level: u8,
    nodes: Seq<Node>,
    st: RenderModel,
    depth: u64,
) -> (Seq<char>, RenderModel)
    decreases depth, nodes, 8int,
{
    let (close_out, st1) = spec_close_paragraph(st);
    let (inner, st2) = spec_render_nodes(store, nodes, st1, depth);
    (
        close_out + "<h"@ + dec_digits(level as nat) + ">"@ + inner + "</h"@ + dec_digits(
            level as nat,
        ) + ">"@ + spec_open_paragraph(),
        st2,
    )
}

/// Rendering of a table's captions, in order.
pub open spec fn spec_render_captions(
    store: ArticleStore,
    captions: Seq<TableCaption>,
    st: RenderModel,
    depth: u64,
) -> (Seq<char>, RenderModel)
    decreases depth, captions, 2int,
{
    if captions.len() == 0 {
        (Seq::empty(), st)
    } else {
        let (out, st1) = spec_render_caption(store, captions[0], st, depth);
        let (rest, st2) = spec_render_captions(store, captions.drop_first(), st1, depth);
        (out + rest, st2)
    }
}

/// Rendering of one table caption, with its attributes rendered from their
/// own channel.
pub open spec fn spec_render_caption(
    store: ArticleStore,
    caption: TableCaption,
    st: RenderModel,
    depth: u64,
) -> (Seq<char>, RenderModel)
    decreases depth, caption, 9int,
{
    let (open_tag, st1) = match caption.attributes {
        Option::Some(attrs) => {
            if attrs@.len() > 0 {
                let (attrs_out, s) = spec_render_nodes(store, attrs@, st, depth);
                (
                    if attrs_safe(attrs_out) {
                        "<caption "@ + attrs_out + ">"@
                    } else {
                        "<caption>"@
                    },
                    s,
                )
            } else {
                ("<caption>"@, st)
            }
        },
        Option::None => ("<caption>"@, st),
    };
    let (inner, st2) = spec_render_nodes(store, caption.content@, st1, depth);
    ("\n"@ + open_tag + inner + "\n</caption>"@, st2)
}

/// Rendering of a table's rows, newline-joined.
pub open spec fn spec_render_rows(
    store: ArticleStore,
    rows: Seq<TableRow>,
    st: RenderModel,
    depth: u64,
    sep: bool,
) -> (Seq<char>, RenderModel)
    decreases depth, rows, 2int,
{
    if rows.len() == 0 {
        (Seq::empty(), st)
    } else {
        let (out, st1) = spec_render_row(store, rows[0], st, depth);
        let (rest, st2) = spec_render_rows(store, rows.drop_first(), st1, depth, true);
        ((if sep { "\n"@ + out } else { out }) + rest, st2)
    }
}

/// Rendering of one table row.
pub open spec fn spec_render_row(store: ArticleStore, row: TableRow, st: RenderModel, depth: u64) -> (
    Seq<char>,
    RenderModel,
)
    decreases depth, row, 9int,
{
    let (open_tag, st1) = if row.attributes@.len() > 0 {
        let (attrs_out, s) = spec_render_nodes(store, row.attributes@, st, depth);
        (
            if attrs_safe(attrs_out) {
                "<tr "@ + attrs_out + ">"@
            } else {
                "<tr>"@
            },
            s,
        )
    } else {
        ("<tr>"@, st)
    };
    let (cells_out, st2) = spec_render_cells(store, row.cells@, st1, depth, false);
    (open_tag + "\n"@ + cells_out + "</tr>"@, st2)
}

/// Rendering of a row's cells, newline-joined.
pub open spec fn spec_render_cells(
    store: ArticleStore,
    cells: Seq<TableCell>,
    st: RenderModel,
    depth: u64,
    sep: bool,
) -> (Seq<char>, RenderModel)
    decreases depth, cells, 2int,
{
    if cells.len() == 0 {
        (Seq::empty(), st)
    } else {
        let (out, st1) = spec_render_cell(store, cells[0], st, depth);
        let (rest, st2) = spec_render_cells(store, cells.drop_first(), st1, depth, true);
        ((if sep { "\n"@ + out } else { out }) + rest, st2)
    }
}

/// The opening of a table cell's tag, for a cell with rendered attributes.
pub open spec fn cell_open_attrs(type_: TableCellType) -> Seq<char> {
    match type_ {
        TableCellType::Heading => "<th "@,
        TableCellType::Ordinary => "<td "@,
    }
}

/// The opening tag of a table cell without attributes.
pub open spec fn cell_open(type_: TableCellType) -> Seq<char> {
    match type_ {
        TableCellType::Heading => "<th>"@,
        TableCellType::Ordinary => "<td>"@,
    }
}

/// The closing of a table cell, on its own line.
pub open spec fn cell_close(type_: TableCellType) -> Seq<char> {
    match type_ {
        TableCellType::Heading => "\n</th>"@,
        TableCellType::Ordinary => "\n</td>"@,
    }
}

/// Rendering of one table cell. A paragraph break inside the cell splits
/// its content around an embedded paragraph.
pub open spec fn spec_render_cell(
    store: ArticleStore,
    cell: TableCell,
    st: RenderModel,
    depth: u64,
) -> (Seq<char>, RenderModel)
    decreases depth, cell, 9int,
    via spec_render_cell_decreases
{
    let (open_tag, st1) = match cell.attributes {
        Option::Some(attrs) => {
            if attrs@.len() > 0 {
                let (attrs_out, s) = spec_render_nodes(store, attrs@, st, depth);
                (
                    if attrs_safe(attrs_out) {
                        cell_open_attrs(cell.type_) + attrs_out + ">"@
                    } else {
                        cell_open(cell.type_)
                    },
                    s,
                )
            } else {
                (cell_open(cell.type_), st)
            }
        },
        Option::None => (cell_open(cell.type_), st),
    };
    match find_pbreak(cell.content@) {
        Option::Some(p) => {
            let (before, st2) = spec_render_nodes(store, cell.content@.subrange(0, p), st1, depth);
            let (after, st3) = spec_render_nodes(store, cell.content@.skip(p + 1), st2, depth);
            let (close_out, st4) = spec_close_paragraph(st3);
            (
                open_tag + before + spec_open_paragraph() + after + close_out + cell_close(
                    cell.type_,
                ),
                st4,
            )
        },
        Option::None => {
            let (inner, st2) = spec_render_nodes(store, cell.content@, st1, depth);
            (open_tag + inner + cell_close(cell.type_), st2)
        },
    }
}

#[via_fn]
proof fn spec_render_cell_decreases(
    store: ArticleStore,
    cell: TableCell,
    st: RenderModel,
    depth: u64,
) {
    lemma_find_pbreak_range(cell.content@);
}

/// Rendering of a template transclusion: the name's text tokens form the
/// lookup title; a stored article is rendered as a full document of its own
/// and spliced in place, a missing one leaves a visible placeholder, and an
/// exhausted transclusion depth leaves the error marker.
pub open spec fn spec_render_template(
    store: ArticleStore,
    name: Seq<Node>,
    st: RenderModel,
    depth: u64,
) -> (Seq<char>, RenderModel)
    decreases depth, name, 8int,
{
    let title = template_name(name);
    if depth == 0 {
        ("Error"@, st)
    } else {
        match store.spec_find(title) {
            Option::Some(article_nodes) => (
                spec_render(store, article_nodes, (depth - 1) as u64),
                st,
            ),
            Option::None => ("{"@ + title + "}"@, st),
        }
    }
}

/// Rendering of a full document: a fresh state, the root run wrapped in a
/// paragraph, and empty-paragraph artifacts stripped.
pub open spec fn spec_render(store: ArticleStore, nodes: Seq<Node>, depth: u64) -> Seq<char>
    decreases depth, nodes, 4int,
{
    let (body, st1) = spec_render_nodes(store, nodes, RenderModel::init(), depth);
    replaced(
        replaced("<p>"@ + body + "</p>"@, "<p></p>"@, Seq::empty()),
        "<p>\n</p>"@,
        Seq::empty(),
    )
}

} // verus!
