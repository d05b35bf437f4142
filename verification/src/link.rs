//! The link renderers: internal links, external links and categories.

use vstd::prelude::*;
use vstd::slice::slice_subrange;
use crate::ast::Node;
use crate::model::{find_space, lemma_find_space_chars, spec_render_category,
    spec_render_external_link, spec_render_link};
use crate::renderer::render_nodes;
use crate::state::{CategoryLink, State};
use crate::store::ArticleStore;
use crate::text::push_percent_encoded;

verus! {

/// Index of the first space of `s`, if any.
fn find_first_space(s: &str) -> (r: Option<usize>)
    ensures
        (match r {
            Option::Some(i) => find_space(s@) == Option::Some(i as int),
            Option::None => find_space(s@) is None,
        }),
{
    let n = s.unicode_len();
    let mut i: usize = 0;
    while i < n
        invariant
            i <= n,
            n == s@.len(),
            forall|k: int| 0 <= k < i ==> s@[k] != ' ',
        decreases n - i,
    {
        if s.get_char(i) == ' ' {
            proof {
                lemma_find_space_chars(s@);
            }
            return Some(i);
        }
        i = i + 1;
    }
    proof {
        lemma_find_space_chars(s@);
    }
    None
}

/// Renders an internal link: records the target, renders the display text,
/// and emits an anchor whose class and base URL depend on whether the
/// target exists in the store.
pub fn render_internal_link(
    target: &str,
    text: &[Node],
    store: &ArticleStore,
    state: &mut State,
    depth: u64,
) -> (r: String)
    ensures
        r@ == spec_render_link(*store, target@, text@, old(state)@, depth).0,
        final(state)@ == spec_render_link(*store, target@, text@, old(state)@, depth).1,
    decreases depth, text@, 8int,
{
    let key = target.to_owned();
    state.internal_links.push(target.to_owned());
    proof {
        assert(state@.internal_links =~= old(state)@.internal_links.push(target@));
    }
    let text_rendered = render_nodes(text, store, state, depth);
    match store.find_article(&key) {
        Some(_) => {
            let mut r = String::from_str("<a href=\"");
            r.append(state.read_base_url.as_str());
            push_percent_encoded(&mut r, target);
            r.append("\">");
            r.append(text_rendered.as_str());
            r.append("</a>");
            proof {
                assert(r@ =~= spec_render_link(*store, target@, text@, old(state)@, depth).0);
            }
            r
        },
        None => {
            let mut r = String::from_str("<a class=\"new\" href=\"");
            r.append(state.edit_base_url.as_str());
            push_percent_encoded(&mut r, target);
            r.append("\">");
            r.append(text_rendered.as_str());
            r.append("</a>");
            proof {
                assert(r@ =~= spec_render_link(*store, target@, text@, old(state)@, depth).0);
            }
            r
        },
    }
}

/// Renders an external link: the first child must be literal text holding
/// the URL. Text after the URL's first space becomes the link text; without
/// one the link is auto-numbered.
pub fn render_external_link(
    nodes: &[Node],
    store: &ArticleStore,
    state: &mut State,
    depth: u64,
) -> (r: String)
    ensures
        r@ == spec_render_external_link(*store, nodes@, old(state)@, depth).0,
        final(state)@ == spec_render_external_link(*store, nodes@, old(state)@, depth).1,
    decreases depth, nodes@, 8int,
{
    if nodes.len() == 0 {
        return String::from_str("<code>External link does not starts with text node</code>");
    }
    let first = vstd::slice::slice_index_get(nodes, 0);
    match first {
        Node::Text { value } => {
            match find_first_space(value.as_str()) {
                Some(sp) => {
                    let len = value.as_str().unicode_len();
                    proof {
                        lemma_find_space_chars(value@);
                    }
                    let target = value.as_str().substring_char(0, sp);
                    let rest = value.as_str().substring_char(sp + 1, len);
                    let tail = slice_subrange(nodes, 1, nodes.len());
                    proof {
                        assert(tail@ =~= nodes@.drop_first());
                    }
                    let inner = render_nodes(tail, store, state, depth);
                    let mut r = String::from_str(
                        "<a target=\"_blank\" rel=\"nofollow noreferrer noopener\" class=\"external text\" href=\"",
                    );
                    r.append(target);
                    r.append("\">");
                    r.append(rest);
                    r.append(inner.as_str());
                    r.append("</a>");
                    proof {
                        assert(value@.skip(sp + 1) =~= value@.subrange(sp + 1, value@.len() as int));
                        assert(r@ =~= spec_render_external_link(
                            *store,
                            nodes@,
                            old(state)@,
                            depth,
                        ).0);
                    }
                    r
                },
                None => {
                    let n1 = if state.external_link_auto_number < u64::MAX {
                        state.external_link_auto_number + 1
                    } else {
                        state.external_link_auto_number
                    };
                    state.external_link_auto_number = n1;
                    let mut r = String::from_str(
                        "<a target=\"_blank\" rel=\"nofollow noreferrer noopener\" class=\"external autonumber\" href=\"",
                    );
                    r.append(value.as_str());
                    r.append("\">[");
                    crate::text::push_decimal(&mut r, n1);
                    r.append("]</a>");
                    proof {
                        assert(r@ =~= spec_render_external_link(
                            *store,
                            nodes@,
                            old(state)@,
                            depth,
                        ).0);
                    }
                    r
                },
            }
        },
        _ => String::from_str("<code>External link does not starts with text node</code>"),
    }
}

/// Renders a category assignment: renders the ordinal, records the pair,
/// and emits nothing.
pub fn render_category(
    target: &str,
    ordinal: &[Node],
    store: &ArticleStore,
    state: &mut State,
    depth: u64,
) -> (r: String)
    ensures
        r@ == spec_render_category(*store, target@, ordinal@, old(state)@, depth).0,
        final(state)@ == spec_render_category(*store, target@, ordinal@, old(state)@, depth).1,
    decreases depth, ordinal@, 8int,
{
    let ordinal_rendered = render_nodes(ordinal, store, state, depth);
    state.categories.push(CategoryLink { target: target.to_owned(), ordinal: ordinal_rendered });
    proof {
        assert(state@.categories =~= spec_render_category(
            *store,
            target@,
            ordinal@,
            old(state)@,
            depth,
        ).1.categories);
    }
    String::new()
}

} // verus!
