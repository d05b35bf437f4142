//! The template transclusion renderer.

use vstd::prelude::*;
use vstd::slice::slice_index_get;
use crate::ast::{Node, TemplateParameter};
use crate::model::{spec_render_template, template_name};
use crate::renderer::render_depth;
use crate::state::State;
use crate::store::ArticleStore;

verus! {

/// Concatenates the literal text tokens of a template's name into its
/// lookup title.
fn render_template_name(name: &[Node]) -> (r: String)
    ensures
        r@ == template_name(name@),
{
    let mut r = String::new();
    let n = name.len();
    let mut j: usize = 0;
    proof {
        assert(name@.skip(0) =~= name@);
    }
    while j < n
        invariant
            j <= n,
            n == name@.len(),
            template_name(name@) == r@ + template_name(name@.skip(j as int)),
        decreases n - j,
    {
        proof {
            assert(name@.skip(j as int)[0] == name@[j as int]);
            assert(name@.skip(j as int).drop_first() =~= name@.skip(j as int + 1));
        }
        let node = slice_index_get(name, j);
        match node {
            Node::Text { value } => {
                r.append(value.as_str());
            },
            _ => {},
        }
        j = j + 1;
        proof {
            assert(template_name(name@) =~= r@ + template_name(name@.skip(j as int)));
        }
    }
    proof {
        assert(r@ =~= r@ + template_name(name@.skip(n as int)));
    }
    r
}

/// The visible placeholder left in place of a missing template.
pub fn render_template_not_found(title: &str) -> (r: String)
    ensures
        r@ == "{"@ + title@ + "}"@,
{
    let mut r = String::from_str("{");
    r.append(title);
    r.append("}");
    proof {
        assert(r@ =~= "{"@ + title@ + "}"@);
    }
    r
}

/// Renders a template transclusion: looks the name's title up in the store,
/// splices the found article rendered as a document of its own, and leaves
/// a placeholder for a missing one. An exhausted transclusion depth leaves
/// the error marker instead.
pub fn render_template(
    name: &[Node],
    parameters: &[TemplateParameter],
    store: &ArticleStore,
    state: &mut State,
    depth: u64,
) -> (r: String)
    ensures
        r@ == spec_render_template(*store, name@, old(state)@, depth).0,
        final(state)@ == spec_render_template(*store, name@, old(state)@, depth).1,
    decreases depth, name@, 8int,
{
    let full_title = render_template_name(name);
    if depth == 0 {
        return String::from_str("Error");
    }
    match store.find_article(&full_title) {
        Some(article_nodes) => render_depth(store, article_nodes.as_slice(), depth - 1),
        None => render_template_not_found(full_title.as_str()),
    }
}

} // verus!
