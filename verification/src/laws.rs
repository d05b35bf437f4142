//! Laws of the renderer, stated and proved against the model.
//!
//! The inline reconciler's output is held to an HTML tag machine: within
//! one run, the stream of emitted `<b>`/`<i>` tags is well nested and
//! balanced, provided the run's toggles never demand the one move the
//! reconciler answers with an unmatched close (a single-kind toggle while
//! only the other kind is open, as in `''a'''b`).

use vstd::prelude::*;
use crate::ast::Node;
use crate::headings::{count_prefix_eq, count_suffix_eq, find_nl, heading_level,
    lemma_find_nl_chars, render_heading_line, spec_render_headings, trimmed};
use crate::model::{find_space, run_entries, spec_paragraph_break, spec_clear_queue, spec_render,
    spec_render_external_link, spec_render_node, spec_render_nodes, spec_render_seq, toggle_pass,
    toggle_step, BISlot};
use crate::state::{BIStatus, RenderModel};
use crate::store::ArticleStore;
use crate::text::{dec_digits, is_ws, replaced, trim_end_len, trim_start_len};

verus! {

/// A run of `=` characters of the given length.
pub open spec fn marker(len: nat) -> Seq<char> {
    Seq::new(len, |i: int| '=')
}

/// A sequence of `=` characters with a non-`=` behind it starts with
/// exactly that run.
proof fn lemma_count_prefix_exact(s: Seq<char>, k: int)
    requires
        0 <= k < s.len(),
        forall|i: int| 0 <= i < k ==> s[i] == '=',
        s[k] != '=',
    ensures
        count_prefix_eq(s) == k,
    decreases k,
{
    if k == 0 {
    } else {
        assert(s[0] == '=');
        lemma_count_prefix_exact(s.drop_first(), k - 1);
    }
}

/// A sequence of `=` characters with a non-`=` before it ends with exactly
/// that run.
proof fn lemma_count_suffix_exact(s: Seq<char>, k: int)
    requires
        0 <= k < s.len(),
        forall|i: int| s.len() - k <= i < s.len() ==> s[i] == '=',
        s[s.len() - k - 1] != '=',
    ensures
        count_suffix_eq(s) == k,
    decreases k,
{
    if k == 0 {
    } else {
        assert(s[s.len() - 1] == '=');
        lemma_count_suffix_exact(s.drop_last(), k - 1);
    }
}

/// Law: a line of `L` markers around `x`, for any level `L` from one to
/// six, renders to exactly the heading of that level holding `x`.
pub proof fn lemma_heading_markers(level: u8)
    requires
        1 <= level <= 6,
    ensures
        spec_render_headings(marker(level as nat) + seq!['x'] + marker(level as nat)) == "<h"@
            + dec_digits(level as nat) + ">x</h"@ + dec_digits(level as nat) + ">"@,
{
    let l = level as int;
    let line = marker(level as nat) + seq!['x'] + marker(level as nat);
    assert(line.len() == 2 * l + 1);
    assert forall|k: int| 0 <= k < line.len() implies line[k] != '\n' && is_ws(line[k]) == false by {
        if k < l {
            assert(line[k] == '=');
        } else if k == l {
            assert(line[k] == 'x');
        } else {
            assert(line[k] == '=');
        }
    }
    lemma_find_nl_chars(line);
    assert(find_nl(line) is None);
    assert(spec_render_headings(line) == render_heading_line(line));
    assert(!is_ws(line[line.len() - 1]));
    assert(trim_end_len(line) == line.len());
    let t = line.subrange(0, trim_end_len(line));
    assert(t =~= line);
    assert(line[l] == 'x');
    lemma_count_prefix_exact(line, l);
    lemma_count_suffix_exact(line, l);
    assert(heading_level(line) == l);
    let content = line.subrange(l, line.len() - l);
    assert(content =~= seq!['x']);
    assert(trim_end_len(content) == 1);
    assert(content.subrange(0, 1) =~= content);
    assert(trim_start_len(content) == 0);
    assert(trimmed(content) =~= seq!['x']);
    assert(render_heading_line(line) =~= "<h"@ + dec_digits(level as nat) + ">"@ + seq!['x']
        + "</h"@ + dec_digits(level as nat) + ">"@);
    reveal_strlit(">");
    reveal_strlit(">x</h");
    reveal_strlit("</h");
    assert(">"@ + seq!['x'] + "</h"@ =~= ">x</h"@);
    assert("<h"@ + dec_digits(level as nat) + ">"@ + seq!['x'] + "</h"@ + dec_digits(level as nat)
        + ">"@ =~= "<h"@ + dec_digits(level as nat) + ">x</h"@ + dec_digits(level as nat) + ">"@);
}

/// The emitted text of `k` paragraph breaks in a row.
spec fn pbreaks(k: nat) -> Seq<char>
    decreases k,
{
    if k == 0 {
        Seq::empty()
    } else {
        "</p><p>"@ + pbreaks((k - 1) as nat)
    }
}

/// A run without toggle nodes contributes no reconciler entries.
proof fn lemma_no_toggle_entries(nodes: Seq<Node>, i: usize, stack: (BISlot, BISlot))
    requires
        forall|k: int| 0 <= k < nodes.len() ==> !crate::model::is_toggle(nodes[k]),
    ensures
        toggle_pass(nodes, i, stack) == (Seq::<(crate::state::BIStatus, usize)>::empty(), i, stack),
    decreases nodes.len(),
{
    if nodes.len() > 0 {
        assert(!crate::model::is_toggle(nodes[0]));
        assert(toggle_step(nodes[0], stack) == (Seq::<crate::state::BIStatus>::empty(), stack));
        assert(Seq::<crate::state::BIStatus>::empty().map_values(
            |t: crate::state::BIStatus| (t, i),
        ) =~= Seq::<(crate::state::BIStatus, usize)>::empty());
        assert forall|k: int| 0 <= k < nodes.drop_first().len() implies !crate::model::is_toggle(
            nodes.drop_first()[k],
        ) by {
            assert(nodes.drop_first()[k] == nodes[k + 1]);
        }
        lemma_no_toggle_entries(nodes.drop_first(), i, stack);
        assert(toggle_pass(nodes, i, stack).0 =~= Seq::<(crate::state::BIStatus, usize)>::empty());
    }
}

/// The entries of a run without toggle nodes are empty.
proof fn lemma_no_toggle_run_entries(nodes: Seq<Node>)
    requires
        forall|k: int| 0 <= k < nodes.len() ==> !crate::model::is_toggle(nodes[k]),
    ensures
        run_entries(nodes) == Seq::<(crate::state::BIStatus, usize)>::empty(),
{
    lemma_no_toggle_entries(nodes, 0, (BISlot::Vacant, BISlot::Vacant));
    assert(run_entries(nodes) =~= Seq::<(crate::state::BIStatus, usize)>::empty());
}

/// Rendering a run of paragraph breaks from an empty queue emits one
/// close-and-reopen pair per break and leaves the state as it was.
proof fn lemma_pb_seq(store: ArticleStore, nodes: Seq<Node>, st: RenderModel, depth: u64)
    requires
        forall|k: int| 0 <= k < nodes.len() ==> nodes[k] is ParagraphBreak,
        st.queue.len() == 0,
    ensures
        spec_render_seq(store, nodes, st, depth).0 == pbreaks(nodes.len() as nat),
        spec_render_seq(store, nodes, st, depth).1 == st,
    decreases nodes.len(),
{
    if nodes.len() > 0 {
        assert(nodes[0] is ParagraphBreak);
        assert(spec_render_node(store, nodes[0], st, depth) == spec_paragraph_break(st));
        assert(spec_clear_queue(st.queue) =~= Seq::<char>::empty());
        let st1 = RenderModel { queue: Seq::empty(), ..st };
        assert(st1.queue =~= st.queue);
        assert(st1 =~= st);
        assert(spec_paragraph_break(st).0 =~= "</p><p>"@);
        assert forall|k: int| 0 <= k < nodes.drop_first().len() implies nodes.drop_first()[k]
            is ParagraphBreak by {
            assert(nodes.drop_first()[k] == nodes[k + 1]);
        }
        lemma_pb_seq(store, nodes.drop_first(), st, depth);
        assert(spec_render_seq(store, nodes, st, depth).0 =~= pbreaks(nodes.len() as nat));
    }
}

/// Stripping every empty paragraph from a paragraph wrap around `k`
/// close-and-reopen pairs leaves nothing.
proof fn lemma_strip_pbreaks(k: nat)
    ensures
        replaced("<p>"@ + pbreaks(k) + "</p>"@, "<p></p>"@, Seq::empty()) == Seq::<char>::empty(),
    decreases k,
{
    reveal_strlit("<p>");
    reveal_strlit("</p>");
    reveal_strlit("<p></p>");
    reveal_strlit("</p><p>");
    let s = "<p>"@ + pbreaks(k) + "</p>"@;
    assert(s.subrange(0, 7) =~= "<p></p>"@);
    assert(replaced(s, "<p></p>"@, Seq::empty()) == Seq::<char>::empty() + replaced(
        s.skip(7),
        "<p></p>"@,
        Seq::empty(),
    ));
    if k == 0 {
        assert(s.len() == 7);
        assert(s.skip(7) =~= Seq::<char>::empty());
        assert(replaced(s, "<p></p>"@, Seq::empty()) =~= Seq::<char>::empty());
    } else {
        assert(s.skip(7) =~= "<p>"@ + pbreaks((k - 1) as nat) + "</p>"@);
        lemma_strip_pbreaks((k - 1) as nat);
        assert(replaced(s, "<p></p>"@, Seq::empty()) =~= Seq::<char>::empty());
    }
}

/// Law: the empty document, and every document of nothing but paragraph
/// breaks, renders to the empty string — no stray empty paragraphs remain.
pub proof fn lemma_paragraph_breaks_collapse(store: ArticleStore, nodes: Seq<Node>, depth: u64)
    requires
        forall|k: int| 0 <= k < nodes.len() ==> nodes[k] is ParagraphBreak,
    ensures
        spec_render(store, nodes, depth) == Seq::<char>::empty(),
{
    let st0 = RenderModel::init();
    assert forall|k: int| 0 <= k < nodes.len() implies !crate::model::is_toggle(nodes[k]) by {
        assert(nodes[k] is ParagraphBreak);
    }
    lemma_no_toggle_run_entries(nodes);
    let st1 = RenderModel { queue: st0.queue + run_entries(nodes), ..st0 };
    assert(st1.queue =~= st0.queue);
    assert(st1 =~= st0);
    lemma_pb_seq(store, nodes, st1, depth);
    let (body, st2) = spec_render_nodes(store, nodes, st0, depth);
    assert(spec_clear_queue(st1.queue) =~= Seq::<char>::empty());
    assert(body =~= pbreaks(nodes.len() as nat));
    lemma_strip_pbreaks(nodes.len() as nat);
    assert("<p>"@ + body + "</p>"@ =~= "<p>"@ + pbreaks(nodes.len() as nat) + "</p>"@);
    reveal_strlit("<p>\n</p>");
    assert(replaced(Seq::empty(), "<p>\n</p>"@, Seq::empty()) =~= Seq::<char>::empty());
}

/// Law: two consecutive bare external links in one run number themselves
/// one and two. The counter lives in the per-call state, so a fresh render
/// call starts counting at one again.
pub proof fn lemma_external_link_autonumber(
    store: ArticleStore,
    a: Node,
    b: Node,
    u1: Seq<char>,
    u2: Seq<char>,
    st: RenderModel,
    depth: u64,
)
    requires
        a matches (Node::ExternalLink { nodes: an }) && an@.len() == 1 && (an@[0] matches (
        Node::Text { value: av }) && av@ == u1),
        b matches (Node::ExternalLink { nodes: bn }) && bn@.len() == 1 && (bn@[0] matches (
        Node::Text { value: bv }) && bv@ == u2),
        find_space(u1) is None,
        find_space(u2) is None,
        st.queue.len() == 0,
        st.auto_number == 0,
    ensures
        spec_render_nodes(store, seq![a, b], st, depth).0 == (
        "<a target=\"_blank\" rel=\"nofollow noreferrer noopener\" class=\"external autonumber\" href=\""@
            + u1 + "\">[1]</a>"@
            + "<a target=\"_blank\" rel=\"nofollow noreferrer noopener\" class=\"external autonumber\" href=\""@
            + u2 + "\">[2]</a>"@),
        spec_render_nodes(store, seq![a, b], st, depth).1 == (RenderModel { auto_number: 2, ..st }),
{
    let ns = seq![a, b];
    assert forall|k: int| 0 <= k < ns.len() implies !crate::model::is_toggle(ns[k]) by {
        if k == 0 {
            assert(ns[0] == a);
        } else {
            assert(ns[1] == b);
        }
    }
    assert(ns.drop_first() =~= seq![b]);
    assert(seq![b].drop_first() =~= Seq::<Node>::empty());
    lemma_no_toggle_run_entries(ns);
    let st1 = RenderModel { queue: st.queue + run_entries(ns), ..st };
    assert(st1.queue =~= st.queue);
    assert(st1 =~= st);
    // the first link takes number one
    let e1 = spec_render_external_link(store, (a->ExternalLink_nodes)@, st1, depth);
    let st2 = RenderModel { auto_number: 1, ..st1 };
    assert(e1.1 == st2);
    // the second link takes number two
    let e2 = spec_render_external_link(store, (b->ExternalLink_nodes)@, st2, depth);
    let st3 = RenderModel { auto_number: 2, ..st2 };
    assert(e2.1 == st3);
    assert(ns[0] == a);
    assert(spec_render_node(store, a, st1, depth) == e1);
    assert(seq![b][0] == b);
    assert(spec_render_node(store, b, st2, depth) == e2);
    assert(spec_render_seq(store, Seq::<Node>::empty(), e2.1, depth) == (
        Seq::<char>::empty(),
        e2.1,
    ));
    assert(spec_render_seq(store, seq![b], st2, depth).0 =~= e2.0);
    assert(spec_render_seq(store, seq![b], st2, depth).1 == st3);
    assert(dec_digits(1) =~= seq!['1']);
    assert(dec_digits(2) =~= seq!['2']);
    reveal_strlit("\">[");
    reveal_strlit("]</a>");
    reveal_strlit("\">[1]</a>");
    reveal_strlit("\">[2]</a>");
    assert("\">["@ + dec_digits(1) + "]</a>"@ =~= "\">[1]</a>"@);
    assert("\">["@ + dec_digits(2) + "]</a>"@ =~= "\">[2]</a>"@);
    assert(spec_render_seq(store, ns, st1, depth).0 =~= e1.0 + e2.0);
    assert(spec_render_seq(store, ns, st1, depth).1 == st3);
    assert(spec_clear_queue(st3.queue) =~= Seq::<char>::empty());
    assert(spec_render_nodes(store, ns, st, depth).0 =~= e1.0 + e2.0);
    let fin = RenderModel { queue: Seq::empty(), ..st3 };
    assert(fin =~= (RenderModel { auto_number: 2, ..st }));
    assert(e1.0 =~= (
    "<a target=\"_blank\" rel=\"nofollow noreferrer noopener\" class=\"external autonumber\" href=\""@
        + u1 + "\">[1]</a>"@));
    assert(e2.0 =~= (
    "<a target=\"_blank\" rel=\"nofollow noreferrer noopener\" class=\"external autonumber\" href=\""@
        + u2 + "\">[2]</a>"@));
}

/// The kinds of tags a run of queue entries emits, in order.
pub open spec fn statuses(entries: Seq<(BIStatus, usize)>) -> Seq<BIStatus> {
    entries.map_values(|e: (BIStatus, usize)| e.0)
}

/// The open inline tags a reconciler stack stands for, outermost first.
pub open spec fn stack_opens(stack: (BISlot, BISlot)) -> Seq<BISlot> {
    match stack {
        (BISlot::Vacant, BISlot::Vacant) => Seq::empty(),
        (BISlot::Bold, BISlot::Vacant) => seq![BISlot::Bold],
        (BISlot::Italic, BISlot::Vacant) => seq![BISlot::Italic],
        (BISlot::Italic, BISlot::Bold) => seq![BISlot::Italic, BISlot::Bold],
        (BISlot::Bold, BISlot::Italic) => seq![BISlot::Bold, BISlot::Italic],
        _ => Seq::empty(),
    }
}

/// An HTML tag machine over a tag stream: an open tag pushes, a close tag
/// must close the innermost open tag. `None` marks a mis-nested or
/// unmatched close; otherwise the tags left open remain.
pub open spec fn machine_run(tokens: Seq<BIStatus>, open: Seq<BISlot>) -> Option<Seq<BISlot>>
    decreases tokens.len(),
{
    if tokens.len() == 0 {
        Option::Some(open)
    } else {
        match tokens[0] {
            BIStatus::BoldOpen => machine_run(tokens.drop_first(), open.push(BISlot::Bold)),
            BIStatus::ItalicOpen => machine_run(tokens.drop_first(), open.push(BISlot::Italic)),
            BIStatus::BoldClose => if open.len() > 0 && open.last() == BISlot::Bold {
                machine_run(tokens.drop_first(), open.drop_last())
            } else {
                Option::None
            },
            BIStatus::ItalicClose => if open.len() > 0 && open.last() == BISlot::Italic {
                machine_run(tokens.drop_first(), open.drop_last())
            } else {
                Option::None
            },
        }
    }
}

/// A tag stream is well nested when the machine accepts it from no open
/// tags back to no open tags.
pub open spec fn well_nested(tokens: Seq<BIStatus>) -> bool {
    machine_run(tokens, Seq::empty()) == Option::Some(Seq::<BISlot>::empty())
}

/// Count of one tag kind in a stream.
pub open spec fn count_tag(tokens: Seq<BIStatus>, t: BIStatus) -> int
    decreases tokens.len(),
{
    if tokens.len() == 0 {
        0
    } else {
        (if tokens[0] == t {
            1int
        } else {
            0int
        }) + count_tag(tokens.drop_first(), t)
    }
}

/// Count of one slot kind among the open tags, innermost first.
pub open spec fn count_slot(open: Seq<BISlot>, s: BISlot) -> int
    decreases open.len(),
{
    if open.len() == 0 {
        0
    } else {
        (if open.last() == s {
            1int
        } else {
            0int
        }) + count_slot(open.drop_last(), s)
    }
}

/// A run's toggles are admissible when no single-kind toggle arrives while
/// only the other kind is open: the two moves the reconciler answers with
/// an unmatched close.
pub open spec fn toggles_admissible(nodes: Seq<Node>, stack: (BISlot, BISlot)) -> bool
    decreases nodes.len(),
{
    if nodes.len() == 0 {
        true
    } else {
        let ok = match nodes[0] {
            Node::Bold => stack != (BISlot::Italic, BISlot::Vacant),
            Node::Italic => stack != (BISlot::Bold, BISlot::Vacant),
            _ => true,
        };
        ok && toggles_admissible(nodes.drop_first(), toggle_step(nodes[0], stack).1)
    }
}

/// Running a concatenated stream runs its parts in order.
proof fn lemma_machine_run_concat(x: Seq<BIStatus>, y: Seq<BIStatus>, open: Seq<BISlot>)
    ensures
        machine_run(x + y, open) == (match machine_run(x, open) {
            Option::Some(o) => machine_run(y, o),
            Option::None => Option::None::<Seq<BISlot>>,
        }),
    decreases x.len(),
{
    if x.len() == 0 {
        assert(x + y =~= y);
    } else {
        assert((x + y)[0] == x[0]);
        assert((x + y).drop_first() =~= x.drop_first() + y);
        match x[0] {
            BIStatus::BoldOpen => {
                lemma_machine_run_concat(x.drop_first(), y, open.push(BISlot::Bold));
            },
            BIStatus::ItalicOpen => {
                lemma_machine_run_concat(x.drop_first(), y, open.push(BISlot::Italic));
            },
            BIStatus::BoldClose => {
                if open.len() > 0 && open.last() == BISlot::Bold {
                    lemma_machine_run_concat(x.drop_first(), y, open.drop_last());
                }
            },
            BIStatus::ItalicClose => {
                if open.len() > 0 && open.last() == BISlot::Italic {
                    lemma_machine_run_concat(x.drop_first(), y, open.drop_last());
                }
            },
        }
    }
}

/// One admissible toggle moves the machine from the stack's open tags to
/// the successor stack's open tags, closing only innermost tags.
proof fn lemma_toggle_step_machine(node: Node, stack: (BISlot, BISlot))
    requires
        crate::model::valid_stack(stack),
        node is Bold ==> stack != (BISlot::Italic, BISlot::Vacant),
        node is Italic ==> stack != (BISlot::Bold, BISlot::Vacant),
    ensures
        crate::model::valid_stack(toggle_step(node, stack).1),
        machine_run(toggle_step(node, stack).0, stack_opens(stack)) == Option::Some(
            stack_opens(toggle_step(node, stack).1),
        ),
{
    let b = BISlot::Bold;
    let i = BISlot::Italic;
    assert(Seq::<BISlot>::empty().push(b) =~= seq![b]);
    assert(Seq::<BISlot>::empty().push(i) =~= seq![i]);
    assert(seq![i].push(b) =~= seq![i, b]);
    assert(seq![b].push(i) =~= seq![b, i]);
    assert(seq![b].drop_last() =~= Seq::<BISlot>::empty());
    assert(seq![i].drop_last() =~= Seq::<BISlot>::empty());
    assert(seq![i, b].drop_last() =~= seq![i]);
    assert(seq![b, i].drop_last() =~= seq![b]);
    reveal_with_fuel(machine_run, 5);
    let bo = BIStatus::BoldOpen;
    let bc = BIStatus::BoldClose;
    let io = BIStatus::ItalicOpen;
    let ic = BIStatus::ItalicClose;
    assert(seq![bo].drop_first() =~= Seq::<BIStatus>::empty());
    assert(seq![bc].drop_first() =~= Seq::<BIStatus>::empty());
    assert(seq![io].drop_first() =~= Seq::<BIStatus>::empty());
    assert(seq![ic].drop_first() =~= Seq::<BIStatus>::empty());
    assert(seq![ic, bc, io].drop_first() =~= seq![bc, io]);
    assert(seq![bc, io].drop_first() =~= seq![io]);
    assert(seq![bc, ic, bo].drop_first() =~= seq![ic, bo]);
    assert(seq![ic, bo].drop_first() =~= seq![bo]);
    assert(seq![io, bo].drop_first() =~= seq![bo]);
    assert(seq![ic, bc].drop_first() =~= seq![bc]);
    assert(seq![bc, ic].drop_first() =~= seq![ic]);
}

/// An admissible toggle pass moves the machine from the starting stack's
/// open tags to the final stack's open tags.
proof fn lemma_toggle_pass_machine(nodes: Seq<Node>, idx: usize, stack: (BISlot, BISlot))
    requires
        crate::model::valid_stack(stack),
        toggles_admissible(nodes, stack),
    ensures
        crate::model::valid_stack(toggle_pass(nodes, idx, stack).2),
        machine_run(statuses(toggle_pass(nodes, idx, stack).0), stack_opens(stack))
            == Option::Some(stack_opens(toggle_pass(nodes, idx, stack).2)),
    decreases nodes.len(),
{
    if nodes.len() == 0 {
        assert(statuses(Seq::<(BIStatus, usize)>::empty()) =~= Seq::<BIStatus>::empty());
    } else {
        let step = toggle_step(nodes[0], stack);
        lemma_toggle_step_machine(nodes[0], stack);
        let i1: usize = if crate::model::is_toggle(nodes[0]) && idx < usize::MAX {
            (idx + 1) as usize
        } else {
            idx
        };
        lemma_toggle_pass_machine(nodes.drop_first(), i1, step.1);
        let tagged = step.0.map_values(|t: BIStatus| (t, idx));
        let rest = toggle_pass(nodes.drop_first(), i1, step.1);
        assert(statuses(tagged + rest.0) =~= step.0 + statuses(rest.0));
        lemma_machine_run_concat(step.0, statuses(rest.0), stack_opens(stack));
    }
}

/// Closing whatever a valid stack still holds open is accepted by the
/// machine and leaves nothing open.
proof fn lemma_force_close_machine(stack: (BISlot, BISlot), idx: usize)
    requires
        crate::model::valid_stack(stack),
    ensures
        machine_run(statuses(crate::model::force_close(stack, idx)), stack_opens(stack))
            == Option::Some(Seq::<BISlot>::empty()),
{
    reveal_with_fuel(machine_run, 4);
    let b = BISlot::Bold;
    let i = BISlot::Italic;
    let bc = BIStatus::BoldClose;
    let ic = BIStatus::ItalicClose;
    assert(seq![b].drop_last() =~= Seq::<BISlot>::empty());
    assert(seq![i].drop_last() =~= Seq::<BISlot>::empty());
    assert(seq![i, b].drop_last() =~= seq![i]);
    assert(seq![b, i].drop_last() =~= seq![b]);
    assert(statuses(Seq::<(BIStatus, usize)>::empty()) =~= Seq::<BIStatus>::empty());
    assert(statuses(seq![(bc, idx)]) =~= seq![bc]);
    assert(statuses(seq![(ic, idx)]) =~= seq![ic]);
    assert(statuses(seq![(bc, idx), (ic, idx)]) =~= seq![bc, ic]);
    assert(statuses(seq![(ic, idx), (bc, idx)]) =~= seq![ic, bc]);
    assert(seq![bc].drop_first() =~= Seq::<BIStatus>::empty());
    assert(seq![ic].drop_first() =~= Seq::<BIStatus>::empty());
    assert(seq![bc, ic].drop_first() =~= seq![ic]);
    assert(seq![ic, bc].drop_first() =~= seq![bc]);
    assert(Seq::<(BIStatus, usize)>::empty() + seq![(bc, idx)] =~= seq![(bc, idx)]);
    assert(Seq::<(BIStatus, usize)>::empty() + seq![(ic, idx)] =~= seq![(ic, idx)]);
    assert(Seq::<(BIStatus, usize)>::empty() + Seq::<(BIStatus, usize)>::empty() =~= Seq::<(
        BIStatus,
        usize,
    )>::empty());
    assert(seq![(bc, idx)] + seq![(ic, idx)] =~= seq![(bc, idx), (ic, idx)]);
    assert(seq![(ic, idx)] + seq![(bc, idx)] =~= seq![(ic, idx), (bc, idx)]);
    assert(seq![(bc, idx)] + Seq::<(BIStatus, usize)>::empty() =~= seq![(bc, idx)]);
    assert(seq![(ic, idx)] + Seq::<(BIStatus, usize)>::empty() =~= seq![(ic, idx)]);
}

/// Law: within one run whose toggles are admissible, the inline tags the
/// reconciler emits — toggle answers and forced closes together — form a
/// well-nested tag stream: every close matches the innermost open tag, and
/// nothing stays open.
pub proof fn lemma_inline_run_well_nested(nodes: Seq<Node>)
    requires
        toggles_admissible(nodes, (BISlot::Vacant, BISlot::Vacant)),
    ensures
        well_nested(statuses(run_entries(nodes))),
{
    let start = (BISlot::Vacant, BISlot::Vacant);
    lemma_toggle_pass_machine(nodes, 0, start);
    let (toks, fi, fs) = toggle_pass(nodes, 0, start);
    lemma_force_close_machine(fs, fi);
    assert(statuses(toks + crate::model::force_close(fs, fi)) =~= statuses(toks) + statuses(
        crate::model::force_close(fs, fi),
    ));
    lemma_machine_run_concat(
        statuses(toks),
        statuses(crate::model::force_close(fs, fi)),
        Seq::empty(),
    );
    assert(stack_opens(start) =~= Seq::<BISlot>::empty());
}

/// An accepted stream's closes of each kind number its opens plus the tags
/// of that kind it was entered with and leaves open.
proof fn lemma_machine_run_counts(tokens: Seq<BIStatus>, open: Seq<BISlot>, t: BISlot)
    requires
        t is Bold || t is Italic,
        machine_run(tokens, open) is Some,
    ensures
        count_tag(tokens, (if t is Bold {
            BIStatus::BoldOpen
        } else {
            BIStatus::ItalicOpen
        })) + count_slot(open, t) == count_tag(
            tokens,
            (if t is Bold {
                BIStatus::BoldClose
            } else {
                BIStatus::ItalicClose
            }),
        ) + count_slot(machine_run(tokens, open).unwrap(), t),
    decreases tokens.len(),
{
    if tokens.len() == 0 {
    } else {
        let to = if t is Bold {
            BIStatus::BoldOpen
        } else {
            BIStatus::ItalicOpen
        };
        let tc = if t is Bold {
            BIStatus::BoldClose
        } else {
            BIStatus::ItalicClose
        };
        assert(count_tag(tokens, to) == (if tokens[0] == to {
            1int
        } else {
            0int
        }) + count_tag(tokens.drop_first(), to));
        assert(count_tag(tokens, tc) == (if tokens[0] == tc {
            1int
        } else {
            0int
        }) + count_tag(tokens.drop_first(), tc));
        match tokens[0] {
            BIStatus::BoldOpen => {
                assert(machine_run(tokens, open) == machine_run(
                    tokens.drop_first(),
                    open.push(BISlot::Bold),
                ));
                lemma_machine_run_counts(tokens.drop_first(), open.push(BISlot::Bold), t);
                assert(open.push(BISlot::Bold).drop_last() =~= open);
                assert(open.push(BISlot::Bold).last() == BISlot::Bold);
                assert(count_slot(open.push(BISlot::Bold), t) == (if BISlot::Bold == t {
                    1int
                } else {
                    0int
                }) + count_slot(open, t));
            },
            BIStatus::ItalicOpen => {
                assert(machine_run(tokens, open) == machine_run(
                    tokens.drop_first(),
                    open.push(BISlot::Italic),
                ));
                lemma_machine_run_counts(tokens.drop_first(), open.push(BISlot::Italic), t);
                assert(open.push(BISlot::Italic).drop_last() =~= open);
                assert(open.push(BISlot::Italic).last() == BISlot::Italic);
                assert(count_slot(open.push(BISlot::Italic), t) == (if BISlot::Italic == t {
                    1int
                } else {
                    0int
                }) + count_slot(open, t));
            },
            BIStatus::BoldClose => {
                assert(open.len() > 0 && open.last() == BISlot::Bold);
                assert(machine_run(tokens, open) == machine_run(
                    tokens.drop_first(),
                    open.drop_last(),
                ));
                lemma_machine_run_counts(tokens.drop_first(), open.drop_last(), t);
                assert(count_slot(open, t) == (if open.last() == t {
                    1int
                } else {
                    0int
                }) + count_slot(open.drop_last(), t));
            },
            BIStatus::ItalicClose => {
                assert(open.len() > 0 && open.last() == BISlot::Italic);
                assert(machine_run(tokens, open) == machine_run(
                    tokens.drop_first(),
                    open.drop_last(),
                ));
                lemma_machine_run_counts(tokens.drop_first(), open.drop_last(), t);
                assert(count_slot(open, t) == (if open.last() == t {
                    1int
                } else {
                    0int
                }) + count_slot(open.drop_last(), t));
            },
        }
    }
}

/// Law: within one run whose toggles are admissible, the reconciler emits
/// as many bold closes as bold opens, and as many italic closes as italic
/// opens.
pub proof fn lemma_inline_run_balanced(nodes: Seq<Node>)
    requires
        toggles_admissible(nodes, (BISlot::Vacant, BISlot::Vacant)),
    ensures
        count_tag(statuses(run_entries(nodes)), BIStatus::BoldOpen) == count_tag(
            statuses(run_entries(nodes)),
            BIStatus::BoldClose,
        ),
        count_tag(statuses(run_entries(nodes)), BIStatus::ItalicOpen) == count_tag(
            statuses(run_entries(nodes)),
            BIStatus::ItalicClose,
        ),
{
    lemma_inline_run_well_nested(nodes);
    lemma_machine_run_counts(statuses(run_entries(nodes)), Seq::empty(), BISlot::Bold);
    lemma_machine_run_counts(statuses(run_entries(nodes)), Seq::empty(), BISlot::Italic);
}

} // verus!
