//! Draining of the inline reconciler's queue.
//!
//! [`render_bold_italic`] emits the queue's leading run of tags (the entries
//! that share the first entry's toggle index); [`clear_queue`] drains the
//! whole queue, as paragraph and block boundaries demand.

use vstd::prelude::*;
use crate::model::{drain_group, drain_group_from, lemma_drain_group_from_len, spec_clear_queue,
    tag_text};
use crate::state::{BIStatus, RenderModel, State};

verus! {

/// Pops and emits the queue's leading run: contiguous entries sharing the
/// first entry's toggle index, concatenated as literal tags.
pub fn render_bold_italic(state: &mut State) -> (r: String)
    ensures
        r@ == drain_group(old(state)@.queue).0,
        final(state)@ == (RenderModel { queue: drain_group(old(state)@.queue).1, ..old(state)@ }),
{
    let mut res = String::new();
    if state.bold_italic_queue.len() == 0 {
        return res;
    }
    let group: usize = state.bold_italic_queue[0].1;
    while state.bold_italic_queue.len() > 0 && state.bold_italic_queue[0].1 == group
        invariant
            res@ + drain_group_from(state@.queue, group).0 == drain_group_from(
                old(state)@.queue,
                group,
            ).0,
            drain_group_from(state@.queue, group).1 == drain_group_from(
                old(state)@.queue,
                group,
            ).1,
            state@ == (RenderModel { queue: state@.queue, ..old(state)@ }),
        decreases state@.queue.len(),
    {
        let (tag, _n) = state.bold_italic_queue[0];
        proof {
            assert(state@.queue.drop_first() =~= state@.queue.subrange(
                1,
                state@.queue.len() as int,
            ));
        }
        match tag {
            BIStatus::BoldOpen => res.append("<b>"),
            BIStatus::BoldClose => res.append("</b>"),
            BIStatus::ItalicOpen => res.append("<i>"),
            BIStatus::ItalicClose => res.append("</i>"),
        }
        state.bold_italic_queue.pop_front();
        proof {
            assert(res@ + drain_group_from(state@.queue, group).0 =~= drain_group_from(
                old(state)@.queue,
                group,
            ).0);
        }
    }
    res
}

/// Drains the whole queue, emitting its tags run by run.
pub fn clear_queue(state: &mut State) -> (r: String)
    ensures
        r@ == spec_clear_queue(old(state)@.queue),
        final(state)@ == (RenderModel { queue: Seq::empty(), ..old(state)@ }),
{
    let mut ret = String::new();
    proof {
        assert(ret@ + spec_clear_queue(state@.queue) =~= spec_clear_queue(old(state)@.queue));
    }
    while state.bold_italic_queue.len() > 0
        invariant
            ret@ + spec_clear_queue(state@.queue) == spec_clear_queue(old(state)@.queue),
            state@ == (RenderModel { queue: state@.queue, ..old(state)@ }),
        decreases state@.queue.len(),
    {
        proof {
            lemma_drain_group_from_len(state@.queue, state@.queue[0].1);
        }
        let s = render_bold_italic(state);
        ret.append(s.as_str());
        proof {
            assert(ret@ + spec_clear_queue(state@.queue) =~= spec_clear_queue(old(state)@.queue));
        }
    }
    proof {
        assert(ret@ =~= ret@ + spec_clear_queue(state@.queue));
    }
    ret
}

} // verus!
