//! Per-render mutable state.
//!
//! One `render` call owns one [`State`] exclusively: the FIFO queue of
//! pending inline tags produced by the bold/italic reconciler, the
//! external-link auto-numbering counter, and the accumulators of internal
//! link targets and category assignments. The ghost [`RenderModel`] is the
//! mathematical view of that state which every contract speaks of.

use vstd::prelude::*;
use std::collections::VecDeque;

verus! {

/// One pending inline tag emitted by the bold/italic reconciler.
#[derive(Debug, Clone, Copy, PartialEq, Eq, Structural)]
pub enum BIStatus {
    BoldOpen,
    BoldClose,
    ItalicOpen,
    ItalicClose,
}

/// One recorded category assignment: the category's target title and the
/// rendered ordinal text.
#[derive(Debug)]
pub struct CategoryLink {
    pub target: String,
    pub ordinal: String,
}

/// The mathematical view of a render call's state.
#[verifier::ext_equal]
pub ghost struct RenderModel {
    /// Base URL prefixed to links onto existing articles.
    pub read_base_url: Seq<char>,
    /// Base URL prefixed to links onto missing articles.
    pub edit_base_url: Seq<char>,
    /// Pending inline tags, each tagged with the index of the toggle run
    /// that produced it.
    pub queue: Seq<(BIStatus, usize)>,
    /// The external-link auto-numbering counter.
    pub auto_number: u64,
    /// Targets of the internal links encountered, in order.
    pub internal_links: Seq<Seq<char>>,
    /// Category assignments encountered, in order: target and rendered
    /// ordinal.
    pub categories: Seq<(Seq<char>, Seq<char>)>,
}

impl RenderModel {
    /// The state a fresh render call starts from.
    pub open spec fn init() -> RenderModel {
        RenderModel {
            read_base_url: "/wiki/"@,
            edit_base_url: "/edit/"@,
            queue: Seq::empty(),
            auto_number: 0,
            internal_links: Seq::empty(),
            categories: Seq::empty(),
        }
    }
}

/// The mutable state of one render call.
#[derive(Debug)]
pub struct State {
    pub read_base_url: String,
    pub edit_base_url: String,
    pub bold_italic_queue: VecDeque<(BIStatus, usize)>,
    pub external_link_auto_number: u64,
    pub internal_links: Vec<String>,
    pub categories: Vec<CategoryLink>,
}

impl View for State {
    type V = RenderModel;

    open spec fn view(&self) -> RenderModel {
        RenderModel {
            read_base_url: self.read_base_url@,
            edit_base_url: self.edit_base_url@,
            queue: self.bold_italic_queue@,
            auto_number: self.external_link_auto_number,
            internal_links: self.internal_links@.map_values(|s: String| s@),
            categories: self.categories@.map_values(|c: CategoryLink| (c.target@, c.ordinal@)),
        }
    }
}

impl State {
    /// A fresh state for one render call.
    pub fn new() -> (s: State)
        ensures
            s@ == RenderModel::init(),
    {
        let s = State {
            read_base_url: String::from_str("/wiki/"),
            edit_base_url: String::from_str("/edit/"),
            bold_italic_queue: VecDeque::new(),
            external_link_auto_number: 0,
            internal_links: Vec::new(),
            categories: Vec::new(),
        };
        proof {
            assert(s@.internal_links =~= Seq::<Seq<char>>::empty());
            assert(s@.categories =~= Seq::<(Seq<char>, Seq<char>)>::empty());
            assert(s@ =~= RenderModel::init());
        }
        s
    }
}

} // verus!
