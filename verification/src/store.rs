//! The article store the renderer resolves against.
//!
//! Internal links check whether their target exists, and template
//! transclusion fetches the target article's parsed wikitext. The store is a
//! read-only, exact-title lookup table, filled by the caller before a render.

use vstd::prelude::*;
use crate::ast::Node;

verus! {

/// One stored article: its full title and its parsed wikitext.
#[derive(Debug)]
pub struct StoredArticle {
    pub title: String,
    pub nodes: Vec<Node>,
}

/// An exact-title lookup table of articles.
#[derive(Debug)]
pub struct ArticleStore {
    pub articles: Vec<StoredArticle>,
}

/// The first article in `articles` whose title is `title`, if any.
pub open spec fn find_in(articles: Seq<StoredArticle>, title: Seq<char>) -> Option<Seq<Node>>
    decreases articles.len(),
{
    if articles.len() == 0 {
        Option::None
    } else if articles[0].title@ == title {
        Option::Some(articles[0].nodes@)
    } else {
        find_in(articles.drop_first(), title)
    }
}

impl ArticleStore {
    /// The article stored under `title`, if any.
    pub open spec fn spec_find(self, title: Seq<char>) -> Option<Seq<Node>> {
        find_in(self.articles@, title)
    }

    /// An empty store.
    pub fn new() -> (s: ArticleStore)
        ensures
            s.articles@.len() == 0,
    {
        ArticleStore { articles: Vec::new() }
    }

    /// Adds an article under `title`; an article stored earlier under the
    /// same title shadows it.
    pub fn add(&mut self, title: String, nodes: Vec<Node>)
        ensures
            final(self).articles@ == old(self).articles@ + seq![
                (StoredArticle { title, nodes }),
            ],
    {
        self.articles.push(StoredArticle { title, nodes });
    }

    /// Looks `title` up, returning the first article stored under it.
    pub fn find_article(&self, title: &String) -> (r: Option<&Vec<Node>>)
        ensures
            (match r {
                Option::Some(nodes) => self.spec_find(title@) == Option::Some(nodes@),
                Option::None => self.spec_find(title@) is None,
            }),
    {
        let n = self.articles.len();
        let mut i: usize = 0;
        proof {
            assert(self.articles@.skip(0) =~= self.articles@);
        }
        while i < n
            invariant
                i <= n,
                n == self.articles@.len(),
                find_in(self.articles@, title@) == find_in(self.articles@.skip(i as int), title@),
            decreases n - i,
        {
            proof {
                assert(self.articles@.skip(i as int)[0] == self.articles@[i as int]);
            }
            if self.articles[i].title.eq(title) {
                return Some(&self.articles[i].nodes);
            }
            proof {
                assert(self.articles@.skip(i as int).drop_first() =~= self.articles@.skip(
                    i as int + 1,
                ));
            }
            i = i + 1;
        }
        proof {
            assert(self.articles@.skip(n as int).len() == 0);
        }
        None
    }
}

} // verus!
