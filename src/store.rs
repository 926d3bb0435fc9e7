use vstd::prelude::*;

verus! {

/// An article as kept by the store. Its identifier is its position in the
/// store, counted from 1.
pub struct StoredArticle {
    pub title: String,
    pub content: String,
    pub author_id: u32,
    pub tags: Vec<String>,
    /// Seconds since the epoch at creation.
    pub created_at: u64,
}

/// Append-only store of article contents; identifiers are never reused.
pub struct ArticleStore {
    articles: Vec<StoredArticle>,
}

impl ArticleStore {
    /// The stored articles; the one with identifier `id` is at `id - 1`.
    pub closed spec fn articles(&self) -> Seq<StoredArticle> {
        self.articles@
    }

    pub fn new() -> (r: Self)
        ensures
            r.articles() == Seq::<StoredArticle>::empty(),
    {
        ArticleStore { articles: Vec::new() }
    }

    /// Number of stored articles, which is also the highest identifier.
    pub fn len(&self) -> (r: usize)
        ensures
            r == self.articles().len(),
    {
        self.articles.len()
    }

    /// Stores `article` under the next identifier.
    pub fn append(&mut self, article: StoredArticle)
        ensures
            final(self).articles() == old(self).articles().push(article),
    {
        self.articles.push(article);
    }

    /// The article with identifier `id`, or `None` when there is none.
    pub fn get(&self, id: u32) -> (r: Option<&StoredArticle>)
        ensures
            r is Some <==> 1 <= id <= self.articles().len(),
            r is Some ==> *r->0 == self.articles()[id - 1],
    {
        if id == 0 || id as usize > self.articles.len() {
            None
        } else {
            Some(&self.articles[(id - 1) as usize])
        }
    }
}

} // verus!
