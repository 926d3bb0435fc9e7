use vstd::prelude::*;

verus! {

/// An article as submitted by a client, with its display counters.
pub struct Article {
    pub title: String,
    pub tags: Vec<String>,
    pub content: String,
    pub user_id: u32,
    pub view_count: u32,
    pub vote_count: i32,
    pub answer_count: u32,
}

impl Article {
    /// A new article with all counters at zero.
    pub fn new(title: String, tags: Vec<String>, content: String, user_id: u32) -> (r: Self)
        ensures
            r.title@ == title@,
            r.tags@ == tags@,
            r.content@ == content@,
            r.user_id == user_id,
            r.view_count == 0,
            r.vote_count == 0,
            r.answer_count == 0,
    {
        Article { title, tags, content, user_id, view_count: 0, vote_count: 0, answer_count: 0 }
    }
}

impl Default for Article {
    fn default() -> (r: Self)
        ensures
            r.title@.len() == 0,
            r.tags@.len() == 0,
            r.content@.len() == 0,
            r.user_id == 0,
            r.view_count == 0,
            r.vote_count == 0,
            r.answer_count == 0,
    {
        Article::new(String::new(), Vec::new(), String::new(), 0)
    }
}

/// The body of a vote request: who votes.
pub struct VoteRequest {
    pub user_id: u32,
}

/// The body of a vote request on an article named in the path.
pub struct Vote {
    pub user_id: u32,
}

/// How a listing of articles is asked for.
pub struct ArticleQuery {
    pub sort: String,
    pub order: String,
    pub limit: u32,
}

/// Sort key used when a query names none.
pub fn default_sort() -> (r: String)
    ensures
        r@ == "time"@,
{
    "time".to_string()
}

/// Sort direction used when a query names none.
pub fn default_order() -> (r: String)
    ensures
        r@ == "desc"@,
{
    "desc".to_string()
}

/// Number of articles listed when a query names no limit.
pub fn default_limit() -> (r: u32)
    ensures
        r == 10,
{
    10
}

impl Default for ArticleQuery {
    fn default() -> (r: Self)
        ensures
            r.sort@ == "time"@,
            r.order@ == "desc"@,
            r.limit == 10,
    {
        ArticleQuery { sort: default_sort(), order: default_order(), limit: default_limit() }
    }
}

} // verus!
