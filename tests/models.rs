use forum_server::db::create_redis_client;
use forum_server::models::{default_limit, default_order, default_sort, Article, ArticleQuery};

#[test]
fn query_defaults() {
    assert_eq!(default_sort(), "time");
    assert_eq!(default_order(), "desc");
    assert_eq!(default_limit(), 10);
    let q = ArticleQuery::default();
    assert_eq!(q.sort, "time");
    assert_eq!(q.order, "desc");
    assert_eq!(q.limit, 10);
}

#[test]
fn new_article_has_zero_counters() {
    let a = Article::new("t".to_string(), vec!["x".to_string()], "c".to_string(), 3);
    assert_eq!(a.title, "t");
    assert_eq!(a.content, "c");
    assert_eq!(a.user_id, 3);
    assert_eq!(a.view_count, 0);
    assert_eq!(a.vote_count, 0);
    assert_eq!(a.answer_count, 0);
    let d = Article::default();
    assert!(d.title.is_empty() && d.tags.is_empty() && d.user_id == 0);
}

#[test]
fn redis_client_accepts_redis_urls_only() {
    assert!(create_redis_client("redis://127.0.0.1:6379/").is_ok());
    assert!(create_redis_client("").is_err());
    assert!(create_redis_client("http://127.0.0.1:6379/").is_err());
    assert!(create_redis_client("not a url").is_err());
}
