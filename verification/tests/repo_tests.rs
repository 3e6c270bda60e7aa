use blog::Date;
use blog::article::Article;
use blog::auth::AuthGuard;
use blog::index::{parse_index, IndexEntry};
use blog::repo::ArticleDb;

fn entry(key: &str, y: u16, m: u8, d: u8) -> IndexEntry {
    IndexEntry { key: key.to_string(), published: Date::new(y, m, d).unwrap() }
}

#[test]
fn lookup_in_empty_repository_finds_nothing() {
    let db = ArticleDb::new();
    assert!(db.article_for("missing").is_none());
    assert!(db.list().is_empty());
}

#[test]
fn successful_refresh_publishes_one_article_per_entry() {
    let mut db = ArticleDb::new();
    let entries = vec![entry("a", 2020, 1, 1), entry("b", 2020, 1, 2), entry("c", 2020, 1, 3)];
    let contents: Vec<Result<String, String>> = vec![
        Ok("first *a*".to_string()),
        Ok("second".to_string()),
        Ok("third".to_string()),
    ];
    assert!(db.refresh(&entries, &contents).is_ok());
    assert_eq!(db.list().len(), 3);
    let a = db.article_for("a").unwrap();
    assert_eq!(a.key, "a");
    assert_eq!(a.title, "The Title");
    assert_eq!(a.published, Date { year: 2020, month: 1, day: 1 });
    assert_eq!(a.content, "<p>first <em>a</em></p>");
    assert!(db.article_for("missing").is_none());
}

#[test]
fn failed_fetch_leaves_snapshot_untouched() {
    let mut db = ArticleDb::new();
    let entries = vec![entry("a", 2020, 1, 1), entry("b", 2020, 1, 2)];
    let contents: Vec<Result<String, String>> =
        vec![Ok("one".to_string()), Ok("two".to_string())];
    assert!(db.refresh(&entries, &contents).is_ok());
    let before: Vec<Article> = db.list();

    let entries3 =
        vec![entry("x", 2021, 1, 1), entry("y", 2021, 1, 2), entry("z", 2021, 1, 3)];
    let contents3: Vec<Result<String, String>> = vec![
        Ok("ex".to_string()),
        Err("connection reset".to_string()),
        Ok("zed".to_string()),
    ];
    let r = db.refresh(&entries3, &contents3);
    assert_eq!(r.unwrap_err(), "connection reset");

    let after: Vec<Article> = db.list();
    assert_eq!(before.len(), after.len());
    for (b, a) in before.iter().zip(after.iter()) {
        assert_eq!(b.key, a.key);
        assert_eq!(b.title, a.title);
        assert_eq!(b.published, a.published);
        assert_eq!(b.content, a.content);
    }
    assert!(db.article_for("x").is_none());
}

#[test]
fn mismatched_inputs_are_refused() {
    let mut db = ArticleDb::new();
    let entries = vec![entry("a", 2020, 1, 1)];
    let contents: Vec<Result<String, String>> = vec![];
    assert!(db.refresh(&entries, &contents).is_err());
    assert!(db.list().is_empty());
}

#[test]
fn repeated_key_keeps_the_later_article() {
    let mut db = ArticleDb::new();
    let entries = vec![entry("a", 2020, 1, 1), entry("a", 2021, 2, 2)];
    let contents: Vec<Result<String, String>> =
        vec![Ok("old".to_string()), Ok("new".to_string())];
    assert!(db.refresh(&entries, &contents).is_ok());
    assert_eq!(db.list().len(), 1);
    let a = db.article_for("a").unwrap();
    assert_eq!(a.content, "<p>new</p>");
    assert_eq!(a.published, Date { year: 2021, month: 2, day: 2 });
}

#[test]
fn refresh_is_deterministic_for_equal_remote_content() {
    let entries = vec![entry("a", 2020, 1, 1), entry("b", 2020, 1, 2)];
    let contents: Vec<Result<String, String>> = vec![
        Ok("## T\n\nbody *em* `c`".to_string()),
        Ok("- a\n- b".to_string()),
    ];
    let mut db1 = ArticleDb::new();
    let mut db2 = ArticleDb::new();
    assert!(db1.refresh(&entries, &contents).is_ok());
    assert!(db2.refresh(&entries, &contents).is_ok());
    let a1 = db1.article_for("a").unwrap();
    let a2 = db2.article_for("a").unwrap();
    assert_eq!(a1.content, a2.content);
    let b1 = db1.article_for("b").unwrap();
    let b2 = db2.article_for("b").unwrap();
    assert_eq!(b1.content, b2.content);
    assert!(db1.refresh(&entries, &contents).is_ok());
    let a1b = db1.article_for("a").unwrap();
    assert_eq!(a1.content, a1b.content);
}

#[test]
fn refresh_drives_from_a_parsed_index() {
    let (entries, diags) = parse_index("2020-01-02-first\n2021-05-01-second\n");
    assert!(diags.is_empty());
    let contents: Vec<Result<String, String>> =
        vec![Ok("one".to_string()), Ok("two".to_string())];
    let mut db = ArticleDb::new();
    assert!(db.refresh(&entries, &contents).is_ok());
    assert_eq!(db.list().len(), 2);
    assert_eq!(db.article_for("second").unwrap().content, "<p>two</p>");
}

#[test]
fn article_construction_uses_placeholder_title() {
    let a = Article::from_key_and_date_and_markdown(
        "k".to_string(),
        Date::new(2020, 6, 7).unwrap(),
        "# Real Title\n\nbody",
    );
    assert_eq!(a.title, "The Title");
    assert_eq!(a.content, "<p>body</p>");
}

#[test]
fn auth_guard_accepts_exactly_the_admin_key() {
    let guard = AuthGuard("the-admin-key".to_string());
    assert!(guard.check(Some("the-admin-key".as_bytes())));
    assert!(!guard.check(Some("wrong".as_bytes())));
    assert!(!guard.check(Some("".as_bytes())));
    assert!(!guard.check(None));
}
