use blog::Date;
use blog::article::article_path;
use blog::index::{parse_index, to_key_and_date};

#[test]
fn well_formed_line_parses_key_and_date() {
    let r = to_key_and_date("2021-05-01-my-article").unwrap();
    assert_eq!(r.0, "my-article");
    assert_eq!(r.1, Date { year: 2021, month: 5, day: 1 });
}

#[test]
fn non_date_line_is_rejected() {
    assert!(to_key_and_date("not-a-date-line").is_err());
}

#[test]
fn key_keeps_its_own_dashes() {
    let r = to_key_and_date("2022-12-31-a-long-key-with-dashes").unwrap();
    assert_eq!(r.0, "a-long-key-with-dashes");
    assert_eq!(r.1, Date { year: 2022, month: 12, day: 31 });
}

#[test]
fn empty_key_is_allowed_by_the_grammar() {
    let r = to_key_and_date("2021-05-01-").unwrap();
    assert_eq!(r.0, "");
}

#[test]
fn out_of_range_date_is_rejected() {
    assert!(to_key_and_date("2021-13-01-key").is_err());
    assert!(to_key_and_date("2021-00-01-key").is_err());
    assert!(to_key_and_date("2021-02-29-key").is_err());
    assert!(to_key_and_date("99999-01-01-key").is_err());
}

#[test]
fn leap_day_parses_in_a_leap_year() {
    let r = to_key_and_date("2020-02-29-leap").unwrap();
    assert_eq!(r.1, Date { year: 2020, month: 2, day: 29 });
}

#[test]
fn blank_and_comment_lines_yield_no_entry() {
    let (entries, diags) = parse_index("\n   \n# a comment\n\t\n");
    assert!(entries.is_empty());
    assert!(diags.is_empty());
}

#[test]
fn entries_come_in_document_order() {
    let text = "# published articles\n2020-01-02-first\n\n2021-05-01-second\n";
    let (entries, diags) = parse_index(text);
    assert_eq!(entries.len(), 2);
    assert_eq!(entries[0].key, "first");
    assert_eq!(entries[0].published, Date { year: 2020, month: 1, day: 2 });
    assert_eq!(entries[1].key, "second");
    assert!(diags.is_empty());
}

#[test]
fn malformed_line_is_reported_and_parsing_continues() {
    let text = "2020-01-02-first\nbroken line\n2021-05-01-second";
    let (entries, diags) = parse_index(text);
    assert_eq!(entries.len(), 2);
    assert_eq!(diags.len(), 1);
    assert_eq!(diags[0], "broken line");
}

#[test]
fn lines_are_trimmed_before_parsing() {
    let (entries, _) = parse_index("  2021-05-01-padded  ");
    assert_eq!(entries.len(), 1);
    assert_eq!(entries[0].key, "padded");
}

#[test]
fn date_validity_follows_the_calendar() {
    assert!(Date::new(2020, 2, 29).is_some());
    assert!(Date::new(2021, 2, 29).is_none());
    assert!(Date::new(1900, 2, 29).is_none());
    assert!(Date::new(2000, 2, 29).is_some());
    assert!(Date::new(2021, 4, 31).is_none());
    assert!(Date::new(2021, 4, 30).is_some());
}

#[test]
fn article_path_is_zero_padded() {
    let d = Date::new(2021, 5, 1).unwrap();
    let p = article_path("https://host.test/blog", d, "my-article");
    assert_eq!(p, "https://host.test/blog/2021-05-01-my-article.md");
}

#[test]
fn article_path_keeps_four_digit_years() {
    let d = Date::new(980, 11, 23).unwrap();
    let p = article_path("b", d, "k");
    assert_eq!(p, "b/0980-11-23-k.md");
}
