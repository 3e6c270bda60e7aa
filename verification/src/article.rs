use vstd::prelude::*;
use vstd::string::StringExecFns;
use crate::Date;
use crate::markdown::{render_markdown, spec_markdown_html};
use crate::text::push_char;

verus! {

/// One rendered article: its stable key, a title, the publish date, and a
/// self-contained HTML fragment.
#[derive(Debug)]
pub struct Article {
    pub key: String,
    pub title: String,
    pub published: Date,
    pub content: String,
}

/// Mathematical model of an article.
pub struct ArticleV {
    pub key: Seq<char>,
    pub title: Seq<char>,
    pub published: Date,
    pub content: Seq<char>,
}

impl View for Article {
    type V = ArticleV;

    open spec fn view(&self) -> ArticleV {
        ArticleV {
            key: self.key@,
            title: self.title@,
            published: self.published,
            content: self.content@,
        }
    }
}

/// The article built from a key, a date and a markdown text. The title is
/// a fixed placeholder: it is never derived from the level-1 heading.
pub open spec fn spec_article(key: Seq<char>, date: Date, text: Seq<char>) -> ArticleV {
    ArticleV {
        key,
        title: "The Title"@,
        published: date,
        content: spec_markdown_html(text),
    }
}

impl Article {
    /// Renders the markdown text and assembles the article record.
    pub fn from_key_and_date_and_markdown(key: String, date: Date, markdown: &str) -> (a: Article)
        ensures
            a@ == spec_article(key@, date, markdown@),
    {
        let rendered = render_markdown(markdown);
        Article { key, title: "The Title".to_owned(), published: date, content: rendered.0 }
    }

    /// A fresh article with the same model, field for field.
    pub fn duplicate(&self) -> (a: Article)
        ensures
            a@ == self@,
    {
        Article {
            key: self.key.clone(),
            title: self.title.clone(),
            published: self.published,
            content: self.content.clone(),
        }
    }
}

/// The decimal digit character for a value below ten.
pub open spec fn spec_digit(d: int) -> char {
    if d == 0 {
        '0'
    } else if d == 1 {
        '1'
    } else if d == 2 {
        '2'
    } else if d == 3 {
        '3'
    } else if d == 4 {
        '4'
    } else if d == 5 {
        '5'
    } else if d == 6 {
        '6'
    } else if d == 7 {
        '7'
    } else if d == 8 {
        '8'
    } else {
        '9'
    }
}

/// `n` written with exactly four decimal digits, zero-padded.
pub open spec fn spec_pad4(n: int) -> Seq<char> {
    seq![
        spec_digit(n / 1000 % 10),
        spec_digit(n / 100 % 10),
        spec_digit(n / 10 % 10),
        spec_digit(n % 10),
    ]
}

/// `n` written with exactly two decimal digits, zero-padded.
pub open spec fn spec_pad2(n: int) -> Seq<char> {
    seq![spec_digit(n / 10 % 10), spec_digit(n % 10)]
}

/// The remote path of an article: `{base}/{year}-{month}-{day}-{key}.md`
/// with a four-digit year and two-digit month and day.
pub open spec fn spec_article_path(base: Seq<char>, d: Date, key: Seq<char>) -> Seq<char> {
    base + "/"@ + spec_pad4(d.year as int) + "-"@ + spec_pad2(d.month as int) + "-"@ + spec_pad2(
        d.day as int,
    ) + "-"@ + key + ".md"@
}

/// The digit character for `d`.
fn digit_char(d: u16) -> (c: char)
    requires
        d < 10,
    ensures
        c == spec_digit(d as int),
{
    match d {
        0 => '0',
        1 => '1',
        2 => '2',
        3 => '3',
        4 => '4',
        5 => '5',
        6 => '6',
        7 => '7',
        8 => '8',
        _ => '9',
    }
}

/// Appends the four-digit zero-padded form of `n` to `out`.
fn push_pad4(out: &mut String, n: u16)
    ensures
        final(out)@ == old(out)@ + spec_pad4(n as int),
{
    push_char(out, digit_char(n / 1000 % 10));
    push_char(out, digit_char(n / 100 % 10));
    push_char(out, digit_char(n / 10 % 10));
    push_char(out, digit_char(n % 10));
    proof {
        assert(out@ =~= old(out)@ + spec_pad4(n as int));
    }
}

/// Appends the two-digit zero-padded form of `n` to `out`.
fn push_pad2(out: &mut String, n: u16)
    ensures
        final(out)@ == old(out)@ + spec_pad2(n as int),
{
    push_char(out, digit_char(n / 10 % 10));
    push_char(out, digit_char(n % 10));
    proof {
        assert(out@ =~= old(out)@ + spec_pad2(n as int));
    }
}

/// Computes the deterministic remote path of one article's markdown text.
pub fn article_path(base: &str, date: Date, key: &str) -> (r: String)
    ensures
        r@ == spec_article_path(base@, date, key@),
{
    let mut out = String::new();
    out.append(base);
    out.append("/");
    push_pad4(&mut out, date.year);
    out.append("-");
    push_pad2(&mut out, date.month as u16);
    out.append("-");
    push_pad2(&mut out, date.day as u16);
    out.append("-");
    out.append(key);
    out.append(".md");
    proof {
        assert(out@ =~= spec_article_path(base@, date, key@));
    }
    out
}

} // verus!
