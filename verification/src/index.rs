use vstd::prelude::*;
use vstd::string::StrSliceExecFns;
use crate::{Date, spec_days_in_month, spec_valid_ymd};

verus! {

/// One line of the index document that parsed: the article's key and its
/// publish date.
#[derive(Debug)]
pub struct IndexEntry {
    pub key: String,
    pub published: Date,
}

/// Mathematical model of an index entry.
pub struct EntryV {
    pub key: Seq<char>,
    pub published: Date,
}

impl View for IndexEntry {
    type V = EntryV;

    open spec fn view(&self) -> EntryV {
        EntryV { key: self.key@, published: self.published }
    }
}

/// The whitespace characters trimmed from an index line.
pub open spec fn spec_is_space(c: char) -> bool {
    c == ' ' || c == '\t' || c == '\r' || c == '\n'
}

/// `s` with its leading whitespace dropped.
pub open spec fn spec_trim_start(s: Seq<char>) -> Seq<char>
    decreases s.len(),
{
    if s.len() > 0 && spec_is_space(s[0]) {
        spec_trim_start(s.drop_first())
    } else {
        s
    }
}

/// `s` with its trailing whitespace dropped.
pub open spec fn spec_trim_end(s: Seq<char>) -> Seq<char>
    decreases s.len(),
{
    if s.len() > 0 && spec_is_space(s.last()) {
        spec_trim_end(s.drop_last())
    } else {
        s
    }
}

/// `s` with leading and trailing whitespace dropped.
pub open spec fn spec_trim(s: Seq<char>) -> Seq<char> {
    spec_trim_end(spec_trim_start(s))
}

/// An ASCII decimal digit.
pub open spec fn spec_is_digit(c: char) -> bool {
    48 <= c as u32 && c as u32 <= 57
}

/// The numeric value of a digit character.
pub open spec fn spec_digit_of(c: char) -> nat {
    (c as u32 - 48) as nat
}

/// How many digit characters stand at position `p` of `s` and onward.
pub open spec fn digit_run_at(s: Seq<char>, p: int) -> nat
    decreases s.len() - p,
{
    if 0 <= p < s.len() && spec_is_digit(s[p]) {
        (1 + digit_run_at(s, p + 1)) as nat
    } else {
        0
    }
}

/// The numeric value of the digit characters of `s` between positions `p`
/// and `q`.
pub open spec fn digits_val_range(s: Seq<char>, p: int, q: int) -> nat
    decreases q - p,
{
    if p < q {
        (digits_val_range(s, p, q - 1) * 10 + spec_digit_of(s[q - 1])) as nat
    } else {
        0
    }
}

/// What one index line yields under the grammar
/// `digits '-' digits '-' digits '-' rest`: the three digit groups must
/// form a valid calendar date, and `rest`, dashes and all, is the key.
pub open spec fn spec_parse_line(s: Seq<char>) -> Option<EntryV> {
    let p1 = digit_run_at(s, 0) as int;
    if p1 == 0 || p1 >= s.len() || s[p1] != '-' {
        None
    } else {
        let m0 = p1 + 1;
        let p2 = m0 + digit_run_at(s, m0);
        if p2 == m0 || p2 >= s.len() || s[p2] != '-' {
            None
        } else {
            let d0 = p2 + 1;
            let p3 = d0 + digit_run_at(s, d0);
            if p3 == d0 || p3 >= s.len() || s[p3] != '-' {
                None
            } else {
                let y = digits_val_range(s, 0, p1);
                let m = digits_val_range(s, m0, p2);
                let d = digits_val_range(s, d0, p3);
                if spec_valid_ymd(y as int, m as int, d as int) {
                    Some(
                        EntryV {
                            key: s.subrange(p3 + 1, s.len() as int),
                            published: Date { year: y as u16, month: m as u8, day: d as u8 },
                        },
                    )
                } else {
                    None
                }
            }
        }
    }
}

/// Whether `c` is one of the trimmed whitespace characters.
fn is_space_char(c: char) -> (r: bool)
    ensures
        r == spec_is_space(c),
{
    c == ' ' || c == '\t' || c == '\r' || c == '\n'
}

/// Whether `c` is an ASCII decimal digit.
fn is_digit_char(c: char) -> (r: bool)
    ensures
        r == spec_is_digit(c),
{
    let u = c as u32;
    48 <= u && u <= 57
}

/// The numeric value of the digit `c`.
fn char_digit_value(c: char) -> (d: u32)
    requires
        spec_is_digit(c),
    ensures
        d == spec_digit_of(c),
{
    c as u32 - 48
}

proof fn lemma_trim_start(s: Seq<char>, a: int)
    requires
        0 <= a <= s.len(),
        forall|j: int| 0 <= j < a ==> spec_is_space(s[j]),
        a < s.len() ==> !spec_is_space(s[a]),
    ensures
        spec_trim_start(s) == s.subrange(a, s.len() as int),
    decreases a,
{
    if a == 0 {
        assert(s.subrange(0, s.len() as int) =~= s);
    } else {
        lemma_trim_start(s.drop_first(), a - 1);
        assert(s.drop_first().subrange(a - 1, s.drop_first().len() as int) =~= s.subrange(
            a,
            s.len() as int,
        ));
    }
}

proof fn lemma_trim_end(s: Seq<char>, b: int)
    requires
        0 <= b <= s.len(),
        forall|j: int| b <= j < s.len() ==> spec_is_space(s[j]),
        b > 0 ==> !spec_is_space(s[b - 1]),
    ensures
        spec_trim_end(s) == s.subrange(0, b),
    decreases s.len(),
{
    if b == s.len() {
        assert(s.subrange(0, b) =~= s);
    } else {
        assert(spec_is_space(s.last()));
        lemma_trim_end(s.drop_last(), b);
        assert(s.drop_last().subrange(0, b) =~= s.subrange(0, b));
    }
}

/// The line with leading and trailing whitespace removed.
pub fn trim_line(s: &str) -> (r: String)
    ensures
        r@ == spec_trim(s@),
{
    let n = s.unicode_len();
    let mut a: usize = 0;
    while a < n && is_space_char(s.get_char(a))
        invariant
            a <= n,
            n == s@.len(),
            forall|j: int| 0 <= j < a ==> spec_is_space(s@[j]),
        decreases n - a,
    {
        a = a + 1;
    }
    let mut b: usize = n;
    while b > a && is_space_char(s.get_char(b - 1))
        invariant
            a <= b <= n,
            n == s@.len(),
            forall|j: int| b <= j < n ==> spec_is_space(s@[j]),
        decreases b,
    {
        b = b - 1;
    }
    proof {
        lemma_trim_start(s@, a as int);
        let u = s@.subrange(a as int, n as int);
        assert forall|j: int| (b - a) <= j < u.len() implies spec_is_space(u[j]) by {
            assert(u[j] == s@[a + j]);
        }
        lemma_trim_end(u, b - a);
        assert(u.subrange(0, b - a) =~= s@.subrange(a as int, b as int));
    }
    s.substring_char(a, b).to_owned()
}

/// Scans the digit run of `s` beginning at `from`: returns the position
/// after the run and its numeric value, saturated at 10000 so that values
/// beyond any valid date component are recognised without overflow.
fn scan_digits(s: &str, n: usize, from: usize) -> (r: (usize, u32))
    requires
        n == s@.len(),
        from <= n,
    ensures
        from <= r.0 <= n,
        r.0 == from + digit_run_at(s@, from as int),
        digits_val_range(s@, from as int, r.0 as int) <= 9999 ==> r.1 == digits_val_range(
            s@,
            from as int,
            r.0 as int,
        ),
        digits_val_range(s@, from as int, r.0 as int) > 9999 ==> r.1 == 10000,
{
    let mut p = from;
    let mut val: u32 = 0;
    while p < n && is_digit_char(s.get_char(p))
        invariant
            from <= p <= n,
            n == s@.len(),
            digit_run_at(s@, from as int) == p - from + digit_run_at(s@, p as int),
            val <= 10000,
            digits_val_range(s@, from as int, p as int) <= 9999 ==> val == digits_val_range(
                s@,
                from as int,
                p as int,
            ),
            digits_val_range(s@, from as int, p as int) > 9999 ==> val == 10000,
        decreases n - p,
    {
        let c = s.get_char(p);
        let d = char_digit_value(c);
        let next = val * 10 + d;
        let ghost prev_val = digits_val_range(s@, from as int, p as int);
        val = if next > 9999 {
            10000
        } else {
            next
        };
        proof {
            assert(digits_val_range(s@, from as int, p + 1) == prev_val * 10 + spec_digit_of(
                s@[p as int],
            ));
            assert(digit_run_at(s@, p as int) == 1 + digit_run_at(s@, p + 1));
        }
        p = p + 1;
    }
    proof {
        assert(digit_run_at(s@, p as int) == 0);
    }
    (p, val)
}

/// Parses one already-trimmed index line into its key and publish date.
/// The result is `Ok` exactly when the line matches the index grammar and
/// names a valid calendar date.
pub fn to_key_and_date(line: &str) -> (r: Result<(String, Date), String>)
    ensures
        match r {
            Ok(p) => spec_parse_line(line@) == Some(EntryV { key: p.0@, published: p.1 }),
            Err(_) => spec_parse_line(line@) is None,
        },
{
    let n = line.unicode_len();
    let (p1, yv) = scan_digits(line, n, 0);
    if p1 == 0 || p1 >= n || line.get_char(p1) != '-' {
        return Err("line does not match the index grammar".to_owned());
    }
    let m0 = p1 + 1;
    let (p2, mv) = scan_digits(line, n, m0);
    if p2 == m0 || p2 >= n || line.get_char(p2) != '-' {
        return Err("line does not match the index grammar".to_owned());
    }
    let d0 = p2 + 1;
    let (p3, dv) = scan_digits(line, n, d0);
    if p3 == d0 || p3 >= n || line.get_char(p3) != '-' {
        return Err("line does not match the index grammar".to_owned());
    }
    if yv > 9999 || mv == 0 || mv > 12 || dv == 0 || dv > 31 {
        return Err("line does not name a valid date".to_owned());
    }
    match Date::new(yv as u16, mv as u8, dv as u8) {
        Some(date) => {
            let key = line.substring_char(p3 + 1, n).to_owned();
            Ok((key, date))
        },
        None => Err("line does not name a valid date".to_owned()),
    }
}

/// How many characters stand before the first newline of `s`.
pub open spec fn first_nl(s: Seq<char>) -> nat
    decreases s.len(),
{
    if s.len() > 0 && s[0] != '\n' {
        (1 + first_nl(s.drop_first())) as nat
    } else {
        0
    }
}

/// The segments of `s` between newline characters, in order, as
/// `split('\n')` yields them: an empty text gives one empty segment.
pub open spec fn spec_split_lines(s: Seq<char>) -> Seq<Seq<char>>
    decreases s.len(),
{
    let q = first_nl(s) as int;
    if q >= s.len() {
        seq![s]
    } else {
        seq![s.subrange(0, q)] + spec_split_lines(s.subrange(q + 1, s.len() as int))
    }
}

proof fn lemma_first_nl(s: Seq<char>, k: int)
    requires
        0 <= k <= s.len(),
        forall|j: int| 0 <= j < k ==> s[j] != '\n',
        k < s.len() ==> s[k] == '\n',
    ensures
        first_nl(s) == k,
    decreases s.len(),
{
    if k > 0 {
        lemma_first_nl(s.drop_first(), k - 1);
    }
}

/// Splits the text into its lines.
pub fn split_lines(text: &str) -> (r: Vec<String>)
    ensures
        r@.map_values(|l: String| l@) == spec_split_lines(text@),
{
    let n = text.unicode_len();
    let mut lines: Vec<String> = Vec::new();
    let mut start: usize = 0;
    let mut p: usize = 0;
    proof {
        assert(text@.subrange(0, n as int) =~= text@);
        assert(lines@.map_values(|l: String| l@) + spec_split_lines(text@) =~= spec_split_lines(
            text@,
        ));
    }
    while p < n
        invariant
            start <= p <= n,
            n == text@.len(),
            forall|j: int| start <= j < p ==> text@[j] != '\n',
            spec_split_lines(text@) == lines@.map_values(|l: String| l@) + spec_split_lines(
                text@.subrange(start as int, n as int),
            ),
        decreases n - p,
    {
        if text.get_char(p) == '\n' {
            let line = text.substring_char(start, p).to_owned();
            lines.push(line);
            proof {
                let sub = text@.subrange(start as int, n as int);
                assert forall|j: int| 0 <= j < p - start implies sub[j] != '\n' by {
                    assert(sub[j] == text@[start + j]);
                }
                assert(sub[p - start] == text@[p as int]);
                lemma_first_nl(sub, p - start);
                assert(sub.subrange(0, p - start) =~= text@.subrange(start as int, p as int));
                assert(sub.subrange(p - start + 1, sub.len() as int) =~= text@.subrange(
                    p + 1,
                    n as int,
                ));
                assert(text@.subrange(start as int, p as int) == line@);
                assert(lines@.map_values(|l: String| l@) =~= lines@.drop_last().map_values(
                    |l: String| l@,
                ) + seq![line@]);
                assert(spec_split_lines(text@) =~= lines@.map_values(|l: String| l@)
                    + spec_split_lines(text@.subrange(p + 1, n as int)));
            }
            start = p + 1;
        }
        p = p + 1;
    }
    let last = text.substring_char(start, n).to_owned();
    lines.push(last);
    proof {
        let sub = text@.subrange(start as int, n as int);
        assert forall|j: int| 0 <= j < sub.len() implies sub[j] != '\n' by {
            assert(sub[j] == text@[start + j]);
        }
        lemma_first_nl(sub, sub.len() as int);
        assert(spec_split_lines(sub) =~= seq![sub]);
        assert(last@ == sub);
        assert(lines@.map_values(|l: String| l@) =~= lines@.drop_last().map_values(|l: String| l@)
            + seq![last@]);
        assert(lines@.map_values(|l: String| l@) =~= spec_split_lines(text@));
    }
    lines
}

/// Whether an index line is passed over: blank after trimming, or a
/// comment starting with `#`.
pub open spec fn spec_line_skipped(line: Seq<char>) -> bool {
    let t = spec_trim(line);
    t.len() == 0 || t[0] == '#'
}

/// The entry one line yields, if any.
pub open spec fn spec_line_entry(line: Seq<char>) -> Option<EntryV> {
    if spec_line_skipped(line) {
        None
    } else {
        spec_parse_line(spec_trim(line))
    }
}

/// Whether a line is reported as malformed: not skipped, yet no entry.
pub open spec fn spec_line_malformed(line: Seq<char>) -> bool {
    !spec_line_skipped(line) && spec_parse_line(spec_trim(line)) is None
}

/// A line that is blank after trimming, or whose trimmed form starts with
/// `#`, never yields an entry.
pub proof fn lemma_skipped_line_yields_no_entry(line: Seq<char>)
    requires
        spec_trim(line).len() == 0 || spec_trim(line)[0] == '#',
    ensures
        spec_line_entry(line) is None,
{
}

/// The entries of a sequence of lines, in document order.
pub open spec fn spec_entries_of_lines(ls: Seq<Seq<char>>) -> Seq<EntryV>
    decreases ls.len(),
{
    if ls.len() == 0 {
        Seq::empty()
    } else {
        spec_entries_of_lines(ls.drop_last()) + match spec_line_entry(ls.last()) {
            Some(e) => seq![e],
            None => Seq::empty(),
        }
    }
}

/// The diagnostics of a sequence of lines: each malformed line, trimmed,
/// in document order.
pub open spec fn spec_diags_of_lines(ls: Seq<Seq<char>>) -> Seq<Seq<char>>
    decreases ls.len(),
{
    if ls.len() == 0 {
        Seq::empty()
    } else {
        spec_diags_of_lines(ls.drop_last()) + if spec_line_malformed(ls.last()) {
            seq![spec_trim(ls.last())]
        } else {
            Seq::empty()
        }
    }
}

/// The entries of a whole index document.
pub open spec fn spec_index_entries(text: Seq<char>) -> Seq<EntryV> {
    spec_entries_of_lines(spec_split_lines(text))
}

/// The diagnostics of a whole index document.
pub open spec fn spec_index_diags(text: Seq<char>) -> Seq<Seq<char>> {
    spec_diags_of_lines(spec_split_lines(text))
}

/// Parses the whole index document: every well-formed data line yields an
/// entry, in document order; blank and `#` lines are passed over; every
/// other line is reported in the diagnostics and parsing continues.
pub fn parse_index(text: &str) -> (r: (Vec<IndexEntry>, Vec<String>))
    ensures
        r.0@.map_values(|e: IndexEntry| e@) == spec_index_entries(text@),
        r.1@.map_values(|d: String| d@) == spec_index_diags(text@),
{
    let lines = split_lines(text);
    let ghost lv = lines@.map_values(|l: String| l@);
    let mut entries: Vec<IndexEntry> = Vec::new();
    let mut diags: Vec<String> = Vec::new();
    let mut i: usize = 0;
    while i < lines.len()
        invariant
            i <= lines@.len(),
            lv == lines@.map_values(|l: String| l@),
            entries@.map_values(|e: IndexEntry| e@) == spec_entries_of_lines(lv.take(i as int)),
            diags@.map_values(|d: String| d@) == spec_diags_of_lines(lv.take(i as int)),
        decreases lines@.len() - i,
    {
        let ghost entries_pre = entries@;
        let ghost diags_pre = diags@;
        let t = trim_line(lines[i].as_str());
        let tlen = t.as_str().unicode_len();
        let skip = tlen == 0 || t.as_str().get_char(0) == '#';
        if !skip {
            match to_key_and_date(t.as_str()) {
                Ok(kd) => {
                    entries.push(IndexEntry { key: kd.0, published: kd.1 });
                },
                Err(_) => {
                    diags.push(t);
                },
            }
        }
        proof {
            assert(lv.take(i + 1).drop_last() =~= lv.take(i as int));
            assert(lv.take(i + 1).last() == lv[i as int]);
            assert(lv[i as int] == lines@[i as int]@);
            assert(entries@.map_values(|e: IndexEntry| e@) =~= spec_entries_of_lines(
                lv.take(i + 1),
            ));
            assert(diags@.map_values(|d: String| d@) =~= spec_diags_of_lines(lv.take(i + 1)));
        }
        i = i + 1;
    }
    proof {
        assert(lv.take(lines@.len() as int) =~= lv);
    }
    (entries, diags)
}

} // verus!
