use vstd::prelude::*;
use vstd::pervasive::unreached;
use crate::article::{Article, ArticleV, spec_article};
use crate::index::{EntryV, IndexEntry};
use crate::text::str_eq;

verus! {

/// The repository of rendered articles: the snapshot currently served.
/// A refresh replaces the whole snapshot at once or leaves it untouched.
pub struct ArticleDb {
    articles: Vec<Article>,
}

/// No two articles of a snapshot share a key.
pub open spec fn keys_unique(s: Seq<ArticleV>) -> bool {
    forall|i: int, j: int|
        0 <= i < j < s.len() ==> (#[trigger] s[i]).key != (#[trigger] s[j]).key
}

impl View for ArticleDb {
    type V = Seq<ArticleV>;

    closed spec fn view(&self) -> Seq<ArticleV> {
        self.articles@.map_values(|a: Article| a@)
    }
}

/// The position of the first article with the given key, if any.
pub open spec fn spec_find(s: Seq<ArticleV>, key: Seq<char>) -> Option<int>
    decreases s.len(),
{
    if s.len() == 0 {
        None
    } else if s[0].key == key {
        Some(0)
    } else {
        match spec_find(s.drop_first(), key) {
            Some(j) => Some(j + 1),
            None => None,
        }
    }
}

/// The first article with the given key, if any.
pub open spec fn spec_lookup(s: Seq<ArticleV>, key: Seq<char>) -> Option<ArticleV> {
    match spec_find(s, key) {
        Some(i) => Some(s[i]),
        None => None,
    }
}

/// What `spec_find` returns is the first matching position.
pub proof fn lemma_spec_find(s: Seq<ArticleV>, key: Seq<char>)
    ensures
        match spec_find(s, key) {
            Some(i) => 0 <= i < s.len() && s[i].key == key && (forall|j: int|
                0 <= j < i ==> (#[trigger] s[j]).key != key),
            None => forall|j: int| 0 <= j < s.len() ==> (#[trigger] s[j]).key != key,
        },
    decreases s.len(),
{
    if s.len() > 0 && s[0].key != key {
        lemma_spec_find(s.drop_first(), key);
        let d = s.drop_first();
        match spec_find(d, key) {
            Some(j) => {
                assert(s[j + 1] == d[j]);
                assert forall|j2: int| 0 <= j2 < j + 1 implies (#[trigger] s[j2]).key != key by {
                    if j2 > 0 {
                        assert(s[j2] == d[j2 - 1]);
                    }
                }
            },
            None => {
                assert forall|j2: int| 0 <= j2 < s.len() implies (#[trigger] s[j2]).key != key by {
                    if j2 > 0 {
                        assert(s[j2] == d[j2 - 1]);
                    }
                }
            },
        }
    }
}

/// Where a scan that saw no match up to `i` stands: if `s[i]` matches, the
/// first match is at `i`; if the scan ran out, there is none.
proof fn lemma_spec_find_at(s: Seq<ArticleV>, key: Seq<char>, i: int)
    requires
        0 <= i <= s.len(),
        forall|j: int| 0 <= j < i ==> (#[trigger] s[j]).key != key,
        i < s.len() ==> s[i].key == key,
    ensures
        i < s.len() ==> spec_find(s, key) == Some(i),
        i == s.len() ==> spec_find(s, key) is None,
    decreases i + 1,
{
    if s.len() == 0 {
    } else if i == 0 {
        if s[0].key != key {
            lemma_spec_find(s, key);
        }
    } else {
        assert(s[0].key != key);
        lemma_spec_find_at(s.drop_first(), key, i - 1);
    }
}

/// A snapshot after writing article `a`: it replaces the article with the
/// same key, or is appended.
pub open spec fn spec_upsert(s: Seq<ArticleV>, a: ArticleV) -> Seq<ArticleV> {
    match spec_find(s, a.key) {
        Some(i) => s.update(i, a),
        None => s.push(a),
    }
}

/// The snapshot a refresh builds from the index entries and the fetched
/// texts, entry by entry in document order, later entries of a repeated
/// key replacing earlier ones.
pub open spec fn spec_snapshot(es: Seq<EntryV>, ts: Seq<Seq<char>>) -> Seq<ArticleV>
    decreases es.len(),
{
    if es.len() == 0 {
        Seq::empty()
    } else {
        spec_upsert(
            spec_snapshot(es.drop_last(), ts.drop_last()),
            spec_article(es.last().key, es.last().published, ts.last()),
        )
    }
}

/// Every fetch succeeded.
pub open spec fn spec_all_ok(cs: Seq<Result<String, String>>) -> bool {
    forall|i: int| 0 <= i < cs.len() ==> (#[trigger] cs[i]) is Ok
}

/// The fetched texts, an empty text standing in for a failure.
pub open spec fn spec_texts(cs: Seq<Result<String, String>>) -> Seq<Seq<char>> {
    cs.map_values(
        |c: Result<String, String>|
            match c {
                Ok(s) => s@,
                Err(_) => Seq::<char>::empty(),
            },
    )
}

/// The position of the first failed fetch, if any.
pub open spec fn spec_first_err(cs: Seq<Result<String, String>>) -> Option<int>
    decreases cs.len(),
{
    if cs.len() == 0 {
        None
    } else if cs[0] is Err {
        Some(0)
    } else {
        match spec_first_err(cs.drop_first()) {
            Some(j) => Some(j + 1),
            None => None,
        }
    }
}

proof fn lemma_first_err_at(cs: Seq<Result<String, String>>, i: int)
    requires
        0 <= i <= cs.len(),
        forall|j: int| 0 <= j < i ==> (#[trigger] cs[j]) is Ok,
        i < cs.len() ==> cs[i] is Err,
    ensures
        i < cs.len() ==> spec_first_err(cs) == Some(i),
        i == cs.len() ==> spec_first_err(cs) is None,
    decreases i + 1,
{
    if cs.len() == 0 {
    } else if i == 0 {
    } else {
        lemma_first_err_at(cs.drop_first(), i - 1);
    }
}

/// The position of the first article of `snap` whose key is `key`.
fn find_key(snap: &Vec<Article>, key: &str) -> (r: Option<usize>)
    ensures
        match r {
            Some(p) => spec_find(snap@.map_values(|a: Article| a@), key@) == Some(p as int),
            None => spec_find(snap@.map_values(|a: Article| a@), key@) is None,
        },
{
    let ghost sv = snap@.map_values(|a: Article| a@);
    let mut i: usize = 0;
    while i < snap.len()
        invariant
            i <= snap@.len(),
            sv == snap@.map_values(|a: Article| a@),
            forall|j: int| 0 <= j < i ==> (#[trigger] sv[j]).key != key@,
        decreases snap@.len() - i,
    {
        if str_eq(snap[i].key.as_str(), key) {
            proof {
                lemma_spec_find_at(sv, key@, i as int);
            }
            return Some(i);
        }
        i = i + 1;
    }
    proof {
        lemma_spec_find_at(sv, key@, sv.len() as int);
    }
    None
}

impl ArticleDb {
    /// No two served articles share a key.
    pub open spec fn wf(&self) -> bool {
        keys_unique(self@)
    }

    /// A repository that serves nothing yet.
    pub fn new() -> (db: ArticleDb)
        ensures
            db@ == Seq::<ArticleV>::empty(),
            db.wf(),
    {
        let db = ArticleDb { articles: Vec::new() };
        proof {
            assert(db@ =~= Seq::<ArticleV>::empty());
        }
        db
    }

    /// Point lookup against the current snapshot.
    pub fn article_for(&self, key: &str) -> (r: Option<Article>)
        ensures
            match r {
                Some(a) => spec_lookup(self@, key@) == Some(a@),
                None => spec_lookup(self@, key@) is None,
            },
    {
        match find_key(&self.articles, key) {
            Some(p) => {
                proof {
                    lemma_spec_find(self@, key@);
                }
                Some(self.articles[p].duplicate())
            },
            None => None,
        }
    }

    /// Every article of the current snapshot.
    pub fn list(&self) -> (r: Vec<Article>)
        ensures
            r@.map_values(|a: Article| a@) == self@,
    {
        let mut out: Vec<Article> = Vec::new();
        let mut i: usize = 0;
        while i < self.articles.len()
            invariant
                i <= self.articles@.len(),
                out@.map_values(|a: Article| a@) == self@.take(i as int),
            decreases self.articles@.len() - i,
        {
            let ghost out_pre = out@;
            out.push(self.articles[i].duplicate());
            proof {
                assert(out_pre.map_values(|a: Article| a@).len() == out_pre.len());
                assert(self@.take(i as int).len() == i);
                assert(out_pre.len() == i);
                assert forall|j: int|
                    0 <= j < out@.len() implies (#[trigger] out@[j])@ == self@.take(i + 1)[j] by {
                    if j < i {
                        assert(out@[j] == out_pre[j]);
                        assert(out_pre.map_values(|a: Article| a@)[j] == out_pre[j]@);
                        assert(out_pre[j]@ == self@.take(i as int)[j]);
                    } else {
                        assert(out@[j]@ == self.articles@[i as int]@);
                        assert(self@[i as int] == self.articles@[i as int]@);
                    }
                }
                assert(out@.map_values(|a: Article| a@) =~= self@.take(i + 1));
            }
            i = i + 1;
        }
        proof {
            assert(self@.take(self.articles@.len() as int) =~= self@);
        }
        out
    }

    /// Runs one refresh against the given index entries and the fetch
    /// result of each entry's text. If and only if the two line up and
    /// every fetch succeeded, a wholly new snapshot replaces the old one;
    /// any failure leaves the snapshot exactly as it was, and the error of
    /// the first failed fetch is passed on.
    pub fn refresh(&mut self, entries: &Vec<IndexEntry>, contents: &Vec<Result<String, String>>)
        -> (r: Result<(), String>)
        ensures
            match r {
                Ok(()) => {
                    &&& entries@.len() == contents@.len()
                    &&& spec_all_ok(contents@)
                    &&& final(self)@ == spec_snapshot(
                        entries@.map_values(|e: IndexEntry| e@),
                        spec_texts(contents@),
                    )
                    &&& final(self).wf()
                },
                Err(m) => {
                    &&& final(self)@ == old(self)@
                    &&& !(entries@.len() == contents@.len() && spec_all_ok(contents@))
                    &&& (entries@.len() == contents@.len() ==> match spec_first_err(contents@) {
                        Some(i) => m@ == (match contents@[i] {
                            Err(e) => e@,
                            Ok(_) => Seq::<char>::empty(),
                        }),
                        None => false,
                    })
                },
            },
    {
        if entries.len() != contents.len() {
            return Err("one fetched text is needed for each index entry".to_owned());
        }
        let mut i: usize = 0;
        while i < contents.len()
            invariant
                i <= contents@.len(),
                forall|j: int| 0 <= j < i ==> (#[trigger] contents@[j]) is Ok,
            decreases contents@.len() - i,
        {
            match &contents[i] {
                Ok(_) => {},
                Err(e) => {
                    proof {
                        lemma_first_err_at(contents@, i as int);
                    }
                    return Err(e.clone());
                },
            }
            i = i + 1;
        }
        let ghost ev = entries@.map_values(|e: IndexEntry| e@);
        let ghost tv = spec_texts(contents@);
        let mut snap: Vec<Article> = Vec::new();
        let mut k: usize = 0;
        proof {
            assert(snap@.map_values(|a: Article| a@) =~= Seq::<ArticleV>::empty());
            assert(spec_snapshot(ev.take(0), tv.take(0)) == Seq::<ArticleV>::empty());
        }
        while k < entries.len()
            invariant
                k <= entries@.len(),
                contents@.len() == entries@.len(),
                forall|j: int| 0 <= j < contents@.len() ==> (#[trigger] contents@[j]) is Ok,
                ev == entries@.map_values(|e: IndexEntry| e@),
                tv == spec_texts(contents@),
                snap@.map_values(|a: Article| a@) == spec_snapshot(ev.take(k as int), tv.take(k as int)),
                keys_unique(snap@.map_values(|a: Article| a@)),
            decreases entries@.len() - k,
        {
            let ghost sv = snap@.map_values(|a: Article| a@);
            let text: &String = match &contents[k] {
                Ok(s) => s,
                Err(_) => unreached(),
            };
            let a = Article::from_key_and_date_and_markdown(
                entries[k].key.clone(),
                entries[k].published,
                text.as_str(),
            );
            let ghost av = a@;
            proof {
                assert(av == spec_article(ev[k as int].key, ev[k as int].published, tv[k as int]));
            }
            match find_key(&snap, a.key.as_str()) {
                Some(p) => {
                    proof {
                        lemma_spec_find(sv, av.key);
                    }
                    snap[p] = a;
                    proof {
                        assert(snap@.map_values(|a: Article| a@) =~= sv.update(p as int, av));
                        assert(keys_unique(sv.update(p as int, av))) by {
                            assert(sv[p as int].key == av.key);
                            assert forall|x: int, y: int|
                                0 <= x < y < sv.len() implies (#[trigger] sv.update(
                                p as int,
                                av,
                            )[x]).key != (#[trigger] sv.update(p as int, av)[y]).key by {
                                assert(sv.update(p as int, av)[x].key == sv[x].key);
                                assert(sv.update(p as int, av)[y].key == sv[y].key);
                            }
                        }
                    }
                },
                None => {
                    proof {
                        lemma_spec_find(sv, av.key);
                    }
                    snap.push(a);
                    proof {
                        assert(snap@.map_values(|a: Article| a@) =~= sv.push(av));
                    }
                },
            }
            proof {
                assert(ev.take(k + 1).drop_last() =~= ev.take(k as int));
                assert(tv.take(k + 1).drop_last() =~= tv.take(k as int));
                assert(ev.take(k + 1).last() == ev[k as int]);
                assert(tv.take(k + 1).last() == tv[k as int]);
                assert(snap@.map_values(|a: Article| a@) == spec_upsert(sv, av));
                assert(spec_snapshot(ev.take(k + 1), tv.take(k + 1)) == spec_upsert(
                    spec_snapshot(ev.take(k as int), tv.take(k as int)),
                    spec_article(ev[k as int].key, ev[k as int].published, tv[k as int]),
                ));
            }
            k = k + 1;
        }
        proof {
            assert(ev.take(entries@.len() as int) =~= ev);
            assert(tv.take(contents@.len() as int) =~= tv);
        }
        self.articles = snap;
        Ok(())
    }
}

/// When every index entry carries its own key, a successful refresh
/// publishes exactly one article per entry, in order: the snapshot's
/// length equals the number of entries, and entry `i` yields article `i`.
pub proof fn lemma_snapshot_distinct(es: Seq<EntryV>, ts: Seq<Seq<char>>)
    requires
        es.len() == ts.len(),
        forall|i: int, j: int| 0 <= i < j < es.len() ==> (#[trigger] es[i]).key != (#[trigger] es[j]).key,
    ensures
        spec_snapshot(es, ts).len() == es.len(),
        forall|i: int|
            0 <= i < es.len() ==> spec_snapshot(es, ts)[i] == spec_article(
                (#[trigger] es[i]).key,
                es[i].published,
                ts[i],
            ),
    decreases es.len(),
{
    if es.len() > 0 {
        lemma_snapshot_distinct(es.drop_last(), ts.drop_last());
        let s0 = spec_snapshot(es.drop_last(), ts.drop_last());
        let a = spec_article(es.last().key, es.last().published, ts.last());
        lemma_spec_find(s0, a.key);
        if spec_find(s0, a.key) is Some {
            let i = spec_find(s0, a.key)->Some_0;
            assert(s0[i] == spec_article(
                es.drop_last()[i].key,
                es.drop_last()[i].published,
                ts.drop_last()[i],
            ));
            assert(es.drop_last()[i] == es[i]);
            assert(s0[i].key == es[i].key);
            assert(s0[i].key == a.key);
            assert(es[i].key == es[es.len() - 1].key);
            assert(false);
        }
        assert(spec_snapshot(es, ts) == s0.push(a));
        assert forall|i: int|
            0 <= i < es.len() implies spec_snapshot(es, ts)[i] == spec_article(
            es[i].key,
            es[i].published,
            ts[i],
        ) by {
            if i < es.len() - 1 {
                assert(spec_snapshot(es, ts)[i] == s0[i]);
                assert(es.drop_last()[i] == es[i]);
                assert(ts.drop_last()[i] == ts[i]);
            } else {
                assert(spec_snapshot(es, ts)[i] == a);
            }
        }
    }
}

} // verus!
