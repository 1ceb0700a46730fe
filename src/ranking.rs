//! Candidate sources: the search results that pass the blocklist, matched to
//! the scores the model gave them and ordered by score, highest first.
use vstd::prelude::*;
use crate::response::{
    block_end, close_tag, last_value, open_tag, opens, parse_scored_sources, scored_view,
    source_record, source_records, source_records_from, tag_value, ScoredUrl,
};
use crate::number::score_micros;
use crate::text::{trim, trimmed_lines};
use crate::text::strings_view;
use crate::urls::{host_blocked, is_blocked_url, url_host};

verus! {

broadcast use vstd::string::group_string_axioms;

/// One result of the web search, as the ranking needs it.
#[derive(Debug)]
pub struct SearchResult {
    pub id: Option<String>,
    pub url: String,
    pub title: Option<String>,
    pub text: Option<String>,
    pub published_date: Option<String>,
    pub author: Option<String>,
    pub summary: Option<String>,
    pub image: Option<String>,
    pub favicon: Option<String>,
}

fn copy_opt(o: &Option<String>) -> (r: Option<String>)
    ensures
        r == *o,
{
    match o {
        Some(s) => Some(s.clone()),
        None => None,
    }
}

impl SearchResult {
    /// A copy of the result.
    pub fn duplicate(&self) -> (r: SearchResult)
        ensures
            r == *self,
    {
        SearchResult {
            id: copy_opt(&self.id),
            url: self.url.clone(),
            title: copy_opt(&self.title),
            text: copy_opt(&self.text),
            published_date: copy_opt(&self.published_date),
            author: copy_opt(&self.author),
            summary: copy_opt(&self.summary),
            image: copy_opt(&self.image),
            favicon: copy_opt(&self.favicon),
        }
    }
}

impl Clone for SearchResult {
    fn clone(&self) -> (r: SearchResult)
        ensures
            r == *self,
    {
        self.duplicate()
    }
}

/// A search result with the score the model gave it, in millionths.
#[derive(Debug)]
pub struct RankedSource {
    pub result: SearchResult,
    pub score: i64,
}

impl Clone for RankedSource {
    fn clone(&self) -> (r: RankedSource)
        ensures
            r == *self,
    {
        RankedSource { result: self.result.duplicate(), score: self.score }
    }
}

/// Whether a result's URL is blocked.
pub open spec fn result_blocked(r: SearchResult, blocklist: Seq<Seq<char>>) -> bool {
    match url_host(r.url@) {
        Some(h) => host_blocked(h, blocklist),
        None => false,
    }
}

/// The results that are not blocked, in their order.
pub open spec fn unblocked(rs: Seq<SearchResult>, blocklist: Seq<Seq<char>>) -> Seq<SearchResult> {
    rs.filter(|r: SearchResult| !result_blocked(r, blocklist))
}

/// The results whose host is neither a blocked domain nor a subdomain of one.
pub fn filter_blocked(results: &Vec<SearchResult>, blocklist: &Vec<String>) -> (r: Vec<
    SearchResult,
>)
    ensures
        r@ == unblocked(results@, strings_view(blocklist@)),
{
    let ghost bl = strings_view(blocklist@);
    let mut out: Vec<SearchResult> = Vec::new();
    let mut i: usize = 0;
    while i < results.len()
        invariant
            i <= results.len(),
            bl == strings_view(blocklist@),
            out@ == unblocked(results@.take(i as int), bl),
        decreases results.len() - i,
    {
        proof {
            assert(results@.take(i + 1).drop_last() =~= results@.take(i as int));
            reveal(Seq::filter);
        }
        if !is_blocked_url(results[i].url.as_str(), blocklist) {
            out.push(results[i].duplicate());
        }
        i = i + 1;
    }
    proof {
        assert(results@.take(i as int) =~= results@);
    }
    out
}

/// The index of the first result with URL `u`, or the number of results.
pub open spec fn first_with_url(rs: Seq<SearchResult>, u: Seq<char>) -> int
    decreases rs.len(),
{
    if rs.len() == 0 || rs[0].url@ == u {
        0
    } else {
        1 + first_with_url(rs.drop_first(), u)
    }
}

proof fn lemma_first_with_url(rs: Seq<SearchResult>, u: Seq<char>, d: int)
    requires
        0 <= d <= rs.len(),
        d < rs.len() ==> rs[d].url@ == u,
        forall|k: int| 0 <= k < d ==> rs[k].url@ != u,
    ensures
        first_with_url(rs, u) == d,
    decreases rs.len(),
{
    if rs.len() > 0 && rs[0].url@ != u {
        assert forall|k: int| 0 <= k < d - 1 implies rs.drop_first()[k].url@ != u by {
            assert(rs.drop_first()[k] == rs[k + 1]);
        }
        if d - 1 < rs.drop_first().len() {
            assert(rs.drop_first()[d - 1] == rs[d]);
        }
        lemma_first_with_url(rs.drop_first(), u, d - 1);
    }
}

/// The scored URLs that name one of the candidates, each paired with the
/// first candidate of that URL, in the order the model gave them.
pub open spec fn matched(
    rs: Seq<SearchResult>,
    scored: Seq<(Seq<char>, int, Option<Seq<char>>)>,
) -> Seq<RankedSource>
    decreases scored.len(),
{
    if scored.len() == 0 {
        Seq::empty()
    } else {
        let last = scored.last();
        let i = first_with_url(rs, last.0);
        if i < rs.len() {
            matched(rs, scored.drop_last()).push(
                RankedSource { result: rs[i], score: last.1 as i64 },
            )
        } else {
            matched(rs, scored.drop_last())
        }
    }
}

/// `x` placed into `s` after every entry scored at least as high.
pub open spec fn insert_by_score(s: Seq<RankedSource>, x: RankedSource) -> Seq<RankedSource>
    decreases s.len(),
{
    if s.len() == 0 {
        seq![x]
    } else if s[0].score < x.score {
        seq![x] + s
    } else {
        seq![s[0]] + insert_by_score(s.drop_first(), x)
    }
}

/// `s` ordered by score, highest first; entries of equal score keep their order.
pub open spec fn sort_by_score(s: Seq<RankedSource>) -> Seq<RankedSource>
    decreases s.len(),
{
    if s.len() == 0 {
        s
    } else {
        insert_by_score(sort_by_score(s.drop_last()), s.last())
    }
}

/// Whether the scores of `s` never rise.
pub open spec fn descending(s: Seq<RankedSource>) -> bool {
    forall|i: int, j: int| 0 <= i < j < s.len() ==> s[i].score >= s[j].score
}

proof fn lemma_insert_at(s: Seq<RankedSource>, x: RankedSource, p: int)
    requires
        0 <= p <= s.len(),
        p < s.len() ==> s[p].score < x.score,
        forall|k: int| 0 <= k < p ==> s[k].score >= x.score,
    ensures
        insert_by_score(s, x) == s.take(p) + seq![x] + s.skip(p),
    decreases s.len(),
{
    if s.len() == 0 {
        assert(s.take(p) + seq![x] + s.skip(p) =~= seq![x]);
    } else if s[0].score < x.score {
        assert(p == 0);
        assert(s.take(p) + seq![x] + s.skip(p) =~= seq![x] + s);
    } else {
        let t = s.drop_first();
        assert forall|k: int| 0 <= k < p - 1 implies t[k].score >= x.score by {
            assert(t[k] == s[k + 1]);
        }
        if p - 1 < t.len() {
            assert(t[p - 1] == s[p]);
        }
        lemma_insert_at(t, x, p - 1);
        assert(seq![s[0]] + (t.take(p - 1) + seq![x] + t.skip(p - 1)) =~= s.take(p) + seq![x]
            + s.skip(p));
    }
}

/// The index of the first entry of `s` scored below `score`, or its length.
pub open spec fn first_below(s: Seq<RankedSource>, score: i64) -> int
    decreases s.len(),
{
    if s.len() == 0 || s[0].score < score {
        0
    } else {
        1 + first_below(s.drop_first(), score)
    }
}

proof fn lemma_first_below(s: Seq<RankedSource>, score: i64)
    ensures
        0 <= first_below(s, score) <= s.len(),
        first_below(s, score) < s.len() ==> s[first_below(s, score)].score < score,
        forall|k: int| 0 <= k < first_below(s, score) ==> s[k].score >= score,
    decreases s.len(),
{
    if s.len() > 0 && s[0].score >= score {
        lemma_first_below(s.drop_first(), score);
        assert forall|k: int| 0 <= k < first_below(s, score) implies s[k].score >= score by {
            if k > 0 {
                assert(s.drop_first()[k - 1] == s[k]);
            }
        }
    }
}

/// Inserting into a descending sequence keeps it descending, and adds
/// exactly the new entry.
pub proof fn lemma_insert_descending(s: Seq<RankedSource>, x: RankedSource)
    requires
        descending(s),
    ensures
        descending(insert_by_score(s, x)),
        insert_by_score(s, x).to_multiset() == s.to_multiset().insert(x),
{
    let p = first_below(s, x.score);
    lemma_first_below(s, x.score);
    lemma_insert_at(s, x, p);
    let r = insert_by_score(s, x);
    assert(r =~= s.insert(p, x));
    vstd::seq_lib::to_multiset_insert(s, p, x);
    assert forall|i: int, j: int| 0 <= i < j < r.len() implies r[i].score >= r[j].score by {
        if j < p {
            assert(r[i] == s[i] && r[j] == s[j]);
        } else if j == p {
            assert(r[i] == s[i]);
        } else if i < p {
            assert(r[i] == s[i] && r[j] == s[j - 1]);
        } else if i == p {
            assert(r[j] == s[j - 1]);
            assert(s[p].score < x.score);
            assert(s[p].score >= s[j - 1].score || j - 1 == p);
        } else {
            assert(r[i] == s[i - 1] && r[j] == s[j - 1]);
        }
    }
}

/// Ranking orders candidates by score, highest first, and neither drops nor
/// adds a candidate.
pub proof fn lemma_sort_by_score(s: Seq<RankedSource>)
    ensures
        descending(sort_by_score(s)),
        sort_by_score(s).to_multiset() == s.to_multiset(),
    decreases s.len(),
{
    if s.len() == 0 {
    } else {
        lemma_sort_by_score(s.drop_last());
        lemma_insert_descending(sort_by_score(s.drop_last()), s.last());
        assert(s.drop_last().push(s.last()) =~= s);
        s.drop_last().to_multiset_ensures();
    }
}

/// Orders `v` by score, highest first; entries of equal score keep their order.
pub fn sort_ranked(v: Vec<RankedSource>) -> (r: Vec<RankedSource>)
    ensures
        r@ == sort_by_score(v@),
{
    let mut out: Vec<RankedSource> = Vec::new();
    let mut i: usize = 0;
    while i < v.len()
        invariant
            i <= v.len(),
            out@ == sort_by_score(v@.take(i as int)),
        decreases v.len() - i,
    {
        let x = v[i].clone();
        let mut p: usize = 0;
        while p < out.len() && out[p].score >= x.score
            invariant
                p <= out.len(),
                forall|k: int| 0 <= k < p ==> out@[k].score >= x.score,
            decreases out.len() - p,
        {
            p = p + 1;
        }
        proof {
            lemma_insert_at(out@, x, p as int);
            assert(v@.take(i + 1).drop_last() =~= v@.take(i as int));
            assert(v@.take(i + 1).last() == v@[i as int]);
        }
        let ghost before = out@;
        out.insert(p, x);
        proof {
            assert(out@ =~= before.take(p as int) + seq![x] + before.skip(p as int));
        }
        i = i + 1;
    }
    proof {
        assert(v@.take(i as int) =~= v@);
    }
    out
}

/// Pairs each scored URL that names a candidate with that candidate, in the
/// order the model gave them.
pub fn match_scored(candidates: &Vec<SearchResult>, scored: &Vec<ScoredUrl>) -> (r: Vec<
    RankedSource,
>)
    ensures
        r@ == matched(candidates@, scored_view(scored@)),
{
    let mut out: Vec<RankedSource> = Vec::new();
    let mut i: usize = 0;
    while i < scored.len()
        invariant
            i <= scored.len(),
            out@ == matched(candidates@, scored_view(scored@).take(i as int)),
        decreases scored.len() - i,
    {
        let mut j: usize = 0;
        while j < candidates.len() && candidates[j].url != scored[i].url
            invariant
                i < scored.len(),
                j <= candidates.len(),
                forall|k: int| 0 <= k < j ==> candidates@[k].url@ != scored@[i as int].url@,
            decreases candidates.len() - j,
        {
            j = j + 1;
        }
        proof {
            lemma_first_with_url(candidates@, scored@[i as int].url@, j as int);
            let t = scored_view(scored@).take(i + 1);
            assert(t.drop_last() =~= scored_view(scored@).take(i as int));
            assert(t.last() == scored@[i as int]@);
        }
        if j < candidates.len() {
            out.push(RankedSource { result: candidates[j].duplicate(), score: scored[i].score });
        }
        i = i + 1;
    }
    proof {
        assert(scored_view(scored@).take(i as int) =~= scored_view(scored@));
    }
    out
}

/// The candidates that the model's ranking response scores, highest first.
pub open spec fn ranked(candidates: Seq<SearchResult>, response: Seq<char>) -> Seq<RankedSource> {
    sort_by_score(matched(candidates, source_records(response)))
}

/// Reads a ranking response: keeps each scored URL that names a candidate,
/// pairs it with that candidate, and orders the pairs by score, highest first.
pub fn rank_candidates(candidates: &Vec<SearchResult>, response: &str) -> (r: Vec<RankedSource>)
    ensures
        r@ == ranked(candidates@, response@),
{
    let scored = parse_scored_sources(response);
    let m = match_scored(candidates, &scored);
    sort_ranked(m)
}

/// The line `<t>v</t>`.
pub open spec fn tagged_line(t: Seq<char>, v: Seq<char>) -> Seq<char> {
    open_tag(t) + v + close_tag(t)
}

proof fn lemma_tagged_line_value(t: Seq<char>, v: Seq<char>)
    ensures
        tag_value(tagged_line(t, v), t) == Some(trim(v)),
{
    let l = tagged_line(t, v);
    let o = open_tag(t);
    let c = close_tag(t);
    assert(l.take(o.len() as int) =~= o);
    assert(l.skip(l.len() - c.len()) =~= c);
    assert(l.subrange(o.len() as int, l.len() - c.len()) =~= v);
}

proof fn lemma_not_opened(l: Seq<char>, t: Seq<char>, i: int)
    requires
        0 <= i < open_tag(t).len(),
        i < l.len(),
        l[i] != open_tag(t)[i],
    ensures
        tag_value(l, t) is None,
        !crate::text::starts_with(l, open_tag(t)),
{
    if l.len() >= open_tag(t).len() {
        assert(l.take(open_tag(t).len() as int)[i] == l[i]);
    }
}

/// An answer whose trimmed lines are one complete `<source>` block (URL `ua`,
/// score `s`) followed by one that lacks its `<score>` (URL `ub`) ranks to
/// exactly one candidate: the one at `ua`, with score `s`. The incomplete
/// block is dropped whole.
pub proof fn lemma_incomplete_block_dropped(
    candidates: Seq<SearchResult>,
    text: Seq<char>,
    ua: Seq<char>,
    s: Seq<char>,
    ub: Seq<char>,
)
    requires
        trimmed_lines(text) == seq![
            open_tag("source"@),
            tagged_line("url"@, ua),
            tagged_line("score"@, s),
            close_tag("source"@),
            open_tag("source"@),
            tagged_line("url"@, ub),
            close_tag("source"@),
        ],
        score_micros(trim(s)) is Some,
        exists|j: int| 0 <= j < candidates.len() && #[trigger] candidates[j].url@ == trim(ua),
    ensures
        ranked(candidates, text).len() == 1,
        ranked(candidates, text)[0].result.url@ == trim(ua),
        ranked(candidates, text)[0].score == score_micros(trim(s))->0 as i64,
{
    reveal_strlit("source");
    reveal_strlit("url");
    reveal_strlit("score");
    reveal_strlit("reasoning");
    let ls = trimmed_lines(text);
    let os = open_tag("source"@);
    let cs = close_tag("source"@);
    let l1 = tagged_line("url"@, ua);
    let l2 = tagged_line("score"@, s);
    let l5 = tagged_line("url"@, ub);
    assert(ls[0] == os && ls[1] == l1 && ls[2] == l2 && ls[3] == cs);
    assert(ls[4] == os && ls[5] == l5 && ls[6] == cs);
    // Character facts that tell the lines apart.
    assert(os[1] == 's' && os[2] == 'o' && cs[1] == '/');
    assert(open_tag("url"@)[1] == 'u' && open_tag("score"@)[1] == 's' && open_tag("score"@)[2]
        == 'c');
    assert(open_tag("reasoning"@)[1] == 'r');
    assert(l1[1] == 'u' && l5[1] == 'u' && l2[1] == 's' && l2[2] == 'c');
    assert(os.len() == 8 && cs.len() == 9);
    assert(l1.len() >= 11 && l2.len() >= 15 && l5.len() >= 11);
    assert(l1 != cs && l2 != cs && l5 != cs);
    // Sub-tag values.
    lemma_tagged_line_value("url"@, ua);
    lemma_tagged_line_value("score"@, s);
    lemma_not_opened(l1, "score"@, 1);
    lemma_not_opened(l1, "reasoning"@, 1);
    lemma_not_opened(l2, "url"@, 1);
    lemma_not_opened(l2, "reasoning"@, 1);
    lemma_not_opened(l5, "score"@, 1);
    lemma_not_opened(l1, "source"@, 1);
    lemma_not_opened(l5, "source"@, 1);
    lemma_not_opened(l2, "source"@, 2);
    lemma_not_opened(cs, "source"@, 1);
    assert(crate::text::starts_with(os, os)) by {
        assert(os.take(os.len() as int) =~= os);
    }
    // The first block.
    assert(block_end(ls, 3, cs) == 3);
    assert(block_end(ls, 2, cs) == 3);
    assert(block_end(ls, 1, cs) == 3);
    assert(last_value(ls, 1, 1, "url"@) is None);
    assert(last_value(ls, 1, 2, "url"@) == Some(trim(ua)));
    assert(last_value(ls, 1, 3, "url"@) == Some(trim(ua)));
    assert(last_value(ls, 1, 3, "score"@) == Some(trim(s)));
    assert(last_value(ls, 1, 1, "reasoning"@) is None);
    assert(last_value(ls, 1, 2, "reasoning"@) is None);
    assert(last_value(ls, 1, 3, "reasoning"@) is None);
    let rec = (trim(ua), score_micros(trim(s))->0, None::<Seq<char>>);
    assert(source_record(ls, 0) == Some(rec));
    // The second block has no score.
    assert(block_end(ls, 6, cs) == 6);
    assert(block_end(ls, 5, cs) == 6);
    assert(last_value(ls, 5, 5, "score"@) is None);
    assert(last_value(ls, 5, 6, "score"@) is None);
    assert(source_record(ls, 4) is None);
    // Only the first block gives a record.
    assert(source_records_from(ls, 7) == Seq::<(Seq<char>, int, Option<Seq<char>>)>::empty());
    assert(source_records_from(ls, 6) == Seq::<(Seq<char>, int, Option<Seq<char>>)>::empty());
    assert(source_records_from(ls, 5) == Seq::<(Seq<char>, int, Option<Seq<char>>)>::empty());
    assert(source_records_from(ls, 4) == Seq::<(Seq<char>, int, Option<Seq<char>>)>::empty());
    assert(source_records_from(ls, 3) == Seq::<(Seq<char>, int, Option<Seq<char>>)>::empty());
    assert(source_records_from(ls, 2) == Seq::<(Seq<char>, int, Option<Seq<char>>)>::empty());
    assert(source_records_from(ls, 1) == Seq::<(Seq<char>, int, Option<Seq<char>>)>::empty());
    let recs = source_records(text);
    assert(recs =~= seq![rec]);
    // Matching and sorting one record.
    let j = choose|j: int| 0 <= j < candidates.len() && #[trigger] candidates[j].url@ == trim(ua);
    let i = first_with_url(candidates, trim(ua));
    lemma_first_with_url_bound(candidates, trim(ua), j);
    assert(recs.drop_last() =~= Seq::<(Seq<char>, int, Option<Seq<char>>)>::empty());
    assert(recs.last() == rec);
    assert(i < candidates.len());
    assert(matched(candidates, recs.drop_last()) == Seq::<RankedSource>::empty());
    let m = matched(candidates, recs);
    let x = RankedSource { result: candidates[i], score: rec.1 as i64 };
    assert(m == Seq::<RankedSource>::empty().push(x));
    assert(m.len() == 1);
    assert(m[0] == x);
    assert(m.drop_last() =~= Seq::<RankedSource>::empty());
    assert(sort_by_score(m.drop_last()) == Seq::<RankedSource>::empty());
    assert(sort_by_score(m) == insert_by_score(Seq::<RankedSource>::empty(), x));
    assert(insert_by_score(Seq::<RankedSource>::empty(), x) == seq![x]);
}

proof fn lemma_first_with_url_bound(rs: Seq<SearchResult>, u: Seq<char>, j: int)
    requires
        0 <= j < rs.len(),
        rs[j].url@ == u,
    ensures
        0 <= first_with_url(rs, u) <= j,
        rs[first_with_url(rs, u)].url@ == u,
    decreases j,
{
    if rs[0].url@ != u {
        assert(rs.drop_first()[j - 1] == rs[j]);
        lemma_first_with_url_bound(rs.drop_first(), u, j - 1);
        let k = first_with_url(rs.drop_first(), u);
        assert(rs.drop_first()[k] == rs[k + 1]);
    }
}

} // verus!
