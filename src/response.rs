//! A tolerant reader of the tagged free text that the language model returns.
//!
//! Text is read line by line, each line trimmed. A line that starts with an
//! opening block tag (`<source>`, `<instruction>`) opens a block; the block
//! runs over the following lines up to the first line that is exactly the
//! closing tag, or to the end of the text. Inside it, a line `<t>value</t>`
//! gives sub-tag `t` its value (trimmed); a later line for the same sub-tag
//! replaces an earlier one. A block that lacks a required sub-tag yields no
//! record. Records come in the order of their blocks; other lines are ignored.
use vstd::prelude::*;
use crate::field_map::FieldMap;
use crate::number::{i32_value, parse_i32, parse_score, score_micros};
use crate::text::{
    chars_of, chars_view, concat_chars, ends_with, find_char, has_prefix, has_suffix,
    index_of_char, rfind, rfind_chars, same_chars, slice_chars, split_trimmed_lines,
    starts_with, string_of, trim, trim_range, trimmed_lines,
};

verus! {

broadcast use vstd::string::group_string_axioms;

/// `<t>`.
pub open spec fn open_tag(t: Seq<char>) -> Seq<char> {
    seq!['<'] + t + seq!['>']
}

/// `</t>`.
pub open spec fn close_tag(t: Seq<char>) -> Seq<char> {
    seq!['<', '/'] + t + seq!['>']
}

/// The value that `line` gives tag `t`: the trimmed text between `<t>` at its
/// start and `</t>` at its end.
pub open spec fn tag_value(line: Seq<char>, t: Seq<char>) -> Option<Seq<char>> {
    let o = open_tag(t);
    let c = close_tag(t);
    if starts_with(line, o) && ends_with(line, c) && o.len() + c.len() <= line.len() {
        Some(trim(line.subrange(o.len() as int, line.len() - c.len())))
    } else {
        None
    }
}

/// The first line at or after `k` that is exactly `close`, or the number of lines.
pub open spec fn block_end(ls: Seq<Seq<char>>, k: int, close: Seq<char>) -> int
    decreases ls.len() - k,
{
    if k >= ls.len() {
        ls.len() as int
    } else if ls[k] == close {
        k
    } else {
        block_end(ls, k + 1, close)
    }
}

/// The value of tag `t` on the last of the lines `lo..hi` that gives one.
pub open spec fn last_value(ls: Seq<Seq<char>>, lo: int, hi: int, t: Seq<char>) -> Option<
    Seq<char>,
>
    decreases hi - lo,
{
    if hi <= lo {
        None
    } else {
        match tag_value(ls[hi - 1], t) {
            Some(v) => Some(v),
            None => last_value(ls, lo, hi - 1, t),
        }
    }
}

/// The value of sub-tag `t` in the block `b` opened at line `i`.
pub open spec fn block_value(ls: Seq<Seq<char>>, i: int, b: Seq<char>, t: Seq<char>) -> Option<
    Seq<char>,
> {
    last_value(ls, i + 1, block_end(ls, i + 1, close_tag(b)), t)
}

/// Whether `line` opens a block `b`.
pub open spec fn opens(line: Seq<char>, b: Seq<char>) -> bool {
    starts_with(line, open_tag(b))
}

fn tag_chars(t: &Vec<char>, closing: bool) -> (r: Vec<char>)
    ensures
        r@ == if closing {
            close_tag(t@)
        } else {
            open_tag(t@)
        },
{
    let mut head: Vec<char> = Vec::new();
    head.push('<');
    if closing {
        head.push('/');
    }
    let mut tail: Vec<char> = Vec::new();
    tail.push('>');
    let a = concat_chars(&head, t);
    let r = concat_chars(&a, &tail);
    proof {
        if closing {
            assert(r@ =~= close_tag(t@));
        } else {
            assert(r@ =~= open_tag(t@));
        }
    }
    r
}

/// The value that `line` gives tag `t`.
pub fn line_tag_value(line: &Vec<char>, t: &Vec<char>) -> (r: Option<Vec<char>>)
    ensures
        r.deep_view() == tag_value(line@, t@),
{
    let o = tag_chars(t, false);
    let c = tag_chars(t, true);
    if has_prefix(line, &o) && has_suffix(line, &c) && o.len() <= line.len() && c.len()
        <= line.len() - o.len() {
        Some(trim_range(line, o.len(), line.len() - c.len()))
    } else {
        None
    }
}

fn block_value_exec(ls: &Vec<Vec<char>>, i: usize, close: &Vec<char>, t: &Vec<char>) -> (r: Option<
    Vec<char>,
>)
    requires
        i < ls.len(),
    ensures
        r.deep_view() == last_value(
            chars_view(ls@),
            i + 1,
            block_end(chars_view(ls@), i + 1, close@),
            t@,
        ),
{
    let ghost v = chars_view(ls@);
    let mut cur: Option<Vec<char>> = None;
    let mut k: usize = i + 1;
    while k < ls.len() && !same_chars(&ls[k], close)
        invariant
            i < k <= ls.len(),
            v == chars_view(ls@),
            v.len() == ls.len(),
            block_end(v, i + 1, close@) == block_end(v, k as int, close@),
            cur.deep_view() == last_value(v, i + 1, k as int, t@),
        decreases ls.len() - k,
    {
        proof {
            assert(v[k as int] == ls@[k as int]@);
        }
        match line_tag_value(&ls[k], t) {
            Some(x) => {
                cur = Some(x);
            },
            None => {},
        }
        k = k + 1;
    }
    proof {
        if k < ls.len() {
            assert(v[k as int] == ls@[k as int]@);
        }
    }
    cur
}

/// A source that the model scored: its URL, the score in millionths, and
/// the reasoning it gave, if any.
#[derive(Clone, Debug)]
pub struct ScoredUrl {
    pub url: String,
    pub score: i64,
    pub reasoning: Option<String>,
}

impl View for ScoredUrl {
    type V = (Seq<char>, int, Option<Seq<char>>);

    open spec fn view(&self) -> (Seq<char>, int, Option<Seq<char>>) {
        (self.url@, self.score as int, self.reasoning.deep_view())
    }
}

/// The record of the `<source>` block opened at line `i`: it needs a `url`
/// and a `score` that reads as a decimal.
pub open spec fn source_record(ls: Seq<Seq<char>>, i: int) -> Option<
    (Seq<char>, int, Option<Seq<char>>),
> {
    let u = block_value(ls, i, "source"@, "url"@);
    let s = block_value(ls, i, "source"@, "score"@);
    if u is Some && s is Some && score_micros(s->0) is Some {
        Some((u->0, score_micros(s->0)->0, block_value(ls, i, "source"@, "reasoning"@)))
    } else {
        None
    }
}

/// The records of the `<source>` blocks opened at line `k` or later.
pub open spec fn source_records_from(ls: Seq<Seq<char>>, k: int) -> Seq<
    (Seq<char>, int, Option<Seq<char>>),
>
    decreases ls.len() - k,
{
    if k >= ls.len() || k < 0 {
        Seq::empty()
    } else if opens(ls[k], "source"@) && source_record(ls, k) is Some {
        seq![source_record(ls, k)->0] + source_records_from(ls, k + 1)
    } else {
        source_records_from(ls, k + 1)
    }
}

/// The scored sources of a ranking response, in block order.
pub open spec fn source_records(text: Seq<char>) -> Seq<(Seq<char>, int, Option<Seq<char>>)> {
    source_records_from(trimmed_lines(text), 0)
}

/// The views of a sequence of scored URLs.
pub open spec fn scored_view(v: Seq<ScoredUrl>) -> Seq<(Seq<char>, int, Option<Seq<char>>)> {
    v.map_values(|s: ScoredUrl| s@)
}

/// Reads the `<source>` blocks of a ranking response.
pub fn parse_scored_sources(text: &str) -> (r: Vec<ScoredUrl>)
    ensures
        scored_view(r@) == source_records(text@),
{
    let chars = chars_of(text);
    let ls = split_trimmed_lines(&chars);
    let ghost v = chars_view(ls@);
    let block = chars_of("source");
    let open = tag_chars(&block, false);
    let close = tag_chars(&block, true);
    let url_tag = chars_of("url");
    let score_tag = chars_of("score");
    let reasoning_tag = chars_of("reasoning");
    let mut out: Vec<ScoredUrl> = Vec::new();
    let mut k: usize = 0;
    while k < ls.len()
        invariant
            k <= ls.len(),
            v == chars_view(ls@),
            v == trimmed_lines(text@),
            v.len() == ls.len(),
            open@ == open_tag("source"@),
            close@ == close_tag("source"@),
            url_tag@ == "url"@,
            score_tag@ == "score"@,
            reasoning_tag@ == "reasoning"@,
            source_records(text@) == scored_view(out@) + source_records_from(v, k as int),
        decreases ls.len() - k,
    {
        proof {
            assert(v[k as int] == ls@[k as int]@);
        }
        let ghost before = out@;
        if has_prefix(&ls[k], &open) {
            let u = block_value_exec(&ls, k, &close, &url_tag);
            let s = block_value_exec(&ls, k, &close, &score_tag);
            let why = block_value_exec(&ls, k, &close, &reasoning_tag);
            match (u, s) {
                (Some(u), Some(s)) => {
                    match parse_score(&s) {
                        Some(score) => {
                            let reasoning = match why {
                                Some(w) => Some(string_of(&w)),
                                None => None,
                            };
                            let item = ScoredUrl { url: string_of(&u), score, reasoning };
                            proof {
                                assert(u@ == block_value(v, k as int, "source"@, "url"@)->0);
                                assert(s@ == block_value(v, k as int, "source"@, "score"@)->0);
                                assert(item.reasoning.deep_view() == block_value(v, k as int, "source"@, "reasoning"@));
                                assert(item@ == source_record(v, k as int)->0);
                            }
                            out.push(item);
                            proof {
                                assert(scored_view(out@) =~= scored_view(before).push(
                                    source_record(v, k as int)->0,
                                ));
                            }
                        },
                        None => {
                            proof {
                                assert(s@ == block_value(v, k as int, "source"@, "score"@)->0);
                                assert(source_record(v, k as int) is None);
                            }
                        },
                    }
                },
                (u, s) => {
                    proof {
                        assert(u is None || s is None);
                        assert(source_record(v, k as int) is None);
                    }
                },
            }
        }
        proof {
            assert(source_records(text@) =~= scored_view(out@) + source_records_from(
                v,
                k + 1,
            ));
        }
        k = k + 1;
    }
    proof {
        assert(scored_view(out@) + source_records_from(v, k as int) =~= scored_view(out@));
    }
    out
}

/// One step the model proposes for reading a field off a page.
#[derive(Clone, Debug)]
pub struct ScrapingInstruction {
    pub field: String,
    /// One of `regex`, `css_selector`, `meta_tag`, `text_search`, `xpath`.
    pub method: String,
    pub pattern: String,
    pub priority: u32,
    pub reasoning: String,
}

impl View for ScrapingInstruction {
    type V = (Seq<char>, Seq<char>, Seq<char>, u32, Seq<char>);

    open spec fn view(&self) -> (Seq<char>, Seq<char>, Seq<char>, u32, Seq<char>) {
        (self.field@, self.method@, self.pattern@, self.priority, self.reasoning@)
    }
}

/// The priority given when a block names none, or none that reads as an integer.
pub const DEFAULT_PRIORITY: u32 = 1;

/// A priority read as `i32`, taken as `u32` the way `as` converts it.
pub open spec fn priority_of(p: Option<Seq<char>>) -> u32 {
    match p {
        Some(t) => match i32_value(t) {
            Some(v) => if v >= 0 {
                v as u32
            } else {
                (v + 0x1_0000_0000) as u32
            },
            None => DEFAULT_PRIORITY,
        },
        None => DEFAULT_PRIORITY,
    }
}

/// The record of the `<instruction>` block opened at line `i`: it needs a
/// `field`, a `method` and a `pattern`.
pub open spec fn instruction_record(ls: Seq<Seq<char>>, i: int) -> Option<
    (Seq<char>, Seq<char>, Seq<char>, u32, Seq<char>),
> {
    let f = block_value(ls, i, "instruction"@, "field"@);
    let m = block_value(ls, i, "instruction"@, "method"@);
    let p = block_value(ls, i, "instruction"@, "pattern"@);
    let why = block_value(ls, i, "instruction"@, "reasoning"@);
    if f is Some && m is Some && p is Some {
        Some(
            (
                f->0,
                m->0,
                p->0,
                priority_of(block_value(ls, i, "instruction"@, "priority"@)),
                if why is Some {
                    why->0
                } else {
                    "No reasoning provided"@
                },
            ),
        )
    } else {
        None
    }
}

/// The records of the `<instruction>` blocks opened at line `k` or later.
pub open spec fn instruction_records_from(ls: Seq<Seq<char>>, k: int) -> Seq<
    (Seq<char>, Seq<char>, Seq<char>, u32, Seq<char>),
>
    decreases ls.len() - k,
{
    if k >= ls.len() || k < 0 {
        Seq::empty()
    } else if opens(ls[k], "instruction"@) && instruction_record(ls, k) is Some {
        seq![instruction_record(ls, k)->0] + instruction_records_from(ls, k + 1)
    } else {
        instruction_records_from(ls, k + 1)
    }
}

/// The scraping instructions of a response, in block order.
pub open spec fn instruction_records(text: Seq<char>) -> Seq<
    (Seq<char>, Seq<char>, Seq<char>, u32, Seq<char>),
> {
    instruction_records_from(trimmed_lines(text), 0)
}

/// The views of a sequence of instructions.
pub open spec fn instructions_view(v: Seq<ScrapingInstruction>) -> Seq<
    (Seq<char>, Seq<char>, Seq<char>, u32, Seq<char>),
> {
    v.map_values(|s: ScrapingInstruction| s@)
}

fn priority_exec(p: &Option<Vec<char>>) -> (r: u32)
    ensures
        r == priority_of(p.deep_view()),
{
    match p {
        Some(t) => match parse_i32(t) {
            Some(v) => {
                proof {
                    assert(p.deep_view() == Some(t@));
                    assert(i32_value(t@) == Some(v));
                }
                if v >= 0 {
                    v as u32
                } else {
                    (v as i64 + 0x1_0000_0000) as u32
                }
            },
            None => {
                proof {
                    assert(p.deep_view() == Some(t@));
                }
                DEFAULT_PRIORITY
            },
        },
        None => DEFAULT_PRIORITY,
    }
}

/// Reads the `<instruction>` blocks of a response.
pub fn parse_instructions(text: &str) -> (r: Vec<ScrapingInstruction>)
    ensures
        instructions_view(r@) == instruction_records(text@),
{
    let chars = chars_of(text);
    let ls = split_trimmed_lines(&chars);
    let ghost v = chars_view(ls@);
    let block = chars_of("instruction");
    let open = tag_chars(&block, false);
    let close = tag_chars(&block, true);
    let field_tag = chars_of("field");
    let method_tag = chars_of("method");
    let pattern_tag = chars_of("pattern");
    let priority_tag = chars_of("priority");
    let reasoning_tag = chars_of("reasoning");
    let mut out: Vec<ScrapingInstruction> = Vec::new();
    let mut k: usize = 0;
    while k < ls.len()
        invariant
            k <= ls.len(),
            v == chars_view(ls@),
            v == trimmed_lines(text@),
            v.len() == ls.len(),
            open@ == open_tag("instruction"@),
            close@ == close_tag("instruction"@),
            field_tag@ == "field"@,
            method_tag@ == "method"@,
            pattern_tag@ == "pattern"@,
            priority_tag@ == "priority"@,
            reasoning_tag@ == "reasoning"@,
            instruction_records(text@) == instructions_view(out@) + instruction_records_from(
                v,
                k as int,
            ),
        decreases ls.len() - k,
    {
        proof {
            assert(v[k as int] == ls@[k as int]@);
        }
        let ghost before = out@;
        if has_prefix(&ls[k], &open) {
            let f = block_value_exec(&ls, k, &close, &field_tag);
            let m = block_value_exec(&ls, k, &close, &method_tag);
            let p = block_value_exec(&ls, k, &close, &pattern_tag);
            let pr = block_value_exec(&ls, k, &close, &priority_tag);
            let why = block_value_exec(&ls, k, &close, &reasoning_tag);
            match (f, m, p) {
                (Some(f), Some(m), Some(p)) => {
                    let reasoning = match why {
                        Some(w) => string_of(&w),
                        None => String::from_str("No reasoning provided"),
                    };
                    let item = ScrapingInstruction {
                        field: string_of(&f),
                        method: string_of(&m),
                        pattern: string_of(&p),
                        priority: priority_exec(&pr),
                        reasoning,
                    };
                    proof {
                        assert(item@ == instruction_record(v, k as int)->0);
                    }
                    out.push(item);
                    proof {
                        assert(instructions_view(out@) =~= instructions_view(before).push(
                            instruction_record(v, k as int)->0,
                        ));
                    }
                },
                (f, m, p) => {
                    proof {
                        assert(instruction_record(v, k as int) is None);
                    }
                },
            }
        }
        proof {
            assert(instruction_records(text@) =~= instructions_view(out@)
                + instruction_records_from(v, k + 1));
        }
        k = k + 1;
    }
    proof {
        assert(instructions_view(out@) + instruction_records_from(v, k as int) =~= instructions_view(
            out@,
        ));
    }
    out
}

/// The URLs listed one per line as `<source>url</source>` from line `k` on,
/// empty ones left out.
pub open spec fn listed_urls_from(ls: Seq<Seq<char>>, k: int) -> Seq<Seq<char>>
    decreases ls.len() - k,
{
    if k >= ls.len() || k < 0 {
        Seq::empty()
    } else {
        match tag_value(ls[k], "source"@) {
            Some(u) => if u.len() > 0 {
                seq![u] + listed_urls_from(ls, k + 1)
            } else {
                listed_urls_from(ls, k + 1)
            },
            None => listed_urls_from(ls, k + 1),
        }
    }
}

/// The URLs that a source-selection response lists, in order.
pub open spec fn listed_urls(text: Seq<char>) -> Seq<Seq<char>> {
    listed_urls_from(trimmed_lines(text), 0)
}

/// Reads the `<source>url</source>` lines of a source-selection response.
pub fn parse_listed_urls(text: &str) -> (r: Vec<String>)
    ensures
        crate::text::strings_view(r@) == listed_urls(text@),
{
    let chars = chars_of(text);
    let ls = split_trimmed_lines(&chars);
    let ghost v = chars_view(ls@);
    let tag = chars_of("source");
    let mut out: Vec<String> = Vec::new();
    let mut k: usize = 0;
    while k < ls.len()
        invariant
            k <= ls.len(),
            v == chars_view(ls@),
            v == trimmed_lines(text@),
            v.len() == ls.len(),
            tag@ == "source"@,
            listed_urls(text@) == crate::text::strings_view(out@) + listed_urls_from(v, k as int),
        decreases ls.len() - k,
    {
        proof {
            assert(v[k as int] == ls@[k as int]@);
        }
        let ghost before = out@;
        match line_tag_value(&ls[k], &tag) {
            Some(u) => {
                proof {
                    assert(tag_value(v[k as int], "source"@) == Some(u@));
                }
                if u.len() > 0 {
                    out.push(string_of(&u));
                    proof {
                        assert(crate::text::strings_view(out@) =~= crate::text::strings_view(
                            before,
                        ).push(u@));
                    }
                }
            },
            None => {},
        }
        proof {
            assert(listed_urls(text@) =~= crate::text::strings_view(out@) + listed_urls_from(
                v,
                k + 1,
            ));
        }
        k = k + 1;
    }
    proof {
        assert(crate::text::strings_view(out@) + listed_urls_from(v, k as int)
            =~= crate::text::strings_view(out@));
    }
    out
}

/// The field and value that a trimmed line `<name>value</name>` gives: the
/// name runs up to the first `>`, the value up to the last `</name>`, and
/// must not be blank. Closing lines and the `<venue_data>` wrapper give none.
pub open spec fn tagged_entry(t: Seq<char>) -> Option<(Seq<char>, Seq<char>)> {
    if t.len() > 0 && t[0] == '<' && ends_with(t, seq!['>']) && !starts_with(t, seq!['<', '/'])
        && t != "<venue_data>"@ && t != "</venue_data>"@ {
        let e = index_of_char(t, '>');
        let name = t.subrange(1, e);
        let rest = t.subrange(e + 1, t.len() as int);
        match rfind(rest, close_tag(name)) {
            Some(p) => {
                let value = trim(rest.take(p));
                if value.len() > 0 {
                    Some((name, value))
                } else {
                    None
                }
            },
            None => None,
        }
    } else {
        None
    }
}

/// The fields that the first `n` lines give, a later line winning.
pub open spec fn tagged_map_upto(ls: Seq<Seq<char>>, n: int) -> Map<Seq<char>, Seq<char>>
    decreases n,
{
    if n <= 0 {
        Map::empty()
    } else {
        match tagged_entry(ls[n - 1]) {
            Some(e) => tagged_map_upto(ls, n - 1).insert(e.0, e.1),
            None => tagged_map_upto(ls, n - 1),
        }
    }
}

/// The fields that a structured-extraction response gives.
pub open spec fn tagged_fields(text: Seq<char>) -> Map<Seq<char>, Seq<char>> {
    tagged_map_upto(trimmed_lines(text), trimmed_lines(text).len() as int)
}

fn line_entry(t: &Vec<char>) -> (r: Option<(Vec<char>, Vec<char>)>)
    ensures
        match r {
            Some(e) => tagged_entry(t@) == Some((e.0@, e.1@)),
            None => tagged_entry(t@) is None,
        },
{
    let mut lt: Vec<char> = Vec::new();
    lt.push('<');
    let mut gt: Vec<char> = Vec::new();
    gt.push('>');
    let mut lts: Vec<char> = Vec::new();
    lts.push('<');
    lts.push('/');
    let wrap_open = chars_of("<venue_data>");
    let wrap_close = chars_of("</venue_data>");
    proof {
        assert(lt@ =~= seq!['<']);
        assert(gt@ =~= seq!['>']);
        assert(lts@ =~= seq!['<', '/']);
    }
    if !(t.len() > 0 && t[0] == '<' && has_suffix(t, &gt) && !has_prefix(t, &lts) && !same_chars(
        t,
        &wrap_open,
    ) && !same_chars(t, &wrap_close)) {
        proof {
            assert(!(t@.len() > 0 && t@[0] == '<' && ends_with(t@, seq!['>']) && !starts_with(
                t@,
                seq!['<', '/'],
            ) && t@ != "<venue_data>"@ && t@ != "</venue_data>"@));
        }
        return None;
    }
    let e = find_char(t, '>');
    if e == 0 || e >= t.len() {
        proof {
            assert(t@[0] == '<');
            assert(t@[t.len() - 1] == '>') by {
                assert(t@.skip(t.len() - 1)[0] == t@[t.len() - 1]);
            }
        }
        return None;
    }
    let name = slice_chars(t, 1, e);
    let rest = slice_chars(t, e + 1, t.len());
    let closing = tag_chars(&name, true);
    match rfind_chars(&rest, &closing) {
        Some(p) => {
            let value = trim_range(&rest, 0, p);
            proof {
                assert(rest@.subrange(0, p as int) =~= rest@.take(p as int));
                assert(e == index_of_char(t@, '>'));
                assert(name@ == t@.subrange(1, e as int));
                assert(rest@ == t@.subrange(e + 1, t.len() as int));
                assert(closing@ == close_tag(name@));
                assert(rfind(rest@, close_tag(name@)) == Some(p as int));
                assert(t@ != "<venue_data>"@);
                assert(t@ != "</venue_data>"@);
                assert(ends_with(t@, seq!['>']));
                assert(!starts_with(t@, seq!['<', '/']));
            }
            if value.len() > 0 {
                Some((name, value))
            } else {
                None
            }
        },
        None => None,
    }
}

/// Reads the `<field>value</field>` lines of a structured-extraction response.
pub fn parse_tagged_fields(text: &str) -> (r: FieldMap)
    ensures
        r.wf(),
        r@ == tagged_fields(text@),
{
    let chars = chars_of(text);
    let ls = split_trimmed_lines(&chars);
    let ghost v = chars_view(ls@);
    let mut out = FieldMap::new();
    let mut k: usize = 0;
    while k < ls.len()
        invariant
            k <= ls.len(),
            v == chars_view(ls@),
            v == trimmed_lines(text@),
            v.len() == ls.len(),
            out.wf(),
            out@ == tagged_map_upto(v, k as int),
        decreases ls.len() - k,
    {
        proof {
            assert(v[k as int] == ls@[k as int]@);
        }
        match line_entry(&ls[k]) {
            Some(e) => {
                out.insert(string_of(&e.0), string_of(&e.1));
            },
            None => {},
        }
        k = k + 1;
    }
    out
}

} // verus!
