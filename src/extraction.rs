//! Reading venue fields off a page: heuristic patterns and meta tags, the
//! model's scraping instructions, and the rules that combine, filter and
//! normalise what was found.
use vstd::prelude::*;
use crate::field_map::FieldMap;
use crate::response::{instructions_view, ScrapingInstruction};
use crate::urls::{normalize_url, normalized, url_parses, validate_url};
use crate::text::{
    chars_of, chars_view, lower_of, lowercase, contains_chars, contains_seq, count_digits, digit_count,
    has_prefix, lines, slice_chars, string_of, trim, trim_range,
};

verus! {

broadcast use vstd::string::group_string_axioms;

/// The first match of the regular expression `pattern` in `text`; `None`
/// where the pattern does not compile.
pub uninterp spec fn regex_find(pattern: Seq<char>, text: Seq<char>) -> Option<Option<Seq<char>>>;

/// The text of the first element of the page `html` that the CSS selector
/// matches; `None` where the selector does not parse.
pub uninterp spec fn css_text(html: Seq<char>, selector: Seq<char>) -> Option<Option<Seq<char>>>;

/// The attribute `attr` of the first element of the page `html` that the CSS
/// selector matches; `None` where the selector does not parse.
pub uninterp spec fn css_attr(html: Seq<char>, selector: Seq<char>, attr: Seq<char>) -> Option<
    Option<Seq<char>>,
>;

/// Relies on `regex::Regex::new` and `Regex::find`: the text of the leftmost
/// match, or `None` where the pattern does not compile.
#[verifier::external_body]
fn regex_first(pattern: &str, text: &str) -> (r: Option<Option<String>>)
    ensures
        r.deep_view() == regex_find(pattern@, text@),
{
    match regex::Regex::new(pattern) {
        Ok(re) => Some(re.find(text).map(|m| m.as_str().to_string())),
        Err(_) => None,
    }
}

/// Relies on `scraper::Selector::parse`, `Html::parse_document` and
/// `Html::select`: the concatenated text of the first matching element.
#[verifier::external_body]
fn css_first_text(html: &str, selector: &str) -> (r: Option<Option<String>>)
    ensures
        r.deep_view() == css_text(html@, selector@),
{
    match scraper::Selector::parse(selector) {
        Ok(sel) => {
            let doc = scraper::Html::parse_document(html);
            let found = doc.select(&sel).next().map(|e| e.text().collect::<String>());
            Some(found)
        },
        Err(_) => None,
    }
}

/// Relies on `scraper::Selector::parse`, `Html::parse_document`,
/// `Html::select` and `ElementRef::attr`: an attribute of the first matching element.
#[verifier::external_body]
fn css_first_attr(html: &str, selector: &str, attr: &str) -> (r: Option<Option<String>>)
    ensures
        r.deep_view() == css_attr(html@, selector@, attr@),
{
    match scraper::Selector::parse(selector) {
        Ok(sel) => {
            let doc = scraper::Html::parse_document(html);
            let found = doc.select(&sel).next().and_then(|e| e.attr(attr).map(|a| a.to_string()));
            Some(found)
        },
        Err(_) => None,
    }
}

/// Why an extraction attempt failed.
#[derive(Clone, Copy, Debug, PartialEq, Eq, Structural)]
pub enum ExtractionError {
    /// A regular expression did not compile.
    BadPattern,
    /// A CSS selector did not parse.
    BadSelector,
}

/// The first match of `pattern` in `text`.
pub open spec fn regex_value(text: Seq<char>, pattern: Seq<char>) -> Result<
    Option<Seq<char>>,
    ExtractionError,
> {
    match regex_find(pattern, text) {
        Some(m) => Ok(m),
        None => Err(ExtractionError::BadPattern),
    }
}

/// The views of an optional string result.
pub open spec fn opt_result_view(r: Result<Option<String>, ExtractionError>) -> Result<
    Option<Seq<char>>,
    ExtractionError,
> {
    match r {
        Ok(o) => Ok(o.deep_view()),
        Err(e) => Err(e),
    }
}

/// The first match of `pattern` in `text`.
pub fn extract_with_regex(text: &str, pattern: &str) -> (r: Result<Option<String>, ExtractionError>)
    ensures
        opt_result_view(r) == regex_value(text@, pattern@),
{
    match regex_first(pattern, text) {
        Some(m) => Ok(m),
        None => Err(ExtractionError::BadPattern),
    }
}

/// The trimmed text of the first element the selector matches, where not blank.
pub open spec fn css_value(html: Seq<char>, selector: Seq<char>) -> Result<
    Option<Seq<char>>,
    ExtractionError,
> {
    match css_text(html, selector) {
        Some(Some(t)) => if trim(t).len() > 0 {
            Ok(Some(trim(t)))
        } else {
            Ok(None)
        },
        Some(None) => Ok(None),
        None => Err(ExtractionError::BadSelector),
    }
}

fn trimmed_nonblank(s: &String) -> (r: Option<String>)
    ensures
        trim(s@).len() > 0 ==> r.deep_view() == Some(trim(s@)),
        trim(s@).len() == 0 ==> r is None,
{
    let c = chars_of(s.as_str());
    proof {
        assert(c@.subrange(0, c.len() as int) =~= c@);
    }
    let t = trim_range(&c, 0, c.len());
    if t.len() > 0 {
        Some(string_of(&t))
    } else {
        None
    }
}

/// The trimmed text of the first element the CSS selector matches.
pub fn extract_with_css_selector(html: &str, selector: &str) -> (r: Result<
    Option<String>,
    ExtractionError,
>)
    ensures
        opt_result_view(r) == css_value(html@, selector@),
{
    match css_first_text(html, selector) {
        Some(Some(t)) => Ok(trimmed_nonblank(&t)),
        Some(None) => Ok(None),
        None => Err(ExtractionError::BadSelector),
    }
}

/// `meta[name='n']` (or `property` for `by_property`).
pub open spec fn meta_selector(n: Seq<char>, by_property: bool) -> Seq<char> {
    (if by_property {
        "meta[property='"@
    } else {
        "meta[name='"@
    }) + n + "']"@
}

/// The trimmed `content` of the first element a selector matches, where not blank.
pub open spec fn content_of(html: Seq<char>, selector: Seq<char>) -> Option<Seq<char>> {
    match css_attr(html, selector, "content"@) {
        Some(Some(c)) => if trim(c).len() > 0 {
            Some(trim(c))
        } else {
            None
        },
        _ => None,
    }
}

/// The content of the meta tag `name`: tried by `name` and by `property`,
/// first as given and then in lower case; the first non-blank one wins.
pub open spec fn meta_value(html: Seq<char>, name: Seq<char>) -> Option<Seq<char>> {
    let l = lower_of(name);
    if content_of(html, meta_selector(name, false)) is Some {
        content_of(html, meta_selector(name, false))
    } else if content_of(html, meta_selector(name, true)) is Some {
        content_of(html, meta_selector(name, true))
    } else if content_of(html, meta_selector(l, false)) is Some {
        content_of(html, meta_selector(l, false))
    } else {
        content_of(html, meta_selector(l, true))
    }
}

fn selector_for(n: &str, by_property: bool) -> (r: String)
    ensures
        r@ == meta_selector(n@, by_property),
{
    let head = if by_property {
        String::from_str("meta[property='")
    } else {
        String::from_str("meta[name='")
    };
    head.concat(n).concat("']")
}

fn content_exec(html: &str, selector: &String) -> (r: Option<String>)
    ensures
        r.deep_view() == content_of(html@, selector@),
{
    match css_first_attr(html, selector.as_str(), "content") {
        Some(Some(c)) => trimmed_nonblank(&c),
        _ => None,
    }
}

/// The content of the meta tag `name`, as `meta_value` describes.
pub fn extract_meta_tag(html: &str, name: &str) -> (r: Option<String>)
    ensures
        r.deep_view() == meta_value(html@, name@),
{
    let lower = lowercase(name);
    let a = content_exec(html, &selector_for(name, false));
    if a.is_some() {
        return a;
    }
    let b = content_exec(html, &selector_for(name, true));
    if b.is_some() {
        return b;
    }
    let c = content_exec(html, &selector_for(lower.as_str(), false));
    if c.is_some() {
        return c;
    }
    content_exec(html, &selector_for(lower.as_str(), true))
}

/// The first of the lines `k..` of `text` that holds `p` once both are in
/// lower case, trimmed.
pub open spec fn line_with_from(ls: Seq<Seq<char>>, p: Seq<char>, k: int) -> Option<Seq<char>>
    decreases ls.len() - k,
{
    if k >= ls.len() || k < 0 {
        None
    } else if contains_seq(lower_of(ls[k]), lower_of(p)) {
        Some(trim(ls[k]))
    } else {
        line_with_from(ls, p, k + 1)
    }
}

/// The trimmed first line of `text` that holds `pattern`, ignoring case.
pub open spec fn text_search_value(text: Seq<char>, pattern: Seq<char>) -> Option<Seq<char>> {
    if contains_seq(lower_of(text), lower_of(pattern)) {
        line_with_from(lines(text), pattern, 0)
    } else {
        None
    }
}

fn split_lines_raw(s: &Vec<char>) -> (r: Vec<Vec<char>>)
    ensures
        chars_view(r@) == lines(s@),
{
    let mut out: Vec<Vec<char>> = Vec::new();
    let mut start: usize = 0;
    let mut i: usize = 0;
    while i < s.len()
        invariant
            0 <= start <= i <= s.len(),
            lines(s@) == chars_view(out@) + crate::text::lines_from(s@, start as int),
            forall|k: int| start <= k < i ==> s@[k] != '\n',
        decreases s.len() - i,
    {
        if s[i] == '\n' {
            proof {
                crate::text::lemma_next_newline(s@, start as int, i as int);
            }
            let ghost before = out@;
            out.push(slice_chars(s, start, i));
            proof {
                assert(chars_view(out@) =~= chars_view(before).push(
                    s@.subrange(start as int, i as int),
                ));
                assert(chars_view(before) + crate::text::lines_from(s@, start as int)
                    =~= chars_view(out@) + crate::text::lines_from(s@, i + 1));
            }
            start = i + 1;
        }
        i = i + 1;
    }
    if start < s.len() {
        proof {
            crate::text::lemma_next_newline(s@, start as int, s.len() as int);
        }
        let ghost before = out@;
        out.push(slice_chars(s, start, s.len()));
        proof {
            assert(chars_view(out@) =~= chars_view(before).push(
                s@.subrange(start as int, s.len() as int),
            ));
            assert(chars_view(before) + crate::text::lines_from(s@, start as int)
                =~= chars_view(out@));
        }
    } else {
        proof {
            assert(chars_view(out@) + crate::text::lines_from(s@, start as int)
                =~= chars_view(out@));
        }
    }
    out
}

/// The trimmed first line of `text` that holds `pattern`, ignoring case.
pub fn extract_with_text_search(text: &str, pattern: &str) -> (r: Option<String>)
    ensures
        r.deep_view() == text_search_value(text@, pattern@),
{
    let lt = chars_of(lowercase(text).as_str());
    let lp = chars_of(lowercase(pattern).as_str());
    if !contains_chars(&lt, &lp) {
        return None;
    }
    let ls = split_lines_raw(&chars_of(text));
    let ghost v = chars_view(ls@);
    let mut k: usize = 0;
    while k < ls.len()
        invariant
            k <= ls.len(),
            v == chars_view(ls@),
            v == lines(text@),
            v.len() == ls.len(),
            lp@ == lower_of(pattern@),
            contains_seq(lower_of(text@), lower_of(pattern@)),
            line_with_from(v, pattern@, 0) == line_with_from(v, pattern@, k as int),
        decreases ls.len() - k,
    {
        proof {
            assert(v[k as int] == ls@[k as int]@);
        }
        let line = string_of(&ls[k]);
        let ll = chars_of(lowercase(line.as_str()).as_str());
        if contains_chars(&ll, &lp) {
            proof {
                assert(ls[k as int]@.subrange(0, ls[k as int].len() as int) =~= ls[k as int]@);
            }
            let t = trim_range(&ls[k], 0, ls[k].len());
            return Some(string_of(&t));
        }
        k = k + 1;
    }
    None
}

/// `s` with every occurrence of `from` replaced by `to`, scanning left to
/// right without overlap, as `str::replace` does.
pub open spec fn replace_all(s: Seq<char>, from: Seq<char>, to: Seq<char>) -> Seq<char>
    decreases s.len(),
{
    if s.len() == 0 || from.len() == 0 {
        s
    } else if crate::text::starts_with(s, from) {
        to + replace_all(s.skip(from.len() as int), from, to)
    } else {
        seq![s[0]] + replace_all(s.drop_first(), from, to)
    }
}

fn replace_chars(s: &Vec<char>, from: &Vec<char>, to: &Vec<char>) -> (r: Vec<char>)
    requires
        from.len() > 0,
    ensures
        r@ == replace_all(s@, from@, to@),
{
    let mut out: Vec<char> = Vec::new();
    let mut i: usize = 0;
    proof {
        assert(s@.skip(0) =~= s@);
        assert(out@ + replace_all(s@, from@, to@) =~= replace_all(s@, from@, to@));
    }
    while i < s.len()
        invariant
            from.len() > 0,
            i <= s.len(),
            replace_all(s@, from@, to@) == out@ + replace_all(s@.skip(i as int), from@, to@),
        decreases s.len() - i,
    {
        let rest = slice_chars(s, i, s.len());
        proof {
            assert(rest@ =~= s@.skip(i as int));
        }
        if has_prefix(&rest, from) {
            let ghost before = out@;
            out = crate::text::concat_chars(&out, to);
            proof {
                assert(s@.skip(i as int).skip(from.len() as int) =~= s@.skip(i + from.len()));
                assert(out@ + replace_all(s@.skip(i + from.len()), from@, to@) =~= before + (to@
                    + replace_all(s@.skip(i + from.len()), from@, to@)));
            }
            i = i + from.len();
        } else {
            let ghost before = out@;
            out.push(s[i]);
            proof {
                assert(s@.skip(i as int).drop_first() =~= s@.skip(i + 1));
                assert(s@.skip(i as int)[0] == s@[i as int]);
                assert(out@ + replace_all(s@.skip(i + 1), from@, to@) =~= before + (seq![s@[i as int]]
                    + replace_all(s@.skip(i + 1), from@, to@)));
            }
            i = i + 1;
        }
    }
    proof {
        assert(s@.skip(i as int) =~= Seq::<char>::empty());
        assert(out@ + Seq::<char>::empty() =~= out@);
    }
    out
}

/// A phone number tidied: trimmed, with double spaces and the spaces just
/// inside parentheses taken out, each replacement made once left to right.
pub open spec fn tidied_phone(p: Seq<char>) -> Seq<char> {
    replace_all(
        replace_all(replace_all(trim(p), "  "@, " "@), "( "@, "("@),
        " )"@,
        ")"@,
    )
}

/// The tidied number where it still has ten digits, else the number as given.
pub open spec fn cleaned_phone(p: Seq<char>) -> Seq<char> {
    if digit_count(tidied_phone(p)) >= 10 {
        tidied_phone(p)
    } else {
        p
    }
}

proof fn lemma_digits_concat(a: Seq<char>, b: Seq<char>)
    ensures
        digit_count(a + b) == digit_count(a) + digit_count(b),
    decreases b.len(),
{
    if b.len() == 0 {
        assert(a + b =~= a);
    } else {
        lemma_digits_concat(a, b.drop_last());
        assert((a + b).drop_last() =~= a + b.drop_last());
        assert((a + b).last() == b.last());
    }
}

proof fn lemma_digits_one(c: char)
    ensures
        digit_count(seq![c]) == (if '0' <= c && c <= '9' {
            1nat
        } else {
            0nat
        }),
{
    assert(seq![c].drop_last() =~= Seq::<char>::empty());
    assert(seq![c].last() == c);
    assert(digit_count(Seq::<char>::empty()) == 0);
}

proof fn lemma_trim_keeps_digits(s: Seq<char>)
    ensures
        digit_count(crate::text::trim_start(s)) == digit_count(s),
        digit_count(crate::text::trim_end(s)) == digit_count(s),
    decreases s.len(),
{
    if s.len() > 0 {
        lemma_trim_keeps_digits(s.drop_first());
        lemma_trim_keeps_digits(s.drop_last());
        assert(s =~= seq![s[0]] + s.drop_first());
        lemma_digits_concat(seq![s[0]], s.drop_first());
        lemma_digits_one(s[0]);
    }
}

proof fn lemma_replace_keeps_digits(s: Seq<char>, from: Seq<char>, to: Seq<char>)
    requires
        digit_count(from) == digit_count(to),
    ensures
        digit_count(replace_all(s, from, to)) == digit_count(s),
    decreases s.len(),
{
    if s.len() > 0 && from.len() > 0 {
        if crate::text::starts_with(s, from) {
            let rest = s.skip(from.len() as int);
            lemma_replace_keeps_digits(rest, from, to);
            assert(s =~= from + rest);
            lemma_digits_concat(from, rest);
            lemma_digits_concat(to, replace_all(rest, from, to));
        } else {
            lemma_replace_keeps_digits(s.drop_first(), from, to);
            assert(s =~= seq![s[0]] + s.drop_first());
            lemma_digits_concat(seq![s[0]], s.drop_first());
            lemma_digits_concat(seq![s[0]], replace_all(s.drop_first(), from, to));
        }
    }
}

/// Tidying a phone number never changes how many digits it has, so the
/// tidied form is kept exactly when the number has ten digits or more.
pub proof fn lemma_phone_digits_kept(p: Seq<char>)
    ensures
        digit_count(tidied_phone(p)) == digit_count(p),
        digit_count(cleaned_phone(p)) == digit_count(p),
{
    reveal_strlit("  ");
    reveal_strlit(" ");
    reveal_strlit("( ");
    reveal_strlit("(");
    reveal_strlit(" )");
    reveal_strlit(")");
    lemma_trim_keeps_digits(p);
    lemma_trim_keeps_digits(crate::text::trim_start(p));
    lemma_digits_one(' ');
    lemma_digits_one('(');
    lemma_digits_one(')');
    assert("  "@ =~= seq![' '] + seq![' ']);
    lemma_digits_concat(seq![' '], seq![' ']);
    assert("( "@ =~= seq!['('] + seq![' ']);
    lemma_digits_concat(seq!['('], seq![' ']);
    assert(" )"@ =~= seq![' '] + seq![')']);
    lemma_digits_concat(seq![' '], seq![')']);
    assert(" "@ =~= seq![' ']);
    assert("("@ =~= seq!['(']);
    assert(")"@ =~= seq![')']);
    let t = trim(p);
    let a = replace_all(t, "  "@, " "@);
    let b = replace_all(a, "( "@, "("@);
    lemma_replace_keeps_digits(t, "  "@, " "@);
    lemma_replace_keeps_digits(a, "( "@, "("@);
    lemma_replace_keeps_digits(b, " )"@, ")"@);
}

/// Tidies a phone number, as `cleaned_phone` describes.
pub fn clean_phone_number(phone: &str) -> (r: String)
    ensures
        r@ == cleaned_phone(phone@),
{
    proof {
        reveal_strlit("  ");
        reveal_strlit("( ");
        reveal_strlit(" )");
    }
    let c = chars_of(phone);
    proof {
        assert(c@.subrange(0, c.len() as int) =~= c@);
    }
    let t = trim_range(&c, 0, c.len());
    let a = replace_chars(&t, &chars_of("  "), &chars_of(" "));
    let b = replace_chars(&a, &chars_of("( "), &chars_of("("));
    let d = replace_chars(&b, &chars_of(" )"), &chars_of(")"));
    if count_digits(&d) >= 10 {
        string_of(&d)
    } else {
        String::from_str(phone)
    }
}

/// The patterns the heuristic pass looks for.
pub struct DataExtractor {
    /// An email address.
    pub email_pattern: String,
    /// A phone number: ten or more digits, spaces and punctuation.
    pub phone_pattern: String,
    /// Pairs of a social-profile field and the pattern of its URL.
    pub social_patterns: Vec<(String, String)>,
}

/// The views of the social patterns.
pub open spec fn pattern_pairs(v: Seq<(String, String)>) -> Seq<(Seq<char>, Seq<char>)> {
    v.map_values(|e: (String, String)| (e.0@, e.1@))
}

/// `m` with the social-profile links found by the first `n` patterns.
pub open spec fn social_fields(
    pats: Seq<(Seq<char>, Seq<char>)>,
    html: Seq<char>,
    m: Map<Seq<char>, Seq<char>>,
    n: int,
) -> Map<Seq<char>, Seq<char>>
    decreases n,
{
    if n <= 0 {
        m
    } else {
        let prev = social_fields(pats, html, m, n - 1);
        match regex_find(pats[n - 1].1, html) {
            Some(Some(u)) => prev.insert(pats[n - 1].0, u),
            _ => prev,
        }
    }
}

/// What the heuristic pass finds on a page: the first email and phone
/// number (tidied), the first link of each social profile, the description
/// from `og:description` or else `description`, and the logo from `og:image`.
pub open spec fn basic_fields(e: DataExtractor, html: Seq<char>) -> Map<Seq<char>, Seq<char>> {
    let m0 = Map::<Seq<char>, Seq<char>>::empty();
    let m1 = match regex_find(e.email_pattern@, html) {
        Some(Some(x)) => m0.insert("email"@, x),
        _ => m0,
    };
    let m2 = match regex_find(e.phone_pattern@, html) {
        Some(Some(x)) => m1.insert("phone"@, cleaned_phone(x)),
        _ => m1,
    };
    let pats = pattern_pairs(e.social_patterns@);
    let m3 = social_fields(pats, html, m2, pats.len() as int);
    let m4 = match meta_value(html, "og:description"@) {
        Some(d) => m3.insert("description"@, d),
        None => match meta_value(html, "description"@) {
            Some(d) => m3.insert("description"@, d),
            None => m3,
        },
    };
    match meta_value(html, "og:image"@) {
        Some(l) => m4.insert("logo_url"@, l),
        None => m4,
    }
}

impl DataExtractor {
    /// The standard patterns: email, phone, and Facebook, Twitter/X and
    /// Instagram profile links.
    pub fn new() -> (r: DataExtractor)
        ensures
            r.email_pattern@ == "[a-zA-Z0-9._%+-]+@[a-zA-Z0-9.-]+\\.[a-zA-Z]{2,}"@,
            r.phone_pattern@ == "\\+?[\\d\\s\\-\\(\\)\\.]{10,}"@,
            pattern_pairs(r.social_patterns@) == seq![
                ("facebook_url"@, "https?://(?:www\\.)?facebook\\.com/[a-zA-Z0-9\\.]+/?"@),
                ("twitter_url"@, "https?://(?:www\\.)?(?:twitter\\.com|x\\.com)/[a-zA-Z0-9_]+/?"@),
                ("instagram_url"@, "https?://(?:www\\.)?instagram\\.com/[a-zA-Z0-9_.]+/?"@),
            ],
    {
        let mut social: Vec<(String, String)> = Vec::new();
        social.push(
            (
                String::from_str("facebook_url"),
                String::from_str("https?://(?:www\\.)?facebook\\.com/[a-zA-Z0-9\\.]+/?"),
            ),
        );
        social.push(
            (
                String::from_str("twitter_url"),
                String::from_str("https?://(?:www\\.)?(?:twitter\\.com|x\\.com)/[a-zA-Z0-9_]+/?"),
            ),
        );
        social.push(
            (
                String::from_str("instagram_url"),
                String::from_str("https?://(?:www\\.)?instagram\\.com/[a-zA-Z0-9_.]+/?"),
            ),
        );
        let r = DataExtractor {
            email_pattern: String::from_str("[a-zA-Z0-9._%+-]+@[a-zA-Z0-9.-]+\\.[a-zA-Z]{2,}"),
            phone_pattern: String::from_str("\\+?[\\d\\s\\-\\(\\)\\.]{10,}"),
            social_patterns: social,
        };
        proof {
            assert(pattern_pairs(r.social_patterns@) =~= seq![
                ("facebook_url"@, "https?://(?:www\\.)?facebook\\.com/[a-zA-Z0-9\\.]+/?"@),
                ("twitter_url"@, "https?://(?:www\\.)?(?:twitter\\.com|x\\.com)/[a-zA-Z0-9_]+/?"@),
                ("instagram_url"@, "https?://(?:www\\.)?instagram\\.com/[a-zA-Z0-9_.]+/?"@),
            ]);
        }
        r
    }

    /// The fields the heuristic pass finds on a page, as `basic_fields` describes.
    pub fn extract_basic_data(&self, html: &str) -> (r: FieldMap)
        ensures
            r.wf(),
            r@ == basic_fields(*self, html@),
    {
        let mut data = FieldMap::new();
        match extract_with_regex(html, self.email_pattern.as_str()) {
            Ok(Some(e)) => {
                data.insert(String::from_str("email"), e);
            },
            _ => {},
        }
        match extract_with_regex(html, self.phone_pattern.as_str()) {
            Ok(Some(p)) => {
                let c = clean_phone_number(p.as_str());
                data.insert(String::from_str("phone"), c);
            },
            _ => {},
        }
        let ghost m2 = data@;
        let ghost pats = pattern_pairs(self.social_patterns@);
        let mut i: usize = 0;
        while i < self.social_patterns.len()
            invariant
                i <= self.social_patterns.len(),
                pats == pattern_pairs(self.social_patterns@),
                data.wf(),
                data@ == social_fields(pats, html@, m2, i as int),
            decreases self.social_patterns.len() - i,
        {
            proof {
                assert(pats[i as int] == (
                    self.social_patterns@[i as int].0@,
                    self.social_patterns@[i as int].1@,
                ));
            }
            match extract_with_regex(html, self.social_patterns[i].1.as_str()) {
                Ok(Some(u)) => {
                    data.insert(self.social_patterns[i].0.clone(), u);
                },
                _ => {},
            }
            i = i + 1;
        }
        match extract_meta_tag(html, "og:description") {
            Some(d) => {
                data.insert(String::from_str("description"), d);
            },
            None => match extract_meta_tag(html, "description") {
                Some(d) => {
                    data.insert(String::from_str("description"), d);
                },
                None => {},
            },
        }
        match extract_meta_tag(html, "og:image") {
            Some(l) => {
                data.insert(String::from_str("logo_url"), l);
            },
            None => {},
        }
        data
    }

    /// Carries out the instructions in order, as `instructions_fields` describes.
    pub fn extract_with_instructions(&self, html: &str, instructions: &Vec<ScrapingInstruction>) -> (r:
        Result<FieldMap, ExtractionError>)
        ensures
            match r {
                Ok(m) => m.wf() && instructions_fields(
                    html@,
                    instructions_view(instructions@),
                    instructions@.len() as int,
                ) == Ok::<Map<Seq<char>, Seq<char>>, ExtractionError>(m@),
                Err(e) => instructions_fields(
                    html@,
                    instructions_view(instructions@),
                    instructions@.len() as int,
                ) == Err::<Map<Seq<char>, Seq<char>>, ExtractionError>(e),
            },
    {
        let ghost iv = instructions_view(instructions@);
        let mut data = FieldMap::new();
        let mut i: usize = 0;
        while i < instructions.len()
            invariant
                i <= instructions.len(),
                iv == instructions_view(instructions@),
                data.wf(),
                instructions_fields(html@, iv, i as int) == Ok::<
                    Map<Seq<char>, Seq<char>>,
                    ExtractionError,
                >(data@),
            decreases instructions.len() - i,
        {
            let ins = &instructions[i];
            proof {
                assert(iv[i as int] == ins@);
            }
            let value = if ins.method == String::from_str("regex") {
                extract_with_regex(html, ins.pattern.as_str())
            } else if ins.method == String::from_str("css_selector") {
                extract_with_css_selector(html, ins.pattern.as_str())
            } else if ins.method == String::from_str("meta_tag") {
                Ok(extract_meta_tag(html, ins.pattern.as_str()))
            } else if ins.method == String::from_str("text_search") {
                Ok(extract_with_text_search(html, ins.pattern.as_str()))
            } else {
                Ok(None)
            };
            match value {
                Ok(Some(v)) => {
                    data.insert(ins.field.clone(), v);
                },
                Ok(None) => {},
                Err(e) => {
                    proof {
                        lemma_failure_sticks(html@, iv, i + 1, instructions@.len() as int);
                    }
                    return Err(e);
                },
            }
            i = i + 1;
        }
        Ok(data)
    }
}

/// What one instruction reads off the page. The methods `regex`,
/// `css_selector`, `meta_tag` and `text_search` are carried out; `xpath` and
/// any other method read nothing.
pub open spec fn instruction_value(
    html: Seq<char>,
    ins: (Seq<char>, Seq<char>, Seq<char>, u32, Seq<char>),
) -> Result<Option<Seq<char>>, ExtractionError> {
    let method = ins.1;
    let pattern = ins.2;
    if method == "regex"@ {
        regex_value(html, pattern)
    } else if method == "css_selector"@ {
        css_value(html, pattern)
    } else if method == "meta_tag"@ {
        Ok(meta_value(html, pattern))
    } else if method == "text_search"@ {
        Ok(text_search_value(html, pattern))
    } else {
        Ok(None)
    }
}

/// The fields that the first `n` instructions read, a later one winning; the
/// first failing instruction fails the whole attempt.
pub open spec fn instructions_fields(
    html: Seq<char>,
    ins: Seq<(Seq<char>, Seq<char>, Seq<char>, u32, Seq<char>)>,
    n: int,
) -> Result<Map<Seq<char>, Seq<char>>, ExtractionError>
    decreases n,
{
    if n <= 0 {
        Ok(Map::empty())
    } else {
        match instructions_fields(html, ins, n - 1) {
            Err(e) => Err(e),
            Ok(m) => match instruction_value(html, ins[n - 1]) {
                Err(e) => Err(e),
                Ok(Some(v)) => Ok(m.insert(ins[n - 1].0, v)),
                Ok(None) => Ok(m),
            },
        }
    }
}

proof fn lemma_failure_sticks(
    html: Seq<char>,
    ins: Seq<(Seq<char>, Seq<char>, Seq<char>, u32, Seq<char>)>,
    k: int,
    n: int,
)
    requires
        k <= n,
        instructions_fields(html, ins, k) is Err,
    ensures
        instructions_fields(html, ins, n) == instructions_fields(html, ins, k),
    decreases n - k,
{
    if k < n {
        lemma_failure_sticks(html, ins, k, n - 1);
    }
}

/// Whether a field holds a link: `website` or a name ending in `_url`.
pub open spec fn is_link_field(name: Seq<char>) -> bool {
    name == "website"@ || crate::text::ends_with(name, "_url"@)
}

/// Whether an extracted value is kept: not blank once trimmed; an email has
/// an `@` and more than five characters; a phone number has at least ten
/// digits; a link parses as a URL; a website is an `http://` or `https://` link.
pub open spec fn accepted(name: Seq<char>, v: Seq<char>) -> bool {
    let c = trim(v);
    &&& c.len() > 0
    &&& name == "email"@ ==> c.contains('@') && c.len() > 5
    &&& name == "phone"@ ==> digit_count(c) >= 10
    &&& is_link_field(name) ==> url_parses(c)
    &&& name == "website"@ ==> crate::text::starts_with(c, "http://"@) || crate::text::starts_with(
        c,
        "https://"@,
    )
}

/// The value stored for a kept field: trimmed, and for a link made absolute
/// against the page it came from (left as it is where that fails).
pub open spec fn stored_value(name: Seq<char>, v: Seq<char>, source: Seq<char>) -> Seq<char> {
    let c = trim(v);
    if is_link_field(name) {
        match normalized(c, Some(source)) {
            Ok(n) => n,
            Err(_) => c,
        }
    } else {
        c
    }
}

/// The kept fields among the first `n` pairs, with their stored values.
pub open spec fn cleaned_fields(
    p: Seq<(Seq<char>, Seq<char>)>,
    source: Seq<char>,
    n: int,
) -> Map<Seq<char>, Seq<char>>
    decreases n,
{
    if n <= 0 {
        Map::empty()
    } else if accepted(p[n - 1].0, p[n - 1].1) {
        cleaned_fields(p, source, n - 1).insert(p[n - 1].0, stored_value(p[n - 1].0, p[n - 1].1, source))
    } else {
        cleaned_fields(p, source, n - 1)
    }
}

/// The kept fields of `m`, with their stored values.
pub open spec fn cleaned_map(m: Map<Seq<char>, Seq<char>>, source: Seq<char>) -> Map<
    Seq<char>,
    Seq<char>,
> {
    Map::new(
        |k: Seq<char>| m.contains_key(k) && accepted(k, m[k]),
        |k: Seq<char>| stored_value(k, m[k], source),
    )
}

proof fn lemma_cleaned_fields(p: Seq<(Seq<char>, Seq<char>)>, source: Seq<char>, n: int)
    requires
        crate::field_map::distinct_keys(p),
        0 <= n <= p.len(),
    ensures
        cleaned_fields(p, source, n) == cleaned_map(crate::field_map::pairs_map(p.take(n)), source),
    decreases n,
{
    if n == 0 {
        assert(cleaned_map(crate::field_map::pairs_map(p.take(0)), source) =~= Map::empty());
    } else {
        lemma_cleaned_fields(p, source, n - 1);
        let t = p.take(n);
        assert(t.drop_last() =~= p.take(n - 1));
        assert(t.last() == p[n - 1]);
        let m0 = crate::field_map::pairs_map(p.take(n - 1));
        assert forall|i: int| 0 <= i < p.take(n - 1).len() implies (#[trigger] p.take(n - 1)[i]).0
            != p[n - 1].0 by {
            assert(p.take(n - 1)[i] == p[i]);
        }
        crate::field_map::lemma_pairs_absent(p.take(n - 1), p[n - 1].0);
        assert(!m0.contains_key(p[n - 1].0));
        let m1 = m0.insert(p[n - 1].0, p[n - 1].1);
        assert(crate::field_map::pairs_map(t) == m1);
        if accepted(p[n - 1].0, p[n - 1].1) {
            assert(cleaned_map(m1, source) =~= cleaned_map(m0, source).insert(
                p[n - 1].0,
                stored_value(p[n - 1].0, p[n - 1].1, source),
            ));
        } else {
            assert(cleaned_map(m1, source) =~= cleaned_map(m0, source));
        }
    }
}

fn is_link_name(name: &String) -> (r: bool)
    ensures
        r == is_link_field(name@),
{
    let c = chars_of(name.as_str());
    *name == String::from_str("website") || crate::text::has_suffix(&c, &chars_of("_url"))
}

fn keep_value(name: &String, v: &String, source: &str) -> (r: Option<String>)
    ensures
        r is Some <==> accepted(name@, v@),
        r is Some ==> r->0@ == stored_value(name@, v@, source@),
{
    proof {
        reveal_strlit("email");
        reveal_strlit("phone");
        reveal_strlit("website");
    }
    let raw = chars_of(v.as_str());
    proof {
        assert(raw@.subrange(0, raw.len() as int) =~= raw@);
    }
    let c = trim_range(&raw, 0, raw.len());
    let cs = string_of(&c);
    if c.len() == 0 {
        return None;
    }
    if *name == String::from_str("email") && !(crate::text::has_char(&c, '@') && c.len() > 5) {
        return None;
    }
    if *name == String::from_str("phone") && count_digits(&c) < 10 {
        return None;
    }
    let link = is_link_name(name);
    if link && !validate_url(cs.as_str()) {
        return None;
    }
    if *name == String::from_str("website") && !has_prefix(&c, &chars_of("http://")) && !has_prefix(
        &c,
        &chars_of("https://"),
    ) {
        return None;
    }
    if link {
        match normalize_url(cs.as_str(), Some(source)) {
            Ok(n) => Some(n),
            Err(_) => Some(cs),
        }
    } else {
        Some(cs)
    }
}

/// Keeps the acceptable fields of `found`, with their stored values, as
/// `cleaned_fields` describes; `source` is the page they came from.
pub fn filter_and_normalize(found: &FieldMap, source: &str) -> (r: FieldMap)
    requires
        found.wf(),
    ensures
        r.wf(),
        r@ == cleaned_map(found@, source@),
{
    let mut out = FieldMap::new();
    let n = found.len();
    let mut i: usize = 0;
    while i < n
        invariant
            found.wf(),
            n == found.pairs().len(),
            i <= n,
            out.wf(),
            out@ == cleaned_fields(found.pairs(), source@, i as int),
        decreases n - i,
    {
        let name = found.key_at(i);
        let v = found.value_at(i);
        match keep_value(name, v, source) {
            Some(s) => {
                out.insert(name.clone(), s);
            },
            None => {},
        }
        i = i + 1;
    }
    proof {
        lemma_cleaned_fields(found.pairs(), source@, n as int);
        assert(found.pairs().take(n as int) =~= found.pairs());
    }
    out
}

/// How an AI structured extraction combines with what was already found.
#[derive(Clone, Copy, Debug, PartialEq, Eq, Structural)]
pub enum MergePolicy {
    /// A strictly larger AI map replaces what was found; otherwise the two
    /// merge, AI values winning on a shared field.
    ReplaceWhenLarger,
    /// The two always merge, AI values winning on a shared field.
    AlwaysMerge,
}

/// The fields after combining `found` with the AI map `ai`.
pub open spec fn merged(
    found: Map<Seq<char>, Seq<char>>,
    ai: Map<Seq<char>, Seq<char>>,
    policy: MergePolicy,
) -> Map<Seq<char>, Seq<char>> {
    if policy == MergePolicy::ReplaceWhenLarger && ai.dom().len() > found.dom().len() {
        ai
    } else {
        found.union_prefer_right(ai)
    }
}

/// Combines `found` with the AI map `ai` under `policy`.
pub fn merge_structured(found: &FieldMap, ai: &FieldMap, policy: MergePolicy) -> (r: FieldMap)
    requires
        found.wf(),
        ai.wf(),
    ensures
        r.wf(),
        r@ == merged(found@, ai@, policy),
{
    if policy == MergePolicy::ReplaceWhenLarger && ai.len() > found.len() {
        ai.clone()
    } else {
        let mut out = found.clone();
        out.extend(ai);
        out
    }
}

/// The names among `missing` that `found` has no value for, in order.
pub fn still_missing(missing: &Vec<String>, found: &FieldMap) -> (r: Vec<String>)
    requires
        found.wf(),
    ensures
        crate::text::strings_view(r@) == crate::text::strings_view(missing@).filter(
            |n: Seq<char>| !found@.contains_key(n),
        ),
{
    let ghost mv = crate::text::strings_view(missing@);
    let mut out: Vec<String> = Vec::new();
    let mut i: usize = 0;
    while i < missing.len()
        invariant
            found.wf(),
            i <= missing.len(),
            mv == crate::text::strings_view(missing@),
            crate::text::strings_view(out@) == mv.take(i as int).filter(
                |n: Seq<char>| !found@.contains_key(n),
            ),
        decreases missing.len() - i,
    {
        proof {
            assert(mv.take(i + 1).drop_last() =~= mv.take(i as int));
            assert(mv.take(i + 1).last() == missing@[i as int]@);
            reveal(Seq::filter);
        }
        if !found.contains_key(missing[i].as_str()) {
            let ghost before = out@;
            out.push(missing[i].clone());
            proof {
                assert(crate::text::strings_view(out@) =~= crate::text::strings_view(before).push(
                    missing@[i as int]@,
                ));
            }
        }
        i = i + 1;
    }
    proof {
        assert(mv.take(i as int) =~= mv);
    }
    out
}

/// Whether to ask for a full AI structured extraction: nothing was found,
/// or more than two target fields are still missing.
pub fn wants_structured(found: &FieldMap, still_missing_count: usize) -> (r: bool)
    requires
        found.wf(),
    ensures
        r == (found@.dom().len() == 0 || still_missing_count > 2),
{
    found.is_empty() || still_missing_count > 2
}

/// The number of characters of a page handed to a structured extraction.
pub const HTML_PREVIEW_CHARS: usize = 5000;

/// The number of characters of a page shown when asking for instructions.
pub const CONTENT_PREVIEW_CHARS: usize = 1000;

/// The page text handed to a structured extraction: its first
/// `HTML_PREVIEW_CHARS` characters, marked where cut.
pub open spec fn html_preview_of(html: Seq<char>) -> Seq<char> {
    if html.len() > HTML_PREVIEW_CHARS {
        html.take(HTML_PREVIEW_CHARS as int) + "...[truncated]"@
    } else {
        html
    }
}

/// The page text handed to a structured extraction.
pub fn html_preview(html: &str) -> (r: String)
    ensures
        r@ == html_preview_of(html@),
{
    let c = chars_of(html);
    if c.len() > HTML_PREVIEW_CHARS {
        let head = slice_chars(&c, 0, HTML_PREVIEW_CHARS);
        proof {
            assert(head@ =~= html@.take(HTML_PREVIEW_CHARS as int));
        }
        string_of(&head).concat("...[truncated]")
    } else {
        String::from_str(html)
    }
}

/// The page text shown when asking for instructions: its first
/// `CONTENT_PREVIEW_CHARS` characters.
pub open spec fn content_preview_of(html: Seq<char>) -> Seq<char> {
    if html.len() > CONTENT_PREVIEW_CHARS {
        html.take(CONTENT_PREVIEW_CHARS as int)
    } else {
        html
    }
}

/// The first `CONTENT_PREVIEW_CHARS` characters of a page.
pub fn content_preview(html: &str) -> (r: String)
    ensures
        r@ == content_preview_of(html@),
{
    let c = chars_of(html);
    let n = if c.len() > CONTENT_PREVIEW_CHARS {
        CONTENT_PREVIEW_CHARS
    } else {
        c.len()
    };
    let head = slice_chars(&c, 0, n);
    proof {
        assert(head@ =~= html@.take(n as int));
        assert(html@.take(html@.len() as int) =~= html@);
    }
    string_of(&head)
}

} // verus!
