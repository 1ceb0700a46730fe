//! Choosing which ranked sources to scrape: what the model is shown, and
//! how its choice is read.
use vstd::prelude::*;
use crate::ranking::RankedSource;
use crate::response::{listed_urls, parse_listed_urls};
use crate::text::{chars_of, slice_chars, string_of, strings_view};

verus! {

broadcast use vstd::string::group_string_axioms;

/// The number of top-ranked sources the model chooses among.
pub const CANDIDATES_SHOWN: usize = 5;

/// The number of chosen sources that are scraped.
pub const SOURCES_SCRAPED: usize = 3;

/// The number of characters of a result's text shown to the model.
pub const PREVIEW_CHARS: usize = 200;

/// What the model is shown of one candidate source.
#[derive(Clone, Debug)]
pub struct SourceInfo {
    pub url: String,
    pub title: String,
    pub score: i64,
    pub text_preview: Option<String>,
}

/// A text preview: the first `PREVIEW_CHARS` characters, with `...` where cut.
pub open spec fn preview_of(t: Seq<char>) -> Seq<char> {
    if t.len() > PREVIEW_CHARS {
        t.take(PREVIEW_CHARS as int) + "..."@
    } else {
        t
    }
}

/// What the model is shown of a candidate: its URL, its title (or
/// `No title`), its score, and a preview of its text.
pub open spec fn info_of(r: RankedSource) -> (Seq<char>, Seq<char>, i64, Option<Seq<char>>) {
    (
        r.result.url@,
        match r.result.title {
            Some(t) => t@,
            None => "No title"@,
        },
        r.score,
        match r.result.text {
            Some(t) => Some(preview_of(t@)),
            None => None,
        },
    )
}

impl View for SourceInfo {
    type V = (Seq<char>, Seq<char>, i64, Option<Seq<char>>);

    open spec fn view(&self) -> (Seq<char>, Seq<char>, i64, Option<Seq<char>>) {
        (self.url@, self.title@, self.score, self.text_preview.deep_view())
    }
}

fn preview(t: &String) -> (r: String)
    ensures
        r@ == preview_of(t@),
{
    let c = chars_of(t.as_str());
    if c.len() > PREVIEW_CHARS {
        let head = slice_chars(&c, 0, PREVIEW_CHARS);
        proof {
            assert(head@ =~= t@.take(PREVIEW_CHARS as int));
        }
        string_of(&head).concat("...")
    } else {
        t.clone()
    }
}

/// Whether `v` is what the model is shown of the ranked sources `r`: the
/// top `CANDIDATES_SHOWN` of them, in rank order.
pub open spec fn shown(v: Seq<SourceInfo>, r: Seq<RankedSource>) -> bool {
    &&& v.len() == if r.len() < CANDIDATES_SHOWN {
        r.len()
    } else {
        CANDIDATES_SHOWN as nat
    }
    &&& forall|i: int| 0 <= i < v.len() ==> #[trigger] v[i]@ == info_of(r[i])
}

/// What the model is shown of the top `CANDIDATES_SHOWN` ranked sources.
pub fn source_infos(ranked: &Vec<RankedSource>) -> (r: Vec<SourceInfo>)
    ensures
        shown(r@, ranked@),
{
    let n = if ranked.len() < CANDIDATES_SHOWN {
        ranked.len()
    } else {
        CANDIDATES_SHOWN
    };
    let mut out: Vec<SourceInfo> = Vec::new();
    let mut i: usize = 0;
    while i < n
        invariant
            i <= n <= ranked.len(),
            out.len() == i,
            forall|k: int| 0 <= k < i ==> #[trigger] out[k]@ == info_of(ranked[k]),
        decreases n - i,
    {
        let r = &ranked[i];
        let title = match &r.result.title {
            Some(t) => t.clone(),
            None => String::from_str("No title"),
        };
        let text_preview = match &r.result.text {
            Some(t) => Some(preview(t)),
            None => None,
        };
        out.push(SourceInfo { url: r.result.url.clone(), title, score: r.score, text_preview });
        i = i + 1;
    }
    out
}

/// Why source selection failed.
#[derive(Clone, Copy, Debug, PartialEq, Eq, Structural)]
pub enum SelectionError {
    /// The model's answer listed no URL.
    NoSourcesListed,
}

/// Reads the model's choice of sources: the URLs it lists, in order; an
/// answer that lists none is an error.
pub fn select_sources(response: &str) -> (r: Result<Vec<String>, SelectionError>)
    ensures
        listed_urls(response@).len() == 0 <==> r is Err,
        r is Ok ==> strings_view(r->Ok_0@) == listed_urls(response@),
{
    let urls = parse_listed_urls(response);
    if urls.len() == 0 {
        Err(SelectionError::NoSourcesListed)
    } else {
        Ok(urls)
    }
}

/// The chosen sources that are scraped: the first `SOURCES_SCRAPED`.
pub fn sources_to_scrape(selected: &Vec<String>) -> (r: Vec<String>)
    ensures
        strings_view(r@) == strings_view(selected@).take(
            if selected.len() < SOURCES_SCRAPED {
                selected.len() as int
            } else {
                SOURCES_SCRAPED as int
            },
        ),
{
    let n = if selected.len() < SOURCES_SCRAPED {
        selected.len()
    } else {
        SOURCES_SCRAPED
    };
    let mut out: Vec<String> = Vec::new();
    let mut i: usize = 0;
    while i < n
        invariant
            i <= n <= selected.len(),
            strings_view(out@) == strings_view(selected@).take(i as int),
        decreases n - i,
    {
        let ghost before = out@;
        let item = selected[i].clone();
        out.push(item);
        proof {
            assert(strings_view(out@) =~= strings_view(before).push(selected@[i as int]@));
            assert(strings_view(out@) =~= strings_view(selected@).take(i + 1));
        }
        i = i + 1;
    }
    out
}

} // verus!
