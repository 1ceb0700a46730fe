//! The per-venue enrichment run as a state machine. Each outside call
//! (search, model, page fetch) is an `Action` that the caller performs; its
//! outcome comes back as an `Event`, and `VenueRun::step` decides what
//! follows. Stages: `Init` (searching), `Searched` (ranking), `Ranked`
//! (selecting), `Scraping(i)` (source `i`), then `Done`; `Skipped` ends a run
//! early, with the venue emitted as it stands or, after a fatal stage
//! error, dropped. A venue is only ever added to.
use vstd::prelude::*;
use crate::extraction::{
    content_preview, filter_and_normalize, html_preview, merge_structured, still_missing,
    wants_structured, DataExtractor, MergePolicy,
};
use crate::field_map::FieldMap;
use crate::ranking::{filter_blocked, rank_candidates, unblocked, SearchResult};
use crate::response::{parse_instructions, parse_tagged_fields};
use crate::search::{build_search_request, ExaSearchRequest};
use crate::selection::{
    select_sources, shown, source_infos, sources_to_scrape, SourceInfo, SOURCES_SCRAPED,
};
use crate::text::{blank, chars_of, strings_view};
use crate::extraction::{cleaned_map, merged};
use crate::response::{instruction_records, tagged_fields};
use crate::extraction::{basic_fields, content_preview_of, html_preview_of, instructions_fields};
use crate::text::is_blank;
use crate::venue::{extends, filled_from, missing_names, value_of, venue_problem, Field, Venue, VenueInput, VenueProblem};

verus! {

broadcast use vstd::string::group_string_axioms;

/// Where a venue's run stands.
#[derive(Clone, Copy, Debug, PartialEq, Eq, Structural)]
pub enum Stage {
    Init,
    Searched,
    Ranked,
    SourcesSelected,
    Scraping(usize),
    Extracted,
    Validated,
    Done,
    Skipped,
}

/// A stage failure that ends the venue's run without output.
#[derive(Clone, Copy, Debug, PartialEq, Eq, Structural)]
pub enum StageError {
    SearchFailed,
    RankingFailed,
    SelectionFailed,
    NoSourcesSelected,
}

/// An outside call that did not succeed.
#[derive(Clone, Copy, Debug, PartialEq, Eq, Structural)]
pub struct CallFailed;

/// The outcome of the action last asked for.
pub enum Event {
    SearchDone(Result<Vec<SearchResult>, CallFailed>),
    RankDone(Result<String, CallFailed>),
    SelectDone(Result<String, CallFailed>),
    PageFetched(Result<String, CallFailed>),
    InstructionsDone(Result<String, CallFailed>),
    StructuredDone(Result<String, CallFailed>),
}

/// What the caller does next.
pub enum Action {
    /// Run this web search.
    Search(ExaSearchRequest),
    /// Ask the model to rank these candidates.
    Rank { venue_name: String, candidates: Vec<SearchResult> },
    /// Ask the model which of these sources to scrape for the missing fields.
    Select { venue_name: String, sources: Vec<SourceInfo>, missing: Vec<String> },
    /// Wait `pause_ms` milliseconds, then fetch the page.
    Fetch { url: String, pause_ms: u64 },
    /// Ask the model for scraping instructions for the missing fields.
    AskInstructions { venue_name: String, missing: Vec<String>, url: String, preview: String },
    /// Ask the model for a structured extraction of the page.
    AskStructured { venue_name: String, url: String, html_preview: String, targets: Vec<String> },
    /// The run is over: output the venue; validation found this.
    Emit(Result<(), VenueProblem>),
    /// The run failed: leave the venue out of the output.
    Drop(StageError),
    /// The event did not fit the stage: nothing to do.
    Nothing,
}

/// `b` moved on from the source `a` was scraping, by action `act`, with the
/// venue unchanged: a failed source never drops the venue.
pub open spec fn next_source(a: VenueRun, b: VenueRun, act: Action) -> bool {
    &&& b.venue == a.venue
    &&& moved_on(a, b, act)
}

/// The URL of the source being scraped.
pub open spec fn current_source(r: VenueRun) -> Seq<char> {
    r.sources@[r.stage->Scraping_0 as int]@
}

/// `b` moved on from the source `a` was scraping, by action `act`: to the
/// next chosen source, fetched after the pause between sources, or, after
/// the last, to `Done` with the venue emitted. The chosen sources stay.
pub open spec fn moved_on(a: VenueRun, b: VenueRun, act: Action) -> bool {
    let i = a.stage->Scraping_0;
    &&& b.sources == a.sources
    &&& b.name == a.name
    &&& i + 1 < a.sources@.len() ==> {
        &&& b.stage == Stage::Scraping((i + 1) as usize)
        &&& act matches Action::Fetch { url, pause_ms } && url@ == a.sources@[i + 1]@
            && pause_ms == SOURCE_PAUSE_MS
    }
    &&& i + 1 >= a.sources@.len() ==> {
        &&& b.stage == Stage::Done
        &&& act == Action::Emit(venue_problem(b.venue))
    }
}

/// The fields a structured-extraction reply leaves for a page on which
/// `found` was found so far.
pub open spec fn after_structured(
    found: Map<Seq<char>, Seq<char>>,
    reply: Result<String, CallFailed>,
    policy: MergePolicy,
) -> Map<Seq<char>, Seq<char>> {
    match reply {
        Ok(t) => merged(found, tagged_fields(t@), policy),
        Err(_) => found,
    }
}

/// The fields an instructions reply leaves for a page on which `found` was
/// found so far: what the instructions read is added, theirs winning; a reply
/// that failed, or instructions that failed, add nothing.
pub open spec fn after_instructions(
    found: Map<Seq<char>, Seq<char>>,
    reply: Result<String, CallFailed>,
    html: Seq<char>,
) -> Map<Seq<char>, Seq<char>> {
    match reply {
        Ok(t) => match instructions_fields(
            html,
            instruction_records(t@),
            instruction_records(t@).len() as int,
        ) {
            Ok(m) => found.union_prefer_right(m),
            Err(_) => found,
        },
        Err(_) => found,
    }
}

/// What follows the instructions step on a page with fields `f` found and
/// `still` fields missing: a structured extraction is asked for (the page
/// kept, the venue unchanged), or the fields are applied and the run moves on.
pub open spec fn instructions_outcome(
    a: VenueRun,
    b: VenueRun,
    act: Action,
    f: Map<Seq<char>, Seq<char>>,
    still: Seq<Seq<char>>,
    html: Seq<char>,
) -> bool {
    if f.dom().len() == 0 || still.len() > 2 {
        &&& act matches Action::AskStructured { venue_name, url, html_preview, targets }
            && venue_name@ == a.name@ && url@ == current_source(a) && html_preview@
            == html_preview_of(html) && strings_view(targets@) == still
        &&& b.venue == a.venue
        &&& b.sources == a.sources
        &&& b.name == a.name
        &&& b.stage == a.stage
        &&& b.page is Some
        &&& b.page->0.found@ == f
    } else {
        &&& filled_from(a.venue, b.venue, cleaned_map(f, current_source(a)), current_source(a))
        &&& moved_on(a, b, act)
    }
}

/// What follows a fetched page `html`: a blank page moves the run on; else
/// the heuristic fields are found and, where target fields are still
/// missing, instructions are asked for (the page kept, the venue unchanged);
/// otherwise the run goes on as after instructions.
pub open spec fn page_outcome(
    a: VenueRun,
    b: VenueRun,
    act: Action,
    html: Seq<char>,
    e: DataExtractor,
) -> bool {
    let found = basic_fields(e, html);
    let still = missing_names(a.venue).filter(|n: Seq<char>| !found.contains_key(n));
    if is_blank(html) {
        next_source(a, b, act)
    } else if still.len() > 0 {
        &&& act matches Action::AskInstructions { venue_name, missing, url, preview }
            && venue_name@ == a.name@ && strings_view(missing@) == still && url@
            == current_source(a) && preview@ == content_preview_of(html)
        &&& b.venue == a.venue
        &&& b.stage == a.stage
        &&& b.sources == a.sources
        &&& b.name == a.name
        &&& b.page is Some
        &&& b.page->0.found@ == found
        &&& b.page->0.html@ == html
        &&& strings_view(b.page->0.still@) == still
    } else {
        instructions_outcome(a, b, act, found, still, html)
    }
}

/// The pause between two sources of one venue.
pub const SOURCE_PAUSE_MS: u64 = 500;

/// The pause between two venues.
pub const VENUE_PAUSE_MS: u64 = 1000;

/// What is known of the page being worked on.
pub struct PageWork {
    /// The page as fetched.
    pub html: String,
    /// The fields found on it so far.
    pub found: FieldMap,
    /// The missing fields the heuristic pass did not find.
    pub still: Vec<String>,
}

/// Settings that stay fixed over a run.
pub struct RunSettings {
    pub extractor: DataExtractor,
    pub blocklist: Vec<String>,
    pub policy: MergePolicy,
}

/// One venue's run.
pub struct VenueRun {
    /// The venue as filled so far.
    pub venue: Venue,
    /// Where the run stands.
    pub stage: Stage,
    /// The venue's name, as searched for.
    pub name: String,
    /// The search results that passed the blocklist.
    pub candidates: Vec<SearchResult>,
    /// The sources chosen for scraping, in order.
    pub sources: Vec<String>,
    /// The page being worked on, between the model's replies.
    pub page: Option<PageWork>,
}

impl VenueRun {
    /// Well-formed: the venue is, and a source being scraped exists.
    pub open spec fn wf(&self) -> bool {
        &&& self.venue.wf()
        &&& self.stage is Scraping ==> self.stage->Scraping_0 < self.sources_len()
        &&& self.page_wf()
    }

    /// The number of sources chosen for scraping.
    pub open spec fn sources_len(&self) -> nat {
        self.sources@.len()
    }

    pub open spec fn page_wf(&self) -> bool {
        self.page is Some ==> self.page->0.found.wf()
    }

    /// The name of the venue being run.
    pub open spec fn venue_name(&self) -> Seq<char> {
        self.name@
    }

    /// The candidates that passed the blocklist.
    pub open spec fn candidates(&self) -> Seq<SearchResult> {
        self.candidates@
    }

    /// Starts the run for one input: an unfilled venue, and its web search.
    pub fn start(input: &VenueInput) -> (r: (VenueRun, Action))
        ensures
            r.0.wf(),
            r.0.stage == Stage::Init,
            r.0.venue.name@ == input.name@,
            r.0.venue_name() == input.name@,
            forall|f: Field| #[trigger] value_of(r.0.venue, f) is None,
            crate::venue::provenance_of(r.0.venue) == Map::<Seq<char>, Seq<char>>::empty(),
            r.1 matches Action::Search(q) && q.query@ == crate::search::search_text(*input),
    {
        let run = VenueRun {
            venue: Venue::new(input.name.clone()),
            stage: Stage::Init,
            name: input.name.clone(),
            candidates: Vec::new(),
            sources: Vec::new(),
            page: None,
        };
        (run, Action::Search(build_search_request(input)))
    }

    fn finish(&mut self) -> (a: Action)
        requires
            old(self).wf(),
        ensures
            final(self).wf(),
            final(self).venue == old(self).venue,
            final(self).sources == old(self).sources,
            final(self).name == old(self).name,
            final(self).stage == Stage::Done,
            a == Action::Emit(venue_problem(old(self).venue)),
    {
        self.stage = Stage::Extracted;
        self.stage = Stage::Validated;
        let v = self.venue.validate();
        self.stage = Stage::Done;
        self.page = None;
        Action::Emit(v)
    }

    fn skip(&mut self) -> (a: Action)
        requires
            old(self).wf(),
        ensures
            final(self).wf(),
            final(self).venue == old(self).venue,
            final(self).stage == Stage::Skipped,
            a == Action::Emit(venue_problem(old(self).venue)),
    {
        self.stage = Stage::Skipped;
        self.page = None;
        Action::Emit(self.venue.validate())
    }

    fn fail(&mut self, e: StageError) -> (a: Action)
        requires
            old(self).wf(),
        ensures
            final(self).wf(),
            final(self).venue == old(self).venue,
            final(self).stage == Stage::Skipped,
            a == Action::Drop(e),
    {
        self.stage = Stage::Skipped;
        self.page = None;
        Action::Drop(e)
    }

    /// Moves to source `i` of the chosen sources, or ends the run after the last.
    fn goto_source(&mut self, i: usize) -> (a: Action)
        requires
            old(self).wf(),
        ensures
            final(self).wf(),
            final(self).venue == old(self).venue,
            final(self).sources == old(self).sources,
            i < old(self).sources_len() ==> final(self).stage == Stage::Scraping(i),
            final(self).name == old(self).name,
            i < old(self).sources_len() ==> (a matches Action::Fetch { url, pause_ms } && url@
                == old(self).sources@[i as int]@ && pause_ms == (if i == 0 {
                0
            } else {
                SOURCE_PAUSE_MS
            })),
            i >= old(self).sources_len() ==> final(self).stage == Stage::Done,
            i >= old(self).sources_len() ==> a == Action::Emit(venue_problem(old(self).venue)),
    {
        self.page = None;
        if i < self.sources.len() {
            self.stage = Stage::Scraping(i);
            let pause_ms = if i == 0 {
                0
            } else {
                SOURCE_PAUSE_MS
            };
            Action::Fetch { url: self.sources[i].clone(), pause_ms }
        } else {
            self.finish()
        }
    }

    /// Ends work on the current source: keeps the acceptable fields found,
    /// fills the venue's unset fields from them, and moves on.
    fn finish_source(&mut self, found: &FieldMap) -> (a: Action)
        requires
            old(self).wf(),
            old(self).stage is Scraping,
            found.wf(),
        ensures
            final(self).wf(),
            extends(old(self).venue, final(self).venue),
            filled_from(
                old(self).venue,
                final(self).venue,
                cleaned_map(found@, current_source(*old(self))),
                current_source(*old(self)),
            ),
            moved_on(*old(self), *final(self), a),
    {
        let i = match self.stage {
            Stage::Scraping(i) => i,
            _ => 0,
        };
        proof {
            assert(i < self.sources.len());
        }
        let cleaned = filter_and_normalize(found, self.sources[i].as_str());
        let url = self.sources[i].clone();
        self.venue.fill_from(&cleaned, url.as_str());
        self.goto_source(i + 1)
    }

    /// After instructions (or none were needed): asks for a structured
    /// extraction where nothing was found or more than two fields are still
    /// missing, else ends work on the source.
    fn after_instructions(&mut self, work: PageWork) -> (a: Action)
        requires
            old(self).wf(),
            old(self).stage is Scraping,
            work.found.wf(),
        ensures
            final(self).wf(),
            extends(old(self).venue, final(self).venue),
            instructions_outcome(
                *old(self),
                *final(self),
                a,
                work.found@,
                strings_view(work.still@),
                work.html@,
            ),
    {
        let i = match self.stage {
            Stage::Scraping(i) => i,
            _ => 0,
        };
        proof {
            assert(i < self.sources.len());
        }
        if wants_structured(&work.found, work.still.len()) {
            let preview = html_preview(work.html.as_str());
            let targets = clone_strings(&work.still);
            let a = Action::AskStructured {
                venue_name: self.name.clone(),
                url: self.sources[i].clone(),
                html_preview: preview,
                targets,
            };
            self.page = Some(work);
            a
        } else {
            self.finish_source(&work.found)
        }
    }

    /// Decides what follows `event`. The venue is only ever added to; a fatal
    /// stage error drops it; an empty search, or no candidate left after the
    /// blocklist or the ranking, ends the run with the venue emitted as it is.
    pub fn step(&mut self, event: Event, settings: &RunSettings) -> (a: Action)
        requires
            old(self).wf(),
        ensures
            final(self).wf(),
            extends(old(self).venue, final(self).venue),
            old(self).stage == Stage::Init ==> match event {
                Event::SearchDone(Err(_)) => a == Action::Drop(StageError::SearchFailed)
                    && final(self).stage == Stage::Skipped,
                Event::SearchDone(Ok(rs)) => if rs.len() == 0 {
                    &&& a == Action::Emit(venue_problem(old(self).venue))
                    &&& final(self).stage == Stage::Skipped
                    &&& final(self).venue == old(self).venue
                } else if unblocked(rs@, strings_view(settings.blocklist@)).len() == 0 {
                    &&& a == Action::Emit(venue_problem(old(self).venue))
                    &&& final(self).stage == Stage::Skipped
                } else {
                    &&& final(self).stage == Stage::Searched
                    &&& final(self).candidates() == unblocked(
                        rs@,
                        strings_view(settings.blocklist@),
                    )
                    &&& a matches Action::Rank { venue_name, candidates } && venue_name@
                        == old(self).name@ && candidates@ == unblocked(
                        rs@,
                        strings_view(settings.blocklist@),
                    )
                },
                _ => a == Action::Nothing && final(self).stage == old(self).stage
                    && final(self).venue == old(self).venue,
            },
            old(self).stage == Stage::Searched ==> match event {
                Event::RankDone(Err(_)) => a == Action::Drop(StageError::RankingFailed)
                    && final(self).stage == Stage::Skipped,
                Event::RankDone(Ok(text)) => if crate::ranking::ranked(
                    old(self).candidates(),
                    text@,
                ).len() == 0 {
                    a == Action::Emit(venue_problem(old(self).venue)) && final(self).stage
                        == Stage::Skipped
                } else {
                    &&& final(self).stage == Stage::Ranked
                    &&& a matches Action::Select { venue_name, sources, missing } && venue_name@
                        == old(self).name@ && strings_view(missing@) == missing_names(
                        old(self).venue,
                    ) && shown(sources@, crate::ranking::ranked(old(self).candidates(), text@))
                },
                _ => a == Action::Nothing && final(self).stage == old(self).stage
                    && final(self).venue == old(self).venue,
            },
            old(self).stage == Stage::Ranked ==> match event {
                Event::SelectDone(Err(_)) => a == Action::Drop(StageError::SelectionFailed)
                    && final(self).stage == Stage::Skipped,
                Event::SelectDone(Ok(text)) => if crate::response::listed_urls(text@).len()
                    == 0 {
                    a == Action::Drop(StageError::NoSourcesSelected) && final(self).stage
                        == Stage::Skipped
                } else {
                    &&& final(self).stage == Stage::Scraping(0)
                    &&& strings_view(final(self).sources@) == crate::response::listed_urls(
                        text@,
                    ).take(
                        if crate::response::listed_urls(text@).len() < SOURCES_SCRAPED {
                            crate::response::listed_urls(text@).len() as int
                        } else {
                            SOURCES_SCRAPED as int
                        },
                    )
                    &&& a matches Action::Fetch { url, pause_ms } && url@
                        == crate::response::listed_urls(text@)[0] && pause_ms == 0
                },
                _ => a == Action::Nothing && final(self).stage == old(self).stage
                    && final(self).venue == old(self).venue,
            },
            old(self).stage is Scraping ==> match event {
                Event::PageFetched(Err(_)) => next_source(*old(self), *final(self), a),
                Event::PageFetched(Ok(html)) => page_outcome(
                    *old(self),
                    *final(self),
                    a,
                    html@,
                    settings.extractor,
                ),
                Event::InstructionsDone(reply) => old(self).page is Some ==> instructions_outcome(
                    *old(self),
                    *final(self),
                    a,
                    after_instructions(old(self).page->0.found@, reply, old(self).page->0.html@),
                    strings_view(old(self).page->0.still@),
                    old(self).page->0.html@,
                ),
                Event::StructuredDone(reply) => old(self).page is Some ==> filled_from(
                    old(self).venue,
                    final(self).venue,
                    cleaned_map(
                        after_structured(old(self).page->0.found@, reply, settings.policy),
                        current_source(*old(self)),
                    ),
                    current_source(*old(self)),
                ) && moved_on(*old(self), *final(self), a),
                _ => a == Action::Nothing && final(self).stage == old(self).stage
                    && final(self).venue == old(self).venue,
            },
            (old(self).stage == Stage::Done || old(self).stage == Stage::Skipped) ==> (a
                == Action::Nothing && final(self).stage == old(self).stage && final(self).venue
                == old(self).venue),
            (old(self).stage is Scraping && old(self).page is None && (event is InstructionsDone
                || event is StructuredDone)) ==> (a == Action::Nothing
                && final(self).venue == old(self).venue),
    {
        match self.stage {
            Stage::Init => match event {
                Event::SearchDone(Err(_)) => self.fail(StageError::SearchFailed),
                Event::SearchDone(Ok(rs)) => {
                    if rs.len() == 0 {
                        self.stage = Stage::Searched;
                        return self.skip();
                    }
                    self.stage = Stage::Searched;
                    let kept = filter_blocked(&rs, &settings.blocklist);
                    if kept.len() == 0 {
                        self.stage = Stage::Ranked;
                        return self.skip();
                    }
                    let candidates = clone_results(&kept);
                    self.candidates = kept;
                    Action::Rank { venue_name: self.name.clone(), candidates }
                },
                _ => self.wait(),
            },
            Stage::Searched => match event {
                Event::RankDone(Err(_)) => self.fail(StageError::RankingFailed),
                Event::RankDone(Ok(text)) => {
                    let ranked = rank_candidates(&self.candidates, text.as_str());
                    self.stage = Stage::Ranked;
                    if ranked.len() == 0 {
                        return self.skip();
                    }
                    let sources = source_infos(&ranked);
                    let missing = self.venue.missing_fields();
                    Action::Select { venue_name: self.name.clone(), sources, missing }
                },
                _ => self.wait(),
            },
            Stage::Ranked => match event {
                Event::SelectDone(Err(_)) => self.fail(StageError::SelectionFailed),
                Event::SelectDone(Ok(text)) => match select_sources(text.as_str()) {
                    Err(_) => self.fail(StageError::NoSourcesSelected),
                    Ok(chosen) => {
                        self.sources = sources_to_scrape(&chosen);
                        self.stage = Stage::SourcesSelected;
                        proof {
                            assert(strings_view(self.sources@).len() > 0);
                            assert(strings_view(self.sources@)[0] == self.sources@[0]@);
                        }
                        self.goto_source(0)
                    },
                },
                _ => self.wait(),
            },
            Stage::Scraping(i) => match event {
                Event::PageFetched(fetched) => self.on_page(fetched, settings),
                Event::InstructionsDone(reply) => self.on_instructions(reply, settings),
                Event::StructuredDone(reply) => self.on_structured(reply, settings),
                _ => self.wait(),
            },
            _ => self.wait(),
        }
    }

    /// An event that does not fit the stage changes nothing.
    fn wait(&mut self) -> (a: Action)
        requires
            old(self).wf(),
        ensures
            *final(self) == *old(self),
            a == Action::Nothing,
    {
        Action::Nothing
    }

    fn on_page(&mut self, fetched: Result<String, CallFailed>, settings: &RunSettings) -> (a: Action)
        requires
            old(self).wf(),
            old(self).stage is Scraping,
        ensures
            final(self).wf(),
            extends(old(self).venue, final(self).venue),
            fetched is Err ==> next_source(*old(self), *final(self), a),
            fetched is Ok ==> page_outcome(
                *old(self),
                *final(self),
                a,
                fetched->Ok_0@,
                settings.extractor,
            ),
    {
        let i = match self.stage {
            Stage::Scraping(i) => i,
            _ => 0,
        };
        proof {
            assert(i < self.sources.len());
        }
        let html = match fetched {
            Ok(h) => h,
            Err(_) => {
                return self.goto_source(i + 1);
            },
        };
        if blank(&chars_of(html.as_str())) {
            return self.goto_source(i + 1);
        }
        let found = settings.extractor.extract_basic_data(html.as_str());
        let missing = self.venue.missing_fields();
        let still = still_missing(&missing, &found);
        if still.len() > 0 {
            let preview = content_preview(html.as_str());
            let ask = clone_strings(&still);
            self.page = Some(PageWork { html, found, still });
            Action::AskInstructions {
                venue_name: self.name.clone(),
                missing: ask,
                url: self.sources[i].clone(),
                preview,
            }
        } else {
            self.after_instructions(PageWork { html, found, still })
        }
    }

    fn on_instructions(&mut self, reply: Result<String, CallFailed>, settings: &RunSettings) -> (a:
        Action)
        requires
            old(self).wf(),
            old(self).stage is Scraping,
        ensures
            final(self).wf(),
            extends(old(self).venue, final(self).venue),
            old(self).page is None ==> a == Action::Nothing && *final(self) == *old(self),
            old(self).page is Some ==> instructions_outcome(
                *old(self),
                *final(self),
                a,
                after_instructions(old(self).page->0.found@, reply, old(self).page->0.html@),
                strings_view(old(self).page->0.still@),
                old(self).page->0.html@,
            ),
    {
        let work = match self.page.take() {
            Some(w) => w,
            None => {
                return Action::Nothing;
            },
        };
        let mut found = work.found;
        match reply {
            Ok(text) => {
                let ins = parse_instructions(text.as_str());
                match settings.extractor.extract_with_instructions(work.html.as_str(), &ins) {
                    Ok(m) => {
                        found.extend(&m);
                    },
                    Err(_) => {},
                }
            },
            Err(_) => {},
        }
        self.after_instructions(PageWork { html: work.html, found, still: work.still })
    }

    fn on_structured(&mut self, reply: Result<String, CallFailed>, settings: &RunSettings) -> (a:
        Action)
        requires
            old(self).wf(),
            old(self).stage is Scraping,
        ensures
            final(self).wf(),
            extends(old(self).venue, final(self).venue),
            old(self).page is None ==> a == Action::Nothing && *final(self) == *old(self),
            old(self).page is Some ==> filled_from(
                old(self).venue,
                final(self).venue,
                cleaned_map(
                    after_structured(old(self).page->0.found@, reply, settings.policy),
                    current_source(*old(self)),
                ),
                current_source(*old(self)),
            ) && moved_on(*old(self), *final(self), a),
    {
        let work = match self.page.take() {
            Some(w) => w,
            None => {
                return Action::Nothing;
            },
        };
        let found = match reply {
            Ok(text) => {
                let ai = parse_tagged_fields(text.as_str());
                merge_structured(&work.found, &ai, settings.policy)
            },
            Err(_) => work.found,
        };
        self.finish_source(&found)
    }
}

fn clone_strings(v: &Vec<String>) -> (r: Vec<String>)
    ensures
        r@ == v@,
{
    let mut out: Vec<String> = Vec::new();
    let mut i: usize = 0;
    while i < v.len()
        invariant
            i <= v.len(),
            out@ == v@.take(i as int),
        decreases v.len() - i,
    {
        out.push(v[i].clone());
        proof {
            assert(out@ =~= v@.take(i + 1));
        }
        i = i + 1;
    }
    proof {
        assert(v@.take(i as int) =~= v@);
    }
    out
}

fn clone_results(v: &Vec<SearchResult>) -> (r: Vec<SearchResult>)
    ensures
        r@ == v@,
{
    let mut out: Vec<SearchResult> = Vec::new();
    let mut i: usize = 0;
    while i < v.len()
        invariant
            i <= v.len(),
            out@ == v@.take(i as int),
        decreases v.len() - i,
    {
        out.push(v[i].duplicate());
        proof {
            assert(out@ =~= v@.take(i + 1));
        }
        i = i + 1;
    }
    proof {
        assert(v@.take(i as int) =~= v@);
    }
    out
}

/// A venue as a dry run gives it: a placeholder description, its source
/// marked `dry_run`.
pub fn dry_run_venue(input: &VenueInput) -> (r: Venue)
    ensures
        r.wf(),
        r.name@ == input.name@,
        value_of(r, Field::Description) == Some("Mock description"@),
        forall|f: Field| f != Field::Description ==> #[trigger] value_of(r, f) is None,
{
    let mut v = Venue::new(input.name.clone());
    proof {
        crate::venue::lemma_field_names();
        reveal_strlit("description");
    }
    v.set_field_with_source(
        "description",
        String::from_str("Mock description"),
        String::from_str("dry_run"),
    );
    v
}

/// The figures reported at the end of a run: venues output, venues with a
/// description, and fields filled over all venues.
pub open spec fn summary_of(vs: Seq<Venue>) -> (nat, nat, nat)
    decreases vs.len(),
{
    if vs.len() == 0 {
        (0, 0, 0)
    } else {
        let s = summary_of(vs.drop_last());
        let v = vs.last();
        (
            s.0 + 1,
            s.1 + if value_of(v, Field::Description) is Some {
                1nat
            } else {
                0nat
            },
            s.2 + (9 - missing_names(v).len()) as nat,
        )
    }
}

proof fn lemma_missing_bound(v: Venue, n: int)
    requires
        0 <= n <= 9,
    ensures
        missing_names_upto_len(v, n) <= n,
    decreases n,
{
    if n > 0 {
        lemma_missing_bound(v, n - 1);
    }
}

spec fn missing_names_upto_len(v: Venue, n: int) -> int {
    crate::venue::missing_upto(v, n).len() as int
}

/// Counts the venues, those with a description, and the fields filled.
pub fn summarize(venues: &Vec<Venue>) -> (r: (usize, usize, usize))
    requires
        venues.len() <= usize::MAX / 9,
    ensures
        (r.0 as nat, r.1 as nat, r.2 as nat) == summary_of(venues@),
{
    let mut total: usize = 0;
    let mut complete: usize = 0;
    let mut fields: usize = 0;
    let mut i: usize = 0;
    while i < venues.len()
        invariant
            i <= venues.len() <= usize::MAX / 9,
            (total as nat, complete as nat, fields as nat) == summary_of(venues@.take(i as int)),
            total == i,
            complete <= i,
            fields <= 9 * i,
        decreases venues.len() - i,
    {
        proof {
            assert(venues@.take(i + 1).drop_last() =~= venues@.take(i as int));
            lemma_missing_bound(venues@[i as int], 9);
        }
        let missing = venues[i].missing_fields();
        proof {
            assert(missing@.len() == strings_view(missing@).len());
        }
        total = total + 1;
        if venues[i].is_complete() {
            complete = complete + 1;
        }
        fields = fields + (9 - missing.len());
        i = i + 1;
    }
    proof {
        assert(venues@.take(i as int) =~= venues@);
    }
    (total, complete, fields)
}

} // verus!
