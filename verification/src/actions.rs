//! One request for a puzzle's tokens, as a sequence of decisions.
//!
//! The backing store and the analyzer are not called from here. A request
//! says what is to be done next (an [`Action`]); the caller does it and
//! reports what happened (an [`Event`]). A request that finds the puzzle in
//! the cache returns what the cached document holds. One that does not has
//! the puzzle's dialogues fetched, their questions normalized and analyzed,
//! the content words kept, the result stored, and returns it once it is
//! stored.

use vstd::prelude::*;
use crate::json::JsonValue;
use crate::models::{dialogue_tokens_views, dialogue_views, document_tokens, is_document_of,
    lemma_document_round_trip,
    Dialogue, DialogueTokens, DialogueTokensView, DialogueView, NewPuzzleTokenCache,
    PuzzleTokenCache};
use crate::normalize::{stripped, strip_symbols};
use crate::tokenize::{content_words, keep_content_words, node_views, readable, tokenize,
    tokens_of_nodes, AnalyzerNode, NodeView};

verus! {

/// Why a request failed.
#[derive(Clone, Debug, PartialEq, Eq)]
pub enum Error {
    /// The backing store failed; the text is its report.
    UpstreamFetch(String),
    /// The cached document has not the shape of a token list.
    CacheDeserialization,
    /// The analyzer failed, or its output could not be read.
    AnalyzerInvocation,
    /// The event does not answer the action that the request asked for.
    UnexpectedEvent,
}

/// What an `Error` is.
pub enum ErrorView {
    UpstreamFetch(Seq<char>),
    CacheDeserialization,
    AnalyzerInvocation,
    UnexpectedEvent,
}

impl View for Error {
    type V = ErrorView;

    open spec fn view(&self) -> ErrorView {
        match self {
            Error::UpstreamFetch(report) => ErrorView::UpstreamFetch(report@),
            Error::CacheDeserialization => ErrorView::CacheDeserialization,
            Error::AnalyzerInvocation => ErrorView::AnalyzerInvocation,
            Error::UnexpectedEvent => ErrorView::UnexpectedEvent,
        }
    }
}

/// How far a request has come.
#[derive(Clone, Debug, PartialEq, Eq)]
pub enum Stage {
    /// The cache is being asked for the puzzle.
    LookingUp,
    /// The puzzle's dialogues are being fetched.
    Fetching,
    /// The questions of the dialogues `ids` are with the analyzer.
    Analyzing { ids: Vec<i32> },
    /// `tokens` is being stored in the cache.
    Storing { tokens: Vec<DialogueTokens> },
    /// The request has returned.
    Done,
}

/// What a `Stage` is.
pub enum StageView {
    LookingUp,
    Fetching,
    Analyzing { ids: Seq<i32> },
    Storing { tokens: Seq<DialogueTokensView> },
    Done,
}

impl View for Stage {
    type V = StageView;

    open spec fn view(&self) -> StageView {
        match self {
            Stage::LookingUp => StageView::LookingUp,
            Stage::Fetching => StageView::Fetching,
            Stage::Analyzing { ids } => StageView::Analyzing { ids: ids@ },
            Stage::Storing { tokens } => StageView::Storing {
                tokens: dialogue_tokens_views(tokens@),
            },
            Stage::Done => StageView::Done,
        }
    }
}

/// A request for the tokens of one puzzle.
#[derive(Clone, Debug, PartialEq, Eq)]
pub struct Request {
    pub puzzle_id: i32,
    pub stage: Stage,
}

/// What a `Request` is.
pub struct RequestView {
    pub puzzle_id: i32,
    pub stage: StageView,
}

impl View for Request {
    type V = RequestView;

    open spec fn view(&self) -> RequestView {
        RequestView { puzzle_id: self.puzzle_id, stage: self.stage@ }
    }
}

/// What the caller reports back.
#[derive(Debug, PartialEq, Eq)]
pub enum Event {
    /// The cache holds this row for the puzzle.
    CacheFound(PuzzleTokenCache),
    /// The cache holds no row for the puzzle.
    CacheMissing,
    /// The puzzle's dialogues, in the order in which they were fetched.
    Dialogues(Vec<Dialogue>),
    /// The analyzer's output for each text that it was given, in order.
    Analyzed(Vec<Vec<AnalyzerNode>>),
    /// The analyzer could not process a text.
    AnalyzerFailed,
    /// The row was stored.
    Stored,
    /// The backing store failed; the text is its report.
    StoreFailed(String),
}

/// What an `Event` is. Of a cache row it keeps the token list that the
/// row's document holds, if it holds one.
pub enum EventView {
    CacheFound(Option<Seq<DialogueTokensView>>),
    CacheMissing,
    Dialogues(Seq<DialogueView>),
    Analyzed(Seq<Seq<NodeView>>),
    AnalyzerFailed,
    Stored,
    StoreFailed(Seq<char>),
}

/// The views of the analyzer's outputs, in order.
pub open spec fn analysis_views(analyses: Seq<Vec<AnalyzerNode>>) -> Seq<Seq<NodeView>> {
    analyses.map_values(|nodes: Vec<AnalyzerNode>| node_views(nodes@))
}

impl View for Event {
    type V = EventView;

    open spec fn view(&self) -> EventView {
        match self {
            Event::CacheFound(row) => EventView::CacheFound(document_tokens(row.tokens)),
            Event::CacheMissing => EventView::CacheMissing,
            Event::Dialogues(dialogues) => EventView::Dialogues(dialogue_views(dialogues@)),
            Event::Analyzed(analyses) => EventView::Analyzed(analysis_views(analyses@)),
            Event::AnalyzerFailed => EventView::AnalyzerFailed,
            Event::Stored => EventView::Stored,
            Event::StoreFailed(report) => EventView::StoreFailed(report@),
        }
    }
}

/// What the caller is to do next.
#[derive(Debug, PartialEq, Eq)]
pub enum Action {
    /// Look the puzzle up in the cache.
    FindCache { puzzle_id: i32 },
    /// Fetch the puzzle's dialogues.
    FetchDialogues { puzzle_id: i32 },
    /// Run the analyzer on each text, in order.
    Analyze { texts: Vec<String> },
    /// Store the row in the cache.
    InsertCache(NewPuzzleTokenCache),
    /// Return to whoever made the request.
    Finish(Result<Vec<DialogueTokens>, Error>),
}

/// What an `Action` is. Of a row to be stored it keeps the token list that
/// the row's document holds.
pub enum ActionView {
    FindCache { puzzle_id: i32 },
    FetchDialogues { puzzle_id: i32 },
    Analyze { texts: Seq<Seq<char>> },
    InsertCache { puzzle_id: i32, tokens: Option<Seq<DialogueTokensView>> },
    Finish(Result<Seq<DialogueTokensView>, ErrorView>),
}

/// The views of a sequence of texts, in order.
pub open spec fn text_views(texts: Seq<String>) -> Seq<Seq<char>> {
    texts.map_values(|t: String| t@)
}

impl View for Action {
    type V = ActionView;

    open spec fn view(&self) -> ActionView {
        match self {
            Action::FindCache { puzzle_id } => ActionView::FindCache { puzzle_id: *puzzle_id },
            Action::FetchDialogues { puzzle_id } => ActionView::FetchDialogues {
                puzzle_id: *puzzle_id,
            },
            Action::Analyze { texts } => ActionView::Analyze { texts: text_views(texts@) },
            Action::InsertCache(row) => ActionView::InsertCache {
                puzzle_id: row.puzzle_id,
                tokens: document_tokens(row.tokens),
            },
            Action::Finish(Ok(tokens)) => ActionView::Finish(Ok(dialogue_tokens_views(tokens@))),
            Action::Finish(Err(e)) => ActionView::Finish(Err(e@)),
        }
    }
}

/// The identifiers of the dialogues, in order.
pub open spec fn ids_of(dialogues: Seq<DialogueView>) -> Seq<i32> {
    dialogues.map_values(|d: DialogueView| d.id)
}

/// The normalized questions of the dialogues, in order.
pub open spec fn questions_of(dialogues: Seq<DialogueView>) -> Seq<Seq<char>> {
    dialogues.map_values(|d: DialogueView| stripped(d.question))
}

/// Every output of the analyzer can be read.
pub open spec fn all_readable(analyses: Seq<Seq<NodeView>>) -> bool {
    forall|i: int| 0 <= i < analyses.len() ==> readable(#[trigger] analyses[i])
}

/// The token list of the dialogues `ids` whose questions the analyzer turned
/// into `analyses`: one entry for each dialogue, in order, with the content
/// words of its question.
pub open spec fn dialogue_tokens_of(ids: Seq<i32>, analyses: Seq<Seq<NodeView>>) -> Seq<
    DialogueTokensView,
> {
    Seq::new(
        ids.len(),
        |i: int| DialogueTokensView { id: ids[i], tokens: content_words(tokens_of_nodes(analyses[i])) },
    )
}

/// The request is over and returns `result`.
pub open spec fn finished(
    puzzle_id: i32,
    result: Result<Seq<DialogueTokensView>, ErrorView>,
) -> (RequestView, ActionView) {
    (RequestView { puzzle_id, stage: StageView::Done }, ActionView::Finish(result))
}

/// What a request does on an event: the stage it moves to and the action it
/// asks for.
///
/// A cache row ends the request with what its document holds, or with
/// `CacheDeserialization` where it holds no token list. A miss has the
/// dialogues fetched. The dialogues have their normalized questions analyzed.
/// The analyzer's output has the token list stored, or ends the request with
/// `AnalyzerInvocation` where it cannot be read or has not one entry for each
/// dialogue. The request returns the token list once it is stored. A failure
/// of the store or of the analyzer ends the request, and so does an event
/// that answers no action of the stage.
pub open spec fn step(r: RequestView, e: EventView) -> (RequestView, ActionView) {
    let p = r.puzzle_id;
    match r.stage {
        StageView::LookingUp => match e {
            EventView::CacheFound(Some(tokens)) => finished(p, Ok(tokens)),
            EventView::CacheFound(None) => finished(p, Err(ErrorView::CacheDeserialization)),
            EventView::CacheMissing => (
                RequestView { puzzle_id: p, stage: StageView::Fetching },
                ActionView::FetchDialogues { puzzle_id: p },
            ),
            EventView::StoreFailed(report) => finished(p, Err(ErrorView::UpstreamFetch(report))),
            _ => finished(p, Err(ErrorView::UnexpectedEvent)),
        },
        StageView::Fetching => match e {
            EventView::Dialogues(dialogues) => (
                RequestView { puzzle_id: p, stage: StageView::Analyzing { ids: ids_of(dialogues) } },
                ActionView::Analyze { texts: questions_of(dialogues) },
            ),
            EventView::StoreFailed(report) => finished(p, Err(ErrorView::UpstreamFetch(report))),
            _ => finished(p, Err(ErrorView::UnexpectedEvent)),
        },
        StageView::Analyzing { ids } => match e {
            EventView::Analyzed(analyses) => {
                if ids.len() == analyses.len() && all_readable(analyses) {
                    let tokens = dialogue_tokens_of(ids, analyses);
                    (
                        RequestView { puzzle_id: p, stage: StageView::Storing { tokens } },
                        ActionView::InsertCache { puzzle_id: p, tokens: Some(tokens) },
                    )
                } else {
                    finished(p, Err(ErrorView::AnalyzerInvocation))
                }
            },
            EventView::AnalyzerFailed => finished(p, Err(ErrorView::AnalyzerInvocation)),
            _ => finished(p, Err(ErrorView::UnexpectedEvent)),
        },
        StageView::Storing { tokens } => match e {
            EventView::Stored => finished(p, Ok(tokens)),
            EventView::StoreFailed(report) => finished(p, Err(ErrorView::UpstreamFetch(report))),
            _ => finished(p, Err(ErrorView::UnexpectedEvent)),
        },
        StageView::Done => finished(p, Err(ErrorView::UnexpectedEvent)),
    }
}

/// The identifiers of the dialogues, in order.
pub fn dialogue_ids(dialogues: &Vec<Dialogue>) -> (ids: Vec<i32>)
    ensures
        ids@ == ids_of(dialogue_views(dialogues@)),
{
    let mut ids: Vec<i32> = Vec::new();
    let mut i: usize = 0;
    while i < dialogues.len()
        invariant
            i <= dialogues.len(),
            ids@.len() == i,
            forall|j: int| 0 <= j < i ==> ids@[j] == dialogues@[j].id,
        decreases dialogues.len() - i,
    {
        ids.push(dialogues[i].id);
        i += 1;
    }
    assert(ids@ =~= ids_of(dialogue_views(dialogues@)));
    ids
}

/// The normalized questions of the dialogues, in order.
pub fn normalized_questions(dialogues: &Vec<Dialogue>) -> (texts: Vec<String>)
    ensures
        text_views(texts@) == questions_of(dialogue_views(dialogues@)),
{
    let mut texts: Vec<String> = Vec::new();
    let mut i: usize = 0;
    while i < dialogues.len()
        invariant
            i <= dialogues.len(),
            texts@.len() == i,
            forall|j: int| 0 <= j < i ==> texts@[j]@ == stripped(dialogues@[j].question@),
        decreases dialogues.len() - i,
    {
        texts.push(strip_symbols(dialogues[i].question.as_str()));
        i += 1;
    }
    assert(text_views(texts@) =~= questions_of(dialogue_views(dialogues@)));
    texts
}

/// Builds the token list of the dialogues `ids` from the analyzer's output
/// for their questions: for each dialogue, in order, the content words among
/// the tokens of its nodes. Gives `None` exactly where the output has not one
/// entry for each dialogue or cannot be read.
pub fn tokenize_dialogues(ids: &Vec<i32>, analyses: &Vec<Vec<AnalyzerNode>>) -> (list: Option<
    Vec<DialogueTokens>,
>)
    ensures
        list is Some <==> ids@.len() == analyses@.len() && all_readable(analysis_views(analyses@)),
        list matches Some(tokens) ==> dialogue_tokens_views(tokens@) == dialogue_tokens_of(
            ids@,
            analysis_views(analyses@),
        ),
{
    if ids.len() != analyses.len() {
        return None;
    }
    let ghost views = analysis_views(analyses@);
    let mut list: Vec<DialogueTokens> = Vec::new();
    let mut i: usize = 0;
    while i < ids.len()
        invariant
            i <= ids.len(),
            ids.len() == analyses.len(),
            views == analysis_views(analyses@),
            list@.len() == i,
            forall|j: int| 0 <= j < i ==> readable(#[trigger] views[j]),
            forall|j: int|
                0 <= j < i ==> (#[trigger] list@[j])@ == (DialogueTokensView {
                    id: ids@[j],
                    tokens: content_words(tokens_of_nodes(views[j])),
                }),
        decreases ids.len() - i,
    {
        assert(views[i as int] == node_views(analyses@[i as int]@));
        match tokenize(&analyses[i]) {
            Ok(tokens) => {
                let kept = keep_content_words(tokens);
                list.push(DialogueTokens { id: ids[i], tokens: kept });
            },
            Err(e) => {
                proof {
                    let nodes = views[i as int];
                    let at = e.index as int;
                    assert(nodes[at] == analyses@[i as int]@[at]@);
                    assert(!readable(nodes));
                }
                return None;
            },
        }
        i += 1;
    }
    assert(dialogue_tokens_views(list@) =~= dialogue_tokens_of(ids@, views));
    Some(list)
}

/// Opens a request for the tokens of the puzzle `puzzle_id`: the cache is
/// asked first.
pub fn get_puzzle_tokens(puzzle_id: i32) -> (opened: (Request, Action))
    ensures
        opened.0@ == (RequestView { puzzle_id, stage: StageView::LookingUp }),
        opened.1@ == (ActionView::FindCache { puzzle_id }),
{
    (Request { puzzle_id, stage: Stage::LookingUp }, Action::FindCache { puzzle_id })
}

/// Ends a request with `result`.
fn finish(puzzle_id: i32, result: Result<Vec<DialogueTokens>, Error>) -> (out: (Request, Action))
    ensures
        (out.0@, out.1@) == finished(
            puzzle_id,
            match result {
                Ok(tokens) => Ok(dialogue_tokens_views(tokens@)),
                Err(e) => Err(e@),
            },
        ),
        !(out.1 is InsertCache),
{
    (Request { puzzle_id, stage: Stage::Done }, Action::Finish(result))
}

impl Request {
    /// Takes the request one step on: from its stage and what the caller
    /// reports to the next stage and the next action, as `step` says. A row
    /// that is to be stored holds the document written for the token list.
    pub fn advance(self, event: Event) -> (out: (Request, Action))
        ensures
            (out.0@, out.1@) == step(self@, event@),
            out.1 matches Action::InsertCache(row) ==> out.0@.stage matches StageView::Storing {
                tokens,
            } && is_document_of(row.tokens, tokens),
    {
        let Request { puzzle_id, stage } = self;
        match stage {
            Stage::LookingUp => match event {
                Event::CacheFound(row) => match row.to_tokens() {
                    Ok(tokens) => finish(puzzle_id, Ok(tokens)),
                    Err(_) => finish(puzzle_id, Err(Error::CacheDeserialization)),
                },
                Event::CacheMissing => (
                    Request { puzzle_id, stage: Stage::Fetching },
                    Action::FetchDialogues { puzzle_id },
                ),
                Event::StoreFailed(report) => finish(puzzle_id, Err(Error::UpstreamFetch(report))),
                _ => finish(puzzle_id, Err(Error::UnexpectedEvent)),
            },
            Stage::Fetching => match event {
                Event::Dialogues(dialogues) => {
                    let ids = dialogue_ids(&dialogues);
                    let texts = normalized_questions(&dialogues);
                    (Request { puzzle_id, stage: Stage::Analyzing { ids } }, Action::Analyze { texts })
                },
                Event::StoreFailed(report) => finish(puzzle_id, Err(Error::UpstreamFetch(report))),
                _ => finish(puzzle_id, Err(Error::UnexpectedEvent)),
            },
            Stage::Analyzing { ids } => match event {
                Event::Analyzed(analyses) => match tokenize_dialogues(&ids, &analyses) {
                    Some(tokens) => {
                        let row = NewPuzzleTokenCache::new(puzzle_id, &tokens);
                        (Request { puzzle_id, stage: Stage::Storing { tokens } }, Action::InsertCache(row))
                    },
                    None => finish(puzzle_id, Err(Error::AnalyzerInvocation)),
                },
                Event::AnalyzerFailed => finish(puzzle_id, Err(Error::AnalyzerInvocation)),
                _ => finish(puzzle_id, Err(Error::UnexpectedEvent)),
            },
            Stage::Storing { tokens } => match event {
                Event::Stored => finish(puzzle_id, Ok(tokens)),
                Event::StoreFailed(report) => finish(puzzle_id, Err(Error::UpstreamFetch(report))),
                _ => finish(puzzle_id, Err(Error::UnexpectedEvent)),
            },
            Stage::Done => finish(puzzle_id, Err(Error::UnexpectedEvent)),
        }
    }
}

/// The token list has one entry for each dialogue, under the dialogue's
/// identifier and in the order in which the dialogues were fetched, whatever
/// the number of tokens of each, none included.
pub proof fn lemma_order_preserved(dialogues: Seq<DialogueView>, analyses: Seq<Seq<NodeView>>)
    ensures
        dialogue_tokens_of(ids_of(dialogues), analyses).len() == dialogues.len(),
        forall|i: int|
            0 <= i < dialogues.len() ==> (#[trigger] dialogue_tokens_of(
                ids_of(dialogues),
                analyses,
            )[i]).id == dialogues[i].id,
{
}

/// A request that misses the cache asks for one fetch of the dialogues, one
/// pass of the analyzer and one insertion, and returns the token list. A
/// later request that finds the stored document returns the same list
/// straight from the lookup, without a fetch or an analysis.
pub proof fn lemma_second_request_served_from_cache(
    puzzle_id: i32,
    dialogues: Seq<DialogueView>,
    analyses: Seq<Seq<NodeView>>,
    stored: JsonValue,
)
    requires
        analyses.len() == dialogues.len(),
        all_readable(analyses),
        is_document_of(stored, dialogue_tokens_of(ids_of(dialogues), analyses)),
    ensures
        ({
            let opened = RequestView { puzzle_id, stage: StageView::LookingUp };
            let tokens = dialogue_tokens_of(ids_of(dialogues), analyses);
            let missed = step(opened, EventView::CacheMissing);
            let fetched = step(missed.0, EventView::Dialogues(dialogues));
            let analyzed = step(fetched.0, EventView::Analyzed(analyses));
            let first = step(analyzed.0, EventView::Stored);
            let second = step(opened, EventView::CacheFound(document_tokens(stored)));
            &&& missed.1 == ActionView::FetchDialogues { puzzle_id }
            &&& fetched.1 == ActionView::Analyze { texts: questions_of(dialogues) }
            &&& analyzed.1 == ActionView::InsertCache { puzzle_id, tokens: Some(tokens) }
            &&& first == finished(puzzle_id, Ok(tokens))
            &&& second == first
        }),
{
    lemma_document_round_trip(stored, dialogue_tokens_of(ids_of(dialogues), analyses));
    assert(ids_of(dialogues).len() == analyses.len());
}

/// A puzzle without dialogues gives the empty token list, and the empty list
/// is stored like any other.
pub proof fn lemma_puzzle_without_dialogues(puzzle_id: i32)
    ensures
        ({
            let none = Seq::<DialogueView>::empty();
            let fetching = RequestView { puzzle_id, stage: StageView::Fetching };
            let fetched = step(fetching, EventView::Dialogues(none));
            let analyzed = step(fetched.0, EventView::Analyzed(Seq::empty()));
            let stored = step(analyzed.0, EventView::Stored);
            &&& fetched.1 == ActionView::Analyze { texts: Seq::empty() }
            &&& analyzed.1 == ActionView::InsertCache { puzzle_id, tokens: Some(Seq::empty()) }
            &&& stored == finished(puzzle_id, Ok(Seq::empty()))
        }),
{
    let none = Seq::<DialogueView>::empty();
    assert(ids_of(none) =~= Seq::<i32>::empty());
    assert(questions_of(none) =~= Seq::<Seq<char>>::empty());
    assert(dialogue_tokens_of(Seq::<i32>::empty(), Seq::<Seq<NodeView>>::empty())
        =~= Seq::<DialogueTokensView>::empty());
}

} // verus!
