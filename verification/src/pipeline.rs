//! The lookup as a sequence of steps. The caller fetches pages; the lookup
//! decides which page is wanted next and what each fetched page has to
//! show.
//!
//! The search page is fetched first. The recipe page it points to is then
//! fetched twice, once for the ingredients and once for the steps. A
//! search that gives no link ends the lookup; a failure on the recipe page
//! only leaves out the part that it was fetched for.

use vstd::prelude::*;
use crate::extract::{
    get_recipe_description, get_recipe_items, get_recipe_url, recipe_description, recipe_items,
    recipe_url, search_address, search_url, ScrapeError,
};

verus! {

/// Where a lookup stands: the page it waits for.
#[derive(Debug)]
pub enum Lookup {
    /// The search page.
    Search,
    /// The recipe page at this address, for its ingredients.
    Ingredients(String),
    /// The recipe page at this address, for its steps.
    Description(String),
    /// Nothing: the lookup has ended.
    Finished,
}

/// What came of fetching a page.
#[derive(Debug)]
pub enum Fetched {
    /// The body of the page.
    Page(String),
    /// No page, and why.
    Failed(ScrapeError),
}

/// What the caller does next.
#[derive(Debug)]
pub enum Action {
    /// Fetch the page at this address and hand it to `step`.
    Fetch(String),
    /// Nothing more.
    Stop,
}

/// What a step gives the caller to show.
#[derive(Debug)]
pub enum Output {
    /// Nothing.
    Nothing,
    /// Nothing, because the page was not fetched or did not hold what was
    /// looked for.
    Failed(ScrapeError),
    /// The address of the recipe that was found.
    RecipeUrl(String),
    /// The ingredient list, one item per line.
    Ingredients(Vec<String>),
    /// The steps, one per line.
    Description(Vec<String>),
}

/// The result of one step.
#[derive(Debug)]
pub struct Step {
    pub lookup: Lookup,
    pub output: Output,
    pub action: Action,
}

/// A `Lookup` with its address as plain characters.
pub enum LookupView {
    Search,
    Ingredients(Seq<char>),
    Description(Seq<char>),
    Finished,
}

/// A `Fetched` with its page as plain characters.
pub enum FetchedView {
    Page(Seq<char>),
    Failed(ScrapeError),
}

/// An `Action` with its address as plain characters.
pub enum ActionView {
    Fetch(Seq<char>),
    Stop,
}

/// An `Output` with its texts as plain characters.
pub enum OutputView {
    Nothing,
    Failed(ScrapeError),
    RecipeUrl(Seq<char>),
    Ingredients(Seq<Seq<char>>),
    Description(Seq<Seq<char>>),
}

/// A `Step` of plain values.
pub struct StepView {
    pub lookup: LookupView,
    pub output: OutputView,
    pub action: ActionView,
}

impl View for Lookup {
    type V = LookupView;

    open spec fn view(&self) -> LookupView {
        match *self {
            Lookup::Search => LookupView::Search,
            Lookup::Ingredients(url) => LookupView::Ingredients(url@),
            Lookup::Description(url) => LookupView::Description(url@),
            Lookup::Finished => LookupView::Finished,
        }
    }
}

impl View for Fetched {
    type V = FetchedView;

    open spec fn view(&self) -> FetchedView {
        match *self {
            Fetched::Page(body) => FetchedView::Page(body@),
            Fetched::Failed(e) => FetchedView::Failed(e),
        }
    }
}

impl View for Action {
    type V = ActionView;

    open spec fn view(&self) -> ActionView {
        match *self {
            Action::Fetch(url) => ActionView::Fetch(url@),
            Action::Stop => ActionView::Stop,
        }
    }
}

impl View for Output {
    type V = OutputView;

    open spec fn view(&self) -> OutputView {
        match *self {
            Output::Nothing => OutputView::Nothing,
            Output::Failed(e) => OutputView::Failed(e),
            Output::RecipeUrl(url) => OutputView::RecipeUrl(url@),
            Output::Ingredients(items) => OutputView::Ingredients(items.deep_view()),
            Output::Description(steps) => OutputView::Description(steps.deep_view()),
        }
    }
}

impl View for Step {
    type V = StepView;

    open spec fn view(&self) -> StepView {
        StepView { lookup: self.lookup@, output: self.output@, action: self.action@ }
    }
}

/// The step that ends a lookup.
pub open spec fn finish(output: OutputView) -> StepView {
    StepView { lookup: LookupView::Finished, output, action: ActionView::Stop }
}

/// What a fetch gave, as the page query sees it: the failure of the
/// fetch, or what the query reads out of the page.
pub open spec fn looked_up<T>(
    fetched: FetchedView,
    query: spec_fn(Seq<char>) -> Result<T, ScrapeError>,
) -> Result<T, ScrapeError> {
    match fetched {
        FetchedView::Page(body) => query(body),
        FetchedView::Failed(e) => Err(e),
    }
}

/// What a lookup does with the outcome of the fetch it waited for.
pub open spec fn next_step(lookup: LookupView, fetched: FetchedView) -> StepView {
    match lookup {
        LookupView::Search => match looked_up(fetched, |body: Seq<char>| recipe_url(body)) {
            Ok(url) => StepView {
                lookup: LookupView::Ingredients(url),
                output: OutputView::RecipeUrl(url),
                action: ActionView::Fetch(url),
            },
            Err(e) => finish(OutputView::Failed(e)),
        },
        LookupView::Ingredients(url) => StepView {
            lookup: LookupView::Description(url),
            output: match looked_up(fetched, |body: Seq<char>| recipe_items(body)) {
                Ok(items) => OutputView::Ingredients(items),
                Err(e) => OutputView::Failed(e),
            },
            action: ActionView::Fetch(url),
        },
        LookupView::Description(url) => finish(
            match looked_up(fetched, |body: Seq<char>| recipe_description(body)) {
                Ok(steps) => OutputView::Description(steps),
                Err(e) => OutputView::Failed(e),
            },
        ),
        LookupView::Finished => finish(OutputView::Nothing),
    }
}

/// A step asks for another page exactly when it leaves the lookup
/// unfinished; a finished lookup stays finished and shows nothing.
pub proof fn lemma_stop_iff_finished(lookup: LookupView, fetched: FetchedView)
    ensures
        next_step(lookup, fetched).action is Stop <==> next_step(lookup, fetched).lookup
            is Finished,
        lookup is Finished ==> next_step(lookup, fetched) == finish(OutputView::Nothing),
{
}

/// A lookup fetches three pages at most: whatever the fetches give, the
/// third step ends it.
pub proof fn lemma_ends_with_third_fetch(first: FetchedView, second: FetchedView, third: FetchedView)
    ensures
        ({
            let a = next_step(LookupView::Search, first);
            let b = next_step(a.lookup, second);
            let c = next_step(b.lookup, third);
            c.lookup is Finished && c.action is Stop
        }),
{
}

/// After the search page, every page asked for is the recipe page that
/// the search page pointed to.
pub proof fn lemma_fetches_the_recipe_twice(page: Seq<char>, second: FetchedView)
    ensures
        recipe_url(page) matches Ok(url) ==> ({
            let a = next_step(LookupView::Search, FetchedView::Page(page));
            let b = next_step(a.lookup, second);
            &&& a.action == ActionView::Fetch(url)
            &&& b.action == ActionView::Fetch(url)
            &&& b.lookup == LookupView::Description(url)
        }),
{
}

/// Begins a lookup for `query`: the search page is to be fetched.
pub fn start(query: &str) -> (r: (Lookup, Action))
    ensures
        r.0@ == LookupView::Search,
        r.1@ == ActionView::Fetch(search_address(query@)),
{
    (Lookup::Search, Action::Fetch(search_url(query)))
}

/// Takes the outcome of the fetch that the lookup waited for, and says
/// what to show and what to do next.
pub fn step(lookup: Lookup, fetched: Fetched) -> (r: Step)
    ensures
        r@ == next_step(lookup@, fetched@),
{
    match lookup {
        Lookup::Search => {
            let found = match fetched {
                Fetched::Page(body) => get_recipe_url(body.as_str()),
                Fetched::Failed(e) => Err(e),
            };
            match found {
                Ok(url) => Step {
                    lookup: Lookup::Ingredients(url.clone()),
                    output: Output::RecipeUrl(url.clone()),
                    action: Action::Fetch(url),
                },
                Err(e) => Step {
                    lookup: Lookup::Finished,
                    output: Output::Failed(e),
                    action: Action::Stop,
                },
            }
        },
        Lookup::Ingredients(url) => {
            let found = match fetched {
                Fetched::Page(body) => get_recipe_items(body.as_str()),
                Fetched::Failed(e) => Err(e),
            };
            let output = match found {
                Ok(items) => Output::Ingredients(items),
                Err(e) => Output::Failed(e),
            };
            Step { lookup: Lookup::Description(url.clone()), output, action: Action::Fetch(url) }
        },
        Lookup::Description(_) => {
            let found = match fetched {
                Fetched::Page(body) => get_recipe_description(body.as_str()),
                Fetched::Failed(e) => Err(e),
            };
            let output = match found {
                Ok(steps) => Output::Description(steps),
                Err(e) => Output::Failed(e),
            };
            Step { lookup: Lookup::Finished, output, action: Action::Stop }
        },
        Lookup::Finished => Step {
            lookup: Lookup::Finished,
            output: Output::Nothing,
            action: Action::Stop,
        },
    }
}

} // verus!
