//! What the recipe lookup reads out of the pages it is given: the link to
//! the recipe on the search page, and the ingredients and the steps on the
//! recipe page.

use vstd::prelude::*;
use vstd::string::*;
use crate::dom::{
    matched_attrs, matched_texts, nested_texts, select_attrs, select_nested_texts, select_texts,
    selector_compiles,
};
use crate::filter::{clean_vector, cleaned, is_ingredient_list};
use crate::substring::{begins_with, starts_with};

verus! {

/// The origin of the site, against which a recipe link is resolved.
pub const SITE: &'static str = "https://www.arla.dk";

/// What an address on the plain web begins with.
pub const HTTP_SCHEME: &'static str = "http://";

/// What an address on the secure web begins with.
pub const HTTPS_SCHEME: &'static str = "https://";

/// What a path from the root of the site begins with.
pub const ROOT: &'static str = "/";

/// The address of the search page, up to the query.
pub const SEARCH_PREFIX: &'static str = "https://www.arla.dk/opskrifter/?search=";

/// Selects the link of a recipe card on the search page.
pub const LINK_SELECTOR: &'static str = "a.u-flex.c-card__image-wrap.c-card__image-wrap--large";

/// The attribute that holds the target of a link.
pub const LINK_ATTRIBUTE: &'static str = "href";

/// Selects the block of the recipe page that holds the ingredients.
pub const INGREDIENTS_SELECTOR: &'static str = "div.c-recipe__ingredients-inner";

/// Selects one ingredient inside the ingredients block.
pub const INGREDIENT_SELECTOR: &'static str = "table span";

/// Selects one step of the instructions on the recipe page.
pub const STEP_SELECTOR: &'static str = ".c-recipe__instructions-step span";

/// Why a page gave no result.
#[derive(Debug, Clone, Copy, PartialEq, Eq, Structural)]
pub enum ScrapeError {
    /// No element of the page matches where one is needed.
    NotFound,
    /// The page could not be fetched.
    Transport,
    /// The body of the response could not be read as text.
    Parse,
    /// A selector was rejected by the selector engine.
    Selector,
}

/// The address of the search page for `query`: the query is put behind
/// the prefix as it is.
pub open spec fn search_address(query: Seq<char>) -> Seq<char> {
    SEARCH_PREFIX@ + query
}

/// Builds the address of the search page for `query`.
pub fn search_url(query: &str) -> (r: String)
    ensures
        r@ == search_address(query@),
{
    let mut url = SEARCH_PREFIX.to_owned();
    url.append(query);
    url
}

/// A link result as plain characters.
pub open spec fn link_view(r: Result<String, ScrapeError>) -> Result<Seq<char>, ScrapeError> {
    match r {
        Ok(url) => Ok(url@),
        Err(e) => Err(e),
    }
}

/// A list result as plain characters.
pub open spec fn list_view(r: Result<Vec<String>, ScrapeError>) -> Result<
    Seq<Seq<char>>,
    ScrapeError,
> {
    match r {
        Ok(list) => Ok(list.deep_view()),
        Err(e) => Err(e),
    }
}

/// The text is an absolute address: it begins with a web scheme.
pub open spec fn is_absolute(address: Seq<char>) -> bool {
    begins_with(address, HTTP_SCHEME@) || begins_with(address, HTTPS_SCHEME@)
}

/// The target of a link, resolved against the site's origin:
/// - no target, or an empty one, is the origin itself;
/// - an absolute address stays as it is;
/// - a path from the root gets the origin in front;
/// - any other path gets the origin and a `/` in front.
pub open spec fn resolved(target: Option<Seq<char>>) -> Seq<char> {
    match target {
        None => SITE@,
        Some(path) => if path.len() == 0 {
            SITE@
        } else if is_absolute(path) {
            path
        } else if begins_with(path, ROOT@) {
            SITE@ + path
        } else {
            SITE@ + ROOT@ + path
        },
    }
}

/// The recipe link that follows from the link targets of the matching
/// elements: none without a matching element; else the target of the
/// first element, resolved against the site's origin.
pub open spec fn link_of(targets: Seq<Option<Seq<char>>>) -> Result<Seq<char>, ScrapeError> {
    if targets.len() == 0 {
        Err(ScrapeError::NotFound)
    } else {
        Ok(resolved(targets[0]))
    }
}

/// A resolved link is an absolute address, and resolving it once more
/// changes nothing.
pub proof fn lemma_resolved_is_absolute(target: Option<Seq<char>>)
    ensures
        is_absolute(resolved(target)),
        resolved(Some(resolved(target))) == resolved(target),
{
    reveal_strlit("https://www.arla.dk");
    reveal_strlit("https://");
    reveal_strlit("http://");
    reveal_strlit("/");
    let link = resolved(target);
    assert(SITE@.subrange(0, 8) =~= HTTPS_SCHEME@);
    if link != SITE@ && !(target matches Some(path) && link == path) {
        assert(link.subrange(0, 8) =~= SITE@.subrange(0, 8));
    }
}

/// The ingredient list that follows from the texts in the ingredients
/// blocks: empty without a block; else the cleaned texts of the first
/// block.
pub open spec fn ingredients_of(blocks: Seq<Seq<Seq<char>>>) -> Seq<Seq<char>> {
    if blocks.len() == 0 {
        Seq::empty()
    } else {
        cleaned(blocks[0])
    }
}

/// The link behind the first element of a page that matches `selector`,
/// resolved against the site's origin.
pub open spec fn link_in(page: Seq<char>, selector: Seq<char>) -> Result<Seq<char>, ScrapeError> {
    if selector_compiles(selector) {
        link_of(matched_attrs(page, selector, LINK_ATTRIBUTE@))
    } else {
        Err(ScrapeError::Selector)
    }
}

/// The ingredients in the first element of a page that matches `block`:
/// the texts of the elements below it that match `item`, cleaned.
pub open spec fn ingredients_in(page: Seq<char>, block: Seq<char>, item: Seq<char>) -> Result<
    Seq<Seq<char>>,
    ScrapeError,
> {
    if selector_compiles(block) && selector_compiles(item) {
        Ok(ingredients_of(nested_texts(page, block, item)))
    } else {
        Err(ScrapeError::Selector)
    }
}

/// The texts of the elements of a page that match `selector`, as they
/// stand in the page: neither normalized nor filtered.
pub open spec fn steps_in(page: Seq<char>, selector: Seq<char>) -> Result<
    Seq<Seq<char>>,
    ScrapeError,
> {
    if selector_compiles(selector) {
        Ok(matched_texts(page, selector))
    } else {
        Err(ScrapeError::Selector)
    }
}

/// The recipe link on a search page.
pub open spec fn recipe_url(page: Seq<char>) -> Result<Seq<char>, ScrapeError> {
    link_in(page, LINK_SELECTOR@)
}

/// The ingredient list of a recipe page.
pub open spec fn recipe_items(page: Seq<char>) -> Result<Seq<Seq<char>>, ScrapeError> {
    ingredients_in(page, INGREDIENTS_SELECTOR@, INGREDIENT_SELECTOR@)
}

/// The steps of a recipe page.
pub open spec fn recipe_description(page: Seq<char>) -> Result<Seq<Seq<char>>, ScrapeError> {
    steps_in(page, STEP_SELECTOR@)
}

/// Resolves the target of a link against the site's origin. An absolute
/// address comes back unchanged; a path gets the origin in front, with a
/// `/` between the two where the path does not begin with one; no target
/// and the empty target give the origin.
pub fn resolve(target: &Option<String>) -> (r: String)
    ensures
        r@ == resolved(target.deep_view()),
        is_absolute(r@),
{
    proof {
        lemma_resolved_is_absolute(target.deep_view());
    }
    match target {
        None => SITE.to_owned(),
        Some(path) => {
            let path = path.as_str();
            if path.unicode_len() == 0 {
                SITE.to_owned()
            } else if starts_with(path, HTTP_SCHEME) || starts_with(path, HTTPS_SCHEME) {
                path.to_owned()
            } else {
                let mut href = SITE.to_owned();
                if !starts_with(path, ROOT) {
                    href.append(ROOT);
                }
                href.append(path);
                href
            }
        },
    }
}

/// Turns the link targets of the matching elements into the recipe link.
pub fn recipe_link(targets: &Vec<Option<String>>) -> (r: Result<String, ScrapeError>)
    ensures
        link_view(r) == link_of(targets.deep_view()),
        r matches Ok(url) ==> is_absolute(url@),
{
    if targets.len() == 0 {
        Err(ScrapeError::NotFound)
    } else {
        Ok(resolve(&targets[0]))
    }
}

/// Every recipe link is an absolute address.
pub proof fn lemma_link_is_absolute(page: Seq<char>, selector: Seq<char>)
    ensures
        link_in(page, selector) matches Ok(url) ==> is_absolute(url),
        recipe_url(page) matches Ok(url) ==> is_absolute(url),
{
    if selector_compiles(selector) {
        let targets = matched_attrs(page, selector, LINK_ATTRIBUTE@);
        if targets.len() > 0 {
            lemma_resolved_is_absolute(targets[0]);
        }
    }
    if selector_compiles(LINK_SELECTOR@) {
        let targets = matched_attrs(page, LINK_SELECTOR@, LINK_ATTRIBUTE@);
        if targets.len() > 0 {
            lemma_resolved_is_absolute(targets[0]);
        }
    }
}

/// Turns the texts in the ingredients blocks into the ingredient list.
pub fn ingredients_from(blocks: Vec<Vec<String>>) -> (r: Vec<String>)
    ensures
        r.deep_view() == ingredients_of(blocks.deep_view()),
        is_ingredient_list(r.deep_view()),
{
    let mut blocks = blocks;
    if blocks.len() == 0 {
        Vec::new()
    } else {
        let items = blocks.remove(0);
        clean_vector(items)
    }
}

/// Finds the link behind the first element of `page` that matches
/// `selector`, resolved against the site's origin. Fails with `NotFound`
/// where no element matches, and with `Selector` where the selector is
/// rejected.
pub fn find_link(page: &str, selector: &str) -> (r: Result<String, ScrapeError>)
    ensures
        link_view(r) == link_in(page@, selector@),
        r matches Ok(url) ==> is_absolute(url@),
{
    match select_attrs(page, selector, LINK_ATTRIBUTE) {
        Ok(targets) => recipe_link(&targets),
        Err(_) => Err(ScrapeError::Selector),
    }
}

/// Reads the ingredients in the first element of `page` that matches
/// `block`: the texts of the elements below it that match `item`,
/// cleaned. A page without such a block has no ingredients. Fails with
/// `Selector` where a selector is rejected.
pub fn find_ingredients(page: &str, block: &str, item: &str) -> (r: Result<
    Vec<String>,
    ScrapeError,
>)
    ensures
        list_view(r) == ingredients_in(page@, block@, item@),
        r matches Ok(items) ==> is_ingredient_list(items.deep_view()),
{
    match select_nested_texts(page, block, item) {
        Ok(blocks) => Ok(ingredients_from(blocks)),
        Err(_) => Err(ScrapeError::Selector),
    }
}

/// Reads the texts of the elements of `page` that match `selector`, as
/// they stand in the page. Fails with `Selector` where the selector is
/// rejected.
pub fn find_steps(page: &str, selector: &str) -> (r: Result<Vec<String>, ScrapeError>)
    ensures
        list_view(r) == steps_in(page@, selector@),
{
    match select_texts(page, selector) {
        Ok(instructions) => Ok(instructions),
        Err(_) => Err(ScrapeError::Selector),
    }
}

/// Finds the link to the first recipe on a search page, as an absolute
/// address.
pub fn get_recipe_url(page: &str) -> (r: Result<String, ScrapeError>)
    ensures
        link_view(r) == recipe_url(page@),
        r matches Ok(url) ==> is_absolute(url@),
{
    find_link(page, LINK_SELECTOR)
}

/// Reads the ingredients of a recipe page: the texts inside the first
/// ingredients block, cleaned.
pub fn get_recipe_items(page: &str) -> (r: Result<Vec<String>, ScrapeError>)
    ensures
        list_view(r) == recipe_items(page@),
        r matches Ok(items) ==> is_ingredient_list(items.deep_view()),
{
    find_ingredients(page, INGREDIENTS_SELECTOR, INGREDIENT_SELECTOR)
}

/// Reads the steps of a recipe page, as they stand in the page.
pub fn get_recipe_description(page: &str) -> (r: Result<Vec<String>, ScrapeError>)
    ensures
        list_view(r) == recipe_description(page@),
{
    find_steps(page, STEP_SELECTOR)
}

} // verus!
