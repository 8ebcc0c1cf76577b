//! Recipe lookup for a cooking site: the search page gives the link to a
//! recipe, the recipe page gives the ingredients and the steps. The
//! ingredient texts are normalized, and those that only repeat a part of
//! another are filtered out.

pub mod dom;
pub mod extract;
pub mod filter;
pub mod pipeline;
pub mod substring;
pub mod text;

pub use extract::{
    get_recipe_description, get_recipe_items, get_recipe_url, search_url, ScrapeError,
};
pub use filter::{check_substring_reuse, clean_vector, find_shortest};
pub use text::normalize;
