use recipe_scraper::extract::{
    find_ingredients, find_link, find_steps, get_recipe_description, get_recipe_items,
    get_recipe_url, ingredients_from, recipe_link, resolve, search_url, ScrapeError,
    INGREDIENTS_SELECTOR, INGREDIENT_SELECTOR, LINK_SELECTOR, STEP_SELECTOR,
};
use recipe_scraper::filter::clean_vector;
use scraper::{Html, Selector};

fn texts(items: &[&str]) -> Vec<String> {
    items.iter().map(|s| s.to_string()).collect()
}

/// The link target of the first matching element, if there is one, read
/// with the `scraper` crate directly.
fn first_target_by_hand(page: &str) -> Vec<Option<String>> {
    let html = Html::parse_fragment(page);
    let selector = Selector::parse(LINK_SELECTOR).unwrap();
    match html.select(&selector).next() {
        Some(element) => vec![element.value().attr("href").map(|target| target.to_string())],
        None => Vec::new(),
    }
}

/// A search page whose only recipe card points to `target`.
fn card_with_target(target: &str) -> String {
    format!(
        r#"<a class="u-flex c-card__image-wrap c-card__image-wrap--large" href="{}">x</a>"#,
        target
    )
}

/// The raw ingredient texts, read with the `scraper` crate directly.
fn raw_items_by_hand(page: &str) -> Vec<String> {
    let html = Html::parse_fragment(page);
    let block = Selector::parse(INGREDIENTS_SELECTOR).unwrap();
    let item = Selector::parse(INGREDIENT_SELECTOR).unwrap();
    match html.select(&block).next() {
        Some(div) => div.select(&item).map(|span| span.text().collect()).collect(),
        None => Vec::new(),
    }
}

/// The steps, read with the `scraper` crate directly.
fn steps_by_hand(page: &str) -> Vec<String> {
    let html = Html::parse_fragment(page);
    let selector = Selector::parse(STEP_SELECTOR).unwrap();
    html.select(&selector).map(|element| element.text().collect()).collect()
}

const MALFORMED_PAGE: &str = r#"
<div class="c-recipe__ingredients-inner"><table><tr><td><span>3 æg<td><span>æg</table>
<p><a class="u-flex c-card__image-wrap c-card__image-wrap--large" href=/opskrifter/æggekage/>x
<div class="c-recipe__instructions-step"><span>Pisk &amp; steg<span> længe</div>
"#;

const SEARCH_PAGE: &str = r#"
<div class="c-card">
  <a class="c-card__title" href="/opskrifter/ikke-denne/">Titel</a>
  <a class="u-flex c-card__image-wrap c-card__image-wrap--large" href="/opskrifter/pandekager/">
    <img src="pandekager.jpg">
  </a>
</div>
<div class="c-card">
  <a class="u-flex c-card__image-wrap c-card__image-wrap--large" href="/opskrifter/vafler/">
    <img src="vafler.jpg">
  </a>
</div>
"#;

const RECIPE_PAGE: &str = r#"
<h1>Pandekager</h1>
<table><tr><td><span>uden for blokken</span></td></tr></table>
<div class="c-recipe__ingredients-inner">
  <span>ikke i en tabel</span>
  <table>
    <tr><td><span>
        2 dl
        <span>mælk</span>
    </span></td></tr>
    <tr><td><span>1 tsk   salt</span></td></tr>
  </table>
</div>
<div class="c-recipe__ingredients-inner">
  <table><tr><td><span>anden blok</span></td></tr></table>
</div>
<div class="c-recipe__instructions-step"><span>  Pisk mel og mælk
 sammen.</span></div>
<div class="c-recipe__instructions-step"><span>Bag pandekagerne.</span></div>
<div class="c-recipe__instructions-step"><span>Bag pandekagerne.</span></div>
"#;

#[test]
fn the_fixed_selectors_are_accepted() {
    for selector in [LINK_SELECTOR, INGREDIENTS_SELECTOR, INGREDIENT_SELECTOR, STEP_SELECTOR] {
        assert!(Selector::parse(selector).is_ok(), "{:?}", selector);
    }
}

#[test]
fn search_url_embeds_the_plain_query() {
    assert_eq!(search_url("pandekager"), "https://www.arla.dk/opskrifter/?search=pandekager");
    assert_eq!(search_url(""), "https://www.arla.dk/opskrifter/?search=");
    assert_eq!(search_url("rød grød"), "https://www.arla.dk/opskrifter/?search=rød grød");
}

#[test]
fn link_discovery_without_a_matching_anchor_is_not_found() {
    let page = r#"<div><a class="c-card__title" href="/opskrifter/x/">x</a><p>intet</p></div>"#;
    assert_eq!(get_recipe_url(page), Err(ScrapeError::NotFound));
    assert_eq!(get_recipe_url(""), Err(ScrapeError::NotFound));
}

#[test]
fn link_discovery_takes_the_first_matching_anchor() {
    assert_eq!(
        get_recipe_url(SEARCH_PAGE),
        Ok("https://www.arla.dk/opskrifter/pandekager/".to_string())
    );
}

#[test]
fn link_discovery_needs_every_class_of_the_selector() {
    let page = r#"<a class="u-flex c-card__image-wrap" href="/opskrifter/x/">x</a>"#;
    assert_eq!(get_recipe_url(page), Err(ScrapeError::NotFound));
}

#[test]
fn link_without_target_is_the_site_itself() {
    let page = r#"<a class="u-flex c-card__image-wrap c-card__image-wrap--large">x</a>"#;
    assert_eq!(get_recipe_url(page), Ok("https://www.arla.dk".to_string()));
}

#[test]
fn recipe_link_of_each_finding() {
    assert_eq!(recipe_link(&Vec::new()), Err(ScrapeError::NotFound));
    assert_eq!(recipe_link(&vec![None]), Ok("https://www.arla.dk".to_string()));
    assert_eq!(
        recipe_link(&vec![Some("/opskrifter/vafler/".to_string())]),
        Ok("https://www.arla.dk/opskrifter/vafler/".to_string())
    );
    assert_eq!(recipe_link(&vec![Some(String::new())]), Ok("https://www.arla.dk".to_string()));
}

#[test]
fn absolute_target_comes_back_unchanged() {
    let target = "https://www.arla.dk/opskrifter/kage/";
    assert_eq!(resolve(&Some(target.to_string())), target);
    assert_eq!(recipe_link(&vec![Some(target.to_string())]), Ok(target.to_string()));
    assert_eq!(get_recipe_url(&card_with_target(target)), Ok(target.to_string()));
}

#[test]
fn absolute_target_on_another_host_or_scheme_comes_back_unchanged() {
    for target in [
        "http://www.arla.dk/opskrifter/kage/",
        "https://arla.com/recipes/cake/?a=b#c",
        "http://",
        "https://",
    ] {
        assert_eq!(resolve(&Some(target.to_string())), target);
        assert_eq!(get_recipe_url(&card_with_target(target)), Ok(target.to_string()));
    }
}

#[test]
fn target_from_the_root_gets_the_origin_in_front() {
    assert_eq!(
        resolve(&Some("/opskrifter/kage/".to_string())),
        "https://www.arla.dk/opskrifter/kage/"
    );
    assert_eq!(resolve(&Some("/".to_string())), "https://www.arla.dk/");
    assert_eq!(
        get_recipe_url(&card_with_target("/opskrifter/kage/")),
        Ok("https://www.arla.dk/opskrifter/kage/".to_string())
    );
}

#[test]
fn other_relative_target_gets_the_origin_and_a_slash_in_front() {
    assert_eq!(
        resolve(&Some("opskrifter/kage/".to_string())),
        "https://www.arla.dk/opskrifter/kage/"
    );
    assert_eq!(resolve(&Some("kage".to_string())), "https://www.arla.dk/kage");
    assert_eq!(resolve(&Some("?search=kage".to_string())), "https://www.arla.dk/?search=kage");
    // a scheme counts only at the start, and only in full
    assert_eq!(resolve(&Some("http:/kage".to_string())), "https://www.arla.dk/http:/kage");
    assert_eq!(resolve(&Some("xhttps://a".to_string())), "https://www.arla.dk/xhttps://a");
    assert_eq!(
        get_recipe_url(&card_with_target("opskrifter/kage/")),
        Ok("https://www.arla.dk/opskrifter/kage/".to_string())
    );
}

#[test]
fn missing_or_empty_target_is_the_origin() {
    assert_eq!(resolve(&None), "https://www.arla.dk");
    assert_eq!(resolve(&Some(String::new())), "https://www.arla.dk");
    assert_eq!(get_recipe_url(&card_with_target("")), Ok("https://www.arla.dk".to_string()));
}

#[test]
fn resolved_links_are_absolute_and_resolve_to_themselves() {
    for target in ["", "/", "/a/b", "a/b", "https://x.dk/a", "http://x.dk", "æ ø", "//x.dk/a"] {
        let once = resolve(&Some(target.to_string()));
        assert!(once.starts_with("https://") || once.starts_with("http://"), "{:?}", once);
        assert_eq!(resolve(&Some(once.clone())), once);
    }
}

#[test]
fn recipe_link_follows_the_first_element_only() {
    let targets = vec![None, Some("/opskrifter/vafler/".to_string())];
    assert_eq!(recipe_link(&targets), Ok("https://www.arla.dk".to_string()));
    let targets = vec![Some("/a/".to_string()), Some("/b/".to_string()), None];
    assert_eq!(recipe_link(&targets), Ok("https://www.arla.dk/a/".to_string()));
    let targets = vec![Some("https://x.dk/a/".to_string()), Some("/b/".to_string())];
    assert_eq!(recipe_link(&targets), Ok("https://x.dk/a/".to_string()));
}

#[test]
fn ingredients_without_the_block_are_empty() {
    let page = r#"<div class="other"><table><tr><td><span>salt</span></td></tr></table></div>"#;
    assert_eq!(get_recipe_items(page), Ok(Vec::new()));
    assert_eq!(get_recipe_items(""), Ok(Vec::new()));
}

#[test]
fn ingredients_of_an_empty_block_are_empty() {
    let page = r#"<div class="c-recipe__ingredients-inner"><p>intet</p></div>"#;
    assert_eq!(get_recipe_items(page), Ok(Vec::new()));
}

#[test]
fn ingredients_come_from_the_first_block_cleaned() {
    // the inner span repeats a part of the outer one and is filtered out
    assert_eq!(get_recipe_items(RECIPE_PAGE), Ok(texts(&["2 dl mælk", "1 tsk salt"])));
}

#[test]
fn ingredients_from_each_finding() {
    assert_eq!(ingredients_from(Vec::new()), Vec::<String>::new());
    assert_eq!(ingredients_from(vec![Vec::new()]), Vec::<String>::new());
    assert_eq!(
        ingredients_from(vec![texts(&[" 3\n æg ", "æg", "salt"])]),
        texts(&["3 æg", "salt"])
    );
}

#[test]
fn ingredients_from_the_first_block_only() {
    let blocks = vec![texts(&["salt"]), texts(&["peber", "smør"])];
    assert_eq!(ingredients_from(blocks), texts(&["salt"]));
    let blocks = vec![Vec::new(), texts(&["peber"])];
    assert_eq!(ingredients_from(blocks), Vec::<String>::new());
}

#[test]
fn description_is_returned_as_it_stands() {
    // neither normalized nor filtered: the line break and the repeat stay
    assert_eq!(
        get_recipe_description(RECIPE_PAGE),
        Ok(texts(&["  Pisk mel og mælk\n sammen.", "Bag pandekagerne.", "Bag pandekagerne."]))
    );
}

#[test]
fn description_without_steps_is_empty() {
    assert_eq!(get_recipe_description("<p>intet</p>"), Ok(Vec::new()));
    assert_eq!(get_recipe_description(""), Ok(Vec::new()));
}

#[test]
fn description_joins_the_text_below_a_step() {
    let page = r#"<div class="c-recipe__instructions-step"><span>Rør <b>godt</b> rundt</span></div>"#;
    assert_eq!(get_recipe_description(page), Ok(texts(&["Rør godt rundt"])));
}

#[test]
fn rejected_selector_is_reported() {
    assert_eq!(find_link(SEARCH_PAGE, "a["), Err(ScrapeError::Selector));
    assert_eq!(find_link(SEARCH_PAGE, ""), Err(ScrapeError::Selector));
    assert_eq!(find_steps(RECIPE_PAGE, "span >"), Err(ScrapeError::Selector));
    assert_eq!(find_ingredients(RECIPE_PAGE, "div", "::"), Err(ScrapeError::Selector));
    assert_eq!(find_ingredients(RECIPE_PAGE, ")", "span"), Err(ScrapeError::Selector));
}

#[test]
fn find_link_with_another_selector() {
    assert_eq!(
        find_link(SEARCH_PAGE, "a.c-card__title"),
        Ok("https://www.arla.dk/opskrifter/ikke-denne/".to_string())
    );
    assert_eq!(find_link(SEARCH_PAGE, "img"), Ok("https://www.arla.dk".to_string()));
    assert_eq!(find_link(SEARCH_PAGE, "table"), Err(ScrapeError::NotFound));
}

#[test]
fn find_ingredients_looks_below_the_first_block_only() {
    assert_eq!(
        find_ingredients(RECIPE_PAGE, "div.c-recipe__ingredients-inner", "span"),
        Ok(texts(&["ikke i en tabel", "2 dl mælk", "1 tsk salt"]))
    );
    assert_eq!(find_ingredients(RECIPE_PAGE, "h1", "span"), Ok(Vec::new()));
    assert_eq!(find_ingredients(RECIPE_PAGE, "h2", "span"), Ok(Vec::new()));
}

#[test]
fn find_steps_with_another_selector() {
    assert_eq!(find_steps(RECIPE_PAGE, "h1"), Ok(texts(&["Pandekager"])));
    assert_eq!(find_steps(RECIPE_PAGE, "h2"), Ok(Vec::new()));
}

#[test]
fn queries_agree_with_scraper_used_directly() {
    let pages = [SEARCH_PAGE, RECIPE_PAGE, MALFORMED_PAGE, "", "<p>intet</p>", "<table><span>x"];
    for page in pages {
        assert_eq!(
            get_recipe_url(page),
            recipe_link(&first_target_by_hand(page)),
            "link in {:?}",
            page
        );
        assert_eq!(
            get_recipe_items(page),
            Ok(clean_vector(raw_items_by_hand(page))),
            "items in {:?}",
            page
        );
        assert_eq!(get_recipe_description(page), Ok(steps_by_hand(page)), "steps in {:?}", page);
    }
}

#[test]
fn malformed_page_is_read_as_far_as_it_goes() {
    assert_eq!(
        get_recipe_url(MALFORMED_PAGE),
        Ok("https://www.arla.dk/opskrifter/æggekage/".to_string())
    );
    assert_eq!(get_recipe_items(MALFORMED_PAGE), Ok(texts(&["3 æg"])));
    assert_eq!(get_recipe_description(MALFORMED_PAGE), Ok(texts(&["Pisk & steg længe", " længe"])));
}
