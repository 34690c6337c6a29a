use crunchyroll_stats::genres::{
    capitalize, category_title_or_fallback, load_category_taxonomy, normalize_genres,
    prettify_category, resolve_genres, CategoryTaxonomy, LocalizedCategory,
};

fn strings(items: &[&str]) -> Vec<String> {
    items.iter().map(|s| s.to_string()).collect()
}

fn localized(id: &str, title: &str) -> LocalizedCategory {
    LocalizedCategory { id: id.to_string(), title: title.to_string() }
}

#[test]
fn capitalize_upper_cases_the_first_character() {
    assert_eq!(capitalize("action"), "Action");
    assert_eq!(capitalize("Action"), "Action");
    assert_eq!(capitalize(""), "");
    assert_eq!(capitalize("a"), "A");
    assert_eq!(capitalize("sci fi"), "Sci fi");
    assert_eq!(capitalize("élan"), "Élan");
    assert_eq!(capitalize("1st"), "1st");
}

#[test]
fn capitalize_may_expand_the_first_character() {
    assert_eq!(capitalize("ßa"), "SSa");
}

#[test]
fn prettify_splits_on_hyphens() {
    assert_eq!(prettify_category("slice-of-life"), "Slice Of Life");
    assert_eq!(prettify_category("action"), "Action");
    assert_eq!(prettify_category("sci-fi"), "Sci Fi");
}

#[test]
fn prettify_skips_empty_pieces() {
    assert_eq!(prettify_category(""), "");
    assert_eq!(prettify_category("-"), "");
    assert_eq!(prettify_category("---"), "");
    assert_eq!(prettify_category("--a--b-"), "A B");
    assert_eq!(prettify_category("-shonen"), "Shonen");
    assert_eq!(prettify_category("shonen-"), "Shonen");
}

#[test]
fn prettify_keeps_inner_spaces_and_case() {
    assert_eq!(prettify_category("post apocalyptic-drama"), "Post apocalyptic Drama");
    assert_eq!(prettify_category("aCTION-x"), "ACTION X");
}

#[test]
fn normalize_round_trip() {
    assert_eq!(
        normalize_genres(strings(&["Action", " action ", "", "Comedy"])),
        strings(&["Action", "Comedy"])
    );
}

#[test]
fn normalize_keeps_first_seen_casing_and_order() {
    assert_eq!(
        normalize_genres(strings(&["  drama", "Comedy", "DRAMA", "comedy ", "Sci Fi"])),
        strings(&["drama", "Comedy", "Sci Fi"])
    );
}

#[test]
fn normalize_drops_blank_strings() {
    assert_eq!(normalize_genres(strings(&["", "   ", "\t\n"])), Vec::<String>::new());
    assert_eq!(normalize_genres(Vec::new()), Vec::<String>::new());
    assert_eq!(normalize_genres(strings(&["\u{3000}Isekai\u{a0}"])), strings(&["Isekai"]));
}

#[test]
fn title_or_fallback_prefers_the_title() {
    assert_eq!(category_title_or_fallback("slice-of-life", " Tranche de vie "), "Tranche de vie");
    assert_eq!(category_title_or_fallback("slice-of-life", ""), "Slice Of Life");
    assert_eq!(category_title_or_fallback("slice-of-life", "   "), "Slice Of Life");
}

#[test]
fn taxonomy_from_a_listing() {
    let taxonomy = load_category_taxonomy(Ok(vec![
        localized("action", "Action!"),
        localized("sci-fi", " "),
        localized("action", "Aktion"),
    ]));
    assert_eq!(taxonomy.title_of("action"), Some("Aktion".to_string()));
    assert_eq!(taxonomy.title_of("sci-fi"), Some("Sci Fi".to_string()));
    assert_eq!(taxonomy.title_of("drama"), None);
}

#[test]
fn taxonomy_of_a_failed_listing_is_empty() {
    let taxonomy = load_category_taxonomy(Err("timeout".to_string()));
    assert_eq!(taxonomy.title_of("action"), None);
    assert_eq!(CategoryTaxonomy::new().title_of("action"), None);
}

#[test]
fn resolve_prefers_localized_then_taxonomy_then_slug() {
    let taxonomy = load_category_taxonomy(Ok(vec![
        localized("drama", "Drame"),
        localized("action", "From taxonomy"),
    ]));
    let got = resolve_genres(
        strings(&["drama", "slice-of-life", "action"]),
        vec![localized("action", "Action locale")],
        &taxonomy,
    );
    assert_eq!(got, strings(&["Action locale", "Drame", "Slice Of Life"]));
}

#[test]
fn resolve_deduplicates_identifiers_and_labels() {
    let taxonomy = CategoryTaxonomy::new();
    let got = resolve_genres(
        strings(&["action", "Action", "comedy", "action"]),
        Vec::new(),
        &taxonomy,
    );
    assert_eq!(got, strings(&["Action", "Comedy"]));
}

#[test]
fn resolve_uses_the_last_localized_title_of_an_identifier() {
    let taxonomy = CategoryTaxonomy::new();
    let got = resolve_genres(
        Vec::new(),
        vec![localized("a", "First"), localized("b", "Second"), localized("a", "Third")],
        &taxonomy,
    );
    assert_eq!(got, strings(&["Third", "Second"]));
}

#[test]
fn resolve_of_nothing_is_empty() {
    let taxonomy = CategoryTaxonomy::new();
    assert_eq!(resolve_genres(Vec::new(), Vec::new(), &taxonomy), Vec::<String>::new());
    assert_eq!(resolve_genres(strings(&["-"]), Vec::new(), &taxonomy), Vec::<String>::new());
}
