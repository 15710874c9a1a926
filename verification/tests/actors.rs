use javm::actor::resolve_genre_by_elimination;

fn page(items: &[(&str, &str)]) -> Vec<(String, String)> {
    items.iter().map(|(n, i)| (n.to_string(), i.to_string())).collect()
}

#[test]
fn elimination_maps_single_unmatched_pair() {
    let app: Vec<String> = vec!["丝袜".into(), "巨乳".into(), "OL".into()];
    let pg = page(&[("絲襪", "g_si"), ("巨乳", "g_ju"), ("OL", "g_ol")]);
    assert_eq!(resolve_genre_by_elimination("丝袜", &app, &pg).as_deref(), Some("g_si"));
}

#[test]
fn elimination_gives_up_on_ambiguity() {
    let app: Vec<String> = vec!["丝袜".into(), "黑丝".into(), "OL".into()];
    let pg = page(&[("絲襪", "g_si"), ("黑絲", "g_hei"), ("OL", "g_ol")]);
    assert_eq!(resolve_genre_by_elimination("丝袜", &app, &pg), None);
}

#[test]
fn elimination_none_when_target_matches_directly() {
    let app: Vec<String> = vec!["巨乳".into(), "OL".into()];
    let pg = page(&[("巨乳", "g_ju"), ("OL", "g_ol")]);
    assert_eq!(resolve_genre_by_elimination("巨乳", &app, &pg), None);
}
