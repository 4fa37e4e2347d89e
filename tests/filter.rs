use repo_search::repository::{filter_repositories, matches_folded, Repositories, Repository};

fn repo(name: &str, description: Option<&str>, language: Option<&str>) -> Repository {
    Repository {
        name: name.to_string(),
        description: description.map(|d| d.to_string()),
        language: language.map(|l| l.to_string()),
    }
}

fn sample() -> Repositories {
    Repositories {
        items: vec![
            repo("alpha", Some("a tool"), Some("Rust")),
            repo("beta", None, Some("Go")),
            repo("gamma", Some("a Go utility"), Some("Go")),
        ],
    }
}

fn names(repos: &[Repository]) -> Vec<String> {
    repos.iter().map(|r| r.name.clone()).collect()
}

#[test]
fn no_criteria_keeps_every_repository_in_order() {
    let kept = filter_repositories(sample(), None, None, None);
    assert_eq!(names(&kept), vec!["alpha", "beta", "gamma"]);
    assert_eq!(kept[1].description, None);
    assert_eq!(kept[2].description.as_deref(), Some("a Go utility"));
}

#[test]
fn no_criteria_on_empty_result() {
    let kept = filter_repositories(Repositories { items: vec![] }, None, None, None);
    assert!(kept.is_empty());
}

#[test]
fn language_filter_is_case_insensitive() {
    let kept = filter_repositories(sample(), None, None, Some("go"));
    assert_eq!(names(&kept), vec!["beta", "gamma"]);
}

#[test]
fn description_filter_matches_substring() {
    let kept = filter_repositories(sample(), None, Some("tool"), None);
    assert_eq!(names(&kept), vec!["alpha"]);
}

#[test]
fn title_filter_without_match_gives_nothing() {
    let kept = filter_repositories(sample(), Some("ZETA"), None, None);
    assert!(kept.is_empty());
}

#[test]
fn title_filter_ignores_case() {
    let kept = filter_repositories(sample(), Some("AMM"), None, None);
    assert_eq!(names(&kept), vec!["gamma"]);
}

#[test]
fn missing_description_never_passes_description_filter() {
    let items = Repositories {
        items: vec![repo("beta", None, Some("Go")), repo("delta", Some(""), None)],
    };
    let kept = filter_repositories(items, None, Some(""), None);
    assert_eq!(names(&kept), vec!["delta"]);
}

#[test]
fn language_filter_is_exact_not_substring() {
    let go = repo("beta", None, Some("Go"));
    assert!(go.matches(None, None, Some("go")));
    assert!(go.matches(None, None, Some("GO")));
    assert!(!go.matches(None, None, Some("golang")));
    assert!(!go.matches(None, None, Some("g")));
}

#[test]
fn missing_language_never_passes_language_filter() {
    let r = repo("beta", Some("x"), None);
    assert!(!r.matches(None, None, Some("")));
    assert!(r.matches(None, None, None));
}

#[test]
fn criteria_combine_with_and() {
    let kept = filter_repositories(sample(), Some("a"), Some("go"), Some("GO"));
    assert_eq!(names(&kept), vec!["gamma"]);
    let kept = filter_repositories(sample(), Some("alpha"), None, Some("go"));
    assert!(kept.is_empty());
}

#[test]
fn survivors_keep_their_order() {
    let items = Repositories {
        items: vec![
            repo("z-one", None, Some("Rust")),
            repo("a-two", None, Some("Go")),
            repo("m-three", None, Some("rust")),
            repo("b-four", None, Some("RUST")),
        ],
    };
    let kept = filter_repositories(items, None, None, Some("Rust"));
    assert_eq!(names(&kept), vec!["z-one", "m-three", "b-four"]);
}

#[test]
fn folded_matching_on_lowercase_values() {
    let name = "gamma".to_string();
    let desc = "a go utility".to_string();
    let lang = "go".to_string();
    let go = "go".to_string();
    let golang = "golang".to_string();
    let amm = "amm".to_string();
    assert!(matches_folded(&name, Some(&desc), Some(&lang), Some(&amm), Some(&go), Some(&go)));
    assert!(!matches_folded(&name, Some(&desc), Some(&lang), None, None, Some(&golang)));
    assert!(!matches_folded(&name, None, Some(&lang), None, Some(&go), None));
    assert!(matches_folded(&name, None, None, None, None, None));
    let upper = "GO".to_string();
    assert!(!matches_folded(&name, Some(&desc), Some(&lang), None, None, Some(&upper)));
}
