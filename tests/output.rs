use repo_search::render::{render_all, render_repo, search_output, RequestError};
use repo_search::repository::{Repositories, Repository};

fn repo(name: &str, description: Option<&str>, language: Option<&str>) -> Repository {
    Repository {
        name: name.to_string(),
        description: description.map(|d| d.to_string()),
        language: language.map(|l| l.to_string()),
    }
}

#[test]
fn render_full_repository() {
    let text = render_repo(&repo("alpha", Some("a tool"), Some("Rust")));
    assert_eq!(
        text,
        "Repository Name: alpha\nDescription: a tool\nLanguage: Rust\n---"
    );
}

#[test]
fn render_placeholders_for_absent_fields() {
    let text = render_repo(&repo("beta", None, None));
    let lines: Vec<&str> = text.lines().collect();
    assert_eq!(
        lines,
        vec![
            "Repository Name: beta",
            "Description: No description",
            "Language: No language specified",
            "---"
        ]
    );
}

#[test]
fn render_all_keeps_order() {
    let blocks = render_all(&vec![repo("a", None, Some("Go")), repo("b", Some("d"), None)]);
    assert_eq!(blocks.len(), 2);
    assert!(blocks[0].starts_with("Repository Name: a\n"));
    assert!(blocks[1].contains("Language: No language specified"));
}

#[test]
fn search_output_filters_and_renders() {
    let fetched = Ok(Repositories {
        items: vec![
            repo("alpha", Some("a tool"), Some("Rust")),
            repo("beta", None, Some("Go")),
            repo("gamma", Some("a Go utility"), Some("Go")),
        ],
    });
    let blocks = search_output(fetched, None, None, Some("go")).unwrap();
    assert_eq!(
        blocks,
        vec![
            "Repository Name: beta\nDescription: No description\nLanguage: Go\n---".to_string(),
            "Repository Name: gamma\nDescription: a Go utility\nLanguage: Go\n---".to_string(),
        ]
    );
}

#[test]
fn search_output_with_no_match_is_empty_success() {
    let fetched = Ok(Repositories {
        items: vec![repo("alpha", Some("a tool"), Some("Rust"))],
    });
    let blocks = search_output(fetched, Some("ZETA"), None, None).unwrap();
    assert!(blocks.is_empty());
}

#[test]
fn search_output_on_failed_search_shows_nothing() {
    let fetched = Err(RequestError {
        message: "error decoding response body".to_string(),
    });
    let out = search_output(fetched, None, None, None);
    match out {
        Err(e) => assert_eq!(e.message, "error decoding response body"),
        Ok(_) => panic!("a failed search must not produce output"),
    }
}
