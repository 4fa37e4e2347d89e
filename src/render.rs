use vstd::prelude::*;

use crate::text::is_infix;
use crate::repository::{filter_repositories, filtered, opt_chars, Repositories, Repository};

verus! {

/// The text shown for an optional field, with `fallback` when it is absent.
pub open spec fn field_text(o: Option<String>, fallback: Seq<char>) -> Seq<char> {
    match o {
        Some(s) => s@,
        None => fallback,
    }
}

/// The block that shows one repository: its name, its description, its
/// language, and a separator line.
pub open spec fn rendered(r: Repository) -> Seq<char> {
    "Repository Name: "@ + r.name@ + "\nDescription: "@ + field_text(r.description, "No description"@)
        + "\nLanguage: "@ + field_text(r.language, "No language specified"@) + "\n---"@
}

/// A repository without a description shows the line
/// `Description: No description`, and one without a language shows the line
/// `Language: No language specified`.
pub proof fn lemma_absent_fields_show_placeholders(r: Repository)
    ensures
        r.description is None ==> is_infix("\nDescription: No description\n"@, rendered(r)),
        r.language is None ==> is_infix("\nLanguage: No language specified\n"@, rendered(r)),
{
    reveal_strlit("Repository Name: ");
    reveal_strlit("\nDescription: ");
    reveal_strlit("No description");
    reveal_strlit("\nLanguage: ");
    reveal_strlit("No language specified");
    reveal_strlit("\n---");
    reveal_strlit("\nDescription: No description\n");
    reveal_strlit("\nLanguage: No language specified\n");
    let text = rendered(r);
    let head = "Repository Name: "@ + r.name@;
    let middle = head + "\nDescription: "@ + field_text(r.description, "No description"@);
    if r.description is None {
        let n = "\nDescription: No description\n"@.len();
        assert(text.subrange(head.len() as int, head.len() + n as int) =~= "\nDescription: No description\n"@);
    }
    if r.language is None {
        let n = "\nLanguage: No language specified\n"@.len();
        assert(text.subrange(middle.len() as int, middle.len() + n as int) =~= "\nLanguage: No language specified\n"@);
    }
}

/// Renders one repository as a block of four lines, without a final line
/// break; an absent description or language is shown by a fixed placeholder.
pub fn render_repo(repo: &Repository) -> (r: String)
    ensures
        r@ == rendered(*repo),
{
    let mut out = String::from_str("Repository Name: ");
    out.append(repo.name.as_str());
    out.append("\nDescription: ");
    match &repo.description {
        Some(d) => out.append(d.as_str()),
        None => out.append("No description"),
    }
    out.append("\nLanguage: ");
    match &repo.language {
        Some(l) => out.append(l.as_str()),
        None => out.append("No language specified"),
    }
    out.append("\n---");
    out
}

/// A failed search: the transport failed, the service answered with an error
/// status, or the body could not be decoded.
#[derive(Debug)]
pub struct RequestError {
    pub message: String,
}

/// The blocks of the repositories, one for each, in order.
pub fn render_all(repos: &Vec<Repository>) -> (r: Vec<String>)
    ensures
        r@.len() == repos@.len(),
        forall|i: int| 0 <= i < repos@.len() ==> #[trigger] r@[i]@ == rendered(repos@[i]),
{
    let mut out: Vec<String> = Vec::new();
    let mut i: usize = 0;
    while i < repos.len()
        invariant
            i <= repos@.len(),
            out@.len() == i,
            forall|k: int| 0 <= k < i ==> #[trigger] out@[k]@ == rendered(repos@[k]),
        decreases repos@.len() - i,
    {
        out.push(render_repo(&repos[i]));
        i = i + 1;
    }
    out
}

/// What a search shows once the response is in: when the search failed, its
/// error and no block at all; otherwise the block of each repository that
/// meets the criteria, in the order of the response.
pub fn search_output(
    fetched: Result<Repositories, RequestError>,
    title: Option<&str>,
    description: Option<&str>,
    language: Option<&str>,
) -> (r: Result<Vec<String>, RequestError>)
    ensures
        fetched is Err ==> r is Err && r->Err_0 == fetched->Err_0,
        fetched is Ok ==> r is Ok && ({
            let kept = filtered(
                fetched->Ok_0.items@,
                opt_chars(title),
                opt_chars(description),
                opt_chars(language),
            );
            let blocks = r->Ok_0@;
            &&& blocks.len() == kept.len()
            &&& forall|i: int| 0 <= i < kept.len() ==> #[trigger] blocks[i]@ == rendered(kept[i])
        }),
{
    match fetched {
        Err(e) => Err(e),
        Ok(repositories) => {
            let kept = filter_repositories(repositories, title, description, language);
            Ok(render_all(&kept))
        },
    }
}

} // verus!
