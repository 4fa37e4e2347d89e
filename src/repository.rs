use vstd::prelude::*;

use crate::text::{contains_str, is_infix, lower_of, lowercase};

verus! {

/// One repository of a search result.
pub struct Repository {
    pub name: String,
    pub description: Option<String>,
    pub language: Option<String>,
}

/// A decoded search response: its repositories, in the order the service gave.
pub struct Repositories {
    pub items: Vec<Repository>,
}

/// The characters of an optional string slice.
pub open spec fn opt_chars(o: Option<&str>) -> Option<Seq<char>> {
    match o {
        Some(s) => Some(s@),
        None => None,
    }
}

/// The characters of an optional borrowed string.
pub open spec fn opt_ref_chars(o: Option<&String>) -> Option<Seq<char>> {
    match o {
        Some(s) => Some(s@),
        None => None,
    }
}

/// The characters of an optional owned string.
pub open spec fn opt_string_chars(o: Option<String>) -> Option<Seq<char>> {
    match o {
        Some(s) => Some(s@),
        None => None,
    }
}

/// The lowercase form of an optional sequence of characters.
pub open spec fn opt_lower(o: Option<Seq<char>>) -> Option<Seq<char>> {
    match o {
        Some(s) => Some(lower_of(s)),
        None => None,
    }
}

/// The matching rule on values that are already lowercase: an absent criterion
/// passes; `title` occurs in the name; `description` occurs in a present
/// description; `language` equals a present language.
pub open spec fn folded_match(
    name: Seq<char>,
    description: Option<Seq<char>>,
    language: Option<Seq<char>>,
    title_q: Option<Seq<char>>,
    description_q: Option<Seq<char>>,
    language_q: Option<Seq<char>>,
) -> bool {
    &&& match title_q {
        Some(q) => is_infix(q, name),
        None => true,
    }
    &&& match description_q {
        Some(q) => match description {
            Some(d) => is_infix(q, d),
            None => false,
        },
        None => true,
    }
    &&& match language_q {
        Some(q) => match language {
            Some(l) => l == q,
            None => false,
        },
        None => true,
    }
}

/// Whether a repository meets the criteria, all compared case-insensitively.
pub open spec fn repo_matches(
    r: Repository,
    title: Option<Seq<char>>,
    description: Option<Seq<char>>,
    language: Option<Seq<char>>,
) -> bool {
    folded_match(
        lower_of(r.name@),
        opt_lower(opt_string_chars(r.description)),
        opt_lower(opt_string_chars(r.language)),
        opt_lower(title),
        opt_lower(description),
        opt_lower(language),
    )
}

/// The repositories of `items` that meet the criteria, in their order.
pub open spec fn filtered(
    items: Seq<Repository>,
    title: Option<Seq<char>>,
    description: Option<Seq<char>>,
    language: Option<Seq<char>>,
) -> Seq<Repository> {
    items.filter(criteria(title, description, language))
}

/// The criteria as a predicate on repositories.
pub open spec fn criteria(
    title: Option<Seq<char>>,
    description: Option<Seq<char>>,
    language: Option<Seq<char>>,
) -> spec_fn(Repository) -> bool {
    |r: Repository| repo_matches(r, title, description, language)
}

/// Filtering a sequence with one more element at its end keeps the filtered
/// prefix and adds the element when it passes.
proof fn lemma_filter_push(s: Seq<Repository>, x: Repository, pred: spec_fn(Repository) -> bool)
    ensures
        s.push(x).filter(pred) == (if pred(x) {
            s.filter(pred).push(x)
        } else {
            s.filter(pred)
        }),
{
    reveal_with_fuel(Seq::filter, 1);
    assert(s.push(x).drop_last() =~= s);
}

/// Decides `folded_match` on strings that are already lowercase.
pub fn matches_folded(
    name: &String,
    description: Option<&String>,
    language: Option<&String>,
    title_q: Option<&String>,
    description_q: Option<&String>,
    language_q: Option<&String>,
) -> (r: bool)
    ensures
        r == folded_match(
            name@,
            opt_ref_chars(description),
            opt_ref_chars(language),
            opt_ref_chars(title_q),
            opt_ref_chars(description_q),
            opt_ref_chars(language_q),
        ),
{
    let title_ok = match title_q {
        Some(q) => contains_str(name.as_str(), q.as_str()),
        None => true,
    };
    let description_ok = match description_q {
        Some(q) => match description {
            Some(d) => contains_str(d.as_str(), q.as_str()),
            None => false,
        },
        None => true,
    };
    let language_ok = match language_q {
        Some(q) => match language {
            Some(l) => *l == *q,
            None => false,
        },
        None => true,
    };
    title_ok && description_ok && language_ok
}

/// With no criterion given, filtering keeps every repository, in order.
pub proof fn lemma_no_criteria_keeps_all(items: Seq<Repository>)
    ensures
        filtered(items, None, None, None) == items,
    decreases items.len(),
{
    if items.len() > 0 {
        let rest = items.drop_last();
        lemma_no_criteria_keeps_all(rest);
        assert(rest.push(items.last()) =~= items);
        lemma_filter_push(rest, items.last(), criteria(None, None, None));
    }
}

/// When a description criterion is given, a repository without a description
/// never survives the filter.
pub proof fn lemma_missing_description_excluded(
    items: Seq<Repository>,
    title: Option<Seq<char>>,
    description: Seq<char>,
    language: Option<Seq<char>>,
    r: Repository,
)
    requires
        r.description is None,
    ensures
        !filtered(items, title, Some(description), language).contains(r),
{
    broadcast use Seq::lemma_filter_pred;

    let out = filtered(items, title, Some(description), language);
    if out.contains(r) {
        let k = choose|k: int| 0 <= k < out.len() && out[k] == r;
        assert(criteria(title, Some(description), language)(out[k]));
    }
}

/// The language criterion alone passes exactly the repositories whose language
/// is present and equal to it once both are lowercase: equality, not
/// containment.
pub proof fn lemma_language_is_exact(r: Repository, language: Seq<char>)
    ensures
        repo_matches(r, None, None, Some(language)) == match r.language {
            Some(l) => lower_of(l@) == lower_of(language),
            None => false,
        },
{
}

/// Positions in `items`, strictly increasing, of the elements of `out`.
pub open spec fn is_ordered_selection(out: Seq<Repository>, items: Seq<Repository>, idx: Seq<int>) -> bool {
    &&& idx.len() == out.len()
    &&& forall|k: int| 0 <= k < idx.len() ==> 0 <= #[trigger] idx[k] < items.len() && out[k] == items[idx[k]]
    &&& forall|j: int, k: int| 0 <= j < k < idx.len() ==> #[trigger] idx[j] < #[trigger] idx[k]
}

/// Positions of the survivors of a filter, in increasing order.
proof fn filter_positions(items: Seq<Repository>, pred: spec_fn(Repository) -> bool) -> (idx: Seq<int>)
    ensures
        is_ordered_selection(items.filter(pred), items, idx),
    decreases items.len(),
{
    if items.len() == 0 {
        reveal_with_fuel(Seq::filter, 1);
        Seq::empty()
    } else {
        let rest = items.drop_last();
        let x = items.last();
        let prev = filter_positions(rest, pred);
        assert(rest.push(x) =~= items);
        lemma_filter_push(rest, x, pred);
        if pred(x) {
            let idx = prev.push(items.len() - 1);
            assert forall|k: int| 0 <= k < idx.len() implies 0 <= #[trigger] idx[k] < items.len()
                && items.filter(pred)[k] == items[idx[k]] by {
                if k < prev.len() {
                    assert(idx[k] == prev[k]);
                }
            }
            assert forall|j: int, k: int| 0 <= j < k < idx.len() implies #[trigger] idx[j] < #[trigger] idx[k] by {
                assert(idx[j] == prev[j]);
                if k < prev.len() {
                    assert(idx[k] == prev[k]);
                }
            }
            idx
        } else {
            prev
        }
    }
}

/// Filtering never reorders: the survivors stand at strictly increasing
/// positions of the original sequence.
pub proof fn lemma_filter_keeps_order(
    items: Seq<Repository>,
    title: Option<Seq<char>>,
    description: Option<Seq<char>>,
    language: Option<Seq<char>>,
)
    ensures
        exists|idx: Seq<int>| is_ordered_selection(filtered(items, title, description, language), items, idx),
{
    let idx = filter_positions(items, criteria(title, description, language));
    assert(is_ordered_selection(filtered(items, title, description, language), items, idx));
}

/// The lowercase form of an optional string.
fn lower_opt(o: Option<&str>) -> (r: Option<String>)
    ensures
        opt_string_chars(r) == opt_lower(opt_chars(o)),
{
    match o {
        Some(s) => Some(lowercase(s)),
        None => None,
    }
}

impl Repository {
    /// Whether this repository meets the criteria: `title` occurs in the name,
    /// `description` occurs in the description, `language` equals the
    /// language, each compared case-insensitively and each passing when absent.
    /// A criterion on a field that the repository lacks fails.
    pub fn matches(&self, title: Option<&str>, description: Option<&str>, language: Option<&str>) -> (r: bool)
        ensures
            r == repo_matches(*self, opt_chars(title), opt_chars(description), opt_chars(language)),
    {
        let title_q = lower_opt(title);
        let description_q = lower_opt(description);
        let language_q = lower_opt(language);
        self.matches_lowered(&title_q, &description_q, &language_q)
    }

    /// Whether this repository meets criteria that are already lowercase.
    fn matches_lowered(
        &self,
        title_q: &Option<String>,
        description_q: &Option<String>,
        language_q: &Option<String>,
    ) -> (r: bool)
        ensures
            r == folded_match(
                lower_of(self.name@),
                opt_lower(opt_string_chars(self.description)),
                opt_lower(opt_string_chars(self.language)),
                opt_string_chars(*title_q),
                opt_string_chars(*description_q),
                opt_string_chars(*language_q),
            ),
    {
        let name = lowercase(self.name.as_str());
        let description = match &self.description {
            Some(d) => Some(lowercase(d.as_str())),
            None => None,
        };
        let language = match &self.language {
            Some(l) => Some(lowercase(l.as_str())),
            None => None,
        };
        matches_folded(
            &name,
            description.as_ref(),
            language.as_ref(),
            title_q.as_ref(),
            description_q.as_ref(),
            language_q.as_ref(),
        )
    }
}

/// The repositories of the search result that meet every criterion given, in
/// the order of the result. An absent criterion passes every repository.
pub fn filter_repositories(
    repositories: Repositories,
    title: Option<&str>,
    description: Option<&str>,
    language: Option<&str>,
) -> (r: Vec<Repository>)
    ensures
        r@ == filtered(
            repositories.items@,
            opt_chars(title),
            opt_chars(description),
            opt_chars(language),
        ),
{
    let ghost all = repositories.items@;
    let ghost pred = criteria(opt_chars(title), opt_chars(description), opt_chars(language));
    let title_q = lower_opt(title);
    let description_q = lower_opt(description);
    let language_q = lower_opt(language);
    let mut items = repositories.items;
    let mut kept: Vec<Repository> = Vec::new();
    let ghost mut done: int = 0;
    while items.len() > 0
        invariant
            0 <= done <= all.len(),
            items@ == all.subrange(done, all.len() as int),
            kept@ == all.subrange(0, done).filter(pred),
            pred == criteria(opt_chars(title), opt_chars(description), opt_chars(language)),
            opt_string_chars(title_q) == opt_lower(opt_chars(title)),
            opt_string_chars(description_q) == opt_lower(opt_chars(description)),
            opt_string_chars(language_q) == opt_lower(opt_chars(language)),
        decreases items.len(),
    {
        let repo = items.remove(0);
        let keep = repo.matches_lowered(&title_q, &description_q, &language_q);
        proof {
            assert(all.subrange(0, done + 1) =~= all.subrange(0, done).push(repo));
            lemma_filter_push(all.subrange(0, done), repo, pred);
            done = done + 1;
            assert(items@ =~= all.subrange(done, all.len() as int));
        }
        if keep {
            kept.push(repo);
        }
    }
    proof {
        assert(all.subrange(0, done) =~= all);
    }
    kept
}

} // verus!
