//! Picking the projects whose names match a filter, best match first.

use crate::order::{is_stable_sort, stable_sort, Ranked};
use crate::toggl::Project;
use vstd::prelude::*;
use vstd::utf8::encode_utf8;

verus! {

/// The most bytes that a name or a filter may have to be scored. The matcher
/// adds up its scores in 32 bits; texts within this limit cannot take the sum
/// out of them.
pub const MATCH_LIMIT: usize = 1048576;

/// The score that the skim matcher gives to `choice` for `pattern`, with the
/// settings it has by default: none where `choice` does not match.
pub uninterp spec fn skim_score(choice: Seq<char>, pattern: Seq<char>) -> Option<i64>;

/// Whether `s` is short enough to be scored.
pub open spec fn within_limit(s: Seq<char>) -> bool {
    encode_utf8(s).len() <= MATCH_LIMIT
}

/// The score of `choice` for `pattern`. A text beyond `MATCH_LIMIT` is not
/// scored and matches nothing.
pub open spec fn match_score(choice: Seq<char>, pattern: Seq<char>) -> Option<i64> {
    if within_limit(choice) && within_limit(pattern) {
        skim_score(choice, pattern)
    } else {
        None
    }
}

/// The score of `choice` for `pattern`; none where it does not match.
pub fn fuzzy_score(choice: &str, pattern: &str) -> (r: Option<i64>)
    ensures
        r == match_score(choice@, pattern@),
{
    if choice.as_bytes().len() <= MATCH_LIMIT && pattern.as_bytes().len() <= MATCH_LIMIT {
        skim_match(choice, pattern)
    } else {
        None
    }
}

/// A project that matched, with its score.
#[derive(Debug, Clone, PartialEq, Eq)]
pub struct Scored {
    pub score: i64,
    pub project: Project,
}

/// Matches rank by score, the highest first.
impl Ranked for Scored {
    open spec fn outranks(&self, other: &Self) -> bool {
        self.score > other.score
    }

    fn is_ahead_of(&self, other: &Self) -> (r: bool) {
        self.score > other.score
    }

    proof fn lemma_ranking(a: &Self, b: &Self, c: &Self) {
    }
}

/// The projects among `projects` whose names match `pattern`, each with its
/// score, in the order they have in `projects`.
pub open spec fn scored_matches(projects: Seq<Project>, pattern: Seq<char>) -> Seq<Scored>
    decreases projects.len(),
{
    if projects.len() == 0 {
        Seq::empty()
    } else {
        let earlier = scored_matches(projects.drop_last(), pattern);
        match match_score(projects.last().name@, pattern) {
            Some(score) => earlier.push(Scored { score, project: projects.last() }),
            None => earlier,
        }
    }
}

/// The projects of `scored`, without their scores.
pub open spec fn projects_of(scored: Seq<Scored>) -> Seq<Project> {
    Seq::new(scored.len(), |i: int| scored[i].project)
}

/// Scores every project against `pattern` and keeps those that match.
pub fn score_projects(projects: Vec<Project>, pattern: &str) -> (r: Vec<Scored>)
    ensures
        r@ == scored_matches(projects@, pattern@),
{
    let ghost input = projects@;
    let mut scored: Vec<Scored> = Vec::new();
    for project in it: projects
        invariant
            it.seq() == input,
            scored@ == scored_matches(input.take(it.index() as int), pattern@),
    {
        proof {
            assert(input.take(it.index() + 1).drop_last() =~= input.take(it.index() as int));
        }
        if let Some(score) = fuzzy_score(project.name.as_str(), pattern) {
            scored.push(Scored { score, project });
        }
    }
    proof {
        assert(input.take(input.len() as int) =~= input);
    }
    scored
}

/// Sorts the matches, the best first, and drops the scores. Matches of one
/// score stay in the order they have.
pub fn rank(scored: Vec<Scored>) -> (r: Vec<Project>)
    ensures
        exists|sorted: Seq<Scored>| is_stable_sort(scored@, sorted) && r@ == projects_of(sorted),
{
    let sorted = stable_sort(scored);
    let ghost witness = sorted@;
    let mut projects: Vec<Project> = Vec::new();
    for entry in it: sorted
        invariant
            it.seq() == witness,
            projects@ == projects_of(witness.take(it.index() as int)),
    {
        proof {
            assert(projects@.push(entry.project) =~= projects_of(witness.take(it.index() + 1)));
        }
        projects.push(entry.project);
    }
    proof {
        assert(witness.take(witness.len() as int) =~= witness);
    }
    projects
}

/// The projects whose names match `pattern`, the best match first; matches
/// of one score stay in the order they have in `projects`.
pub fn filter_projects(projects: Vec<Project>, pattern: &str) -> (r: Vec<Project>)
    ensures
        exists|sorted: Seq<Scored>|
            is_stable_sort(scored_matches(projects@, pattern@), sorted) && r@ == projects_of(
                sorted,
            ),
{
    rank(score_projects(projects, pattern))
}

/// `fuzzy_matcher::skim::SkimMatcherV2::fuzzy_match`, called on a matcher
/// with the default settings that is made for the call. Taken on trust: the
/// score depends on the two texts alone, which is what `skim_score` names.
/// The matcher sums its scores in `i32` and panics where a sum leaves it;
/// with both texts within `MATCH_LIMIT` no sum can.
#[verifier::external_body]
fn skim_match(choice: &str, pattern: &str) -> (r: Option<i64>)
    requires
        within_limit(choice@),
        within_limit(pattern@),
    ensures
        r == skim_score(choice@, pattern@),
{
    fuzzy_matcher::FuzzyMatcher::fuzzy_match(
        &fuzzy_matcher::skim::SkimMatcherV2::default(),
        choice,
        pattern,
    )
}

} // verus!
