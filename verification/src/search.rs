//! The search engine: keeps, in order, the lines of the contents that match
//! the query, either by exact substring containment or case-insensitively.

use vstd::prelude::*;

use crate::config::Config;
use crate::fold::fold_seq;
use crate::fold::lemma_fold_preserves_contains;
use crate::fold::lower_str;
use crate::lines::split_lines;
use crate::text::contains_seq;
use crate::text::contains_str;

verus! {

/// Whether a line matches the query: by exact containment when
/// `case_sensitive` holds, otherwise by containment of the folded query in
/// the folded line.
pub open spec fn line_matches(line: Seq<char>, query: Seq<char>, case_sensitive: bool) -> bool {
    if case_sensitive {
        contains_seq(line, query)
    } else {
        contains_seq(fold_seq(line), fold_seq(query))
    }
}

/// The lines among `lines` that match `query`, in order, duplicates kept.
pub open spec fn matching_lines(lines: Seq<Seq<char>>, query: Seq<char>, case_sensitive: bool) -> Seq<
    Seq<char>,
>
    decreases lines.len(),
{
    if lines.len() == 0 {
        Seq::empty()
    } else {
        let rest = matching_lines(lines.drop_last(), query, case_sensitive);
        if line_matches(lines.last(), query, case_sensitive) {
            rest.push(lines.last())
        } else {
            rest
        }
    }
}

/// What the case-sensitive search returns: the lines of `contents` that
/// contain `query`, in their original order.
pub open spec fn search_spec(query: Seq<char>, contents: Seq<char>) -> Seq<Seq<char>> {
    matching_lines(split_lines(contents), query, true)
}

/// What the case-insensitive search returns: the lines of `contents` whose
/// folded form contains the folded `query`, in their original order.
pub open spec fn search_ci_spec(query: Seq<char>, contents: Seq<char>) -> Seq<Seq<char>> {
    matching_lines(split_lines(contents), query, false)
}

/// The views of a sequence of owned lines.
pub open spec fn views_of(lines: Seq<String>) -> Seq<Seq<char>> {
    lines.map_values(|l: String| l@)
}

/// Case-sensitive search: every line of `contents` that contains `query` as
/// an exact substring, in original order.
pub fn search(query: &str, contents: &str) -> (r: Vec<String>)
    ensures
        views_of(r@) == search_spec(query@, contents@),
{
    let lines = crate::lines::split_into_lines(contents);
    let line_count = lines.len();
    let mut out: Vec<String> = Vec::new();
    let mut i: usize = 0;
    proof {
        assert(views_of(lines@).take(0) =~= Seq::<Seq<char>>::empty());
    }
    while i < line_count
        invariant
            line_count == lines@.len(),
            i <= line_count,
            views_of(lines@) == split_lines(contents@),
            views_of(out@) == matching_lines(views_of(lines@).take(i as int), query@, true),
        decreases line_count - i,
    {
        let matched = contains_str(lines[i].as_str(), query);
        proof {
            assert(views_of(lines@).take(i + 1).drop_last() =~= views_of(lines@).take(i as int));
            assert(views_of(lines@).take(i + 1).last() == lines@[i as int]@);
        }
        if matched {
            let line = lines[i].clone();
            proof {
                assert(views_of(out@.push(line)) =~= views_of(out@).push(line@));
            }
            out.push(line);
        }
        i += 1;
    }
    proof {
        assert(views_of(lines@).take(line_count as int) =~= views_of(lines@));
    }
    out
}

/// Case-insensitive search: every line of `contents` whose case-folded form
/// contains the case-folded `query`, in original order. The query is folded
/// once; folding is a function of the text alone, so this is the same as
/// folding it against each line.
pub fn search_case_insensitive(query: &str, contents: &str) -> (r: Vec<String>)
    ensures
        views_of(r@) == search_ci_spec(query@, contents@),
{
    let folded_query = lower_str(query);
    let lines = crate::lines::split_into_lines(contents);
    let line_count = lines.len();
    let mut out: Vec<String> = Vec::new();
    let mut i: usize = 0;
    proof {
        assert(views_of(lines@).take(0) =~= Seq::<Seq<char>>::empty());
    }
    while i < line_count
        invariant
            line_count == lines@.len(),
            i <= line_count,
            folded_query@ == fold_seq(query@),
            views_of(lines@) == split_lines(contents@),
            views_of(out@) == matching_lines(views_of(lines@).take(i as int), query@, false),
        decreases line_count - i,
    {
        let folded_line = lower_str(lines[i].as_str());
        let matched = contains_str(folded_line.as_str(), folded_query.as_str());
        proof {
            assert(views_of(lines@).take(i + 1).drop_last() =~= views_of(lines@).take(i as int));
            assert(views_of(lines@).take(i + 1).last() == lines@[i as int]@);
        }
        if matched {
            let line = lines[i].clone();
            proof {
                assert(views_of(out@.push(line)) =~= views_of(out@).push(line@));
            }
            out.push(line);
        }
        i += 1;
    }
    proof {
        assert(views_of(lines@).take(line_count as int) =~= views_of(lines@));
    }
    out
}

/// Runs the search the configuration asks for on already-loaded contents:
/// case-sensitive when the flag is set, case-insensitive otherwise.
pub fn run_search(config: &Config, contents: &str) -> (r: Vec<String>)
    ensures
        config.case_sensitive ==> views_of(r@) == search_spec(config.query@, contents@),
        !config.case_sensitive ==> views_of(r@) == search_ci_spec(config.query@, contents@),
{
    if config.case_sensitive {
        search(config.query.as_str(), contents)
    } else {
        search_case_insensitive(config.query.as_str(), contents)
    }
}

/// Soundness and completeness of the kept lines: every kept line matches the
/// query and comes from `lines`, and every line of `lines` that matches the
/// query is kept.
proof fn lemma_matching_lines_exact(lines: Seq<Seq<char>>, query: Seq<char>, case_sensitive: bool)
    ensures
        forall|i: int|
            0 <= i < matching_lines(lines, query, case_sensitive).len() ==> line_matches(
                #[trigger] matching_lines(lines, query, case_sensitive)[i],
                query,
                case_sensitive,
            ) && lines.contains(matching_lines(lines, query, case_sensitive)[i]),
        forall|k: int|
            0 <= k < lines.len() && line_matches(#[trigger] lines[k], query, case_sensitive)
                ==> matching_lines(lines, query, case_sensitive).contains(lines[k]),
    decreases lines.len(),
{
    if lines.len() > 0 {
        let front = lines.drop_last();
        lemma_matching_lines_exact(front, query, case_sensitive);
        let kept = matching_lines(lines, query, case_sensitive);
        let kept_front = matching_lines(front, query, case_sensitive);
        assert(forall|i: int| 0 <= i < front.len() ==> lines[i] == front[i]);
        assert(forall|l: Seq<char>| front.contains(l) ==> lines.contains(l));
        assert(forall|l: Seq<char>| kept_front.contains(l) ==> kept.contains(l)) by {
            assert(forall|i: int| 0 <= i < kept_front.len() ==> kept[i] == kept_front[i]);
        }
        if line_matches(lines.last(), query, case_sensitive) {
            assert(lines.contains(lines.last()));
            assert(kept.contains(lines.last())) by {
                assert(kept[kept.len() - 1] == lines.last());
            }
        }
        assert(forall|k: int|
            0 <= k < lines.len() && line_matches(#[trigger] lines[k], query, case_sensitive)
                ==> kept.contains(lines[k])) by {
            assert(forall|k: int| 0 <= k < lines.len() - 1 ==> lines[k] == front[k]);
        }
    }
}

/// The case-sensitive search returns exactly the matching lines: no returned
/// line lacks the query, and no line of the contents that contains the query
/// is left out.
pub proof fn lemma_search_exact(query: Seq<char>, contents: Seq<char>)
    ensures
        forall|i: int|
            0 <= i < search_spec(query, contents).len() ==> contains_seq(
                #[trigger] search_spec(query, contents)[i],
                query,
            ) && split_lines(contents).contains(search_spec(query, contents)[i]),
        forall|k: int|
            0 <= k < split_lines(contents).len() && contains_seq(
                #[trigger] split_lines(contents)[k],
                query,
            ) ==> search_spec(query, contents).contains(split_lines(contents)[k]),
{
    lemma_matching_lines_exact(split_lines(contents), query, true);
}

/// Every line the case-sensitive search keeps, the case-insensitive search
/// keeps too: an exact occurrence of the query survives case folding.
proof fn lemma_matching_lines_monotone(lines: Seq<Seq<char>>, query: Seq<char>)
    ensures
        forall|l: Seq<char>|
            matching_lines(lines, query, true).contains(l) ==> #[trigger] matching_lines(
                lines,
                query,
                false,
            ).contains(l),
    decreases lines.len(),
{
    if lines.len() > 0 {
        let front = lines.drop_last();
        lemma_matching_lines_monotone(front, query);
        let strict = matching_lines(lines, query, true);
        let folded = matching_lines(lines, query, false);
        let strict_front = matching_lines(front, query, true);
        let folded_front = matching_lines(front, query, false);
        if line_matches(lines.last(), query, true) {
            lemma_fold_preserves_contains(lines.last(), query);
        }
        assert(forall|l: Seq<char>| folded_front.contains(l) ==> folded.contains(l)) by {
            assert(forall|i: int| 0 <= i < folded_front.len() ==> folded[i] == folded_front[i]);
        }
        assert(forall|l: Seq<char>| strict.contains(l) ==> strict_front.contains(l) || l
            == lines.last()) by {
            assert(forall|i: int| 0 <= i < strict_front.len() ==> strict[i] == strict_front[i]);
        }
        if line_matches(lines.last(), query, false) {
            assert(folded.contains(lines.last())) by {
                assert(folded[folded.len() - 1] == lines.last());
            }
        }
    }
}

/// The case-insensitive search returns a superset of the case-sensitive
/// search on the same query and contents.
pub proof fn lemma_case_insensitive_superset(query: Seq<char>, contents: Seq<char>)
    ensures
        forall|l: Seq<char>|
            search_spec(query, contents).contains(l) ==> #[trigger] search_ci_spec(
                query,
                contents,
            ).contains(l),
{
    lemma_matching_lines_monotone(split_lines(contents), query);
}

/// Both searches are functions of query and contents alone: two runs on
/// equal inputs return equal results.
pub proof fn lemma_search_deterministic(
    query_a: Seq<char>,
    contents_a: Seq<char>,
    query_b: Seq<char>,
    contents_b: Seq<char>,
)
    requires
        query_a == query_b,
        contents_a == contents_b,
    ensures
        search_spec(query_a, contents_a) == search_spec(query_b, contents_b),
        search_ci_spec(query_a, contents_a) == search_ci_spec(query_b, contents_b),
{
}

} // verus!
