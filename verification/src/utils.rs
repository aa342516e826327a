//! Reading the capture groups of one line.

use vstd::prelude::*;
use crate::pattern::{Pattern, regex_captures, captures_of, captures_view, groups_view};

verus! {

/// The text of an optional string.
pub open spec fn opt_view(o: Option<String>) -> Option<Seq<char>> {
    match o {
        Some(s) => Some(s@),
        None => None,
    }
}

/// The text of each line.
pub open spec fn line_views(lines: Seq<String>) -> Seq<Seq<char>> {
    lines.map_values(|l: String| l@)
}

/// What reading capture group 1 of a match gives: `Some(None)` when nothing
/// matched, `Some(Some(text))` for the text of group 1, and `None` when the
/// match does not have exactly one group besides the whole match, or group 1
/// took no part in it (reading it then fails).
pub open spec fn group_one_of(captures: Option<Seq<Option<Seq<char>>>>) -> Option<Option<Seq<char>>> {
    match captures {
        None => Some(None),
        Some(g) => if g.len() == 2 && g[1] is Some {
            Some(Some(g[1]->0))
        } else {
            None
        },
    }
}

/// As `group_one_of`, for a match with exactly two groups besides the whole
/// match: `Some(Some((group 1, group 2)))`.
pub open spec fn groups_one_two_of(captures: Option<Seq<Option<Seq<char>>>>) -> Option<Option<(Seq<char>, Seq<char>)>> {
    match captures {
        None => Some(None),
        Some(g) => if g.len() == 3 && g[1] is Some && g[2] is Some {
            Some(Some((g[1]->0, g[2]->0)))
        } else {
            None
        },
    }
}

/// What reading capture group 1 of `pattern` on `line` gives (see `group_one_of`).
pub open spec fn spec_extract_simple(pattern: Seq<char>, line: Seq<char>) -> Option<Option<Seq<char>>> {
    group_one_of(regex_captures(pattern, line))
}

/// What reading capture groups 1 and 2 of `pattern` on `line` gives (see
/// `groups_one_two_of`).
pub open spec fn spec_extract_two(pattern: Seq<char>, line: Seq<char>) -> Option<Option<(Seq<char>, Seq<char>)>> {
    groups_one_two_of(regex_captures(pattern, line))
}

/// Reading group 1 of a line finds group 1 of the regex's match, whatever its
/// text: when the regex matches with exactly one group and that group took
/// part, the reading is that group's text; it reads "no match" exactly when
/// the regex does not match the line; and a text it finds is always group 1
/// of the match.
pub proof fn lemma_extract_simple_match(pattern: Seq<char>, line: Seq<char>)
    ensures
        regex_captures(pattern, line) matches Some(g) ==> (g.len() == 2 && g[1] is Some
            ==> spec_extract_simple(pattern, line) == Some(Some(g[1]->0))),
        spec_extract_simple(pattern, line) == Some(None::<Seq<char>>) <==> regex_captures(pattern, line) is None,
        spec_extract_simple(pattern, line) matches Some(Some(t)) ==> (regex_captures(pattern, line) matches Some(g)
            && g.len() == 2 && g[1] == Some(t)),
{
}

/// Reading groups 1 and 2 of a line finds groups 1 and 2 of the regex's
/// match, whatever their texts: when the regex matches with exactly two
/// groups and both took part, the reading is their two texts; it reads "no
/// match" exactly when the regex does not match the line; and texts it finds
/// are always groups 1 and 2 of the match.
pub proof fn lemma_extract_two_match(pattern: Seq<char>, line: Seq<char>)
    ensures
        regex_captures(pattern, line) matches Some(g) ==> (g.len() == 3 && g[1] is Some && g[2] is Some
            ==> spec_extract_two(pattern, line) == Some(Some((g[1]->0, g[2]->0)))),
        spec_extract_two(pattern, line) == Some(None::<(Seq<char>, Seq<char>)>) <==> regex_captures(pattern, line) is None,
        spec_extract_two(pattern, line) matches Some(Some(t)) ==> (regex_captures(pattern, line) matches Some(g)
            && g.len() == 3 && g[1] == Some(t.0) && g[2] == Some(t.1)),
{
}

/// The text of an optional pair of strings.
pub open spec fn pair_view(p: Option<(String, String)>) -> Option<(Seq<char>, Seq<char>)> {
    match p {
        Some((a, b)) => Some((a@, b@)),
        None => None,
    }
}

/// Reads capture group 1 from the groups of a match (`None`: no match); see
/// `group_one_of`.
pub fn group_one(captures: Option<Vec<Option<String>>>) -> (r: Option<Option<String>>)
    ensures
        match r {
            None => group_one_of(captures_view(captures)) is None,
            Some(x) => group_one_of(captures_view(captures)) == Some(opt_view(x)),
        },
{
    match captures {
        None => Some(None),
        Some(groups) => {
            if groups.len() == 2 {
                let ghost g = groups_view(groups@);
                assert(g[1] == opt_view(groups@[1]));
                match &groups[1] {
                    Some(text) => Some(Some(text.clone())),
                    None => None,
                }
            } else {
                None
            }
        },
    }
}

/// Reads capture groups 1 and 2 from the groups of a match (`None`: no
/// match); see `groups_one_two_of`.
pub fn groups_one_two(captures: Option<Vec<Option<String>>>) -> (r: Option<Option<(String, String)>>)
    ensures
        match r {
            None => groups_one_two_of(captures_view(captures)) is None,
            Some(x) => groups_one_two_of(captures_view(captures)) == Some(pair_view(x)),
        },
{
    match captures {
        None => Some(None),
        Some(groups) => {
            if groups.len() == 3 {
                let ghost g = groups_view(groups@);
                assert(g[1] == opt_view(groups@[1]));
                assert(g[2] == opt_view(groups@[2]));
                match (&groups[1], &groups[2]) {
                    (Some(a), Some(b)) => Some(Some((a.clone(), b.clone()))),
                    _ => None,
                }
            } else {
                None
            }
        },
    }
}

/// The text of capture group 1 of the first match of `regex` in `line`, or
/// `None` when there is no match.
pub fn extract_regex_simple(regex: &Pattern, line: &String) -> (r: Option<String>)
    requires
        spec_extract_simple(regex@, line@) is Some,
    ensures
        Some(opt_view(r)) == spec_extract_simple(regex@, line@),
{
    match group_one(captures_of(regex, line.as_str())) {
        Some(found) => found,
        None => None,
    }
}

/// `None` when reading group 1 of the match would fail (see
/// `spec_extract_simple`); else `Some` of what `extract_regex_simple` returns.
pub fn try_extract_regex_simple(regex: &Pattern, line: &String) -> (r: Option<Option<String>>)
    ensures
        match r {
            None => spec_extract_simple(regex@, line@) is None,
            Some(x) => spec_extract_simple(regex@, line@) == Some(opt_view(x)),
        },
{
    match group_one(captures_of(regex, line.as_str())) {
        None => None,
        Some(_) => Some(extract_regex_simple(regex, line)),
    }
}

/// The texts of capture groups 1 and 2 of the first match of `regex` in
/// `line`, or `None` when there is no match.
pub fn extract_regex_two(regex: &Pattern, line: &String) -> (r: Option<(String, String)>)
    requires
        spec_extract_two(regex@, line@) is Some,
    ensures
        Some(pair_view(r)) == spec_extract_two(regex@, line@),
{
    match groups_one_two(captures_of(regex, line.as_str())) {
        Some(found) => found,
        None => None,
    }
}

/// `None` when reading groups 1 and 2 of the match would fail (see
/// `spec_extract_two`); else `Some` of what `extract_regex_two` returns.
pub fn try_extract_regex_two(regex: &Pattern, line: &String) -> (r: Option<Option<(String, String)>>)
    ensures
        match r {
            None => spec_extract_two(regex@, line@) is None,
            Some(x) => spec_extract_two(regex@, line@) == Some(pair_view(x)),
        },
{
    match groups_one_two(captures_of(regex, line.as_str())) {
        None => None,
        Some(_) => Some(extract_regex_two(regex, line)),
    }
}

} // verus!
