//! Finding the task name of a work folder, and sweeping task folders.

use vstd::prelude::*;
use crate::pattern::Pattern;
use crate::size::{human_bytes, human_count_bytes};
use crate::utils::{spec_extract_simple, try_extract_regex_simple, line_views, lemma_extract_simple_match};
use crate::pattern::regex_captures;

verus! {

/// Why no task name could be read.
#[derive(Debug)]
pub enum PlungerTaskError {
    /// Reading the file failed.
    Io(std::io::Error),
    /// None of the lines that may be read names the task.
    LineLimitReached,
}

/// Line `i` of a file whose lines are `lines`; past the end a read gives an
/// empty line.
pub open spec fn line_at(lines: Seq<Seq<char>>, i: int) -> Seq<char> {
    if 0 <= i < lines.len() {
        lines[i]
    } else {
        Seq::empty()
    }
}

/// Reading lines `i`, `i + 1`, ... below `limit` until one matches: `Some(Ok(name))`
/// for group 1 of the first matching line, `Some(Err(()))` when none of them
/// matches, `None` when reading group 1 of a match fails first.
pub open spec fn name_search(lines: Seq<Seq<char>>, limit: int, pattern: Seq<char>, i: int) -> Option<Result<Seq<char>, ()>>
    decreases limit - i,
{
    if i >= limit {
        Some(Err(()))
    } else {
        match spec_extract_simple(pattern, line_at(lines, i)) {
            None => None,
            Some(Some(name)) => Some(Ok(name)),
            Some(None) => name_search(lines, limit, pattern, i + 1),
        }
    }
}

/// The search for the line that names a task, one line at a time: the caller
/// reads a line while `wants_line` holds and hands it to `feed`.
pub struct NameLineSearch {
    count: usize,
    limit: usize,
}

/// What a line told the search.
pub enum NameLineStep {
    /// The line names the task.
    Found(String),
    /// The line does not match; read on.
    Continue,
    /// The line matches, but group 1 of the match cannot be read.
    GroupMismatch,
}

impl NameLineSearch {
    /// How many lines did not match so far.
    pub closed spec fn lines_read(self) -> nat {
        self.count as nat
    }

    /// How many lines may be read at most.
    pub closed spec fn limit(self) -> nat {
        self.limit as nat
    }

    /// A search that may read `limit_lines` lines.
    pub fn new(limit_lines: usize) -> (s: NameLineSearch)
        ensures
            s.lines_read() == 0,
            s.limit() == limit_lines,
    {
        NameLineSearch { count: 0, limit: limit_lines }
    }

    /// Whether another line may be read.
    pub fn wants_line(&self) -> (b: bool)
        ensures
            b == (self.lines_read() < self.limit()),
    {
        self.count < self.limit
    }

    /// Takes the next line.
    pub fn feed(&mut self, line: &String, regex: &Pattern) -> (step: NameLineStep)
        requires
            old(self).lines_read() < old(self).limit(),
        ensures
            final(self).limit() == old(self).limit(),
            match spec_extract_simple(regex@, line@) {
                None => step is GroupMismatch && final(self).lines_read() == old(self).lines_read(),
                Some(None) => step is Continue && final(self).lines_read() == old(self).lines_read() + 1,
                Some(Some(name)) => (step matches NameLineStep::Found(s) && s@ == name)
                    && final(self).lines_read() == old(self).lines_read(),
            },
    {
        match try_extract_regex_simple(regex, line) {
            None => NameLineStep::GroupMismatch,
            Some(Some(name)) => NameLineStep::Found(name),
            Some(None) => {
                self.count = self.count + 1;
                NameLineStep::Continue
            },
        }
    }
}

/// Runs a `NameLineSearch` over `lines` (then empty lines past their end):
/// `None` when it stops on a match whose group 1 cannot be read.
fn search_name_line(lines: &Vec<String>, limit_lines: usize, regex: &Pattern) -> (r: Option<Result<String, PlungerTaskError>>)
    ensures
        match name_search(line_views(lines@), limit_lines as int, regex@, 0) {
            None => r is None,
            Some(Ok(name)) => r matches Some(Ok(s)) && s@ == name,
            Some(Err(())) => r matches Some(Err(PlungerTaskError::LineLimitReached)),
        },
{
    let ghost all = line_views(lines@);
    let mut search = NameLineSearch::new(limit_lines);
    let mut i: usize = 0;
    let empty = String::new();
    while search.wants_line()
        invariant
            all == line_views(lines@),
            empty@ == Seq::<char>::empty(),
            search.lines_read() == i,
            search.limit() == limit_lines,
            i <= limit_lines,
            name_search(all, limit_lines as int, regex@, 0)
                == name_search(all, limit_lines as int, regex@, i as int),
        decreases limit_lines - i,
    {
        let line = if i < lines.len() {
            assert(all[i as int] == lines@[i as int]@);
            &lines[i]
        } else {
            &empty
        };
        assert(line@ == line_at(all, i as int));
        match search.feed(line, regex) {
            NameLineStep::Found(name) => {
                return Some(Ok(name));
            },
            NameLineStep::Continue => {
                i = i + 1;
            },
            NameLineStep::GroupMismatch => {
                return None;
            },
        }
    }
    Some(Err(PlungerTaskError::LineLimitReached))
}

/// Group 1 of `regex` in the first of the first `limit_lines` lines of a file
/// (`lines`, then empty lines past its end) that matches `regex`.
pub fn get_name_line(lines: &Vec<String>, limit_lines: usize, regex: &Pattern) -> (r: Result<String, PlungerTaskError>)
    requires
        name_search(line_views(lines@), limit_lines as int, regex@, 0) is Some,
    ensures
        match name_search(line_views(lines@), limit_lines as int, regex@, 0) {
            Some(Ok(name)) => r matches Ok(s) && s@ == name,
            _ => r matches Err(PlungerTaskError::LineLimitReached),
        },
{
    match search_name_line(lines, limit_lines, regex) {
        Some(r) => r,
        None => Err(PlungerTaskError::LineLimitReached),
    }
}

/// `None` when the search of `get_name_line` stops on a match whose group 1
/// cannot be read; else `Some` of what `get_name_line` returns.
pub fn try_get_name_line(lines: &Vec<String>, limit_lines: usize, regex: &Pattern) -> (r: Option<Result<String, PlungerTaskError>>)
    ensures
        match name_search(line_views(lines@), limit_lines as int, regex@, 0) {
            None => r is None,
            Some(Ok(name)) => r matches Some(Ok(s)) && s@ == name,
            Some(Err(())) => r matches Some(Err(PlungerTaskError::LineLimitReached)),
        },
{
    match search_name_line(lines, limit_lines, regex) {
        None => None,
        Some(_) => Some(get_name_line(lines, limit_lines, regex)),
    }
}

/// The name found by the search is group 1 of the first matching line among
/// the lines it may read, and the search fails only when none of them matches.
pub proof fn lemma_name_search_first_match(lines: Seq<Seq<char>>, limit: int, pattern: Seq<char>, i: int)
    requires
        name_search(lines, limit, pattern, i) is Some,
    ensures
        match name_search(lines, limit, pattern, i) {
            Some(Ok(name)) => exists|k: int|
                i <= k < limit
                && spec_extract_simple(pattern, line_at(lines, k)) == Some(Some(name))
                && forall|j: int| i <= j < k ==> #[trigger] spec_extract_simple(pattern, line_at(lines, j)) == Some(None::<Seq<char>>),
            _ => forall|j: int| i <= j < limit ==> #[trigger] spec_extract_simple(pattern, line_at(lines, j)) == Some(None::<Seq<char>>),
        },
    decreases limit - i,
{
    if i < limit {
        if spec_extract_simple(pattern, line_at(lines, i)) == Some(None::<Seq<char>>) {
            lemma_name_search_first_match(lines, limit, pattern, i + 1);
            match name_search(lines, limit, pattern, i) {
                Some(Ok(name)) => {
                    let k = choose|k: int|
                        i + 1 <= k < limit
                        && spec_extract_simple(pattern, line_at(lines, k)) == Some(Some(name))
                        && forall|j: int| i + 1 <= j < k ==> #[trigger] spec_extract_simple(pattern, line_at(lines, j)) == Some(None::<Seq<char>>);
                    assert(forall|j: int| i <= j < k ==> #[trigger] spec_extract_simple(pattern, line_at(lines, j)) == Some(None::<Seq<char>>));
                },
                _ => {},
            }
        }
    }
}

/// The plain values of a table of task sizes.
pub open spec fn size_views(sizes: Seq<(String, u64)>) -> Seq<(Seq<char>, int)> {
    sizes.map_values(|e: (String, u64)| (e.0@, e.1 as int))
}

/// No task name occurs twice in the table.
pub open spec fn names_distinct(entries: Seq<(Seq<char>, int)>) -> bool {
    forall|i: int, j: int| 0 <= i < j < entries.len() ==> #[trigger] entries[i].0 != #[trigger] entries[j].0
}

/// Whether the table has a row for `name`.
pub open spec fn has_name(entries: Seq<(Seq<char>, int)>, name: Seq<char>) -> bool {
    exists|i: int| 0 <= i < entries.len() && #[trigger] entries[i].0 == name
}

/// The bytes counted for `name`, 0 when it has no row.
pub open spec fn size_of(entries: Seq<(Seq<char>, int)>, name: Seq<char>) -> int {
    if has_name(entries, name) {
        entries[choose|i: int| 0 <= i < entries.len() && #[trigger] entries[i].0 == name].1
    } else {
        0
    }
}

/// The table after counting `size` more bytes for `name`: its row grows, or a
/// new row comes last.
pub open spec fn add_size(entries: Seq<(Seq<char>, int)>, name: Seq<char>, size: int) -> Seq<(Seq<char>, int)> {
    if has_name(entries, name) {
        let i = choose|i: int| 0 <= i < entries.len() && #[trigger] entries[i].0 == name;
        entries.update(i, (name, entries[i].1 + size))
    } else {
        entries.push((name, size))
    }
}

/// The table of task sizes after counting, in order, folders of `records`
/// (task name, bytes) from an empty table.
pub open spec fn sweep_tally(records: Seq<(Seq<char>, int)>) -> Seq<(Seq<char>, int)>
    decreases records.len(),
{
    if records.len() == 0 {
        Seq::empty()
    } else {
        add_size(sweep_tally(records.drop_last()), records.last().0, records.last().1)
    }
}

/// The bytes of all folders of `name` among `records`.
pub open spec fn recorded_total(records: Seq<(Seq<char>, int)>, name: Seq<char>) -> int
    decreases records.len(),
{
    if records.len() == 0 {
        0
    } else {
        recorded_total(records.drop_last(), name) + if records.last().0 == name {
            records.last().1
        } else {
            0
        }
    }
}

/// The bytes of the folders among `records` whose task is one of `to_delete`.
pub open spec fn deleted_total(records: Seq<(Seq<char>, int)>, to_delete: Seq<Seq<char>>) -> int
    decreases records.len(),
{
    if records.len() == 0 {
        0
    } else {
        deleted_total(records.drop_last(), to_delete) + if to_delete.contains(records.last().0) {
            records.last().1
        } else {
            0
        }
    }
}

/// The bytes of a folder waiting to be removed, 0 when none waits.
pub open spec fn pending_amount(pending: Option<nat>) -> int {
    match pending {
        Some(n) => n as int,
        None => 0,
    }
}

/// Counting more bytes for a task keeps names distinct, grows that task's
/// count by the bytes and leaves the others.
pub proof fn lemma_add_size(entries: Seq<(Seq<char>, int)>, name: Seq<char>, size: int, other: Seq<char>)
    requires
        names_distinct(entries),
    ensures
        names_distinct(add_size(entries, name, size)),
        has_name(add_size(entries, name, size), other) <==> (has_name(entries, other) || other == name),
        size_of(add_size(entries, name, size), other) == size_of(entries, other) + if other == name { size } else { 0 },
{
    let after = add_size(entries, name, size);
    if has_name(entries, name) {
        let i = choose|i: int| 0 <= i < entries.len() && #[trigger] entries[i].0 == name;
        assert(after[i].0 == name);
        assert forall|a: int, b: int| 0 <= a < b < after.len() implies #[trigger] after[a].0 != #[trigger] after[b].0 by {
            assert(entries[a].0 != entries[b].0);
        }
        if has_name(entries, other) {
            let j = choose|j: int| 0 <= j < entries.len() && #[trigger] entries[j].0 == other;
            assert(after[j].0 == other);
            let k = choose|k: int| 0 <= k < after.len() && #[trigger] after[k].0 == other;
            assert(k == j) by {
                if k != j {
                    assert(entries[k].0 == other);
                }
            }
        } else if has_name(after, other) {
            let k = choose|k: int| 0 <= k < after.len() && #[trigger] after[k].0 == other;
            assert(entries[k].0 == other || k == i);
        }
    } else {
        assert forall|a: int, b: int| 0 <= a < b < after.len() implies #[trigger] after[a].0 != #[trigger] after[b].0 by {
            if b == entries.len() {
                assert(entries[a].0 == after[a].0);
            } else {
                assert(entries[a].0 != entries[b].0);
            }
        }
        if has_name(entries, other) {
            let j = choose|j: int| 0 <= j < entries.len() && #[trigger] entries[j].0 == other;
            assert(after[j].0 == other);
            let k = choose|k: int| 0 <= k < after.len() && #[trigger] after[k].0 == other;
            assert(k == j) by {
                if k != j {
                    if k < entries.len() {
                        assert(entries[k].0 == other);
                    }
                }
            }
        } else if other == name {
            assert(after[entries.len() as int].0 == other);
            let k = choose|k: int| 0 <= k < after.len() && #[trigger] after[k].0 == other;
            assert(k == entries.len()) by {
                if k < entries.len() {
                    assert(entries[k].0 == other);
                }
            }
        } else if has_name(after, other) {
            let k = choose|k: int| 0 <= k < after.len() && #[trigger] after[k].0 == other;
            if k < entries.len() {
                assert(entries[k].0 == other);
            }
        }
    }
}

/// After a sweep, each task has one row, and its row holds the bytes of all
/// of its folders counted.
pub proof fn lemma_sweep_totals(records: Seq<(Seq<char>, int)>, name: Seq<char>)
    ensures
        names_distinct(sweep_tally(records)),
        has_name(sweep_tally(records), name) <==> exists|i: int| 0 <= i < records.len() && #[trigger] records[i].0 == name,
        size_of(sweep_tally(records), name) == recorded_total(records, name),
    decreases records.len(),
{
    if records.len() == 0 {
    } else {
        let prev = records.drop_last();
        lemma_sweep_totals(prev, name);
        lemma_sweep_totals(prev, records.last().0);
        lemma_add_size(sweep_tally(prev), records.last().0, records.last().1, name);
        if exists|i: int| 0 <= i < records.len() && #[trigger] records[i].0 == name {
            let i = choose|i: int| 0 <= i < records.len() && #[trigger] records[i].0 == name;
            if i < prev.len() {
                assert(prev[i].0 == name);
            }
        }
        if exists|i: int| 0 <= i < prev.len() && #[trigger] prev[i].0 == name {
            let i = choose|i: int| 0 <= i < prev.len() && #[trigger] prev[i].0 == name;
            assert(records[i].0 == name);
        }
        assert(records[records.len() - 1] == records.last());
    }
}

/// The bytes in the rows of `entries` whose task is one of `to_delete`.
pub open spec fn rows_total(entries: Seq<(Seq<char>, int)>, to_delete: Seq<Seq<char>>) -> int
    decreases entries.len(),
{
    if entries.len() == 0 {
        0
    } else {
        rows_total(entries.drop_last(), to_delete) + if to_delete.contains(entries.last().0) {
            entries.last().1
        } else {
            0
        }
    }
}

/// Changing the bytes of one row changes the bytes of the rows to delete by
/// as much, when that row is one of them.
proof fn lemma_rows_total_update(entries: Seq<(Seq<char>, int)>, to_delete: Seq<Seq<char>>, i: int, size: int)
    requires
        0 <= i < entries.len(),
    ensures
        rows_total(entries.update(i, (entries[i].0, size)), to_delete) == rows_total(entries, to_delete)
            + if to_delete.contains(entries[i].0) { size - entries[i].1 } else { 0 },
    decreases entries.len(),
{
    let after = entries.update(i, (entries[i].0, size));
    if i == entries.len() - 1 {
        assert(after.drop_last() =~= entries.drop_last());
    } else {
        let prev = entries.drop_last();
        lemma_rows_total_update(prev, to_delete, i, size);
        assert(after.drop_last() =~= prev.update(i, (prev[i].0, size)));
    }
}

/// The bytes freed by a sweep are the bytes reported for the tasks to
/// delete: over the rows of the tasks to delete, the report adds up to the
/// bytes of the folders whose task is one to delete.
pub proof fn lemma_freed_rows(records: Seq<(Seq<char>, int)>, to_delete: Seq<Seq<char>>)
    ensures
        rows_total(sweep_tally(records), to_delete) == deleted_total(records, to_delete),
    decreases records.len(),
{
    if records.len() > 0 {
        let prev = records.drop_last();
        let last = records.last();
        lemma_freed_rows(prev, to_delete);
        let t = sweep_tally(prev);
        if has_name(t, last.0) {
            let i = choose|i: int| 0 <= i < t.len() && #[trigger] t[i].0 == last.0;
            lemma_rows_total_update(t, to_delete, i, t[i].1 + last.1);
        } else {
            assert(t.push((last.0, last.1)).drop_last() =~= t);
        }
    }
}

/// The folders of `records` whose task is not one of `to_delete`, in order:
/// those a sweep leaves in place.
pub open spec fn kept_records(records: Seq<(Seq<char>, int)>, to_delete: Seq<Seq<char>>) -> Seq<(Seq<char>, int)>
    decreases records.len(),
{
    if records.len() == 0 {
        Seq::empty()
    } else if to_delete.contains(records.last().0) {
        kept_records(records.drop_last(), to_delete)
    } else {
        kept_records(records.drop_last(), to_delete).push(records.last())
    }
}

/// The kept folders are the folders of the tasks not to delete.
proof fn lemma_kept_members(records: Seq<(Seq<char>, int)>, to_delete: Seq<Seq<char>>)
    ensures
        forall|i: int| #![trigger kept_records(records, to_delete)[i]] 0 <= i < kept_records(records, to_delete).len() ==>
            !to_delete.contains(kept_records(records, to_delete)[i].0)
            && exists|j: int| 0 <= j < records.len() && #[trigger] records[j] == kept_records(records, to_delete)[i],
        forall|j: int| 0 <= j < records.len() && !to_delete.contains(#[trigger] records[j].0) ==>
            exists|i: int| 0 <= i < kept_records(records, to_delete).len()
                && #[trigger] kept_records(records, to_delete)[i] == records[j],
    decreases records.len(),
{
    if records.len() > 0 {
        let prev = records.drop_last();
        let last = records.last();
        lemma_kept_members(prev, to_delete);
        let kp = kept_records(prev, to_delete);
        let kept = kept_records(records, to_delete);
        assert forall|i: int| #![trigger kept[i]] 0 <= i < kept.len() implies !to_delete.contains(kept[i].0)
            && exists|j: int| 0 <= j < records.len() && #[trigger] records[j] == kept[i] by {
            if i < kp.len() {
                assert(kept[i] == kp[i]);
                let j = choose|j: int| 0 <= j < prev.len() && #[trigger] prev[j] == kp[i];
                assert(records[j] == prev[j]);
            } else {
                assert(kept[i] == last);
                assert(records[records.len() - 1] == last);
            }
        }
        assert forall|j: int| 0 <= j < records.len() && !to_delete.contains(#[trigger] records[j].0) implies
            exists|i: int| 0 <= i < kept.len() && #[trigger] kept[i] == records[j] by {
            if j < prev.len() {
                assert(prev[j] == records[j]);
                let i = choose|i: int| 0 <= i < kp.len() && #[trigger] kp[i] == prev[j];
                assert(kept[i] == kp[i]);
            } else {
                assert(records[j] == last);
                assert(kept[kept.len() - 1] == last);
            }
        }
    }
}

/// Over the kept folders nothing is to delete, and each other task keeps its
/// bytes.
proof fn lemma_kept_totals(records: Seq<(Seq<char>, int)>, to_delete: Seq<Seq<char>>, name: Seq<char>)
    ensures
        deleted_total(kept_records(records, to_delete), to_delete) == 0,
        !to_delete.contains(name) ==> recorded_total(kept_records(records, to_delete), name)
            == recorded_total(records, name),
    decreases records.len(),
{
    if records.len() > 0 {
        let prev = records.drop_last();
        lemma_kept_totals(prev, to_delete, name);
        let kp = kept_records(prev, to_delete);
        if !to_delete.contains(records.last().0) {
            let kept = kept_records(records, to_delete);
            assert(kept.drop_last() =~= kp);
            assert(kept.last() == records.last());
        }
    }
}

/// Sweeping twice removes nothing the second time. The second sweep meets
/// the folders that the first one left, those of the tasks not to delete:
/// none of them is removed, so it frees nothing; it has no row for a task to
/// delete, and every other task has the same row, with the same bytes, as in
/// the first sweep.
pub proof fn lemma_sweep_again(records: Seq<(Seq<char>, int)>, to_delete: Seq<Seq<char>>, name: Seq<char>)
    ensures
        deleted_total(kept_records(records, to_delete), to_delete) == 0,
        to_delete.contains(name) ==> !has_name(sweep_tally(kept_records(records, to_delete)), name),
        !to_delete.contains(name) ==> (has_name(sweep_tally(kept_records(records, to_delete)), name)
            <==> has_name(sweep_tally(records), name)),
        !to_delete.contains(name) ==> size_of(sweep_tally(kept_records(records, to_delete)), name)
            == size_of(sweep_tally(records), name),
{
    let kept = kept_records(records, to_delete);
    lemma_kept_members(records, to_delete);
    lemma_kept_totals(records, to_delete, name);
    lemma_sweep_totals(records, name);
    lemma_sweep_totals(kept, name);
    if exists|i: int| 0 <= i < kept.len() && #[trigger] kept[i].0 == name {
        let i = choose|i: int| 0 <= i < kept.len() && #[trigger] kept[i].0 == name;
        assert(!to_delete.contains(kept[i].0));
        let j = choose|j: int| 0 <= j < records.len() && #[trigger] records[j] == kept[i];
        assert(records[j].0 == name);
    }
    if !to_delete.contains(name) && exists|j: int| 0 <= j < records.len() && #[trigger] records[j].0 == name {
        let j = choose|j: int| 0 <= j < records.len() && #[trigger] records[j].0 == name;
        let i = choose|i: int| 0 <= i < kept.len() && #[trigger] kept[i] == records[j];
        assert(kept[i].0 == name);
    }
}

/// The search goes on past lines the regex does not match.
proof fn lemma_name_search_skips(lines: Seq<Seq<char>>, limit: int, pattern: Seq<char>, i: int, k: int)
    requires
        0 <= i <= k < limit,
        forall|j: int| i <= j < k ==> #[trigger] regex_captures(pattern, line_at(lines, j)) is None,
    ensures
        name_search(lines, limit, pattern, i) == name_search(lines, limit, pattern, k),
    decreases k - i,
{
    if i < k {
        lemma_extract_simple_match(pattern, line_at(lines, i));
        assert(regex_captures(pattern, line_at(lines, i)) is None);
        lemma_name_search_skips(lines, limit, pattern, i + 1, k);
    }
}

/// The task name is group 1 of the first line the regex matches, whatever
/// its text: when line `k`, one of the first `limit` lines, is matched with
/// one group that took part, and the regex matches none of the lines before
/// it, the search gives the text of that group. When the regex matches none
/// of the first `limit` lines, the search reaches the limit.
pub proof fn lemma_name_line_found(lines: Seq<Seq<char>>, limit: int, pattern: Seq<char>, k: int)
    requires
        0 <= k < limit,
        forall|j: int| 0 <= j < k ==> #[trigger] regex_captures(pattern, line_at(lines, j)) is None,
    ensures
        regex_captures(pattern, line_at(lines, k)) matches Some(g) ==> (g.len() == 2 && g[1] is Some
            ==> name_search(lines, limit, pattern, 0) == Some(Ok::<Seq<char>, ()>(g[1]->0))),
        (forall|j: int| 0 <= j < limit ==> #[trigger] regex_captures(pattern, line_at(lines, j)) is None)
            ==> name_search(lines, limit, pattern, 0) == Some(Err::<Seq<char>, ()>(())),
{
    lemma_name_search_skips(lines, limit, pattern, 0, k);
    lemma_extract_simple_match(pattern, line_at(lines, k));
    if forall|j: int| 0 <= j < limit ==> #[trigger] regex_captures(pattern, line_at(lines, j)) is None {
        lemma_name_search_skips(lines, limit, pattern, 0, limit - 1);
        lemma_extract_simple_match(pattern, line_at(lines, limit - 1));
        assert(regex_captures(pattern, line_at(lines, limit - 1)) is None);
        assert(name_search(lines, limit, pattern, limit) == Some(Err::<Seq<char>, ()>(())));
    }
}

/// The separator between a task name and its size in a report line.
pub open spec fn arrow() -> Seq<char> {
    seq![' ', '\u{27a1}', '\u{fe0f}', ' ']
}

/// The report line of a task.
pub open spec fn size_line(name: Seq<char>, size: u64) -> Seq<char> {
    name + arrow() + human_count_bytes(size)
}

/// The start of the summary of a sweep.
pub open spec fn liberated_prefix() -> Seq<char> {
    seq!['T', 'o', 't', 'a', 'l', ' ', 's', 'p', 'a', 'c', 'e', ' ', 'l', 'i', 'b', 'e', 'r', 'a', 't', 'e', 'd', ':', ' ']
}

/// The report line of a task of `size_text`: its name, an arrow, the size.
pub fn task_line(name: &String, size_text: &str) -> (r: String)
    ensures
        r@ == name@ + arrow() + size_text@,
{
    proof {
        reveal_strlit(" \u{27a1}\u{fe0f} ");
    }
    let mut line = name.clone();
    line.append(" \u{27a1}\u{fe0f} ");
    line.append(size_text);
    line
}

/// The summary of a sweep that freed `size_text`.
pub fn liberated_message(size_text: &str) -> (r: String)
    ensures
        r@ == liberated_prefix() + size_text@,
{
    proof {
        reveal_strlit("Total space liberated: ");
    }
    let mut r = String::from_str("Total space liberated: ");
    r.append(size_text);
    r
}

/// The tally of a sweep through task folders: the bytes of the folders of
/// each task, and the bytes freed by removing the folders of the tasks to
/// delete.
pub struct TaskSweep {
    target: String,
    to_delete: Vec<String>,
    tally: SweepTally,
}

/// The counts of a sweep.
struct SweepTally {
    sizes: Vec<(String, u64)>,
    liberated: u64,
    pending: Option<u64>,
    recorded: Ghost<Seq<(Seq<char>, int)>>,
}

impl SweepTally {
    /// Nothing counted yet.
    fn empty() -> (t: SweepTally)
        ensures
            t.sizes@.len() == 0,
            t.liberated == 0,
            t.pending is None,
            t.recorded@ == Seq::<(Seq<char>, int)>::empty(),
    {
        SweepTally { sizes: Vec::new(), liberated: 0, pending: None, recorded: Ghost(Seq::empty()) }
    }
}

impl TaskSweep {
    #[verifier::type_invariant]
    spec fn tallied(self) -> bool {
        &&& names_distinct(size_views(self.tally.sizes@))
        &&& size_views(self.tally.sizes@) == sweep_tally(self.tally.recorded@)
        &&& self.tally.liberated + pending_amount(self.pending()) == deleted_total(self.tally.recorded@, line_views(self.to_delete@))
    }

    /// The name of the file that names the task of its folder.
    pub closed spec fn target(self) -> Seq<char> {
        self.target@
    }

    /// The names of the tasks whose folders are removed.
    pub closed spec fn to_delete(self) -> Seq<Seq<char>> {
        line_views(self.to_delete@)
    }

    /// Each task met so far with the bytes of its folders, in the order met.
    pub closed spec fn entries(self) -> Seq<(Seq<char>, int)> {
        size_views(self.tally.sizes@)
    }

    /// Each folder counted so far: its task and its bytes, in the order met.
    pub closed spec fn recorded(self) -> Seq<(Seq<char>, int)> {
        self.tally.recorded@
    }

    /// The bytes in the removed folders.
    pub closed spec fn liberated_bytes(self) -> nat {
        self.tally.liberated as nat
    }

    /// The bytes of the folder that was answered "remove" and is not yet
    /// reported removed.
    pub closed spec fn pending(self) -> Option<nat> {
        match self.tally.pending {
            Some(n) => Some(n as nat),
            None => None,
        }
    }

    /// A sweep that reads the task of a folder from its file `target` and
    /// removes the folders of `tasks_to_delete`.
    pub fn new(target: &str, tasks_to_delete: Vec<String>) -> (s: TaskSweep)
        ensures
            s.target() == target@,
            s.to_delete() == line_views(tasks_to_delete@),
            s.entries() == Seq::<(Seq<char>, int)>::empty(),
            s.recorded() == Seq::<(Seq<char>, int)>::empty(),
            s.liberated_bytes() == 0,
            s.pending() is None,
    {
        let tally = SweepTally::empty();
        assert(size_views(tally.sizes@) =~= Seq::<(Seq<char>, int)>::empty());
        let s = TaskSweep { target: target.to_owned(), to_delete: tasks_to_delete, tally };
        s
    }

    /// Whether a file of this name names the task of its folder; `None` is a
    /// name that is not valid UTF-8.
    pub fn is_task_file(&self, file_name: Option<&str>) -> (b: bool)
        ensures
            b == (file_name matches Some(n) && n@ == self.target()),
    {
        match file_name {
            Some(n) => n.to_owned() == self.target,
            None => false,
        }
    }

    /// The bytes counted so far for `task_name`.
    pub fn size_for(&self, task_name: &String) -> (n: u64)
        ensures
            n == size_of(self.entries(), task_name@),
    {
        proof {
            use_type_invariant(self);
        }
        match self.find(task_name) {
            Some(i) => self.tally.sizes[i].1,
            None => 0,
        }
    }

    /// The row of `task_name`, if any.
    fn find(&self, task_name: &String) -> (r: Option<usize>)
        requires
            names_distinct(self.entries()),
        ensures
            match r {
                Some(i) => i < self.entries().len() && self.entries()[i as int].0 == task_name@
                    && has_name(self.entries(), task_name@)
                    && (choose|k: int| 0 <= k < self.entries().len() && #[trigger] self.entries()[k].0 == task_name@) == i,
                None => !has_name(self.entries(), task_name@),
            },
    {
        let ghost e = self.entries();
        let mut i: usize = 0;
        while i < self.tally.sizes.len()
            invariant
                e == size_views(self.tally.sizes@),
                names_distinct(e),
                i <= self.tally.sizes@.len(),
                forall|k: int| 0 <= k < i ==> #[trigger] e[k].0 != task_name@,
            decreases self.tally.sizes@.len() - i,
        {
            assert(e[i as int].0 == self.tally.sizes@[i as int].0@);
            if self.tally.sizes[i].0 == *task_name {
                assert(e[i as int].0 == task_name@);
                let ghost c = choose|k: int| 0 <= k < e.len() && #[trigger] e[k].0 == task_name@;
                assert(e[c].0 == task_name@);
                assert(c == i) by {
                    if c < i { assert(e[c].0 != task_name@); }
                    if c > i { assert(e[i as int].0 != e[c].0); }
                }
                return Some(i);
            }
            i = i + 1;
        }
        None
    }

    /// Counts the folder of a task of `size` bytes; tells whether the task is
    /// one whose folders are removed. The bytes of a folder to remove wait
    /// until `record_removed` reports it removed.
    pub fn record(&mut self, task_name: &String, size: u64) -> (remove: bool)
        requires
            old(self).pending() is None,
            size_of(old(self).entries(), task_name@) + size <= u64::MAX,
        ensures
            final(self).recorded() == old(self).recorded().push((task_name@, size as int)),
            final(self).entries() == add_size(old(self).entries(), task_name@, size as int),
            final(self).liberated_bytes() == old(self).liberated_bytes(),
            final(self).target() == old(self).target(),
            final(self).to_delete() == old(self).to_delete(),
            remove == old(self).to_delete().contains(task_name@),
            final(self).pending() == if remove { Some(size as nat) } else { None },
            final(self).entries() == sweep_tally(final(self).recorded()),
            final(self).liberated_bytes() + pending_amount(final(self).pending())
                == deleted_total(final(self).recorded(), final(self).to_delete()),
    {
        proof {
            use_type_invariant(&*self);
        }
        let ghost e = self.entries();
        let ghost r = self.tally.recorded@;
        let ghost r2 = r.push((task_name@, size as int));
        assert(r2.drop_last() =~= r);
        assert(r2.last() == (task_name@, size as int));
        let found = self.find(task_name);
        let remove = self.deletes(task_name);
        let mut t = SweepTally::empty();
        assert(size_views(t.sizes@) =~= Seq::<(Seq<char>, int)>::empty());
        std::mem::swap(&mut t, &mut self.tally);
        assert(size_views(t.sizes@) == e);
        match found {
            Some(i) => {
                let total = t.sizes[i].1 + size;
                t.sizes.set(i, (task_name.clone(), total));
                assert(size_views(t.sizes@) =~= add_size(e, task_name@, size as int));
            },
            None => {
                t.sizes.push((task_name.clone(), size));
                assert(size_views(t.sizes@) =~= add_size(e, task_name@, size as int));
            },
        }
        proof {
            lemma_add_size(e, task_name@, size as int, task_name@);
        }
        t.pending = if remove { Some(size) } else { None };
        t.recorded = Ghost(r2);
        self.tally = t;
        remove
    }

    /// Whether `task_name` is one of the tasks to delete.
    fn deletes(&self, task_name: &String) -> (b: bool)
        ensures
            b == self.to_delete().contains(task_name@),
    {
        let mut i: usize = 0;
        while i < self.to_delete.len()
            invariant
                i <= self.to_delete@.len(),
                forall|k: int| 0 <= k < i ==> self.to_delete@[k]@ != task_name@,
            decreases self.to_delete@.len() - i,
        {
            if self.to_delete[i] == *task_name {
                assert(self.to_delete()[i as int] == task_name@);
                return true;
            }
            i = i + 1;
        }
        assert forall|k: int| 0 <= k < self.to_delete().len() implies self.to_delete()[k] != task_name@ by {
            assert(self.to_delete()[k] == self.to_delete@[k]@);
        }
        false
    }

    /// The bytes in the removed folders.
    pub fn liberated(&self) -> (n: u64)
        ensures
            n == self.liberated_bytes(),
    {
        self.tally.liberated
    }

    /// Reports removed the folder that `record` answered "remove": its bytes
    /// now count as freed.
    pub fn record_removed(&mut self)
        requires
            old(self).pending() is Some,
            old(self).liberated_bytes() + pending_amount(old(self).pending()) <= u64::MAX,
        ensures
            final(self).liberated_bytes() == old(self).liberated_bytes() + pending_amount(old(self).pending()),
            final(self).pending() is None,
            final(self).recorded() == old(self).recorded(),
            final(self).entries() == old(self).entries(),
            final(self).target() == old(self).target(),
            final(self).to_delete() == old(self).to_delete(),
            final(self).entries() == sweep_tally(final(self).recorded()),
            final(self).liberated_bytes() + pending_amount(final(self).pending())
                == deleted_total(final(self).recorded(), final(self).to_delete()),
    {
        proof {
            use_type_invariant(&*self);
        }
        let mut t = SweepTally::empty();
        assert(size_views(t.sizes@) =~= Seq::<(Seq<char>, int)>::empty());
        std::mem::swap(&mut t, &mut self.tally);
        let freed = match t.pending {
            Some(n) => n,
            None => 0,
        };
        t.liberated = t.liberated + freed;
        t.pending = None;
        self.tally = t;
    }

    /// One line per task, in the order met: its name, an arrow, the bytes of
    /// its folders.
    pub fn report_lines(&self) -> (lines: Vec<String>)
        ensures
            lines@.len() == self.entries().len(),
            forall|i: int| 0 <= i < lines@.len() ==>
                #[trigger] lines@[i]@ == size_line(self.entries()[i].0, self.entries()[i].1 as u64),
    {
        let mut lines: Vec<String> = Vec::new();
        let mut i: usize = 0;
        while i < self.tally.sizes.len()
            invariant
                i <= self.tally.sizes@.len(),
                lines@.len() == i,
                forall|k: int| 0 <= k < i ==>
                    #[trigger] lines@[k]@ == size_line(self.entries()[k].0, self.entries()[k].1 as u64),
            decreases self.tally.sizes@.len() - i,
        {
            let size = human_bytes(self.tally.sizes[i].1);
            let line = task_line(&self.tally.sizes[i].0, size.as_str());
            lines.push(line);
            i = i + 1;
        }
        lines
    }

    /// `Total space liberated: ...`, the bytes in the removed folders. With no
    /// removal waiting, those are the bytes of the folders counted for the
    /// tasks to delete, and the bytes in their rows of the report.
    pub fn summary(&self) -> (r: String)
        ensures
            r@ == liberated_prefix() + human_count_bytes(self.liberated_bytes() as u64),
            self.pending() is None ==> self.liberated_bytes() == deleted_total(self.recorded(), self.to_delete()),
            self.pending() is None ==> self.liberated_bytes() == rows_total(self.entries(), self.to_delete()),
    {
        proof {
            use_type_invariant(self);
            lemma_freed_rows(self.recorded(), self.to_delete());
        }
        let size = human_bytes(self.tally.liberated);
        liberated_message(size.as_str())
    }
}

} // verus!
