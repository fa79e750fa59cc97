//! Garbage collection of the cache directory: which files a pass deletes, and which rows of
//! the usage index go with them.

use crate::text::names_of;
use vstd::prelude::*;

verus! {

/// A row of the usage index as a pass sees it: the file it names and the size of that file,
/// or `None` where the file is no longer on disk.
#[derive(Debug, Clone, PartialEq, Eq)]
pub struct Candidate {
    pub file: String,
    pub size: Option<u64>,
}

/// The mathematical content of a [`Candidate`].
pub struct Row {
    pub file: Seq<char>,
    pub size: Option<u64>,
}

impl View for Candidate {
    type V = Row;

    open spec fn view(&self) -> Row {
        Row { file: self.file@, size: self.size }
    }
}

/// A file that a pass tried to delete, and whether it is gone.
#[derive(Debug, Clone, PartialEq, Eq)]
pub struct Deletion {
    pub file: String,
    pub removed: bool,
}

/// What a pass does once the directory has been measured.
#[derive(Debug, Clone, Copy, PartialEq, Eq)]
pub enum PurgePlan {
    /// The directory is under its limit: nothing is deleted.
    Idle,
    /// The directory has reached its limit: the `fetch` least recently used rows are wanted.
    Purge { fetch: usize, total: u128 },
}

pub open spec fn rows_of(candidates: Seq<Candidate>) -> Seq<Row> {
    candidates.map_values(|c: Candidate| c@)
}

/// The sum of the given sizes.
pub open spec fn sum_sizes(sizes: Seq<u64>) -> int
    decreases sizes.len(),
{
    if sizes.len() == 0 {
        0
    } else {
        sum_sizes(sizes.drop_last()) + sizes.last()
    }
}

/// The files among `rows` that are still on disk, in the order of `rows`.
pub open spec fn existing_files(rows: Seq<Row>) -> Seq<Seq<char>>
    decreases rows.len(),
{
    if rows.len() == 0 {
        Seq::empty()
    } else if rows.first().size is Some {
        seq![rows.first().file] + existing_files(rows.drop_first())
    } else {
        existing_files(rows.drop_first())
    }
}

/// The sizes of the files among `rows` that are still on disk, in the order of `rows`.
pub open spec fn existing_sizes(rows: Seq<Row>) -> Seq<u64>
    decreases rows.len(),
{
    if rows.len() == 0 {
        Seq::empty()
    } else if rows.first().size is Some {
        seq![rows.first().size->0] + existing_sizes(rows.drop_first())
    } else {
        existing_sizes(rows.drop_first())
    }
}

/// The files that a pass deletes. It walks `rows`, least recently used first, and passes over
/// the files that are gone. Every other file is marked and its size taken off `total`; the
/// walk ends with the first file that brings the total down to `purge_limit` or below.
pub open spec fn planned_victims(rows: Seq<Row>, total: int, purge_limit: int) -> Seq<Seq<char>>
    decreases rows.len(),
{
    if rows.len() == 0 {
        Seq::empty()
    } else {
        match rows.first().size {
            None => planned_victims(rows.drop_first(), total, purge_limit),
            Some(size) => if total - size <= purge_limit {
                seq![rows.first().file]
            } else {
                seq![rows.first().file] + planned_victims(
                    rows.drop_first(),
                    total - size,
                    purge_limit,
                )
            },
        }
    }
}

/// The files among `deletions` that are gone, in the order of `deletions`.
pub open spec fn removed_files(deletions: Seq<Deletion>) -> Seq<Seq<char>>
    decreases deletions.len(),
{
    if deletions.len() == 0 {
        Seq::empty()
    } else if deletions.last().removed {
        removed_files(deletions.drop_last()).push(deletions.last().file@)
    } else {
        removed_files(deletions.drop_last())
    }
}

proof fn lemma_sum_sizes_bound(sizes: Seq<u64>)
    ensures
        0 <= sum_sizes(sizes) <= sizes.len() * 0xffff_ffff_ffff_ffff,
    decreases sizes.len(),
{
    if sizes.len() > 0 {
        lemma_sum_sizes_bound(sizes.drop_last());
    }
}

proof fn lemma_sum_sizes_prepend(first: u64, rest: Seq<u64>)
    ensures
        sum_sizes(seq![first] + rest) == first + sum_sizes(rest),
    decreases rest.len(),
{
    let whole = seq![first] + rest;
    if rest.len() == 0 {
        assert(whole.drop_last() == Seq::<u64>::empty());
        assert(whole.last() == first);
        assert(sum_sizes(whole.drop_last()) == 0);
    } else {
        assert(whole.drop_last() == seq![first] + rest.drop_last());
        assert(whole.last() == rest.last());
        lemma_sum_sizes_prepend(first, rest.drop_last());
    }
}

/// The files that a pass deletes are the first few, least recently used first, of the files
/// in the usage index that are still on disk.
pub proof fn lemma_victims_are_lru_prefix(rows: Seq<Row>, total: int, purge_limit: int)
    ensures
        planned_victims(rows, total, purge_limit).is_prefix_of(existing_files(rows)),
    decreases rows.len(),
{
    if rows.len() > 0 {
        let rest = rows.drop_first();
        match rows.first().size {
            None => {
                lemma_victims_are_lru_prefix(rest, total, purge_limit);
            },
            Some(size) => {
                lemma_victims_are_lru_prefix(rest, total - size, purge_limit);
            },
        }
    }
}

/// A pass that starts above the purge limit deletes every one of its files while the
/// directory is still above that limit, and spares a file on disk only once the directory
/// is at the limit or below.
pub proof fn lemma_purge_stops_at_limit(rows: Seq<Row>, total: int, purge_limit: int)
    requires
        total > purge_limit,
    ensures
        planned_victims(rows, total, purge_limit).len() <= existing_sizes(rows).len(),
        forall|k: int|
            0 <= k < planned_victims(rows, total, purge_limit).len() ==> total - sum_sizes(
                #[trigger] existing_sizes(rows).take(k),
            ) > purge_limit,
        planned_victims(rows, total, purge_limit).len() < existing_sizes(rows).len() ==> total
            - sum_sizes(
            existing_sizes(rows).take(planned_victims(rows, total, purge_limit).len() as int),
        ) <= purge_limit,
    decreases rows.len(),
{
    let victims = planned_victims(rows, total, purge_limit);
    let sizes = existing_sizes(rows);
    if rows.len() == 0 {
    } else {
        let rest = rows.drop_first();
        match rows.first().size {
            None => {
                lemma_purge_stops_at_limit(rest, total, purge_limit);
            },
            Some(size) => {
                let tail = existing_sizes(rest);
                assert(sizes.take(0) == Seq::<u64>::empty());
                if total - size <= purge_limit {
                    assert(sizes.take(1) == seq![size]);
                    lemma_sum_sizes_prepend(size, Seq::empty());
                    assert(seq![size] + Seq::<u64>::empty() == seq![size]);
                } else {
                    lemma_purge_stops_at_limit(rest, total - size, purge_limit);
                    assert forall|k: int| 0 <= k < victims.len() implies total - sum_sizes(
                        #[trigger] sizes.take(k),
                    ) > purge_limit by {
                        if k > 0 {
                            assert(sizes.take(k) == seq![size] + tail.take(k - 1));
                            lemma_sum_sizes_prepend(size, tail.take(k - 1));
                        }
                    }
                    let n = victims.len() as int;
                    assert(sizes.take(n) == seq![size] + tail.take(n - 1));
                    lemma_sum_sizes_prepend(size, tail.take(n - 1));
                }
            },
        }
    }
}

/// A pass that starts above the purge limit never brings the directory further below that
/// limit than the size of one file: where no file on disk is larger than `largest`, what the
/// pass leaves is more than `purge_limit - largest`.
pub proof fn lemma_purge_leaves_enough(rows: Seq<Row>, total: int, purge_limit: int, largest: int)
    requires
        total > purge_limit,
        largest >= 0,
        forall|i: int| 0 <= i < rows.len() && rows[i].size is Some ==> rows[i].size->0 <= largest,
    ensures
        total - sum_sizes(
            existing_sizes(rows).take(planned_victims(rows, total, purge_limit).len() as int),
        ) > purge_limit - largest,
    decreases rows.len(),
{
    let victims = planned_victims(rows, total, purge_limit);
    let sizes = existing_sizes(rows);
    if rows.len() == 0 {
        assert(sizes.take(0) == Seq::<u64>::empty());
    } else {
        let rest = rows.drop_first();
        assert forall|i: int| 0 <= i < rest.len() && rest[i].size is Some implies rest[i].size->0
            <= largest by {
            assert(rest[i] == rows[i + 1]);
        }
        match rows.first().size {
            None => {
                lemma_purge_leaves_enough(rest, total, purge_limit, largest);
            },
            Some(size) => {
                let tail = existing_sizes(rest);
                assert(rows[0].size->0 <= largest);
                if total - size <= purge_limit {
                    assert(sizes.take(1) == seq![size]);
                    lemma_sum_sizes_prepend(size, Seq::empty());
                    assert(seq![size] + Seq::<u64>::empty() == seq![size]);
                } else {
                    lemma_purge_leaves_enough(rest, total - size, purge_limit, largest);
                    lemma_purge_stops_at_limit(rest, total - size, purge_limit);
                    let n = victims.len() as int;
                    assert(sizes.take(n) == seq![size] + tail.take(n - 1));
                    lemma_sum_sizes_prepend(size, tail.take(n - 1));
                }
            },
        }
    }
}

/// The rows dropped from the usage index after a pass name files of that pass, in its order:
/// no other row is touched.
pub proof fn lemma_forgotten_rows_were_deleted(deletions: Seq<Deletion>)
    ensures
        removed_files(deletions).len() <= deletions.len(),
        forall|i: int|
            0 <= i < removed_files(deletions).len() ==> exists|j: int|
                0 <= j < deletions.len() && deletions[j].removed && #[trigger] deletions[j].file@
                    == #[trigger] removed_files(deletions)[i],
        (forall|j: int| 0 <= j < deletions.len() ==> deletions[j].removed) ==> removed_files(
            deletions,
        ) == deletions.map_values(|d: Deletion| d.file@),
    decreases deletions.len(),
{
    if deletions.len() > 0 {
        let front = deletions.drop_last();
        lemma_forgotten_rows_were_deleted(front);
        let files = removed_files(deletions);
        assert forall|i: int| 0 <= i < files.len() implies exists|j: int|
            0 <= j < deletions.len() && deletions[j].removed && #[trigger] deletions[j].file@
                == #[trigger] files[i] by {
            if i < removed_files(front).len() {
                let j = choose|j: int|
                    0 <= j < front.len() && front[j].removed && #[trigger] front[j].file@
                        == removed_files(front)[i];
                assert(deletions[j] == front[j]);
            } else {
                let j = deletions.len() - 1;
                assert(deletions[j].removed && deletions[j].file@ == files[i]);
            }
        }
        if forall|j: int| 0 <= j < deletions.len() ==> deletions[j].removed {
            assert forall|j: int| 0 <= j < front.len() implies front[j].removed by {
                assert(front[j] == deletions[j]);
            }
            assert(removed_files(deletions) =~= deletions.map_values(|d: Deletion| d.file@));
        }
    } else {
        assert(removed_files(deletions) =~= deletions.map_values(|d: Deletion| d.file@));
    }
}

/// Adds up the sizes of the files in the cache directory.
pub fn total_size(sizes: &Vec<u64>) -> (total: u128)
    ensures
        total == sum_sizes(sizes@),
{
    let mut total: u128 = 0;
    let mut i: usize = 0;
    while i < sizes.len()
        invariant
            i <= sizes.len(),
            total == sum_sizes(sizes@.take(i as int)),
        decreases sizes.len() - i,
    {
        proof {
            lemma_sum_sizes_bound(sizes@.take(i as int));
            assert(sizes@.take(i + 1).drop_last() == sizes@.take(i as int));
        }
        total = total + sizes[i] as u128;
        i = i + 1;
    }
    proof {
        assert(sizes@.take(sizes.len() as int) == sizes@);
    }
    total
}

/// Decides whether a pass purges: it does once the sizes add up to `limit` or more, and then
/// asks for the `purge_max_count` least recently used rows.
pub fn plan_purge(sizes: &Vec<u64>, limit: u64, purge_max_count: usize) -> (plan: PurgePlan)
    ensures
        plan == (if sum_sizes(sizes@) < limit {
            PurgePlan::Idle
        } else {
            PurgePlan::Purge { fetch: purge_max_count, total: sum_sizes(sizes@) as u128 }
        }),
{
    let total = total_size(sizes);
    if total < limit as u128 {
        PurgePlan::Idle
    } else {
        PurgePlan::Purge { fetch: purge_max_count, total }
    }
}

/// Picks the files to delete from the least recently used rows, oldest first.
pub fn select_victims(oldest: &Vec<Candidate>, total: u128, purge_limit: u64) -> (victims: Vec<
    String,
>)
    ensures
        names_of(victims@) == planned_victims(rows_of(oldest@), total as int, purge_limit as int),
{
    let ghost rows = rows_of(oldest@);
    let mut victims: Vec<String> = Vec::new();
    let mut remaining: u128 = total;
    let mut i: usize = 0;
    let mut done = false;
    proof {
        assert(rows.skip(0) == rows);
        assert(names_of(victims@) + planned_victims(rows, total as int, purge_limit as int)
            == planned_victims(rows, total as int, purge_limit as int));
    }
    while i < oldest.len() && !done
        invariant
            i <= oldest.len(),
            rows == rows_of(oldest@),
            !done ==> planned_victims(rows, total as int, purge_limit as int) == names_of(victims@)
                + planned_victims(rows.skip(i as int), remaining as int, purge_limit as int),
            done ==> planned_victims(rows, total as int, purge_limit as int) == names_of(victims@),
        decreases oldest.len() - i,
    {
        let ghost rest = rows.skip(i as int);
        let ghost before = names_of(victims@);
        proof {
            assert(rest.first() == oldest@[i as int]@);
            assert(rest.drop_first() == rows.skip(i + 1));
        }
        match oldest[i].size {
            None => {},
            Some(size) => {
                victims.push(oldest[i].file.clone());
                proof {
                    assert(names_of(victims@) == before + seq![rest.first().file]);
                }
                if size as u128 > remaining || remaining - size as u128 <= purge_limit as u128 {
                    done = true;
                } else {
                    remaining = remaining - size as u128;
                }
            },
        }
        i = i + 1;
    }
    proof {
        if !done {
            assert(rows.skip(i as int).len() == 0);
        }
    }
    victims
}

/// Picks the rows of the usage index to drop after the deletions: those of the files that are
/// gone, and no others.
pub fn rows_to_forget(deletions: &Vec<Deletion>) -> (files: Vec<String>)
    ensures
        names_of(files@) == removed_files(deletions@),
{
    let mut files: Vec<String> = Vec::new();
    let mut i: usize = 0;
    while i < deletions.len()
        invariant
            i <= deletions.len(),
            names_of(files@) == removed_files(deletions@.take(i as int)),
        decreases deletions.len() - i,
    {
        proof {
            assert(deletions@.take(i + 1).drop_last() == deletions@.take(i as int));
        }
        if deletions[i].removed {
            let ghost before = names_of(files@);
            files.push(deletions[i].file.clone());
            proof {
                assert(names_of(files@) == before.push(deletions@[i as int].file@));
            }
        }
        i = i + 1;
    }
    proof {
        assert(deletions@.take(deletions.len() as int) == deletions@);
    }
    files
}

} // verus!
