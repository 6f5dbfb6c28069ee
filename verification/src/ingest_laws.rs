//! What holds of repeated ingests: of updates over unchanged sources, and of reloads.

use crate::checksum::Checksum;
use crate::index::{
    checksums_of, failures_of, is_unchanged, kept_pages, pages_of, stored_for, FileOutcome,
    IndexView,
};
use vstd::prelude::*;

verus! {

/// The state of an index and the checksums to store after an ingest that ended with the
/// given outcomes; nothing for an index that is not `Writing`.
pub open spec fn ingested(index: IndexView, outcomes: Seq<FileOutcome>) -> Option<
    (IndexView, Map<Seq<char>, Checksum>),
> {
    if index is Writing {
        Some(
            (
                index.reading(failures_of(outcomes), kept_pages(pages_of(outcomes))),
                checksums_of(outcomes),
            ),
        )
    } else {
        None
    }
}

/// The state of an index and the checksums to store after a reload whose ingest ended
/// with the given outcomes; nothing for an index that is not `Reading`.
pub open spec fn reloaded(index: IndexView, outcomes: Seq<FileOutcome>) -> Option<
    (IndexView, Map<Seq<char>, Checksum>),
> {
    if index is Reading {
        ingested(index.writing(), outcomes)
    } else {
        None
    }
}

/// Whether `outcome` is that of a file at `path` that was skipped because it is as the
/// stored checksums know it.
pub open spec fn is_skipped(
    outcome: FileOutcome,
    stored: Map<Seq<char>, Checksum>,
    path: Seq<char>,
    current: Option<Checksum>,
) -> bool {
    &&& is_unchanged(stored_for(stored, path), current)
    &&& outcome.path@ == path
    &&& outcome.pages == 0
    &&& outcome.result == Ok::<Checksum, crate::errors::LittIndexError>(stored[path])
}

/// The checksums of some outcomes hold a path exactly where an outcome with a checksum
/// has it.
pub proof fn lemma_checksums_domain(outcomes: Seq<FileOutcome>, path: Seq<char>)
    ensures
        checksums_of(outcomes).dom().contains(path) <==> exists|i: int|
            0 <= i < outcomes.len() && (#[trigger] outcomes[i]).path@ == path
                && outcomes[i].result is Ok,
    decreases outcomes.len(),
{
    if outcomes.len() > 0 {
        let rest = outcomes.drop_last();
        lemma_checksums_domain(rest, path);
        if checksums_of(outcomes).dom().contains(path) {
            if outcomes.last().path@ == path && outcomes.last().result is Ok {
                assert(outcomes[outcomes.len() - 1].path@ == path);
            } else {
                let i = choose|i: int|
                    0 <= i < rest.len() && (#[trigger] rest[i]).path@ == path && rest[i].result is Ok;
                assert(outcomes[i].path@ == path);
            }
        }
        if exists|i: int|
            0 <= i < outcomes.len() && (#[trigger] outcomes[i]).path@ == path
                && outcomes[i].result is Ok {
            let i = choose|i: int|
                0 <= i < outcomes.len() && (#[trigger] outcomes[i]).path@ == path
                    && outcomes[i].result is Ok;
            if i < rest.len() {
                assert(rest[i].path@ == path);
            }
        }
    }
}

/// Where every outcome is that of a skipped file, the checksums of the outcomes are the
/// stored ones of their paths, no file is reported as failed, and no page is added.
pub proof fn lemma_skipped_files_keep_checksums(
    stored: Map<Seq<char>, Checksum>,
    outcomes: Seq<FileOutcome>,
)
    requires
        forall|i: int|
            0 <= i < outcomes.len() ==> stored.dom().contains((#[trigger] outcomes[i]).path@)
                && outcomes[i].pages == 0 && outcomes[i].result == Ok::<
                Checksum,
                crate::errors::LittIndexError,
            >(stored[outcomes[i].path@]),
    ensures
        failures_of(outcomes) == Seq::<Seq<char>>::empty(),
        pages_of(outcomes) == 0,
        forall|path: Seq<char>| #[trigger]
            checksums_of(outcomes).dom().contains(path) ==> stored.dom().contains(path)
                && checksums_of(outcomes)[path] == stored[path],
    decreases outcomes.len(),
{
    if outcomes.len() > 0 {
        let rest = outcomes.drop_last();
        assert forall|i: int| 0 <= i < rest.len() implies stored.dom().contains(
            (#[trigger] rest[i]).path@,
        ) && rest[i].pages == 0 && rest[i].result == Ok::<Checksum, crate::errors::LittIndexError>(
            stored[rest[i].path@],
        ) by {
            assert(rest[i] == outcomes[i]);
        }
        lemma_skipped_files_keep_checksums(stored, rest);
        let last = outcomes[outcomes.len() - 1];
        assert(outcomes.last() == last);
        assert(last.result is Ok);
        assert forall|path: Seq<char>| #[trigger]
            checksums_of(outcomes).dom().contains(path) implies stored.dom().contains(path)
            && checksums_of(outcomes)[path] == stored[path] by {
            if path != last.path@ {
                assert(checksums_of(rest).dom().contains(path));
            }
        }
    }
}

/// Idempotence of the checksums: where no source file has changed since the checksums
/// were stored, and the stored checksums are those of the files that are there, a
/// further ingest skips every file, reports no failure, adds no page, and stores the
/// same checksums again. `paths` and `current` give the files that are there, each with the checksum
/// that it has now.
pub proof fn lemma_unchanged_sources_keep_checksums(
    stored: Map<Seq<char>, Checksum>,
    paths: Seq<Seq<char>>,
    current: Seq<Option<Checksum>>,
    outcomes: Seq<FileOutcome>,
)
    requires
        paths.len() == current.len(),
        paths.len() == outcomes.len(),
        forall|path: Seq<char>| stored.dom().contains(path) <==> paths.contains(path),
        forall|i: int|
            0 <= i < paths.len() ==> is_skipped(
                #[trigger] outcomes[i],
                stored,
                paths[i],
                current[i],
            ),
    ensures
        checksums_of(outcomes) == stored,
        failures_of(outcomes) == Seq::<Seq<char>>::empty(),
        pages_of(outcomes) == 0,
{
    assert forall|i: int| 0 <= i < outcomes.len() implies stored.dom().contains(
        (#[trigger] outcomes[i]).path@,
    ) && outcomes[i].pages == 0 && outcomes[i].result == Ok::<
        Checksum,
        crate::errors::LittIndexError,
    >(stored[outcomes[i].path@]) by {
        assert(is_skipped(outcomes[i], stored, paths[i], current[i]));
    }
    lemma_skipped_files_keep_checksums(stored, outcomes);
    assert forall|path: Seq<char>| stored.dom().contains(path) implies checksums_of(
        outcomes,
    ).dom().contains(path) by {
        assert(paths.contains(path));
        let i = choose|i: int| 0 <= i < paths.len() && paths[i] == path;
        assert(is_skipped(outcomes[i], stored, paths[i], current[i]));
        assert(outcomes[i].path@ == path && outcomes[i].result is Ok);
        lemma_checksums_domain(outcomes, path);
    }
    assert(checksums_of(outcomes) =~= stored);
}

/// A file for which no checksum is stored is never skipped: after a reload, which
/// removes the stored checksums, every file is added anew.
pub proof fn lemma_nothing_stored_nothing_skipped(current: Option<Checksum>)
    ensures
        !is_unchanged(None, current),
{
}

/// A reload does not depend on what the index reported before, and a second reload
/// over the same sources ends where the first ended: in the same state, with the same
/// checksums.
pub proof fn lemma_reload_is_idempotent(index: IndexView, outcomes: Seq<FileOutcome>)
    requires
        index is Reading,
    ensures
        reloaded(index, outcomes) matches Some((after, checksums)) && reloaded(after, outcomes)
            == Some((after, checksums)),
{
}

/// The pages of the files that were taken without failure, in the outcomes' order.
pub open spec fn pages_of_taken(outcomes: Seq<FileOutcome>) -> Seq<nat> {
    outcomes.filter(|outcome: FileOutcome| outcome.result is Ok).map_values(
        |outcome: FileOutcome| outcome.pages as nat,
    )
}

/// The sum of some numbers.
pub open spec fn sum(numbers: Seq<nat>) -> nat
    decreases numbers.len(),
{
    if numbers.len() == 0 {
        0
    } else {
        sum(numbers.drop_last()) + numbers.last()
    }
}

/// Coverage: the pages that an ingest adds are the pages of the files that it took
/// without failure, summed over these files; a file that failed counts no page.
pub proof fn lemma_pages_are_summed_over_taken_files(outcomes: Seq<FileOutcome>)
    ensures
        pages_of(outcomes) == sum(pages_of_taken(outcomes)),
    decreases outcomes.len(),
{
    reveal(Seq::filter);
    if outcomes.len() > 0 {
        let rest = outcomes.drop_last();
        let last = outcomes.last();
        lemma_pages_are_summed_over_taken_files(rest);
        let taken = |outcome: FileOutcome| outcome.result is Ok;
        let pages = |outcome: FileOutcome| outcome.pages as nat;
        if last.result is Ok {
            assert(outcomes.filter(taken) =~= rest.filter(taken).push(last));
            assert(outcomes.filter(taken).map_values(pages) =~= rest.filter(taken).map_values(
                pages,
            ).push(last.pages as nat));
            assert(pages_of_taken(outcomes).drop_last() =~= pages_of_taken(rest));
        } else {
            assert(outcomes.filter(taken) =~= rest.filter(taken));
        }
    }
}

} // verus!
