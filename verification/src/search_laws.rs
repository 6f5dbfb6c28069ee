//! What holds of the results of a search: they hold every hit, under its title, in the
//! order in which the store found the hits.

use crate::grouped::{has_key, lemma_recorded_values, recorded, values_of, values_under, GroupView};
use crate::search::{assembled, checked_hit, Hit, HitFault, SearchResult};
use vstd::prelude::*;

verus! {

/// The titles of some hits without fault, each with the hit's entry in the results.
pub open spec fn titled_results(hits: Seq<Hit>) -> Seq<(Seq<char>, SearchResult)>
    decreases hits.len(),
{
    if hits.len() == 0 {
        Seq::empty()
    } else {
        match checked_hit(hits.last()) {
            Ok(entry) => titled_results(hits.drop_last()).push(entry),
            Err(_) => titled_results(hits.drop_last()),
        }
    }
}

/// The results of hits without fault are the hits' entries, grouped by their titles.
pub proof fn lemma_results_are_grouped_hits(hits: Seq<Hit>)
    requires
        assembled(hits) is Ok,
    ensures
        assembled(hits) == Ok::<Seq<GroupView<SearchResult>>, HitFault>(
            recorded(titled_results(hits)),
        ),
        titled_results(hits).len() == hits.len(),
    decreases hits.len(),
{
    if hits.len() > 0 {
        lemma_results_are_grouped_hits(hits.drop_last());
        let entry = checked_hit(hits.last())->Ok_0;
        assert(titled_results(hits).drop_last() =~= titled_results(hits.drop_last()));
    }
}

/// The results keep every hit and the order of the hits: a title is in the results
/// exactly where a hit has it, and under it stand the entries of the hits with this
/// title, in the order in which the hits were found.
pub proof fn lemma_results_keep_hits_in_order(hits: Seq<Hit>, title: Seq<char>)
    requires
        assembled(hits) is Ok,
    ensures
        has_key(assembled(hits)->Ok_0, title) <==> values_under(titled_results(hits), title).len()
            > 0,
        has_key(assembled(hits)->Ok_0, title) ==> values_of(assembled(hits)->Ok_0, title)
            == values_under(titled_results(hits), title),
{
    lemma_results_are_grouped_hits(hits);
    lemma_recorded_values(titled_results(hits), title);
}

/// A search without hits has no results, and is no error.
pub proof fn lemma_no_hits_no_results()
    ensures
        assembled(Seq::<Hit>::empty()) == Ok::<Seq<GroupView<SearchResult>>, HitFault>(
            Seq::empty(),
        ),
{
}

} // verus!
