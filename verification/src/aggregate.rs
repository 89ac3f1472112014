//! Accumulating every snapshot's records, in listing order, into one
//! collection; a snapshot whose fetch was given up contributes nothing.

use vstd::prelude::*;
use crate::model::{AreaRecView, AreaRecord, ParseError};
use crate::model::rec_views;
use crate::parse::{compose_recs, parse_snapshot, snapshot_of_text};
use crate::timefmt::utc_renderable;

verus! {

/// How fetching one snapshot ended: with a body to decode, or skipped
/// after the retry budget ran out.
pub enum FetchResult {
    Fetched(String),
    Skipped,
}

/// What aggregating the fetched snapshots must yield: each snapshot's
/// records in listing order, a skipped snapshot contributing nothing,
/// and the first decode failure ending the whole run.
pub open spec fn expected_views(items: Seq<(i64, FetchResult)>) -> Result<
    Seq<AreaRecView>,
    ParseError,
>
    decreases items.len(),
{
    if items.len() == 0 {
        Ok(Seq::empty())
    } else {
        match items[0].1 {
            FetchResult::Skipped => expected_views(items.drop_first()),
            FetchResult::Fetched(body) => match snapshot_of_text(body@, items[0].0) {
                Err(e) => Err(e),
                Ok(rs) => compose_recs(rs, expected_views(items.drop_first())),
            },
        }
    }
}

/// The records one item owes the output: none when it was skipped.
pub open spec fn contribution(it: (i64, FetchResult)) -> Seq<AreaRecView> {
    match it.1 {
        FetchResult::Skipped => Seq::empty(),
        FetchResult::Fetched(body) => snapshot_of_text(body@, it.0).unwrap(),
    }
}

/// One contribution per history entry, in listing order.
pub open spec fn contributions(items: Seq<(i64, FetchResult)>) -> Seq<Seq<AreaRecView>> {
    items.map_values(|it: (i64, FetchResult)| contribution(it))
}

/// When every snapshot decodes, the output is exactly the per-entry
/// contributions laid end to end: one per entry, in listing order.
pub proof fn lemma_pipeline_in_order(items: Seq<(i64, FetchResult)>)
    requires
        expected_views(items) is Ok,
    ensures
        contributions(items).len() == items.len(),
        expected_views(items).unwrap() == contributions(items).flatten(),
    decreases items.len(),
{
    if items.len() == 0 {
        assert(contributions(items) =~= Seq::<Seq<AreaRecView>>::empty());
        assert(expected_views(items).unwrap() =~= contributions(items).flatten());
    } else {
        lemma_pipeline_in_order(items.drop_first());
        assert(contributions(items).drop_first() =~= contributions(items.drop_first()));
        assert(contributions(items).flatten() == contributions(items).first() + contributions(
            items,
        ).drop_first().flatten());
        match items[0].1 {
            FetchResult::Skipped => {
                assert(contributions(items).first() =~= Seq::<AreaRecView>::empty());
                assert(expected_views(items).unwrap() =~= contributions(items).flatten());
            },
            FetchResult::Fetched(body) => {
                assert(expected_views(items).unwrap() =~= contributions(items).flatten());
            },
        }
    }
}

/// A snapshot skipped after exhausted retries contributes zero records,
/// and every other snapshot's records are still present, unchanged.
pub proof fn lemma_skipped_contributes_nothing(
    pre: Seq<(i64, FetchResult)>,
    ts: i64,
    post: Seq<(i64, FetchResult)>,
)
    ensures
        expected_views(pre + seq![(ts, FetchResult::Skipped)] + post) == expected_views(
            pre + post,
        ),
    decreases pre.len(),
{
    if pre.len() == 0 {
        assert((pre + seq![(ts, FetchResult::Skipped)] + post)[0] == (
            ts,
            FetchResult::Skipped,
        ));
        assert((pre + seq![(ts, FetchResult::Skipped)] + post).drop_first() =~= post);
        assert(pre + post =~= post);
    } else {
        let whole = pre + seq![(ts, FetchResult::Skipped)] + post;
        let other = pre + post;
        assert(whole[0] == pre[0]);
        assert(other[0] == pre[0]);
        assert(whole.drop_first() =~= pre.drop_first() + seq![(ts, FetchResult::Skipped)]
            + post);
        assert(other.drop_first() =~= pre.drop_first() + post);
        lemma_skipped_contributes_nothing(pre.drop_first(), ts, post);
    }
}

/// Decode and accumulate the fetched snapshots, in listing order.
///
/// Success and failure track [`expected_views`] exactly; the run
/// additionally fails with [`ParseError::TimeOutOfRange`] when — and only
/// when it can reach — a fetched snapshot whose timestamp the date
/// library's range cannot hold.
pub fn aggregate_all(items: Vec<(i64, FetchResult)>) -> (r: Result<Vec<AreaRecord>, ParseError>)
    ensures
        (r is Ok) == (expected_views(items@) is Ok && forall|i: int|
            0 <= i < items@.len() ==> ((#[trigger] items@[i]).1 is Fetched ==> utc_renderable(
                items@[i].0 as int,
            ))),
        r is Ok ==> rec_views(r.unwrap()@) == expected_views(items@).unwrap(),
        r is Err && r->Err_0 != ParseError::TimeOutOfRange ==> expected_views(items@)
            == Err::<Seq<AreaRecView>, ParseError>(r->Err_0),
        r is Err && r->Err_0 == ParseError::TimeOutOfRange ==> exists|i: int|
            0 <= i < items@.len() && (#[trigger] items@[i]).1 is Fetched && !utc_renderable(
                items@[i].0 as int,
            ),
        r is Ok ==> forall|i: int|
            0 <= i < r.unwrap()@.len() ==> (#[trigger] r.unwrap()@[i]@).wf(),
{
    let n = items.len();
    let mut acc: Vec<AreaRecord> = Vec::new();
    let mut i: usize = 0;
    assert(items@.skip(0) =~= items@);
    assert(rec_views(acc@) =~= Seq::<AreaRecView>::empty());
    while i < n
        invariant
            n == items@.len(),
            0 <= i <= n,
            compose_recs(rec_views(acc@), expected_views(items@.skip(i as int)))
                == expected_views(items@),
            forall|j: int| 0 <= j < acc@.len() ==> (#[trigger] acc@[j]@).wf(),
            forall|j: int|
                0 <= j < i ==> ((#[trigger] items@[j]).1 is Fetched ==> utc_renderable(
                    items@[j].0 as int,
                )),
        decreases n - i,
    {
        assert(items@.skip(i as int)[0] == items@[i as int]);
        assert(items@.skip(i as int).drop_first() =~= items@.skip(i + 1));
        let ts = items[i].0;
        match &items[i].1 {
            FetchResult::Skipped => {},
            FetchResult::Fetched(body) => {
                match parse_snapshot(body.as_str(), ts) {
                    Ok(mut recs) => {
                        let ghost old_acc = acc@;
                        let ghost new_views = rec_views(recs@);
                        assert(rec_views(old_acc + recs@) =~= rec_views(old_acc) + new_views);
                        acc.append(&mut recs);
                        proof {
                            let rest = expected_views(items@.skip(i + 1));
                            if rest is Ok {
                                assert((rec_views(old_acc) + new_views) + rest.unwrap()
                                    =~= rec_views(old_acc) + (new_views + rest.unwrap()));
                            }
                        }
                    },
                    Err(e) => {
                        proof {
                            if e == ParseError::TimeOutOfRange {
                                if snapshot_of_text(body@, ts) is Err {
                                    crate::parse::lemma_snapshot_error_is_decode_error(
                                        body@,
                                        ts,
                                    );
                                }
                                assert(!utc_renderable(ts as int));
                                assert(items@[i as int].1 is Fetched && !utc_renderable(
                                    items@[i as int].0 as int,
                                ));
                            } else {
                                assert(expected_views(items@) == Err::<
                                    Seq<AreaRecView>,
                                    ParseError,
                                >(e));
                            }
                        }
                        return Err(e);
                    },
                }
            },
        }
        i = i + 1;
    }
    assert(items@.skip(n as int) =~= Seq::<(i64, FetchResult)>::empty());
    assert(rec_views(acc@) + Seq::<AreaRecView>::empty() =~= rec_views(acc@));
    Ok(acc)
}

} // verus!
