//! The feed merge engine: given the current deduplicated item state and a
//! freshly fetched batch, compute the new state under the retention policy.

use vstd::prelude::*;

use crate::feed::FeedItem;
use crate::feed::FeedItemData;
use crate::feed::FeedState;
use crate::feed::FeedStateData;
use crate::feed::distinct;
use crate::feed::distinct_ids;
use crate::feed::has_item_with_id;
use crate::feed::ids_of;

verus! {

/// `batch[k]` is the last occurrence of its id within `batch`.
pub open spec fn last_occurrence(batch: Seq<FeedItemData>, k: int) -> bool {
    forall|j: int| k < j < batch.len() ==> batch[j].id != batch[k].id
}

/// The batch restricted, from position `k` on, to the last occurrence of
/// each id (last-one-wins deduplication; the order of survivors is kept).
pub open spec fn dedup_from(batch: Seq<FeedItemData>, k: int) -> Seq<FeedItemData>
    decreases batch.len() - k,
{
    if k < 0 || k >= batch.len() {
        Seq::empty()
    } else if last_occurrence(batch, k) {
        seq![batch[k]] + dedup_from(batch, k + 1)
    } else {
        dedup_from(batch, k + 1)
    }
}

/// The fetched batch with duplicate ids removed, last one wins.
pub open spec fn dedup_batch(batch: Seq<FeedItemData>) -> Seq<FeedItemData> {
    dedup_from(batch, 0)
}

/// The items of `items`, from position `k` on, whose id is not among `known`.
pub open spec fn new_from(items: Seq<FeedItemData>, known: Seq<Seq<char>>, k: int) -> Seq<
    FeedItemData,
>
    decreases items.len() - k,
{
    if k < 0 || k >= items.len() {
        Seq::empty()
    } else if known.contains(items[k].id) {
        new_from(items, known, k + 1)
    } else {
        seq![items[k]] + new_from(items, known, k + 1)
    }
}

/// The genuinely new items of a fetch: deduplicated batch items whose id
/// is not yet retained in the state.
pub open spec fn new_items(state: FeedStateData, batch: Seq<FeedItemData>) -> Seq<FeedItemData> {
    new_from(dedup_batch(batch), state.all_ids, 0)
}

/// The ids of `unseen`, from position `k` on, that appear among `present`.
pub open spec fn retained_from(
    unseen: Seq<Seq<char>>,
    present: Seq<Seq<char>>,
    k: int,
) -> Seq<Seq<char>>
    decreases unseen.len() - k,
{
    if k < 0 || k >= unseen.len() {
        Seq::empty()
    } else if present.contains(unseen[k]) {
        seq![unseen[k]] + retained_from(unseen, present, k + 1)
    } else {
        retained_from(unseen, present, k + 1)
    }
}

/// The merge engine, mathematically. The fetched batch is deduplicated
/// (last one wins per id); its items not yet retained are the new items.
/// Under `preserve_items` the state grows: new items are appended to
/// `all_ids` and to the tail of `items`. Otherwise the state is replaced
/// wholesale by the deduplicated batch. Either way `unseen_ids` becomes
/// the previously unseen ids still present upstream, followed by the new
/// ids.
pub open spec fn merged(
    state: FeedStateData,
    batch: Seq<FeedItemData>,
    preserve_items: bool,
) -> FeedStateData {
    let deduped = dedup_batch(batch);
    let fresh = new_from(deduped, state.all_ids, 0);
    let unseen = retained_from(state.unseen_ids, ids_of(deduped), 0) + ids_of(fresh);
    if preserve_items {
        FeedStateData {
            all_ids: state.all_ids + ids_of(fresh),
            unseen_ids: unseen,
            items: state.items + fresh,
        }
    } else {
        FeedStateData { all_ids: ids_of(deduped), unseen_ids: unseen, items: deduped }
    }
}

/// Whether a merge of `batch` into `state` finds at least one new item.
pub open spec fn found_new(state: FeedStateData, batch: Seq<FeedItemData>) -> bool {
    new_items(state, batch).len() > 0
}

/// Everything the merge relies on about deduplication: the result has
/// pairwise distinct ids, and each of its elements stands in the batch at
/// or after position `k`, as the last occurrence of its id.
pub proof fn lemma_dedup_from_props(batch: Seq<FeedItemData>, k: int)
    ensures
        distinct_ids(dedup_from(batch, k)),
        forall|x: FeedItemData| #[trigger] dedup_from(batch, k).contains(x) ==> exists|j: int|
            k <= j < batch.len() && batch[j] == x && last_occurrence(batch, j),
    decreases batch.len() - k,
{
    if k < 0 || k >= batch.len() {
    } else {
        lemma_dedup_from_props(batch, k + 1);
        let rest = dedup_from(batch, k + 1);
        if last_occurrence(batch, k) {
            let whole = seq![batch[k]] + rest;
            assert forall|x: FeedItemData| #[trigger] whole.contains(x) implies exists|j: int|
                k <= j < batch.len() && batch[j] == x && last_occurrence(batch, j) by {
                let i = choose|i: int| 0 <= i < whole.len() && whole[i] == x;
                if i == 0 {
                    assert(batch[k] == x && last_occurrence(batch, k));
                } else {
                    assert(rest[i - 1] == x);
                    assert(rest.contains(x));
                }
            }
            assert forall|m: int| 0 <= m < rest.len() implies rest[m].id != batch[k].id by {
                assert(rest.contains(rest[m]));
                let j = choose|j: int|
                    k + 1 <= j < batch.len() && batch[j] == rest[m] && last_occurrence(batch, j);
                assert(batch[j].id != batch[k].id);
            }
            assert forall|i: int, j: int| 0 <= i < j < whole.len() implies whole[i].id
                != whole[j].id by {
                if i == 0 {
                    assert(whole[j] == rest[j - 1]);
                } else {
                    assert(whole[i] == rest[i - 1] && whole[j] == rest[j - 1]);
                }
            }
        }
    }
}

/// Everything the merge relies on about the new-item selection: each
/// selected item is unknown and stands in `items` at or after position
/// `k`; each unknown item of `items` is selected; selection keeps ids
/// pairwise distinct.
pub proof fn lemma_new_from_props(items: Seq<FeedItemData>, known: Seq<Seq<char>>, k: int)
    ensures
        forall|x: FeedItemData| #[trigger] new_from(items, known, k).contains(x) ==> !known.contains(
            x.id,
        ) && (exists|j: int| k <= j < items.len() && items[j] == x),
        0 <= k ==> forall|j: int| k <= j < items.len() && !known.contains(items[j].id)
            ==> new_from(items, known, k).contains(#[trigger] items[j]),
        distinct_ids(items) ==> distinct_ids(new_from(items, known, k)),
    decreases items.len() - k,
{
    if k < 0 || k >= items.len() {
    } else {
        lemma_new_from_props(items, known, k + 1);
        let rest = new_from(items, known, k + 1);
        if !known.contains(items[k].id) {
            let whole = seq![items[k]] + rest;
            assert forall|x: FeedItemData| #[trigger] whole.contains(x) implies !known.contains(
                x.id,
            ) && (exists|j: int| k <= j < items.len() && items[j] == x) by {
                let i = choose|i: int| 0 <= i < whole.len() && whole[i] == x;
                if i == 0 {
                    assert(items[k] == x);
                } else {
                    assert(rest[i - 1] == x);
                    assert(rest.contains(x));
                }
            }
            assert forall|j: int|
                k <= j < items.len() && !known.contains(items[j].id) implies whole.contains(
                #[trigger] items[j],
            ) by {
                if j == k {
                    assert(whole[0] == items[k]);
                } else {
                    assert(rest.contains(items[j]));
                    let i = choose|i: int| 0 <= i < rest.len() && rest[i] == items[j];
                    assert(whole[i + 1] == items[j]);
                }
            }
            if distinct_ids(items) {
                assert forall|m: int| 0 <= m < rest.len() implies rest[m].id != items[k].id by {
                    assert(rest.contains(rest[m]));
                    let j = choose|j: int| k + 1 <= j < items.len() && items[j] == rest[m];
                    assert(items[j].id != items[k].id);
                }
                assert forall|i: int, j: int| 0 <= i < j < whole.len() implies whole[i].id
                    != whole[j].id by {
                    if i == 0 {
                        assert(whole[j] == rest[j - 1]);
                    } else {
                        assert(whole[i] == rest[i - 1] && whole[j] == rest[j - 1]);
                    }
                }
            }
        } else {
            assert forall|j: int|
                k <= j < items.len() && !known.contains(items[j].id) implies new_from(
                items,
                known,
                k,
            ).contains(#[trigger] items[j]) by {
                assert(j != k);
                assert(rest.contains(items[j]));
            }
        }
    }
}

/// Selecting from items whose ids are all known selects nothing.
pub proof fn lemma_new_from_empty(items: Seq<FeedItemData>, known: Seq<Seq<char>>, k: int)
    requires
        forall|j: int| k <= j < items.len() ==> known.contains(#[trigger] items[j].id),
    ensures
        new_from(items, known, k) == Seq::<FeedItemData>::empty(),
    decreases items.len() - k,
{
    if k < 0 || k >= items.len() {
    } else {
        lemma_new_from_empty(items, known, k + 1);
    }
}

/// Everything the merge relies on about the retained unseen ids: each is
/// present upstream and stands in `unseen` at or after position `k`;
/// retention keeps a duplicate-free sequence duplicate-free.
pub proof fn lemma_retained_from_props(unseen: Seq<Seq<char>>, present: Seq<Seq<char>>, k: int)
    ensures
        forall|x: Seq<char>| #[trigger] retained_from(unseen, present, k).contains(x)
            ==> present.contains(x) && (exists|j: int| k <= j < unseen.len() && unseen[j] == x),
        distinct(unseen) ==> distinct(retained_from(unseen, present, k)),
    decreases unseen.len() - k,
{
    if k < 0 || k >= unseen.len() {
    } else {
        lemma_retained_from_props(unseen, present, k + 1);
        let rest = retained_from(unseen, present, k + 1);
        if present.contains(unseen[k]) {
            let whole = seq![unseen[k]] + rest;
            assert forall|x: Seq<char>| #[trigger] whole.contains(x) implies present.contains(x)
                && (exists|j: int| k <= j < unseen.len() && unseen[j] == x) by {
                let i = choose|i: int| 0 <= i < whole.len() && whole[i] == x;
                if i == 0 {
                    assert(unseen[k] == x);
                } else {
                    assert(rest[i - 1] == x);
                    assert(rest.contains(x));
                }
            }
            if distinct(unseen) {
                assert forall|m: int| 0 <= m < rest.len() implies rest[m] != unseen[k] by {
                    assert(rest.contains(rest[m]));
                    let j = choose|j: int| k + 1 <= j < unseen.len() && unseen[j] == rest[m];
                    assert(unseen[j] != unseen[k]);
                }
                assert forall|i: int, j: int| 0 <= i < j < whole.len() implies whole[i]
                    != whole[j] by {
                    if i == 0 {
                        assert(whole[j] == rest[j - 1]);
                    } else {
                        assert(whole[i] == rest[i - 1] && whole[j] == rest[j - 1]);
                    }
                }
            }
        }
    }
}

/// Retention keeps everything when every unseen id is still present.
pub proof fn lemma_retained_all_present(unseen: Seq<Seq<char>>, present: Seq<Seq<char>>, k: int)
    requires
        0 <= k <= unseen.len(),
        forall|j: int| k <= j < unseen.len() ==> present.contains(#[trigger] unseen[j]),
    ensures
        retained_from(unseen, present, k) == unseen.skip(k),
    decreases unseen.len() - k,
{
    if k >= unseen.len() {
        assert(retained_from(unseen, present, k) =~= unseen.skip(k));
    } else {
        lemma_retained_all_present(unseen, present, k + 1);
        assert(retained_from(unseen, present, k) =~= unseen.skip(k));
    }
}

/// Two sequences with pairwise different elements across them concatenate
/// to a duplicate-free sequence if each is duplicate-free.
proof fn lemma_distinct_concat(a: Seq<Seq<char>>, b: Seq<Seq<char>>)
    requires
        distinct(a),
        distinct(b),
        forall|i: int, j: int| #![trigger a[i], b[j]] 0 <= i < a.len() && 0 <= j < b.len() ==> a[i] != b[j],
    ensures
        distinct(a + b),
{
    assert forall|i: int, j: int| 0 <= i < j < (a + b).len() implies (a + b)[i] != (a + b)[j] by {
        if j < a.len() {
            assert((a + b)[i] == a[i] && (a + b)[j] == a[j]);
        } else if i >= a.len() {
            assert((a + b)[i] == b[i - a.len()] && (a + b)[j] == b[j - a.len()]);
        } else {
            assert((a + b)[i] == a[i] && (a + b)[j] == b[j - a.len()]);
        }
    }
}

/// As `lemma_distinct_concat`, for sequences of items keyed by id.
proof fn lemma_distinct_ids_concat(a: Seq<FeedItemData>, b: Seq<FeedItemData>)
    requires
        distinct_ids(a),
        distinct_ids(b),
        forall|i: int, j: int| #![trigger a[i], b[j]] 0 <= i < a.len() && 0 <= j < b.len() ==> a[i].id != b[j].id,
    ensures
        distinct_ids(a + b),
{
    assert forall|i: int, j: int| 0 <= i < j < (a + b).len() implies (a + b)[i].id
        != (a + b)[j].id by {
        if j < a.len() {
            assert((a + b)[i] == a[i] && (a + b)[j] == a[j]);
        } else if i >= a.len() {
            assert((a + b)[i] == b[i - a.len()] && (a + b)[j] == b[j - a.len()]);
        } else {
            assert((a + b)[i] == a[i] && (a + b)[j] == b[j - a.len()]);
        }
    }
}

/// No-duplicate invariant of the merge: merging any fetched batch into a
/// well-formed state, under either retention policy, yields a well-formed
/// state — `all_ids` never contains a repeated id and `items` holds at
/// most one entry per id.
pub proof fn lemma_merged_wf(state: FeedStateData, batch: Seq<FeedItemData>, preserve_items: bool)
    requires
        state.wf(),
    ensures
        merged(state, batch, preserve_items).wf(),
{
    let deduped = dedup_batch(batch);
    let fresh = new_from(deduped, state.all_ids, 0);
    let fresh_ids = ids_of(fresh);
    let present = ids_of(deduped);
    let kept = retained_from(state.unseen_ids, present, 0);
    lemma_dedup_from_props(batch, 0);
    lemma_new_from_props(deduped, state.all_ids, 0);
    lemma_retained_from_props(state.unseen_ids, present, 0);

    // Ids of the new items are pairwise distinct and unknown to the state.
    assert forall|m: int| 0 <= m < fresh.len() implies !state.all_ids.contains(
        #[trigger] fresh[m].id,
    ) by {
        assert(fresh.contains(fresh[m]));
    }
    assert(distinct(fresh_ids)) by {
        assert(distinct_ids(fresh));
        assert forall|i: int, j: int| 0 <= i < j < fresh_ids.len() implies fresh_ids[i]
            != fresh_ids[j] by {
            assert(fresh_ids[i] == fresh[i].id && fresh_ids[j] == fresh[j].id);
        }
    }

    // Every retained unseen id was already retained in `all_ids`.
    assert forall|m: int| 0 <= m < kept.len() implies state.all_ids.contains(
        #[trigger] kept[m],
    ) by {
        assert(kept.contains(kept[m]));
        let j = choose|j: int| 0 <= j < state.unseen_ids.len() && state.unseen_ids[j] == kept[m];
        assert(state.all_ids.contains(state.unseen_ids[j]));
    }

    // The recomputed unseen sequence has no duplicates.
    assert(distinct(kept + fresh_ids)) by {
        assert forall|i: int, j: int| #![trigger kept[i], fresh_ids[j]]
            0 <= i < kept.len() && 0 <= j < fresh_ids.len() implies kept[i] != fresh_ids[j] by {
            assert(fresh_ids[j] == fresh[j].id);
            assert(state.all_ids.contains(kept[i]));
            if kept[i] == fresh[j].id {
                assert(state.all_ids.contains(fresh[j].id));
            }
        }
        lemma_distinct_concat(kept, fresh_ids);
    }

    if preserve_items {
        let out = merged(state, batch, preserve_items);

        assert(distinct(out.all_ids)) by {
            assert forall|i: int, j: int| #![trigger state.all_ids[i], fresh_ids[j]]
                0 <= i < state.all_ids.len() && 0 <= j < fresh_ids.len() implies state.all_ids[i]
                != fresh_ids[j] by {
                assert(fresh_ids[j] == fresh[j].id);
                if state.all_ids[i] == fresh[j].id {
                    assert(state.all_ids.contains(fresh[j].id));
                }
            }
            lemma_distinct_concat(state.all_ids, fresh_ids);
        }

        assert(distinct_ids(out.items)) by {
            assert forall|i: int, j: int| #![trigger state.items[i], fresh[j]]
                0 <= i < state.items.len() && 0 <= j < fresh.len() implies state.items[i].id
                != fresh[j].id by {
                assert(state.all_ids.contains(state.items[i].id));
                if state.items[i].id == fresh[j].id {
                    assert(state.all_ids.contains(fresh[j].id));
                }
            }
            lemma_distinct_ids_concat(state.items, fresh);
        }

        assert forall|k: int| 0 <= k < out.unseen_ids.len() implies out.all_ids.contains(
            #[trigger] out.unseen_ids[k],
        ) by {
            if k < kept.len() {
                let i = choose|i: int| 0 <= i < state.all_ids.len() && state.all_ids[i] == kept[k];
                assert(out.all_ids[i] == kept[k]);
            } else {
                assert(out.unseen_ids[k] == fresh_ids[k - kept.len()]);
                assert(out.all_ids[state.all_ids.len() + (k - kept.len())] == fresh_ids[k
                    - kept.len()]);
            }
        }

        assert forall|k: int| 0 <= k < out.items.len() implies out.all_ids.contains(
            #[trigger] out.items[k].id,
        ) by {
            if k < state.items.len() {
                assert(out.items[k] == state.items[k]);
                let i = choose|i: int|
                    0 <= i < state.all_ids.len() && state.all_ids[i] == state.items[k].id;
                assert(out.all_ids[i] == state.items[k].id);
            } else {
                assert(out.items[k] == fresh[k - state.items.len()]);
                assert(out.all_ids[state.all_ids.len() + (k - state.items.len())] == fresh[k
                    - state.items.len()].id);
            }
        }

        assert forall|k: int| 0 <= k < out.all_ids.len() implies has_item_with_id(
            out.items,
            #[trigger] out.all_ids[k],
        ) by {
            if k < state.all_ids.len() {
                assert(out.all_ids[k] == state.all_ids[k]);
                assert(has_item_with_id(state.items, state.all_ids[k]));
                let j = choose|j: int|
                    0 <= j < state.items.len() && state.items[j].id == state.all_ids[k];
                assert(out.items[j] == state.items[j]);
                assert(out.items[j].id == out.all_ids[k]);
            } else {
                let m = k - state.all_ids.len();
                assert(out.all_ids[k] == fresh_ids[m]);
                assert(fresh_ids[m] == fresh[m].id);
                assert(out.items[state.items.len() + m] == fresh[m]);
                assert(out.items[state.items.len() + m].id == out.all_ids[k]);
            }
        }
    } else {
        let out = merged(state, batch, preserve_items);

        assert(distinct(out.all_ids)) by {
            assert(distinct_ids(deduped));
            assert forall|i: int, j: int| 0 <= i < j < present.len() implies present[i]
                != present[j] by {
                assert(present[i] == deduped[i].id && present[j] == deduped[j].id);
            }
        }

        assert(distinct_ids(out.items));

        assert forall|k: int| 0 <= k < out.unseen_ids.len() implies out.all_ids.contains(
            #[trigger] out.unseen_ids[k],
        ) by {
            if k < kept.len() {
                assert(kept.contains(kept[k]));
                assert(present.contains(kept[k]));
            } else {
                let m = k - kept.len();
                assert(out.unseen_ids[k] == fresh_ids[m]);
                assert(fresh.contains(fresh[m]));
                let j = choose|j: int| 0 <= j < deduped.len() && deduped[j] == fresh[m];
                assert(present[j] == fresh[m].id);
            }
        }

        assert forall|k: int| 0 <= k < out.items.len() implies out.all_ids.contains(
            #[trigger] out.items[k].id,
        ) by {
            assert(present[k] == deduped[k].id);
        }

        assert forall|k: int| 0 <= k < out.all_ids.len() implies has_item_with_id(
            out.items,
            #[trigger] out.all_ids[k],
        ) by {
            assert(out.all_ids[k] == present[k]);
            assert(present[k] == deduped[k].id);
            assert(out.items[k].id == out.all_ids[k]);
        }
    }
}

/// Idempotence of the merge: merging the identical fetch result twice in
/// a row under the preserving policy finds no new items the second time
/// and leaves the whole state — `items` included — unchanged.
pub proof fn lemma_merge_idempotent(state: FeedStateData, batch: Seq<FeedItemData>)
    requires
        state.wf(),
    ensures
        !found_new(merged(state, batch, true), batch),
        merged(merged(state, batch, true), batch, true) == merged(state, batch, true),
{
    let deduped = dedup_batch(batch);
    let fresh = new_from(deduped, state.all_ids, 0);
    let fresh_ids = ids_of(fresh);
    let present = ids_of(deduped);
    let once = merged(state, batch, true);
    lemma_dedup_from_props(batch, 0);
    lemma_new_from_props(deduped, state.all_ids, 0);
    lemma_retained_from_props(state.unseen_ids, present, 0);

    // After the first merge every deduplicated batch id is retained.
    assert forall|j: int| 0 <= j < deduped.len() implies once.all_ids.contains(
        #[trigger] deduped[j].id,
    ) by {
        if state.all_ids.contains(deduped[j].id) {
            let i = choose|i: int|
                0 <= i < state.all_ids.len() && state.all_ids[i] == deduped[j].id;
            assert(once.all_ids[i] == deduped[j].id);
        } else {
            assert(fresh.contains(deduped[j]));
            let m = choose|m: int| 0 <= m < fresh.len() && fresh[m] == deduped[j];
            assert(once.all_ids[state.all_ids.len() + m] == deduped[j].id);
        }
    }
    lemma_new_from_empty(deduped, once.all_ids, 0);
    assert(new_items(once, batch).len() == 0);

    let twice = merged(once, batch, true);
    assert(twice.all_ids =~= once.all_ids);
    assert(twice.items =~= once.items);

    // Every id of the recomputed unseen sequence is still present
    // upstream, so the second retention keeps all of it.
    assert forall|j: int| 0 <= j < once.unseen_ids.len() implies present.contains(
        #[trigger] once.unseen_ids[j],
    ) by {
        let kept = retained_from(state.unseen_ids, present, 0);
        if j < kept.len() {
            assert(kept.contains(kept[j]));
        } else {
            let m = j - kept.len();
            assert(once.unseen_ids[j] == fresh_ids[m]);
            assert(fresh.contains(fresh[m]));
            let i = choose|i: int| 0 <= i < deduped.len() && deduped[i] == fresh[m];
            assert(present[i] == fresh[m].id);
        }
    }
    lemma_retained_all_present(once.unseen_ids, present, 0);
    assert(once.unseen_ids.skip(0) =~= once.unseen_ids);
    assert(ids_of(Seq::<FeedItemData>::empty()) =~= Seq::<Seq<char>>::empty());
    assert(twice.unseen_ids =~= once.unseen_ids);
    assert(twice =~= once);
}

/// The no-duplicate invariant holds of every state reachable by feeding
/// any sequence of fetch results, one after the other, into the merge
/// engine, starting from any well-formed state.
pub open spec fn merged_all(
    state: FeedStateData,
    batches: Seq<Seq<FeedItemData>>,
    preserve_items: bool,
) -> FeedStateData
    decreases batches.len(),
{
    if batches.len() == 0 {
        state
    } else {
        merged_all(merged(state, batches[0], preserve_items), batches.skip(1), preserve_items)
    }
}

/// Whether `id` occurs among `ids`.
fn contains_id(ids: &Vec<String>, id: &String) -> (r: bool)
    ensures
        r == ids.deep_view().contains(id@),
{
    let mut i: usize = 0;
    while i < ids.len()
        invariant
            i <= ids.len(),
            forall|j: int| 0 <= j < i ==> ids.deep_view()[j] != id@,
        decreases ids.len() - i,
    {
        if ids[i] == *id {
            assert(ids.deep_view()[i as int] == id@);
            return true;
        }
        i += 1;
    }
    false
}

/// Whether some item at or after position `from` carries `id`.
fn id_in_suffix(batch: &Vec<FeedItem>, from: usize, id: &String) -> (r: bool)
    ensures
        r == exists|j: int| from <= j < batch.len() && batch.deep_view()[j].id == id@,
{
    let mut i: usize = from;
    if i > batch.len() {
        i = batch.len();
    }
    while i < batch.len()
        invariant
            from <= i || (i == batch.len() && from > batch.len()),
            i <= batch.len(),
            forall|j: int| from <= j < i ==> batch.deep_view()[j].id != id@,
        decreases batch.len() - i,
    {
        if batch[i].id == *id {
            assert(batch.deep_view()[i as int].id == id@);
            return true;
        }
        i += 1;
    }
    false
}

/// Whether some item of `items` carries `id`.
fn items_contain_id(items: &Vec<FeedItem>, id: &String) -> (r: bool)
    ensures
        r == ids_of(items.deep_view()).contains(id@),
{
    let mut i: usize = 0;
    while i < items.len()
        invariant
            i <= items.len(),
            forall|j: int| 0 <= j < i ==> ids_of(items.deep_view())[j] != id@,
        decreases items.len() - i,
    {
        if items[i].id == *id {
            assert(ids_of(items.deep_view())[i as int] == id@);
            return true;
        }
        proof {
            assert(ids_of(items.deep_view())[i as int] == items.deep_view()[i as int].id);
        }
        i += 1;
    }
    false
}

/// The ids of `items`, in order, as owned strings.
fn ids_vec(items: &Vec<FeedItem>) -> (r: Vec<String>)
    ensures
        r.deep_view() == ids_of(items.deep_view()),
{
    let mut out: Vec<String> = Vec::new();
    let mut i: usize = 0;
    while i < items.len()
        invariant
            i <= items.len(),
            out.len() == i,
            forall|j: int| 0 <= j < i ==> out.deep_view()[j] == ids_of(items.deep_view())[j],
        decreases items.len() - i,
    {
        let ghost prev = out.deep_view();
        out.push(items[i].id.clone());
        proof {
            assert(out.deep_view() =~= prev.push(items.deep_view()[i as int].id));
            assert(ids_of(items.deep_view())[i as int] == items.deep_view()[i as int].id);
        }
        i += 1;
    }
    proof {
        assert(out.deep_view() =~= ids_of(items.deep_view()));
    }
    out
}

/// Deduplicate one fetched batch by id, last occurrence winning.
fn dedup_items(batch: &Vec<FeedItem>) -> (r: Vec<FeedItem>)
    ensures
        r.deep_view() == dedup_batch(batch.deep_view()),
{
    let ghost bv = batch.deep_view();
    let mut out: Vec<FeedItem> = Vec::new();
    let mut i: usize = 0;
    while i < batch.len()
        invariant
            i <= batch.len(),
            bv == batch.deep_view(),
            out.deep_view() + dedup_from(bv, i as int) == dedup_batch(bv),
        decreases batch.len() - i,
    {
        let ghost prev = out.deep_view();
        let later = id_in_suffix(batch, i + 1, &batch[i].id);
        proof {
            assert(last_occurrence(bv, i as int) <==> !later);
        }
        if !later {
            out.push(batch[i].clone());
            proof {
                assert(out.deep_view() =~= prev.push(bv[i as int]));
                assert(dedup_from(bv, i as int) == seq![bv[i as int]] + dedup_from(bv, i as int + 1));
                assert(out.deep_view() + dedup_from(bv, i as int + 1) =~= prev + dedup_from(
                    bv,
                    i as int,
                ));
            }
        }
        i += 1;
    }
    proof {
        assert(dedup_from(bv, batch.len() as int) =~= Seq::<FeedItemData>::empty());
        assert(out.deep_view() =~= out.deep_view() + dedup_from(bv, batch.len() as int));
    }
    out
}

/// The items of `items` whose id is not among `known`, in order.
fn new_items_vec(items: &Vec<FeedItem>, known: &Vec<String>) -> (r: Vec<FeedItem>)
    ensures
        r.deep_view() == new_from(items.deep_view(), known.deep_view(), 0),
{
    let ghost iv = items.deep_view();
    let ghost kv = known.deep_view();
    let mut out: Vec<FeedItem> = Vec::new();
    let mut i: usize = 0;
    while i < items.len()
        invariant
            i <= items.len(),
            iv == items.deep_view(),
            kv == known.deep_view(),
            out.deep_view() + new_from(iv, kv, i as int) == new_from(iv, kv, 0),
        decreases items.len() - i,
    {
        let ghost prev = out.deep_view();
        let seen = contains_id(known, &items[i].id);
        if !seen {
            out.push(items[i].clone());
            proof {
                assert(out.deep_view() =~= prev.push(iv[i as int]));
                assert(new_from(iv, kv, i as int) == seq![iv[i as int]] + new_from(iv, kv, i as int + 1));
                assert(out.deep_view() + new_from(iv, kv, i as int + 1) =~= prev + new_from(
                    iv,
                    kv,
                    i as int,
                ));
            }
        }
        i += 1;
    }
    proof {
        assert(new_from(iv, kv, items.len() as int) =~= Seq::<FeedItemData>::empty());
        assert(out.deep_view() =~= out.deep_view() + new_from(iv, kv, items.len() as int));
    }
    out
}

/// The ids of `unseen` still present among the ids of `items`, in order.
fn retained_ids(unseen: &Vec<String>, items: &Vec<FeedItem>) -> (r: Vec<String>)
    ensures
        r.deep_view() == retained_from(unseen.deep_view(), ids_of(items.deep_view()), 0),
{
    let ghost uv = unseen.deep_view();
    let ghost pv = ids_of(items.deep_view());
    let mut out: Vec<String> = Vec::new();
    let mut i: usize = 0;
    while i < unseen.len()
        invariant
            i <= unseen.len(),
            uv == unseen.deep_view(),
            pv == ids_of(items.deep_view()),
            out.deep_view() + retained_from(uv, pv, i as int) == retained_from(uv, pv, 0),
        decreases unseen.len() - i,
    {
        let ghost prev = out.deep_view();
        let present = items_contain_id(items, &unseen[i]);
        if present {
            out.push(unseen[i].clone());
            proof {
                assert(out.deep_view() =~= prev.push(uv[i as int]));
                assert(retained_from(uv, pv, i as int) == seq![uv[i as int]] + retained_from(
                    uv,
                    pv,
                    i as int + 1,
                ));
                assert(out.deep_view() + retained_from(uv, pv, i as int + 1) =~= prev
                    + retained_from(uv, pv, i as int));
            }
        }
        i += 1;
    }
    proof {
        assert(retained_from(uv, pv, unseen.len() as int) =~= Seq::<Seq<char>>::empty());
        assert(out.deep_view() =~= out.deep_view() + retained_from(uv, pv, unseen.len() as int));
    }
    out
}

impl FeedState {
    /// Merge one fetched batch into the state under the `preserve_items`
    /// policy, and report whether any new item was found — the report
    /// gates whether a content rebuild is requested.
    pub fn merge(&mut self, batch: &Vec<FeedItem>, preserve_items: bool) -> (found: bool)
        requires
            old(self)@.wf(),
        ensures
            final(self)@ == merged(old(self)@, batch.deep_view(), preserve_items),
            final(self)@.wf(),
            found == found_new(old(self)@, batch.deep_view()),
    {
        let ghost pre = self@;
        let ghost bv = batch.deep_view();
        let deduped = dedup_items(batch);
        let fresh = new_items_vec(&deduped, &self.all_ids);
        let found = fresh.len() > 0;
        let mut unseen = retained_ids(&self.unseen_ids, &deduped);
        let mut fresh_ids = ids_vec(&fresh);
        unseen.append(&mut fresh_ids);
        proof {
            assert(unseen.deep_view() =~= merged(pre, bv, preserve_items).unseen_ids);
        }
        if preserve_items {
            let mut more_ids = ids_vec(&fresh);
            let mut more_items = fresh;
            self.all_ids.append(&mut more_ids);
            self.items.append(&mut more_items);
            self.unseen_ids = unseen;
            proof {
                assert(self@.all_ids =~= merged(pre, bv, preserve_items).all_ids);
                assert(self@.items =~= merged(pre, bv, preserve_items).items);
            }
        } else {
            self.all_ids = ids_vec(&deduped);
            self.unseen_ids = unseen;
            self.items = deduped;
        }
        proof {
            lemma_merged_wf(pre, bv, preserve_items);
            assert(self@ =~= merged(pre, bv, preserve_items));
        }
        found
    }
}

/// See `merged_all`: well-formedness survives any whole history of fetches.
pub proof fn lemma_merged_all_wf(
    state: FeedStateData,
    batches: Seq<Seq<FeedItemData>>,
    preserve_items: bool,
)
    requires
        state.wf(),
    ensures
        merged_all(state, batches, preserve_items).wf(),
    decreases batches.len(),
{
    if batches.len() == 0 {
    } else {
        lemma_merged_wf(state, batches[0], preserve_items);
        lemma_merged_all_wf(merged(state, batches[0], preserve_items), batches.skip(1), preserve_items);
    }
}

} // verus!
