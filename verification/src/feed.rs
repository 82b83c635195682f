//! Feed items and the deduplicated feed state shown by the ticker.

use vstd::prelude::*;

verus! {

/// Why a scheduling cycle stopped re-arming itself.
pub enum ReasonForStopping {
    FaultyStop,
}

/// One item of a syndicated feed. Identity is `id`: two items with the
/// same `id` are the same logical item regardless of content differences.
pub struct FeedItem {
    pub id: String,
    pub title: String,
    pub link: String,
    pub description: Option<String>,
    pub published: Option<i64>,
}

/// Mathematical model of a `FeedItem`: every string as a sequence of
/// characters.
#[verifier::ext_equal]
pub struct FeedItemData {
    pub id: Seq<char>,
    pub title: Seq<char>,
    pub link: Seq<char>,
    pub description: Option<Seq<char>>,
    pub published: Option<i64>,
}

impl View for FeedItem {
    type V = FeedItemData;

    open spec fn view(&self) -> FeedItemData {
        FeedItemData {
            id: self.id@,
            title: self.title@,
            link: self.link@,
            description: self.description.deep_view(),
            published: self.published,
        }
    }
}

impl DeepView for FeedItem {
    type V = FeedItemData;

    open spec fn deep_view(&self) -> FeedItemData {
        self.view()
    }
}

impl Clone for FeedItem {
    fn clone(&self) -> (r: Self)
        ensures
            r == *self,
    {
        FeedItem {
            id: self.id.clone(),
            title: self.title.clone(),
            link: self.link.clone(),
            description: match &self.description {
                Some(d) => Some(d.clone()),
                None => None,
            },
            published: self.published,
        }
    }
}

/// The deduplicated, order-stable view of feed items that the
/// presentation layer renders.
pub struct FeedState {
    /// Every id ever retained; never shrinks except by pruning against
    /// the latest fetch result.
    pub all_ids: Vec<String>,
    /// Ids not yet seen by the user, in insertion order, no duplicates.
    pub unseen_ids: Vec<String>,
    /// The items in rendering order.
    pub items: Vec<FeedItem>,
}

/// Mathematical model of a `FeedState`.
#[verifier::ext_equal]
pub struct FeedStateData {
    pub all_ids: Seq<Seq<char>>,
    pub unseen_ids: Seq<Seq<char>>,
    pub items: Seq<FeedItemData>,
}

impl View for FeedState {
    type V = FeedStateData;

    open spec fn view(&self) -> FeedStateData {
        FeedStateData {
            all_ids: self.all_ids.deep_view(),
            unseen_ids: self.unseen_ids.deep_view(),
            items: self.items.deep_view(),
        }
    }
}

/// No two elements of `s` are equal.
pub open spec fn distinct<T>(s: Seq<T>) -> bool {
    forall|i: int, j: int| 0 <= i < j < s.len() ==> s[i] != s[j]
}

/// No two items of `s` share an id.
pub open spec fn distinct_ids(s: Seq<FeedItemData>) -> bool {
    forall|i: int, j: int| 0 <= i < j < s.len() ==> s[i].id != s[j].id
}

/// The ids of the items of `s`, in order.
pub open spec fn ids_of(s: Seq<FeedItemData>) -> Seq<Seq<char>> {
    s.map_values(|it: FeedItemData| it.id)
}

/// Whether some item of `items` carries `id`.
pub open spec fn has_item_with_id(items: Seq<FeedItemData>, id: Seq<char>) -> bool {
    exists|j: int| 0 <= j < items.len() && items[j].id == id
}

/// How many items of `items` carry `id`.
pub open spec fn count_with_id(items: Seq<FeedItemData>, id: Seq<char>) -> nat
    decreases items.len(),
{
    if items.len() == 0 {
        0
    } else {
        count_with_id(items.drop_last(), id) + if items.last().id == id {
            1nat
        } else {
            0nat
        }
    }
}

/// In a sequence of items with pairwise distinct ids, an id is carried
/// exactly once when it is carried at all.
pub proof fn lemma_count_with_id_distinct(items: Seq<FeedItemData>, id: Seq<char>)
    requires
        distinct_ids(items),
    ensures
        has_item_with_id(items, id) ==> count_with_id(items, id) == 1,
        !has_item_with_id(items, id) ==> count_with_id(items, id) == 0,
    decreases items.len(),
{
    if items.len() == 0 {
    } else {
        let prefix = items.drop_last();
        assert(distinct_ids(prefix)) by {
            assert forall|i: int, j: int| 0 <= i < j < prefix.len() implies prefix[i].id
                != prefix[j].id by {
                assert(prefix[i] == items[i] && prefix[j] == items[j]);
            }
        }
        lemma_count_with_id_distinct(prefix, id);
        if items.last().id == id {
            assert forall|j: int| 0 <= j < prefix.len() implies prefix[j].id != id by {
                assert(items[j].id != items[items.len() - 1].id);
            }
            assert(!has_item_with_id(prefix, id));
        } else {
            if has_item_with_id(items, id) {
                let j = choose|j: int| 0 <= j < items.len() && items[j].id == id;
                assert(prefix[j] == items[j]);
                assert(has_item_with_id(prefix, id));
            } else {
                assert(!has_item_with_id(prefix, id)) by {
                    if has_item_with_id(prefix, id) {
                        let j = choose|j: int| 0 <= j < prefix.len() && prefix[j].id == id;
                        assert(items[j].id == id);
                    }
                }
            }
        }
    }
}

impl FeedStateData {
    /// The no-duplicate invariant: `all_ids` never contains a repeated
    /// id, `items` holds at most one entry per id, every id in
    /// `unseen_ids` or `items` is present in `all_ids`, and every
    /// retained id is the id of some rendered item.
    pub open spec fn wf(self) -> bool {
        &&& distinct(self.all_ids)
        &&& distinct(self.unseen_ids)
        &&& distinct_ids(self.items)
        &&& forall|k: int| 0 <= k < self.unseen_ids.len() ==> self.all_ids.contains(#[trigger] self.unseen_ids[k])
        &&& forall|k: int| 0 <= k < self.items.len() ==> self.all_ids.contains(#[trigger] self.items[k].id)
        &&& forall|k: int| 0 <= k < self.all_ids.len() ==> has_item_with_id(
            self.items,
            #[trigger] self.all_ids[k],
        )
    }
}

/// The state a feed starts in: nothing fetched, nothing retained.
pub open spec fn empty_feed_state() -> FeedStateData {
    FeedStateData { all_ids: Seq::empty(), unseen_ids: Seq::empty(), items: Seq::empty() }
}

impl FeedState {
    /// A fresh, empty feed state.
    pub fn new() -> (r: FeedState)
        ensures
            r@ == empty_feed_state(),
            r@.wf(),
    {
        let r = FeedState { all_ids: Vec::new(), unseen_ids: Vec::new(), items: Vec::new() };
        proof {
            assert(r@.all_ids =~= empty_feed_state().all_ids);
            assert(r@.unseen_ids =~= empty_feed_state().unseen_ids);
            assert(r@.items =~= empty_feed_state().items);
        }
        r
    }
}

} // verus!
