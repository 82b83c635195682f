//! The feed source client: turn one fetched response body into the
//! ordered items of the feed, and a failed attempt into its synthetic
//! placeholder batch. The network transfer itself happens outside the
//! core; only plain bytes come in.

use vstd::prelude::*;
use vstd::string::StringExecFns;

use crate::errors::FetchError;
use crate::errors::FetchErrorData;
use crate::feed::FeedItem;
use crate::feed::FeedItemData;

verus! {

/// The four optional fields one syndication item carries, exactly as the
/// parser hands them out: nothing chosen, nothing derived.
pub struct RawItem {
    pub guid: Option<String>,
    pub title: Option<String>,
    pub link: Option<String>,
    pub description: Option<String>,
}

/// Mathematical model of a `RawItem`.
#[verifier::ext_equal]
pub struct RawItemData {
    pub guid: Option<Seq<char>>,
    pub title: Option<Seq<char>>,
    pub link: Option<Seq<char>>,
    pub description: Option<Seq<char>>,
}

impl View for RawItem {
    type V = RawItemData;

    open spec fn view(&self) -> RawItemData {
        RawItemData {
            guid: self.guid.deep_view(),
            title: self.title.deep_view(),
            link: self.link.deep_view(),
            description: self.description.deep_view(),
        }
    }
}

impl DeepView for RawItem {
    type V = RawItemData;

    open spec fn deep_view(&self) -> RawItemData {
        self.view()
    }
}

impl Clone for RawItem {
    fn clone(&self) -> (r: Self)
        ensures
            r == *self,
    {
        RawItem {
            guid: match &self.guid {
                Some(g) => Some(g.clone()),
                None => None,
            },
            title: match &self.title {
                Some(t) => Some(t.clone()),
                None => None,
            },
            link: match &self.link {
                Some(l) => Some(l.clone()),
                None => None,
            },
            description: match &self.description {
                Some(d) => Some(d.clone()),
                None => None,
            },
        }
    }
}

/// The raw items that the syndication parser reads from an XML document,
/// as a function of the bytes alone; `None` when the document is
/// malformed.
pub uninterp spec fn parsed_feed_of(bytes: Seq<u8>) -> Option<Seq<RawItemData>>;

/// The string an optional source field contributes: its text, or nothing.
pub open spec fn or_empty(s: Option<Seq<char>>) -> Seq<char> {
    match s {
        Some(t) => t,
        None => Seq::empty(),
    }
}

/// What identifies an item: its guid when the source gives one, else its
/// link, else its title.
pub open spec fn item_id_of(guid: Option<Seq<char>>, link: Seq<char>, title: Seq<char>) -> Seq<
    char,
> {
    match guid {
        Some(g) => g,
        None => if link.len() > 0 {
            link
        } else {
            title
        },
    }
}

impl FeedItem {
    /// Assemble an item from the optional fields a syndication source
    /// carries. The source's textual publication date is not interpreted
    /// by the core, so `published` stays empty here.
    pub fn from_parts(
        guid: Option<String>,
        title: Option<String>,
        link: Option<String>,
        description: Option<String>,
    ) -> (r: FeedItem)
        ensures
            r@.id == item_id_of(
                guid.deep_view(),
                or_empty(link.deep_view()),
                or_empty(title.deep_view()),
            ),
            r@.title == or_empty(title.deep_view()),
            r@.link == or_empty(link.deep_view()),
            r@.description == description.deep_view(),
            r@.published is None,
    {
        let title_s: String = match title {
            Some(t) => t,
            None => String::new(),
        };
        let link_s: String = match link {
            Some(l) => l,
            None => String::new(),
        };
        let id: String = match guid {
            Some(g) => g,
            None => if link_s.as_str().is_empty() {
                title_s.clone()
            } else {
                link_s.clone()
            },
        };
        FeedItem { id, title: title_s, link: link_s, description, published: None }
    }
}

/// The item one raw parse entry denotes: absent title and link read as
/// empty, and the identity follows `item_id_of`.
pub open spec fn item_of_raw(r: RawItemData) -> FeedItemData {
    FeedItemData {
        id: item_id_of(r.guid, or_empty(r.link), or_empty(r.title)),
        title: or_empty(r.title),
        link: or_empty(r.link),
        description: r.description,
        published: None,
    }
}

/// Relies on `rss::Channel::read_from`: reading an RSS document out of a
/// byte buffer is a function of the bytes alone, and a document that is
/// no well-formed feed is rejected with an error. The body only moves
/// each item's fields out; every choice over them is made in verified
/// code.
#[verifier::external_body]
fn parse_channel(bytes: &Vec<u8>) -> (r: Option<Vec<RawItem>>)
    ensures
        r is Some <==> parsed_feed_of(bytes@) is Some,
        r matches Some(raw) ==> raw.deep_view() == parsed_feed_of(bytes@).unwrap(),
{
    let reader = std::io::BufReader::new(std::io::Cursor::new(bytes.as_slice()));
    match rss::Channel::read_from(reader) {
        Ok(channel) => Some(
            channel.items.into_iter()
                .map(|it| RawItem {
                    guid: it.guid.map(|g| g.value),
                    title: it.title, link: it.link, description: it.description })
                .collect(),
        ),
        Err(_) => None,
    }
}

/// Assemble the items a parsed document denotes, in document order.
fn items_from_raw(raw: &Vec<RawItem>) -> (r: Vec<FeedItem>)
    ensures
        r.deep_view() == raw.deep_view().map_values(|x: RawItemData| item_of_raw(x)),
{
    let mut out: Vec<FeedItem> = Vec::new();
    let mut i: usize = 0;
    while i < raw.len()
        invariant
            i <= raw.len(),
            out.deep_view().len() == i,
            forall|j: int| 0 <= j < i ==> out.deep_view()[j] == item_of_raw(
                #[trigger] raw.deep_view()[j],
            ),
        decreases raw.len() - i,
    {
        let ghost prev = out.deep_view();
        let entry = raw[i].clone();
        let item = FeedItem::from_parts(entry.guid, entry.title, entry.link, entry.description);
        proof {
            assert(item@ =~= item_of_raw(raw.deep_view()[i as int]));
        }
        out.push(item);
        proof {
            assert(out.deep_view() =~= prev.push(item_of_raw(raw.deep_view()[i as int])));
        }
        i += 1;
    }
    proof {
        assert(out.deep_view() =~= raw.deep_view().map_values(|x: RawItemData| item_of_raw(x)));
    }
    out
}

/// The diagnostic reported when a response body does not parse.
pub open spec fn parse_failure_message(url: Seq<char>) -> Seq<char> {
    "Failed to read feed content for "@ + url
}

/// Parse one fetched response body into the ordered items of the feed.
/// Parse failures are captured and reported as `Err`, never raised: the
/// result is `Ok` exactly when the bytes form a well-formed feed, and
/// then holds, in document order, the item each raw entry denotes — in
/// particular, each item's identity is `item_id_of` of its raw fields.
pub fn parse_feed(url: &str, body: &Vec<u8>) -> (r: Result<Vec<FeedItem>, FetchError>)
    ensures
        r is Ok <==> parsed_feed_of(body@) is Some,
        r matches Ok(items) ==> items.deep_view() == parsed_feed_of(body@).unwrap().map_values(
            |x: RawItemData| item_of_raw(x),
        ),
        r matches Ok(items) ==> forall|j: int| 0 <= j < items.deep_view().len()
            ==> (#[trigger] items.deep_view()[j]).id == item_id_of(
            parsed_feed_of(body@).unwrap()[j].guid,
            or_empty(parsed_feed_of(body@).unwrap()[j].link),
            or_empty(parsed_feed_of(body@).unwrap()[j].title),
        ),
        r matches Err(e) ==> e@ == FetchErrorData::Parse(parse_failure_message(url@)),
{
    match parse_channel(body) {
        Some(raw) => {
            let items = items_from_raw(&raw);
            proof {
                assert forall|j: int| 0 <= j < items.deep_view().len() implies (
                #[trigger] items.deep_view()[j]).id == item_id_of(
                    parsed_feed_of(body@).unwrap()[j].guid,
                    or_empty(parsed_feed_of(body@).unwrap()[j].link),
                    or_empty(parsed_feed_of(body@).unwrap()[j].title),
                ) by {
                    assert(items.deep_view()[j] == item_of_raw(parsed_feed_of(body@).unwrap()[j]));
                }
            }
            Ok(items)
        },
        None => Err(
            FetchError::Parse(String::from_str("Failed to read feed content for ").concat(url)),
        ),
    }
}

/// The synthetic placeholder for a failed fetch: one item whose title
/// carries the diagnostic and whose link is empty, so the ticker never
/// silently goes blank.
pub open spec fn synthetic_item(message: Seq<char>) -> FeedItemData {
    FeedItemData {
        id: message,
        title: message,
        link: Seq::empty(),
        description: None,
        published: None,
    }
}

/// Build the synthetic placeholder item for one failure.
pub fn synthetic_error_item(error: &FetchError) -> (r: FeedItem)
    ensures
        r@ == synthetic_item(error@.message()),
{
    let msg = error.message();
    let r = FeedItem {
        id: msg.clone(),
        title: msg.clone(),
        link: String::new(),
        description: None,
        published: None,
    };
    proof {
        assert(r@ =~= synthetic_item(error@.message()));
    }
    r
}

/// The batch a fetch outcome hands to the merge engine: the fetched
/// items on success, the one-item synthetic placeholder on failure.
pub open spec fn batch_of(result: Result<Seq<FeedItemData>, FetchErrorData>) -> Seq<FeedItemData> {
    match result {
        Ok(items) => items,
        Err(e) => seq![synthetic_item(e.message())],
    }
}

} // verus!
