//! Configuration of the update core: the feeds to poll, the ticker
//! cadence, and the retention policy. Loading and saving the settings
//! store happens outside the core; only plain values come in.

use vstd::prelude::*;
use vstd::string::StrSliceExecFns;

use crate::errors::CoreError;

verus! {

/// One configured feed: its URL and its polling cadence in minutes.
#[derive(Debug)]
pub struct FeedUrl {
    pub url: String,
    pub polling_interval: u32,
}

/// Mathematical model of a `FeedUrl`.
#[verifier::ext_equal]
pub struct FeedUrlData {
    pub url: Seq<char>,
    pub polling_interval: u32,
}

impl View for FeedUrl {
    type V = FeedUrlData;

    open spec fn view(&self) -> FeedUrlData {
        FeedUrlData { url: self.url@, polling_interval: self.polling_interval }
    }
}

impl DeepView for FeedUrl {
    type V = FeedUrlData;

    open spec fn deep_view(&self) -> FeedUrlData {
        self.view()
    }
}

impl Clone for FeedUrl {
    fn clone(&self) -> (r: Self)
        ensures
            r == *self,
    {
        FeedUrl { url: self.url.clone(), polling_interval: self.polling_interval }
    }
}

/// The configuration the core runs under.
pub struct Config {
    pub feeds_urls: Vec<FeedUrl>,
    /// How far the ticker advances per animation tick, in pixels.
    pub ticker_speed: u32,
    /// The render width handed to the presentation layer.
    pub width: i32,
    /// Whether merged items accumulate (append-only history) or each
    /// fetch replaces the displayed items wholesale.
    pub preserve_items: bool,
    /// Where the host keeps the persisted settings, when it told us.
    pub save_location: Option<String>,
}

/// Mathematical model of a `Config`.
#[verifier::ext_equal]
pub struct ConfigData {
    pub feeds_urls: Seq<FeedUrlData>,
    pub ticker_speed: u32,
    pub width: i32,
    pub preserve_items: bool,
    pub save_location: Option<Seq<char>>,
}

impl View for Config {
    type V = ConfigData;

    open spec fn view(&self) -> ConfigData {
        ConfigData {
            feeds_urls: self.feeds_urls.deep_view(),
            ticker_speed: self.ticker_speed,
            width: self.width,
            preserve_items: self.preserve_items,
            save_location: self.save_location.deep_view(),
        }
    }
}

/// The configuration the core starts with before anything is loaded:
/// no feeds, one pixel per tick, a full-width strip, replace-per-fetch.
pub open spec fn default_config() -> ConfigData {
    ConfigData {
        feeds_urls: Seq::empty(),
        ticker_speed: 1,
        width: 1920,
        preserve_items: false,
        save_location: None,
    }
}

impl Default for Config {
    fn default() -> (r: Config)
        ensures
            r@ == default_config(),
    {
        let r = Config {
            feeds_urls: Vec::new(),
            ticker_speed: 1,
            width: 1920,
            preserve_items: false,
            save_location: None,
        };
        proof {
            assert(r@ =~= default_config());
        }
        r
    }
}

/// A feed URL passes validation when it is at least five characters long.
pub open spec fn url_valid(url: Seq<char>) -> bool {
    url.len() >= 5
}

/// Validate one feed URL; see `url_valid`.
pub fn is_feed_valid(feed: &str) -> (r: bool)
    ensures
        r == url_valid(feed@),
{
    feed.unicode_len() >= 5
}

/// Whether every configured feed URL passes validation.
pub open spec fn all_urls_valid(feeds: Seq<FeedUrlData>) -> bool {
    forall|i: int| 0 <= i < feeds.len() ==> url_valid(#[trigger] feeds[i].url)
}

/// A polling interval of zero means "unspecified" and falls back to the
/// default cadence of thirty units.
pub open spec fn normalized_feed(f: FeedUrlData) -> FeedUrlData {
    FeedUrlData {
        url: f.url,
        polling_interval: if f.polling_interval == 0 {
            30
        } else {
            f.polling_interval
        },
    }
}

/// What the configuration dialog hands over when it is accepted: plain
/// values only, read out of the dialog's controls by the widget layer.
pub struct DialogValues {
    pub feeds_urls: Vec<FeedUrl>,
    pub ticker_speed: u32,
    pub width: i32,
    pub preserve_items: bool,
}

/// Mathematical model of accepted dialog values.
#[verifier::ext_equal]
pub struct DialogValuesData {
    pub feeds_urls: Seq<FeedUrlData>,
    pub ticker_speed: u32,
    pub width: i32,
    pub preserve_items: bool,
}

impl View for DialogValues {
    type V = DialogValuesData;

    open spec fn view(&self) -> DialogValuesData {
        DialogValuesData {
            feeds_urls: self.feeds_urls.deep_view(),
            ticker_speed: self.ticker_speed,
            width: self.width,
            preserve_items: self.preserve_items,
        }
    }
}

/// The configuration that accepting the dialog produces: the dialog's
/// values, with unspecified polling cadences defaulted and the ticker
/// speed kept at one pixel or more; the save location is untouched.
pub open spec fn applied_dialog(c: ConfigData, d: DialogValuesData) -> ConfigData {
    ConfigData {
        feeds_urls: d.feeds_urls.map_values(|f: FeedUrlData| normalized_feed(f)),
        ticker_speed: if d.ticker_speed == 0 {
            1
        } else {
            d.ticker_speed
        },
        width: d.width,
        preserve_items: d.preserve_items,
        save_location: c.save_location,
    }
}

impl Config {
    /// A fresh configuration; see `default_config`.
    pub fn new() -> (r: Config)
        ensures
            r@ == default_config(),
    {
        Config::default()
    }

    /// Take over the values of an accepted configuration dialog. The new
    /// values are rejected — and the configuration left untouched — if
    /// and only if some feed URL fails validation.
    pub fn set_from_dialog(&mut self, dialog: &DialogValues) -> (r: Result<(), CoreError>)
        ensures
            r is Ok <==> all_urls_valid(dialog@.feeds_urls),
            r is Ok ==> final(self)@ == applied_dialog(old(self)@, dialog@),
            r is Err ==> final(self)@ == old(self)@ && r == Err::<(), CoreError>(
                CoreError::InvalidFeedUrl,
            ),
    {
        let ghost dv = dialog@.feeds_urls;
        let mut i: usize = 0;
        while i < dialog.feeds_urls.len()
            invariant
                i <= dialog.feeds_urls.len(),
                dv == dialog@.feeds_urls,
                forall|j: int| 0 <= j < i ==> url_valid(#[trigger] dv[j].url),
            decreases dialog.feeds_urls.len() - i,
        {
            if !is_feed_valid(dialog.feeds_urls[i].url.as_str()) {
                proof {
                    assert(!url_valid(dv[i as int].url));
                }
                return Err(CoreError::InvalidFeedUrl);
            }
            i += 1;
        }
        let mut feeds: Vec<FeedUrl> = Vec::new();
        let mut k: usize = 0;
        while k < dialog.feeds_urls.len()
            invariant
                k <= dialog.feeds_urls.len(),
                dv == dialog@.feeds_urls,
                feeds.deep_view().len() == k,
                forall|j: int| 0 <= j < k ==> feeds.deep_view()[j] == normalized_feed(
                    #[trigger] dv[j],
                ),
            decreases dialog.feeds_urls.len() - k,
        {
            let f = &dialog.feeds_urls[k];
            let interval: u32 = if f.polling_interval == 0 {
                30
            } else {
                f.polling_interval
            };
            feeds.push(FeedUrl { url: f.url.clone(), polling_interval: interval });
            k += 1;
        }
        self.feeds_urls = feeds;
        self.ticker_speed = if dialog.ticker_speed == 0 {
            1
        } else {
            dialog.ticker_speed
        };
        self.width = dialog.width;
        self.preserve_items = dialog.preserve_items;
        proof {
            assert(self@.feeds_urls =~= applied_dialog(old(self)@, dialog@).feeds_urls);
            assert(self@ =~= applied_dialog(old(self)@, dialog@));
        }
        Ok(())
    }
}

} // verus!
