//! Options found by the external metadata search, written through to the cache.
use vstd::prelude::*;

use crate::config::Settings;
use crate::rename::cache::{
    answering, clone_strings, items_view, OnlineCacheItem, OnlineCacheItemView,
};
use crate::rename::name::{replace_amp, replace_amp_chars, BaseInfo, BaseInfoView};
use crate::rename::{
    descriptions_view, strings_view, MediaDescription, MediaDescriptionView, MediaFileType,
    MediaRenameOrigin, RenameError, RenamedMediaOptions, RenamedMediaOptionsView,
};
use crate::text::{chars_of, concat_text, is_word_char, is_word_character, string_of};

verus! {

/// The instant, in milliseconds since the Unix epoch, of midnight UTC on a day
/// written `%Y-%m-%d`; `None` when the text is not such a day.
pub uninterp spec fn utc_midnight_millis_of(date: Seq<char>) -> Option<i64>;

/// Relies on `chrono::NaiveDate::parse_from_str` with `"%Y-%m-%d"`, then the
/// UTC timestamp in milliseconds of that day's midnight.
#[verifier::external_body]
fn utc_midnight_millis(date: &str) -> (r: Option<i64>)
    ensures
        r == utc_midnight_millis_of(date@),
{
    match chrono::NaiveDate::parse_from_str(date, "%Y-%m-%d") {
        Ok(d) => Some(d.and_time(chrono::NaiveTime::MIN).and_utc().timestamp_millis()),
        Err(_) => None,
    }
}

/// The date stored in the cache for a description date: `0` when it cannot be read.
pub open spec fn stored_date(date: Seq<char>) -> i64 {
    match utc_midnight_millis_of(date) {
        Some(m) => m,
        None => 0,
    }
}

/// One result of the external search.
pub struct ExternalMedia {
    pub title: String,
    pub poster_path: Option<String>,
    pub date: String,
    pub description: String,
    pub id: i32,
    pub cast: Vec<String>,
}

pub struct ExternalMediaView {
    pub title: Seq<char>,
    pub poster_path: Option<Seq<char>>,
    pub date: Seq<char>,
    pub description: Seq<char>,
    pub id: i32,
    pub cast: Seq<Seq<char>>,
}

impl View for ExternalMedia {
    type V = ExternalMediaView;

    open spec fn view(&self) -> ExternalMediaView {
        ExternalMediaView {
            title: self.title@,
            poster_path: match self.poster_path {
                Some(p) => Some(p@),
                None => None,
            },
            date: self.date@,
            description: self.description@,
            id: self.id,
            cast: strings_view(self.cast@),
        }
    }
}

pub open spec fn media_view(v: Seq<ExternalMedia>) -> Seq<ExternalMediaView> {
    v.map_values(|m: ExternalMedia| m@)
}

/// `s` with every character but letters, digits, dashes and spaces removed.
pub open spec fn strip_specials(s: Seq<char>) -> Seq<char>
    decreases s.len(),
{
    if s.len() == 0 {
        s
    } else if is_word_char(s.last()) || s.last() == ' ' {
        strip_specials(s.drop_last()).push(s.last())
    } else {
        strip_specials(s.drop_last())
    }
}

/// The title offered for an external result.
pub open spec fn clean_title(t: Seq<char>) -> Seq<char> {
    strip_specials(replace_amp(t))
}

/// The poster address: the configured prefix before a non-empty poster path.
pub open spec fn poster_url(poster_base: Seq<char>, path: Option<Seq<char>>) -> Seq<char> {
    match path {
        Some(p) => if p.len() == 0 {
            p
        } else {
            poster_base + p
        },
        None => Seq::empty(),
    }
}

pub open spec fn external_description(poster_base: Seq<char>, m: ExternalMediaView) -> MediaDescriptionView {
    MediaDescriptionView {
        poster_url: poster_url(poster_base, m.poster_path),
        title: clean_title(m.title),
        date: m.date,
        description: m.description,
        cast: m.cast,
    }
}

/// The cache item that records a description under the search key.
pub open spec fn cache_item_for(
    base: BaseInfoView,
    media_type: MediaFileType,
    d: MediaDescriptionView,
) -> OnlineCacheItemView {
    OnlineCacheItemView {
        search_name: base.name,
        search_year: base.year,
        cover_path: d.poster_url,
        title: d.title,
        date: stored_date(d.date),
        description: d.description,
        cast: d.cast,
        media_type,
    }
}

/// The options an external search gives, with the cache items to store.
pub struct ExternalOptions {
    pub options: RenamedMediaOptions,
    pub items: Vec<OnlineCacheItem>,
}

/// What the external resolver offers for the search results, and what it
/// stores: one description and one cache item per result, in order.
pub open spec fn external_descriptions(poster_base: Seq<char>, found: Seq<ExternalMediaView>) -> Seq<
    MediaDescriptionView,
> {
    found.map_values(|m: ExternalMediaView| external_description(poster_base, m))
}

/// The search the external collaborator is asked to run.
pub struct ExternalSearch {
    pub media_type: MediaFileType,
    pub query: String,
    pub year: Option<i32>,
}

pub struct ExternalRenamer {
    poster_base: String,
}

fn strip_specials_chars(v: &Vec<char>) -> (r: Vec<char>)
    ensures
        r@ == strip_specials(v@),
{
    let mut r: Vec<char> = Vec::new();
    let mut i: usize = 0;
    while i < v.len()
        invariant
            i <= v@.len(),
            r@ == strip_specials(v@.subrange(0, i as int)),
        decreases v@.len() - i,
    {
        assert(v@.subrange(0, i + 1).drop_last() =~= v@.subrange(0, i as int));
        if is_word_character(v[i]) || v[i] == ' ' {
            r.push(v[i]);
        }
        i = i + 1;
    }
    assert(v@.subrange(0, i as int) =~= v@);
    r
}

/// The title offered for an external result: `&` as `and`, specials removed.
pub fn parse_title(title: &str) -> (r: String)
    ensures
        r@ == clean_title(title@),
{
    let v = chars_of(title);
    let a = replace_amp_chars(&v);
    let b = strip_specials_chars(&a);
    string_of(&b)
}

/// The millisecond date stored for a description date, `0` when it is not `YYYY-MM-DD`.
pub fn parse_date(date: &str) -> (r: i64)
    ensures
        r == stored_date(date@),
{
    match utc_midnight_millis(date) {
        Some(m) => m,
        None => 0,
    }
}

impl ExternalRenamer {
    pub closed spec fn poster_base(&self) -> Seq<char> {
        self.poster_base@
    }

    pub fn new(settings: &Settings) -> (r: Self)
        ensures
            r.poster_base() == settings.online.poster_base@,
    {
        ExternalRenamer { poster_base: settings.online.poster_base.clone() }
    }

    /// The search to run for `base`; `UNKNOWN` cannot be searched.
    pub fn search_request(&self, base: &BaseInfo, media_type: MediaFileType) -> (r: Result<
        ExternalSearch,
        RenameError,
    >)
        ensures
            media_type == MediaFileType::UNKNOWN ==> r matches Err(RenameError::InvalidMediaType),
            media_type != MediaFileType::UNKNOWN ==> (r matches Ok(s) && s.media_type == media_type
                && s.query@ == base@.name && s.year == base@.year),
    {
        match media_type {
            MediaFileType::UNKNOWN => Err(RenameError::InvalidMediaType),
            _ => Ok(ExternalSearch { media_type, query: base.name().to_owned(), year: base.year() }),
        }
    }

    /// The poster address for a result's poster path.
    pub fn parse_poster(&self, poster_path: &Option<String>) -> (r: String)
        ensures
            r@ == poster_url(
                self.poster_base(),
                match poster_path {
                    Some(p) => Some(p@),
                    None => None,
                },
            ),
    {
        match poster_path {
            Some(p) => {
                if p.as_str().is_empty() {
                    String::new()
                } else {
                    concat_text(self.poster_base.as_str(), p.as_str())
                }
            },
            None => String::new(),
        }
    }

    /// The description of one search result.
    pub fn convert_media(&self, m: &ExternalMedia) -> (r: MediaDescription)
        ensures
            r@ == external_description(self.poster_base(), m@),
    {
        MediaDescription {
            poster_url: self.parse_poster(&m.poster_path),
            title: parse_title(m.title.as_str()),
            date: m.date.clone(),
            description: m.description.clone(),
            cast: clone_strings(&m.cast),
        }
    }

    /// The cache item recording `d` under the search key.
    pub fn create_cache_item(
        &self,
        base: &BaseInfo,
        d: &MediaDescription,
        media_type: MediaFileType,
    ) -> (r: OnlineCacheItem)
        ensures
            r@ == cache_item_for(base@, media_type, d@),
    {
        OnlineCacheItem {
            search_name: base.name().to_owned(),
            search_year: base.year(),
            cover_path: d.poster_url.clone(),
            title: d.title.clone(),
            date: parse_date(d.date.as_str()),
            description: d.description.clone(),
            cast: clone_strings(&d.cast),
            media_type,
        }
    }

    /// The options the search results give, with the items to store so that the
    /// same key is served from the cache next time; `None` when nothing was
    /// found, and for `UNKNOWN`, which cannot be searched or stored.
    pub fn find_options(
        &self,
        base: &BaseInfo,
        media_type: MediaFileType,
        found: Vec<ExternalMedia>,
    ) -> (r: Option<ExternalOptions>)
        ensures
            (found@.len() == 0 || media_type == MediaFileType::UNKNOWN) <==> r is None,
            r matches Some(x) ==> {
                let ds = external_descriptions(self.poster_base(), media_view(found@));
                &&& x.options@ == (RenamedMediaOptionsView {
                    origin: MediaRenameOrigin::EXTERNAL,
                    descriptions: ds,
                })
                &&& items_view(x.items@) == ds.map_values(
                    |d: MediaDescriptionView| cache_item_for(base@, media_type, d),
                )
            },
    {
        if found.len() == 0 || media_type == MediaFileType::UNKNOWN {
            return None;
        }
        let ghost ds = external_descriptions(self.poster_base(), media_view(found@));
        let mut descs: Vec<MediaDescription> = Vec::new();
        let mut items: Vec<OnlineCacheItem> = Vec::new();
        let mut i: usize = 0;
        while i < found.len()
            invariant
                i <= found@.len(),
                ds == external_descriptions(self.poster_base(), media_view(found@)),
                descs@.len() == i,
                items@.len() == i,
                forall|j: int| 0 <= j < i ==> #[trigger] descs@[j]@ == ds[j],
                forall|j: int|
                    0 <= j < i ==> #[trigger] items@[j]@ == cache_item_for(base@, media_type, ds[j]),
            decreases found@.len() - i,
        {
            let d = self.convert_media(&found[i]);
            let item = self.create_cache_item(base, &d, media_type);
            descs.push(d);
            items.push(item);
            i = i + 1;
        }
        assert(descriptions_view(descs@) =~= ds);
        assert(items_view(items@) =~= ds.map_values(
            |d: MediaDescriptionView| cache_item_for(base@, media_type, d),
        ));
        Some(
            ExternalOptions {
                options: RenamedMediaOptions::new(MediaRenameOrigin::EXTERNAL, descs),
                items,
            },
        )
    }
}

/// Write-through: every item stored after an external lookup answers the
/// search key it was found under, so the cache serves the next identical request.
pub proof fn lemma_stored_items_answer_their_key(
    base: BaseInfoView,
    media_type: MediaFileType,
    ds: Seq<MediaDescriptionView>,
)
    ensures
        answering(
            base,
            media_type,
            ds.map_values(|d: MediaDescriptionView| cache_item_for(base, media_type, d)),
        ) == ds.map_values(|d: MediaDescriptionView| cache_item_for(base, media_type, d)),
    decreases ds.len(),
{
    let items = ds.map_values(|d: MediaDescriptionView| cache_item_for(base, media_type, d));
    if ds.len() > 0 {
        lemma_stored_items_answer_their_key(base, media_type, ds.drop_last());
        assert(items.drop_last() =~= ds.drop_last().map_values(
            |d: MediaDescriptionView| cache_item_for(base, media_type, d),
        ));
    } else {
        assert(items =~= Seq::<OnlineCacheItemView>::empty());
    }
}

} // verus!
