//! Options served from descriptions an earlier external lookup stored.
use vstd::prelude::*;

use crate::rename::name::{BaseInfo, BaseInfoView};
use crate::text::same_text;
use crate::rename::{
    descriptions_view, strings_view, MediaDescription, MediaDescriptionView, MediaFileType,
    MediaRenameOrigin, RenamedMediaOptions, RenamedMediaOptionsView,
};

verus! {

/// The UTC calendar day, formatted `%Y-%m-%d`, of an instant given in
/// milliseconds since the Unix epoch; `None` when the instant is out of range.
pub uninterp spec fn utc_day_of_millis(millis: int) -> Option<Seq<char>>;

/// Relies on `chrono::DateTime::from_timestamp_millis` and its `format("%Y-%m-%d")`.
#[verifier::external_body]
fn utc_day(millis: i64) -> (r: Option<String>)
    ensures
        match r {
            Some(t) => utc_day_of_millis(millis as int) == Some(t@),
            None => utc_day_of_millis(millis as int) == None::<Seq<char>>,
        },
{
    match chrono::DateTime::from_timestamp_millis(millis) {
        Some(t) => Some(t.format("%Y-%m-%d").to_string()),
        None => None,
    }
}

/// The stored date of a cache item as text; empty when it cannot be converted.
pub open spec fn date_text(millis: int) -> Seq<char> {
    match utc_day_of_millis(millis) {
        Some(t) => t,
        None => Seq::empty(),
    }
}

/// `YYYY-MM-DD` of an instant in milliseconds, or an empty string.
pub fn to_date(millis: i64) -> (r: String)
    ensures
        r@ == date_text(millis as int),
{
    match utc_day(millis) {
        Some(t) => t,
        None => String::new(),
    }
}

/// A description stored after an external lookup, with the key it was found under.
pub struct OnlineCacheItem {
    pub search_name: String,
    pub search_year: Option<i32>,
    pub cover_path: String,
    pub title: String,
    pub date: i64,
    pub description: String,
    pub cast: Vec<String>,
    pub media_type: MediaFileType,
}

pub struct OnlineCacheItemView {
    pub search_name: Seq<char>,
    pub search_year: Option<i32>,
    pub cover_path: Seq<char>,
    pub title: Seq<char>,
    pub date: i64,
    pub description: Seq<char>,
    pub cast: Seq<Seq<char>>,
    pub media_type: MediaFileType,
}

impl View for OnlineCacheItem {
    type V = OnlineCacheItemView;

    open spec fn view(&self) -> OnlineCacheItemView {
        OnlineCacheItemView {
            search_name: self.search_name@,
            search_year: self.search_year,
            cover_path: self.cover_path@,
            title: self.title@,
            date: self.date,
            description: self.description@,
            cast: strings_view(self.cast@),
            media_type: self.media_type,
        }
    }
}

pub open spec fn items_view(v: Seq<OnlineCacheItem>) -> Seq<OnlineCacheItemView> {
    v.map_values(|i: OnlineCacheItem| i@)
}

/// What the store is asked for: the name and the media type always, the year
/// only when the search key has one.
pub struct CacheQuery {
    pub search_name: String,
    pub search_year: Option<i32>,
    pub media_type: MediaFileType,
}

/// Whether a stored item answers the search key `base` for `media_type`. A key
/// without a year matches items whatever their year.
pub open spec fn answers(base: BaseInfoView, media_type: MediaFileType, i: OnlineCacheItemView) -> bool {
    &&& i.search_name == base.name
    &&& i.media_type == media_type
    &&& (base.year is None || i.search_year == base.year)
}

/// The items that answer the key, in the order the store gave them.
pub open spec fn answering(
    base: BaseInfoView,
    media_type: MediaFileType,
    items: Seq<OnlineCacheItemView>,
) -> Seq<OnlineCacheItemView>
    decreases items.len(),
{
    if items.len() == 0 {
        Seq::empty()
    } else if answers(base, media_type, items.last()) {
        answering(base, media_type, items.drop_last()).push(items.last())
    } else {
        answering(base, media_type, items.drop_last())
    }
}

/// The description a stored item gives.
pub open spec fn cached_description(i: OnlineCacheItemView) -> MediaDescriptionView {
    MediaDescriptionView {
        poster_url: i.cover_path,
        title: i.title,
        date: date_text(i.date as int),
        description: i.description,
        cast: i.cast,
    }
}

/// What the cache resolver offers for the items the store returned.
pub open spec fn cache_options(
    base: BaseInfoView,
    media_type: MediaFileType,
    items: Seq<OnlineCacheItemView>,
) -> Option<RenamedMediaOptionsView> {
    let found = answering(base, media_type, items);
    if found.len() == 0 {
        None
    } else {
        Some(
            RenamedMediaOptionsView {
                origin: MediaRenameOrigin::CACHE,
                descriptions: found.map_values(|i: OnlineCacheItemView| cached_description(i)),
            },
        )
    }
}

pub fn clone_strings(v: &Vec<String>) -> (r: Vec<String>)
    ensures
        r@ == v@,
{
    let mut r: Vec<String> = Vec::new();
    let mut i: usize = 0;
    while i < v.len()
        invariant
            i <= v@.len(),
            r@ == v@.subrange(0, i as int),
        decreases v@.len() - i,
    {
        r.push(v[i].clone());
        i = i + 1;
        assert(r@ =~= v@.subrange(0, i as int));
    }
    assert(v@.subrange(0, i as int) =~= v@);
    r
}

pub struct CacheRenamer;

impl CacheRenamer {
    pub fn new() -> (r: Self) {
        CacheRenamer
    }

    /// The query for the items stored under `base` and `media_type`.
    pub fn query(&self, base: &BaseInfo, media_type: MediaFileType) -> (r: CacheQuery)
        ensures
            r.search_name@ == base@.name,
            r.search_year == base@.year,
            r.media_type == media_type,
    {
        CacheQuery {
            search_name: base.name().to_owned(),
            search_year: base.year(),
            media_type,
        }
    }

    /// Whether a stored item answers the key.
    pub fn answers(&self, base: &BaseInfo, media_type: MediaFileType, item: &OnlineCacheItem) -> (r:
        bool)
        ensures
            r == answers(base@, media_type, item@),
    {
        if !same_text(item.search_name.as_str(), base.name()) || item.media_type != media_type {
            return false;
        }
        match base.year() {
            None => true,
            Some(y) => match item.search_year {
                Some(z) => z == y,
                None => false,
            },
        }
    }

    /// The options the stored items give: one description per item that answers
    /// the key, or `None` when no item does.
    pub fn find_options(
        &self,
        base: &BaseInfo,
        media_type: MediaFileType,
        items: Vec<OnlineCacheItem>,
    ) -> (r: Option<RenamedMediaOptions>)
        ensures
            r matches Some(o) ==> cache_options(base@, media_type, items_view(items@)) == Some(o@),
            r is None ==> cache_options(base@, media_type, items_view(items@)) is None,
    {
        let ghost iv = items_view(items@);
        let mut descs: Vec<MediaDescription> = Vec::new();
        let ghost mut found: Seq<OnlineCacheItemView> = Seq::empty();
        let mut i: usize = 0;
        while i < items.len()
            invariant
                i <= items@.len(),
                iv == items_view(items@),
                found == answering(base@, media_type, iv.subrange(0, i as int)),
                descriptions_view(descs@) == found.map_values(
                    |x: OnlineCacheItemView| cached_description(x),
                ),
            decreases items@.len() - i,
        {
            assert(iv.subrange(0, i + 1).drop_last() =~= iv.subrange(0, i as int));
            assert(iv.subrange(0, i + 1).last() == items@[i as int]@);
            let item = &items[i];
            if self.answers(base, media_type, item) {
                let d = MediaDescription {
                    poster_url: item.cover_path.clone(),
                    title: item.title.clone(),
                    date: to_date(item.date),
                    description: item.description.clone(),
                    cast: clone_strings(&item.cast),
                };
                let ghost old_descs = descs@;
                descs.push(d);
                proof {
                    found = found.push(items@[i as int]@);
                }
                assert(descriptions_view(descs@) =~= found.map_values(
                    |x: OnlineCacheItemView| cached_description(x),
                )) by {
                    assert(descriptions_view(descs@) =~= descriptions_view(old_descs).push(d@));
                }
            }
            i = i + 1;
        }
        assert(iv.subrange(0, i as int) =~= iv);
        if descs.len() == 0 {
            None
        } else {
            Some(RenamedMediaOptions::new(MediaRenameOrigin::CACHE, descs))
        }
    }
}

/// A search key without a year does not filter on the year: the items that
/// answer it are exactly those stored under its name and media type, whatever
/// year they were stored with.
pub proof fn lemma_no_year_no_year_filter(
    base: BaseInfoView,
    media_type: MediaFileType,
    items: Seq<OnlineCacheItemView>,
)
    requires
        base.year is None,
    ensures
        answering(base, media_type, items) == items.filter(
            |i: OnlineCacheItemView| i.search_name == base.name && i.media_type == media_type,
        ),
    decreases items.len(),
{
    reveal(Seq::filter);
    if items.len() > 0 {
        lemma_no_year_no_year_filter(base, media_type, items.drop_last());
    }
}

} // verus!
