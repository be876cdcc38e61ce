//! Turning a raw download name into rename options.
use vstd::prelude::*;

pub mod cache;
pub mod disk;
pub mod external;
pub mod name;

verus! {

/// The kind of media a name is for.
#[allow(non_camel_case_types)]
#[derive(Debug, Clone, Copy, PartialEq, Eq, Structural)]
pub enum MediaFileType {
    MOVIE,
    TV,
    UNKNOWN,
}

/// The media type a name stands for: `MOVIE` and `TV`; every other name is `UNKNOWN`.
pub open spec fn media_type_named(s: Seq<char>) -> MediaFileType {
    if s == seq!['M', 'O', 'V', 'I', 'E'] {
        MediaFileType::MOVIE
    } else if s == seq!['T', 'V'] {
        MediaFileType::TV
    } else {
        MediaFileType::UNKNOWN
    }
}

pub open spec fn media_type_name(t: MediaFileType) -> Seq<char> {
    match t {
        MediaFileType::MOVIE => seq!['M', 'O', 'V', 'I', 'E'],
        MediaFileType::TV => seq!['T', 'V'],
        MediaFileType::UNKNOWN => seq!['U', 'N', 'K', 'N', 'O', 'W', 'N'],
    }
}

impl MediaFileType {
    /// The media type named `s`.
    pub fn from_name(s: &str) -> (r: MediaFileType)
        ensures
            r == media_type_named(s@),
    {
        proof {
            reveal_strlit("MOVIE");
            reveal_strlit("TV");
        }
        assert("MOVIE"@ =~= seq!['M', 'O', 'V', 'I', 'E']);
        assert("TV"@ =~= seq!['T', 'V']);
        if crate::text::same_text(s, "MOVIE") {
            MediaFileType::MOVIE
        } else if crate::text::same_text(s, "TV") {
            MediaFileType::TV
        } else {
            MediaFileType::UNKNOWN
        }
    }

    /// The name of the media type.
    pub fn name(&self) -> (r: String)
        ensures
            r@ == media_type_name(*self),
    {
        proof {
            reveal_strlit("MOVIE");
            reveal_strlit("TV");
            reveal_strlit("UNKNOWN");
        }
        assert("MOVIE"@ =~= seq!['M', 'O', 'V', 'I', 'E']);
        assert("TV"@ =~= seq!['T', 'V']);
        assert("UNKNOWN"@ =~= seq!['U', 'N', 'K', 'N', 'O', 'W', 'N']);
        match self {
            MediaFileType::MOVIE => "MOVIE".to_owned(),
            MediaFileType::TV => "TV".to_owned(),
            MediaFileType::UNKNOWN => "UNKNOWN".to_owned(),
        }
    }
}

/// Where a set of rename options came from.
#[allow(non_camel_case_types)]
#[derive(Debug, Clone, Copy, PartialEq, Eq, Structural)]
pub enum MediaRenameOrigin {
    DISK,
    NAME,
    CACHE,
    EXTERNAL,
}

/// The errors a resolver can report; the coordinator absorbs them all.
#[derive(Debug, Clone, Copy, PartialEq, Eq, Structural)]
pub enum RenameError {
    /// `UNKNOWN` reached a resolver that has to know the kind of media.
    InvalidMediaType,
    /// A collaborator (directory listing, store, external search) failed.
    CollaboratorFailure,
    /// A configured trim pattern is not a valid regular expression.
    InvalidTrimPattern,
}

/// A request to rename: the raw name and the kind of media.
pub struct MediaRenameRequest {
    pub name: String,
    pub media_type: MediaFileType,
}

/// One rename option: a title with what is known about it.
pub struct MediaDescription {
    pub poster_url: String,
    pub title: String,
    pub date: String,
    pub description: String,
    pub cast: Vec<String>,
}

pub struct MediaDescriptionView {
    pub poster_url: Seq<char>,
    pub title: Seq<char>,
    pub date: Seq<char>,
    pub description: Seq<char>,
    pub cast: Seq<Seq<char>>,
}

pub open spec fn strings_view(v: Seq<String>) -> Seq<Seq<char>> {
    v.map_values(|s: String| s@)
}

impl View for MediaDescription {
    type V = MediaDescriptionView;

    open spec fn view(&self) -> MediaDescriptionView {
        MediaDescriptionView {
            poster_url: self.poster_url@,
            title: self.title@,
            date: self.date@,
            description: self.description@,
            cast: strings_view(self.cast@),
        }
    }
}

/// The rename options for a request, with the resolver they came from.
pub struct RenamedMediaOptions {
    origin: MediaRenameOrigin,
    descriptions: Vec<MediaDescription>,
}

pub struct RenamedMediaOptionsView {
    pub origin: MediaRenameOrigin,
    pub descriptions: Seq<MediaDescriptionView>,
}

pub open spec fn descriptions_view(v: Seq<MediaDescription>) -> Seq<MediaDescriptionView> {
    v.map_values(|d: MediaDescription| d@)
}

impl View for RenamedMediaOptions {
    type V = RenamedMediaOptionsView;

    closed spec fn view(&self) -> RenamedMediaOptionsView {
        RenamedMediaOptionsView {
            origin: self.origin,
            descriptions: descriptions_view(self.descriptions@),
        }
    }
}

impl RenamedMediaOptions {
    pub fn new(origin: MediaRenameOrigin, descriptions: Vec<MediaDescription>) -> (r: Self)
        ensures
            r@.origin == origin,
            r@.descriptions == descriptions_view(descriptions@),
    {
        RenamedMediaOptions { origin, descriptions }
    }

    pub fn descriptions(&self) -> (r: &Vec<MediaDescription>)
        ensures
            descriptions_view(r@) == self@.descriptions,
    {
        &self.descriptions
    }

    pub fn origin(&self) -> (r: MediaRenameOrigin)
        ensures
            r == self@.origin,
    {
        self.origin
    }
}

} // verus!

use crate::config::Settings;
use crate::rename::cache::{
    cache_options, items_view, CacheQuery, CacheRenamer, OnlineCacheItem, OnlineCacheItemView,
};
use crate::rename::disk::{disk_options, DiskRenamer};
use crate::rename::external::{
    cache_item_for, external_descriptions, media_view, ExternalMedia, ExternalRenamer,
    ExternalSearch,
};
use crate::rename::name::{
    base_info_of, formatted_text, title_description, BaseInfo, BaseInfoView, NameGenerator,
};

verus! {

/// Where a rename session stands: the resolver whose answer it waits for, or
/// the external options whose cache write it waits for.
pub enum RenameStage {
    Disk,
    Cache,
    External,
    Saving(RenamedMediaOptions),
}

pub enum RenameStageView {
    Disk,
    Cache,
    External,
    Saving(RenamedMediaOptionsView),
}

/// One rename request on its way through the resolvers.
pub struct RenameSession {
    base: BaseInfo,
    media_type: MediaFileType,
    stage: RenameStage,
}

pub struct RenameSessionView {
    pub base: BaseInfoView,
    pub media_type: MediaFileType,
    pub stage: RenameStageView,
}

impl View for RenameSession {
    type V = RenameSessionView;

    closed spec fn view(&self) -> RenameSessionView {
        RenameSessionView {
            base: self.base@,
            media_type: self.media_type,
            stage: match self.stage {
                RenameStage::Disk => RenameStageView::Disk,
                RenameStage::Cache => RenameStageView::Cache,
                RenameStage::External => RenameStageView::External,
                RenameStage::Saving(o) => RenameStageView::Saving(o@),
            },
        }
    }
}

impl RenameSession {
    /// External options wait for their cache write only when there are some.
    pub open spec fn wf(&self) -> bool {
        session_view_wf(self@)
    }

    /// The search key of the request.
    pub fn base(&self) -> (r: &BaseInfo)
        ensures
            r@ == self@.base,
    {
        &self.base
    }
}

/// Outside work a session needs done before it can go on.
pub enum RenameRequest {
    /// List the directories below `root`, at most `max_depth` deep, the root excluded.
    ListDirectories { root: String, max_depth: u8 },
    /// Fetch the cache items the query selects.
    QueryCache(CacheQuery),
    /// Run the external search.
    SearchExternal(ExternalSearch),
    /// Store these cache items.
    SaveItems(Vec<OnlineCacheItem>),
}

pub enum RenameRequestView {
    ListDirectories { root: Seq<char>, max_depth: u8 },
    QueryCache { name: Seq<char>, year: Option<i32>, media_type: MediaFileType },
    SearchExternal { media_type: MediaFileType, query: Seq<char>, year: Option<i32> },
    SaveItems(Seq<OnlineCacheItemView>),
}

impl View for RenameRequest {
    type V = RenameRequestView;

    open spec fn view(&self) -> RenameRequestView {
        match self {
            RenameRequest::ListDirectories { root, max_depth } => RenameRequestView::ListDirectories {
                root: root@,
                max_depth: *max_depth,
            },
            RenameRequest::QueryCache(q) => RenameRequestView::QueryCache {
                name: q.search_name@,
                year: q.search_year,
                media_type: q.media_type,
            },
            RenameRequest::SearchExternal(s) => RenameRequestView::SearchExternal {
                media_type: s.media_type,
                query: s.query@,
                year: s.year,
            },
            RenameRequest::SaveItems(items) => RenameRequestView::SaveItems(items_view(items@)),
        }
    }
}

/// The outcome of the outside work a request asked for.
pub enum RenameEvent {
    DirectoriesListed(Result<Vec<String>, RenameError>),
    CacheQueried(Result<Vec<OnlineCacheItem>, RenameError>),
    ExternalSearched(Result<Vec<ExternalMedia>, RenameError>),
    ItemsSaved(Result<(), RenameError>),
}

pub enum RenameEventView {
    DirectoriesListed(Option<Seq<Seq<char>>>),
    CacheQueried(Option<Seq<OnlineCacheItemView>>),
    ExternalSearched(Option<Seq<external::ExternalMediaView>>),
    ItemsSaved(bool),
}

impl View for RenameEvent {
    type V = RenameEventView;

    open spec fn view(&self) -> RenameEventView {
        match self {
            RenameEvent::DirectoriesListed(Ok(v)) => RenameEventView::DirectoriesListed(
                Some(strings_view(v@)),
            ),
            RenameEvent::DirectoriesListed(Err(_)) => RenameEventView::DirectoriesListed(None),
            RenameEvent::CacheQueried(Ok(v)) => RenameEventView::CacheQueried(Some(items_view(v@))),
            RenameEvent::CacheQueried(Err(_)) => RenameEventView::CacheQueried(None),
            RenameEvent::ExternalSearched(Ok(v)) => RenameEventView::ExternalSearched(
                Some(media_view(v@)),
            ),
            RenameEvent::ExternalSearched(Err(_)) => RenameEventView::ExternalSearched(None),
            RenameEvent::ItemsSaved(r) => RenameEventView::ItemsSaved(r is Ok),
        }
    }
}

/// What a session does next: ask for outside work, or answer.
pub enum RenameStep {
    Next(RenameSession, RenameRequest),
    Done(RenamedMediaOptions),
}

pub enum RenameStepView {
    Next(RenameSessionView, RenameRequestView),
    Done(RenamedMediaOptionsView),
}

impl View for RenameStep {
    type V = RenameStepView;

    open spec fn view(&self) -> RenameStepView {
        match self {
            RenameStep::Next(s, q) => RenameStepView::Next(s@, q@),
            RenameStep::Done(o) => RenameStepView::Done(o@),
        }
    }
}

impl RenameStep {
    /// Sessions handed out are well formed.
    pub open spec fn wf(&self) -> bool {
        self matches RenameStep::Next(s, _) ==> s.wf()
    }
}

/// The last resort: the formatted search key as the only title.
pub open spec fn fallback_options(base: BaseInfoView) -> RenamedMediaOptionsView {
    RenamedMediaOptionsView {
        origin: MediaRenameOrigin::NAME,
        descriptions: seq![title_description(formatted_text(base))],
    }
}

/// The resolvers in their fixed order (disk, cache, external) and the name rules.
pub struct RenameCoordinator {
    generator: NameGenerator,
    disk: DiskRenamer,
    cache: CacheRenamer,
    external: ExternalRenamer,
}

impl RenameCoordinator {
    /// The trim patterns of the name rules, in order.
    pub closed spec fn trim_patterns(&self) -> Seq<Seq<char>> {
        self.generator.trim_patterns()
    }

    /// The similarity the disk resolver asks for, in percent.
    pub closed spec fn similarity(&self) -> nat {
        self.disk.percent()
    }

    /// The library directory listed for a media type.
    pub closed spec fn library_root_of(&self, media_type: MediaFileType) -> Seq<char> {
        self.disk.root_of(media_type)
    }

    /// How deep the library is listed.
    pub closed spec fn listing_depth(&self) -> u8 {
        self.disk.depth()
    }

    /// The prefix of external poster addresses.
    pub closed spec fn poster_base(&self) -> Seq<char> {
        self.external.poster_base()
    }

    /// The step that asks the cache.
    pub open spec fn cache_step(base: BaseInfoView, media_type: MediaFileType) -> RenameStepView {
        RenameStepView::Next(
            RenameSessionView { base, media_type, stage: RenameStageView::Cache },
            RenameRequestView::QueryCache { name: base.name, year: base.year, media_type },
        )
    }

    /// The step that asks the external search; `UNKNOWN` cannot be searched,
    /// which leaves the fallback.
    pub open spec fn external_step(base: BaseInfoView, media_type: MediaFileType) -> RenameStepView {
        if media_type == MediaFileType::UNKNOWN {
            RenameStepView::Done(fallback_options(base))
        } else {
            RenameStepView::Next(
                RenameSessionView { base, media_type, stage: RenameStageView::External },
                RenameRequestView::SearchExternal { media_type, query: base.name, year: base.year },
            )
        }
    }

    /// The step that lists the library; `UNKNOWN` has no library, which moves on to the cache.
    pub open spec fn disk_step(&self, base: BaseInfoView, media_type: MediaFileType) -> RenameStepView {
        if media_type == MediaFileType::UNKNOWN {
            Self::cache_step(base, media_type)
        } else {
            RenameStepView::Next(
                RenameSessionView { base, media_type, stage: RenameStageView::Disk },
                RenameRequestView::ListDirectories {
                    root: self.library_root_of(media_type),
                    max_depth: self.listing_depth(),
                },
            )
        }
    }

    /// The first step of a request for `raw`.
    pub open spec fn first_step(&self, raw: Seq<char>, media_type: MediaFileType) -> RenameStepView {
        self.disk_step(base_info_of(self.trim_patterns(), raw), media_type)
    }

    /// The step after `event`: a resolver's options end the request; its
    /// failure, or no options, moves on to the next resolver; after the last
    /// one comes the fallback. External options are answered once stored.
    pub open spec fn next_step(&self, s: RenameSessionView, event: RenameEventView) -> RenameStepView {
        let base = s.base;
        let media_type = s.media_type;
        match s.stage {
            RenameStageView::Disk => match event {
                RenameEventView::DirectoriesListed(Some(entries)) => match disk_options(
                    entries,
                    base.name,
                    self.similarity(),
                ) {
                    Some(o) => RenameStepView::Done(o),
                    None => Self::cache_step(base, media_type),
                },
                _ => Self::cache_step(base, media_type),
            },
            RenameStageView::Cache => match event {
                RenameEventView::CacheQueried(Some(items)) => match cache_options(
                    base,
                    media_type,
                    items,
                ) {
                    Some(o) => RenameStepView::Done(o),
                    None => Self::external_step(base, media_type),
                },
                _ => Self::external_step(base, media_type),
            },
            RenameStageView::External => match event {
                RenameEventView::ExternalSearched(Some(found)) => if found.len() == 0
                    || media_type == MediaFileType::UNKNOWN {
                    RenameStepView::Done(fallback_options(base))
                } else {
                    let ds = external_descriptions(self.poster_base(), found);
                    RenameStepView::Next(
                        RenameSessionView {
                            base,
                            media_type,
                            stage: RenameStageView::Saving(
                                RenamedMediaOptionsView {
                                    origin: MediaRenameOrigin::EXTERNAL,
                                    descriptions: ds,
                                },
                            ),
                        },
                        RenameRequestView::SaveItems(
                            ds.map_values(
                                |d: MediaDescriptionView| cache_item_for(base, media_type, d),
                            ),
                        ),
                    )
                },
                _ => RenameStepView::Done(fallback_options(base)),
            },
            RenameStageView::Saving(o) => match event {
                RenameEventView::ItemsSaved(true) => RenameStepView::Done(o),
                _ => RenameStepView::Done(fallback_options(base)),
            },
        }
    }

    /// The resolvers and name rules the settings describe; fails when a trim
    /// pattern is not valid.
    pub fn new(settings: &Settings) -> (r: Result<Self, RenameError>)
        ensures
            r is Ok <==> name::all_valid_patterns(settings.rename.trim_regex@),
            r matches Ok(c) ==> {
                &&& c.trim_patterns() == strings_view(settings.rename.trim_regex@)
                &&& c.similarity() == settings.rename.similarity_percent as nat
                &&& c.library_root_of(MediaFileType::MOVIE) == settings.filesystem.movies_path@
                &&& c.library_root_of(MediaFileType::TV) == settings.filesystem.tv_path@
                &&& c.listing_depth() == settings.rename.max_depth
                &&& c.poster_base() == settings.online.poster_base@
            },
            r matches Err(e) ==> e == RenameError::InvalidTrimPattern,
    {
        let generator = NameGenerator::new(settings)?;
        let disk = DiskRenamer::new(settings)?;
        Ok(
            RenameCoordinator {
                generator,
                disk,
                cache: CacheRenamer::new(),
                external: ExternalRenamer::new(settings),
            },
        )
    }

    fn fallback(&self, base: &BaseInfo) -> (r: RenamedMediaOptions)
        ensures
            r@ == fallback_options(base@),
    {
        let titles: Vec<String> = vec![base.formatted()];
        let descriptions = self.generator.generate_media_descriptions(titles);
        let r = RenamedMediaOptions::new(MediaRenameOrigin::NAME, descriptions);
        assert(r@.descriptions =~= fallback_options(base@).descriptions);
        r
    }

    fn cache_stage(&self, base: BaseInfo, media_type: MediaFileType) -> (r: RenameStep)
        ensures
            r@ == Self::cache_step(base@, media_type),
            r.wf(),
    {
        let query = self.cache.query(&base, media_type);
        RenameStep::Next(
            RenameSession { base, media_type, stage: RenameStage::Cache },
            RenameRequest::QueryCache(query),
        )
    }

    fn external_stage(&self, base: BaseInfo, media_type: MediaFileType) -> (r: RenameStep)
        ensures
            r@ == Self::external_step(base@, media_type),
            r.wf(),
    {
        match self.external.search_request(&base, media_type) {
            Ok(search) => RenameStep::Next(
                RenameSession { base, media_type, stage: RenameStage::External },
                RenameRequest::SearchExternal(search),
            ),
            Err(_) => RenameStep::Done(self.fallback(&base)),
        }
    }

    fn disk_stage(&self, base: BaseInfo, media_type: MediaFileType) -> (r: RenameStep)
        ensures
            r@ == self.disk_step(base@, media_type),
            r.wf(),
    {
        match self.disk.library_root(media_type) {
            Ok(root) => RenameStep::Next(
                RenameSession { base, media_type, stage: RenameStage::Disk },
                RenameRequest::ListDirectories { root, max_depth: self.disk.max_depth() },
            ),
            Err(_) => self.cache_stage(base, media_type),
        }
    }

    /// Starts a request for the raw name `raw_name`.
    pub fn begin(&self, raw_name: String, media_type: MediaFileType) -> (r: RenameStep)
        ensures
            r@ == self.first_step(raw_name@, media_type),
            r.wf(),
    {
        let base = self.generator.generate_base_info(raw_name);
        self.disk_stage(base, media_type)
    }

    /// Goes on with a session once the outside work it asked for has an outcome.
    /// An outcome of another kind than the one asked for counts as a failure.
    pub fn resume(&self, session: RenameSession, event: RenameEvent) -> (r: RenameStep)
        requires
            session.wf(),
        ensures
            r@ == self.next_step(session@, event@),
            r.wf(),
    {
        let RenameSession { base, media_type, stage } = session;
        match stage {
            RenameStage::Disk => match event {
                RenameEvent::DirectoriesListed(Ok(entries)) => match self.disk.options_from_entries(
                    &base,
                    entries,
                ) {
                    Some(o) => RenameStep::Done(o),
                    None => self.cache_stage(base, media_type),
                },
                _ => self.cache_stage(base, media_type),
            },
            RenameStage::Cache => match event {
                RenameEvent::CacheQueried(Ok(items)) => match self.cache.find_options(
                    &base,
                    media_type,
                    items,
                ) {
                    Some(o) => RenameStep::Done(o),
                    None => self.external_stage(base, media_type),
                },
                _ => self.external_stage(base, media_type),
            },
            RenameStage::External => match event {
                RenameEvent::ExternalSearched(Ok(found)) => match self.external.find_options(
                    &base,
                    media_type,
                    found,
                ) {
                    Some(x) => RenameStep::Next(
                        RenameSession { base, media_type, stage: RenameStage::Saving(x.options) },
                        RenameRequest::SaveItems(x.items),
                    ),
                    None => RenameStep::Done(self.fallback(&base)),
                },
                _ => RenameStep::Done(self.fallback(&base)),
            },
            RenameStage::Saving(o) => match event {
                RenameEvent::ItemsSaved(Ok(())) => RenameStep::Done(o),
                _ => RenameStep::Done(self.fallback(&base)),
            },
        }
    }
}

} // verus!

verus! {

/// How far along the fixed order a session stands.
pub open spec fn stage_rank(st: RenameStageView) -> nat {
    match st {
        RenameStageView::Disk => 0,
        RenameStageView::Cache => 1,
        RenameStageView::External => 2,
        RenameStageView::Saving(_) => 3,
    }
}

/// How far along a step stands; an answer ends the request.
pub open spec fn step_rank(st: RenameStepView) -> nat {
    match st {
        RenameStepView::Next(s, _) => stage_rank(s.stage),
        RenameStepView::Done(_) => 4,
    }
}

/// Each request goes to the resolver the session waits for.
pub open spec fn asks_its_resolver(st: RenameStepView) -> bool {
    st matches RenameStepView::Next(s, q) ==> match s.stage {
        RenameStageView::Disk => q is ListDirectories,
        RenameStageView::Cache => q is QueryCache,
        RenameStageView::External => q is SearchExternal,
        RenameStageView::Saving(_) => q is SaveItems,
    }
}

/// Every answer holds at least one description.
pub open spec fn answer_not_empty(st: RenameStepView) -> bool {
    st matches RenameStepView::Done(o) ==> o.descriptions.len() >= 1
}

pub open spec fn session_view_wf(s: RenameSessionView) -> bool {
    s.stage matches RenameStageView::Saving(o) ==> o.origin == MediaRenameOrigin::EXTERNAL
        && o.descriptions.len() >= 1
}

impl RenameCoordinator {

    /// A request never fails: whatever the collaborators report, each answer the
    /// coordinator gives, first or later, holds at least one description.
    pub proof fn lemma_answer_never_empty(
        &self,
        raw: Seq<char>,
        media_type: MediaFileType,
        s: RenameSessionView,
        event: RenameEventView,
    )
        requires
            session_view_wf(s),
        ensures
            answer_not_empty(self.first_step(raw, media_type)),
            answer_not_empty(self.next_step(s, event)),
    {
        let base = s.base;
        match s.stage {
            RenameStageView::Disk => {
                if let RenameEventView::DirectoriesListed(Some(entries)) = event {
                    let m = crate::rename::disk::disk_matches(entries, base.name, self.disk.percent());
                    assert(m.len() > 0 ==> m.map_values(|t: Seq<char>| title_description(t)).len()
                        > 0);
                }
            },
            RenameStageView::Cache => {
                if let RenameEventView::CacheQueried(Some(items)) = event {
                    let f = crate::rename::cache::answering(base, s.media_type, items);
                    assert(f.len() > 0 ==> f.map_values(
                        |i: OnlineCacheItemView| crate::rename::cache::cached_description(i),
                    ).len() > 0);
                }
            },
            _ => {},
        }
    }

    /// Resolvers are tried in the fixed order disk, cache, external, each at
    /// most once: every step moves strictly forward, each request goes to the
    /// resolver the session stands at, and options from the disk or the cache
    /// resolver answer the request at once, so later resolvers are not asked.
    pub proof fn lemma_fixed_order(
        &self,
        raw: Seq<char>,
        media_type: MediaFileType,
        s: RenameSessionView,
        event: RenameEventView,
    )
        ensures
            step_rank(self.first_step(raw, media_type)) <= 1,
            asks_its_resolver(self.first_step(raw, media_type)),
            step_rank(self.next_step(s, event)) > stage_rank(s.stage),
            asks_its_resolver(self.next_step(s, event)),
            (s.stage is Disk && (event matches RenameEventView::DirectoriesListed(Some(entries))
                && disk_options(entries, s.base.name, self.similarity()) is Some))
                ==> self.next_step(s, event) is Done,
            (s.stage is Cache && (event matches RenameEventView::CacheQueried(Some(items))
                && cache_options(s.base, s.media_type, items) is Some))
                ==> self.next_step(s, event) is Done,
    {
    }
}

/// The session and the request of a step carry the search key and media type
/// they were made for.
pub open spec fn carries(st: RenameStepView, base: BaseInfoView, media_type: MediaFileType) -> bool {
    st matches RenameStepView::Next(s, q) ==> {
        &&& s.base == base
        &&& s.media_type == media_type
        &&& match q {
            RenameRequestView::QueryCache { name, year, media_type: t } => name == base.name && year
                == base.year && t == media_type,
            RenameRequestView::SearchExternal { media_type: t, query, year } => query == base.name
                && year == base.year && t == media_type,
            _ => true,
        }
    }
}

impl RenameCoordinator {
    /// What each resolver's outcome leads to: its options are the answer as
    /// they are; no options, or a failure, moves on to the next resolver; after
    /// the external one the fallback of the formatted search key is the answer.
    /// Every step works on the search key of the raw name and its media type.
    pub proof fn lemma_outcomes(
        &self,
        raw: Seq<char>,
        media_type: MediaFileType,
        s: RenameSessionView,
        event: RenameEventView,
    )
        ensures
            carries(
                self.first_step(raw, media_type),
                base_info_of(self.trim_patterns(), raw),
                media_type,
            ),
            carries(self.next_step(s, event), s.base, s.media_type),
            s.stage is Disk ==> match event {
                RenameEventView::DirectoriesListed(Some(entries)) => match disk_options(
                    entries,
                    s.base.name,
                    self.similarity(),
                ) {
                    Some(o) => self.next_step(s, event) == RenameStepView::Done(o),
                    None => self.next_step(s, event) == Self::cache_step(s.base, s.media_type),
                },
                _ => self.next_step(s, event) == Self::cache_step(s.base, s.media_type),
            },
            s.stage is Cache ==> match event {
                RenameEventView::CacheQueried(Some(items)) => match cache_options(
                    s.base,
                    s.media_type,
                    items,
                ) {
                    Some(o) => self.next_step(s, event) == RenameStepView::Done(o),
                    None => self.next_step(s, event) == Self::external_step(s.base, s.media_type),
                },
                _ => self.next_step(s, event) == Self::external_step(s.base, s.media_type),
            },
            (s.stage is External && (s.media_type == MediaFileType::UNKNOWN || !(event matches RenameEventView::ExternalSearched(Some(found))
                && found.len() > 0))) ==> self.next_step(s, event) == RenameStepView::Done(
                fallback_options(s.base),
            ),
            event == RenameEventView::ItemsSaved(true) ==> match s.stage {
                RenameStageView::Saving(o) => self.next_step(s, event) == RenameStepView::Done(o),
                _ => true,
            },
    {
    }
}

} // verus!
