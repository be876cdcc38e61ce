use commander::config::{
    FilesystemConfig, MongoDbConfig, MoveConfig, OnlineConfig, RenameConfig, SearchConfig,
    ServerConfig, Settings, TmdbConfig,
};
use commander::rename::cache::{CacheRenamer, OnlineCacheItem};
use commander::rename::disk::{exclude_unsimilar, DiskRenamer};
use commander::rename::external::{parse_date, parse_title, ExternalMedia, ExternalRenamer};
use commander::rename::name::{base_info_from_trimmed, parse_year, BaseInfo, NameGenerator};
use commander::rename::{
    MediaFileType, MediaRenameOrigin, RenameCoordinator, RenameError, RenameEvent, RenameRequest,
    RenameStep, RenamedMediaOptions,
};
use commander::uppercase_words;

fn settings_with(trim_regex: Vec<&str>, similarity_percent: u8) -> Settings {
    Settings {
        mongodb: MongoDbConfig {
            connection_url: String::new(),
            database: String::new(),
            download_collection: String::new(),
            online_collection: String::new(),
        },
        tmdb: TmdbConfig {
            api_key: String::new(),
            base_url: String::new(),
            search_movies_url: String::new(),
            movie_credits_url: String::new(),
            search_tv_url: String::new(),
            tv_credits_url: String::new(),
        },
        online: OnlineConfig { result_limit: 10, poster_base: "https://img/".to_owned() },
        server: ServerConfig { command_name: String::new(), command_listen_cron: String::new() },
        filesystem: FilesystemConfig {
            downloads_path: "/media/downloads".to_owned(),
            movies_path: "/media/movies".to_owned(),
            tv_path: "/media/tv".to_owned(),
        },
        search: SearchConfig {
            max_depth: 6,
            exclude_paths: vec![],
            video_min_size_bytes: 20,
            video_mime_types: vec![],
        },
        rename: RenameConfig {
            max_depth: 2,
            trim_regex: trim_regex.into_iter().map(|s| s.to_owned()).collect(),
            similarity_percent,
        },
        mv: MoveConfig { subs_max_depth: 3, restricted_remove_paths: vec![], subs_ext: vec![] },
        server_port: 8080,
    }
}

fn default_settings() -> Settings {
    settings_with(vec![r"[-. ]+[sS]\d{1,2}", r"[-. ]+\d{3,4}p"], 70)
}

fn base_of(raw: &str) -> BaseInfo {
    NameGenerator::new(&default_settings()).unwrap().generate_base_info(raw.to_owned())
}

fn expect_next(step: RenameStep) -> (commander::rename::RenameSession, RenameRequest) {
    match step {
        RenameStep::Next(s, q) => (s, q),
        RenameStep::Done(_) => panic!("the request ended early"),
    }
}

fn expect_done(step: RenameStep) -> RenamedMediaOptions {
    match step {
        RenameStep::Done(o) => o,
        RenameStep::Next(..) => panic!("the request did not end"),
    }
}

fn stored(name: &str, year: Option<i32>, title: &str, media_type: MediaFileType) -> OnlineCacheItem {
    OnlineCacheItem {
        search_name: name.to_owned(),
        search_year: year,
        cover_path: "c".to_owned(),
        title: title.to_owned(),
        date: 1700092800000,
        description: "d".to_owned(),
        cast: vec!["a".to_owned(), "b".to_owned()],
        media_type,
    }
}

#[test]
fn prenormalized_name_gives_name_and_year() {
    let b = base_of("   Some Movie (2021-10-12)");
    assert_eq!("Some Movie", b.name());
    assert_eq!(Some(2021), b.year());
}

#[test]
fn first_trim_pattern_match_cuts_the_name() {
    let b = base_of("Bodyguard-S01-Series.1--BBC-2018-720p-w.subs-x265-HEVC");
    assert_eq!("Bodyguard", b.name());
    assert_eq!(None, b.year());
}

#[test]
fn ampersand_becomes_and() {
    let b = base_of("myMovie & me");
    assert_eq!("MyMovie And Me", b.name());
    assert_eq!(None, b.year());
}

#[test]
fn trailing_year_is_split_off() {
    let b = base_of(" hmmm a title in 2022 2019");
    assert_eq!("Hmmm A Title In 2022", b.name());
    assert_eq!(Some(2019), b.year());
}

#[test]
fn names_are_well_spaced() {
    for raw in ["  a   b  ", "x\t\ty", "__lead & trail__", "a.b.c", "", "   ", "*** 2020"] {
        let b = base_of(raw);
        let n = b.name();
        assert_eq!(n.trim(), n, "raw {:?}", raw);
        assert!(!n.contains("  "), "raw {:?}", raw);
    }
    assert_eq!("A B", base_of("  a   b  ").name());
    assert_eq!("X Y", base_of("x\t\ty").name());
    assert_eq!("2020", base_of("*** 2020").name());
    assert_eq!(None, base_of("*** 2020").year());
}

#[test]
fn formatted_key_reads_back_the_same() {
    for raw in ["the matrix 1999", "  Another Movie (2020-01-02)", "a&b 2001"] {
        let b = base_of(raw);
        let again = base_of(&b.formatted());
        assert_eq!(b.name(), again.name());
        assert_eq!(b.year(), again.year());
    }
    assert_eq!("The Matrix (1999)", base_of("the matrix 1999").formatted());
}

#[test]
fn years_below_a_thousand_do_not_read_back() {
    let b = base_of("movie 0042");
    assert_eq!(Some(42), b.year());
    assert_eq!("Movie (42)", b.formatted());
    let again = base_of(&b.formatted());
    assert_eq!("Movie 42", again.name());
    assert_eq!(None, again.year());
}

#[test]
fn formatted_writes_negative_years() {
    assert_eq!("X (-5)", BaseInfo::new("X".to_owned(), Some(-5)).formatted());
    assert_eq!("X", BaseInfo::new("X".to_owned(), None).formatted());
}

#[test]
fn trimmed_names_are_cleaned_without_patterns() {
    let b = base_info_from_trimmed("the-thing: 1982");
    assert_eq!("The-thing", b.name());
    assert_eq!(Some(1982), b.year());
}

#[test]
fn invalid_trim_pattern_is_reported() {
    let settings = settings_with(vec!["("], 70);
    assert!(matches!(NameGenerator::new(&settings), Err(RenameError::InvalidTrimPattern)));
    assert!(matches!(DiskRenamer::new(&settings), Err(RenameError::InvalidTrimPattern)));
    assert!(matches!(RenameCoordinator::new(&settings), Err(RenameError::InvalidTrimPattern)));
}

#[test]
fn title_case_follows_spaces() {
    assert_eq!("Hello World", uppercase_words("hello world"));
    assert_eq!("A  B", uppercase_words("a  b"));
    assert_eq!(" A", uppercase_words(" a"));
    assert_eq!("", uppercase_words(""));
}

#[test]
fn years_are_parsed_from_digits_only() {
    assert_eq!(Some(2019), parse_year("2019"));
    assert_eq!(Some(7), parse_year("0007"));
    assert_eq!(None, parse_year(""));
    assert_eq!(None, parse_year("20a9"));
    assert_eq!(Some(2147483647), parse_year("2147483647"));
    assert_eq!(None, parse_year("2147483648"));
    assert_eq!(Some(2021), parse_year("+2021"));
    assert_eq!(Some(-12), parse_year("-12"));
    assert_eq!(Some(-2147483648), parse_year("-2147483648"));
    assert_eq!(None, parse_year("-2147483649"));
    assert_eq!(None, parse_year("-"));
    assert_eq!(None, parse_year("+"));
    assert_eq!(None, parse_year("--1"));
}

#[test]
fn media_descriptions_split_title_and_date() {
    let g = NameGenerator::new(&default_settings()).unwrap();
    let d = g.generate_media_descriptions(vec![
        "My Movie (2022)".to_owned(),
        "Other (2022-01-15)".to_owned(),
        "No Date".to_owned(),
        "Bad (22)".to_owned(),
    ]);
    assert_eq!(4, d.len());
    assert_eq!(("My Movie", "2022"), (d[0].title.as_str(), d[0].date.as_str()));
    assert_eq!(("Other", "2022-01-15"), (d[1].title.as_str(), d[1].date.as_str()));
    assert_eq!(("No Date", ""), (d[2].title.as_str(), d[2].date.as_str()));
    assert_eq!(("Bad (22)", ""), (d[3].title.as_str(), d[3].date.as_str()));
    assert_eq!("", d[0].poster_url);
    assert!(d[0].cast.is_empty());
}

#[test]
fn disk_scenario_orders_by_distance() {
    let renamer = DiskRenamer::new(&settings_with(vec![], 70)).unwrap();
    let base = BaseInfo::new("My Coding Novie".to_owned(), Some(1918));
    let options = renamer
        .options_from_entries(
            &base,
            vec![
                "My Coding Movee (2022)".to_owned(),
                "My Codig Movee (2022-12-01)".to_owned(),
                "Another Something (2022)".to_owned(),
            ],
        )
        .unwrap();
    assert_eq!(MediaRenameOrigin::DISK, options.origin());
    let d = options.descriptions();
    assert_eq!(2, d.len());
    assert_eq!(("My Coding Movee", "2022"), (d[0].title.as_str(), d[0].date.as_str()));
    assert_eq!(("My Codig Movee", "2022-12-01"), (d[1].title.as_str(), d[1].date.as_str()));
}

#[test]
fn disk_threshold_and_ties() {
    let base = BaseInfo::new("abcd".to_owned(), None);
    let strict = DiskRenamer::new(&settings_with(vec![], 100)).unwrap();
    assert!(strict.options_from_entries(&base, vec!["abce".to_owned()]).is_none());
    let exact = strict.options_from_entries(&base, vec!["abcd (1999)".to_owned()]).unwrap();
    assert_eq!("abcd", exact.descriptions()[0].title);
    let loose = DiskRenamer::new(&settings_with(vec![], 50)).unwrap();
    let tied = loose
        .options_from_entries(&base, vec!["abcx".to_owned(), "abcd".to_owned(), "abcy".to_owned()])
        .unwrap();
    let titles: Vec<&str> = tied.descriptions().iter().map(|d| d.title.as_str()).collect();
    assert_eq!(vec!["abcd", "abcx", "abcy"], titles);
    assert!(loose.options_from_entries(&base, vec![]).is_none());
}

#[test]
fn similarity_threshold_edges() {
    assert!(exclude_unsimilar(10, 4, 3, 70));
    assert!(!exclude_unsimilar(10, 4, 4, 70));
    assert!(exclude_unsimilar(0, 0, 0, 0));
    assert!(!exclude_unsimilar(0, 0, 0, 1));
}

#[test]
fn unknown_media_type_is_invalid_for_disk_and_external() {
    let settings = default_settings();
    let disk = DiskRenamer::new(&settings).unwrap();
    assert!(matches!(disk.library_root(MediaFileType::UNKNOWN), Err(RenameError::InvalidMediaType)));
    assert_eq!("/media/tv", disk.library_root(MediaFileType::TV).unwrap());
    let external = ExternalRenamer::new(&settings);
    let base = BaseInfo::new("x".to_owned(), None);
    assert!(matches!(
        external.search_request(&base, MediaFileType::UNKNOWN),
        Err(RenameError::InvalidMediaType)
    ));
}

#[test]
fn cache_scenario_filters_on_media_type() {
    let base = BaseInfo::new("My Movie".to_owned(), Some(2022));
    let items = vec![
        stored("My Movie", Some(2022), "one", MediaFileType::MOVIE),
        stored("My Movie", Some(2022), "two", MediaFileType::TV),
    ];
    let options = CacheRenamer::new().find_options(&base, MediaFileType::MOVIE, items).unwrap();
    assert_eq!(MediaRenameOrigin::CACHE, options.origin());
    let d = options.descriptions();
    assert_eq!(1, d.len());
    assert_eq!("one", d[0].title);
    assert_eq!("c", d[0].poster_url);
    assert_eq!("2023-11-16", d[0].date);
    assert_eq!(vec!["a".to_owned(), "b".to_owned()], d[0].cast);
}

#[test]
fn cache_year_filter_only_with_a_year() {
    let items = || {
        vec![
            stored("M", None, "none", MediaFileType::MOVIE),
            stored("M", Some(2022), "y2022", MediaFileType::MOVIE),
            stored("M", Some(2023), "y2023", MediaFileType::MOVIE),
            stored("N", Some(2022), "other", MediaFileType::MOVIE),
        ]
    };
    let cache = CacheRenamer::new();
    let no_year = cache.find_options(&BaseInfo::new("M".to_owned(), None), MediaFileType::MOVIE, items());
    assert_eq!(3, no_year.unwrap().descriptions().len());
    let with_year =
        cache.find_options(&BaseInfo::new("M".to_owned(), Some(2022)), MediaFileType::MOVIE, items()).unwrap();
    assert_eq!(1, with_year.descriptions().len());
    assert_eq!("y2022", with_year.descriptions()[0].title);
    assert!(cache.find_options(&BaseInfo::new("Z".to_owned(), None), MediaFileType::MOVIE, items()).is_none());
    let q = cache.query(&BaseInfo::new("M".to_owned(), None), MediaFileType::TV);
    assert_eq!(("M", None, MediaFileType::TV), (q.search_name.as_str(), q.search_year, q.media_type));
}

#[test]
fn external_results_are_cleaned_and_stored() {
    let renamer = ExternalRenamer::new(&default_settings());
    let base = BaseInfo::new("Fast".to_owned(), Some(2006));
    let found = vec![ExternalMedia {
        title: "Fast & Furious: Tokyo Drift!".to_owned(),
        poster_path: Some("/p.jpg".to_owned()),
        date: "2006-06-16".to_owned(),
        description: "cars".to_owned(),
        id: 9615,
        cast: vec!["Sean".to_owned()],
    }];
    let x = renamer.find_options(&base, MediaFileType::MOVIE, found).unwrap();
    let d = &x.options.descriptions()[0];
    assert_eq!("Fast and Furious Tokyo Drift", d.title);
    assert_eq!("https://img//p.jpg", d.poster_url);
    assert_eq!("2006-06-16", d.date);
    assert_eq!(vec!["Sean".to_owned()], d.cast);
    let item = &x.items[0];
    assert_eq!(("Fast", Some(2006)), (item.search_name.as_str(), item.search_year));
    assert_eq!(1150416000000, item.date);
    assert_eq!(MediaFileType::MOVIE, item.media_type);
    assert!(renamer.find_options(&base, MediaFileType::MOVIE, vec![]).is_none());
}

#[test]
fn external_dates_and_titles() {
    assert_eq!(1700092800000, parse_date("2023-11-16"));
    assert_eq!(0, parse_date("2023"));
    assert_eq!(0, parse_date("not a date"));
    assert_eq!("Tom and Jerry", parse_title("Tom & Jerry"));
    assert_eq!("Amlie", parse_title("Amélie!"));
}

#[test]
fn coordinator_falls_back_to_the_name() {
    let c = RenameCoordinator::new(&default_settings()).unwrap();
    let (s, _) = expect_next(c.begin("myMovie & me".to_owned(), MediaFileType::MOVIE));
    let (s, _) = expect_next(c.resume(s, RenameEvent::DirectoriesListed(Ok(vec![]))));
    let (s, _) = expect_next(c.resume(s, RenameEvent::CacheQueried(Ok(vec![]))));
    let o = expect_done(c.resume(s, RenameEvent::ExternalSearched(Ok(vec![]))));
    assert_eq!(MediaRenameOrigin::NAME, o.origin());
    assert_eq!(1, o.descriptions().len());
    assert_eq!("MyMovie And Me", o.descriptions()[0].title);
    assert_eq!("", o.descriptions()[0].date);
}

#[test]
fn coordinator_fallback_splits_a_year() {
    let c = RenameCoordinator::new(&default_settings()).unwrap();
    let (s, _) = expect_next(c.begin("the matrix 1999".to_owned(), MediaFileType::TV));
    let (s, _) = expect_next(c.resume(s, RenameEvent::DirectoriesListed(Err(RenameError::CollaboratorFailure))));
    let (s, _) = expect_next(c.resume(s, RenameEvent::CacheQueried(Err(RenameError::CollaboratorFailure))));
    let o = expect_done(c.resume(s, RenameEvent::ExternalSearched(Err(RenameError::CollaboratorFailure))));
    assert_eq!(MediaRenameOrigin::NAME, o.origin());
    assert_eq!(1, o.descriptions().len());
    assert_eq!(("The Matrix", "1999"), (o.descriptions()[0].title.as_str(), o.descriptions()[0].date.as_str()));
}

#[test]
fn coordinator_stops_at_the_disk() {
    let c = RenameCoordinator::new(&default_settings()).unwrap();
    let (s, _) = expect_next(c.begin("my coding movee".to_owned(), MediaFileType::MOVIE));
    let o = expect_done(c.resume(s, RenameEvent::DirectoriesListed(Ok(vec!["My Coding Movee (2022)".to_owned()]))));
    assert_eq!(MediaRenameOrigin::DISK, o.origin());
}

#[test]
fn coordinator_stops_at_the_cache() {
    let c = RenameCoordinator::new(&default_settings()).unwrap();
    let (s, _) = expect_next(c.begin("my movie".to_owned(), MediaFileType::MOVIE));
    let (s, q) = expect_next(c.resume(s, RenameEvent::DirectoriesListed(Ok(vec![]))));
    assert!(matches!(q, RenameRequest::QueryCache(_)));
    let item = stored("My Movie", None, "cached", MediaFileType::MOVIE);
    let o = expect_done(c.resume(s, RenameEvent::CacheQueried(Ok(vec![item]))));
    assert_eq!(MediaRenameOrigin::CACHE, o.origin());
    assert_eq!("cached", o.descriptions()[0].title);
}

#[test]
fn coordinator_writes_external_results_through() {
    let c = RenameCoordinator::new(&default_settings()).unwrap();
    let media = || {
        vec![ExternalMedia {
            title: "Heat".to_owned(),
            poster_path: None,
            date: "1995-12-15".to_owned(),
            description: String::new(),
            id: 949,
            cast: vec![],
        }]
    };
    let (s, _) = expect_next(c.begin("heat 1995".to_owned(), MediaFileType::MOVIE));
    let (s, _) = expect_next(c.resume(s, RenameEvent::DirectoriesListed(Ok(vec![]))));
    let (s, _) = expect_next(c.resume(s, RenameEvent::CacheQueried(Ok(vec![]))));
    let (saving, q) = expect_next(c.resume(s, RenameEvent::ExternalSearched(Ok(media()))));
    match q {
        RenameRequest::SaveItems(items) => {
            assert_eq!(1, items.len());
            assert_eq!(("Heat", Some(1995)), (items[0].search_name.as_str(), items[0].search_year));
        },
        _ => panic!("the results are not stored"),
    }
    let o = expect_done(c.resume(saving, RenameEvent::ItemsSaved(Ok(()))));
    assert_eq!(MediaRenameOrigin::EXTERNAL, o.origin());
    assert_eq!("Heat", o.descriptions()[0].title);

    let (s, _) = expect_next(c.begin("heat 1995".to_owned(), MediaFileType::MOVIE));
    let (s, _) = expect_next(c.resume(s, RenameEvent::DirectoriesListed(Ok(vec![]))));
    let (s, _) = expect_next(c.resume(s, RenameEvent::CacheQueried(Ok(vec![]))));
    let (saving, _) = expect_next(c.resume(s, RenameEvent::ExternalSearched(Ok(media()))));
    let o = expect_done(c.resume(saving, RenameEvent::ItemsSaved(Err(RenameError::CollaboratorFailure))));
    assert_eq!(MediaRenameOrigin::NAME, o.origin());
}

#[test]
fn coordinator_with_unknown_type_skips_disk_and_external() {
    let c = RenameCoordinator::new(&default_settings()).unwrap();
    let (s, q) = expect_next(c.begin("some name".to_owned(), MediaFileType::UNKNOWN));
    assert!(matches!(q, RenameRequest::QueryCache(_)));
    let o = expect_done(c.resume(s, RenameEvent::CacheQueried(Ok(vec![]))));
    assert_eq!(MediaRenameOrigin::NAME, o.origin());
    assert_eq!("Some Name", o.descriptions()[0].title);
}

#[test]
fn coordinator_treats_an_unexpected_outcome_as_a_failure() {
    let c = RenameCoordinator::new(&default_settings()).unwrap();
    let (s, _) = expect_next(c.begin("x".to_owned(), MediaFileType::MOVIE));
    let (_, q) = expect_next(c.resume(s, RenameEvent::ItemsSaved(Ok(()))));
    assert!(matches!(q, RenameRequest::QueryCache(_)));
}

#[test]
fn media_type_names() {
    assert_eq!(MediaFileType::MOVIE, MediaFileType::from_name("MOVIE"));
    assert_eq!(MediaFileType::TV, MediaFileType::from_name("TV"));
    assert_eq!(MediaFileType::UNKNOWN, MediaFileType::from_name("movie"));
    assert_eq!("UNKNOWN", MediaFileType::UNKNOWN.name());
    assert_eq!("TV", MediaFileType::TV.name());
}

#[test]
fn descriptions_need_a_two_digit_month_and_day() {
    let g = NameGenerator::new(&default_settings()).unwrap();
    let d = g.generate_media_descriptions(vec!["A (2022-1-5)".to_owned(), "  (2019)".to_owned()]);
    assert_eq!(("A (2022-1-5)", ""), (d[0].title.as_str(), d[0].date.as_str()));
    assert_eq!((" ", "2019"), (d[1].title.as_str(), d[1].date.as_str()));
}

#[test]
fn blank_name_before_a_date_is_not_a_normalized_name() {
    let b = base_of("  (2019)");
    assert_eq!("2019", b.name());
    assert_eq!(None, b.year());
    let c = base_of("Some Movie (2021-1-2)");
    assert_eq!("Some Movie 2021-1-2", c.name());
    assert_eq!(None, c.year());
}

#[test]
fn constructors_succeed_on_valid_patterns() {
    let settings = settings_with(vec![r"\d+", "x|y"], 70);
    assert!(NameGenerator::new(&settings).is_ok());
    assert!(DiskRenamer::new(&settings).is_ok());
    assert!(RenameCoordinator::new(&settings).is_ok());
    let mixed = settings_with(vec![r"\d+", "[a-"], 70);
    assert!(matches!(NameGenerator::new(&mixed), Err(RenameError::InvalidTrimPattern)));
}

#[test]
fn description_split_follows_the_title_pattern() {
    let g = NameGenerator::new(&default_settings()).unwrap();
    let d = g.generate_media_descriptions(vec![
        "   (2022)".to_owned(),
        "A\u{00A0}B (2022)".to_owned(),
        "  Lead (2022)".to_owned(),
        "Trail  (2022)".to_owned(),
    ]);
    assert_eq!((" ", "2022"), (d[0].title.as_str(), d[0].date.as_str()));
    assert_eq!(("A\u{00A0}B", "2022"), (d[1].title.as_str(), d[1].date.as_str()));
    assert_eq!(("Lead", "2022"), (d[2].title.as_str(), d[2].date.as_str()));
    assert_eq!(("Trail ", "2022"), (d[3].title.as_str(), d[3].date.as_str()));
}

#[test]
fn unicode_whitespace_counts_as_whitespace() {
    let b = base_of("Some\u{00A0}Movie (2021)");
    assert_eq!("Some\u{00A0}Movie", b.name());
    assert_eq!(Some(2021), b.year());
    let c = base_of("\u{3000}Other Movie\u{2003}(2020-01-02)");
    assert_eq!("Other Movie", c.name());
    assert_eq!(Some(2020), c.year());
    let renamer = DiskRenamer::new(&settings_with(vec![], 100)).unwrap();
    let base = BaseInfo::new("Heat".to_owned(), None);
    let o = renamer.options_from_entries(&base, vec!["Heat\u{00A0}(1995)".to_owned()]).unwrap();
    assert_eq!("Heat", o.descriptions()[0].title);
}

#[test]
fn external_resolver_refuses_unknown_media() {
    let renamer = ExternalRenamer::new(&default_settings());
    let base = BaseInfo::new("Heat".to_owned(), None);
    let found = vec![ExternalMedia {
        title: "Heat".to_owned(),
        poster_path: None,
        date: "1995-12-15".to_owned(),
        description: String::new(),
        id: 949,
        cast: vec![],
    }];
    assert!(renamer.find_options(&base, MediaFileType::UNKNOWN, found).is_none());
}
