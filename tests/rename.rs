use commander::config::{
    FilesystemConfig, MongoDbConfig, MoveConfig, OnlineConfig, RenameConfig, SearchConfig,
    ServerConfig, Settings, TmdbConfig,
};
use commander::rename::cache::{to_date, CacheRenamer, OnlineCacheItem};
use commander::rename::disk::DiskRenamer;
use commander::rename::external::{ExternalMedia, ExternalRenamer};
use commander::rename::name::{BaseInfo, NameGenerator};
use commander::rename::{
    MediaFileType, MediaRenameOrigin, RenameCoordinator, RenameEvent, RenameRequest, RenameStep,
};

fn create_test_settings() -> Settings {
    Settings {
        mongodb: MongoDbConfig {
            connection_url: String::new(),
            database: "commander".to_owned(),
            download_collection: "downloads".to_owned(),
            online_collection: "online".to_owned(),
        },
        tmdb: TmdbConfig {
            api_key: String::new(),
            base_url: String::new(),
            search_movies_url: String::new(),
            movie_credits_url: String::new(),
            search_tv_url: String::new(),
            tv_credits_url: String::new(),
        },
        online: OnlineConfig { result_limit: 10, poster_base: "https://img/".to_owned() },
        server: ServerConfig { command_name: String::new(), command_listen_cron: String::new() },
        filesystem: FilesystemConfig {
            downloads_path: "/media/downloads".to_owned(),
            movies_path: "/media/movies".to_owned(),
            tv_path: "/media/tv".to_owned(),
        },
        search: SearchConfig {
            max_depth: 6,
            exclude_paths: vec![],
            video_min_size_bytes: 20,
            video_mime_types: vec![],
        },
        rename: RenameConfig {
            max_depth: 1,
            trim_regex: vec![r"[-. ]+[sS]\d{1,2}".to_owned(), r"[-. ]+\d{3,4}p".to_owned()],
            similarity_percent: 70,
        },
        mv: MoveConfig { subs_max_depth: 3, restricted_remove_paths: vec![], subs_ext: vec![] },
        server_port: 8080,
    }
}

fn check_normalized_formatted(input: &str, expected: &str) {
    let settings = create_test_settings();
    let generator = NameGenerator::new(&settings).unwrap();
    let normalized = generator.generate_base_info(input.to_owned());
    assert_eq!(expected.to_owned(), normalized.formatted());
}

fn cache_item(name: &str, year: Option<i32>, description: &str, media_type: MediaFileType) -> OnlineCacheItem {
    OnlineCacheItem {
        search_name: name.to_owned(),
        search_year: year,
        cover_path: String::new(),
        title: String::new(),
        date: 0,
        description: description.to_owned(),
        cast: vec![],
        media_type,
    }
}

#[test]
fn check_prenormalized_origin_name() {
    check_normalized_formatted("   Some Movie (2021-10-12)", "Some Movie (2021)");
    check_normalized_formatted("   Another Movie (2020)", "Another Movie (2020)");
}

#[test]
fn check_name_trim_regex_origin_name() {
    check_normalized_formatted("Bodyguard-S01-Series.1--BBC-2018-720p-w.subs-x265-HEVC", "Bodyguard");
    check_normalized_formatted("1922.1080p.[2017].x264", "1922");
}

#[test]
fn check_replace_of_and_with_origin_name() {
    check_normalized_formatted("myMovie & me", "MyMovie And Me");
}

#[test]
fn check_replace_of_special_chars_origin_name() {
    check_normalized_formatted(" hello__Sai***", "Hello Sai");
}

#[test]
fn check_trim_and_spaces_are_merged_origin_name() {
    check_normalized_formatted("  Gnarly   Feels Move ", "Gnarly Feels Move");
}

#[test]
fn check_capitalized_origin_name() {
    check_normalized_formatted("myName and sUE", "MyName And SUE");
}

#[test]
fn check_year_retrieved_origin_name() {
    check_normalized_formatted(" hmmm a title in 2022 2019", "Hmmm A Title In 2022 (2019)");
}

#[test]
fn chheck_similar_media() {
    let settings = create_test_settings();
    let entries = vec![
        "Another Something (2022)".to_owned(),
        "My Codig Movee (2022-12-01)".to_owned(),
        "My Coding Movee (2022)".to_owned(),
    ];

    let base = BaseInfo::new("My Coding Novie".to_owned(), Some(1918));
    let renamer = DiskRenamer::new(&settings).unwrap();
    let options = renamer.options_from_entries(&base, entries);

    assert!(options.is_some());
    let options = options.unwrap();

    let descs = options.descriptions();
    assert_eq!(2, descs.len());
    assert_eq!("My Coding Movee", descs[0].title);
    assert_eq!("2022", descs[0].date);
    assert_eq!("My Codig Movee", descs[1].title);
    assert_eq!("2022-12-01", descs[1].date);
}

#[test]
fn check_cache_search() {
    let base = BaseInfo::new("My Movie".to_owned(), Some(2022));
    let desc = "my description";

    let item1 = cache_item(base.name(), base.year(), desc, MediaFileType::MOVIE);
    let item2 = cache_item(base.name(), base.year(), desc, MediaFileType::TV);

    let renamer = CacheRenamer::new();
    let options = renamer.find_options(&base, MediaFileType::MOVIE, vec![item1, item2]);

    assert!(options.is_some());
    let options = options.unwrap();

    assert_eq!(1, options.descriptions().len());
    assert_eq!(desc.to_owned(), options.descriptions()[0].description);
    assert_eq!("1970-01-01".to_owned(), options.descriptions()[0].date);
}

#[test]
fn check_cache_no_year_search() {
    let base = BaseInfo::new("Another Movie".to_owned(), None);
    let desc = "another description";

    let item1 = cache_item(base.name(), base.year(), desc, MediaFileType::MOVIE);
    let item2 = cache_item(base.name(), Some(2022), desc, MediaFileType::MOVIE);

    let renamer = CacheRenamer::new();
    let options = renamer.find_options(&base, MediaFileType::MOVIE, vec![item1, item2]);

    assert!(options.is_some());
    let options = options.unwrap();

    assert_eq!(2, options.descriptions().len());
}

#[test]
fn check_movie_get_and_cache() {
    let settings = create_test_settings();
    let title = "fight club";
    let year = Some(2000);

    let movie = ExternalMedia {
        title: title.to_owned(),
        poster_path: None,
        date: year.unwrap().to_string(),
        description: String::new(),
        id: 0,
        cast: vec![],
    };

    let base = BaseInfo::new(title.to_owned(), year);
    let renamer = ExternalRenamer::new(&settings);

    let found = renamer.find_options(&base, MediaFileType::MOVIE, vec![movie]);

    assert!(found.is_some());
    let found = found.unwrap();
    let options = &found.options;

    assert_eq!(MediaRenameOrigin::EXTERNAL, options.origin());
    assert_eq!(1, options.descriptions().len());
    assert_eq!(title.to_owned(), options.descriptions()[0].title);
    assert_eq!(year.unwrap().to_string(), options.descriptions()[0].date);

    let items = found.items;
    assert_eq!(1, items.len());
    assert_eq!(title.to_owned(), items[0].title);

    let cached = CacheRenamer::new().find_options(&base, MediaFileType::MOVIE, items).unwrap();
    assert_eq!(1, cached.descriptions().len());
    assert_eq!(title.to_owned(), cached.descriptions()[0].title);
}

#[test]
fn check_tv_get_and_cache() {
    let settings = create_test_settings();
    let title = "game of thrones";
    let year = Some(2011);

    let tv = ExternalMedia {
        title: title.to_owned(),
        poster_path: Some(String::new()),
        date: year.unwrap().to_string(),
        description: String::new(),
        id: 0,
        cast: vec![],
    };

    let base = BaseInfo::new(title.to_owned(), year);
    let renamer = ExternalRenamer::new(&settings);

    let found = renamer.find_options(&base, MediaFileType::TV, vec![tv]);

    assert!(found.is_some());
    let found = found.unwrap();
    let options = &found.options;

    assert_eq!(MediaRenameOrigin::EXTERNAL, options.origin());
    assert_eq!(1, options.descriptions().len());
    assert_eq!(title.to_owned(), options.descriptions()[0].title);
    assert_eq!(year.unwrap().to_string(), options.descriptions()[0].date);

    let items = found.items;
    assert_eq!(1, items.len());
    assert_eq!(title.to_owned(), items[0].title);

    let cached = CacheRenamer::new().find_options(&base, MediaFileType::TV, items).unwrap();
    assert_eq!(1, cached.descriptions().len());
    assert_eq!(title.to_owned(), cached.descriptions()[0].title);
}

#[test]
fn commands_execute_in_correct_order() {
    let settings = create_test_settings();
    let coordinator = RenameCoordinator::new(&settings).unwrap();

    let first = coordinator.begin("some movie".to_owned(), MediaFileType::MOVIE);
    let session = match first {
        RenameStep::Next(s, RenameRequest::ListDirectories { root, max_depth }) => {
            assert_eq!("/media/movies", root);
            assert_eq!(1, max_depth);
            s
        },
        _ => panic!("the disk resolver is not asked first"),
    };

    let second = coordinator.resume(session, RenameEvent::DirectoriesListed(Ok(vec![])));
    let session = match second {
        RenameStep::Next(s, RenameRequest::QueryCache(q)) => {
            assert_eq!("Some Movie", q.search_name);
            s
        },
        _ => panic!("the cache resolver is not asked second"),
    };

    let third = coordinator.resume(session, RenameEvent::CacheQueried(Ok(vec![])));
    match third {
        RenameStep::Next(_, RenameRequest::SearchExternal(search)) => {
            assert_eq!("Some Movie", search.query);
            assert_eq!(MediaFileType::MOVIE, search.media_type);
        },
        _ => panic!("the external resolver is not asked third"),
    }
}

#[test]
fn date_conversion() {
    let millis = 1700092800000;
    let str_date = to_date(millis);
    assert_eq!("2023-11-16".to_owned(), str_date);
}
