use chrono::{DateTime, FixedOffset};
use tweaker::calendar::time_of;
use tweaker::clock::Moment;
use tweaker::config::{config_path, keep_accepted, Config, ConfigPath};
use tweaker::crawler::{
    before_error, dir_ts, download_media, find_and_join_rooms, log_message, message_filename,
    plan_media, rooms_among, try_download_media, Content, CrawlerConfig, FilePlan, Media, MediaSource, MessageOrigin,
};
use tweaker::ids::is_mxc_supported;

fn list(items: &[&str]) -> Vec<String> {
    items.iter().map(|s| s.to_string()).collect()
}

fn config() -> CrawlerConfig {
    CrawlerConfig {
        enable_media_downloads: None,
        media_download_server: "https://m.org".to_string(),
        media_download_uri: None,
        join_rooms: true,
    }
}

fn origin() -> MessageOrigin {
    MessageOrigin {
        sender: "@a:x".to_string(),
        room_id: "!r:x".to_string(),
        event_id: "$e".to_string(),
    }
}

#[test]
fn directories_are_dates() {
    assert_eq!(dir_ts(0, 0), list(&["1970", "1", "1"]));
    assert_eq!(dir_ts(1709164800, 0), list(&["2024", "2", "29"]));
    assert_eq!(dir_ts(1709251200, 0), list(&["2024", "3", "1"]));
    assert_eq!(dir_ts(4107542399, 0), list(&["2100", "2", "28"]));
    assert_eq!(dir_ts(4107542400, 0), list(&["2100", "3", "1"]));
    assert_eq!(dir_ts(-1, 0), list(&["1969", "12", "31"]));
    assert_eq!(dir_ts(-62167219201, 0), list(&["-1", "12", "31"]));
}

#[test]
fn directories_are_local_dates() {
    assert_eq!(dir_ts(0, -1), list(&["1969", "12", "31"]));
    assert_eq!(dir_ts(86399, 1), list(&["1970", "1", "2"]));
    assert_eq!(dir_ts(-8334601228800, -3600), list(&["-262144", "12", "31"]));
    assert_eq!(dir_ts(8210266876799, 3600), list(&["262143", "1", "1"]));
}

#[test]
fn times_of_day() {
    assert_eq!(time_of(0, 0), "00:00:00");
    assert_eq!(time_of(86399, 0), "23:59:59");
    assert_eq!(time_of(3661, 3600), "02:01:01");
    assert_eq!(time_of(0, -1), "23:59:59");
    assert_eq!(time_of(-8334601228800, -86399), "00:00:01");
}

#[test]
fn moments_are_written_as_by_chrono() {
    let moments = [
        (0, 0),
        (1709164800, 5_000_000),
        (951782399, 123_456_000),
        (-1, 1),
        (253402300799, 0),
        (253402300800, 0),
        (-62135596801, 999_999_999),
        (-62167219201, 0),
        (-8334601228800, 0),
        (8210266876799, 999_000_000),
    ];
    for (secs, nanos) in moments {
        for offset in [0, 3600, -3600, 19800, -12345, 86399, -86399] {
            let zone = FixedOffset::east_opt(offset).unwrap();
            let expected = DateTime::from_timestamp(secs, nanos).unwrap().with_timezone(&zone);
            let moment = Moment::new(secs, nanos).unwrap();
            assert_eq!(moment.local_text(offset), expected.to_string());
        }
    }
}

#[test]
fn moments_in_words() {
    let text = |secs: i64, nanos: u32, offset: i32| {
        Moment::new(secs, nanos).unwrap().local_text(offset)
    };
    assert_eq!(text(0, 0, 0), "1970-01-01 00:00:00 +00:00");
    assert_eq!(text(1709164800, 5_000_000, -3600), "2024-02-28 23:00:00.005 -01:00");
    assert_eq!(text(0, 1_000, 61), "1970-01-01 00:01:01.000001 +00:01:01");
    assert_eq!(text(0, 1, 0), "1970-01-01 00:00:00.000000001 +00:00");
    assert_eq!(text(253402300800, 0, 0), "+10000-01-01 00:00:00 +00:00");
    assert_eq!(text(-62167219201, 0, 0), "-0001-12-31 23:59:59 +00:00");
}

#[test]
fn moments_have_dates() {
    assert_eq!(Moment::new(8210266876800, 0), None);
    assert_eq!(Moment::new(-8334601228801, 0), None);
    assert_eq!(Moment::new(0, 1_000_000_000), None);
    let last = Moment::new(8210266876799, 999_999_999).unwrap();
    assert_eq!((last.secs(), last.nanos()), (8210266876799, 999_999_999));
}

#[test]
fn filenames_name_time_sender_room_and_event() {
    assert_eq!(message_filename(3661, 0, &origin()), "01:01:01@a:x!r:x$e");
}

#[test]
fn messages_with_text_are_logged() {
    let plan = log_message(&config(), 3661, 0, &origin(), "text");
    assert!(plan.download);
    assert_eq!(
        plan.file,
        Some(FilePlan {
            dirs: list(&["1970", "1", "1"]),
            name: "01:01:01@a:x!r:x$e".to_string(),
        })
    );
    let mut off = config();
    off.enable_media_downloads = Some(false);
    let plan = log_message(&off, 3661, 0, &origin(), "");
    assert!(!plan.download);
    assert_eq!(plan.file, None);
}

#[test]
fn messages_without_a_date_count_as_sent_at_the_epoch() {
    let plan = log_message(&config(), i64::MAX, 0, &origin(), "text");
    assert_eq!(plan.file.unwrap().dirs, list(&["1970", "1", "1"]));
}

fn media(uri: &str, name: Option<&str>) -> Media {
    Media { source: MediaSource::Plain(uri.to_string()), name: name.map(|n| n.to_string()) }
}

#[test]
fn media_are_downloaded() {
    let content = Content::Image(media("mxc://s.org/abc", Some("cat.png")));
    let plan = download_media(&config(), &content, 3661, 0, &origin()).unwrap().unwrap();
    assert_eq!(plan.uri, "https://m.org/_matrix/media/r0/download/s.org/abc");
    assert_eq!(plan.file.dirs, list(&["1970", "1", "1"]));
    assert_eq!(plan.file.name, "01:01:01@a:x!r:x$e_cat.png");
    let mut other = config();
    other.media_download_uri = Some("/get".to_string());
    let content = Content::Audio(media("mxc://s.org/abc", None));
    let plan = download_media(&other, &content, 3661, 0, &origin()).unwrap().unwrap();
    assert_eq!(plan.uri, "https://m.org/get/s.org/abc");
    assert_eq!(plan.file.name, "01:01:01@a:x!r:x$e_abc");
}

#[test]
fn media_that_are_not_downloaded() {
    let secret = Media { source: MediaSource::Encrypted, name: None };
    assert_eq!(download_media(&config(), &Content::File(secret), 0, 0, &origin()), Ok(None));
    assert_eq!(download_media(&config(), &Content::Other, 0, 0, &origin()), Ok(None));
    let refused = [
        ("https://s.org/abc", "MXC URI schema was not mxc://"),
        ("mxc:/", "MXC URI schema was not mxc://"),
        ("mxc://s.org", "MXC URI does not have first slash"),
        ("mxc://s.org/a!", "Media Identifier malformed, invalid characters"),
        ("mxc:// /a\u{e9}", "Media Identifier malformed, invalid characters"),
        ("mxc:// /a", "invalid Server Name"),
        ("mxc:///a", "invalid Server Name"),
    ];
    for (uri, message) in refused {
        let content = Content::Video(media(uri, None));
        let outcome = download_media(&config(), &content, 0, 0, &origin());
        assert_eq!(outcome, Err(message.to_string()));
    }
}

#[test]
fn planned_media() {
    let plan = plan_media(&config(), "s", "m", &None, 0, 0, &origin());
    assert_eq!(plan.uri, "https://m.org/_matrix/media/r0/download/s/m");
    assert_eq!(plan.file.name, "00:00:00@a:x!r:x$e_m");
}

#[test]
fn long_server_names_are_not_supported() {
    assert!(is_mxc_supported("mxc://s.org/abc"));
    assert!(is_mxc_supported("no content"));
    let long = "a".repeat(250);
    assert!(!is_mxc_supported(&format!("mxc://{long}/abc")));
    // not content URIs, so refused as such
    assert!(is_mxc_supported(&format!("mxc://{long}/a!")));
    assert!(is_mxc_supported(&format!("mxc://{long} /abc")));
    let longer = "a".repeat(256);
    assert!(is_mxc_supported(&format!("mxc://{longer}/abc")));
    let content = Content::Image(media(&format!("mxc://{long}/abc"), None));
    assert_eq!(try_download_media(&config(), &content, 0, 0, &origin()), None);
    let content = Content::Image(media("mxc://s.org/abc", None));
    let tried = try_download_media(&config(), &content, 0, 0, &origin());
    assert_eq!(tried, Some(download_media(&config(), &content, 0, 0, &origin())));
    assert_eq!(try_download_media(&config(), &Content::Other, 0, 0, &origin()), Some(Ok(None)));
}

#[test]
fn server_names_end_where_eight_bits_hold() {
    let longer = "a".repeat(260);
    let content = Content::Image(media(&format!("mxc://{longer}/abc"), None));
    let plan = download_media(&config(), &content, 0, 0, &origin()).unwrap().unwrap();
    let server = "a".repeat(4);
    let media_id = format!("{}/abc", "a".repeat(255));
    assert_eq!(plan.uri, format!("https://m.org/_matrix/media/r0/download/{server}/{media_id}"));
}

#[test]
fn rooms_are_found_in_a_text() {
    let text = "see #cats:x.org and !abcdefgh12:y.org, not !short or @user:z.org";
    let found = find_and_join_rooms(&config(), text);
    assert_eq!(found.rooms, list(&["#cats:x.org", "!abcdefgh12:y.org"]));
    assert_eq!(found.error, None);
    let mut off = config();
    off.join_rooms = false;
    let found = find_and_join_rooms(&off, text);
    assert!(found.rooms.is_empty() && found.error.is_none());
}

#[test]
fn joining_ends_at_the_first_text_that_is_no_room() {
    let found = rooms_among(&list(&["#a:x.org", "nothing", "#b:x.org"]));
    assert_eq!(found.rooms, list(&["#a:x.org"]));
    assert!(found.error.is_some());
    let text = "#a:x.org #b:- #c:x.org";
    let found = find_and_join_rooms(&config(), text);
    assert_eq!(found.rooms[0], "#a:x.org");
}

#[test]
fn rooms_before_an_error() {
    let ids = list(&["a", "b", "c"]);
    let found = before_error(&ids, &vec![None, Some("bad".to_string()), None]);
    assert_eq!(found.rooms, list(&["a"]));
    assert_eq!(found.error, Some("bad".to_string()));
    let found = before_error(&ids, &vec![None, None, None]);
    assert_eq!(found.rooms, ids);
    assert_eq!(found.error, None);
}

fn connection() -> Config {
    Config {
        join_by_servers: list(&["x.org", "not a server", "y.org:8448"]),
        request_timeout: Some(5),
        connect_timeout: None,
        user_agent: None,
        queue_sleep_duration: None,
    }
}

#[test]
fn only_server_names_are_joined_by() {
    assert_eq!(connection().join_by_servers(), list(&["x.org", "y.org:8448"]));
    assert_eq!(keep_accepted(&list(&["a", "b"]), &vec![false, true]), list(&["b"]));
}

#[test]
fn connection_settings() {
    let mut config = connection();
    let http = config.http_client();
    assert_eq!(http.user_agent, "Tweaker; +https://git.calitabby.net/crispycat/tweaker");
    assert_eq!((http.timeout, http.connect_timeout), (Some(5), None));
    assert_eq!(config.queue_sleep_duration(), 1);
    config.user_agent = Some("agent".to_string());
    config.queue_sleep_duration = Some(9);
    assert_eq!(config.http_client().user_agent, "agent");
    assert_eq!(config.queue_sleep_duration(), 9);
}

#[test]
fn configuration_files() {
    assert_eq!(config_path(Some("/etc/t.toml".to_string())), ConfigPath::At("/etc/t.toml".to_string()));
    assert_eq!(config_path(None), ConfigPath::InCurrentDirectory("tweaker.toml".to_string()));
}
