//! Shares of the Quark drive.
use omniget::browser_cookies::BrowserRead;
use omniget::commands::admission::PathExcess;
use omniget::commands::ids::DownloadIds;
use omniget::commands::quark::{
    admit_files, cookie_failure, enqueue_file, enqueue_files, list_failure, request_for_file,
};
use omniget::http_fetcher::config::HttpFetcherConfig;
use omniget::http_fetcher::fetch::{choose_mode, known_probe, FetchMode};
use omniget::http_fetcher::transfer::check_response;
use omniget::json::Json;
use omniget::media::MediaType;
use omniget::platforms::quark::download::{
    after_attempt, captured_cookie, fetch_config, link_expired, target_steps, LinkStep,
};
use omniget::platforms::quark::entry::QuarkEntry;
use omniget::platforms::quark::reply::{read_download_link, read_share_token, DirPages};
use omniget::platforms::quark::request::{
    download_body, download_url, headers, login_cookies, login_header, page_url, token_body,
    token_url, LOGIN_DOMAIN, QUARK_UA, REFERER,
};
use omniget::platforms::quark::walk::ShareWalk;
use omniget::platforms::Platform;
use omniget::platforms::quark::{
    item_url, media_type_for, QuarkDownloader, QuarkFile, QuarkPending,
};

fn text(s: &str) -> Json {
    Json::Text(s.to_string())
}

fn object(fields: Vec<(&str, Json)>) -> Json {
    Json::Object(fields.into_iter().map(|(k, v)| (k.to_string(), v)).collect())
}

fn file(name: &str, rel_path: &str, size: u64) -> QuarkFile {
    QuarkFile {
        fid: format!("fid-{}", name),
        share_fid_token: "ft".to_string(),
        pwd_id: "pid".to_string(),
        stoken: "tok".to_string(),
        name: name.to_string(),
        rel_path: rel_path.to_string(),
        size,
    }
}

fn listed_file(name: &str, size: u64) -> Json {
    object(vec![
        ("fid", text(&format!("fid-{}", name))),
        ("file_name", text(name)),
        ("size", Json::Whole(size)),
        ("share_fid_token", text("ft")),
        ("dir", Json::Bool(false)),
    ])
}

fn listed_folder(name: &str) -> Json {
    object(vec![
        ("fid", text(&format!("fid-{}", name))),
        ("file_name", text(name)),
        ("dir", Json::Bool(true)),
    ])
}

fn page(items: Vec<Json>, total: Option<u64>) -> Json {
    let mut fields = vec![
        ("code", Json::Whole(0)),
        ("data", object(vec![("list", Json::List(items))])),
    ];
    if let Some(n) = total {
        fields.push(("metadata", object(vec![("_total", Json::Whole(n))])));
    }
    object(fields)
}

fn entries(items: Vec<Json>) -> Vec<QuarkEntry> {
    items.iter().map(QuarkEntry::from_json).collect()
}

#[test]
fn pwd_id_parses_share_url() {
    assert_eq!(
        QuarkDownloader::pwd_id_from_url("https://pan.quark.cn/s/3444308e99b7#/list/share")
            .as_deref(),
        Some("3444308e99b7")
    );
    assert_eq!(
        QuarkDownloader::pwd_id_from_url("https://pan.quark.cn/share/abc123").as_deref(),
        Some("abc123")
    );
    assert_eq!(
        QuarkDownloader::pwd_id_from_url("https://pan.quark.cn/list").as_deref(),
        None
    );
}

#[test]
fn start_fid_from_fragment() {
    // deep link → sub-folder fid
    assert_eq!(
        QuarkDownloader::start_fid_from_url(
            "https://pan.quark.cn/s/6959f1e185ac#/list/share/e4bba9a2039c4372aae534b2f053d965"
        ),
        "e4bba9a2039c4372aae534b2f053d965"
    );
    // no fragment → share root
    assert_eq!(
        QuarkDownloader::start_fid_from_url("https://pan.quark.cn/s/6959f1e185ac"),
        "0"
    );
    // non-fid fragment → share root
    assert_eq!(
        QuarkDownloader::start_fid_from_url("https://pan.quark.cn/s/6959f1e185ac#/list/all"),
        "0"
    );
}

#[test]
fn resolves_pending_id() {
    assert_eq!(
        QuarkDownloader::resolve_pending_id("quark://download/abc-123").as_deref(),
        Some("abc-123")
    );
    assert_eq!(QuarkDownloader::resolve_pending_id("https://x.com"), None);
}

#[test]
fn media_type_by_ext() {
    assert_eq!(media_type_for("a.mp4"), MediaType::Video);
    assert_eq!(media_type_for("a.png"), MediaType::Photo);
    assert_eq!(media_type_for("a.mp3"), MediaType::Audio);
}

#[test]
fn share_links_at_the_edges() {
    assert_eq!(QuarkDownloader::pwd_id_from_url("https://pan.quark.cn/s"), None);
    assert_eq!(QuarkDownloader::pwd_id_from_url("https://pan.quark.cn/s/").as_deref(), Some(""));
    assert_eq!(QuarkDownloader::pwd_id_from_url("https://pan.quark.cn//s/1"), None);
    assert_eq!(QuarkDownloader::pwd_id_from_url("mailto:s/1"), None);
    assert_eq!(QuarkDownloader::pwd_id_from_url("no link"), None);
    assert_eq!(
        QuarkDownloader::start_fid_from_url(
            "https://pan.quark.cn/s/1#/list/E4BBA9A2039C4372AAE534B2F053D965//"
        ),
        "E4BBA9A2039C4372AAE534B2F053D965"
    );
    assert_eq!(
        QuarkDownloader::start_fid_from_url(
            "https://pan.quark.cn/s/1#/e4bba9a2039c4372aae534b2f053d96z"
        ),
        "0"
    );
    assert_eq!(QuarkDownloader::start_fid_from_url("no link"), "0");
}

#[test]
fn media_types_at_the_edges() {
    assert_eq!(media_type_for("A.FLAC"), MediaType::Audio);
    assert_eq!(media_type_for("a.tar.HEIC"), MediaType::Photo);
    assert_eq!(media_type_for("mp3"), MediaType::Audio);
    assert_eq!(media_type_for("a.zip"), MediaType::Video);
    assert_eq!(media_type_for(""), MediaType::Video);
}

#[test]
fn waiting_files_are_found_by_their_link() {
    let mut pending = QuarkPending::new();
    pending.insert("a".to_string(), file("one.mp3", "", 7));
    pending.insert("b".to_string(), file("two.png", "x", 0));
    pending.insert("a".to_string(), file("three.mp4", "", 9));
    let d = QuarkDownloader::new(pending);
    assert_eq!(d.name(), "quark");
    assert!(d.can_handle("quark://download/a") && !d.can_handle("https://pan.quark.cn/s/1"));
    assert!(d.pending().get("c").is_none());

    let info = d.get_media_info(&item_url("a")).unwrap();
    assert_eq!(info.title, "three.mp4");
    assert_eq!((info.author.as_str(), info.platform.as_str()), ("Quark", "quark"));
    assert_eq!(info.media_type, MediaType::Video);
    assert_eq!(info.file_size_bytes, Some(9));
    assert!(info.thumbnail_url.is_none() && info.available_qualities.is_empty());

    let info = d.get_media_info("quark://download/b").unwrap();
    assert_eq!((info.media_type, info.file_size_bytes), (MediaType::Photo, None));

    assert_eq!(
        d.get_media_info("quark://download/c").err(),
        Some("quark file not found (stale download?)".to_string())
    );
    assert_eq!(
        d.get_media_info("https://x.com").err(),
        Some("invalid quark url: https://x.com".to_string())
    );
}

#[test]
fn downloads_name_their_file() {
    let mut pending = QuarkPending::new();
    pending.insert("a".to_string(), file("one", "", 7));
    let d = QuarkDownloader::new(pending);
    assert_eq!(d.file_for(&Some(item_url("a"))).unwrap().name, "one");
    assert_eq!(d.file_for(&None).err(), Some("quark download missing page_url".to_string()));
    assert!(d.file_for(&Some("quark://download/z".to_string())).is_err());
    assert_eq!(captured_cookie(&None), None);
    let with = Some(vec![("Cookie".to_string(), "k=v".to_string())]);
    assert_eq!(captured_cookie(&with), Some("k=v".to_string()));
    let without = Some(vec![("cookie".to_string(), "k=v".to_string())]);
    assert_eq!(captured_cookie(&without), None);
}

#[test]
fn entries_are_read() {
    let e = QuarkEntry::from_json(&listed_file("a.mp4", 12));
    assert_eq!((e.fid.as_str(), e.name.as_str(), e.size, e.is_dir), ("fid-a.mp4", "a.mp4", 12, false));
    assert_eq!(e.share_fid_token, "ft");
    assert!(QuarkEntry::from_json(&listed_folder("d")).is_dir);
    let e = QuarkEntry::from_json(&object(vec![("file", Json::Bool(false))]));
    assert!(e.is_dir);
    assert_eq!((e.fid.as_str(), e.name.as_str(), e.size), ("", "unnamed", 0));
    let e = QuarkEntry::from_json(&object(vec![("dir", text("yes")), ("file", Json::Bool(true))]));
    assert!(!e.is_dir);
    assert!(!QuarkEntry::from_json(&Json::Null).is_dir);
    let e = QuarkEntry::from_json(&object(vec![("size", Json::Negative(-4))]));
    assert_eq!(e.size, 0);
}

#[test]
fn token_of_a_share() {
    let data = |fields| object(vec![("code", Json::Whole(0)), ("data", object(fields))]);
    assert_eq!(
        read_share_token(&data(vec![("stoken", text("t")), ("title", text("Films"))])),
        Ok(("t".to_string(), "Films".to_string()))
    );
    assert_eq!(
        read_share_token(&data(vec![("stoken", text("t"))])),
        Ok(("t".to_string(), "Quark Share".to_string()))
    );
    assert_eq!(
        read_share_token(&data(vec![("title", text("x"))])),
        Err("no stoken in response".to_string())
    );
    assert_eq!(
        read_share_token(&object(vec![("code", Json::Whole(41012))])),
        Err("Quark token failed (code 41012)".to_string())
    );
    assert_eq!(
        read_share_token(&object(vec![("code", Json::Negative(-7))])),
        Err("Quark token failed (code -7)".to_string())
    );
    assert_eq!(read_share_token(&Json::Null), Err("Quark token failed (code -1)".to_string()));
}

#[test]
fn download_link_of_a_file() {
    let answer = |code: u64, list: Vec<Json>| {
        object(vec![("code", Json::Whole(code)), ("data", Json::List(list))])
    };
    let found = object(vec![("download_url", text("https://dl"))]);
    assert_eq!(read_download_link(&answer(0, vec![found])), Ok("https://dl".to_string()));
    assert_eq!(
        read_download_link(&answer(0, Vec::new())),
        Err("no download_url in response".to_string())
    );
    assert_eq!(
        read_download_link(&answer(31001, Vec::new())),
        Err("Not logged in to Quark (cookie expired)".to_string())
    );
    assert_eq!(
        read_download_link(&answer(23018, Vec::new())),
        Err("Quark guest size limit — login required".to_string())
    );
    assert_eq!(
        read_download_link(&answer(5, Vec::new())),
        Err("Quark download link failed (code 5)".to_string())
    );
}

#[test]
fn every_page_of_a_folder_is_read() {
    let mut pages = DirPages::start();
    assert_eq!(pages.page, 1);
    let more = pages.on_page(&page(vec![listed_file("a", 1), listed_file("b", 1)], Some(3)));
    assert_eq!((more, pages.page), (Ok(true), 2));
    let more = pages.on_page(&page(vec![listed_file("c", 1)], Some(3)));
    assert_eq!((more, pages.page), (Ok(false), 2));
    let names: Vec<&str> = pages.entries.iter().map(|e| e.name.as_str()).collect();
    assert_eq!(names, vec!["a", "b", "c"]);
}

#[test]
fn a_listing_ends_on_an_empty_page_or_without_a_total() {
    let mut pages = DirPages::start();
    assert_eq!(pages.on_page(&page(Vec::new(), Some(9))), Ok(false));
    assert_eq!(pages.on_page(&page(vec![listed_file("a", 1)], None)), Ok(false));
    assert_eq!(pages.entries.len(), 1);
    assert_eq!(pages.on_page(&object(vec![("code", Json::Whole(0))])), Ok(false));
    assert_eq!(
        pages.on_page(&object(vec![("code", Json::Whole(7))])),
        Err("Quark list failed (code 7)".to_string())
    );
    assert_eq!((pages.entries.len(), pages.page), (1, 1));
}

#[test]
fn walk_finds_every_file_once() {
    // start: x.mp4, A/, B/; A: a.mp4, A/C/; C: c.mp4; B: b.mp4
    let folder_of = |fid: &str| match fid {
        "0" => vec![listed_file("x.mp4", 1), listed_folder("A"), listed_folder("B")],
        "fid-A" => vec![listed_file("a.mp4", 2), listed_folder("C")],
        "fid-B" => vec![listed_file("b.mp4", 4)],
        "fid-C" => vec![listed_file("c.mp4", 8)],
        _ => Vec::new(),
    };
    let mut walk = ShareWalk::start("pid", "tok", "0");
    while let Some(folder) = walk.next_folder() {
        walk.on_entries(&folder, &entries(folder_of(&folder.fid)));
    }
    assert_eq!((walk.progress().files, walk.progress().folders), (4, 3));
    assert_eq!(walk.total_bytes(), Some(15));
    let listing = walk.finish("Films".to_string());
    let seen: Vec<(&str, &str)> =
        listing.files.iter().map(|f| (f.rel_path.as_str(), f.name.as_str())).collect();
    assert_eq!(seen, vec![("", "x.mp4"), ("B", "b.mp4"), ("A", "a.mp4"), ("A/C", "c.mp4")]);
    assert_eq!((listing.total_files, listing.total_bytes), (4, 15));
    assert_eq!(listing.title, "Films");
    assert!(listing.files.iter().all(|f| f.pwd_id == "pid" && f.stoken == "tok"));
}

#[test]
fn walk_stops_at_the_depth_limit() {
    let mut walk = ShareWalk::start("p", "t", "0");
    let mut listed = 0;
    while let Some(folder) = walk.next_folder() {
        listed += 1;
        walk.on_entries(&folder, &entries(vec![listed_folder("d"), listed_file("f", 1)]));
    }
    // The start at depth 0 down to depth 30.
    assert_eq!(listed, 31);
    assert_eq!((walk.progress().files, walk.progress().folders), (31, 31));
}

#[test]
fn too_many_bytes_are_told() {
    let mut walk = ShareWalk::start("p", "t", "0");
    let folder = walk.next_folder().unwrap();
    walk.on_entries(&folder, &entries(vec![listed_file("a", u64::MAX), listed_file("b", 1)]));
    assert_eq!(walk.total_bytes(), None);
}

#[test]
fn requests_to_the_interface() {
    assert_eq!(
        token_url(),
        "https://drive-pc.quark.cn/1/clouddrive/share/sharepage/token?pr=ucpro&fr=pc"
    );
    assert_eq!(
        download_url(),
        "https://drive-pc.quark.cn/1/clouddrive/file/download?entry=ft&fr=pc&pr=ucpro"
    );
    assert_eq!(
        page_url("pid", "a b/+é~", "0", 12),
        "https://drive-pc.quark.cn/1/clouddrive/share/sharepage/detail?pr=ucpro&fr=pc&pwd_id=pid\
         &stoken=a%20b%2F%2B%C3%A9~&pdir_fid=0&force=0&_page=12&_size=50&_fetch_banner=0\
         &_fetch_share=0&_fetch_total=1&_sort=file_type:asc,updated_at:desc"
    );
    let body = token_body("pid");
    assert_eq!(body.get("pwd_id").and_then(|v| v.as_str()), Some("pid"));
    assert_eq!(body.get("passcode").and_then(|v| v.as_str()), Some(""));
    let body = download_body(&file("n", "", 3));
    assert_eq!(body.pointer(&["fids", "0"]).and_then(|v| v.as_str()), Some("fid-n"));
    assert_eq!(body.pointer(&["fids_token", "0"]).and_then(|v| v.as_str()), Some("ft"));
    assert_eq!(body.get("pwd_id").and_then(|v| v.as_str()), Some("pid"));
    assert_eq!(body.get("stoken").and_then(|v| v.as_str()), Some("tok"));
}

#[test]
fn headers_carry_the_cookie_where_they_can() {
    let pair = |k: &str, v: &str| (k.to_string(), v.to_string());
    let always = vec![pair("user-agent", QUARK_UA), pair("referer", REFERER)];
    let mut with = always.clone();
    with.push(pair("cookie", "__pus=1; __puus=é\t"));
    assert_eq!(headers("__pus=1; __puus=é\t"), with);
    assert_eq!(headers("a\nb"), always);
    assert_eq!(headers("a\u{7f}"), always);
}

#[test]
fn login_comes_from_a_browser() {
    let pair = |k: &str, v: &str| (k.to_string(), v.to_string());
    assert_eq!((LOGIN_DOMAIN, login_cookies()), ("quark.cn", ["__pus", "__puus"]));
    let jar = vec![pair("__pus", "1"), pair("grey-id", "\u{3c6}"), pair("__puus", "2")];
    let header = login_header(&vec![BrowserRead::Jar(jar)]).unwrap();
    assert_eq!(header, "__pus=1; __puus=2");
    assert_eq!(headers(&header).last(), Some(&pair("cookie", "__pus=1; __puus=2")));
    assert_eq!(
        login_header(&vec![BrowserRead::Jar(vec![pair("__pus", "1")])]),
        Err("Not logged in to quark.cn in any browser — please log in first".to_string())
    );
}

#[test]
fn listed_sizes_are_enough() {
    let large = fetch_config(&file("n", "", 5 * 1024 * 1024));
    let probe = known_probe(&large).unwrap();
    assert_eq!(choose_mode(&probe, &large), FetchMode::Chunked { total: 5 * 1024 * 1024 });
    let small = fetch_config(&file("n", "", 5 * 1024 * 1024 - 1));
    let probe = known_probe(&small).unwrap();
    assert_eq!(choose_mode(&probe, &small), FetchMode::Streaming);
}

#[test]
fn settings_of_a_download() {
    let cfg = fetch_config(&file("n", "", 3));
    assert_eq!(cfg.known_total_bytes, Some(3));
    assert_eq!((cfg.concurrent_segments, cfg.min_size_for_chunked), (16, 5 * 1024 * 1024));
    assert_eq!(cfg.segment_size_hint, HttpFetcherConfig::default().segment_size_hint);
    assert_eq!(fetch_config(&file("n", "", 0)).known_total_bytes, None);
}

#[test]
fn targets_stay_below_the_output_directory() {
    assert_eq!(
        target_steps(&file("a:b.mp4", "x/../y//z?", 1), false),
        vec!["x", "", "y", "z", "ab.mp4"]
    );
    assert_eq!(target_steps(&file("..", "", 1), false), vec![""]);
    assert_eq!(target_steps(&file("con.txt", "a. ", 1), true), vec!["a", ""]);
    assert_eq!(target_steps(&file("con.txt", "a. ", 1), false), vec!["a. ", "con.txt"]);
}

#[test]
fn expired_links_are_resolved_again_once() {
    let refused = check_response(403, "403 Forbidden", None).unwrap_err();
    assert!(matches!(after_attempt(false, Err(refused.clone())), LinkStep::ResolveAgain));
    match after_attempt(true, Err(refused)) {
        LinkStep::Fail(e) => assert_eq!(e, "HTTP 403 Forbidden"),
        other => panic!("{:?}", other),
    }
    assert!(link_expired("HTTP 412 Precondition Failed") && link_expired("link expired"));
    assert!(!link_expired("HTTP 500"));
    assert!(matches!(after_attempt(false, Ok(9)), LinkStep::Done { bytes: 9 }));
    assert!(matches!(after_attempt(false, Err("reset".to_string())), LinkStep::Fail(_)));
}

#[test]
fn batches_are_admitted() {
    let files = vec![file("a", "", 1)];
    let long = Some(PathExcess { limit: 260, current: 300, reserve: 40 });
    assert_eq!(
        admit_files(&Vec::new(), &long, Some("x"), false),
        Err("No files to download".to_string())
    );
    assert_eq!(
        admit_files(&files, &long, Some("x"), false),
        Err("PathTooLong|260|300|40".to_string())
    );
    assert_eq!(
        admit_files(&files, &None, Some("x"), false),
        Err("QuarkCookie|x".to_string())
    );
    assert_eq!(
        admit_files(&files, &None, None, false),
        Err("Quark downloader not registered".to_string())
    );
    assert_eq!(admit_files(&files, &None, None, true), Ok(()));
    assert_eq!(cookie_failure("no"), "QuarkCookie|no");
    assert_eq!(list_failure("no"), "QuarkList|no");
}

#[test]
fn queued_files_are_found_again() {
    let mut ids = DownloadIds::new();
    let mut d = QuarkDownloader::new(QuarkPending::new());
    let one = enqueue_file(&mut ids, &mut d, &file("one.mp3", "A", 5), "/out", "k=v");
    let two = enqueue_file(&mut ids, &mut d, &file("two.mp4", "", 0), "/out", "k=v");
    assert!(one.id < two.id);
    assert_ne!(one.url, two.url);
    assert_eq!(one.page_url.as_deref(), Some(one.url.as_str()));
    assert_eq!(d.get_media_info(&one.url).unwrap().title, "one.mp3");
    assert_eq!(d.get_media_info(&two.url).unwrap().title, "two.mp4");
    assert_eq!(d.file_for(&two.page_url).unwrap().name, "two.mp4");

    assert_eq!((one.platform.as_str(), one.title.as_str()), ("quark", "one.mp3"));
    assert_eq!(one.output_dir, "/out");
    assert_eq!(one.referer.as_deref(), Some("https://pan.quark.cn/"));
    assert_eq!(one.user_agent.as_deref(), Some(QUARK_UA));
    assert_eq!((one.total_bytes, two.total_bytes), (Some(5), None));
    assert_eq!(captured_cookie(&one.extra_headers), Some("k=v".to_string()));

    assert_eq!(Platform::from_url(&one.url), Some(Platform::Other("quark".to_string())));
    assert!(d.can_handle(&one.url));

    let uuid = QuarkDownloader::resolve_pending_id(&one.url).unwrap();
    let chars: Vec<char> = uuid.chars().collect();
    assert_eq!(chars.len(), 36);
    for (i, c) in chars.iter().enumerate() {
        if i == 8 || i == 13 || i == 18 || i == 23 {
            assert_eq!(*c, '-');
        } else {
            assert!(matches!(c, '0'..='9' | 'a'..='f'));
        }
    }
    assert_eq!(chars[14], '4');
    assert!(matches!(chars[19], '8' | '9' | 'a' | 'b'));
}

#[test]
fn several_files_are_queued_in_order() {
    let mut ids = DownloadIds::new();
    let mut d = QuarkDownloader::new(QuarkPending::new());
    let kept = enqueue_file(&mut ids, &mut d, &file("kept.mp3", "", 1), "/out", "k=v");
    let files = vec![file("one.mp3", "A", 5), file("two.mp4", "", 0), file("one.mp3", "B", 7)];
    let requests = enqueue_files(&mut ids, &mut d, &files, "/out", "c=d");
    assert_eq!(requests.len(), 3);
    assert_eq!(ids.last, requests[2].id);
    let mut last = kept.id;
    for (r, f) in requests.iter().zip(&files) {
        assert!(r.id > last);
        last = r.id;
        assert_eq!((r.platform.as_str(), r.title.as_str()), ("quark", f.name.as_str()));
        assert_eq!((r.output_dir.as_str(), r.page_url.as_deref()), ("/out", Some(r.url.as_str())));
        assert_eq!(captured_cookie(&r.extra_headers), Some("c=d".to_string()));
        assert_eq!(d.file_for(&r.page_url).unwrap().rel_path, f.rel_path);
    }
    assert_eq!(
        requests.iter().map(|r| r.total_bytes).collect::<Vec<_>>(),
        [Some(5), None, Some(7)]
    );
    assert_eq!(d.get_media_info(&kept.url).unwrap().title, "kept.mp3");
    assert!(enqueue_files(&mut ids, &mut d, &Vec::new(), "/out", "").is_empty());
    assert_eq!(ids.last, last);
}

#[test]
fn files_are_left_out_where_numbers_are_used_up() {
    let files = vec![file("one.mp3", "", 5), file("two.mp4", "", 0)];
    let mut d = QuarkDownloader::new(QuarkPending::new());
    let mut ids = DownloadIds { last: u64::MAX - 1 };
    let requests = enqueue_files(&mut ids, &mut d, &files, "/out", "");
    assert_eq!((requests.len(), requests[0].id, ids.last), (1, u64::MAX, u64::MAX));
    assert_eq!(requests[0].title, "one.mp3");
    assert!(enqueue_files(&mut ids, &mut d, &files, "/out", "").is_empty());
}

#[test]
fn request_for_a_file() {
    let r = request_for_file(7, "u", &file("n", "", 3), "/o", "c");
    assert_eq!((r.id, r.url.as_str()), (7, "quark://download/u"));
    assert!(r.download_mode.is_none() && r.quality.is_none() && r.format_id.is_none());
    assert!(r.cookie_slug.is_none() && r.custom_args.is_none());
}
