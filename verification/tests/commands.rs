//! Commands of the user interface.
use omniget::commands::admission::{
    admit_custom_download, admit_download, concurrency, request_for_url, request_with_custom_args,
    started, too_long_text, validate_output_path, DownloadChoices, PathExcess, PathLimitInfo,
    PathRules,
};
use omniget::commands::batch::parse_batch_file;
use omniget::commands::ids::{next_download_id, DownloadIds};
use omniget::commands::queue::{
    cancel_generic_download, find_torrent, finished_ids, ids_to_start, pause_download,
    plan_for_all, remove_download, restored_count, resume_download, retry_download,
    update_max_concurrent, wait_before_start, ItemStatus, QueueItem,
};
use omniget::commands::start::{
    download_from_url, download_with_custom_args, StartAction, StartEvent, StartStage,
};
use omniget::commands::show::{
    dir_uri, invocation, item_uri, link_or_path, next_stage, quoted_list_of, select_argument,
    ShowStage,
};

fn item(id: u64, status: ItemStatus, torrent_id: Option<usize>) -> QueueItem {
    QueueItem { id, status, torrent_id }
}

fn no_choices() -> DownloadChoices {
    DownloadChoices {
        download_mode: None,
        quality: None,
        format_id: None,
        referer: None,
        cookie_slug: None,
    }
}

#[test]
fn ids_rise_whatever_the_clock_says() {
    let mut ids = DownloadIds::new();
    let given: Vec<u64> = [100, 100, 90, 101, 200].into_iter().map(|t| ids.next_at(t)).collect();
    assert_eq!(given, vec![100, 101, 102, 103, 200]);
}

#[test]
fn ids_by_the_clock() {
    let mut ids = DownloadIds::new();
    let mut last = 0;
    for _ in 0..1000 {
        let id = next_download_id(&mut ids);
        assert!(id > last);
        last = id;
    }
    assert!(last > 1_600_000_000_000);
    let mut far = DownloadIds { last: u64::MAX - 1 };
    assert_eq!(next_download_id(&mut far), u64::MAX);
}

#[test]
fn output_paths() {
    let rules = PathRules { max_path_len: 260, separator_reserve: 1, min_filename_reserve: 80 };
    assert_eq!(
        validate_output_path("/é", &None, &rules),
        PathLimitInfo { limit: 260, current: 3, reserve: 80, ok: true }
    );
    let excess = PathExcess { limit: 260, current: 300, reserve: 80 };
    assert_eq!(
        validate_output_path("/x", &Some(excess), &rules),
        PathLimitInfo { limit: 260, current: 300, reserve: 80, ok: false }
    );
    assert_eq!(too_long_text(&excess), "PathTooLong|260|300|80");
}

#[test]
fn downloads_are_admitted() {
    let excess = Some(PathExcess { limit: 1, current: 2, reserve: 3 });
    assert_eq!(admit_download(&excess, true, false), Err("PathTooLong|1|2|3".to_string()));
    assert_eq!(
        admit_download(&None, true, false),
        Err("Download already in progress for this URL".to_string())
    );
    assert_eq!(
        admit_download(&None, false, false),
        Err("No downloader available for this URL".to_string())
    );
    assert_eq!(admit_download(&None, false, true), Ok(()));
    assert_eq!(
        admit_custom_download(" \u{3000}\n", &excess, true),
        Err("URL is required".to_string())
    );
    assert_eq!(admit_custom_download("u", &excess, true), Err("PathTooLong|1|2|3".to_string()));
    assert_eq!(
        admit_custom_download("u", &None, true),
        Err("Download already in progress for this URL".to_string())
    );
    assert_eq!(admit_custom_download("u", &None, false), Ok(()));
    assert_eq!((concurrency(0), concurrency(5)), (1, 5));
}

#[test]
fn request_for_a_link() {
    let choices = DownloadChoices {
        download_mode: Some("audio".to_string()),
        quality: Some("720p".to_string()),
        format_id: Some("22".to_string()),
        referer: Some("r".to_string()),
        cookie_slug: Some("main".to_string()),
    };
    let url = "https://vimeo.com/1".to_string();
    let r = request_for_url(9, url.clone(), "/out".to_string(), choices);
    assert_eq!((r.id, r.url.as_str(), r.title.as_str()), (9, "https://vimeo.com/1", "https://vimeo.com/1"));
    assert_eq!((r.platform.as_str(), r.output_dir.as_str()), ("vimeo", "/out"));
    assert_eq!(r.download_mode.as_deref(), Some("audio"));
    assert_eq!(r.quality.as_deref(), Some("720p"));
    assert_eq!(r.format_id.as_deref(), Some("22"));
    assert_eq!(r.referer.as_deref(), Some("r"));
    assert_eq!(r.cookie_slug.as_deref(), Some("main"));
    assert!(r.extra_headers.is_none() && r.page_url.is_none() && r.user_agent.is_none());
    assert!(r.total_bytes.is_none() && r.custom_args.is_none());
    let told = started(&r);
    assert_eq!((told.id, told.title), (9, url));
    let r = request_for_url(1, "https://example.com".to_string(), "/".to_string(), no_choices());
    assert_eq!(r.platform, "generic");
}

#[test]
fn request_with_own_arguments() {
    let args = vec!["-f".to_string(), "best".to_string()];
    let url = "https://vimeo.com/1".to_string();
    let r = request_with_custom_args(3, url, "/o".to_string(), args.clone(), Some("c".to_string()));
    assert_eq!((r.platform.as_str(), r.title.as_str()), ("generic", "https://vimeo.com/1"));
    assert_eq!(r.custom_args, Some(args));
    assert_eq!(r.cookie_slug.as_deref(), Some("c"));
    assert!(r.quality.is_none() && r.referer.is_none());
}

#[test]
fn start_of_a_download() {
    let mut ids = DownloadIds::new();
    let url = "https://vimeo.com/1".to_string();
    let begin = |ids: &mut DownloadIds| {
        download_from_url(ids, &None, url.clone(), "/o".to_string(), no_choices()).unwrap()
    };
    let mut flow = begin(&mut ids);
    let id = flow.request.id;
    assert_eq!(ids.last, id);
    assert_eq!(flow.request.platform, "vimeo");
    assert!(matches!(
        flow.step(StartEvent::Queue { has_url: false }),
        StartAction::FindDownloader
    ));
    assert!(matches!(flow.step(StartEvent::Downloader { found: true }), StartAction::Enqueue));
    match flow.step(StartEvent::Enqueued { next: vec![7, id] }) {
        StartAction::Activate(active) => assert_eq!(active, vec![7, id]),
        other => panic!("{:?}", other),
    }
    let items = vec![item(7, ItemStatus::Active, None), item(id, ItemStatus::Active, None)];
    match flow.step(StartEvent::Activated { items }) {
        StartAction::Start(start) => assert_eq!(start, vec![id]),
        other => panic!("{:?}", other),
    }
    assert_eq!(flow.stage, StartStage::Started);

    let mut flow = begin(&mut ids);
    match flow.step(StartEvent::Queue { has_url: true }) {
        StartAction::Refuse(e) => assert_eq!(e, "Download already in progress for this URL"),
        other => panic!("{:?}", other),
    }
    assert_eq!(flow.stage, StartStage::Refused);
    let mut flow = begin(&mut ids);
    flow.step(StartEvent::Queue { has_url: false });
    match flow.step(StartEvent::Downloader { found: false }) {
        StartAction::Refuse(e) => assert_eq!(e, "No downloader available for this URL"),
        other => panic!("{:?}", other),
    }

    let before = ids.last;
    let long = Some(PathExcess { limit: 1, current: 2, reserve: 3 });
    let refused = download_from_url(&mut ids, &long, url, "/o".to_string(), no_choices());
    assert_eq!(refused.err(), Some("PathTooLong|1|2|3".to_string()));
    assert_eq!(ids.last, before);
}

#[test]
fn start_with_own_arguments() {
    let mut ids = DownloadIds::new();
    let args = vec!["-x".to_string()];
    let refused = download_with_custom_args(
        &mut ids,
        &None,
        "  ".to_string(),
        "/o".to_string(),
        args.clone(),
        None,
    );
    assert_eq!(refused.err(), Some("URL is required".to_string()));
    assert_eq!(ids.last, 0);
    let mut flow = download_with_custom_args(
        &mut ids,
        &None,
        "https://vimeo.com/1".to_string(),
        "/o".to_string(),
        args.clone(),
        None,
    )
    .unwrap();
    assert_eq!((flow.request.platform.as_str(), flow.request.custom_args.clone()), ("generic", Some(args)));
    assert!(matches!(flow.step(StartEvent::Queue { has_url: false }), StartAction::Enqueue));
}

#[test]
fn commands_tell_how_they_ended() {
    let items = vec![item(1, ItemStatus::Active, None), item(2, ItemStatus::Other, Some(7))];
    assert_eq!(find_torrent(&items, 2), Some(7));
    assert_eq!(find_torrent(&items, 3), None);

    let p = cancel_generic_download(true, Some(4));
    assert_eq!((p.torrent, p.changed, p.reply), (Some(4), true, Ok("Download cancelled".to_string())));
    let p = cancel_generic_download(false, Some(4));
    assert_eq!(
        (p.torrent, p.changed, p.reply),
        (None, false, Err("No active download for this ID".to_string()))
    );
    let p = pause_download(true, &items, 2);
    assert_eq!((p.torrent, p.changed, p.reply), (Some(7), true, Ok("Download paused".to_string())));
    let p = pause_download(false, &items, 2);
    assert_eq!((p.torrent, p.reply), (None, Err("Download cannot be paused".to_string())));
    let p = resume_download(true, &items, 1);
    assert_eq!((p.torrent, p.changed, p.reply), (None, true, Ok("Download resumed".to_string())));
    let p = resume_download(false, &items, 1);
    assert_eq!(p.reply, Err("Download cannot be resumed".to_string()));
    assert_eq!(retry_download(true).reply, Ok("Download re-queued".to_string()));
    assert_eq!(retry_download(false).reply, Err("Download cannot be retried".to_string()));
    let p = remove_download(Some(Some(3)));
    assert_eq!((p.torrent, p.changed, p.reply), (Some(3), true, Ok("Download removed".to_string())));
    assert_eq!(remove_download(Some(None)).torrent, None);
    let p = remove_download(None);
    assert_eq!((p.changed, p.reply), (false, Err("Download not found".to_string())));
}

#[test]
fn commands_on_every_item() {
    let plan = plan_for_all(&vec![(1, None), (2, Some(9)), (3, Some(4))]);
    assert_eq!((plan.count, plan.torrents), (3, vec![9, 4]));
    let items = vec![
        item(1, ItemStatus::Active, None),
        item(2, ItemStatus::Complete, None),
        item(3, ItemStatus::Error, None),
        item(4, ItemStatus::Active, None),
        item(5, ItemStatus::Other, None),
    ];
    assert_eq!(ids_to_start(&items, None), vec![1, 4]);
    assert_eq!(ids_to_start(&items, Some(4)), vec![4]);
    assert!(ids_to_start(&items, Some(5)).is_empty());
    assert_eq!(finished_ids(&items), vec![2, 3]);
    assert_eq!(wait_before_start(0, 500), None);
    assert_eq!(wait_before_start(1, 0), None);
    assert_eq!(wait_before_start(1, 500), Some(500));
    assert_eq!(restored_count(&vec![true, false, true]), 2);
}

#[test]
fn concurrency_is_limited() {
    assert_eq!(update_max_concurrent(1), Ok("Max concurrent set to 1".to_string()));
    assert_eq!(update_max_concurrent(10), Ok("Max concurrent set to 10".to_string()));
    for bad in [0, 11] {
        assert_eq!(update_max_concurrent(bad), Err("Value must be between 1 and 10".to_string()));
    }
}

#[test]
fn batch_files_yield_links_only() {
    let content = "# comment\r\n\n  https://a.example/1 | title | x\r\nnot a link\nmagnet:?xt=1\n\
                   p2p:one-two\n http://b.example\n#https://c.example\n|https://d.example\nhttps://e";
    assert_eq!(
        parse_batch_file(content),
        vec!["https://a.example/1", "magnet:?xt=1", "p2p:one-two", "http://b.example", "https://e"]
    );
    assert!(parse_batch_file("").is_empty());
}

#[test]
fn files_are_shown_one_way_after_the_other() {
    let mut stage = ShowStage::Gdbus;
    let mut programs = Vec::new();
    while let Some(run) = invocation(stage, "file:///a\"b\\c", "file:///", "/") {
        programs.push((run.program, run.args.len()));
        stage = next_stage(stage, false);
    }
    let seen: Vec<(&str, usize)> = programs.iter().map(|(p, n)| (p.as_str(), *n)).collect();
    assert_eq!(seen, vec![("gdbus", 10), ("dbus-send", 7), ("gdbus", 11), ("xdg-open", 1)]);
    assert_eq!(next_stage(ShowStage::Gdbus, true), ShowStage::Done);

    let run = invocation(ShowStage::Gdbus, "file:///a\"b\\c", "file:///", "/").unwrap();
    assert_eq!(run.args[7], "org.freedesktop.FileManager1.ShowItems");
    assert_eq!(run.args[8], "[\"file:///a\\\"b\\\\c\"]");
    let run = invocation(ShowStage::DbusSend, "file:///a", "file:///", "/").unwrap();
    assert_eq!(run.args[5], "array:string:file:///a");
    let run = invocation(ShowStage::Portal, "file:///a", "file:///d/", "/d").unwrap();
    assert_eq!(run.args[9], "file:///d/");
    let run = invocation(ShowStage::OpenFolder, "file:///a", "file:///d/", "/d").unwrap();
    assert_eq!(run.args, vec!["/d"]);
}

#[test]
fn quoting_reads_back() {
    for s in ["plain", "\"", "\\", "a\\\"b", "\\\\\"\""] {
        let quoted = quoted_list_of(s);
        let inner: Vec<char> = quoted[2..quoted.len() - 2].chars().collect();
        let mut read = String::new();
        let mut i = 0;
        while i < inner.len() {
            if inner[i] == '\\' {
                i += 1;
            } else {
                assert_ne!(inner[i], '"');
            }
            read.push(inner[i]);
            i += 1;
        }
        assert_eq!(read, s);
    }
    assert_eq!(select_argument("C:\\a"), "/select,\"C:\\a\"");
}

#[test]
fn links_to_files() {
    assert_eq!(item_uri("/tmp/a b.mp4", "a b.mp4"), "file:///tmp/a%20b.mp4");
    assert_eq!(item_uri("x/y", "/tmp/z"), "file:///tmp/z");
    assert_eq!(item_uri("/tmp/x", "/tmp/z"), "file:///tmp/x");
    assert_eq!(item_uri("/tmp//./a/../b/", "b"), "file:///tmp/a/../b");
    assert_eq!(item_uri("/", ""), "file:///");
    assert_eq!(
        item_uri("/\u{5f71}/100%#?{}<>`\"\t\u{7f}.mp4", "x"),
        "file:///%E5%BD%B1/100%25%23%3F%7B%7D%3C%3E%60%22%09%7F.mp4"
    );
    assert_eq!(item_uri("/!$&'()*+,-.:;=@[]^_|~", "x"), "file:///!$&'()*+,-.:;=@[]^_|~");
    assert_eq!(item_uri("x/y", "z"), "file://x/y");
    assert_eq!(dir_uri("/tmp/a b"), "file:///tmp/a%20b/");
    assert_eq!(dir_uri("/tmp/"), "file:///tmp/");
    assert_eq!(dir_uri("/"), "file:///");
    assert_eq!(dir_uri("tmp"), "file://tmp");
    assert_eq!(link_or_path(None, Some("s".to_string()), "p"), "s");
}
