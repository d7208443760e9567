//! Videos and series of Bilibili.
use omniget::json::Json;
use omniget::media::{MediaInfo, MediaType, VideoQuality};
use omniget::platforms::bilibili::{
    first_pictures, label_for, plan_download, playlist_info, quality_height, rank, referer_or_own,
    video_forms, video_info, BilibiliDownloader, DownloadPlan, EntryOutcome, PlaylistEntry,
    PlaylistRun, PlaylistStep,
};

fn text(s: &str) -> Json {
    Json::Text(s.to_string())
}

fn object(fields: Vec<(&str, Json)>) -> Json {
    Json::Object(fields.into_iter().map(|(k, v)| (k.to_string(), v)).collect())
}

fn format(width: u64, height: u64, codec: &str) -> Json {
    object(vec![
        ("width", Json::Whole(width)),
        ("height", Json::Whole(height)),
        ("vcodec", text(codec)),
    ])
}

fn quality(url: &str) -> VideoQuality {
    VideoQuality {
        label: "best".to_string(),
        width: 0,
        height: 0,
        url: url.to_string(),
        format: "mp4".to_string(),
    }
}

fn media(media_type: MediaType, urls: Vec<&str>) -> MediaInfo {
    MediaInfo {
        title: "t".to_string(),
        author: "a".to_string(),
        platform: "bilibili".to_string(),
        thumbnail_url: None,
        available_qualities: urls.into_iter().map(quality).collect(),
        media_type,
        file_size_bytes: None,
    }
}

#[test]
fn own_links() {
    let d = BilibiliDownloader::new();
    assert_eq!(d.name(), "bilibili");
    assert!(d.can_handle("https://www.bilibili.com/video/BV1"));
    assert!(d.can_handle("https://www.BILIBILI.tv/en"));
    assert!(d.can_handle("https://b23.tv/x"));
    assert!(!d.can_handle("https://a.b23.tv/x"));
    assert!(!d.can_handle("https://vimeo.com/1"));
    assert!(!d.can_handle("bilibili.com"));
    assert!(BilibiliDownloader::default().can_handle("https://bilibili.com"));
}

#[test]
fn series_and_lists() {
    for url in [
        "https://www.bilibili.com/bangumi/play/ss1",
        "https://www.bilibili.com/cheese/play/ss1",
        "https://space.bilibili.com/1/channel/seriesdetail",
        "https://space.bilibili.com/1/favlist/x",
        "https://www.bilibili.com/medialist/play/1",
    ] {
        assert!(BilibiliDownloader::is_playlist_or_series(url), "{}", url);
    }
    assert!(!BilibiliDownloader::is_playlist_or_series("https://www.bilibili.com/video/BV1"));
    assert!(!BilibiliDownloader::is_playlist_or_series("https://www.bilibili.com/x/bangumi/"));
    assert!(!BilibiliDownloader::is_playlist_or_series("/bangumi/"));
}

#[test]
fn extractor_flags() {
    assert_eq!(
        BilibiliDownloader::bilibili_info_flags(true),
        vec!["--referer", "https://www.bilibili.com", "--impersonate", "chrome"]
    );
    assert_eq!(
        BilibiliDownloader::bilibili_info_flags(false),
        vec!["--referer", "https://www.bilibili.com"]
    );
    assert_eq!(
        BilibiliDownloader::bilibili_download_flags(true),
        vec!["--no-playlist", "--format-sort", "vcodec:h264", "--impersonate", "chrome"]
    );
    assert!(BilibiliDownloader::impersonate_flags(false).is_empty());
}

#[test]
fn heights_have_names() {
    for (height, name) in [
        (2160, "4K"),
        (1440, "2K"),
        (1080, "1080p"),
        (720, "720p"),
        (480, "480p"),
        (360, "360p"),
        (144, "144p"),
    ] {
        assert_eq!(label_for(height), name);
    }
}

#[test]
fn each_height_is_offered_once_the_highest_first() {
    let formats = vec![
        format(640, 360, "avc1"),
        format(1920, 1080, "none"),
        format(1280, 720, "avc1"),
        format(1281, 720, "hev1"),
        format(0, 0, "avc1"),
        format(3840, 2160, "av01"),
        object(vec![("height", Json::Whole(480))]),
    ];
    assert_eq!(first_pictures(&formats), vec![(640, 360), (1280, 720), (3840, 2160)]);
    let forms = video_forms(&formats, "https://v");
    let seen: Vec<(&str, u32, u32)> =
        forms.iter().map(|q| (q.label.as_str(), q.width, q.height)).collect();
    assert_eq!(seen, vec![("4K", 3840, 2160), ("720p", 1280, 720), ("360p", 640, 360)]);
    assert!(forms.iter().all(|q| q.url == "https://v" && q.format == "mp4"));
}

#[test]
fn ranking_keeps_the_order_of_equal_heights() {
    let sizes = vec![(1, 5), (2, 9), (3, 5), (4, 7)];
    assert_eq!(rank(&sizes), vec![(2, 9), (4, 7), (1, 5), (3, 5)]);
}

#[test]
fn numbers_are_cut_to_32_bits() {
    let formats = vec![format((1 << 32) + 8, (1 << 32) + 6, "avc1"), format(1, 1 << 32, "avc1")];
    assert_eq!(first_pictures(&formats), vec![(8, 6)]);
}

#[test]
fn video_without_pictures() {
    let forms = video_forms(&vec![format(1, 0, "avc1")], "u");
    assert_eq!(forms.len(), 1);
    assert_eq!((forms[0].label.as_str(), forms[0].height), ("best", 0));
}

#[test]
fn video_is_described() {
    let video = object(vec![
        ("title", text("Film")),
        ("uploader", text("Someone")),
        ("thumbnail", text("https://pic")),
        ("formats", Json::List(vec![format(1920, 1080, "avc1")])),
    ]);
    let info = video_info(&video, "https://v");
    assert_eq!((info.title.as_str(), info.author.as_str()), ("Film", "Someone"));
    assert_eq!(info.platform, "bilibili");
    assert_eq!(info.thumbnail_url.as_deref(), Some("https://pic"));
    assert_eq!(info.media_type, MediaType::Video);
    assert_eq!(info.available_qualities[0].label, "1080p");
    assert_eq!(info.file_size_bytes, None);

    let info = video_info(&Json::Null, "https://v");
    assert_eq!((info.title.as_str(), info.author.as_str()), ("Bilibili Video", "Unknown"));
    assert_eq!(info.media_type, MediaType::Audio);
    assert!(info.thumbnail_url.is_none());
    assert_eq!(info.available_qualities[0].label, "best");

    let picture = object(vec![("formats", Json::List(vec![format(0, 0, "avc1")]))]);
    assert_eq!(video_info(&picture, "u").media_type, MediaType::Video);
}

#[test]
fn playlist_is_described() {
    let entry = |title: &str, url: &str| PlaylistEntry { title: title.to_string(), url: url.to_string() };
    let info = playlist_info("Series".to_string(), &vec![entry("a", "u1"), entry("b", "u2")]).unwrap();
    assert_eq!((info.title.as_str(), info.author.as_str()), ("Series", "Bilibili"));
    assert_eq!(info.media_type, MediaType::Playlist);
    assert_eq!(info.available_qualities[1].label, "2. b");
    assert_eq!(info.available_qualities[1].url, "u2");
    assert_eq!(
        playlist_info("Series".to_string(), &Vec::new()).err(),
        Some("Playlist empty or unavailable".to_string())
    );
}

#[test]
fn downloads_are_planned() {
    let wanted = Some("720p".to_string());
    match plan_download(&media(MediaType::Video, vec!["u", "w"]), &wanted) {
        Ok(DownloadPlan::Single { url, height }) => assert_eq!((url.as_str(), height), ("u", Some(720))),
        other => panic!("{:?}", other),
    }
    assert!(matches!(
        plan_download(&media(MediaType::Playlist, vec!["u"]), &None),
        Ok(DownloadPlan::Playlist)
    ));
    for info in [media(MediaType::Playlist, vec![]), media(MediaType::Video, vec![""])] {
        assert_eq!(plan_download(&info, &None).err(), Some("No URL available".to_string()));
    }
    assert_eq!(referer_or_own(&None), "https://www.bilibili.com");
    assert_eq!(referer_or_own(&Some("r".to_string())), "r");
}

#[test]
fn heights_out_of_qualities() {
    assert_eq!(quality_height(&Some("1080p".to_string())), Some(1080));
    assert_eq!(quality_height(&Some("1080pp".to_string())), Some(1080));
    assert_eq!(quality_height(&Some("+480".to_string())), Some(480));
    assert_eq!(quality_height(&Some("best".to_string())), None);
    assert_eq!(quality_height(&Some("p".to_string())), None);
    assert_eq!(quality_height(&Some("4294967296".to_string())), None);
    assert_eq!(quality_height(&None), None);
}

#[test]
fn playlist_goes_on_past_failures() {
    let mut run = PlaylistRun::start("/out");
    assert!(matches!(run.step(3, false), PlaylistStep::Fetch { index: 0 }));
    run.on_outcome(EntryOutcome::Saved { bytes: 5, path: "/out/1".to_string() });
    assert!(matches!(run.step(3, false), PlaylistStep::Fetch { index: 1 }));
    run.on_outcome(EntryOutcome::Failed);
    match run.step(3, true) {
        PlaylistStep::Cancelled(e) => assert_eq!(e, "Download cancelled"),
        other => panic!("{:?}", other),
    }
    run.on_outcome(EntryOutcome::Saved { bytes: 6, path: "/out/3".to_string() });
    assert!(matches!(run.step(3, true), PlaylistStep::Finished));
    assert_eq!((run.bytes, run.path.as_str()), (11, "/out/3"));
    assert_eq!(PlaylistRun::start("/out").path, "/out");
}
