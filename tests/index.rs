use mediapack::config::Resolved;
use mediapack::index::{Duplicate, MediaFilter, PackIndex};
use mediapack::manager::{handle_request, MediaManager, MediaRequest, Request, Selection, CHANNEL_CAPACITY};
use mediapack::packing::{build_index, IndexError, MediaInfo, PackedEntry};
use mediapack::target::ResolvedTarget;
use mediapack::{Empty, FileType, MediaCategory, MediaType, NotificationOpts};

fn s(x: &str) -> String {
    x.to_string()
}

fn entry(path: &str, t: FileType, cat: MediaCategory, offset: u64, tags: &[&str]) -> PackedEntry {
    PackedEntry {
        rel_path: s(path),
        media_type: t,
        category: cat,
        offset,
        length: 10,
        width: Some(640),
        height: Some(480),
        duration: None,
        tags: tags.iter().map(|x| s(x)).collect(),
    }
}

fn empty_resolved() -> Resolved {
    Resolved { popups: vec![], wallpapers: vec![], notifications: vec![], links: vec![], prompts: vec![] }
}

fn sample() -> PackIndex {
    let entries = vec![
        entry("a.png", FileType::Image, MediaCategory::Popup, 32, &["cute"]),
        entry("b.mp4", FileType::Video, MediaCategory::Popup, 42, &["nsfw", "nsfw"]),
        entry("c.opus", FileType::Audio, MediaCategory::Popup, 52, &[]),
        entry("w.png", FileType::Image, MediaCategory::Wallpaper, 62, &["cute"]),
    ];
    let mut resolved = empty_resolved();
    resolved.notifications = vec![ResolvedTarget {
        primary: s("hello"),
        opts: NotificationOpts { summary: Some(s("sum")) },
        tags: vec![s("nsfw")],
    }];
    resolved.links = vec![ResolvedTarget::<Empty> { primary: s("https://example.org"), opts: Empty {}, tags: vec![] }];
    build_index(&vec![s("cute"), s("nsfw")], &entries, &resolved).ok().unwrap()
}

#[test]
fn index_assigns_ids_and_tags() {
    let p = sample();
    assert_eq!(p.tags.len(), 2);
    assert_eq!((p.tags[0].id, p.tags[0].name.clone()), (1, s("cute")));
    assert_eq!((p.tags[1].id, p.tags[1].name.clone()), (2, s("nsfw")));
    assert_eq!(p.media.len(), 4);
    assert_eq!(p.media[1].item.id, 2);
    assert_eq!(p.media[1].item.media_type, MediaType::Video);
    assert_eq!(p.media[1].tag_ids, vec![2]);
    assert_eq!(p.notifications[0].item.summary, Some(s("sum")));
    assert_eq!(p.notifications[0].item.body, s("hello"));
}

#[test]
fn unknown_tag_fails_index() {
    let entries = vec![entry("a.png", FileType::Image, MediaCategory::Popup, 32, &["ghost"])];
    match build_index(&vec![s("cute")], &entries, &empty_resolved()) {
        Err(IndexError::UnknownTag(t)) => assert_eq!(t, s("ghost")),
        Ok(_) => panic!("expected an error"),
    }
}

#[test]
fn all_entries_round_trip() {
    let p = sample();
    let all = p.get_all_entries();
    assert_eq!(all.len(), 4);
    assert_eq!(all[0].0.path, s("a.png"));
    assert_eq!(all[0].0.width, Some(640));
    assert_eq!(all[0].1, vec![s("cute")]);
    assert_eq!(all[1].1, vec![s("nsfw")]);
    assert!(all[2].1.is_empty());
    assert_eq!(all[3].0.category, MediaCategory::Wallpaper);
}

#[test]
fn tag_filter_never_returns_disjoint_entries() {
    let p = sample();
    for _ in 0..50 {
        let e = p.random_of_type(MediaType::Image, &Some(vec![s("cute")])).unwrap();
        assert!(e.path == s("a.png") || e.path == s("w.png"));
        let v = p.random_of_type(MediaType::Video, &Some(vec![s("nsfw"), s("cute")])).unwrap();
        assert_eq!(v.path, s("b.mp4"));
    }
    assert!(p.random_of_type(MediaType::Video, &Some(vec![s("cute")])).is_none());
    assert!(p.random_of_type(MediaType::Image, &Some(vec![s("unknown")])).is_none());
    assert!(p.random_of_type(MediaType::Image, &Some(vec![])).is_none());
    assert_eq!(p.random_of_type(MediaType::Audio, &None).unwrap().path, s("c.opus"));
    assert!(p.random_of_type(MediaType::Other, &None).is_none());
}

#[test]
fn popups_and_wallpapers_are_kept_apart() {
    let p = sample();
    for _ in 0..50 {
        let e = p.random_popup(&None).unwrap();
        assert!(e.path == s("a.png") || e.path == s("b.mp4"));
        assert_eq!(p.random_wallpaper(&None).unwrap().path, s("w.png"));
    }
    assert_eq!(p.random_popup(&Some(vec![s("cute")])).unwrap().path, s("a.png"));
    assert!(p.random_wallpaper(&Some(vec![s("nsfw")])).is_none());
}

#[test]
fn text_rows_are_filtered_by_tags() {
    let p = sample();
    assert_eq!(p.random_notification(&Some(vec![s("nsfw")])).unwrap().body, s("hello"));
    assert!(p.random_notification(&Some(vec![s("cute")])).is_none());
    assert_eq!(p.random_link(&None).unwrap().link, s("https://example.org"));
    assert!(p.random_link(&Some(vec![s("cute")])).is_none());
    assert!(p.random_prompt(&None).is_none());
}

#[test]
fn selection_by_draw_is_exact() {
    let p = sample();
    let f = MediaFilter::OfType(MediaType::Image);
    assert_eq!(p.select_media(f, &None, 0).unwrap().path, s("a.png"));
    assert_eq!(p.select_media(f, &None, 1).unwrap().path, s("w.png"));
    assert_eq!(p.select_media(f, &None, 2).unwrap().path, s("a.png"));
    assert_eq!(p.select_media(MediaFilter::Popup, &None, 1).unwrap().path, s("b.mp4"));
    assert!(p.select_media(MediaFilter::OfType(MediaType::Other), &None, 5).is_none());
}

#[test]
fn requests_are_answered_under_their_id() {
    let p = sample();
    let r = handle_request(&p, Request { id: 7, request: MediaRequest::RandomAudio { tags: None } }).unwrap();
    assert_eq!(r.id, 7);
    match r.response {
        Selection::Audio(e) => assert_eq!(e.path, s("c.opus")),
        _ => panic!("expected audio"),
    }
    let r = handle_request(&p, Request { id: 8, request: MediaRequest::RandomMedia { only_images: true, tags: Some(vec![s("cute")]) } }).unwrap();
    match r.response {
        Selection::Media(e) => assert_eq!(e.media_type, MediaType::Image),
        _ => panic!("expected media"),
    }
    assert!(handle_request(&p, Request { id: 9, request: MediaRequest::RandomPrompt { tags: None } }).is_none());
}

#[test]
fn full_request_channel_refuses_until_drained() {
    let (tx, requests) = async_channel::bounded::<Request>(CHANNEL_CAPACITY);
    let (_answers_tx, answers) = async_channel::bounded::<u32>(CHANNEL_CAPACITY);
    let mut m = MediaManager::new(tx, answers);
    for i in 0..CHANNEL_CAPACITY as u64 {
        assert_eq!(m.request_link(None), Some(i));
    }
    assert_eq!(m.request_media(None, false), None);
    assert_eq!(m.request_prompt(None), None);
    assert_eq!(m.next_id(), CHANNEL_CAPACITY as u64);
    let first = requests.try_recv().unwrap();
    assert_eq!(first.id, 0);
    assert_eq!(m.request_wallpaper(None), Some(CHANNEL_CAPACITY as u64));
    assert_eq!(m.request_audio(None), None);
    assert!(m.try_recv().is_none());
}

#[test]
fn answers_are_received() {
    let (tx, _requests) = async_channel::bounded::<Request>(2);
    let (answers_tx, answers) = async_channel::bounded::<u32>(2);
    let mut m = MediaManager::new(tx, answers);
    assert_eq!(m.request_notification(None), Some(0));
    answers_tx.try_send(5).unwrap();
    assert_eq!(m.try_recv(), Some(5));
    assert_eq!(m.try_recv(), None);
}

#[test]
fn media_info_takes_file_name() {
    let p = sample();
    let info = MediaInfo::from_entry(&p.media[0].item);
    assert_eq!(info.file_name, s("a.png"));
    assert_eq!(info.file_type, s("image"));
    let mut e = p.media[1].item.duplicate();
    e.path = s("dir/sub/clip.mp4");
    let info = MediaInfo::from_entry(&e);
    assert_eq!(info.file_name, s("clip.mp4"));
    assert_eq!(info.file_type, s("video"));
}

#[test]
fn all_entries_come_in_path_order() {
    let entries = vec![
        entry("z/last.png", FileType::Image, MediaCategory::Popup, 32, &[]),
        entry("a/first.png", FileType::Image, MediaCategory::Popup, 42, &["cute"]),
        entry("m.mp4", FileType::Video, MediaCategory::Popup, 52, &[]),
        entry("a/first.png", FileType::Image, MediaCategory::Popup, 62, &[]),
    ];
    let p = build_index(&vec![s("cute")], &entries, &empty_resolved()).ok().unwrap();
    let all = p.get_all_entries();
    let paths: Vec<String> = all.iter().map(|(e, _)| e.path.clone()).collect();
    assert_eq!(paths, vec![s("a/first.png"), s("a/first.png"), s("m.mp4"), s("z/last.png")]);
    let mut ids: Vec<i64> = all.iter().map(|(e, _)| e.id).collect();
    ids.sort();
    assert_eq!(ids, vec![1, 2, 3, 4]);
}

#[test]
fn listings_by_type_and_path() {
    let p = sample();
    let images: Vec<String> = p.get_entries_by_type(MediaType::Image).into_iter().map(|e| e.path).collect();
    assert_eq!(images, vec![s("a.png"), s("w.png")]);
    assert!(p.get_entries_by_type(MediaType::Other).is_empty());
    assert_eq!(p.get_entry_by_path("c.opus").unwrap().id, 3);
    assert!(p.get_entry_by_path("nope").is_none());
}

#[test]
fn request_carries_id_and_kind() {
    let r = mediapack::manager::request_for(41, MediaRequest::RandomLink { tags: Some(vec![s("x")]) });
    assert_eq!(r.id, 41);
    match r.request {
        MediaRequest::RandomLink { tags } => assert_eq!(tags, Some(vec![s("x")])),
        _ => panic!("expected a link request"),
    }
}

#[test]
fn sent_requests_reach_the_worker_unchanged() {
    let (tx, requests) = async_channel::bounded::<Request>(4);
    let (_answers_tx, answers) = async_channel::bounded::<u32>(4);
    let mut m = MediaManager::new(tx, answers);
    assert_eq!(m.request_media(Some(vec![s("cute")]), true), Some(0));
    assert_eq!(m.request_wallpaper(None), Some(1));
    let first = requests.try_recv().unwrap();
    assert_eq!(first.id, 0);
    match first.request {
        MediaRequest::RandomMedia { only_images, tags } => {
            assert!(only_images);
            assert_eq!(tags, Some(vec![s("cute")]));
        }
        _ => panic!("expected a media request"),
    }
    let second = requests.try_recv().unwrap();
    assert_eq!(second.id, 1);
    assert!(matches!(second.request, MediaRequest::RandomWallpaper { tags: None }));
}
