use telegram_cloud_filesystem::cache::{Folder, FolderCache};
use telegram_cloud_filesystem::fs::{FsError, TelegramFS};
use telegram_cloud_filesystem::ident::ROOT_INO;
use telegram_cloud_filesystem::media::{Download, Media, RemoteMediaItem};
use telegram_cloud_filesystem::refresh::{
    build_folder, build_generation, on_refresh_event, start_refresher, FetchedConversation,
    FetchedMedia, RefreshAction, RefreshEvent, RefreshState, REFRESH_DELAY_SECS,
};

fn fetched(id: i32, media: Media, bytes: &[u8]) -> FetchedMedia {
    FetchedMedia {
        item: RemoteMediaItem { message_id: id, media },
        download: Download::Complete(vec![bytes.to_vec()]),
    }
}

fn failed(id: i32) -> FetchedMedia {
    FetchedMedia {
        item: RemoteMediaItem { message_id: id, media: Media::Photo },
        download: Download::Failed,
    }
}

fn conversation(name: &str, media: Vec<FetchedMedia>) -> FetchedConversation {
    FetchedConversation { name: name.to_string(), media }
}

fn generation_with(name: &str) -> FolderCache {
    build_generation(&vec![conversation(name, vec![fetched(1, Media::Photo, &[1])])])
}

fn root_names(fs: &TelegramFS) -> Vec<String> {
    fs.readdir(ROOT_INO, 0).unwrap().into_iter().map(|e| e.name).collect()
}

#[test]
fn the_delay_is_ten_seconds() {
    assert_eq!(REFRESH_DELAY_SECS, 10);
}

#[test]
fn build_folder_of_a_nameless_conversation_is_none() {
    assert!(build_folder(&conversation("", vec![fetched(1, Media::Photo, &[1])])).is_none());
}

#[test]
fn build_folder_takes_the_media_in_order() {
    let folder = build_folder(&conversation(
        "Alice",
        vec![
            fetched(1, Media::Photo, &[1]),
            fetched(2, Media::Document { mime_type: Some("application/pdf".to_string()) }, &[2, 2]),
            fetched(5, Media::Contact, &[3]),
            fetched(9, Media::Other, &[]),
        ],
    ))
    .unwrap();
    assert_eq!(folder.name(), "Alice");
    assert_eq!(folder.len(), 4);
    let expected = ["msg-1.jpg", "msg-2.pdf", "msg-5.vcf", "msg-9"];
    for (j, name) in expected.iter().enumerate() {
        assert_eq!(folder.file(j).unwrap().name(), *name);
        assert_eq!(folder.file(j).unwrap().ino(), folder.ino() + 1 + j as u64);
    }
}

#[test]
fn one_failed_item_does_not_spoil_the_rest() {
    let folder = build_folder(&conversation(
        "Alice",
        vec![fetched(1, Media::Photo, &[1]), failed(2), fetched(3, Media::Photo, &[3])],
    ))
    .unwrap();
    assert_eq!(folder.len(), 2);
    assert_eq!(folder.file(0).unwrap().name(), "msg-1.jpg");
    assert_eq!(folder.file(1).unwrap().name(), "msg-3.jpg");
}

#[test]
fn build_generation_of_alice_with_a_photo_and_a_document() {
    let cache = build_generation(&vec![conversation(
        "Alice",
        vec![
            fetched(1, Media::Photo, &[0xff, 0xd8, 0xff]),
            fetched(2, Media::Document { mime_type: Some("application/pdf".to_string()) }, b"%PDF"),
        ],
    )]);
    let mut fs = TelegramFS::init();
    fs.replace(cache);
    let alice = TelegramFS::folder_ino("Alice");
    assert_eq!(fs.lookup(ROOT_INO, "Alice").unwrap().ino, alice);
    let names: Vec<String> = fs.readdir(alice, 0).unwrap().into_iter().map(|e| e.name).collect();
    assert_eq!(names, vec![".", "..", "msg-1.jpg", "msg-2.pdf"]);
    let photo = fs.lookup(alice, "msg-1.jpg").unwrap();
    assert_eq!(fs.read(photo.ino, 0, 1024), Ok(&[0xffu8, 0xd8, 0xff][..]));
}

#[test]
fn build_generation_leaves_out_nameless_and_empty_conversations() {
    let cache = build_generation(&vec![
        conversation("", vec![fetched(1, Media::Photo, &[1])]),
        conversation("NoMedia", vec![]),
        conversation("AllFailed", vec![failed(1), failed(2)]),
        conversation("Alice", vec![fetched(1, Media::Photo, &[1])]),
        conversation("Bob", vec![failed(1), fetched(2, Media::Photo, &[2])]),
    ]);
    assert_eq!(cache.len(), 2);
    assert_eq!(cache.folder(0).unwrap().name(), "Alice");
    assert_eq!(cache.folder(1).unwrap().name(), "Bob");
    assert_eq!(cache.folder(1).unwrap().file(0).unwrap().name(), "msg-2.jpg");
}

#[test]
fn build_generation_of_nothing_is_empty() {
    assert_eq!(build_generation(&Vec::new()).len(), 0);
}

#[test]
fn build_generation_lets_a_later_conversation_of_the_same_name_win() {
    let cache = build_generation(&vec![
        conversation("Alice", vec![fetched(1, Media::Photo, &[1])]),
        conversation("Bob", vec![fetched(1, Media::Photo, &[1])]),
        conversation("Alice", vec![fetched(7, Media::Contact, &[7]), fetched(8, Media::Photo, &[8])]),
    ]);
    assert_eq!(cache.len(), 2);
    assert_eq!(cache.folder(0).unwrap().name(), "Alice");
    assert_eq!(cache.folder(0).unwrap().len(), 2);
    assert_eq!(cache.folder(0).unwrap().file(0).unwrap().name(), "msg-7.vcf");
}

#[test]
fn build_generation_agrees_with_building_by_hand() {
    let conversations = vec![conversation(
        "Alice",
        vec![fetched(4, Media::Sticker { mime_type: Some("image/webp".to_string()) }, &[9, 9])],
    )];
    let built = build_generation(&conversations);
    let mut by_hand = FolderCache::new();
    let mut folder = Folder::begin("Alice").unwrap();
    folder.add_file("msg-4.webp".to_string(), vec![9, 9]);
    by_hand.insert(folder);
    assert_eq!(built.len(), by_hand.len());
    let a = built.folder(0).unwrap().file(0).unwrap();
    let b = by_hand.folder(0).unwrap().file(0).unwrap();
    assert_eq!((a.ino(), a.name(), a.attr()), (b.ino(), b.name(), b.attr()));
    assert_eq!(a.content(), b.content());
}

#[test]
fn the_refresher_starts_with_a_rebuild() {
    assert_eq!(start_refresher(), (RefreshState::Refreshing, RefreshAction::Rebuild));
}

#[test]
fn a_finished_rebuild_is_swapped_in_and_followed_by_sleep() {
    let mut fs = TelegramFS::init();
    let step = on_refresh_event(
        &mut fs,
        RefreshState::Refreshing,
        RefreshEvent::Rebuilt(generation_with("Alice")),
    );
    assert_eq!(step, (RefreshState::Idle, RefreshAction::Sleep(10)));
    assert_eq!(root_names(&fs), vec![".", "..", "Alice"]);
}

#[test]
fn a_failed_rebuild_keeps_the_last_generation() {
    let mut fs = TelegramFS::init();
    fs.replace(generation_with("Alice"));
    let step = on_refresh_event(&mut fs, RefreshState::Refreshing, RefreshEvent::Failed);
    assert_eq!(step, (RefreshState::Idle, RefreshAction::Sleep(REFRESH_DELAY_SECS)));
    assert_eq!(root_names(&fs), vec![".", "..", "Alice"]);
}

#[test]
fn waking_up_starts_the_next_rebuild() {
    let mut fs = TelegramFS::init();
    fs.replace(generation_with("Alice"));
    let step = on_refresh_event(&mut fs, RefreshState::Idle, RefreshEvent::Woke);
    assert_eq!(step, (RefreshState::Refreshing, RefreshAction::Rebuild));
    assert_eq!(root_names(&fs), vec![".", "..", "Alice"]);
}

#[test]
fn events_out_of_place_change_nothing() {
    let mut fs = TelegramFS::init();
    fs.replace(generation_with("Alice"));
    let step = on_refresh_event(&mut fs, RefreshState::Refreshing, RefreshEvent::Woke);
    assert_eq!(step, (RefreshState::Refreshing, RefreshAction::Nothing));
    let step = on_refresh_event(&mut fs, RefreshState::Idle, RefreshEvent::Failed);
    assert_eq!(step, (RefreshState::Idle, RefreshAction::Nothing));
    let step =
        on_refresh_event(&mut fs, RefreshState::Idle, RefreshEvent::Rebuilt(generation_with("Bob")));
    assert_eq!(step, (RefreshState::Idle, RefreshAction::Nothing));
    assert_eq!(root_names(&fs), vec![".", "..", "Alice"]);
}

#[test]
fn the_cycle_goes_round() {
    let mut fs = TelegramFS::init();
    let (mut state, mut action) = start_refresher();
    let mut round = 0;
    while round < 3 {
        assert_eq!((state, action), (RefreshState::Refreshing, RefreshAction::Rebuild));
        let name = format!("round-{round}");
        let event = if round == 1 {
            RefreshEvent::Failed
        } else {
            RefreshEvent::Rebuilt(generation_with(&name))
        };
        (state, action) = on_refresh_event(&mut fs, state, event);
        assert_eq!((state, action), (RefreshState::Idle, RefreshAction::Sleep(10)));
        (state, action) = on_refresh_event(&mut fs, state, RefreshEvent::Woke);
        round += 1;
    }
    assert_eq!(root_names(&fs), vec![".", "..", "round-2"]);
    assert_eq!(fs.lookup(ROOT_INO, "round-0"), Err(FsError::NotFound));
}
