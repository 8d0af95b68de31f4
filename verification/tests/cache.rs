use telegram_cloud_filesystem::attr::{FileAttr, FileType};
use telegram_cloud_filesystem::cache::{CachedFile, Folder, FolderCache};
use telegram_cloud_filesystem::fs::TelegramFS;
use telegram_cloud_filesystem::media::{Download, Media, RemoteMediaItem};

fn photo(id: i32) -> RemoteMediaItem {
    RemoteMediaItem { message_id: id, media: Media::Photo }
}

#[test]
fn cached_file_keeps_what_it_was_given() {
    let file = CachedFile::new(42, "msg-1.jpg".to_string(), vec![1, 2, 3, 4]);
    assert_eq!(file.ino(), 42);
    assert_eq!(file.name(), "msg-1.jpg");
    assert_eq!(**file.content(), vec![1u8, 2, 3, 4]);
}

#[test]
fn cached_file_metadata_follows_identifier_and_length() {
    let file = CachedFile::new(42, "msg-1.jpg".to_string(), vec![1, 2, 3, 4]);
    let attr = file.attr();
    assert_eq!(attr, FileAttr::regular_file(42, 4));
    assert_eq!(attr.ino, 42);
    assert_eq!(attr.size, 4);
    assert_eq!(attr.blocks, 1);
    assert_eq!(attr.kind, FileType::RegularFile);
    assert_eq!(attr.perm, 0o644);
    assert_eq!(attr.nlink, 1);
    assert_eq!(attr.uid, 501);
    assert_eq!(attr.gid, 20);
    assert_eq!(attr.rdev, 0);
    assert_eq!(attr.flags, 0);
    assert_eq!(attr.blksize, 512);
    assert_eq!((attr.atime, attr.mtime, attr.ctime, attr.crtime), (0, 0, 0, 0));
}

#[test]
fn directory_metadata_is_fixed() {
    let attr = FileAttr::directory(9);
    assert_eq!(attr.ino, 9);
    assert_eq!(attr.size, 0);
    assert_eq!(attr.blocks, 0);
    assert_eq!(attr.kind, FileType::Directory);
    assert_eq!(attr.perm, 0o755);
    assert_eq!(attr.nlink, 2);
    assert_eq!(attr.uid, 501);
    assert_eq!(attr.gid, 20);
    assert_eq!(attr.blksize, 512);
    assert_eq!((attr.atime, attr.mtime, attr.ctime, attr.crtime), (0, 0, 0, 0));
}

#[test]
fn a_conversation_without_a_name_gets_no_directory() {
    assert!(Folder::begin("").is_none());
}

#[test]
fn a_new_directory_is_empty_and_has_the_name_s_identifier() {
    let folder = Folder::begin("Alice").unwrap();
    assert_eq!(folder.name(), "Alice");
    assert_eq!(folder.ino(), TelegramFS::folder_ino("Alice"));
    assert_eq!(folder.len(), 0);
    assert!(folder.file(0).is_none());
}

#[test]
fn files_are_numbered_from_the_identifier_after_the_directory_s() {
    let mut folder = Folder::begin("Alice").unwrap();
    let base = folder.ino();
    assert!(folder.add_file("a".to_string(), vec![1]));
    assert!(folder.add_file("b".to_string(), vec![2, 2]));
    assert!(folder.add_file("c".to_string(), vec![]));
    assert_eq!(folder.len(), 3);
    for (j, name) in ["a", "b", "c"].iter().enumerate() {
        let file = folder.file(j).unwrap();
        assert_eq!(file.ino(), base + 1 + j as u64);
        assert_eq!(file.name(), *name);
        assert_eq!(file.attr().size, j as u64 + 1 - 3 * (j as u64 / 2));
    }
    assert!(folder.file(3).is_none());
}

#[test]
fn file_identifiers_are_unique_within_a_directory() {
    let mut folder = Folder::begin("Bob").unwrap();
    for i in 0..20 {
        assert!(folder.add_media(&photo(i), &Download::Complete(vec![vec![i as u8]])));
    }
    let mut seen = Vec::new();
    for j in 0..folder.len() {
        let ino = folder.file(j).unwrap().ino();
        assert_ne!(ino, 1);
        assert!(!seen.contains(&ino));
        seen.push(ino);
    }
    assert_eq!(seen.len(), 20);
}

#[test]
fn add_media_names_the_file_and_joins_the_chunks() {
    let mut folder = Folder::begin("Alice").unwrap();
    let item = RemoteMediaItem {
        message_id: 7,
        media: Media::Document { mime_type: Some("application/pdf".to_string()) },
    };
    assert!(folder.add_media(&item, &Download::Complete(vec![vec![1, 2], vec![3]])));
    let file = folder.file(0).unwrap();
    assert_eq!(file.name(), "msg-7.pdf");
    assert_eq!(**file.content(), vec![1u8, 2, 3]);
    assert_eq!(file.ino(), folder.ino() + 1);
}

#[test]
fn a_failed_transfer_is_passed_over() {
    let mut folder = Folder::begin("Alice").unwrap();
    assert!(folder.add_media(&photo(1), &Download::Complete(vec![vec![1]])));
    assert!(!folder.add_media(&photo(2), &Download::Failed));
    assert!(folder.add_media(&photo(3), &Download::Complete(vec![vec![3]])));
    assert_eq!(folder.len(), 2);
    assert_eq!(folder.file(0).unwrap().name(), "msg-1.jpg");
    assert_eq!(folder.file(1).unwrap().name(), "msg-3.jpg");
    assert_eq!(folder.file(1).unwrap().ino(), folder.ino() + 2);
}

#[test]
fn find_by_name_and_by_identifier() {
    let mut folder = Folder::begin("Alice").unwrap();
    folder.add_file("x".to_string(), vec![1]);
    folder.add_file("y".to_string(), vec![2]);
    folder.add_file("x".to_string(), vec![3]);
    let base = folder.ino();
    assert_eq!(folder.find_by_name("x").unwrap().ino(), base + 1);
    assert_eq!(folder.find_by_name("y").unwrap().ino(), base + 2);
    assert!(folder.find_by_name("z").is_none());
    assert_eq!(**folder.find_by_ino(base + 3).unwrap().content(), vec![3u8]);
    assert!(folder.find_by_ino(base).is_none());
    assert!(folder.find_by_ino(base + 4).is_none());
}

#[test]
fn the_empty_generation_holds_nothing() {
    let cache = FolderCache::new();
    assert_eq!(cache.len(), 0);
    assert!(cache.folder(0).is_none());
    assert!(cache.position_by_name("Alice").is_none());
    assert!(cache.position_by_ino(5).is_none());
    assert!(cache.find_file(5).is_none());
}

#[test]
fn an_empty_directory_is_not_taken_in() {
    let mut cache = FolderCache::new();
    cache.insert(Folder::begin("Alice").unwrap());
    assert_eq!(cache.len(), 0);
    assert!(cache.position_by_name("Alice").is_none());
}

#[test]
fn directories_are_kept_in_the_order_of_their_arrival() {
    let mut cache = FolderCache::new();
    for name in ["Carol", "Alice", "Bob"] {
        let mut folder = Folder::begin(name).unwrap();
        folder.add_file("f".to_string(), vec![0]);
        cache.insert(folder);
    }
    assert_eq!(cache.len(), 3);
    assert_eq!(cache.folder(0).unwrap().name(), "Carol");
    assert_eq!(cache.folder(1).unwrap().name(), "Alice");
    assert_eq!(cache.folder(2).unwrap().name(), "Bob");
    assert_eq!(cache.position_by_name("Alice"), Some(1));
    assert_eq!(cache.position_by_ino(TelegramFS::folder_ino("Bob")), Some(2));
    assert_eq!(cache.position_by_name("Dave"), None);
}

#[test]
fn a_directory_of_a_known_name_replaces_the_earlier_one() {
    let mut cache = FolderCache::new();
    let mut first = Folder::begin("Alice").unwrap();
    first.add_file("old".to_string(), vec![1]);
    cache.insert(first);
    let mut other = Folder::begin("Bob").unwrap();
    other.add_file("bob".to_string(), vec![2]);
    cache.insert(other);
    let mut second = Folder::begin("Alice").unwrap();
    second.add_file("new-1".to_string(), vec![3]);
    second.add_file("new-2".to_string(), vec![4]);
    cache.insert(second);
    assert_eq!(cache.len(), 2);
    let alice = cache.folder(0).unwrap();
    assert_eq!(alice.name(), "Alice");
    assert_eq!(alice.len(), 2);
    assert_eq!(alice.file(0).unwrap().name(), "new-1");
    assert_eq!(cache.folder(1).unwrap().name(), "Bob");
}

#[test]
fn find_file_looks_through_all_directories() {
    let mut cache = FolderCache::new();
    let mut alice = Folder::begin("Alice").unwrap();
    alice.add_file("a".to_string(), vec![1]);
    let mut bob = Folder::begin("Bob").unwrap();
    bob.add_file("b".to_string(), vec![2]);
    let alice_file = alice.ino() + 1;
    let bob_file = bob.ino() + 1;
    cache.insert(alice);
    cache.insert(bob);
    assert_eq!(cache.find_file(alice_file).unwrap().name(), "a");
    assert_eq!(cache.find_file(bob_file).unwrap().name(), "b");
    assert!(cache.find_file(1).is_none());
}
