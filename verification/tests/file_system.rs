use fluxfox::file_system::date_time::{DateTimeError, FsDateTime};
use fluxfox::file_system::file_tree::{FileEntry, FileEntryType, FileNameType, FileTreeNode};
use fluxfox::file_system::FileSystemArchive;
use fluxfox::file_system::{host_entry_action, host_entry_path, join_with_slash, HostEntryAction, HostEntryKind};

fn dt(y: u16, mo: u8, d: u8, h: u8, mi: u8, s: u8, ms: u16) -> FsDateTime {
    FsDateTime { year: y, month: mo, day: d, hour: h, minute: mi, second: s, millisecond: ms }
}

#[test]
fn date_time_from_unix_time() {
    assert_eq!(FsDateTime::from_unix_time(0, 0).unwrap(), dt(1970, 1, 1, 0, 0, 0, 0));
    assert_eq!(FsDateTime::from_unix_time(951_782_400, 5_000_000).unwrap(), dt(2000, 2, 29, 0, 0, 0, 5));
    assert_eq!(FsDateTime::from_unix_time(1_700_000_000, 999_999_999).unwrap(), dt(2023, 11, 14, 22, 13, 20, 999));
    assert_eq!(FsDateTime::from_unix_time(4_102_444_799, 0).unwrap(), dt(2099, 12, 31, 23, 59, 59, 0));
    // 1900 is not a leap year, 2100 neither; 2100-03-01 is day 59 of its year.
    assert_eq!(FsDateTime::from_unix_time(4_107_542_400, 0).unwrap(), dt(2100, 3, 1, 0, 0, 0, 0));
    assert!(matches!(FsDateTime::from_unix_time(u64::MAX, 0), Err(DateTimeError::YearTooLarge)));
}

#[test]
fn date_time_default() {
    assert_eq!(FsDateTime::default(), dt(1980, 1, 1, 0, 0, 0, 0));
}

fn file(name: &str, path: &str, size: u64) -> FileTreeNode {
    FileTreeNode::File(FileEntry::new(
        FileEntryType::File,
        name.to_uppercase(),
        Some(name.to_string()),
        path.to_string(),
        size,
        None,
        None,
    ))
}

fn dir(name: &str, path: &str, children: Vec<FileTreeNode>) -> FileTreeNode {
    FileTreeNode::Directory {
        dfe: FileEntry::new(FileEntryType::Directory, name.to_string(), None, path.to_string(), 0, None, None),
        children,
    }
}

fn sample_tree() -> FileTreeNode {
    dir(
        "/",
        "/",
        vec![
            file("readme.txt", "README.TXT", 10),
            dir("games", "GAMES", vec![file("chess.exe", "GAMES/CHESS.EXE", 2000), dir("saves", "GAMES/SAVES", vec![])]),
            file("autoexec.bat", "AUTOEXEC.BAT", 30),
        ],
    )
}

#[test]
fn file_tree_walks() {
    let tree = sample_tree();
    assert!(tree.is_dir());
    assert_eq!(tree.sub_dir_ct(), 1);
    let names = tree.file_names(true, FileNameType::Long);
    assert_eq!(names, vec!["readme.txt", "chess.exe", "autoexec.bat"]);
    let short = tree.file_names(true, FileNameType::Short);
    assert_eq!(short, vec!["README.TXT", "CHESS.EXE", "AUTOEXEC.BAT"]);
    let paths = tree.file_paths(true, FileNameType::Long);
    assert_eq!(paths, vec!["README.TXT", "GAMES/CHESS.EXE", "AUTOEXEC.BAT"]);
    assert!(tree.files(false).is_empty());
    let files = tree.files(true);
    assert_eq!(files.len(), 3);
    assert_eq!(files[1].size(), 2000);
    assert_eq!(files[1].ext(), Some("EXE"));
    assert!(files[0].is_file() && !files[0].is_dir());
}

#[test]
fn file_tree_lookup() {
    let tree = sample_tree();
    let games = tree.node("/games").unwrap();
    assert_eq!(games.sub_dir_ct(), 1);
    assert_eq!(games.file_names(true, FileNameType::Short), vec!["CHESS.EXE"]);
    assert!(tree.node("games/saves").unwrap().is_dir());
    assert!(tree.node("/NOPE").is_none());
    assert!(tree.node("/GAMES").is_none());
    assert!(tree.node("/README.TXT").is_none());
    let root_entries = tree.dir("/").unwrap();
    assert_eq!(root_entries.len(), 3);
    assert_eq!(root_entries[1].short_name(), "games");
    let games_entries = tree.dir("/games").unwrap();
    assert_eq!(games_entries.len(), 2);
    assert_eq!(games_entries[0].short_name(), "CHESS.EXE");
    assert!(tree.dir("/games/saves").unwrap().is_empty());
    assert!(tree.dir("/GAMES").is_none());
}

#[test]
fn file_tree_root_and_entries() {
    let root = FileTreeNode::root();
    assert!(root.is_dir());
    assert!(root.files(true).is_empty());
    let e = FileEntry::new(FileEntryType::File, "NOEXT".into(), None, "NOEXT".into(), 1, None, Some(dt(1999, 12, 31, 1, 2, 3, 0)));
    assert_eq!(e.ext(), None);
    assert_eq!(e.name(FileNameType::Long), None);
    assert_eq!(e.name(FileNameType::Short), Some("NOEXT"));
    assert_eq!(e.modified().unwrap().year, 1999);
    assert!(e.created().is_none());
    assert_eq!(FileSystemArchive::Zip.ext(), ".zip");
    assert_eq!(FileSystemArchive::Tar.name(), "Tar");
}

#[test]
fn file_tree_dir_follows_directories() {
    let a = FileEntry::new(FileEntryType::File, "A.COM".to_string(), None, "/DOS/A.COM".to_string(), 3, None, None);
    let dos = FileTreeNode::Directory {
        dfe: FileEntry::new(FileEntryType::Directory, "DOS".to_string(), None, "/DOS".to_string(), 0, None, None),
        children: vec![FileTreeNode::File(a)],
    };
    let root = FileTreeNode::Directory {
        dfe: FileEntry::new(FileEntryType::Directory, "/".to_string(), None, "/".to_string(), 0, None, None),
        children: vec![dos],
    };
    let names = |v: Option<Vec<FileEntry>>| v.map(|v| v.iter().map(|e| e.short_name().to_string()).collect::<Vec<_>>());
    assert_eq!(names(root.dir("/DOS")), Some(vec!["A.COM".to_string()]));
    assert_eq!(names(root.dir("DOS")), Some(vec!["A.COM".to_string()]));
    assert_eq!(names(root.dir("/")), Some(vec!["DOS".to_string()]));
    assert_eq!(names(root.dir("/NOPE")), None);
    assert_eq!(names(root.dir("/DOS/A.COM")), None);
    // A directory entry has no size.
    let d = root.dir("/").unwrap();
    assert!(d[0].is_dir());
    assert_eq!(d[0].size(), 0);
}

#[test]
fn host_tree_steps() {
    assert_eq!(host_entry_action(HostEntryKind::File, false), HostEntryAction::AddFile);
    assert_eq!(host_entry_action(HostEntryKind::Directory, true), HostEntryAction::Descend);
    assert_eq!(host_entry_action(HostEntryKind::Directory, false), HostEntryAction::Skip);
    assert_eq!(host_entry_action(HostEntryKind::Symlink, true), HostEntryAction::Refuse);
    assert_eq!(host_entry_action(HostEntryKind::Other, true), HostEntryAction::Refuse);
    let stack = vec!["GAMES".to_string(), "SAVES".to_string()];
    assert_eq!(join_with_slash(&stack), "GAMES/SAVES");
    assert_eq!(host_entry_path(&stack, "A.SAV"), "GAMES/SAVES/A.SAV");
    assert_eq!(host_entry_path(&Vec::new(), "README"), "README");
}
