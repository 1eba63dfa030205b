use abbs::files::{is_safe_file_name, DirectoryEntry, FileArea, FileError, FileProbe};

fn entry(name: Option<&str>, is_file: bool, size: u64) -> DirectoryEntry {
    DirectoryEntry {
        name: name.map(Into::into),
        is_file,
        size,
    }
}

#[test]
fn lists_safe_files_and_rejects_traversal() {
    let area = FileArea::open("/srv/abbs/files".into());
    let files = area.list(vec![
        entry(Some("nested"), false, 4096),
        entry(Some("bulletin.txt"), true, b"CQ CQ".len() as u64),
        entry(Some("not downloadable.txt"), true, b"space".len() as u64),
    ]);
    assert_eq!(files.len(), 1);
    assert_eq!(files[0].name, "bulletin.txt");
    assert_eq!(files[0].size, 5);
    let found = || FileProbe::Regular("/srv/abbs/files/bulletin.txt".into());
    assert!(area.resolve_download("../bulletin.txt", found()).is_err());
    assert!(area.resolve_download("nested/file.txt", found()).is_err());
    assert!(area
        .resolve_download("bulletin.txt", found())
        .unwrap()
        .is_some());
    assert_eq!(
        area.download_path("bulletin.txt").unwrap(),
        "/srv/abbs/files/bulletin.txt"
    );
    assert_eq!(
        area.download_path("../bulletin.txt"),
        Err(FileError::UnsafeName)
    );
}

#[test]
fn safe_names_are_single_components() {
    for name in ["a", "bulletin.txt", ".hidden", "...", "..a", "gr\u{fc}n", "a:b"] {
        assert!(is_safe_file_name(name), "{name}");
    }
    for name in [
        "", ".", "..", "a b", "a\tb", "a\u{a0}b", "a/b", "/a", "a\\b", "a/", " a",
    ] {
        assert!(!is_safe_file_name(name), "{name}");
    }
}

#[test]
fn listings_are_sorted_by_name() {
    let area = FileArea::open("/f".into());
    let files = area.list(vec![
        entry(Some("b"), true, 1),
        entry(None, true, 2),
        entry(Some("a10"), true, 3),
        entry(Some("B"), true, 4),
        entry(Some("a1"), true, 5),
        entry(Some("a"), true, 6),
        entry(Some("\u{e9}"), true, 7),
    ]);
    let names: Vec<&str> = files.iter().map(|file| file.name.as_str()).collect();
    assert_eq!(names, ["B", "a", "a1", "a10", "b", "\u{e9}"]);
    let sizes: Vec<u64> = files.iter().map(|file| file.size).collect();
    assert_eq!(sizes, [4, 6, 5, 3, 1, 7]);
}

#[test]
fn only_regular_files_below_the_root_are_served() {
    let area = FileArea::open("/srv/files".into());
    assert_eq!(area.resolve_download("x", FileProbe::Missing), Ok(None));
    assert_eq!(area.resolve_download("x", FileProbe::NotRegular), Ok(None));
    let error = area
        .resolve_download("x", FileProbe::Unreadable)
        .unwrap_err();
    assert_eq!(error, FileError::Unreadable);
    assert_eq!(error.message(), "file cannot be examined");
    for (path, served) in [
        ("/srv/files/x", true),
        ("/srv/files-other/x", false),
        ("/srv/x", false),
        ("/etc/x", false),
    ] {
        assert_eq!(
            area.resolve_download("x", FileProbe::Regular(path.into()))
                .unwrap()
                .is_some(),
            served,
            "{path}"
        );
    }
    assert_eq!(
        FileArea::open("/".into()).resolve_download("x", FileProbe::Regular("/x".into())),
        Ok(Some("/x".into()))
    );
}

#[test]
fn uploads_have_a_part_file_beside_them() {
    let area = FileArea::open("/srv/uploads".into());
    assert_eq!(
        area.upload_paths("uplink.txt").unwrap(),
        (
            "/srv/uploads/uplink.txt".to_string(),
            "/srv/uploads/.uplink.txt.part".to_string()
        )
    );
    assert_eq!(
        FileArea::open("/".into()).upload_paths("a").unwrap(),
        ("/a".to_string(), "/.a.part".to_string())
    );
    let error = area.clone().upload_paths("../x").unwrap_err();
    assert_eq!(error, FileError::UnsafeName);
    assert_eq!(
        error.message(),
        "file name must be a single, non-whitespace path component"
    );
}
