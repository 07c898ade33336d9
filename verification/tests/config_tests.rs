use oro_filesystem::config::index::AssetPackIndex;
use oro_filesystem::config::index::IndexType;
use oro_filesystem::config::IndexSource;
use oro_filesystem::FilesystemConfig;
use oro_filesystem::FilesystemError;
use oro_filesystem::FilesystemResult;
use oro_filesystem::FilesystemType;

const PACKAGE_INDEX: &str = r#"[
    {"path":"virtualFolder/vfile1.txt","index":{"package":"package.oap","starting_index":0,"file_size":28}},
    {"path":"virtualFolder/vfile1-copy.txt","index":{"package":"package.oap","starting_index":28,"file_size":28}},
    {"path":"otherFolder/someScript.lua","index":{"package":"package.oap","starting_index":56,"file_size":57}},
    {"path":"binaries/example.bin","index":{"package":"package.oap","starting_index":113,"file_size":13}}
]"#;

const AURA_INDEX: &str = r#"[
    {"path":"virtualFolder/vfile1.txt","index":{"url":"https://pastebin.com/raw/t0qjYDWt","hash":null}},
    {"path":"virtualFolder/vfile1-copy.txt","index":{"url":"https://pastebin.com/raw/t0qjYDWt","hash":null}},
    {"path":"binaries/example.bin","index":{"url":"https://pastebin.com/raw/eQe9aqfZ","hash":null}}
]"#;

/// The children of the roots that the tests use, as a listing gives them.
fn children_of(root: &str) -> Result<Vec<Option<String>>, String> {
    match root {
        "tests/assetpackage/" => Ok(vec![
            Some("tests/assetpackage/package.oap".to_string()),
            None,
            Some("tests/assetpackage/indices.oroi".to_string()),
        ]),
        "tests/aura/" => Ok(vec![Some("tests/aura/indices.oroi".to_string())]),
        "tests/" => Ok(vec![
            Some("tests/assetpackage".to_string()),
            Some("tests/aura".to_string()),
            Some("tests/errors".to_string()),
            Some("tests/filesystem".to_string()),
            Some("tests/scanner_test.txt".to_string()),
        ]),
        _ => Err("No such file or directory (os error 2)".to_string()),
    }
}

/// The text of the index files that the tests use.
fn text_of(path: &str) -> FilesystemResult<String> {
    match path {
        "tests/assetpackage/indices.oroi" => Ok(PACKAGE_INDEX.to_string()),
        "tests/aura/indices.oroi" => Ok(AURA_INDEX.to_string()),
        _ => Err(FilesystemError::from(std::io::Error::from(std::io::ErrorKind::NotFound))),
    }
}

/// Builds a configuration as a caller does: list the root, read the index
/// file that the listing shows, hand both to the library.
fn with_root(root: &str) -> FilesystemResult<FilesystemConfig> {
    let usable = FilesystemConfig::get_usable_root(root);
    let found = FilesystemConfig::autodetect_filesystem(&usable, children_of(&usable))?;
    let source = found.map(|path| {
        let contents = text_of(&path);
        IndexSource { path, contents }
    });
    FilesystemConfig::with_root(root, source)
}

#[test]
fn check_assetpackage_detection() -> FilesystemResult<()> {
    let configuration = with_root("tests/assetpackage")?;
    assert_eq!(configuration.fs_type(), FilesystemType::Indexed);
    Ok(())
}

#[test]
fn check_aura_detection() -> FilesystemResult<()> {
    let configuration = with_root("tests/aura")?;
    assert_eq!(configuration.fs_type(), FilesystemType::Indexed);
    Ok(())
}

#[test]
fn check_filesystem_detection() -> FilesystemResult<()> {
    let configuration = with_root("     tests    ")?; // <- should be trimmed
    assert_eq!(configuration.fs_type(), FilesystemType::Filesystem);
    Ok(())
}

#[test]
fn usable_root_is_trimmed_and_ends_in_a_slash() {
    assert_eq!(FilesystemConfig::get_usable_root(""), "./");
    assert_eq!(FilesystemConfig::get_usable_root("   \t\n "), "./");
    assert_eq!(FilesystemConfig::get_usable_root("     tests    "), "tests/");
    assert_eq!(FilesystemConfig::get_usable_root("tests/"), "tests/");
    assert_eq!(FilesystemConfig::get_usable_root(" a b "), "a b/");
    assert_eq!(FilesystemConfig::get_usable_root("\u{3000}données\u{a0}"), "données/");
    assert_eq!(FilesystemConfig::get_usable_root("/"), "/");
}

#[test]
fn root_and_path_of_a_configuration() -> FilesystemResult<()> {
    let configuration = with_root("tests/assetpackage")?;
    assert_eq!(configuration.root(), "tests/assetpackage/");
    assert_eq!(configuration.path("package.oap"), "tests/assetpackage/package.oap");
    let default = FilesystemConfig::new(None)?;
    assert_eq!(default.root(), "./");
    assert_eq!(default.fs_type(), FilesystemType::Filesystem);
    assert_eq!(default.path("README.md"), "./README.md");
    Ok(())
}

#[test]
fn index_file_is_the_first_child_with_the_extension() {
    let pick = |names: &[&str]| {
        let children = names.iter().map(|n| Some(n.to_string())).collect();
        FilesystemConfig::autodetect_filesystem("root/", Ok(children)).unwrap()
    };
    assert_eq!(pick(&[]), None);
    assert_eq!(pick(&["root/a.txt", "root/b.oap"]), None);
    assert_eq!(pick(&["root/a.txt", "root/b.oroi", "root/c.oroi"]), Some("root/b.oroi".to_string()));
    // A name that is nothing but the extension has no extension.
    assert_eq!(pick(&["root/.oroi", ".oroi", "oroi", "root/x.oroi.bak"]), None);
    assert_eq!(pick(&["root/..oroi"]), Some("root/..oroi".to_string()));
    assert_eq!(pick(&["a.oroi"]), Some("a.oroi".to_string()));
    assert_eq!(pick(&["root/a.OROI", "root/a.oro", "root/aoroi"]), None);
    // Children that could not be read are passed over.
    let listing = Ok(vec![None, Some("root/a".to_string()), None, Some("root/b.oroi".to_string())]);
    assert_eq!(
        FilesystemConfig::autodetect_filesystem("root/", listing),
        Ok(Some("root/b.oroi".to_string()))
    );
    assert_eq!(FilesystemConfig::autodetect_filesystem("root/", Ok(vec![None, None])), Ok(None));
}

#[test]
fn extension_test() {
    assert!(FilesystemConfig::has_index_extension("indices.oroi"));
    assert!(FilesystemConfig::has_index_extension("dir.with.dots/indices.oroi"));
    assert!(!FilesystemConfig::has_index_extension("dir/.oroi"));
    assert!(!FilesystemConfig::has_index_extension(".oroi"));
    assert!(!FilesystemConfig::has_index_extension(""));
    assert!(!FilesystemConfig::has_index_extension("indices.oroi/"));
}

#[test]
fn unlistable_root_is_a_generic_error() {
    let r = FilesystemConfig::autodetect_filesystem("nowhere/", Err("denied".to_string()));
    assert_eq!(
        r,
        Err(FilesystemError::Generic("nowhere/".to_string(), "denied".to_string()))
    );
}

#[test]
fn lookup_in_an_index() -> FilesystemResult<()> {
    let configuration = with_root("tests/assetpackage")?;
    assert_eq!(
        configuration.get_index_for_file("otherFolder/someScript.lua"),
        Ok(IndexType::AssetPack(AssetPackIndex {
            package: "package.oap".to_string(),
            starting_index: 56,
            file_size: 57,
        }))
    );
    assert_eq!(
        configuration.get_index_for_file("otherFolder/missing.lua"),
        Err(FilesystemError::NotFound("otherFolder/missing.lua".to_string()))
    );
    Ok(())
}

#[test]
fn lookup_in_a_plain_directory_is_unindexed_access() -> FilesystemResult<()> {
    let configuration = with_root("tests")?;
    assert_eq!(
        configuration.get_index_for_file("filesystem/testfile.txt"),
        Err(FilesystemError::UnindexedFilesystem("filesystem/testfile.txt".to_string()))
    );
    Ok(())
}

#[test]
fn unreadable_index_file_carries_its_path() {
    let source = IndexSource {
        path: "root/indices.oroi".to_string(),
        contents: Err(FilesystemError::from(std::io::Error::from(
            std::io::ErrorKind::PermissionDenied,
        ))),
    };
    let r = FilesystemConfig::with_root("root", Some(source));
    assert_eq!(
        r.unwrap_err(),
        FilesystemError::PermissionDenied("root/indices.oroi".to_string())
    );
}

#[test]
fn index_with_a_repeated_path_is_refused() {
    let text = r#"[
        {"path":"a","index":{"url":"u1","hash":null}},
        {"path":"b","index":{"url":"u2","hash":null}},
        {"path":"a","index":{"url":"u3","hash":null}}
    ]"#;
    let source = IndexSource { path: "root/i.oroi".to_string(), contents: Ok(text.to_string()) };
    let r = FilesystemConfig::with_root("root", Some(source));
    assert_eq!(r.unwrap_err(), FilesystemError::DuplicatePathsInIndex("a".to_string()));
}

#[test]
fn index_that_is_no_json_is_refused() {
    let source = IndexSource { path: "root/i.oroi".to_string(), contents: Ok("[{".to_string()) };
    let r = FilesystemConfig::with_root("root", Some(source));
    assert!(matches!(r.unwrap_err(), FilesystemError::DeserializationError(_)));
}

#[test]
fn trimming_agrees_with_the_standard_library_on_every_character() {
    for c in (0..=0x10FFFFu32).filter_map(char::from_u32) {
        if c == '/' {
            continue;
        }
        let text = format!("{}a{}b{}", c, c, c);
        let want = format!("{}/", text.trim());
        assert_eq!(FilesystemConfig::get_usable_root(&text), want, "{:?}", c);
    }
}

#[test]
fn extension_agrees_with_the_standard_library() {
    let names = [
        "", "/", ".", "..", "a", "oroi", ".oroi", "a.oroi", "..oroi", "a..oroi", "a.b.oroi",
        "a.oroi.b", "a.oro", "a.oroi ", "a.OROI", "dir/a.oroi", "dir/.oroi", "dir.oroi/a",
        "/abs/dir/é.oroi", "dir/a.oroii", "x.oroi.oroi", "dir\\.oroi",
    ];
    for name in names {
        let want = std::path::Path::new(name).extension().map_or(false, |e| e == "oroi");
        assert_eq!(FilesystemConfig::has_index_extension(name), want, "{:?}", name);
    }
}
