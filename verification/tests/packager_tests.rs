use oro_filesystem::config::assetmap::AssetMap;
use oro_filesystem::config::index::AssetPackIndex;
use oro_filesystem::config::index::IndexFile;
use oro_filesystem::config::index::IndexType;
use oro_filesystem::config::secure_path::BoundChecker;
use oro_filesystem::config::IndexSource;
use oro_filesystem::packager::join_path;
use oro_filesystem::packager::scan_directory;
use oro_filesystem::packager::scan_directory_recursively;
use oro_filesystem::packager::CopyOutcome;
use oro_filesystem::packager::Directory;
use oro_filesystem::packager::DirectoryEntry;
use oro_filesystem::packager::FsObjectsList;
use oro_filesystem::packager::Listing;
use oro_filesystem::packager::Packager;
use oro_filesystem::read;
use oro_filesystem::read_to_string;
use oro_filesystem::readers::assetpackage;
use oro_filesystem::request;
use oro_filesystem::Failure;
use oro_filesystem::FilesystemConfig;
use oro_filesystem::FilesystemError;
use oro_filesystem::FilesystemResult;
use oro_filesystem::ReadRequest;

const PACKAGE: &str = "hello, world! This is a testhello, world! This is a testWhen The imposter is sus!! This is a script or something.Hello, World!";
const SCANNER_TEST: &str = "This tests that the scanner can read files and directories";

fn file(path: &str) -> DirectoryEntry {
    DirectoryEntry::File(path.to_string())
}

fn directory(path: &str, entries: Vec<DirectoryEntry>) -> Directory {
    Directory { path: path.to_string(), listing: Listing::Entries(entries) }
}

/// The directory `tests` as a listing of the platform shows it.
fn tests_directory() -> Directory {
    directory(
        "tests",
        vec![
            DirectoryEntry::Directory(directory(
                "tests/filesystem",
                vec![file("tests/filesystem/testfile.txt")],
            )),
            file("tests/scanner_test.txt"),
            DirectoryEntry::Directory(directory(
                "tests/assetpackage",
                vec![file("tests/assetpackage/package.oap"), DirectoryEntry::Unreadable],
            )),
            DirectoryEntry::Special,
        ],
    )
}

/// The contents of the files below `tests`.
fn contents_of(path: &str) -> Option<&'static [u8]> {
    match path {
        "tests/filesystem/testfile.txt" => Some(b"Hello, World!"),
        "tests/scanner_test.txt" => Some(SCANNER_TEST.as_bytes()),
        "tests/assetpackage/package.oap" => Some(PACKAGE.as_bytes()),
        _ => None,
    }
}

fn not_found() -> FilesystemError {
    FilesystemError::from(std::io::Error::from(std::io::ErrorKind::NotFound))
}

/// What the platform makes of a path below `tests`, in a project that lies
/// at `/project`.
fn canonicalize(path: &str) -> FilesystemResult<String> {
    if path == "tests" || contents_of(path).is_some() {
        Ok(format!("/project/{}", path))
    } else {
        Err(not_found())
    }
}

/// Packs a directory as a caller does, with a vector in place of the
/// package file. Gives back the package and the text of its index.
fn pack(input: &Directory, output: &str, name: &str) -> FilesystemResult<(Vec<u8>, String, String, String)> {
    let bound_checker = BoundChecker::new(&input.path, canonicalize(&input.path))?;
    let files = scan_directory_recursively(input)?;
    let mut packager = Packager::new(output, name);
    let mut blob: Vec<u8> = Vec::new();
    for path in files {
        bound_checker.get_relative_string(&path, canonicalize(&path))?;
        let outcome = match contents_of(&path) {
            Some(bytes) => {
                blob.extend_from_slice(bytes);
                CopyOutcome::Copied(bytes.len() as u64)
            }
            None => CopyOutcome::SourceFailed(not_found()),
        };
        packager.append_file(&bound_checker, &path, canonicalize(&path), outcome)?;
    }
    assert_eq!(packager.current_size(), blob.len() as u64);
    let package_path = packager.path();
    let index_path = packager.index_path();
    Ok((blob, packager.index_text()?, package_path, index_path))
}

#[test]
fn scan_tests_directory() -> FilesystemResult<()> {
    let output = scan_directory(&tests_directory())?;

    assert!(!output.directories.is_empty(), "Tests directory should contain directories!");
    assert!(!output.files.is_empty(), "Tests directory should contain files!");

    // Tests that files are correct
    assert_eq!(output.files.len(), 1);
    assert_eq!(
        String::from_utf8(contents_of(output.files.get(0).unwrap()).unwrap().to_vec()).unwrap(),
        "This tests that the scanner can read files and directories".to_string()
    );

    Ok(())
}

#[test]
fn pack_tests_directory() -> FilesystemResult<()> {
    let (blob, index_text, package_path, index_path) =
        pack(&tests_directory(), "tests_packed", "tests_pack")?;
    assert_eq!(package_path, "tests_packed/tests_pack.oap");
    assert_eq!(index_path, "tests_packed/tests_pack.oroi");

    let listing = Ok(vec![Some(package_path.clone()), Some(index_path.clone())]);
    let found = FilesystemConfig::autodetect_filesystem("tests_packed/", listing)?;
    assert_eq!(found, Some(index_path.clone()));
    let source = IndexSource { path: index_path, contents: Ok(index_text) };
    let config = FilesystemConfig::with_root("tests_packed", Some(source))?;

    let serve = |wanted: ReadRequest| -> Result<Vec<u8>, Failure> {
        match wanted {
            ReadRequest::PackageRange { file, offset, length } if file == package_path => {
                let start = (offset as usize).min(blob.len());
                let end = start.saturating_add(length as usize).min(blob.len());
                Ok(blob[start..end].to_vec())
            }
            _ => Err(Failure::Io(not_found())),
        }
    };
    let hello_world = read_to_string(
        "filesystem/testfile.txt",
        &config,
        serve(request("filesystem/testfile.txt", &config)?),
    )?;
    let dummy_package = read_to_string(
        "assetpackage/package.oap",
        &config,
        serve(request("assetpackage/package.oap", &config)?),
    )?;

    assert_eq!(hello_world, "Hello, World!");
    assert_eq!(dummy_package, "hello, world! This is a testhello, world! This is a testWhen The imposter is sus!! This is a script or something.Hello, World!");

    Ok(())
}

#[test]
fn scan_sorts_files_and_directories_in_the_order_of_the_listing() {
    assert_eq!(
        scan_directory(&tests_directory()),
        Ok(FsObjectsList {
            files: vec!["tests/scanner_test.txt".to_string()],
            directories: vec!["tests/filesystem".to_string(), "tests/assetpackage".to_string()],
        })
    );
    assert_eq!(
        scan_directory(&directory("empty", vec![])),
        Ok(FsObjectsList { files: vec![], directories: vec![] })
    );
}

#[test]
fn recursive_scan_is_depth_first_with_own_files_first() {
    let tree = directory(
        "r",
        vec![
            DirectoryEntry::Directory(directory(
                "r/a",
                vec![
                    DirectoryEntry::Directory(directory("r/a/x", vec![file("r/a/x/1"), file("r/a/x/2")])),
                    file("r/a/3"),
                    DirectoryEntry::Directory(directory("r/a/y", vec![])),
                ],
            )),
            file("r/4"),
            DirectoryEntry::Unreadable,
            DirectoryEntry::Directory(directory("r/b", vec![file("r/b/5")])),
            DirectoryEntry::Special,
            file("r/6"),
        ],
    );
    assert_eq!(
        scan_directory_recursively(&tree),
        Ok(vec![
            "r/4".to_string(),
            "r/6".to_string(),
            "r/a/3".to_string(),
            "r/a/x/1".to_string(),
            "r/a/x/2".to_string(),
            "r/b/5".to_string(),
        ])
    );
    assert_eq!(scan_directory_recursively(&tests_directory()).unwrap().len(), 3);
}

#[test]
fn scan_of_what_is_no_directory_is_an_error() {
    let no_directory = Directory { path: "tests/file.txt".to_string(), listing: Listing::NotADirectory };
    assert_eq!(
        scan_directory(&no_directory),
        Err(FilesystemError::IsADirectory("tests/file.txt".to_string()))
    );
    assert_eq!(
        scan_directory_recursively(&no_directory),
        Err(FilesystemError::IsADirectory("tests/file.txt".to_string()))
    );
    let denied = Directory {
        path: "secret".to_string(),
        listing: Listing::Failed(FilesystemError::from(std::io::Error::from(
            std::io::ErrorKind::PermissionDenied,
        ))),
    };
    assert_eq!(
        scan_directory(&denied),
        Err(FilesystemError::PermissionDenied("secret".to_string()))
    );
}

#[test]
fn first_directory_that_cannot_be_listed_ends_the_scan() {
    let failed = |path: &str, kind: std::io::ErrorKind| {
        DirectoryEntry::Directory(Directory {
            path: path.to_string(),
            listing: Listing::Failed(FilesystemError::from(std::io::Error::from(kind))),
        })
    };
    let tree = directory(
        "r",
        vec![
            file("r/1"),
            DirectoryEntry::Directory(directory(
                "r/a",
                vec![file("r/a/2"), failed("r/a/deep", std::io::ErrorKind::PermissionDenied)],
            )),
            failed("r/b", std::io::ErrorKind::NotFound),
        ],
    );
    assert_eq!(
        scan_directory_recursively(&tree),
        Err(FilesystemError::PermissionDenied("r/a/deep".to_string()))
    );
    // The directory itself still lists.
    assert_eq!(scan_directory(&tree).unwrap().files, vec!["r/1".to_string()]);
}

#[test]
fn paths_of_package_and_index() {
    let packager = Packager::new("out", "p");
    assert_eq!(packager.path(), "out/p.oap");
    assert_eq!(packager.index_path(), "out/p.oroi");
    assert_eq!(packager.current_size(), 0);
    assert_eq!(Packager::new("out/", "p").path(), "out/p.oap");
    assert_eq!(Packager::new("", "p").index_path(), "p.oroi");
    assert_eq!(join_path("a/b", "c"), "a/b/c");
    assert_eq!(join_path("/", "c"), "/c");
    assert_eq!(join_path("", ""), "");
}

fn located(package: &str, starting_index: u64, file_size: u64) -> IndexType {
    IndexType::AssetPack(AssetPackIndex { package: package.to_string(), starting_index, file_size })
}

/// A checker for the directory `in`, which lies at `/work/in`.
fn input_checker() -> BoundChecker {
    BoundChecker::new("in", Ok("/work/in".to_string())).unwrap()
}

/// Adds the file `in/<name>` as a copy of `length` bytes.
fn add(packager: &mut Packager, name: &str, length: u64) -> FilesystemResult<()> {
    packager.append_file(
        &input_checker(),
        &format!("in/{}", name),
        Ok(format!("/work/in/{}", name)),
        CopyOutcome::Copied(length),
    )
}

#[test]
fn files_lie_one_behind_the_other() -> FilesystemResult<()> {
    let a: Vec<u8> = (0u8..10).collect();
    let b: Vec<u8> = (100u8..120).collect();
    let mut blob: Vec<u8> = Vec::new();
    let mut packager = Packager::new("out", "p");

    blob.extend_from_slice(&a);
    add(&mut packager, "a", 10)?;
    assert_eq!(packager.current_size(), 10);
    blob.extend_from_slice(&b);
    add(&mut packager, "b", 20)?;
    assert_eq!(packager.current_size(), 30);

    let map: AssetMap = packager.into_index();
    assert_eq!(map.len(), 2);
    assert_eq!(map.get("a"), Some(&located("p.oap", 0, 10)));
    assert_eq!(map.get("b"), Some(&located("p.oap", 10, 20)));

    for (path, want) in [("a", &a), ("b", &b)] {
        let IndexType::AssetPack(index) = map.get(path).unwrap() else {
            panic!("a packed file lies in the package");
        };
        let start = index.starting_index as usize;
        let end = start + index.file_size as usize;
        assert_eq!(&assetpackage::read(path, index, Ok(blob[start..end].to_vec()))?, want);
    }
    assert_eq!(&blob[0..10], &a[..]);
    assert_eq!(&blob[10..30], &b[..]);
    Ok(())
}

#[test]
fn empty_files_take_no_room() -> FilesystemResult<()> {
    let mut packager = Packager::new("", "p");
    add(&mut packager, "a", 0)?;
    add(&mut packager, "b", 5)?;
    add(&mut packager, "c", 0)?;
    add(&mut packager, "d", u64::MAX - 5)?;
    assert_eq!(packager.current_size(), u64::MAX);
    let map = packager.into_index();
    assert_eq!(map.get("a"), Some(&located("p.oap", 0, 0)));
    assert_eq!(map.get("b"), Some(&located("p.oap", 0, 5)));
    assert_eq!(map.get("c"), Some(&located("p.oap", 5, 0)));
    assert_eq!(map.get("d"), Some(&located("p.oap", 5, u64::MAX - 5)));
    Ok(())
}

#[test]
fn two_files_with_one_relative_path_are_an_error() -> FilesystemResult<()> {
    let mut packager = Packager::new("out", "p");
    add(&mut packager, "a", 3)?;
    // A second name for the same file resolves to the same canonical path.
    assert_eq!(
        packager.append_file(
            &input_checker(),
            "in/link/a",
            Ok("/work/in/a".to_string()),
            CopyOutcome::Copied(4)
        ),
        Err(FilesystemError::DuplicatePathsInIndex("a".to_string()))
    );
    assert_eq!(packager.current_size(), 3);
    assert_eq!(packager.into_index().get("a"), Some(&located("p.oap", 0, 3)));
    Ok(())
}

#[test]
fn failed_copy_records_nothing() -> FilesystemResult<()> {
    let mut packager = Packager::new("out", "p");
    add(&mut packager, "a", 3)?;
    let denied = || FilesystemError::from(std::io::Error::from(std::io::ErrorKind::PermissionDenied));
    let resolved = || Ok("/work/in/b".to_string());
    let checker = input_checker();
    assert_eq!(
        packager.append_file(&checker, "in/b", resolved(), CopyOutcome::SourceFailed(denied())),
        Err(FilesystemError::PermissionDenied("in/b".to_string()))
    );
    assert_eq!(
        packager.append_file(&checker, "in/b", resolved(), CopyOutcome::OutputFailed(denied())),
        Err(FilesystemError::PermissionDenied("out/p.oap".to_string()))
    );
    assert_eq!(
        packager.append_file(&checker, "in/b", Err(denied()), CopyOutcome::Copied(1)),
        Err(FilesystemError::PermissionDenied("in/b".to_string()))
    );
    assert_eq!(packager.current_size(), 3);
    assert_eq!(packager.index_text()?, r#"[{"path":"a","index":{"package":"p.oap","starting_index":0,"file_size":3}}]"#);
    Ok(())
}

#[test]
fn file_outside_the_input_directory_ends_the_packing() {
    let tree = directory("tests", vec![file("tests/scanner_test.txt"), file("tests/escaped")]);
    let canonical = |path: &str| -> FilesystemResult<String> {
        match path {
            "tests" => Ok("/project/tests".to_string()),
            "tests/scanner_test.txt" => Ok("/project/tests/scanner_test.txt".to_string()),
            "tests/escaped" => Ok("/etc/passwd".to_string()),
            _ => Err(not_found()),
        }
    };
    let bound_checker = BoundChecker::new("tests", canonical("tests")).unwrap();
    let files = scan_directory_recursively(&tree).unwrap();
    let relative: Vec<FilesystemResult<String>> =
        files.iter().map(|f| bound_checker.get_relative_string(f, canonical(f))).collect();
    assert_eq!(relative[0], Ok("scanner_test.txt".to_string()));
    let outside =
        FilesystemError::OutOfBounds("/etc/passwd".to_string(), "/project/tests".to_string());
    assert_eq!(relative[1], Err(outside.clone()));

    // Even a file that was copied is not recorded when it lies outside.
    let mut packager = Packager::new("out", "p");
    for f in &files {
        let r = packager.append_file(&bound_checker, f, canonical(f), CopyOutcome::Copied(4));
        if f == "tests/escaped" {
            assert_eq!(r, Err(outside.clone()));
        } else {
            assert_eq!(r, Ok(()));
        }
    }
    assert_eq!(packager.current_size(), 4);
    let map = packager.into_index();
    assert_eq!(map.len(), 1);
    assert!(map.contains_key("scanner_test.txt"));
}

#[test]
fn pack_two_files_and_read_one_back() -> FilesystemResult<()> {
    let tree = directory("in", vec![file("in/hello.txt"), file("in/world.txt")]);
    let content = |path: &str| -> &'static [u8] {
        match path {
            "in/hello.txt" => b"hi",
            _ => b"there",
        }
    };
    let bound_checker = BoundChecker::new("in", Ok("/work/in".to_string()))?;
    let mut packager = Packager::new("out", "p");
    let mut blob: Vec<u8> = Vec::new();
    for path in scan_directory_recursively(&tree)? {
        let canonical = || Ok(format!("/work/{}", path));
        bound_checker.get_relative_string(&path, canonical())?;
        blob.extend_from_slice(content(&path));
        let copied = CopyOutcome::Copied(content(&path).len() as u64);
        packager.append_file(&bound_checker, &path, canonical(), copied)?;
    }
    assert_eq!(blob, b"hithere");
    assert_eq!(packager.path(), "out/p.oap");
    let index_path = packager.index_path();
    assert_eq!(index_path, "out/p.oroi");
    let index_text = packager.index_text()?;
    assert_eq!(
        index_text,
        r#"[{"path":"hello.txt","index":{"package":"p.oap","starting_index":0,"file_size":2}},{"path":"world.txt","index":{"package":"p.oap","starting_index":2,"file_size":5}}]"#
    );

    let entries = IndexFile::from_str(&index_text)?.files;
    assert_eq!(entries.len(), 2);
    assert_eq!(entries[0].path(), "hello.txt");
    assert_eq!(entries[0].index(), located("p.oap", 0, 2));
    assert_eq!(entries[1].path(), "world.txt");
    assert_eq!(entries[1].index(), located("p.oap", 2, 5));

    let source = IndexSource { path: index_path, contents: Ok(index_text) };
    let config = FilesystemConfig::with_root("out", Some(source))?;
    let wanted = request("world.txt", &config)?;
    assert_eq!(
        wanted,
        ReadRequest::PackageRange { file: "out/p.oap".to_string(), offset: 2, length: 5 }
    );
    assert_eq!(read("world.txt", &config, Ok(blob[2..7].to_vec()))?, b"there");
    assert_eq!(read_to_string("world.txt", &config, Ok(blob[2..7].to_vec()))?, "there");
    Ok(())
}
