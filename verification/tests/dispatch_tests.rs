use oro_filesystem::config::IndexSource;
use oro_filesystem::read;
use oro_filesystem::read_to_string;
use oro_filesystem::request;
use oro_filesystem::Failure;
use oro_filesystem::FilesystemConfig;
use oro_filesystem::FilesystemError;
use oro_filesystem::FilesystemResult;
use oro_filesystem::ReadRequest;

const PACKAGE_INDEX: &str = r#"[
    {"path":"virtualFolder/vfile1.txt","index":{"package":"package.oap","starting_index":0,"file_size":28}},
    {"path":"virtualFolder/vfile1-copy.txt","index":{"package":"package.oap","starting_index":28,"file_size":28}},
    {"path":"otherFolder/someScript.lua","index":{"package":"package.oap","starting_index":56,"file_size":57}},
    {"path":"binaries/example.bin","index":{"package":"package.oap","starting_index":113,"file_size":13}},
    {"path":"broken/too_long.bin","index":{"package":"package.oap","starting_index":120,"file_size":7}},
    {"path":"broken/no_package.bin","index":{"package":"missing.oap","starting_index":0,"file_size":1}}
]"#;

const PACKAGE: &str = "hello, world! This is a testhello, world! This is a testWhen The imposter is sus!! This is a script or something.Hello, World!";

const AURA_INDEX: &str = r#"[
    {"path":"virtualFolder/vfile1.txt","index":{"url":"https://pastebin.com/raw/t0qjYDWt","hash":null}},
    {"path":"virtualFolder/vfile1-copy.txt","index":{"url":"https://pastebin.com/raw/t0qjYDWt","hash":null}},
    {"path":"binaries/example.bin","index":{"url":"https://pastebin.com/raw/eQe9aqfZ","hash":null}},
    {"path":"broken/unreachable.bin","index":{"url":"https://nowhere.invalid/x","hash":"00"}}
]"#;

const README: &str = "# ORO Filesystem\n";

/// The files that the tests find on disk.
fn file(path: &str) -> Option<&'static [u8]> {
    match path {
        "./README.md" => Some(README.as_bytes()),
        "tests/assetpackage/indices.oroi" => Some(PACKAGE_INDEX.as_bytes()),
        "tests/assetpackage/package.oap" => Some(PACKAGE.as_bytes()),
        "tests/aura/indices.oroi" => Some(AURA_INDEX.as_bytes()),
        "tests/filesystem/testfile.txt" => Some(b"Hello, World!"),
        "tests/filesystem/binary.bin" => Some(&[0xff, 0xfe]),
        _ => None,
    }
}

/// The children of the directories that the tests list.
fn children_of(root: &str) -> Result<Vec<Option<String>>, String> {
    match root {
        "./" => Ok(vec![Some("./README.md".to_string()), Some("./src".to_string())]),
        "tests/assetpackage/" => Ok(vec![
            Some("tests/assetpackage/indices.oroi".to_string()),
            Some("tests/assetpackage/package.oap".to_string()),
        ]),
        "tests/aura/" => Ok(vec![Some("tests/aura/indices.oroi".to_string())]),
        "tests/filesystem/" => Ok(vec![Some("tests/filesystem/testfile.txt".to_string())]),
        _ => Err("No such file or directory (os error 2)".to_string()),
    }
}

fn not_found() -> FilesystemError {
    FilesystemError::from(std::io::Error::from(std::io::ErrorKind::NotFound))
}

/// Serves a request as a caller does, from the files and addresses above.
fn serve(wanted: &ReadRequest) -> Result<Vec<u8>, Failure> {
    match wanted {
        ReadRequest::File { path } => match file(path) {
            Some(bytes) => Ok(bytes.to_vec()),
            None => Err(Failure::Io(not_found())),
        },
        ReadRequest::PackageRange { file: package, offset, length } => match file(package) {
            Some(bytes) => {
                let start = (*offset as usize).min(bytes.len());
                let end = start.saturating_add(*length as usize).min(bytes.len());
                Ok(bytes[start..end].to_vec())
            }
            None => Err(Failure::Io(not_found())),
        },
        ReadRequest::Fetch { url } => match url.as_str() {
            "https://pastebin.com/raw/t0qjYDWt" => Ok(
                "Hello, if you fetched this file from an Aura file, that means that ORO Filesystem is working!!"
                    .as_bytes()
                    .to_vec(),
            ),
            "https://pastebin.com/raw/eQe9aqfZ" => Ok(b"Hello, World!".to_vec()),
            _ => Err(Failure::Transport("error sending request".to_string())),
        },
    }
}

fn with_root(root: &str) -> FilesystemResult<FilesystemConfig> {
    let usable = FilesystemConfig::get_usable_root(root);
    let found = FilesystemConfig::autodetect_filesystem(&usable, children_of(&usable))?;
    let source = found.map(|path| {
        let contents = match file(&path) {
            Some(bytes) => Ok(String::from_utf8(bytes.to_vec()).unwrap()),
            None => Err(not_found()),
        };
        IndexSource { path, contents }
    });
    FilesystemConfig::with_root(root, source)
}

fn text(path: &str, config: &FilesystemConfig) -> FilesystemResult<String> {
    let wanted = request(path, config)?;
    read_to_string(path, config, serve(&wanted))
}

fn bytes(path: &str, config: &FilesystemConfig) -> FilesystemResult<Vec<u8>> {
    let wanted = request(path, config)?;
    read(path, config, serve(&wanted))
}

/// not much to test here
#[test]
fn read_from_real_filesystem() -> FilesystemResult<()> {
    let config = with_root("")?;
    let _contents = text("README.md", &config)?;
    Ok(())
}

#[test]
fn read_from_asset_pack() -> FilesystemResult<()> {
    let config = with_root("tests/assetpackage")?;
    let contents_f1 = text("virtualFolder/vfile1.txt", &config)?;
    let contents_f2 = text("virtualFolder/vfile1-copy.txt", &config)?;
    let contents_f3 = text("otherFolder/someScript.lua", &config)?;

    let contents_bin = bytes("binaries/example.bin", &config)?;
    let expected_bin = vec![0x48, 0x65, 0x6C, 0x6C, 0x6F, 0x2C, 0x20, 0x57, 0x6F, 0x72, 0x6C, 0x64, 0x21];

    assert_eq!(contents_f1, "hello, world! This is a test");
    assert_eq!(contents_f2, "hello, world! This is a test");
    assert_eq!(contents_f3, "When The imposter is sus!! This is a script or something.");

    assert_eq!(contents_bin, expected_bin);
    Ok(())
}

#[test]
fn read_from_aura() -> FilesystemResult<()> {
    let config = with_root("tests/aura")?;
    let contents_f1 = text("virtualFolder/vfile1.txt", &config)?;
    let contents_f2 = text("virtualFolder/vfile1-copy.txt", &config)?;

    let contents_bin = bytes("binaries/example.bin", &config)?;
    let expected_bin = vec![0x48, 0x65, 0x6C, 0x6C, 0x6F, 0x2C, 0x20, 0x57, 0x6F, 0x72, 0x6C, 0x64, 0x21];

    assert_eq!(contents_f1, "Hello, if you fetched this file from an Aura file, that means that ORO Filesystem is working!!");
    assert_eq!(contents_f2, "Hello, if you fetched this file from an Aura file, that means that ORO Filesystem is working!!");

    assert_eq!(contents_bin, expected_bin);
    Ok(())
}

#[test]
fn requests_say_what_to_read() -> FilesystemResult<()> {
    let plain = with_root("tests/filesystem")?;
    assert_eq!(
        request("testfile.txt", &plain),
        Ok(ReadRequest::File { path: "tests/filesystem/testfile.txt".to_string() })
    );
    let packed = with_root("tests/assetpackage")?;
    assert_eq!(
        request("otherFolder/someScript.lua", &packed),
        Ok(ReadRequest::PackageRange {
            file: "tests/assetpackage/package.oap".to_string(),
            offset: 56,
            length: 57
        })
    );
    let web = with_root("tests/aura")?;
    assert_eq!(
        request("binaries/example.bin", &web),
        Ok(ReadRequest::Fetch { url: "https://pastebin.com/raw/eQe9aqfZ".to_string() })
    );
    Ok(())
}

#[test]
fn path_that_an_index_lacks_is_not_found() -> FilesystemResult<()> {
    for root in ["tests/assetpackage", "tests/aura"] {
        let config = with_root(root)?;
        for path in ["nothing", "", "virtualFolder", "virtualFolder/vfile1.txt/", "indices.oroi"] {
            let missing = FilesystemError::NotFound(path.to_string());
            assert_eq!(request(path, &config), Err(missing.clone()));
            assert_eq!(get_bytes(path, &config, Ok(vec![1, 2, 3])), Err(missing.clone()));
            assert_eq!(
                read_to_string(path, &config, Err(Failure::Transport("x".to_string()))),
                Err(missing)
            );
        }
    }
    Ok(())
}

fn get_bytes(
    path: &str,
    config: &FilesystemConfig,
    outcome: Result<Vec<u8>, Failure>,
) -> FilesystemResult<Vec<u8>> {
    read(path, config, outcome)
}

#[test]
fn plain_directory_passes_every_path_on() -> FilesystemResult<()> {
    let config = with_root("tests/filesystem")?;
    for path in ["testfile.txt", "nothing", "", "../escape", "a/b/c"] {
        let place = format!("tests/filesystem/{}", path);
        assert_eq!(request(path, &config), Ok(ReadRequest::File { path: place.clone() }));
        assert_eq!(get_bytes(path, &config, Ok(vec![7])), Ok(vec![7]));
    }
    // What the platform does not find is the platform's not-found, with the
    // path at which it looked.
    assert_eq!(
        bytes("nothing", &config),
        Err(FilesystemError::NotFound("tests/filesystem/nothing".to_string()))
    );
    assert_eq!(text("testfile.txt", &config), Ok("Hello, World!".to_string()));
    assert!(matches!(
        text("binary.bin", &config),
        Err(FilesystemError::Generic(place, _)) if place == "tests/filesystem/binary.bin"
    ));
    Ok(())
}

#[test]
fn short_package_is_an_unexpected_end_of_file() -> FilesystemResult<()> {
    let config = with_root("tests/assetpackage")?;
    assert_eq!(
        bytes("broken/too_long.bin", &config),
        Err(FilesystemError::UnexpectedEof("broken/too_long.bin".to_string()))
    );
    assert_eq!(
        text("broken/too_long.bin", &config),
        Err(FilesystemError::UnexpectedEof("broken/too_long.bin".to_string()))
    );
    Ok(())
}

#[test]
fn missing_package_carries_the_virtual_path() -> FilesystemResult<()> {
    let config = with_root("tests/assetpackage")?;
    assert_eq!(
        bytes("broken/no_package.bin", &config),
        Err(FilesystemError::NotFound("broken/no_package.bin".to_string()))
    );
    Ok(())
}

#[test]
fn failed_fetch_carries_the_url() -> FilesystemResult<()> {
    let config = with_root("tests/aura")?;
    let failed = FilesystemError::FetchError(
        "https://nowhere.invalid/x".to_string(),
        "error sending request".to_string(),
    );
    assert_eq!(bytes("broken/unreachable.bin", &config), Err(failed.clone()));
    assert_eq!(text("broken/unreachable.bin", &config), Err(failed));
    Ok(())
}

#[test]
fn failures_of_the_other_kind_are_kept() -> FilesystemResult<()> {
    let web = with_root("tests/aura")?;
    assert_eq!(
        get_bytes("binaries/example.bin", &web, Err(Failure::Io(not_found()))),
        Err(FilesystemError::FetchError(
            "https://pastebin.com/raw/eQe9aqfZ".to_string(),
            "Couldn't find file at \"[unspecified]\"".to_string()
        ))
    );
    let packed = with_root("tests/assetpackage")?;
    assert_eq!(
        get_bytes("binaries/example.bin", &packed, Err(Failure::Transport("reset".to_string()))),
        Err(FilesystemError::Generic("binaries/example.bin".to_string(), "reset".to_string()))
    );
    let plain = with_root("tests/filesystem")?;
    assert_eq!(
        get_bytes("a", &plain, Err(Failure::Transport("reset".to_string()))),
        Err(FilesystemError::Generic("tests/filesystem/a".to_string(), "reset".to_string()))
    );
    Ok(())
}
