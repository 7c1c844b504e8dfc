use archive_metadata::{Metadata, MetadataData, MetadataError, MetadataFile};

fn file(name: &str) -> MetadataFile {
    MetadataFile {
        name: name.to_string(),
        source: "original".to_string(),
        format: "Windows Executable".to_string(),
        mtime: Some("1037045011".to_string()),
        size: Some("47448064".to_string()),
        md5: None,
        crc32: None,
        sha1: None,
    }
}

fn item(names: &[&str]) -> Metadata {
    Metadata {
        created: 1700000000,
        d1: "ia800000.us.archive.org".to_string(),
        d2: "ia600000.us.archive.org".to_string(),
        dir: "/0/items/QuakeIiiArenaDemo".to_string(),
        files: names.iter().map(|n| file(n)).collect(),
        files_count: names.len() as u64,
        item_last_updated: 1600000000,
        item_size: 47448064,
        metadata: MetadataData {
            mediatype: "software".to_string(),
            title: "Quake III Arena Demo".to_string(),
        },
        server: "ia800000.us.archive.org".to_string(),
        uniq: 42,
        workable_servers: vec!["ia800000.us.archive.org".to_string()],
    }
}

#[test]
fn quake_demo_url() {
    let m = item(&["QuakeIiiArenaDemo_meta.xml", "Q3ADemo.exe"]);
    let url = m.fileurl_get("Q3ADemo.exe").unwrap();
    assert_eq!(url, "https://ia800000.us.archive.org/0/items/QuakeIiiArenaDemo/Q3ADemo.exe");
}

#[test]
fn file_exist_exact_match() {
    let m = item(&["a.txt", "Q3ADemo.exe"]);
    assert!(m.file_exist("Q3ADemo.exe"));
    assert!(m.file_exist("a.txt"));
    assert!(!m.file_exist("q3ademo.exe"));
    assert!(!m.file_exist("Q3ADemo.exe "));
    assert!(!m.file_exist(""));
}

#[test]
fn file_exist_empty_list() {
    let m = item(&[]);
    assert!(!m.file_exist("Q3ADemo.exe"));
    assert!(matches!(m.fileurl_get("Q3ADemo.exe"), Err(MetadataError::FileNotFound { .. })));
}

#[test]
fn file_exist_duplicate_names() {
    let m = item(&["x.bin", "x.bin"]);
    assert!(m.file_exist("x.bin"));
    assert_eq!(m.fileurl_get("x.bin").unwrap(), "https://ia800000.us.archive.org/0/items/QuakeIiiArenaDemo/x.bin");
}

#[test]
fn missing_file_is_file_not_found() {
    let m = item(&["Q3ADemo.exe"]);
    match m.fileurl_get("Q3ADEMO.EXE") {
        Err(MetadataError::FileNotFound { filename }) => assert_eq!(filename, "Q3ADEMO.EXE"),
        other => panic!("unexpected {:?}", other),
    }
}

#[test]
fn url_escapes_reserved_and_non_ascii() {
    let name = "my file/ä+b~c-d_e.zip";
    let m = item(&[name]);
    let url = m.fileurl_get(name).unwrap();
    assert_eq!(
        url,
        "https://ia800000.us.archive.org/0/items/QuakeIiiArenaDemo/my%20file%2F%C3%A4%2Bb~c-d_e.zip"
    );
}

#[test]
fn url_segment_decodes_to_name() {
    let name = "Disc 1/Track #3 (50%).flac";
    let m = item(&[name]);
    let url = m.fileurl_get(name).unwrap();
    let prefix = "https://ia800000.us.archive.org/0/items/QuakeIiiArenaDemo/";
    assert!(url.starts_with(prefix));
    let segment = &url[prefix.len()..];
    assert!(!segment.contains('/'));
    assert_eq!(urlencoding::decode(segment).unwrap(), name);
}

#[test]
fn request_url_is_endpoint_and_item() {
    assert_eq!(Metadata::request_url("QuakeIiiArenaDemo"), "https://archive.org/metadata/QuakeIiiArenaDemo");
    assert_eq!(Metadata::request_url("a b"), "https://archive.org/metadata/a b");
}

#[test]
fn download_body_passes_through() {
    let r = Metadata::from_download("https://archive.org/metadata/x", Ok("{}".to_string()));
    assert_eq!(r.unwrap(), "{}");
}

#[test]
fn bad_request_is_download_failed() {
    let url = "not a url";
    let body = reqwest::blocking::Client::new().get(url).send().and_then(|r| r.text());
    assert!(body.is_err());
    match Metadata::from_download(url, body) {
        Err(MetadataError::DownloadFailed { filename, .. }) => assert_eq!(filename, url),
        other => panic!("unexpected {:?}", other),
    }
}

#[test]
fn refused_connection_is_download_failed() {
    let url = "http://127.0.0.1:1/metadata/x";
    let body = reqwest::blocking::Client::new().get(url).send().and_then(|r| r.text());
    match Metadata::from_download(url, body) {
        Err(MetadataError::DownloadFailed { filename, .. }) => assert_eq!(filename, url),
        other => panic!("unexpected {:?}", other),
    }
}

#[test]
fn malformed_json_is_parse_failed() {
    let err = serde_json::from_str::<serde_json::Value>("{\"created\": ").unwrap_err();
    assert!(matches!(Metadata::from_parse(Err(err)), Err(MetadataError::ParseFailed { .. })));
}

#[test]
fn parsed_record_passes_through() {
    let m = Metadata::from_parse(Ok(item(&["Q3ADemo.exe"]))).unwrap();
    assert_eq!(m.files.len(), 1);
    assert_eq!(m.files[0].name, "Q3ADemo.exe");
    assert_eq!(m.uniq, 42);
    assert_eq!(m.d1, "ia800000.us.archive.org");
}
