use submatch::file::FileInfoConstructor;
use submatch::key::Extractor;

struct TestKeyExtractor {
    key: Option<String>,
}

impl Extractor for TestKeyExtractor {
    fn extract(&self, _: &str) -> Option<String> {
        return self.key.clone();
    }
}

#[test]
fn test_gen_fileinfo_without_extension() {
    let key_extractor = TestKeyExtractor { key: None };

    let fileinfo_constructor = FileInfoConstructor::new(&key_extractor);

    let filepath = "test";
    let fileinfo = fileinfo_constructor.gen_fileinfo(filepath, &vec!["txt".to_string()]);
    assert_eq!(true, fileinfo.is_ok());
    assert_eq!(true, fileinfo.unwrap().is_none());
}

#[test]
fn test_gen_fileinfo_extension_miss() {
    let key_extractor = TestKeyExtractor { key: None };

    let fileinfo_constructor = FileInfoConstructor::new(&key_extractor);

    let filepath = "test.txt";
    let fileinfo = fileinfo_constructor.gen_fileinfo(filepath, &vec!["png".to_string()]);
    assert_eq!(true, fileinfo.is_ok());
    assert_eq!(true, fileinfo.unwrap().is_none());
}

#[test]
fn test_gen_fileinfo_extractor_none() {
    let key_extractor = TestKeyExtractor { key: None };

    let fileinfo_constructor = FileInfoConstructor::new(&key_extractor);

    let filepath = "test.txt";
    let fileinfo = fileinfo_constructor.gen_fileinfo(filepath, &vec!["txt".to_string()]);
    assert_eq!(true, fileinfo.is_ok());
    assert_eq!(true, fileinfo.unwrap().is_none());
}

#[test]
fn test_fileinfo_constructor() {
    let key = "test_key";
    let key_extractor = TestKeyExtractor {
        key: Some(key.to_string()),
    };

    let fileinfo_constructor = FileInfoConstructor::new(&key_extractor);

    let filepath = "./dir/test.txt";
    let fileinfo = fileinfo_constructor.gen_fileinfo(filepath, &vec!["txt".to_string()]);
    assert_eq!(true, fileinfo.is_ok());

    let fileinfo = fileinfo.unwrap();
    assert_eq!(true, fileinfo.is_some());

    let fileinfo = fileinfo.unwrap();
    println!("return file info: {:?}", fileinfo);
    assert_eq!(filepath.to_string(), fileinfo.filepath);
    assert_eq!("txt", fileinfo.extension);
    assert_eq!(key, fileinfo.key);
}

#[test]
fn gen_fileinfo_skips_empty_key() {
    let key_extractor = TestKeyExtractor {
        key: Some(String::new()),
    };
    let fileinfo_constructor = FileInfoConstructor::new(&key_extractor);
    let fileinfo = fileinfo_constructor.gen_fileinfo("a/b.srt", &vec!["srt".to_string()]);
    assert!(fileinfo.unwrap().is_none());
}

#[test]
fn gen_fileinfo_extension_is_case_exact() {
    let key_extractor = TestKeyExtractor {
        key: Some("k".to_string()),
    };
    let fileinfo_constructor = FileInfoConstructor::new(&key_extractor);
    let fileinfo = fileinfo_constructor.gen_fileinfo("a/b.SRT", &vec!["srt".to_string()]);
    assert!(fileinfo.unwrap().is_none());
}

#[test]
fn gen_fileinfo_picks_matching_extension() {
    let key_extractor = TestKeyExtractor {
        key: Some("k".to_string()),
    };
    let fileinfo_constructor = FileInfoConstructor::new(&key_extractor);
    let exts = vec!["srt".to_string(), "ass".to_string()];
    let fileinfo = fileinfo_constructor
        .gen_fileinfo("/media/show.ass", &exts)
        .unwrap()
        .unwrap();
    assert_eq!("/media/show.ass", fileinfo.filepath);
    assert_eq!("ass", fileinfo.extension);
    assert_eq!("k", fileinfo.key);
}

#[test]
fn from_paths_keeps_listing_order() {
    let key_extractor = TestKeyExtractor {
        key: Some("k".to_string()),
    };
    let fileinfo_constructor = FileInfoConstructor::new(&key_extractor);
    let paths = vec![
        "d/b.srt".to_string(),
        "d/a.mkv".to_string(),
        "d/noext".to_string(),
        "d/a.srt".to_string(),
    ];
    let entries = fileinfo_constructor.from_paths(&paths, &vec!["srt".to_string()]);
    assert_eq!(2, entries.len());
    assert_eq!("d/b.srt", entries[0].filepath);
    assert_eq!("d/a.srt", entries[1].filepath);
}
