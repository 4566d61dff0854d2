use submatch::error::SetupError;
use submatch::run::{run, Config};

#[test]
fn default_config() {
    let c = Config::new("media".to_string());
    assert_eq!("media", c.dir);
    assert_eq!(
        vec![
            r"(?i)S0(\d{1})(?i)E(\d{2})".to_string(),
            r"(?i)S(\d{1})(?i)E(\d{2})".to_string(),
            r"(\d{1})(?i)x(\d{2})".to_string(),
            r"(\d{1})(\d{2})".to_string(),
        ],
        c.patterns
    );
    assert_eq!(vec!["srt".to_string(), "ass".to_string()], c.sub_exts);
    assert_eq!(vec!["mkv".to_string(), "mp4".to_string()], c.ep_exts);
}

#[test]
fn end_to_end_subtitle_already_beside_episode() {
    let c = Config::new("dir".to_string());
    let listing = vec![
        "dir/Show.S01E01.mkv".to_string(),
        "dir/Show.S01E01.srt".to_string(),
        "dir/Show.S01E02.mkv".to_string(),
    ];
    let copies = run(&c, &listing).unwrap();
    // The subtitle already sits where the first episode wants it.
    assert_eq!(0, copies.len());
}

#[test]
fn end_to_end_copies_subtitle_beside_episode() {
    let c = Config::new("dir".to_string());
    let listing = vec![
        "dir/Show.S01E01.mkv".to_string(),
        "dir/show.s01e01.eng.srt".to_string(),
        "dir/Show.S01E02.mkv".to_string(),
        "dir/notes.txt".to_string(),
    ];
    let copies = run(&c, &listing).unwrap();
    assert_eq!(1, copies.len());
    assert_eq!("dir/show.s01e01.eng.srt", copies[0].source);
    assert_eq!("dir/Show.S01E01.srt", copies[0].destination);
}

#[test]
fn run_second_time_is_idempotent() {
    let c = Config::new("dir".to_string());
    let listing = vec![
        "dir/Show.S01E01.srt".to_string(),
        "dir/Show.S01E01.mkv".to_string(),
        "dir/other.S01E01.ass".to_string(),
    ];
    assert_eq!(0, run(&c, &listing).unwrap().len());
}

#[test]
fn run_fails_on_invalid_pattern() {
    let mut c = Config::new("dir".to_string());
    c.patterns = vec![r"S(\d{2})".to_string(), r"\d{".to_string()];
    match run(&c, &vec!["dir/S01.srt".to_string()]) {
        Err(SetupError::InvalidPattern { pattern }) => assert_eq!(r"\d{", pattern),
        Ok(_) => panic!("expected an error"),
    }
}
