use submatch::key::{key_from_captures, Extractor, Pattern, RegexExtractor};
use submatch::error::SetupError;

#[test]
fn test_bad_regex_extractor() {
    let e = RegexExtractor::new(&vec![r"\d{".to_string()]);
    assert!(e.is_err());
    println!("return err: {:?}", e.err().unwrap());
}

#[test]
fn test_regex_extractor() {
    let e = RegexExtractor::new(&vec![]).unwrap();
    assert_eq!(None, e.extract(""));

    let e = RegexExtractor::new(&vec![
        r"S(\d{2})E(\d{2})".to_string(),
        r"(\d{4})-(\d{2})-(\d{2})".to_string(),
    ])
    .unwrap();
    assert_eq!(None, e.extract(""));

    let e = RegexExtractor::new(&vec![
        r"S(\d{2})E(\d{2})".to_string(),
        r"(\d{4})-(\d{2})-(\d{2})".to_string(),
    ])
    .unwrap();
    assert_eq!(Some("2021-02-14".to_string()), e.extract("2021-02-14"));

    let e = RegexExtractor::new(&vec![
        r"S(\d{2})E(\d{2})".to_string(),
        r"(\d{4})-(\d{2})-(\d{2})".to_string(),
    ])
    .unwrap();
    assert_eq!(
        Some("01-01".to_string()),
        e.extract("PBS.The.Brain.with.David.Eagleman.S01E01.What.is.Reality.720p.x264.HEVCguy.eng.srt")
    );

    let e = RegexExtractor::new(&vec![
        r"(?i)S0(\d{1})(?i)E(\d{2})".to_string(),
        r"(?i)S(\d{1})(?i)E(\d{2})".to_string(),
        r"(\d{1})(?i)x(\d{2})".to_string(),
        r"(\d{1})(\d{2})".to_string(),
    ])
    .unwrap();
    assert_eq!(
        Some("4-02".to_string()),
        e.extract("九号秘事S4E02.1080p.orange字幕组.简体&英文.srt")
    );
}

#[test]
fn invalid_pattern_names_first_bad_pattern() {
    let e = RegexExtractor::new(&vec![
        r"(\d)".to_string(),
        r"(".to_string(),
        r"\d{".to_string(),
    ]);
    match e {
        Err(SetupError::InvalidPattern { pattern }) => assert_eq!("(", pattern),
        Ok(_) => panic!("expected an error"),
    }
}

#[test]
fn invalid_pattern_message() {
    let e = SetupError::InvalidPattern {
        pattern: "(".to_string(),
    };
    assert_eq!("invalid pattern: (", e.message());
}

#[test]
fn capture_join_season_episode() {
    let e = RegexExtractor::new(&vec![r"S(\d{2})E(\d{2})".to_string()]).unwrap();
    assert_eq!(Some("01-01".to_string()), e.extract("Show.S01E01.mkv"));
}

#[test]
fn no_match_is_not_an_empty_key() {
    let e = RegexExtractor::new(&vec![r"(\d{4})-(\d{2})-(\d{2})".to_string()]).unwrap();
    assert_eq!(None, e.extract(""));
}

#[test]
fn earlier_pattern_has_priority() {
    let e = RegexExtractor::new(&vec![r"(\d)(\d)".to_string(), r"(\d{3})".to_string()]).unwrap();
    assert_eq!(Some("1-2".to_string()), e.extract("x123"));
    let e = RegexExtractor::new(&vec![r"(\d{3})".to_string(), r"(\d)(\d)".to_string()]).unwrap();
    assert_eq!(Some("123".to_string()), e.extract("x123"));
}

#[test]
fn optional_groups_that_do_not_take_part_fall_through() {
    let e = RegexExtractor::new(&vec![r"x(a)?".to_string(), r"(\d+)".to_string()]).unwrap();
    assert_eq!(Some("42".to_string()), e.extract("x42"));
}

#[test]
fn only_first_occurrence_is_consulted() {
    let e = RegexExtractor::new(&vec![r"a(b)?".to_string(), r"(c)".to_string()]).unwrap();
    // The first "a" has no "b" after it; the later "ab" is not looked at.
    assert_eq!(Some("c".to_string()), e.extract("ac ab"));
}

#[test]
fn extraction_is_deterministic() {
    let e = RegexExtractor::new(&vec![r"S(\d{2})E(\d{2})".to_string()]).unwrap();
    assert_eq!(e.extract("a.S02E03.mkv"), e.extract("a.S02E03.mkv"));
}

#[test]
fn key_from_captures_joins_present_groups() {
    let groups = vec![
        Some("S01E01".to_string()),
        Some("01".to_string()),
        None,
        Some("01".to_string()),
    ];
    assert_eq!(Some("01-01".to_string()), key_from_captures(&groups));
}

#[test]
fn key_from_captures_without_groups() {
    assert_eq!(None, key_from_captures(&vec![Some("S01E01".to_string()), None]));
    assert_eq!(None, key_from_captures(&vec![Some("x".to_string())]));
    assert_eq!(None, key_from_captures(&vec![]));
}

#[test]
fn pattern_keeps_its_source() {
    let p = Pattern::new(r"(\d+)").unwrap();
    assert_eq!(r"(\d+)", p.as_str());
    assert!(Pattern::new("(").is_err());
}
