use escp::header::{FileStat, Header, HeaderStat};

fn pairs(stats: Vec<HeaderStat>) -> Vec<(String, String)> {
    stats.into_iter().map(|stat| (stat.title, stat.value)).collect()
}

fn pair(title: &str, value: &str) -> (String, String) {
    (title.to_string(), value.to_string())
}

#[test]
fn stat_has_title_and_value() {
    let stat = HeaderStat::new("File Size".to_string(), "1 KiB".to_string());
    assert_eq!(stat.title, "File Size");
    assert_eq!(stat.value, "1 KiB");
}

#[test]
fn rows_from_texts() {
    assert_eq!(
        pairs(HeaderStat::from_texts(Some("c".to_string()), Some("m".to_string()), "s".to_string())),
        vec![pair("Created", "c"), pair("Modified", "m"), pair("File Size", "s")]
    );
    assert_eq!(
        pairs(HeaderStat::from_texts(None, Some("m".to_string()), "s".to_string())),
        vec![pair("Modified", "m"), pair("File Size", "s")]
    );
    assert_eq!(
        pairs(HeaderStat::from_texts(Some("c".to_string()), None, "s".to_string())),
        vec![pair("Created", "c"), pair("File Size", "s")]
    );
    assert_eq!(
        pairs(HeaderStat::from_texts(None, None, String::new())),
        vec![pair("File Size", "")]
    );
}

#[test]
fn rows_of_a_file() {
    let stat = FileStat {
        created: Some(1_546_300_800_000_000_000),
        modified: Some(1_546_300_800_000_000_000 + 86_400_000_000_000 + 3_723_000_000_000),
        len: 1536,
    };
    assert_eq!(
        pairs(HeaderStat::from_stat(stat)),
        vec![
            pair("Created", "Tue, 01 Jan 2019 00:00:00 +0000"),
            pair("Modified", "Wed, 02 Jan 2019 01:02:03 +0000"),
            pair("File Size", "1.50 KiB"),
        ]
    );
}

#[test]
fn moments_that_cannot_be_written_are_left_out() {
    let early = FileStat { created: Some(-2_208_988_800_000_000_001), modified: Some(0), len: 0 };
    assert_eq!(
        pairs(HeaderStat::from_stat(early)),
        vec![pair("Modified", "Thu, 01 Jan 1970 00:00:00 +0000"), pair("File Size", "0 B")]
    );
    let beyond = FileStat { created: Some(i128::MAX), modified: Some(i128::MIN), len: 1 };
    assert_eq!(pairs(HeaderStat::from_stat(beyond)), vec![pair("File Size", "1 B")]);
    let first = FileStat { created: Some(-2_208_988_800_000_000_000), modified: None, len: 1 };
    assert_eq!(
        pairs(HeaderStat::from_stat(first)),
        vec![pair("Created", "Mon, 01 Jan 1900 00:00:00 +0000"), pair("File Size", "1 B")]
    );
}

#[test]
fn sizes_in_binary_units() {
    for (len, text) in [
        (0u64, "0 B"),
        (1023, "1023 B"),
        (1024, "1 KiB"),
        (1_048_576, "1 MiB"),
        (123_456_789, "117.74 MiB"),
        (u64::MAX, "16 EiB"),
    ] {
        let stat = FileStat { created: None, modified: None, len };
        assert_eq!(pairs(HeaderStat::from_stat(stat)), vec![pair("File Size", text)]);
    }
}

#[test]
fn unreadable_file_has_no_rows() {
    assert!(HeaderStat::from_file(None).is_empty());
    let stat = FileStat { created: None, modified: None, len: 2048 };
    assert_eq!(pairs(HeaderStat::from_file(Some(stat))), vec![pair("File Size", "2 KiB")]);
}

#[test]
fn title_of_a_header() {
    let asked = Some("Listing".to_string());
    assert_eq!(Header::for_file(Some("src/a.rs"), &asked, None).title, "Listing");
    assert_eq!(Header::for_file(None, &asked, None).title, "Listing");
    assert_eq!(Header::for_file(Some("src/a.rs"), &None, None).title, "src/a.rs");
    assert_eq!(Header::for_file(None, &None, None).title, "");
    assert!(Header::for_file(Some("src/a.rs"), &None, None).stats.is_empty());
    let stat = FileStat { created: None, modified: None, len: 10 };
    let header = Header::for_file(Some("a"), &None, Some(stat));
    assert_eq!(pairs(header.stats), vec![pair("File Size", "10 B")]);
}

#[test]
fn header_without_rows() {
    let header = Header { title: "t".to_string(), stats: Vec::new() };
    let mut out = b">".to_vec();
    header.print(&mut out);
    assert_eq!(out, b">\x1bw1\x1bEt\x1bF\x1bw0\n\x1ba2\x1ba0\n\n".to_vec());
}

#[test]
fn header_values_are_filled_up_to_the_widest() {
    let header = Header {
        title: "a.rs".to_string(),
        stats: vec![
            HeaderStat::new("Created".to_string(), "long value".to_string()),
            HeaderStat::new("File Size".to_string(), "1 B".to_string()),
        ],
    };
    let mut out = Vec::new();
    header.print(&mut out);
    let expected = format!(
        "\x1bw1{}{}{}\x1bw0\n\x1ba2{}{}: {:width$}{}\n{}{}: {:width$}{}\n\x1ba0\n\n",
        "\x1bE", "a.rs", "\x1bF", "\x1bE", "Created", "long value", "\x1bF", "\x1bE", "File Size",
        "1 B", "\x1bF",
        width = 10
    );
    assert_eq!(out, expected.into_bytes());
    assert!(out.windows(18).any(|window| window == b"File Size: 1 B    "));
}

#[test]
fn header_width_counts_bytes_and_filling_counts_characters() {
    let header = Header {
        title: String::new(),
        stats: vec![
            HeaderStat::new("a".to_string(), "éé".to_string()),
            HeaderStat::new("b".to_string(), "xyz".to_string()),
        ],
    };
    let mut out = Vec::new();
    header.print(&mut out);
    let expected = format!(
        "\x1bw1\x1bE\x1bF\x1bw0\n\x1ba2\x1bEa: {:4}\x1bF\n\x1bEb: {:4}\x1bF\n\x1ba0\n\n",
        "éé", "xyz"
    );
    assert_eq!(out, expected.into_bytes());
}
