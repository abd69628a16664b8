use unifi_protect_archive::text::{
    contains_text, is_blank, replace_chars, same_text, signed_text, unsigned_text,
};
use unifi_protect_archive::timestamp::{file_timestamp, instant_ms, timestamp_ms};

#[test]
fn blank_texts_hold_white_space_only() {
    assert!(is_blank(""));
    assert!(is_blank(" \t\r\n\u{b}\u{c}\u{a0}\u{2003}"));
    assert!(!is_blank(" a "));
    assert!(!is_blank("\u{200b}"));
}

#[test]
fn texts_are_compared_and_searched() {
    assert!(same_text("NAS", "NAS"));
    assert!(!same_text("NAS", "nas"));
    assert!(contains_text("abcd", "bc"));
    assert!(contains_text("abcd", "cd"));
    assert!(contains_text("", ""));
    assert!(contains_text("aab", "ab"));
    assert!(!contains_text("abcd", "bd"));
    assert!(!contains_text("a", "ab"));
}

#[test]
fn characters_are_replaced() {
    assert_eq!(replace_chars("a:b.c", ":.", '-'), "a-b-c");
    assert_eq!(replace_chars("", ":.", '-'), "");
}

#[test]
fn numbers_are_written_in_decimal() {
    assert_eq!(unsigned_text(0), "0");
    assert_eq!(unsigned_text(u64::MAX), u64::MAX.to_string());
    assert_eq!(signed_text(-10), "-10");
    assert_eq!(signed_text(i64::MIN), i64::MIN.to_string());
    assert_eq!(signed_text(i64::MAX), i64::MAX.to_string());
}

#[test]
fn timestamps_are_written_for_file_names() {
    assert_eq!(file_timestamp(951_782_400_123).unwrap(), "2000-02-29T00-00-00Z");
}

#[test]
fn written_timestamps_sort_by_time() {
    let times: [i64; 10] = [
        -62_167_219_200_000,
        -1_000,
        -999,
        999,
        1_000,
        59_999,
        60_000,
        951_782_399_000,
        951_782_400_000,
        253_402_300_799_999,
    ];
    for earlier in times {
        for later in times {
            let first = file_timestamp(earlier).unwrap();
            let second = file_timestamp(later).unwrap();
            assert_eq!(first == second, earlier / 1000 == later / 1000);
            assert_eq!(first < second, earlier / 1000 < later / 1000);
        }
    }
}

#[test]
fn timestamps_are_read() {
    assert_eq!(timestamp_ms("2000-02-29T00:00:00.123Z"), Ok(951_782_400_123));
    assert!(timestamp_ms("2001-02-29T00:00:00Z").is_err());
    assert_eq!(
        timestamp_ms(""),
        Err("the 'year' component could not be parsed".to_string())
    );
    assert_eq!(instant_ms(-1, 250), -750);
}
