use rupta::util::mem_watcher::{
    map_result, parse_statm, rss_in_gigabytes, rss_in_kilobytes, rss_in_megabytes, statm_from_contents, Statm,
    StatmError,
};

#[test]
fn parses_a_statm_line() {
    let statm = statm_from_contents("11 22 33 44 55 66 77\n").unwrap();
    assert_eq!(statm, Statm { size: 11, resident: 22, share: 33, text: 44, data: 66 });
}

#[test]
fn parse_reports_consumed_length() {
    let (statm, used) = parse_statm("1 2 3 4 5 6 7 rest").unwrap();
    assert_eq!(used, 13);
    assert_eq!(statm.data, 6);
    assert!(parse_statm("1 2 3 4 5 6").is_none());
    assert!(parse_statm("1 2 3 4 5 6 ").is_none());
    assert!(parse_statm("1  2 3 4 5 6 7").is_none());
    assert!(parse_statm("a 2 3 4 5 6 7").is_none());
    assert!(parse_statm("").is_none());
}

#[test]
fn rejects_trailing_text_and_overflow() {
    assert_eq!(statm_from_contents("1 2 3 4 5 6 7 8"), Err(StatmError::Trailing(" 8".to_string())));
    assert_eq!(statm_from_contents("1 2 3 4 5 6 x"), Err(StatmError::Unparsable));
    assert_eq!(statm_from_contents("99999999999999999999999 2 3 4 5 6 7"), Err(StatmError::Unparsable));
    let max = format!("{} 0 0 0 0 0 0", usize::MAX);
    assert_eq!(statm_from_contents(&max).unwrap().size, usize::MAX);
}

#[test]
fn map_result_needs_whole_input() {
    assert_eq!(map_result(Some((5u8, 3)), "abc"), Ok(5u8));
    assert_eq!(map_result(Some((5u8, 1)), "abc"), Err(StatmError::Trailing("bc".to_string())));
    assert_eq!(map_result::<u8>(None, "abc"), Err(StatmError::Unparsable));
}

#[test]
fn rss_units() {
    assert_eq!(rss_in_kilobytes(3), 12);
    assert_eq!(rss_in_megabytes(1024), 4);
    assert_eq!(rss_in_megabytes(255), 0);
    assert_eq!(rss_in_gigabytes(262144), 1);
}

#[test]
fn white_space_around_the_record_is_dropped() {
    let expected = Statm { size: 1, resident: 2, share: 3, text: 4, data: 6 };
    assert_eq!(statm_from_contents(" \t1 2 3 4 5 6 7\r\n\n"), Ok(expected));
    assert_eq!(statm_from_contents("\u{a0}1 2 3 4 5 6 7\u{3000}"), Ok(Statm { size: 1, resident: 2, share: 3, text: 4, data: 6 }));
    assert_eq!(statm_from_contents("1 2 3 4 5 6 7 \n8\n"), Err(StatmError::Trailing(" \n8".to_string())));
    assert_eq!(statm_from_contents("   \n"), Err(StatmError::Unparsable));
}
