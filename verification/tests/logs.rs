use kiro_gateway::admin::logs::convert_utc_to_local;
use kiro_gateway::admin::logs::count_param;
use kiro_gateway::admin::logs::filter_by_level;
use kiro_gateway::admin::logs::logs_page;
use kiro_gateway::admin::logs::parse_count;
use kiro_gateway::admin::logs::pick_log_file;
use kiro_gateway::admin::logs::tail_lines;
use kiro_gateway::admin::logs::LogFile;

const LOG: &str = "a INFO one\nb WARN two\nc ERROR three\nd DEBUG four\ne TRACE five\n";

#[test]
fn filtering_by_level_keeps_the_lines_that_show() {
    assert_eq!(filter_by_level(LOG, "all"), LOG);
    assert_eq!(filter_by_level(LOG, "error"), "c ERROR three\n");
    assert_eq!(filter_by_level(LOG, "warn"), "b WARN two\nc ERROR three\n");
    assert_eq!(filter_by_level(LOG, "info"), "a INFO one\nb WARN two\nc ERROR three\n");
    assert_eq!(filter_by_level(LOG, "debug"), LOG);
    assert_eq!(filter_by_level(LOG, "anything"), LOG);
    assert_eq!(filter_by_level("", "error"), "");
    assert_eq!(filter_by_level("", "all"), "");
}

#[test]
fn filtering_rewrites_line_endings_except_at_level_all() {
    assert_eq!(filter_by_level("x ERROR\r\ny", "all"), "x ERROR\r\ny");
    assert_eq!(filter_by_level("x ERROR\r\ny", "debug"), "x ERROR\ny\n");
    assert_eq!(filter_by_level("x error\ny ERRORS", "error"), "y ERRORS\n");
    assert_eq!(filter_by_level("WARNING\nwarn", "warn"), "WARNING\n");
}

#[test]
fn times_move_to_the_local_zone() {
    let line = "\u{1b}[2m2026-02-15T10:40:31.123456Z\u{1b}[0m  INFO started";
    assert_eq!(
        convert_utc_to_local(line),
        "\u{1b}[2m2026-02-15T18:40:31.123456+08:00\u{1b}[0m  INFO started\n"
    );
    assert_eq!(
        convert_utc_to_local("prefix....: 2026-02-15T23:05:00Z INFO late"),
        "prefix....: 2026-02-15T07:05:00+08:00 INFO late\n"
    );
    assert_eq!(
        convert_utc_to_local("prefix....: 2026-02-15T16:00:00Z x\nprefix....: 2026-02-15T15:59:59Z y\n"),
        "prefix....: 2026-02-15T00:00:00+08:00 x\nprefix....: 2026-02-15T23:59:59+08:00 y\n"
    );
}

#[test]
fn lines_without_a_time_stay_as_they_are() {
    // The first `T` stands too early.
    assert_eq!(convert_utc_to_local("2026-02-15T10:40:31Z INFO x"), "2026-02-15T10:40:31Z INFO x\n");
    // Too little follows the `T`.
    assert_eq!(convert_utc_to_local("0123456789012T10:40:3"), "0123456789012T10:40:3\n");
    assert_eq!(convert_utc_to_local("0123456789012T10:40:31"), "0123456789012T18:40:31\n");
    // No number follows the `T`.
    assert_eq!(convert_utc_to_local("0123456789012Txx:40:31Z "), "0123456789012Txx:40:31Z \n");
    assert_eq!(convert_utc_to_local("no time here"), "no time here\n");
    assert_eq!(convert_utc_to_local(""), "");
    assert_eq!(convert_utc_to_local("\n"), "\n");
}

#[test]
fn odd_hours_are_taken_as_numbers() {
    // A signed hour is a number, but its mark is written without the plus.
    assert_eq!(convert_utc_to_local("0123456789012T+5:40:31Z "), "0123456789012T+5:40:31+08:00 \n");
    assert_eq!(convert_utc_to_local("0123456789012T-3:40:31Z "), "0123456789012T05:40:31+08:00 \n");
    assert_eq!(convert_utc_to_local("0123456789012T-9:40:31Z "), "0123456789012T-1:40:31+08:00 \n");
    assert_eq!(convert_utc_to_local("0123456789012T99:40:31Z "), "0123456789012T11:40:31+08:00 \n");
    // The first mark of the hour is replaced, wherever it stands.
    assert_eq!(convert_utc_to_local("xT10:xxxxxxxxxT10:40:31Z "), "xT10:xxxxxxxxxT10:40:31Z \n");
    assert_eq!(convert_utc_to_local("aaaaaaaaaaaT10:40:31Z T10:1"), "aaaaaaaaaaaT18:40:31+08:00 T10:1\n");
}

#[test]
fn tails_keep_the_last_lines() {
    assert_eq!(tail_lines("a\nb\nc\n", 2), "b\nc");
    assert_eq!(tail_lines("a\nb\nc", 5), "a\nb\nc");
    assert_eq!(tail_lines("a\nb\nc", 3), "a\nb\nc");
    assert_eq!(tail_lines("a\nb\nc", 1), "c");
    assert_eq!(tail_lines("a\nb\nc", 0), "");
    assert_eq!(tail_lines("", 3), "");
    assert_eq!(tail_lines("a\r\n\r\nb\r\n", 2), "\nb");
}

#[test]
fn pages_are_cut_from_the_filtered_log() {
    let log = "l1 INFO\nl2 ERROR\nl3 INFO\nl4 ERROR\nl5 ERROR\nl6 INFO\nl7 ERROR\n";
    let p = logs_page(log, 100, "error", 1, 3);
    assert!(p.success);
    assert_eq!(p.content, "l2 ERROR\nl4 ERROR\nl5 ERROR");
    assert_eq!((p.lines, p.total_lines, p.page, p.page_size, p.total_pages), (3, 4, 1, 3, 2));
    let p = logs_page(log, 100, "error", 2, 3);
    assert_eq!(p.content, "l7 ERROR");
    assert_eq!((p.lines, p.total_lines, p.page, p.page_size, p.total_pages), (1, 4, 2, 3, 2));
    let p = logs_page(log, 100, "error", 3, 3);
    assert_eq!(p.content, "");
    assert_eq!((p.lines, p.total_lines, p.total_pages), (0, 4, 2));
    let p = logs_page(log, 100, "all", 1, 100);
    assert_eq!(p.content, "l1 INFO\nl2 ERROR\nl3 INFO\nl4 ERROR\nl5 ERROR\nl6 INFO\nl7 ERROR");
    assert_eq!((p.lines, p.total_lines, p.total_pages), (7, 7, 1));
    let p = logs_page(log, 3, "error", 1, 10);
    assert_eq!(p.content, "l5 ERROR\nl7 ERROR");
    assert_eq!((p.lines, p.total_lines, p.total_pages), (2, 2, 1));
    let p = logs_page("", 100, "all", 1, 100);
    assert_eq!((p.content.as_str(), p.lines, p.total_lines, p.total_pages), ("", 0, 0, 0));
    let p = logs_page(log, 100, "all", usize::MAX, usize::MAX);
    assert_eq!((p.content.as_str(), p.lines, p.total_lines, p.total_pages), ("", 0, 7, 1));
    let p = logs_page(log, 100, "all", 7, 1);
    assert_eq!((p.content.as_str(), p.lines, p.total_pages), ("l7 ERROR", 1, 7));
}

#[test]
fn counts_are_read_like_the_standard_parser_reads_them() {
    let samples = [
        "", "0", "7", "100", "007", "+5", "+", "-5", "-0", " 5", "5 ", "5a", "a5", "１２", "1_000",
        "18446744073709551615", "18446744073709551616", "99999999999999999999999999", "++5", "+-5",
        "4294967295", "4294967296",
    ];
    for s in samples {
        assert_eq!(parse_count(s), s.parse::<usize>().ok(), "reading {:?}", s);
    }
    assert_eq!(count_param(None, 100), 100);
    assert_eq!(count_param(Some("25"), 100), 25);
    assert_eq!(count_param(Some("many"), 100), 100);
    assert_eq!(count_param(Some(""), 1), 1);
}

#[test]
fn the_newest_log_file_is_shown() {
    let file = |name: &str, modified: u64| LogFile { name: name.to_string(), modified };
    assert_eq!(pick_log_file(&vec![]), "logs/kiro.log");
    assert_eq!(pick_log_file(&vec![file("other.log", 9), file("kiro", 9)]), "logs/kiro.log");
    assert_eq!(
        pick_log_file(&vec![file("kiro.2026-02-14", 10), file("kiro.2026-02-15", 20), file("x", 30)]),
        "logs/kiro.2026-02-15"
    );
    assert_eq!(
        pick_log_file(&vec![file("kiro.b", 20), file("kiro.a", 10)]),
        "logs/kiro.b"
    );
    assert_eq!(
        pick_log_file(&vec![file("kiro.first", 5), file("kiro.second", 5), file("kiro.old", 1)]),
        "logs/kiro.second"
    );
}
