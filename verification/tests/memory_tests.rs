use pista_feeds::memory::{report, MemScan, Meminfo, MemoryConfig, ReadError};

const SAMPLE: &str = "MemTotal:       16384256 kB
MemFree:         4096064 kB
MemAvailable:    9012345 kB
Buffers:          123456 kB
Cached:          2345678 kB
SwapCached:            0 kB
";

fn lines_of(text: &str) -> Vec<String> {
    let mut lines: Vec<String> = Vec::new();
    for line in text.lines() {
        lines.push(String::from(line));
    }
    lines
}

fn memory_config(prefix: &str) -> MemoryConfig {
    MemoryConfig { interval: 5, prefix: String::from(prefix) }
}

fn memory_line(total: u64, free: u64) -> String {
    Meminfo { total, free }.format(&memory_config("m "))
}

#[test]
fn reads_a_typical_source() {
    assert_eq!(
        Meminfo::from_lines(&lines_of(SAMPLE)),
        Meminfo { total: 16384256, free: 4096064 }
    );
}

#[test]
fn the_order_of_the_entries_does_not_matter() {
    let text = "Cached: 1 kB\nMemFree: 30 kB\nBuffers: 2 kB\nMemTotal: 120 kB\n";
    assert_eq!(Meminfo::from_lines(&lines_of(text)), Meminfo { total: 120, free: 30 });
}

#[test]
fn missing_entries_count_as_zero() {
    assert_eq!(Meminfo::from_lines(&Vec::new()), Meminfo { total: 0, free: 0 });
    assert_eq!(
        Meminfo::from_lines(&lines_of("MemTotal: 5 kB\n")),
        Meminfo { total: 5, free: 0 }
    );
    assert_eq!(
        Meminfo::from_lines(&lines_of("MemFree: 5 kB\n")),
        Meminfo { total: 0, free: 5 }
    );
    assert_eq!(
        Meminfo::from_lines(&lines_of("Cached: 5 kB\n\n   \n")),
        Meminfo { total: 0, free: 0 }
    );
}

#[test]
fn an_entry_needs_three_words() {
    assert_eq!(
        Meminfo::from_lines(&lines_of("MemTotal: 5\nMemFree: 3 kB\n")),
        Meminfo { total: 0, free: 3 }
    );
    assert_eq!(
        Meminfo::from_lines(&lines_of("MemTotal:\nMemFree:3 kB\n")),
        Meminfo { total: 0, free: 0 }
    );
    assert_eq!(
        Meminfo::from_lines(&lines_of("MemTotal: 5 kB and more\n")),
        Meminfo { total: 5, free: 0 }
    );
}

#[test]
fn the_unit_is_not_read() {
    assert_eq!(
        Meminfo::from_lines(&lines_of("MemTotal: 5 MB\nMemFree: 3 pages\n")),
        Meminfo { total: 5, free: 3 }
    );
}

#[test]
fn keys_are_matched_exactly() {
    let text = "memtotal: 1 kB\nMemTotal 2 kB\nMemTotal:: 3 kB\nXMemFree: 4 kB\nMemFree:5 6 kB\n";
    assert_eq!(Meminfo::from_lines(&lines_of(text)), Meminfo { total: 0, free: 0 });
}

#[test]
fn any_white_space_separates_words() {
    let text = "\t MemTotal:\t\t7\u{A0}kB  \n\u{3000}MemFree:\u{2003}2\u{2009}kB\n";
    assert_eq!(Meminfo::from_lines(&lines_of(text)), Meminfo { total: 7, free: 2 });
}

#[test]
fn a_figure_that_is_no_number_counts_as_not_found() {
    assert_eq!(
        Meminfo::from_lines(&lines_of("MemTotal: lots kB\nMemFree: 3 kB\n")),
        Meminfo { total: 0, free: 3 }
    );
    assert_eq!(
        Meminfo::from_lines(&lines_of("MemTotal: -1 kB\nMemFree: 18446744073709551616 kB\n")),
        Meminfo { total: 0, free: 0 }
    );
}

#[test]
fn a_later_bad_figure_undoes_an_earlier_good_one() {
    let text = "MemTotal: 9 kB\nMemTotal: x kB\nMemFree: 3 kB\n";
    assert_eq!(Meminfo::from_lines(&lines_of(text)), Meminfo { total: 0, free: 3 });
}

#[test]
fn a_repeated_entry_replaces_the_earlier_one() {
    let text = "MemTotal: 9 kB\nMemTotal: 8 kB\nMemFree: 3 kB\n";
    assert_eq!(Meminfo::from_lines(&lines_of(text)), Meminfo { total: 8, free: 3 });
}

#[test]
fn nothing_is_read_once_both_are_found() {
    let text = "MemTotal: 9 kB\nMemFree: 3 kB\nMemTotal: 100 kB\nMemFree: x kB\n";
    assert_eq!(Meminfo::from_lines(&lines_of(text)), Meminfo { total: 9, free: 3 });
}

fn met(lines: &[Option<&str>]) -> Vec<Option<String>> {
    let mut source: Vec<Option<String>> = Vec::new();
    for line in lines {
        source.push(line.map(String::from));
    }
    source
}

#[test]
fn a_readable_source_is_read() {
    let source = met(&[Some("MemTotal: 9 kB"), Some("Cached: 1 kB"), Some("MemFree: 3 kB")]);
    assert_eq!(Meminfo::read_from(&source), Meminfo { total: 9, free: 3 });
    assert_eq!(Meminfo::read(Some(&source)), Ok(Meminfo { total: 9, free: 3 }));
    assert_eq!(Meminfo::read(Some(&Vec::new())), Ok(Meminfo { total: 0, free: 0 }));
}

#[test]
fn a_readable_source_reads_as_its_lines() {
    let lines = lines_of(SAMPLE);
    let mut source: Vec<Option<String>> = Vec::new();
    for l in lines.iter() {
        source.push(Some(l.clone()));
    }
    assert_eq!(Meminfo::read_from(&source), Meminfo::from_lines(&lines));
    assert_eq!(Meminfo::read(Some(&source)), Ok(Meminfo::from_lines(&lines)));
}

#[test]
fn a_source_that_cannot_be_opened_fails_the_read() {
    assert_eq!(Meminfo::read(None), Err(ReadError::IoFailure));
}

#[test]
fn a_first_line_that_cannot_be_read_gives_zeros() {
    assert_eq!(Meminfo::read(Some(&met(&[None]))), Ok(Meminfo { total: 0, free: 0 }));
    assert_eq!(
        Meminfo::read(Some(&met(&[None, Some("MemTotal: 9 kB"), Some("MemFree: 3 kB")]))),
        Ok(Meminfo { total: 0, free: 0 })
    );
}

#[test]
fn a_line_that_cannot_be_read_ends_the_scan_without_failing() {
    assert_eq!(
        Meminfo::read(Some(&met(&[Some("MemTotal: 9 kB"), None, Some("MemFree: 3 kB")]))),
        Ok(Meminfo { total: 9, free: 0 })
    );
    assert_eq!(
        Meminfo::read(Some(&met(&[Some("MemTotal: 9 kB"), Some("MemFree: x kB"), None]))),
        Ok(Meminfo { total: 9, free: 0 })
    );
    assert_eq!(
        Meminfo::read_from(&met(&[Some("MemFree: 3 kB"), None, None, Some("MemTotal: 9 kB")])),
        Meminfo { total: 0, free: 3 }
    );
}

#[test]
fn a_failure_past_the_last_line_needed_does_no_harm() {
    assert_eq!(
        Meminfo::read(Some(&met(&[Some("MemTotal: 9 kB"), Some("MemFree: 3 kB"), None]))),
        Ok(Meminfo { total: 9, free: 3 })
    );
    assert_eq!(
        Meminfo::read(Some(&met(&[Some("MemFree: 3 kB"), Some("MemTotal: 9 kB"), None, None]))),
        Ok(Meminfo { total: 9, free: 3 })
    );
}

#[test]
fn an_unreadable_source_is_reported_as_zero_percent() {
    let cfg = memory_config("m ");
    let reading = Meminfo::read(Some(&met(&[None])));
    assert_eq!(report(&reading, &cfg), Some(String::from("m   0%")));
}

#[test]
fn a_failed_read_is_reported_as_nothing() {
    let cfg = memory_config("m ");
    let reading = Meminfo::read(None);
    assert_eq!(reading, Err(ReadError::IoFailure));
    assert_eq!(report(&reading, &cfg), None);
}

#[test]
fn a_scan_can_be_fed_line_by_line() {
    let scan = MemScan::new();
    assert_eq!(scan, MemScan { total: None, free: None });
    assert!(!scan.is_complete());
    let scan = scan.feed("MemFree: 3 kB");
    assert_eq!(scan, MemScan { total: None, free: Some(3) });
    assert!(!scan.is_complete());
    let scan = scan.feed("Buffers: 1 kB");
    assert_eq!(scan, MemScan { total: None, free: Some(3) });
    let scan = scan.feed("MemTotal: 12 kB");
    assert_eq!(scan, MemScan { total: Some(12), free: Some(3) });
    assert!(scan.is_complete());
    assert_eq!(scan.finish(), Meminfo { total: 12, free: 3 });
}

#[test]
fn feeding_by_hand_agrees_with_from_lines() {
    let lines = lines_of(SAMPLE);
    let mut scan = MemScan::new();
    for l in lines.iter() {
        if scan.is_complete() {
            break;
        }
        scan = scan.feed(l);
    }
    assert_eq!(scan.finish(), Meminfo::from_lines(&lines));
}

#[test]
fn an_unfinished_scan_finishes_with_zeros() {
    assert_eq!(MemScan::new().finish(), Meminfo { total: 0, free: 0 });
    assert_eq!(
        MemScan { total: Some(4), free: None }.finish(),
        Meminfo { total: 4, free: 0 }
    );
    assert_eq!(
        MemScan { total: None, free: Some(u64::MAX) }.finish(),
        Meminfo { total: 0, free: u64::MAX }
    );
}

#[test]
fn the_line_shows_the_rounded_percentage() {
    assert_eq!(memory_line(16384256, 4096064), "m  25%");
    assert_eq!(memory_line(200, 50), "m  25%");
    assert_eq!(memory_line(3, 1), "m  33%");
    assert_eq!(memory_line(3, 2), "m  67%");
    assert_eq!(memory_line(100, 0), "m   0%");
    assert_eq!(memory_line(100, 9), "m   9%");
    assert_eq!(memory_line(100, 100), "m 100%");
}

#[test]
fn the_line_rounds_a_tie_to_even() {
    assert_eq!(memory_line(8, 1), "m  12%");
    assert_eq!(memory_line(8, 3), "m  38%");
    assert_eq!(memory_line(200, 1), "m   0%");
    assert_eq!(memory_line(200, 199), "m 100%");
}

#[test]
fn the_line_with_no_total_shows_zero() {
    assert_eq!(memory_line(0, 0), "m   0%");
    assert_eq!(memory_line(0, 1), "m   0%");
    assert_eq!(memory_line(0, u64::MAX), "m   0%");
}

#[test]
fn the_line_grows_when_free_exceeds_total() {
    assert_eq!(memory_line(2, 3), "m 150%");
    assert_eq!(memory_line(1, 10), "m 1000%");
    assert_eq!(memory_line(1, u64::MAX), "m 1844674407370955161500%");
}

#[test]
fn the_prefix_is_taken_as_it_is() {
    assert_eq!(Meminfo { total: 4, free: 1 }.format(&memory_config("")), " 25%");
    assert_eq!(Meminfo { total: 4, free: 1 }.format(&memory_config("mem: ")), "mem:  25%");
    assert_eq!(Meminfo { total: 4, free: 1 }.format(&memory_config("▣ ")), "▣  25%");
}

#[test]
fn the_line_is_always_prefix_number_percent() {
    let mut total: u64 = 0;
    while total <= 40 {
        let mut free: u64 = 0;
        while free <= total {
            let text = memory_line(total, free);
            assert!(text.starts_with("m "));
            assert!(text.ends_with('%'));
            assert_eq!(text.chars().count(), 6);
            let shown: u64 = text[2..text.len() - 1].trim_start().parse().unwrap();
            assert!(shown <= 100);
            free += 1;
        }
        total += 1;
    }
}

#[test]
fn a_reading_is_reported_as_its_line() {
    let cfg = memory_config("m ");
    let reading: Result<Meminfo, ReadError> = Ok(Meminfo { total: 200, free: 50 });
    assert_eq!(report(&reading, &cfg), Some(String::from("m  25%")));
}

#[test]
fn a_failed_read_reports_nothing() {
    let cfg = memory_config("m ");
    let reading: Result<Meminfo, ReadError> = Err(ReadError::IoFailure);
    assert_eq!(report(&reading, &cfg), None);
}

#[test]
fn a_failed_read_does_not_stop_later_reports() {
    let cfg = memory_config("m ");
    let failed: Result<Meminfo, ReadError> = Err(ReadError::IoFailure);
    let taken: Result<Meminfo, ReadError> = Ok(Meminfo::from_lines(&lines_of(SAMPLE)));
    let mut printed: Vec<String> = Vec::new();
    for reading in [failed, taken, failed, taken] {
        if let Some(text) = report(&reading, &cfg) {
            printed.push(text);
        }
    }
    assert_eq!(printed, vec![String::from("m  25%"), String::from("m  25%")]);
}
