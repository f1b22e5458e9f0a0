use dirpeek::entry::{DirEntry, FileKind};
use dirpeek::render::render_preview;
use dirpeek::scan::{scan_capacity, ScanState};

fn entry(name: &str, kind: FileKind) -> DirEntry {
    DirEntry { name: name.to_string(), kind }
}

fn blue_bold(s: &str) -> String {
    console::Style::new().blue().bold().force_styling(true).apply_to(s).to_string()
}

#[test]
fn three_regular_files_fit_one_row() {
    let entries = vec![
        entry("a", FileKind::RegularFile),
        entry("b", FileKind::RegularFile),
        entry("c", FileKind::RegularFile),
    ];
    let (plan, out) = render_preview(entries, Some(80), 2, true);
    assert_eq!(plan.column_width, 8);
    assert_eq!(plan.column_count, 10);
    assert_eq!(plan.entries.len(), 3);
    assert_eq!(plan.entries[0].entry.name, "a");
    assert_eq!(plan.entries[1].entry.name, "b");
    assert_eq!(plan.entries[2].entry.name, "c");
    // plain style, no indicator, padded to the column width, one row
    assert_eq!(out, "a       b       c       \n");
}

#[test]
fn overflowing_scan_shows_directories_truncated() {
    // fifty directories and one regular file; terminal width 40, two lines
    let max_items = scan_capacity(Some(40), 2);
    assert_eq!(max_items, 10);
    let mut state = ScanState::new();
    let mut stopped = false;
    for i in 0..50 {
        let name = format!("d{:02}", i);
        stopped = state.record(name, FileKind::Directory, 0, max_items);
        if stopped {
            break;
        }
    }
    if !stopped {
        state.record("f".to_string(), FileKind::RegularFile, 0, max_items);
    }
    assert!(state.over_capacity);
    assert!(!state.timed_out);
    assert_eq!(state.entries.len(), 10);
    assert_eq!(state.dir_count, 10);

    let (sel, may_narrow) = dirpeek::scan::select_displayed(state, max_items);
    assert!(!may_narrow);
    assert_eq!(sel.len(), 10);
    for e in sel.iter() {
        assert!(matches!(e.kind, FileKind::Directory));
    }

    let (plan, out) = render_preview(sel, Some(40), 2, may_narrow);
    assert_eq!(plan.column_width, 8);
    assert_eq!(plan.column_count, 5);

    // nine entries shown (capacity 10, marker replaces the tenth slot),
    // five per row, the marker on a line of its own
    let mut expected = String::new();
    for i in 0..9 {
        expected.push_str(&blue_bold(&format!("d{:02}", i)));
        expected.push('/');
        if (i + 1) % 5 != 0 {
            expected.push_str("     ");
        } else {
            expected.push('\n');
        }
    }
    expected.push('\n');
    expected.push_str("....\n");
    assert_eq!(out, expected);
}

#[test]
fn empty_after_hidden_filtering_yields_no_candidates() {
    let mut state = ScanState::new();
    let stop = state.record(".config".to_string(), FileKind::Directory, 0, 100);
    assert!(!stop);
    let stop = state.record(".cache".to_string(), FileKind::RegularFile, 0, 100);
    assert!(!stop);
    assert_eq!(state.entries.len(), 0);
    assert_eq!(state.dir_count, 0);
    let (sel, may_narrow) = dirpeek::scan::select_displayed(state, 100);
    assert!(may_narrow);
    assert!(sel.is_empty());
}

#[test]
fn hidden_entries_never_recorded() {
    let mut state = ScanState::new();
    state.record(".hidden".to_string(), FileKind::Directory, 0, 100);
    state.record("shown".to_string(), FileKind::RegularFile, 0, 100);
    state.record(".other".to_string(), FileKind::Symlink, 0, 100);
    assert_eq!(state.entries.len(), 1);
    assert_eq!(state.entries[0].name, "shown");
}

#[test]
fn time_overrun_forces_directories_only() {
    let mut state = ScanState::new();
    let stop = state.record("zdir".to_string(), FileKind::Directory, 0, 100);
    assert!(!stop);
    // this step took longer than the ten-millisecond budget
    let stop = state.record("afile".to_string(), FileKind::RegularFile, 10_000_001, 100);
    assert!(stop);
    assert!(state.timed_out);
    assert!(!state.over_capacity);
    let (sel, may_narrow) = dirpeek::scan::select_displayed(state, 100);
    assert!(!may_narrow);
    assert_eq!(sel.len(), 1);
    assert_eq!(sel[0].name, "zdir");
    assert!(matches!(sel[0].kind, FileKind::Directory));
}

#[test]
fn elapsed_at_limit_does_not_stop() {
    let mut state = ScanState::new();
    let stop = state.record("a".to_string(), FileKind::RegularFile, 10_000_000, 100);
    assert!(!stop);
    assert!(!state.timed_out);
}

#[test]
fn output_sorted_ascending() {
    let entries = vec![
        entry("pear", FileKind::RegularFile),
        entry("apple", FileKind::RegularFile),
        entry("mango", FileKind::RegularFile),
    ];
    let (plan, _out) = render_preview(entries, Some(80), 2, true);
    assert_eq!(plan.entries[0].entry.name, "apple");
    assert_eq!(plan.entries[1].entry.name, "mango");
    assert_eq!(plan.entries[2].entry.name, "pear");
}

#[test]
fn names_ordered_by_codepoint() {
    // U+00E9 sorts after every ASCII letter, whatever a locale would say
    let entries = vec![
        entry("\u{e9}clair", FileKind::RegularFile),
        entry("zebra", FileKind::RegularFile),
        entry("Apple", FileKind::RegularFile),
    ];
    let (plan, _out) = render_preview(entries, Some(80), 3, true);
    assert_eq!(plan.entries[0].entry.name, "Apple");
    assert_eq!(plan.entries[1].entry.name, "zebra");
    assert_eq!(plan.entries[2].entry.name, "\u{e9}clair");
}

#[test]
fn truncation_marker_without_directories() {
    // capacity 2 (two columns, one line); three files, none a directory,
    // so no narrowing even though it is allowed
    let entries = vec![
        entry("a", FileKind::RegularFile),
        entry("b", FileKind::RegularFile),
        entry("c", FileKind::RegularFile),
    ];
    let (plan, out) = render_preview(entries, Some(16), 1, true);
    assert_eq!(plan.column_count, 2);
    assert_eq!(plan.entries.len(), 3);
    assert_eq!(out, "a       \n....\n");
    assert!(out.ends_with("....\n"));
    assert!(!out.contains('b'));
    assert!(!out.contains('c'));
}

#[test]
fn narrowing_keeps_all_directories() {
    // capacity 4; three files and two directories: the full set cannot fit,
    // so the layout narrows to the directories and they all fit
    let entries = vec![
        entry("zfile", FileKind::RegularFile),
        entry("bdir", FileKind::Directory),
        entry("afile", FileKind::RegularFile),
        entry("adir", FileKind::Directory),
        entry("mfile", FileKind::RegularFile),
    ];
    let (plan, out) = render_preview(entries, Some(16), 2, true);
    assert_eq!(plan.entries.len(), 2);
    assert_eq!(plan.entries[0].entry.name, "adir");
    assert_eq!(plan.entries[1].entry.name, "bdir");
    let mut expected = String::new();
    expected.push_str(&blue_bold("adir"));
    expected.push('/');
    expected.push_str("    ");
    expected.push_str(&blue_bold("bdir"));
    expected.push('/');
    expected.push('\n');
    assert_eq!(out, expected);
}

#[test]
fn no_narrowing_when_forbidden() {
    // same set, but the orchestrator already narrowed: the flag is off and
    // the mixed set is truncated instead
    let entries = vec![
        entry("zfile", FileKind::RegularFile),
        entry("bdir", FileKind::Directory),
        entry("afile", FileKind::RegularFile),
        entry("adir", FileKind::Directory),
    ];
    let (plan, out) = render_preview(entries, Some(16), 1, false);
    assert_eq!(plan.entries.len(), 4);
    assert!(out.ends_with("....\n"));
    assert!(out.contains("adir"));
    assert!(!out.contains("bdir"));
}

#[test]
fn unknown_terminal_width_gives_single_column() {
    let entries = vec![
        entry("one", FileKind::RegularFile),
        entry("two", FileKind::RegularFile),
    ];
    let (plan, out) = render_preview(entries, None, 5, true);
    assert_eq!(plan.column_count, 1);
    // one per row, never padded (each entry ends its row)
    assert_eq!(out, "one\ntwo\n");
}

#[test]
fn wide_names_widen_the_column() {
    // five two-cell characters: display width ten, rounded up to sixteen
    let entries = vec![
        entry("\u{65e5}\u{65e5}\u{65e5}\u{65e5}\u{65e5}", FileKind::RegularFile),
        entry("x", FileKind::RegularFile),
    ];
    let (plan, _out) = render_preview(entries, Some(80), 2, true);
    assert_eq!(plan.column_width, 16);
    assert_eq!(plan.column_count, 5);
}
