use dirpeek::entry::{name_is_hidden, FileKind};
use dirpeek::scan::{max_lines_valid, scan_capacity};
use dirpeek::style::{classify, indicator, StyleKind};

#[test]
fn zero_max_lines_rejected() {
    assert!(!max_lines_valid(0));
    assert!(max_lines_valid(1));
    assert!(max_lines_valid(2));
}

#[test]
fn hidden_name_test() {
    assert!(name_is_hidden(".git"));
    assert!(name_is_hidden("."));
    assert!(!name_is_hidden("git"));
    assert!(!name_is_hidden(""));
    assert!(!name_is_hidden("a.b"));
}

#[test]
fn capacity_bound_formula() {
    assert_eq!(scan_capacity(Some(80), 2), 20);
    assert_eq!(scan_capacity(Some(40), 2), 10);
    assert_eq!(scan_capacity(None, 5), 5);
    // narrower than one tab still counts one column
    assert_eq!(scan_capacity(Some(7), 3), 3);
    assert_eq!(scan_capacity(Some(0), 3), 3);
}

// The grid uses as many columns as fit the terminal, and the column width
// is a positive multiple of eight.
#[test]
fn column_count_fills_the_terminal() {
    let entries = vec![
        dirpeek::entry::DirEntry { name: "a".to_string(), kind: FileKind::RegularFile },
        dirpeek::entry::DirEntry { name: "b".to_string(), kind: FileKind::RegularFile },
    ];
    let (plan, _out) = dirpeek::render::render_preview(entries, Some(17), 2, true);
    assert_eq!(plan.column_width, 8);
    assert!(plan.column_width % 8 == 0 && plan.column_width > 0);
    // two columns fit in 17 cells; three would not
    assert_eq!(plan.column_count, 2);
    assert!(plan.column_count * plan.column_width <= 17);
    assert!((plan.column_count + 1) * plan.column_width > 17);
}

#[test]
fn classification_table() {
    assert_eq!(classify(FileKind::Directory), StyleKind::BlueBold);
    assert_eq!(classify(FileKind::Symlink), StyleKind::Magenta);
    assert_eq!(classify(FileKind::Socket), StyleKind::Magenta);
    assert_eq!(classify(FileKind::Fifo), StyleKind::Yellow);
    assert_eq!(classify(FileKind::BlockDevice), StyleKind::BlueOnCyan);
    assert_eq!(classify(FileKind::CharDevice), StyleKind::BlueOnYellow);
    assert_eq!(classify(FileKind::RegularFile), StyleKind::Plain);
    assert_eq!(classify(FileKind::Other), StyleKind::Plain);
}

#[test]
fn indicator_table() {
    assert_eq!(indicator(FileKind::Directory), "/");
    assert_eq!(indicator(FileKind::Symlink), "@");
    assert_eq!(indicator(FileKind::Socket), "=");
    assert_eq!(indicator(FileKind::Fifo), "|");
    assert_eq!(indicator(FileKind::BlockDevice), "");
    assert_eq!(indicator(FileKind::CharDevice), "");
    assert_eq!(indicator(FileKind::RegularFile), "");
    assert_eq!(indicator(FileKind::Other), "");
}

// The styled text the library emits must be byte-for-byte what console
// emits with forced styling -- and what the library's contracts state.
#[test]
fn styled_escapes_match_console() {
    let cases: [(StyleKind, &str); 6] = [
        (StyleKind::BlueBold, "\u{1b}[34m\u{1b}[1mname\u{1b}[0m"),
        (StyleKind::Magenta, "\u{1b}[35mname\u{1b}[0m"),
        (StyleKind::Yellow, "\u{1b}[33mname\u{1b}[0m"),
        (StyleKind::BlueOnCyan, "\u{1b}[34m\u{1b}[46mname\u{1b}[0m"),
        (StyleKind::BlueOnYellow, "\u{1b}[34m\u{1b}[43mname\u{1b}[0m"),
        (StyleKind::Plain, "name"),
    ];
    for (kind, expected) in cases.iter() {
        let style = match kind {
            StyleKind::BlueBold => console::Style::new().blue().bold(),
            StyleKind::Magenta => console::Style::new().magenta(),
            StyleKind::Yellow => console::Style::new().yellow(),
            StyleKind::BlueOnCyan => console::Style::new().blue().on_cyan(),
            StyleKind::BlueOnYellow => console::Style::new().blue().on_yellow(),
            StyleKind::Plain => console::Style::new(),
        };
        let rendered = style.force_styling(true).apply_to("name").to_string();
        assert_eq!(&rendered, expected);
    }
}

// The rendered grid carries the console escapes through: a directory name
// comes out styled, not bare.
#[test]
fn directory_rendering_is_styled() {
    let entries = vec![dirpeek::entry::DirEntry {
        name: "docs".to_string(),
        kind: FileKind::Directory,
    }];
    let (_plan, out) = dirpeek::render::render_preview(entries, Some(80), 2, true);
    assert_eq!(out, "\u{1b}[34m\u{1b}[1mdocs\u{1b}[0m/    \n");
}

// Every kind's indicator and style, rendered end to end in one grid.
#[test]
fn mixed_kinds_rendered_with_indicators() {
    let entries = vec![
        dirpeek::entry::DirEntry { name: "d".to_string(), kind: FileKind::Directory },
        dirpeek::entry::DirEntry { name: "l".to_string(), kind: FileKind::Symlink },
        dirpeek::entry::DirEntry { name: "s".to_string(), kind: FileKind::Socket },
        dirpeek::entry::DirEntry { name: "p".to_string(), kind: FileKind::Fifo },
        dirpeek::entry::DirEntry { name: "b".to_string(), kind: FileKind::BlockDevice },
        dirpeek::entry::DirEntry { name: "c".to_string(), kind: FileKind::CharDevice },
        dirpeek::entry::DirEntry { name: "f".to_string(), kind: FileKind::RegularFile },
        dirpeek::entry::DirEntry { name: "o".to_string(), kind: FileKind::Other },
    ];
    let (_plan, out) = dirpeek::render::render_preview(entries, None, 10, true);
    let mut expected = String::new();
    expected.push_str("\u{1b}[34m\u{1b}[46mb\u{1b}[0m\n"); // block device
    expected.push_str("\u{1b}[34m\u{1b}[43mc\u{1b}[0m\n"); // char device
    expected.push_str("\u{1b}[34m\u{1b}[1md\u{1b}[0m/\n"); // directory
    expected.push_str("f\n"); // regular file
    expected.push_str("\u{1b}[35ml\u{1b}[0m@\n"); // symlink
    expected.push_str("o\n"); // other
    expected.push_str("\u{1b}[33mp\u{1b}[0m|\n"); // fifo
    expected.push_str("\u{1b}[35ms\u{1b}[0m=\n"); // socket
    assert_eq!(out, expected);
}
