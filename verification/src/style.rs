//! Display styling for entries: each file kind maps to a style and a
//! one-character trailing indicator, and a styled name is the name wrapped
//! in the ANSI escape sequences of that style.

use vstd::prelude::*;
use crate::entry::FileKind;

verus! {

/// The closed set of looks an entry can be rendered with.
#[derive(Clone, Copy, PartialEq, Eq, Structural, Debug)]
pub enum StyleKind {
    BlueBold,
    Magenta,
    Yellow,
    BlueOnCyan,
    BlueOnYellow,
    Plain,
}

/// The style each file kind is rendered with.
pub open spec fn style_of(kind: FileKind) -> StyleKind {
    match kind {
        FileKind::Directory => StyleKind::BlueBold,
        FileKind::Symlink => StyleKind::Magenta,
        FileKind::Socket => StyleKind::Magenta,
        FileKind::Fifo => StyleKind::Yellow,
        FileKind::BlockDevice => StyleKind::BlueOnCyan,
        FileKind::CharDevice => StyleKind::BlueOnYellow,
        FileKind::RegularFile => StyleKind::Plain,
        FileKind::Other => StyleKind::Plain,
    }
}

/// The trailing indicator character each file kind is printed with.
pub open spec fn indicator_of(kind: FileKind) -> Seq<char> {
    match kind {
        FileKind::Directory => seq!['/'],
        FileKind::Symlink => seq!['@'],
        FileKind::Socket => seq!['='],
        FileKind::Fifo => seq!['|'],
        _ => Seq::<char>::empty(),
    }
}

/// The ANSI escape sequence a style emits before the text.
pub open spec fn style_prefix(style: StyleKind) -> Seq<char> {
    match style {
        StyleKind::BlueBold => seq!['\u{1b}', '[', '3', '4', 'm', '\u{1b}', '[', '1', 'm'],
        StyleKind::Magenta => seq!['\u{1b}', '[', '3', '5', 'm'],
        StyleKind::Yellow => seq!['\u{1b}', '[', '3', '3', 'm'],
        StyleKind::BlueOnCyan => seq!['\u{1b}', '[', '3', '4', 'm', '\u{1b}', '[', '4', '6', 'm'],
        StyleKind::BlueOnYellow => seq!['\u{1b}', '[', '3', '4', 'm', '\u{1b}', '[', '4', '3', 'm'],
        StyleKind::Plain => Seq::<char>::empty(),
    }
}

/// The ANSI reset a style emits after the text; the plain style emits none.
pub open spec fn style_suffix(style: StyleKind) -> Seq<char> {
    if style is Plain {
        Seq::<char>::empty()
    } else {
        seq!['\u{1b}', '[', '0', 'm']
    }
}

/// The text as it is written to the output: the style's escape prefix,
/// the text itself, and the style's reset.
pub open spec fn painted(style: StyleKind, text: Seq<char>) -> Seq<char> {
    style_prefix(style) + text + style_suffix(style)
}

/// Executable form of `style_of`.
pub fn classify(kind: FileKind) -> (r: StyleKind)
    ensures
        r == style_of(kind),
{
    match kind {
        FileKind::Directory => StyleKind::BlueBold,
        FileKind::Symlink => StyleKind::Magenta,
        FileKind::Socket => StyleKind::Magenta,
        FileKind::Fifo => StyleKind::Yellow,
        FileKind::BlockDevice => StyleKind::BlueOnCyan,
        FileKind::CharDevice => StyleKind::BlueOnYellow,
        FileKind::RegularFile => StyleKind::Plain,
        FileKind::Other => StyleKind::Plain,
    }
}

/// Executable form of `indicator_of`.
pub fn indicator(kind: FileKind) -> (r: &'static str)
    ensures
        r@ == indicator_of(kind),
{
    proof {
        reveal_strlit("/");
        reveal_strlit("@");
        reveal_strlit("=");
        reveal_strlit("|");
        reveal_strlit("");
    }
    match kind {
        FileKind::Directory => "/",
        FileKind::Symlink => "@",
        FileKind::Socket => "=",
        FileKind::Fifo => "|",
        FileKind::BlockDevice => "",
        FileKind::CharDevice => "",
        FileKind::RegularFile => "",
        FileKind::Other => "",
    }
}

/// Relies on console::Style with forced styling: rendering a styled value
/// writes the foreground escape, then the background escape, then one escape
/// per attribute, then the text, then the reset -- and nothing at all around
/// plain text. The escape numbers are console's: 30 + 4 for blue, 30 + 5 for
/// magenta, 30 + 3 for yellow, 40 + 6 for a cyan background, 40 + 3 for a
/// yellow background, and 1 for bold.
#[verifier::external_body]
pub(crate) fn paint(style: StyleKind, text: &str) -> (r: String)
    ensures
        r@ == painted(style, text@),
{
    let look = match style {
        StyleKind::BlueBold => console::Style::new().blue().bold(),
        StyleKind::Magenta => console::Style::new().magenta(),
        StyleKind::Yellow => console::Style::new().yellow(),
        StyleKind::BlueOnCyan => console::Style::new().blue().on_cyan(),
        StyleKind::BlueOnYellow => console::Style::new().blue().on_yellow(),
        StyleKind::Plain => console::Style::new(),
    };
    look.force_styling(true).apply_to(text).to_string()
}

} // verus!
