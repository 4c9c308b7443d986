//! What a frame of the browser shows: a header, one row for each record of
//! the page, and a footer, as texts with a place and colours. Nothing here
//! draws; a frame is a list of texts for a terminal to print in order.

use crate::history::{entry_views, Entry, EntryModel};
use crate::text::{decimal_digits, padded, push_decimal, push_padded, same_text};
use vstd::prelude::*;
use vstd::string::StringExecFns;

verus! {

#[derive(Debug, Clone, Copy, PartialEq, Eq)]
pub enum Style {
    Normal,
    Bold,
}

#[derive(Debug, Clone, Copy, PartialEq, Eq)]
pub enum Color {
    Black,
    Red,
    Green,
    Blue,
    Cyan,
    White,
}

/// A text to print: its column and row, counted from zero, its style, its
/// colours, and what it says.
#[derive(Debug, Clone, PartialEq, Eq)]
pub struct Print {
    pub x: usize,
    pub y: usize,
    pub style: Style,
    pub fg: Color,
    pub bg: Color,
    pub text: String,
}

/// A `Print` with its text as a plain sequence.
pub struct PrintModel {
    pub x: usize,
    pub y: usize,
    pub style: Style,
    pub fg: Color,
    pub bg: Color,
    pub text: Seq<char>,
}

impl View for Print {
    type V = PrintModel;

    open spec fn view(&self) -> PrintModel {
        PrintModel {
            x: self.x,
            y: self.y,
            style: self.style,
            fg: self.fg,
            bg: self.bg,
            text: self.text@,
        }
    }
}

/// The views of a sequence of prints.
pub open spec fn print_views(prints: Seq<Print>) -> Seq<PrintModel> {
    prints.map_values(|p: Print| p@)
}

/// The column where the header, the records and the footer start.
pub const TEXT_COLUMN: usize = 4;

/// The column of the mark that shows the commit checked out now.
pub const MARK_COLUMN: usize = 1;

/// The row of the header.
pub const HEADER_ROW: usize = 1;

/// The rows above the first record.
pub const ROWS_ABOVE: usize = 2;

/// The rows between the first record and the footer that are no records.
pub const FOOTER_GAP: usize = 3;

/// A row number that does not fit is the last row that does.
pub open spec fn row_at(first: usize, offset: usize) -> usize {
    if first + offset > usize::MAX {
        usize::MAX
    } else {
        (first + offset) as usize
    }
}

/// The header's text: the page shown, counted from one, the number of
/// pages, and the working directory.
pub open spec fn header_text(page: nat, pages: nat, cwd: Seq<char>) -> Seq<char> {
    decimal_digits(page + 1) + "/"@ + decimal_digits(pages) + " pages. ["@ + cwd + "]"@
}

pub open spec fn header(page: nat, pages: nat, cwd: Seq<char>) -> PrintModel {
    PrintModel {
        x: TEXT_COLUMN,
        y: HEADER_ROW,
        style: Style::Bold,
        fg: Color::Green,
        bg: Color::Black,
        text: header_text(page, pages, cwd),
    }
}

/// The text of a record's row: hash, time and author in columns of 10, 15
/// and 20 characters, then the subject.
pub open spec fn row_text(entry: EntryModel) -> Seq<char> {
    padded(entry.commit, 10) + " "@ + padded(entry.time, 15) + " "@ + padded(entry.name, 20)
        + " "@ + entry.comment
}

/// The mark before the record that is checked out now.
pub open spec fn mark(index: usize) -> PrintModel {
    PrintModel {
        x: MARK_COLUMN,
        y: row_at(index, ROWS_ABOVE),
        style: Style::Bold,
        fg: Color::Red,
        bg: Color::Black,
        text: " * "@,
    }
}

/// The row of the record at `index`; the one under the cursor stands out.
pub open spec fn row(index: usize, entry: EntryModel, cursor: nat) -> PrintModel {
    PrintModel {
        x: TEXT_COLUMN,
        y: row_at(index, ROWS_ABOVE),
        style: Style::Normal,
        fg: if index == cursor {
            Color::Blue
        } else {
            Color::Cyan
        },
        bg: if index == cursor {
            Color::White
        } else {
            Color::Black
        },
        text: row_text(entry),
    }
}

/// What is printed for the record at `index`: its row, behind a mark where
/// it is the commit checked out now.
pub open spec fn record_prints(
    index: usize,
    entry: EntryModel,
    cursor: nat,
    current: Seq<char>,
) -> Seq<PrintModel> {
    if entry.commit == current {
        seq![mark(index), row(index, entry, cursor)]
    } else {
        seq![row(index, entry, cursor)]
    }
}

/// What is printed for the records of a page, from the first down.
pub open spec fn records_prints(
    entries: Seq<EntryModel>,
    cursor: nat,
    current: Seq<char>,
) -> Seq<PrintModel>
    decreases entries.len(),
{
    if entries.len() == 0 {
        Seq::<PrintModel>::empty()
    } else {
        records_prints(entries.drop_last(), cursor, current) + record_prints(
            (entries.len() - 1) as usize,
            entries.last(),
            cursor,
            current,
        )
    }
}

pub open spec fn footer_text() -> Seq<char> {
    "Press: q - exit, Down - down, Up - up, PageDown - page down, PageUp - page up, R - reset"@
}

/// The footer, below the rows of a full page.
pub open spec fn footer(page_size: usize) -> PrintModel {
    PrintModel {
        x: TEXT_COLUMN,
        y: row_at(page_size, FOOTER_GAP),
        style: Style::Bold,
        fg: Color::Green,
        bg: Color::Black,
        text: footer_text(),
    }
}

/// A whole frame: header, records, footer.
pub open spec fn frame(
    page: nat,
    pages: nat,
    cwd: Seq<char>,
    page_size: usize,
    entries: Seq<EntryModel>,
    cursor: nat,
    current: Seq<char>,
) -> Seq<PrintModel> {
    seq![header(page, pages, cwd)] + records_prints(entries, cursor, current) + seq![
        footer(page_size),
    ]
}

/// Builds a frame.
pub fn compose(
    page: usize,
    pages: usize,
    cwd: &str,
    page_size: usize,
    entries: &Vec<Entry>,
    cursor: usize,
    current: &str,
) -> (prints: Vec<Print>)
    ensures
        print_views(prints@) == frame(
            page as nat,
            pages as nat,
            cwd@,
            page_size,
            entry_views(entries@),
            cursor as nat,
            current@,
        ),
{
    let mut prints: Vec<Print> = Vec::new();
    let mut title = String::new();
    push_decimal(&mut title, page as u128 + 1);
    title.append("/");
    push_decimal(&mut title, pages as u128);
    title.append(" pages. [");
    title.append(cwd);
    title.append("]");
    assert(title@ == header_text(page as nat, pages as nat, cwd@));
    prints.push(
        Print {
            x: TEXT_COLUMN,
            y: HEADER_ROW,
            style: Style::Bold,
            fg: Color::Green,
            bg: Color::Black,
            text: title,
        },
    );
    let ghost head = seq![header(page as nat, pages as nat, cwd@)];
    assert(print_views(prints@) == head);
    let mut i: usize = 0;
    assert(entry_views(entries@).take(0) == Seq::<EntryModel>::empty());
    assert(head + Seq::<PrintModel>::empty() == head);
    while i < entries.len()
        invariant
            i <= entries.len(),
            head == seq![header(page as nat, pages as nat, cwd@)],
            print_views(prints@) == head + records_prints(
                entry_views(entries@).take(i as int),
                cursor as nat,
                current@,
            ),
        decreases entries.len() - i,
    {
        let entry = &entries[i];
        let ghost shown = entry_views(entries@).take(i as int);
        let ghost before = records_prints(shown, cursor as nat, current@);
        assert(entry_views(entries@).take(i + 1).drop_last() == shown);
        assert(entry_views(entries@).take(i + 1).last() == entry@);
        let y = i.saturating_add(ROWS_ABOVE);
        if same_text(entry.commit(), current) {
            let sign = Print {
                x: MARK_COLUMN,
                y,
                style: Style::Bold,
                fg: Color::Red,
                bg: Color::Black,
                text: " * ".to_owned(),
            };
            assert(print_views(prints@.push(sign)) == print_views(prints@).push(sign@));
            prints.push(sign);
        }
        let mut text = String::new();
        push_padded(&mut text, entry.commit(), 10);
        text.append(" ");
        push_padded(&mut text, entry.time(), 15);
        text.append(" ");
        push_padded(&mut text, entry.name(), 20);
        text.append(" ");
        text.append(entry.comment());
        assert(text@ == row_text(entry@));
        let active = i == cursor;
        let line = Print {
            x: TEXT_COLUMN,
            y,
            style: Style::Normal,
            fg: if active {
                Color::Blue
            } else {
                Color::Cyan
            },
            bg: if active {
                Color::White
            } else {
                Color::Black
            },
            text,
        };
        assert(print_views(prints@.push(line)) == print_views(prints@).push(line@));
        prints.push(line);
        assert(print_views(prints@) == head + (before + record_prints(
            i,
            entry@,
            cursor as nat,
            current@,
        )));
        i += 1;
    }
    assert(entry_views(entries@).take(entries.len() as int) == entry_views(entries@));
    let last = Print {
        x: TEXT_COLUMN,
        y: page_size.saturating_add(FOOTER_GAP),
        style: Style::Bold,
        fg: Color::Green,
        bg: Color::Black,
        text: "Press: q - exit, Down - down, Up - up, PageDown - page down, PageUp - page up, R - reset".to_owned(),
    };
    assert(print_views(prints@.push(last)) == print_views(prints@).push(last@));
    prints.push(last);
    prints
}

} // verus!
