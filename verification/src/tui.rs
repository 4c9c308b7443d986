//! The navigation controller: a cursor over the pages of a history, moved by
//! key and resize events, and the selection of the record under it.

use crate::git::{
    exec_command, models, read_short_sha, succeeded, unstash_args, CommandModel, FailureModel,
    Outcome, OutcomeModel, Step, StepModel,
};
use crate::history::{
    count_command, entry_views, head_command, page_command, read_page, read_page_count,
    reset_to_step, Entry, EntryModel, History, HistoryModel,
};
use crate::screen::{compose, frame, print_views, Print};
use vstd::prelude::*;
use vstd::slice::slice_subrange;

verus! {

/// A key of the terminal that the browser tells apart.
#[derive(Debug, Clone)]
pub enum TuiKey {
    Esc,
    Up,
    Down,
    PageUp,
    PageDown,
    Char(char),
    Ctrl(char),
}

/// An event of the terminal: a key, a resize to a width and a height, or
/// anything else.
#[derive(Debug, Clone)]
pub enum TuiEvent {
    UnSupported,
    Resize(usize, usize),
    KeyEvent(TuiKey),
}

/// What is left to do once an event has been handled.
#[derive(Debug, Clone, Copy, PartialEq, Eq)]
pub enum Control {
    Quit,
    Draw,
    Wait,
}

/// The cursor over a history: the page shown and the row within it.
#[derive(Debug)]
pub struct TUI<'a> {
    history: History<'a>,
    page: usize,
    cursor: usize,
}

/// A place in the history: a page and a row of it, both counted from zero.
pub struct Position {
    pub page: nat,
    pub cursor: nat,
}

/// A `TUI` as plain values.
pub struct TuiModel {
    pub history: HistoryModel,
    pub page: nat,
    pub cursor: nat,
}

impl TuiModel {
    pub open spec fn position(self) -> Position {
        Position { page: self.page, cursor: self.cursor }
    }

    pub open spec fn at(self, to: Position) -> TuiModel {
        TuiModel { page: to.page, cursor: to.cursor, ..self }
    }
}

impl<'a> View for TUI<'a> {
    type V = TuiModel;

    closed spec fn view(&self) -> TuiModel {
        TuiModel { history: self.history@, page: self.page as nat, cursor: self.cursor as nat }
    }
}

/// The rows of the screen that are not records: two above and two below.
pub const CHROME_ROWS: usize = 4;

/// The number of records on a page of a screen `height` rows high: the rows
/// that the chrome leaves, at least one.
pub open spec fn rows_for(height: usize) -> usize {
    if height > CHROME_ROWS {
        (height - CHROME_ROWS) as usize
    } else {
        1
    }
}

/// The index of the last page of `pages`; of the first where there is none.
pub open spec fn last_page(pages: nat) -> nat {
    if pages > 0 {
        (pages - 1) as nat
    } else {
        0
    }
}

/// One record up. From the first row this is the last row of the page
/// above, which holds `above` records; from the first row of the first page
/// it is where one stands.
pub open spec fn moved_up(from: Position, above: nat) -> Position {
    if from.cursor > 0 {
        Position { page: from.page, cursor: (from.cursor - 1) as nat }
    } else if from.page > 0 {
        Position { page: (from.page - 1) as nat, cursor: last_page(above) }
    } else {
        from
    }
}

/// One record down, on a page of `len` records in a history of `pages`
/// pages. From the last row this is the first row of the next page, which
/// is no page past the last: from a page past the last it is the first row
/// of the last page, and from the last row of the last page it is where one
/// stands.
pub open spec fn moved_down(from: Position, len: nat, pages: nat) -> Position {
    if from.cursor + 1 < len {
        Position { page: from.page, cursor: from.cursor + 1 }
    } else if from.page + 1 < pages {
        Position { page: from.page + 1, cursor: 0 }
    } else if pages > 0 && from.page > last_page(pages) {
        Position { page: last_page(pages), cursor: 0 }
    } else {
        from
    }
}

/// The first row of the page above, which is no page past the last.
pub open spec fn paged_up(from: Position, pages: nat) -> Position {
    let above = if from.page > 0 {
        (from.page - 1) as nat
    } else {
        0
    };
    Position { page: if above < last_page(pages) {
        above
    } else {
        last_page(pages)
    }, cursor: 0 }
}

/// The first row of the page below, which is no page past the last.
pub open spec fn paged_down(from: Position, pages: nat) -> Position {
    Position { page: if from.page + 1 < last_page(pages) {
        from.page + 1
    } else {
        last_page(pages)
    }, cursor: 0 }
}

/// The number of records that the outcome of a page query gives; none where
/// it failed.
pub open spec fn page_len_of(o: OutcomeModel) -> nat {
    match read_page(o) {
        Some(entries) => entries.len(),
        None => 0,
    }
}

/// The records that the outcome of a page query gives; none where it failed.
pub open spec fn page_data_of(o: OutcomeModel) -> Seq<EntryModel> {
    match read_page(o) {
        Some(entries) => entries,
        None => Seq::<EntryModel>::empty(),
    }
}

/// The number of pages that the outcome of the count query gives; none where
/// the count is unknown.
pub open spec fn pages_of(o: OutcomeModel, page_size: nat) -> nat {
    match read_page_count(o, page_size) {
        Some(pages) => pages as nat,
        None => 0,
    }
}

/// The record under the cursor among those that the outcome of the page
/// query gives, if the cursor is on one.
pub open spec fn cursor_entry(t: TuiModel, o: OutcomeModel) -> Option<EntryModel> {
    if t.cursor < page_data_of(o).len() {
        Some(page_data_of(o)[t.cursor as int])
    } else {
        None
    }
}

/// Moving up: nothing is asked unless the cursor leaves its page, and then
/// the page above is read for its length.
pub open spec fn move_up_step(t: TuiModel, replies: Seq<OutcomeModel>) -> (StepModel<()>, TuiModel) {
    if t.cursor > 0 || t.page == 0 {
        (StepModel::Done(()), t.at(moved_up(t.position(), 0)))
    } else if replies.len() == 0 {
        (StepModel::Run(page_command(t.history, (t.page - 1) as nat)), t)
    } else {
        (StepModel::Done(()), t.at(moved_up(t.position(), page_len_of(replies[0]))))
    }
}

/// Moving down: the page shown is read for its length; the pages are
/// counted only where the cursor stands on its last row.
pub open spec fn move_down_step(t: TuiModel, replies: Seq<OutcomeModel>) -> (
    StepModel<()>,
    TuiModel,
) {
    if replies.len() == 0 {
        (StepModel::Run(page_command(t.history, t.page)), t)
    } else if t.cursor + 1 < page_len_of(replies[0]) {
        (StepModel::Done(()), t.at(moved_down(t.position(), page_len_of(replies[0]), 0)))
    } else if replies.len() == 1 {
        (StepModel::Run(count_command(t.history)), t)
    } else {
        (
            StepModel::Done(()),
            t.at(
                moved_down(
                    t.position(),
                    page_len_of(replies[0]),
                    pages_of(replies[1], t.history.page_size),
                ),
            ),
        )
    }
}

/// Paging up: the pages are counted, then the cursor moves.
pub open spec fn page_up_step(t: TuiModel, replies: Seq<OutcomeModel>) -> (StepModel<()>, TuiModel) {
    if replies.len() == 0 {
        (StepModel::Run(count_command(t.history)), t)
    } else {
        (
            StepModel::Done(()),
            t.at(paged_up(t.position(), pages_of(replies[0], t.history.page_size))),
        )
    }
}

/// Paging down: the pages are counted, then the cursor moves.
pub open spec fn page_down_step(t: TuiModel, replies: Seq<OutcomeModel>) -> (
    StepModel<()>,
    TuiModel,
) {
    if replies.len() == 0 {
        (StepModel::Run(count_command(t.history)), t)
    } else {
        (
            StepModel::Done(()),
            t.at(paged_down(t.position(), pages_of(replies[0], t.history.page_size))),
        )
    }
}

/// The controller after a resize to `height` rows: the page size follows the
/// height, and the cursor is on the first row of the first page.
pub open spec fn resized(t: TuiModel, height: usize) -> TuiModel {
    TuiModel {
        history: HistoryModel { page_size: rows_for(height) as nat, ..t.history },
        page: 0,
        cursor: 0,
    }
}

/// Resetting to the record under the cursor: the page shown is read; where
/// the cursor is on no record the reset has failed and nothing more is
/// asked; else the working tree is reset to that record.
pub open spec fn reset_to_current_step(t: TuiModel, replies: Seq<OutcomeModel>) -> StepModel<bool> {
    if replies.len() == 0 {
        StepModel::Run(page_command(t.history, t.page))
    } else {
        match cursor_entry(t, replies[0]) {
            Some(entry) => reset_to_step(t.history.cwd, entry.commit, replies.skip(1)),
            None => StepModel::Done(false),
        }
    }
}

/// The short hash that the outcome of the head query gives; an empty one
/// where it failed.
pub open spec fn current_of(o: OutcomeModel) -> Seq<char> {
    match read_short_sha(o) {
        Ok(sha) => sha,
        Err(_) => Seq::<char>::empty(),
    }
}

/// The queries that a frame is drawn from, in the order they are asked: the
/// count of the pages, the commit checked out now, the page shown.
pub open spec fn draw_query(t: TuiModel, asked: nat) -> CommandModel {
    if asked == 0 {
        count_command(t.history)
    } else if asked == 1 {
        head_command(t.history.cwd)
    } else {
        page_command(t.history, t.page)
    }
}

/// A move that is done calls for a new frame.
pub open spec fn then_draw(moved: (StepModel<()>, TuiModel)) -> (StepModel<Control>, TuiModel) {
    match moved.0 {
        StepModel::Run(command) => (StepModel::Run(command), moved.1),
        StepModel::Done(_) => (StepModel::Done(Control::Draw), moved.1),
    }
}

/// What an event does: `q` quits, `r` draws anew, the arrow and page keys
/// move the cursor, a resize fits the pages to the new height; each of the
/// last two calls for a new frame. Any other event is passed over.
pub open spec fn handle_step(t: TuiModel, event: TuiEvent, replies: Seq<OutcomeModel>) -> (
    StepModel<Control>,
    TuiModel,
) {
    match event {
        TuiEvent::KeyEvent(TuiKey::Char(c)) => if c == 'q' || c == 'Q' {
            (StepModel::Done(Control::Quit), t)
        } else if c == 'r' || c == 'R' {
            (StepModel::Done(Control::Draw), t)
        } else {
            (StepModel::Done(Control::Wait), t)
        },
        TuiEvent::KeyEvent(TuiKey::PageDown) => then_draw(page_down_step(t, replies)),
        TuiEvent::KeyEvent(TuiKey::PageUp) => then_draw(page_up_step(t, replies)),
        TuiEvent::KeyEvent(TuiKey::Down) => then_draw(move_down_step(t, replies)),
        TuiEvent::KeyEvent(TuiKey::Up) => then_draw(move_up_step(t, replies)),
        TuiEvent::Resize(_, height) => (StepModel::Done(Control::Draw), resized(t, height)),
        _ => (StepModel::Done(Control::Wait), t),
    }
}

impl<'a> TUI<'a> {
    /// A controller for the history of `cwd` on a screen `height` rows high,
    /// with the cursor on the first row of the first page. Without the
    /// commit that is checked out there is no history to move over: an
    /// outcome that gives no hash must not be handed in.
    pub fn new(height: usize, cwd: &'a str, replies: &[Outcome]) -> (step: Step<TUI<'a>>)
        requires
            replies@.len() > 0 ==> read_short_sha(replies@[0]@) is Ok,
        ensures
            match step {
                Step::Run(command) => replies@.len() == 0 && command@ == head_command(cwd@),
                Step::Done(tui) => replies@.len() > 0 && read_short_sha(replies@[0]@) == Ok::<
                    Seq<char>,
                    FailureModel,
                >(tui@.history.head_rev) && tui@.history.cwd == cwd@ && tui@.history.page_size
                    == rows_for(height) && tui@.page == 0 && tui@.cursor == 0,
            },
    {
        let rows: usize = if height > CHROME_ROWS {
            height - CHROME_ROWS
        } else {
            1
        };
        match History::new(rows, cwd, replies) {
            Step::Run(command) => Step::Run(command),
            Step::Done(history) => Step::Done(TUI { history, page: 0, cursor: 0 }),
        }
    }

    pub fn page(&self) -> (page: usize)
        ensures
            page == self@.page,
    {
        self.page
    }

    pub fn cursor(&self) -> (cursor: usize)
        ensures
            cursor == self@.cursor,
    {
        self.cursor
    }

    /// The history that the cursor is over.
    pub fn history(&self) -> (history: &History<'a>)
        ensures
            history@ == self@.history,
    {
        &self.history
    }

    /// The records of page `page`; none where the query failed.
    pub fn get_page_data(&self, page: usize, replies: &[Outcome]) -> (step: Step<Vec<Entry>>)
        ensures
            match step {
                Step::Run(command) => replies@.len() == 0 && command@ == page_command(
                    self@.history,
                    page as nat,
                ),
                Step::Done(entries) => replies@.len() > 0 && entry_views(entries@) == page_data_of(
                    replies@[0]@,
                ),
            },
    {
        match self.history.get_page(page, replies) {
            Step::Run(command) => Step::Run(command),
            Step::Done(Some(entries)) => Step::Done(entries),
            Step::Done(None) => {
                let entries: Vec<Entry> = Vec::new();
                assert(entry_views(entries@) == Seq::<EntryModel>::empty());
                Step::Done(entries)
            },
        }
    }

    /// The number of records on page `page`; none where the query failed.
    pub fn get_page_size(&self, page: usize, replies: &[Outcome]) -> (step: Step<usize>)
        ensures
            step.model() == if replies@.len() == 0 {
                StepModel::Run(page_command(self@.history, page as nat))
            } else {
                StepModel::Done(page_len_of(replies@[0]@) as usize)
            },
            replies@.len() > 0 ==> page_len_of(replies@[0]@) <= usize::MAX,
    {
        match self.history.get_page(page, replies) {
            Step::Run(command) => Step::Run(command),
            Step::Done(Some(entries)) => Step::Done(entries.len()),
            Step::Done(None) => Step::Done(0),
        }
    }

    /// The number of pages of the history; none where the count is unknown.
    pub fn get_page_count(&self, replies: &[Outcome]) -> (step: Step<usize>)
        ensures
            step.model() == if replies@.len() == 0 {
                StepModel::Run(count_command(self@.history))
            } else {
                StepModel::Done(pages_of(replies@[0]@, self@.history.page_size) as usize)
            },
    {
        match self.history.page_count(replies) {
            Step::Run(command) => Step::Run(command),
            Step::Done(Some(pages)) => Step::Done(pages),
            Step::Done(None) => Step::Done(0),
        }
    }

    /// The short hash of the commit that is checked out now.
    pub fn get_current_commit(&self, replies: &[Outcome]) -> (step: Step<Option<String>>)
        ensures
            match step {
                Step::Run(command) => replies@.len() == 0 && command@ == head_command(
                    self@.history.cwd,
                ),
                Step::Done(Some(sha)) => replies@.len() > 0 && read_short_sha(replies@[0]@) == Ok::<
                    Seq<char>,
                    FailureModel,
                >(sha@),
                Step::Done(None) => replies@.len() > 0 && read_short_sha(replies@[0]@) is Err,
            },
    {
        self.history.get_current_commit(replies)
    }

    /// Moves the cursor one record up.
    pub fn move_up(&mut self, replies: &[Outcome]) -> (step: Step<()>)
        ensures
            step.model() == move_up_step(old(self)@, models(replies@)).0,
            final(self)@ == move_up_step(old(self)@, models(replies@)).1,
    {
        if self.cursor > 0 {
            self.cursor -= 1;
            Step::Done(())
        } else if self.page > 0 {
            match self.get_page_size(self.page - 1, replies) {
                Step::Run(command) => Step::Run(command),
                Step::Done(above) => {
                    self.page -= 1;
                    self.cursor = if above > 0 {
                        above - 1
                    } else {
                        0
                    };
                    Step::Done(())
                },
            }
        } else {
            Step::Done(())
        }
    }

    /// Moves the cursor one record down.
    pub fn move_down(&mut self, replies: &[Outcome]) -> (step: Step<()>)
        ensures
            step.model() == move_down_step(old(self)@, models(replies@)).0,
            final(self)@ == move_down_step(old(self)@, models(replies@)).1,
    {
        match self.get_page_size(self.page, replies) {
            Step::Run(command) => Step::Run(command),
            Step::Done(len) => {
                if len > 0 && self.cursor < len - 1 {
                    self.cursor += 1;
                    Step::Done(())
                } else {
                    let rest = slice_subrange(replies, 1, replies.len());
                    match self.get_page_count(rest) {
                        Step::Run(command) => Step::Run(command),
                        Step::Done(pages) => {
                            assert(rest@[0] == replies@[1]);
                            if pages > 0 && self.page < pages - 1 {
                                self.page += 1;
                                self.cursor = 0;
                            } else if pages > 0 && self.page > pages - 1 {
                                self.page = pages - 1;
                                self.cursor = 0;
                            }
                            Step::Done(())
                        },
                    }
                }
            },
        }
    }

    /// Shows the page above, with the cursor on its first row.
    pub fn page_up(&mut self, replies: &[Outcome]) -> (step: Step<()>)
        ensures
            step.model() == page_up_step(old(self)@, models(replies@)).0,
            final(self)@ == page_up_step(old(self)@, models(replies@)).1,
    {
        match self.get_page_count(replies) {
            Step::Run(command) => Step::Run(command),
            Step::Done(pages) => {
                let last: usize = if pages > 0 {
                    pages - 1
                } else {
                    0
                };
                let above: usize = if self.page > 0 {
                    self.page - 1
                } else {
                    0
                };
                self.page = if above < last {
                    above
                } else {
                    last
                };
                self.cursor = 0;
                Step::Done(())
            },
        }
    }

    /// Shows the page below, with the cursor on its first row.
    pub fn page_down(&mut self, replies: &[Outcome]) -> (step: Step<()>)
        ensures
            step.model() == page_down_step(old(self)@, models(replies@)).0,
            final(self)@ == page_down_step(old(self)@, models(replies@)).1,
    {
        match self.get_page_count(replies) {
            Step::Run(command) => Step::Run(command),
            Step::Done(pages) => {
                let last: usize = if pages > 0 {
                    pages - 1
                } else {
                    0
                };
                self.page = if self.page < last {
                    self.page + 1
                } else {
                    last
                };
                self.cursor = 0;
                Step::Done(())
            },
        }
    }

    /// Fits the pages to a screen `height` rows high. Page boundaries shift,
    /// so the cursor goes back to the first row of the first page.
    pub fn resize(&mut self, height: usize) -> (this: &mut Self)
        ensures
            this@ == resized(old(self)@, height),
            this@.page == 0,
            this@.cursor == 0,
            final(self)@ == final(this)@,
    {
        let rows: usize = if height > CHROME_ROWS {
            height - CHROME_ROWS
        } else {
            1
        };
        self.cursor = 0;
        self.page = 0;
        self.history.resize(rows);
        self
    }

    /// The record under the cursor, if the cursor is on one.
    pub fn get_cursor_entry(&self, replies: &[Outcome]) -> (step: Step<Option<Entry>>)
        ensures
            match step {
                Step::Run(command) => replies@.len() == 0 && command@ == page_command(
                    self@.history,
                    self@.page,
                ),
                Step::Done(Some(entry)) => replies@.len() > 0 && cursor_entry(self@, replies@[0]@)
                    == Some(entry@),
                Step::Done(None) => replies@.len() > 0 && cursor_entry(self@, replies@[0]@)
                    is None,
            },
    {
        match self.get_page_data(self.page, replies) {
            Step::Run(command) => Step::Run(command),
            Step::Done(entries) => {
                let mut data = entries;
                if self.cursor < data.len() {
                    assert(entry_views(data@)[self.cursor as int] == data@[self.cursor as int]@);
                    Step::Done(Some(data.swap_remove(self.cursor)))
                } else {
                    Step::Done(None)
                }
            },
        }
    }

    /// Resets the working tree to the record under the cursor, the pending
    /// changes put away first, and says whether both succeeded.
    pub fn reset_to_current(&mut self, replies: &[Outcome]) -> (step: Step<bool>)
        ensures
            step.model() == reset_to_current_step(old(self)@, models(replies@)),
            final(self)@ == old(self)@,
    {
        match self.get_cursor_entry(replies) {
            Step::Run(command) => Step::Run(command),
            Step::Done(None) => Step::Done(false),
            Step::Done(Some(entry)) => {
                let rest = slice_subrange(replies, 1, replies.len());
                assert(models(rest@) == models(replies@).skip(1));
                self.history.reset_to(&entry, rest)
            },
        }
    }

    /// The frame that shows the page with the cursor on it.
    pub fn draw(&self, replies: &[Outcome]) -> (step: Step<Vec<Print>>)
        ensures
            match step {
                Step::Run(command) => replies@.len() < 3 && command@ == draw_query(
                    self@,
                    replies@.len(),
                ),
                Step::Done(prints) => replies@.len() >= 3 && print_views(prints@) == frame(
                    self@.page,
                    pages_of(replies@[0]@, self@.history.page_size),
                    self@.history.cwd,
                    self@.history.page_size as usize,
                    page_data_of(replies@[2]@),
                    self@.cursor,
                    current_of(replies@[1]@),
                ),
            },
    {
        let pages = match self.get_page_count(replies) {
            Step::Run(command) => {
                return Step::Run(command);
            },
            Step::Done(pages) => pages,
        };
        let after_count = slice_subrange(replies, 1, replies.len());
        let current = match self.get_current_commit(after_count) {
            Step::Run(command) => {
                return Step::Run(command);
            },
            Step::Done(Some(sha)) => sha,
            Step::Done(None) => String::new(),
        };
        assert(after_count@[0] == replies@[1]);
        let after_head = slice_subrange(replies, 2, replies.len());
        let data = match self.get_page_data(self.page, after_head) {
            Step::Run(command) => {
                return Step::Run(command);
            },
            Step::Done(entries) => entries,
        };
        assert(after_head@[0] == replies@[2]);
        Step::Done(
            compose(
                self.page,
                pages,
                self.history.cwd(),
                self.history.page_size(),
                &data,
                self.cursor,
                current.as_str(),
            ),
        )
    }

    /// Handles one event, and says what is left to do.
    pub fn handle(&mut self, event: &TuiEvent, replies: &[Outcome]) -> (step: Step<Control>)
        ensures
            step.model() == handle_step(old(self)@, *event, models(replies@)).0,
            final(self)@ == handle_step(old(self)@, *event, models(replies@)).1,
    {
        let moved = match event {
            TuiEvent::KeyEvent(TuiKey::Char(c)) => {
                if *c == 'q' || *c == 'Q' {
                    return Step::Done(Control::Quit);
                } else if *c == 'r' || *c == 'R' {
                    return Step::Done(Control::Draw);
                } else {
                    return Step::Done(Control::Wait);
                }
            },
            TuiEvent::KeyEvent(TuiKey::PageDown) => self.page_down(replies),
            TuiEvent::KeyEvent(TuiKey::PageUp) => self.page_up(replies),
            TuiEvent::KeyEvent(TuiKey::Down) => self.move_down(replies),
            TuiEvent::KeyEvent(TuiKey::Up) => self.move_up(replies),
            TuiEvent::Resize(_, height) => {
                self.resize(*height);
                return Step::Done(Control::Draw);
            },
            _ => {
                return Step::Done(Control::Wait);
            },
        };
        match moved {
            Step::Run(command) => Step::Run(command),
            Step::Done(_) => Step::Done(Control::Draw),
        }
    }

    /// Brings the changes back that a reset put away, and says whether that
    /// succeeded.
    pub fn finish(&mut self, replies: &[Outcome]) -> (step: Step<bool>)
        ensures
            step.model() == if replies@.len() == 0 {
                StepModel::Run(exec_command(old(self)@.history.cwd, unstash_args()))
            } else {
                StepModel::Done(succeeded(replies@[0]@))
            },
            final(self)@ == old(self)@,
    {
        self.history.unstash(replies)
    }
}

} // verus!
