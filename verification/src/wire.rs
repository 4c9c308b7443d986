//! The wire format of the log, seen from the other side: what `git` writes
//! for a list of records, to a page query and to the count query, and the
//! proof that reading it gives the records, and their number, back.

use crate::git::{read_output, FailureModel, OutcomeModel, StepModel};
use crate::history::{
    kept_lines, lemma_page_count_is_ceiling, page_count_of, page_lines, parse_line, parse_lines,
    read_count, read_page, read_page_count, EntryModel,
};
use crate::paging::{lemma_page_len, page_len, page_of};
use crate::tui::{
    move_down_step, move_up_step, moved_down, moved_up, page_len_of, pages_of, TuiModel,
};
use crate::text::{
    all_digits, decimal_digits, digit, digits_value, free_of, is_digit, is_whitespace, join_with,
    lemma_split_is_not_empty, split_on, trim_end, trim_start, trimmed, unsigned_body,
};
use vstd::prelude::*;

verus! {

/// The line that writes a record: its four fields with `|` between them.
pub open spec fn render_line(entry: EntryModel) -> Seq<char> {
    entry.commit + seq!['|'] + entry.name + seq!['|'] + entry.time + seq!['|'] + entry.comment
}

/// The lines that write the given records.
pub open spec fn render_lines(entries: Seq<EntryModel>) -> Seq<Seq<char>> {
    entries.map_values(|e: EntryModel| render_line(e))
}

/// What a page query writes for the given records: their lines, in order,
/// with a newline between neighbours.
pub open spec fn render_log(entries: Seq<EntryModel>) -> Seq<char> {
    join_with(render_lines(entries), '\n')
}

/// What the `git` of the count query writes for the given records: their
/// lines, in order, each ended by a newline.
pub open spec fn render_counted_log(entries: Seq<EntryModel>) -> Seq<char>
    decreases entries.len(),
{
    if entries.len() == 0 {
        Seq::<char>::empty()
    } else {
        render_counted_log(entries.drop_last()) + render_line(entries.last()) + seq!['\n']
    }
}

/// How often `c` occurs in `s`.
pub open spec fn occurrences(s: Seq<char>, c: char) -> nat
    decreases s.len(),
{
    if s.len() == 0 {
        0
    } else {
        occurrences(s.drop_last(), c) + if s.last() == c {
            1nat
        } else {
            0nat
        }
    }
}

/// Whether a text can be a field of a line: it holds neither the separator
/// nor a newline.
pub open spec fn is_field(s: Seq<char>) -> bool {
    free_of(s, '|') && free_of(s, '\n')
}

/// Whether a record can be written and read back: its fields can be fields,
/// its hash does not begin with whitespace and its subject does not end
/// with it.
pub open spec fn writable(entry: EntryModel) -> bool {
    &&& is_field(entry.commit)
    &&& is_field(entry.name)
    &&& is_field(entry.time)
    &&& is_field(entry.comment)
    &&& entry.commit.len() > 0 ==> !is_whitespace(entry.commit[0])
    &&& entry.comment.len() > 0 ==> !is_whitespace(entry.comment.last())
}

pub open spec fn all_writable(entries: Seq<EntryModel>) -> bool {
    forall|i: int| 0 <= i < entries.len() ==> writable(#[trigger] entries[i])
}

/// The outcome of a command that succeeded and wrote `stdout`.
pub open spec fn wrote(stdout: Seq<char>) -> OutcomeModel {
    OutcomeModel::Exited { success: true, code: Some(0i32), stdout, stderr: Seq::<char>::empty() }
}

/// The outcome of a piped command of which both sides succeeded and the
/// last wrote `stdout`.
pub open spec fn piped(stdout: Seq<char>) -> OutcomeModel {
    OutcomeModel::Piped {
        source_success: true,
        source_code: Some(0i32),
        source_stderr: Seq::<char>::empty(),
        success: true,
        code: Some(0i32),
        stdout,
        stderr: Seq::<char>::empty(),
    }
}

/// The output of the line counter for `lines` lines.
pub open spec fn render_count(lines: nat) -> Seq<char> {
    decimal_digits(lines) + seq!['\n']
}

/// Text without a separator, put behind another text, extends the last
/// piece of that text.
pub proof fn lemma_split_extends_last_piece(x: Seq<char>, y: Seq<char>, sep: char)
    requires
        free_of(y, sep),
    ensures
        split_on(x + y, sep) == split_on(x, sep).drop_last().push(split_on(x, sep).last() + y),
    decreases y.len(),
{
    let pieces = split_on(x, sep);
    lemma_split_is_not_empty(x, sep);
    if y.len() == 0 {
        assert(x + y == x);
        assert(pieces.last() + y == pieces.last());
        assert(pieces.drop_last().push(pieces.last()) == pieces);
    } else {
        let front = y.drop_last();
        assert(free_of(front, sep)) by {
            assert forall|i: int| 0 <= i < front.len() implies #[trigger] front[i] != sep by {
                assert(front[i] == y[i]);
            }
        }
        lemma_split_extends_last_piece(x, front, sep);
        assert((x + y).drop_last() == x + front);
        assert((x + y).last() == y.last());
        assert(y[y.len() - 1] != sep);
        let before = split_on(x + front, sep);
        assert(before.drop_last() == pieces.drop_last());
        assert(before.last().push(y.last()) == pieces.last() + y);
    }
}

/// Text without a separator, put behind a separator, is a piece of its own.
pub proof fn lemma_split_after_separator(x: Seq<char>, y: Seq<char>, sep: char)
    requires
        free_of(y, sep),
    ensures
        split_on(x + seq![sep] + y, sep) == split_on(x, sep).push(y),
{
    let head = x + seq![sep];
    assert(head.drop_last() == x);
    assert(head.last() == sep);
    lemma_split_extends_last_piece(head, y, sep);
    assert(Seq::<char>::empty() + y == y);
    assert(split_on(x, sep).push(Seq::<char>::empty()).drop_last() == split_on(x, sep));
}

/// Text without a separator is its own single piece.
pub proof fn lemma_split_of_one_piece(y: Seq<char>, sep: char)
    requires
        free_of(y, sep),
    ensures
        split_on(y, sep) == seq![y],
{
    lemma_split_extends_last_piece(Seq::<char>::empty(), y, sep);
    assert(Seq::<char>::empty() + y == y);
    assert(seq![Seq::<char>::empty()].drop_last().push(y) == seq![y]);
}

/// A line that begins and ends with something other than whitespace is
/// left as it is by trimming.
pub proof fn lemma_trim_keeps_tight_text(s: Seq<char>)
    requires
        s.len() > 0 ==> !is_whitespace(s[0]) && !is_whitespace(s.last()),
    ensures
        trimmed(s) == s,
{
}

/// The line of a writable record splits into its four fields, is not
/// empty, holds no newline, and is left as it is by trimming.
pub proof fn lemma_line_reads_back(entry: EntryModel)
    requires
        writable(entry),
    ensures
        parse_line(render_line(entry)) == Some(entry),
        trimmed(render_line(entry)) == render_line(entry),
        render_line(entry).len() > 0,
        free_of(render_line(entry), '\n'),
{
    let line = render_line(entry);
    let bar = seq!['|'];
    lemma_split_of_one_piece(entry.commit, '|');
    lemma_split_after_separator(entry.commit, entry.name, '|');
    lemma_split_after_separator(entry.commit + bar + entry.name, entry.time, '|');
    lemma_split_after_separator(
        entry.commit + bar + entry.name + bar + entry.time,
        entry.comment,
        '|',
    );
    let fields = split_on(line, '|');
    assert(fields == seq![entry.commit, entry.name, entry.time, entry.comment]);
    assert(line[entry.commit.len() as int] == '|');
    assert(!is_whitespace('|'));
    assert(line.len() == entry.commit.len() + entry.name.len() + entry.time.len()
        + entry.comment.len() + 3);
    assert(!is_whitespace(line[0])) by {
        if entry.commit.len() > 0 {
            assert(line[0] == entry.commit[0]);
        }
    }
    assert(!is_whitespace(line.last())) by {
        if entry.comment.len() > 0 {
            assert(line.last() == entry.comment.last());
        } else {
            assert(line.last() == '|');
        }
    }
    lemma_trim_keeps_tight_text(line);
    assert forall|i: int| 0 <= i < line.len() implies #[trigger] line[i] != '\n' by {
        let a = entry.commit.len() as int;
        let b = a + 1 + entry.name.len();
        let c = b + 1 + entry.time.len();
        if i < a {
            assert(line[i] == entry.commit[i]);
        } else if i == a {
        } else if i < b {
            assert(line[i] == entry.name[i - a - 1]);
        } else if i == b {
            assert(line[i] == '|');
        } else if i < c {
            assert(line[i] == entry.time[i - b - 1]);
        } else if i == c {
            assert(line[i] == '|');
        } else {
            assert(line[i] == entry.comment[i - c - 1]);
        }
    }
}

/// The output of a page query for writable records, at least one, splits
/// at the newlines into their lines.
pub proof fn lemma_log_splits_into_lines(entries: Seq<EntryModel>)
    requires
        all_writable(entries),
        entries.len() > 0,
    ensures
        split_on(render_log(entries), '\n') == render_lines(entries),
    decreases entries.len(),
{
    let lines = render_lines(entries);
    let line = render_line(entries.last());
    assert(writable(entries[entries.len() - 1]));
    lemma_line_reads_back(entries.last());
    assert(lines.last() == line);
    if entries.len() == 1 {
        lemma_split_of_one_piece(line, '\n');
        assert(lines == seq![line]);
    } else {
        let front = entries.drop_last();
        assert(all_writable(front)) by {
            assert forall|i: int| 0 <= i < front.len() implies writable(#[trigger] front[i]) by {
                assert(front[i] == entries[i]);
            }
        }
        lemma_log_splits_into_lines(front);
        assert(lines.drop_last() == render_lines(front));
        let before = render_log(front);
        assert(before.push('\n') == before + seq!['\n']);
        lemma_split_after_separator(before, line, '\n');
        assert(render_lines(front).push(line) == lines);
    }
}

/// The lines of writable records are all kept.
pub proof fn lemma_lines_are_kept(entries: Seq<EntryModel>)
    requires
        all_writable(entries),
    ensures
        kept_lines(render_lines(entries)) == render_lines(entries),
        parse_lines(render_lines(entries)) == entries,
    decreases entries.len(),
{
    if entries.len() == 0 {
        assert(render_lines(entries) == Seq::<Seq<char>>::empty());
    } else {
        let front = entries.drop_last();
        assert(all_writable(front)) by {
            assert forall|i: int| 0 <= i < front.len() implies writable(#[trigger] front[i]) by {
                assert(front[i] == entries[i]);
            }
        }
        lemma_lines_are_kept(front);
        assert(writable(entries[entries.len() - 1]));
        lemma_line_reads_back(entries.last());
        assert(render_lines(entries).drop_last() == render_lines(front));
        assert(render_lines(entries).last() == render_line(entries.last()));
        assert(front.push(entries.last()) == entries);
    }
}

/// Reading what a page query writes for a list of writable records gives
/// the records back: all of them, once each, in order.
pub proof fn lemma_page_reads_back(entries: Seq<EntryModel>)
    requires
        all_writable(entries),
    ensures
        read_page(wrote(render_log(entries))) == Some(entries),
{
    lemma_lines_are_kept(entries);
    let lines = render_lines(entries);
    if entries.len() == 0 {
        assert(lines == Seq::<Seq<char>>::empty());
        let pieces = seq![Seq::<char>::empty()];
        assert(pieces.drop_last() == Seq::<Seq<char>>::empty());
        assert(trimmed(Seq::<char>::empty()) == Seq::<char>::empty());
        assert(kept_lines(pieces) == Seq::<Seq<char>>::empty());
        assert(entries == Seq::<EntryModel>::empty());
    } else {
        lemma_log_splits_into_lines(entries);
    }
    assert(page_lines(render_log(entries)) == lines);
}

/// A query that succeeds and writes nothing gives an empty page, not a
/// failure.
pub proof fn lemma_empty_output_is_an_empty_page(o: OutcomeModel)
    requires
        read_output(o) == Ok::<Seq<char>, FailureModel>(Seq::<char>::empty()),
    ensures
        read_page(o) == Some(Seq::<EntryModel>::empty()),
{
    assert(all_writable(Seq::<EntryModel>::empty()));
    lemma_page_reads_back(Seq::<EntryModel>::empty());
}

/// The occurrences in a text made of two are those in the one and those in
/// the other.
pub proof fn lemma_occurrences_add_up(a: Seq<char>, b: Seq<char>, c: char)
    ensures
        occurrences(a + b, c) == occurrences(a, c) + occurrences(b, c),
    decreases b.len(),
{
    if b.len() == 0 {
        assert(a + b == a);
    } else {
        lemma_occurrences_add_up(a, b.drop_last(), c);
        assert((a + b).drop_last() == a + b.drop_last());
        assert((a + b).last() == b.last());
    }
}

/// A text that is free of a character has no occurrence of it.
pub proof fn lemma_free_text_has_no_occurrence(s: Seq<char>, c: char)
    requires
        free_of(s, c),
    ensures
        occurrences(s, c) == 0,
    decreases s.len(),
{
    if s.len() > 0 {
        let front = s.drop_last();
        assert(free_of(front, c)) by {
            assert forall|i: int| 0 <= i < front.len() implies #[trigger] front[i] != c by {
                assert(front[i] == s[i]);
            }
        }
        lemma_free_text_has_no_occurrence(front, c);
        assert(s[s.len() - 1] != c);
    }
}

/// What the `git` of the count query writes has one newline for each
/// record, so that a count of its lines is a count of the records.
pub proof fn lemma_counted_log_has_a_line_for_each_record(entries: Seq<EntryModel>)
    requires
        all_writable(entries),
    ensures
        occurrences(render_counted_log(entries), '\n') == entries.len(),
    decreases entries.len(),
{
    if entries.len() > 0 {
        let front = entries.drop_last();
        assert(all_writable(front)) by {
            assert forall|i: int| 0 <= i < front.len() implies writable(#[trigger] front[i]) by {
                assert(front[i] == entries[i]);
            }
        }
        lemma_counted_log_has_a_line_for_each_record(front);
        assert(writable(entries[entries.len() - 1]));
        let line = render_line(entries.last());
        lemma_line_reads_back(entries.last());
        lemma_free_text_has_no_occurrence(line, '\n');
        let end = seq!['\n'];
        assert(end.drop_last() == Seq::<char>::empty());
        assert(end.last() == '\n');
        assert(occurrences(Seq::<char>::empty(), '\n') == 0);
        assert(occurrences(end, '\n') == 1);
        lemma_occurrences_add_up(render_counted_log(front), line, '\n');
        lemma_occurrences_add_up(render_counted_log(front) + line, end, '\n');
    }
}

/// A piped command whose `git` failed gives a failure, whatever the command
/// behind the pipe wrote: a log that could not be read is not counted.
pub proof fn lemma_failed_source_fails_the_pipe(o: OutcomeModel)
    requires
        o matches OutcomeModel::Piped { source_success, .. } && !source_success,
    ensures
        read_output(o) is Err,
        read_count(o) is None,
{
}

/// A number written in base ten is a run of digits that writes the number.
pub proof fn lemma_decimal_reads_back(n: nat)
    ensures
        all_digits(decimal_digits(n)),
        decimal_digits(n).len() > 0,
        digits_value(decimal_digits(n)) == n,
    decreases n,
{
    if n < 10 {
        let s = seq![digit(n)];
        assert(s.drop_last() == Seq::<char>::empty());
        assert(digits_value(s.drop_last()) == 0);
        assert(is_digit(digit(n)));
    } else {
        lemma_decimal_reads_back(n / 10);
        let front = decimal_digits(n / 10);
        let s = front.push(digit(n % 10));
        assert(s.drop_last() == front);
        assert(is_digit(digit(n % 10)));
        assert forall|i: int| 0 <= i < s.len() implies is_digit(#[trigger] s[i]) by {
            if i < front.len() {
                assert(s[i] == front[i]);
            }
        }
    }
}

/// The count that the line counter writes is read back as it is.
pub proof fn lemma_count_reads_back(lines: usize)
    ensures
        read_count(piped(render_count(lines as nat))) == Some(lines),
{
    let digits = decimal_digits(lines as nat);
    lemma_decimal_reads_back(lines as nat);
    let text = render_count(lines as nat);
    assert(is_digit(digits[0]));
    assert(is_digit(digits[digits.len() - 1]));
    assert(text[0] == digits[0]);
    assert(trim_start(text) == text);
    assert(is_whitespace('\n'));
    assert(text.drop_last() == digits);
    assert(trim_end(digits) == digits);
    assert(trim_end(text) == digits);
    assert(unsigned_body(digits) == digits);
}

/// What a page query gets from a repository whose log is `log`.
pub open spec fn page_reply(log: Seq<EntryModel>, page_size: nat, page: nat) -> OutcomeModel {
    wrote(render_log(page_of(log, page_size, page)))
}

/// What the count query gets from a repository whose log is `log`: the
/// number of newlines in what `git` writes for it.
pub open spec fn count_reply(log: Seq<EntryModel>) -> OutcomeModel {
    piped(render_count(occurrences(render_counted_log(log), '\n')))
}

/// A page query on a log of writable records is read as that page of the
/// log.
pub proof fn lemma_page_reply_reads_back(log: Seq<EntryModel>, page_size: nat, page: nat)
    requires
        all_writable(log),
    ensures
        read_page(page_reply(log, page_size, page)) == Some(page_of(log, page_size, page)),
        page_len_of(page_reply(log, page_size, page)) == page_len(log.len(), page_size, page),
{
    let shown = page_of(log, page_size, page);
    assert(all_writable(shown)) by {
        assert forall|i: int| 0 <= i < shown.len() implies writable(#[trigger] shown[i]) by {
            let from = if page_size * page < log.len() {
                (page_size * page) as int
            } else {
                log.len() as int
            };
            assert(shown[i] == log[from + i]);
        }
    }
    lemma_page_reads_back(shown);
    lemma_page_len(log, page_size, page);
}

/// The count query on a log is read as the number of its pages.
pub proof fn lemma_count_reply_reads_back(log: Seq<EntryModel>, page_size: nat)
    requires
        all_writable(log),
        page_size >= 1,
        log.len() <= usize::MAX,
    ensures
        read_page_count(count_reply(log), page_size) == Some(
            page_count_of(log.len(), page_size) as usize,
        ),
        pages_of(count_reply(log), page_size) == page_count_of(log.len(), page_size),
{
    lemma_counted_log_has_a_line_for_each_record(log);
    lemma_count_reads_back(log.len() as usize);
    lemma_page_count_is_ceiling(log.len(), page_size);
}

/// On a repository whose log is `log`, moving down is done once the page
/// shown and the count have been read, and the cursor has then moved as
/// `moved_down` says for that log.
pub proof fn lemma_move_down_on_log(t: TuiModel, log: Seq<EntryModel>)
    requires
        all_writable(log),
        t.history.page_size >= 1,
        log.len() <= usize::MAX,
    ensures
        move_down_step(
            t,
            seq![page_reply(log, t.history.page_size, t.page), count_reply(log)],
        ) == (
            StepModel::Done(()),
            t.at(
                moved_down(
                    t.position(),
                    page_len(log.len(), t.history.page_size, t.page),
                    page_count_of(log.len(), t.history.page_size),
                ),
            ),
        ),
{
    lemma_page_reply_reads_back(log, t.history.page_size, t.page);
    lemma_count_reply_reads_back(log, t.history.page_size);
}

/// On a repository whose log is `log`, moving up is done once the page
/// above has been read, and the cursor has then moved as `moved_up` says
/// for that log.
pub proof fn lemma_move_up_on_log(t: TuiModel, log: Seq<EntryModel>)
    requires
        all_writable(log),
    ensures
        move_up_step(t, seq![page_reply(log, t.history.page_size, (t.page - 1) as nat)]) == (
            StepModel::Done(()),
            t.at(
                moved_up(
                    t.position(),
                    page_len(log.len(), t.history.page_size, (t.page - 1) as nat),
                ),
            ),
        ),
{
    lemma_page_reply_reads_back(log, t.history.page_size, (t.page - 1) as nat);
}

} // verus!
