//! Pages as windows over a log, and the cursor's way through them. A log is
//! a sequence of records, newest first; a page query skips the pages before
//! it and shows one page at most. What is proved here is that the pages, read
//! in order, are the log, and that the cursor walks it record by record.

use crate::history::page_count_of;
use crate::tui::{moved_down, moved_up, paged_down, paged_up, Position};
use vstd::arithmetic::div_mod::{lemma_fundamental_div_mod, lemma_fundamental_div_mod_converse};
use vstd::prelude::*;

verus! {

/// What a log query shows that skips `skip` records and shows `max` at most.
pub open spec fn window<A>(log: Seq<A>, skip: nat, max: nat) -> Seq<A> {
    let from = if skip < log.len() {
        skip
    } else {
        log.len()
    };
    let to = if skip + max < log.len() {
        skip + max
    } else {
        log.len()
    };
    log.subrange(from as int, to as int)
}

/// Page `page` of a log at `page_size` records a page.
pub open spec fn page_of<A>(log: Seq<A>, page_size: nat, page: nat) -> Seq<A> {
    window(log, page_size * page, page_size)
}

/// The first `pages` pages of a log, one after the other.
pub open spec fn pages_joined<A>(log: Seq<A>, page_size: nat, pages: nat) -> Seq<A>
    decreases pages,
{
    if pages == 0 {
        Seq::<A>::empty()
    } else {
        pages_joined(log, page_size, (pages - 1) as nat) + page_of(
            log,
            page_size,
            (pages - 1) as nat,
        )
    }
}

/// The place of the record with index `index`: its page and its row.
pub open spec fn place(index: nat, page_size: nat) -> Position {
    Position { page: index / page_size, cursor: index % page_size }
}

/// No page holds more than a page's worth of records; every page before the
/// last is full; the last holds at least one; a page past the last is empty.
pub proof fn lemma_page_lengths<A>(log: Seq<A>, page_size: nat, page: nat)
    requires
        page_size >= 1,
    ensures
        page_of(log, page_size, page).len() <= page_size,
        page + 1 < page_count_of(log.len(), page_size) ==> page_of(log, page_size, page).len()
            == page_size,
        page + 1 == page_count_of(log.len(), page_size) ==> page_of(log, page_size, page).len()
            >= 1,
        page >= page_count_of(log.len(), page_size) ==> page_of(log, page_size, page)
            == Seq::<A>::empty(),
{
    let n = log.len();
    let pages = page_count_of(n, page_size);
    crate::history::lemma_page_count_is_ceiling(n, page_size);
    if page + 1 < pages {
        assert((page + 1) * page_size <= (pages - 1) * page_size) by (nonlinear_arith)
            requires
                page + 1 <= pages - 1,
                page_size >= 1,
        ;
        assert((page + 1) * page_size == page_size * page + page_size) by (nonlinear_arith);
    } else if page + 1 == pages {
        assert(page_size * page == (pages - 1) * page_size) by (nonlinear_arith)
            requires
                page + 1 == pages,
        ;
    } else {
        assert(page_size * page >= pages * page_size) by (nonlinear_arith)
            requires
                page >= pages,
                page_size >= 1,
        ;
    }
}

/// Every record of the log is on the page and the row that its index gives,
/// and that page is one of the log's pages.
pub proof fn lemma_record_is_at_its_place<A>(log: Seq<A>, page_size: nat, index: nat)
    requires
        page_size >= 1,
        index < log.len(),
    ensures
        place(index, page_size).page < page_count_of(log.len(), page_size),
        place(index, page_size).cursor < page_of(
            log,
            page_size,
            place(index, page_size).page,
        ).len(),
        page_of(log, page_size, place(index, page_size).page)[place(
            index,
            page_size,
        ).cursor as int] == log[index as int],
{
    let page = index / page_size;
    let row = index % page_size;
    lemma_fundamental_div_mod(index as int, page_size as int);
    assert(page_size * page + row == index);
    assert(0 <= row < page_size);
    crate::history::lemma_page_count_is_ceiling(log.len(), page_size);
    let pages = page_count_of(log.len(), page_size);
    if page >= pages {
        assert(page_size * page >= pages * page_size) by (nonlinear_arith)
            requires
                page >= pages,
                page_size >= 1,
        ;
    }
}

/// The first pages of a log, one after the other, are its first records.
pub proof fn lemma_pages_joined_are_a_prefix<A>(log: Seq<A>, page_size: nat, pages: nat)
    requires
        page_size >= 1,
    ensures
        pages_joined(log, page_size, pages) == log.take(
            if page_size * pages < log.len() {
                (page_size * pages) as int
            } else {
                log.len() as int
            },
        ),
    decreases pages,
{
    if pages == 0 {
        assert(page_size * pages == 0) by (nonlinear_arith)
            requires
                pages == 0,
        ;
        assert(log.take(0) == Seq::<A>::empty());
    } else {
        let before = (pages - 1) as nat;
        lemma_pages_joined_are_a_prefix(log, page_size, before);
        assert(page_size * pages == page_size * before + page_size) by (nonlinear_arith)
            requires
                before == pages - 1,
        ;
        let from: int = if page_size * before < log.len() {
            (page_size * before) as int
        } else {
            log.len() as int
        };
        let to: int = if page_size * pages < log.len() {
            (page_size * pages) as int
        } else {
            log.len() as int
        };
        assert(page_of(log, page_size, before) == log.subrange(from, to));
        assert(log.take(from) + log.subrange(from, to) == log.take(to));
    }
}

/// Reading every page in order gives the whole log back: each record once,
/// none left out, newest first.
pub proof fn lemma_pages_cover_the_log<A>(log: Seq<A>, page_size: nat)
    requires
        page_size >= 1,
    ensures
        pages_joined(log, page_size, page_count_of(log.len(), page_size)) == log,
{
    let pages = page_count_of(log.len(), page_size);
    crate::history::lemma_page_count_is_ceiling(log.len(), page_size);
    lemma_pages_joined_are_a_prefix(log, page_size, pages);
    assert(page_size * pages == pages * page_size) by (nonlinear_arith);
    assert(log.take(log.len() as int) == log);
}

/// The number of records on page `page` of a log of `entries` records.
pub open spec fn page_len(entries: nat, page_size: nat, page: nat) -> nat {
    if page_size * page >= entries {
        0
    } else if page_size * page + page_size < entries {
        page_size
    } else {
        (entries - page_size * page) as nat
    }
}

/// `page_len` is the length of the page.
pub proof fn lemma_page_len<A>(log: Seq<A>, page_size: nat, page: nat)
    ensures
        page_of(log, page_size, page).len() == page_len(log.len(), page_size, page),
{
}

/// Where the cursor stands after `moves` moves down from the first record
/// of a log of `entries` records.
pub open spec fn descend(entries: nat, page_size: nat, moves: nat) -> Position
    decreases moves,
{
    if moves == 0 {
        Position { page: 0, cursor: 0 }
    } else {
        let from = descend(entries, page_size, (moves - 1) as nat);
        moved_down(
            from,
            page_len(entries, page_size, from.page),
            page_count_of(entries, page_size),
        )
    }
}

/// Where the cursor stands after `moves` moves up from the record with
/// index `start`.
pub open spec fn ascend(entries: nat, page_size: nat, start: nat, moves: nat) -> Position
    decreases moves,
{
    if moves == 0 {
        place(start, page_size)
    } else {
        let from = ascend(entries, page_size, start, (moves - 1) as nat);
        moved_up(from, page_len(entries, page_size, (from.page - 1) as nat))
    }
}

/// The index of the last record; of the first in an empty log.
pub open spec fn last_index(entries: nat) -> nat {
    if entries > 0 {
        (entries - 1) as nat
    } else {
        0
    }
}

/// A record's place is its index split by the page size.
pub proof fn lemma_place_splits_index(index: nat, page_size: nat)
    requires
        page_size >= 1,
    ensures
        page_size * place(index, page_size).page + place(index, page_size).cursor == index,
        place(index, page_size).cursor < page_size,
{
    lemma_fundamental_div_mod(index as int, page_size as int);
}

/// The record on row `row` of page `page` has the index that the two give.
pub proof fn lemma_place_of_row(index: nat, page_size: nat, page: nat, row: nat)
    requires
        page_size >= 1,
        row < page_size,
        index == page_size * page + row,
    ensures
        place(index, page_size) == (Position { page, cursor: row }),
{
    assert(page * page_size == page_size * page) by (nonlinear_arith);
    lemma_fundamental_div_mod_converse(
        index as int,
        page_size as int,
        page as int,
        row as int,
    );
}

/// Each move down goes to the next record, and the last record is where the
/// moves end: after `moves` moves from the first record the cursor is on
/// record `moves`, or on the last one if there are fewer.
pub proof fn lemma_descend_walks_the_log(entries: nat, page_size: nat, moves: nat)
    requires
        page_size >= 1,
    ensures
        descend(entries, page_size, moves) == place(
            if moves < last_index(entries) {
                moves
            } else {
                last_index(entries)
            },
            page_size,
        ),
    decreases moves,
{
    if moves == 0 {
        lemma_place_of_row(0, page_size, 0, 0);
    } else {
        let before = (moves - 1) as nat;
        lemma_descend_walks_the_log(entries, page_size, before);
        let m: nat = if before < last_index(entries) {
            before
        } else {
            last_index(entries)
        };
        let from = place(m, page_size);
        lemma_place_splits_index(m, page_size);
        let pages = page_count_of(entries, page_size);
        crate::history::lemma_page_count_is_ceiling(entries, page_size);
        if before < last_index(entries) {
            if from.cursor + 1 < page_size {
                lemma_place_of_row(m + 1, page_size, from.page, from.cursor + 1);
            } else {
                assert(page_size * (from.page + 1) == page_size * from.page + page_size)
                    by (nonlinear_arith);
                lemma_place_of_row(m + 1, page_size, from.page + 1, 0);
                if from.page + 1 >= pages {
                    assert(page_size * (from.page + 1) >= pages * page_size) by (nonlinear_arith)
                        requires
                            from.page + 1 >= pages,
                            page_size >= 1,
                    ;
                }
            }
        }
    }
}

/// Each move up goes to the record before, and the first record is where
/// the moves end.
pub proof fn lemma_ascend_walks_the_log(entries: nat, page_size: nat, start: nat, moves: nat)
    requires
        page_size >= 1,
        start < entries,
    ensures
        ascend(entries, page_size, start, moves) == place(
            if moves < start {
                (start - moves) as nat
            } else {
                0
            },
            page_size,
        ),
    decreases moves,
{
    if moves > 0 {
        let before = (moves - 1) as nat;
        lemma_ascend_walks_the_log(entries, page_size, start, before);
        let m: nat = if before < start {
            (start - before) as nat
        } else {
            0
        };
        let from = place(m, page_size);
        lemma_place_splits_index(m, page_size);
        if m == 0 {
            lemma_place_of_row(0, page_size, 0, 0);
        } else if from.cursor > 0 {
            lemma_place_of_row((m - 1) as nat, page_size, from.page, (from.cursor - 1) as nat);
        } else {
            let above = (from.page - 1) as nat;
            assert(from.page > 0) by (nonlinear_arith)
                requires
                    page_size * from.page == m,
                    m > 0,
            ;
            assert(page_size * above + page_size == page_size * from.page) by (nonlinear_arith)
                requires
                    above == from.page - 1,
            ;
            assert(page_len(entries, page_size, above) == page_size);
            lemma_place_of_row((m - 1) as nat, page_size, above, (page_size - 1) as nat);
        }
    }
}

/// A move down leaves the cursor on a record of the page it is on then,
/// where it was on one before: on the same page it stays below the page's
/// length, and on another page it is on the first row. Where the pages are
/// counted it never ends on a page past the last.
pub proof fn lemma_move_down_keeps_cursor_on_page(from: Position, len: nat, pages: nat)
    requires
        from.cursor < len || from.cursor == 0,
    ensures
        ({
            let to = moved_down(from, len, pages);
            if to.page == from.page {
                to.cursor < len || to.cursor == 0
            } else {
                to.cursor == 0 && to.page < pages
            }
        }),
        from.cursor + 1 >= len && pages > 0 ==> moved_down(from, len, pages).page < pages,
        from.page + 1 < pages ==> moved_down(from, len, pages).page <= from.page + 1,
{
}

/// A move up leaves the cursor on a record of the page it is on then: on the
/// same page it goes down by one or stays on the first row, and on the page
/// above it is on that page's last record.
pub proof fn lemma_move_up_keeps_cursor_on_page(from: Position, len: nat, above: nat)
    requires
        from.cursor < len || from.cursor == 0,
    ensures
        ({
            let to = moved_up(from, above);
            if to.page == from.page {
                to.cursor < len || to.cursor == 0
            } else {
                to.page + 1 == from.page && (to.cursor < above || to.cursor == 0)
            }
        }),
{
}

/// Paging never leaves the pages of the log, and puts the cursor on the
/// first row.
pub proof fn lemma_paging_stays_within_pages(from: Position, pages: nat)
    ensures
        paged_up(from, pages).cursor == 0,
        paged_down(from, pages).cursor == 0,
        pages > 0 ==> paged_up(from, pages).page < pages && paged_down(from, pages).page < pages,
        pages == 0 ==> paged_up(from, pages).page == 0 && paged_down(from, pages).page == 0,
        from.page + 1 < pages ==> paged_down(from, pages).page == from.page + 1,
        0 < from.page <= pages ==> paged_up(from, pages).page == from.page - 1,
{
}

} // verus!
