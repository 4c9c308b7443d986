use git_history::git::{GitCommand, Outcome, Step};
use git_history::history::Entry;
use git_history::tui::{Control, TuiEvent, TuiKey, TUI};

/// A repository that answers the browser's commands from memory and counts
/// what it is asked.
struct Repo {
    lines: Vec<String>,
    head: String,
    stash_fails: bool,
    reset_fails: bool,
    asked: Vec<Vec<String>>,
}

fn wrote(stdout: String) -> Outcome {
    Outcome::Exited { success: true, code: Some(0), stdout, stderr: String::new() }
}

fn failed(stderr: &str) -> Outcome {
    Outcome::Exited { success: false, code: Some(1), stdout: String::new(), stderr: stderr.to_string() }
}

fn number_after(args: &[String], prefix: &str) -> usize {
    for arg in args {
        if arg.starts_with(prefix) {
            return arg[prefix.len()..].parse::<usize>().unwrap_or(usize::MAX);
        }
    }
    panic!("no argument {}", prefix);
}

impl Repo {
    fn with_commits(count: usize) -> Repo {
        let mut lines = Vec::new();
        let mut i = 0;
        while i < count {
            lines.push(format!("c{:03}|Author {}|{} days ago|Subject {}", i, i, i, i));
            i += 1;
        }
        Repo { lines, head: "c000".to_string(), stash_fails: false, reset_fails: false, asked: Vec::new() }
    }

    fn run(&mut self, command: &GitCommand) -> Outcome {
        assert_eq!(command.dir, "/repo");
        self.asked.push(command.args.clone());
        let verb = command.args[0].as_str();
        if verb == "log" && command.pipe.is_some() {
            assert_eq!(command.pipe, Some(vec!["wc".to_string(), "-l".to_string()]));
            Outcome::Piped {
                source_success: true,
                source_code: Some(0),
                source_stderr: String::new(),
                success: true,
                code: Some(0),
                stdout: format!("{:>8}\n", self.lines.len()),
                stderr: String::new(),
            }
        } else if verb == "log" {
            let skip = number_after(&command.args, "--skip=");
            let max = number_after(&command.args, "--max-count=");
            let mut out = String::new();
            for line in self.lines.iter().skip(skip).take(max) {
                out.push_str(line);
                out.push('\n');
            }
            wrote(out)
        } else if verb == "rev-parse" {
            wrote(format!("{}\n", self.head))
        } else if verb == "stash" {
            if self.stash_fails {
                failed("cannot stash")
            } else {
                wrote(String::new())
            }
        } else if verb == "reset" {
            if self.reset_fails {
                failed("cannot reset")
            } else {
                self.head = command.args[2].clone();
                wrote(String::new())
            }
        } else {
            panic!("unexpected command {:?}", command);
        }
    }

    fn count_of(&self, verb: &str) -> usize {
        self.asked.iter().filter(|args| args[0] == verb).count()
    }
}

fn drive<T>(repo: &mut Repo, mut operation: impl FnMut(&[Outcome]) -> Step<T>) -> T {
    let mut replies: Vec<Outcome> = Vec::new();
    loop {
        match operation(&replies) {
            Step::Run(command) => replies.push(repo.run(&command)),
            Step::Done(result) => return result,
        }
    }
}

fn open(repo: &mut Repo, height: usize) -> TUI<'static> {
    let mut replies: Vec<Outcome> = Vec::new();
    loop {
        match TUI::new(height, "/repo", &replies) {
            Step::Run(command) => {
                let outcome = repo.run(&command);
                if let Err(e) = outcome.read() {
                    panic!("no controller: {:?}", e);
                }
                replies.push(outcome);
            }
            Step::Done(tui) => return tui,
        }
    }
}

fn down(repo: &mut Repo, tui: &mut TUI<'static>, moves: usize) {
    let mut i = 0;
    while i < moves {
        drive(repo, |replies| tui.move_down(replies));
        i += 1;
    }
}

fn up(repo: &mut Repo, tui: &mut TUI<'static>, moves: usize) {
    let mut i = 0;
    while i < moves {
        drive(repo, |replies| tui.move_up(replies));
        i += 1;
    }
}

#[test]
fn new_starts_on_the_first_row_of_the_first_page() {
    let mut repo = Repo::with_commits(10);
    let tui = open(&mut repo, 8);
    assert_eq!((tui.page(), tui.cursor()), (0, 0));
    assert_eq!(tui.history().page_size(), 4);
    assert_eq!(tui.history().head_rev(), "c000");
    assert_eq!(tui.history().cwd(), "/repo");
    assert_eq!(repo.asked, vec![vec!["rev-parse".to_string(), "--short".to_string(), "HEAD".to_string()]]);
}

#[test]
fn page_size_is_the_height_without_the_chrome() {
    let mut repo = Repo::with_commits(3);
    assert_eq!(open(&mut repo, 24).history().page_size(), 20);
    assert_eq!(open(&mut repo, 5).history().page_size(), 1);
    assert_eq!(open(&mut repo, 4).history().page_size(), 1);
    assert_eq!(open(&mut repo, 0).history().page_size(), 1);
    assert_eq!(open(&mut repo, usize::MAX).history().page_size(), usize::MAX - 4);
}

#[test]
fn move_down_walks_pages_of_four_four_two() {
    let mut repo = Repo::with_commits(10);
    let mut tui = open(&mut repo, 8);
    let expected = [(0, 1), (0, 2), (0, 3), (1, 0), (1, 1), (1, 2), (1, 3), (2, 0), (2, 1)];
    for place in expected {
        down(&mut repo, &mut tui, 1);
        assert_eq!((tui.page(), tui.cursor()), place);
    }
}

#[test]
fn move_down_from_the_last_record_is_a_no_op() {
    let mut repo = Repo::with_commits(10);
    let mut tui = open(&mut repo, 8);
    down(&mut repo, &mut tui, 9);
    assert_eq!((tui.page(), tui.cursor()), (2, 1));
    down(&mut repo, &mut tui, 5);
    assert_eq!((tui.page(), tui.cursor()), (2, 1));
}

#[test]
fn move_down_on_two_full_pages_ends_on_the_last_row_of_the_second() {
    let mut repo = Repo::with_commits(8);
    let mut tui = open(&mut repo, 8);
    down(&mut repo, &mut tui, 7);
    assert_eq!((tui.page(), tui.cursor()), (1, 3));
    down(&mut repo, &mut tui, 1);
    assert_eq!((tui.page(), tui.cursor()), (1, 3));
}

#[test]
fn move_down_lands_on_the_record_that_the_moves_count() {
    let mut size = 1;
    while size <= 5 {
        let mut commits = 0;
        while commits <= 11 {
            let mut repo = Repo::with_commits(commits);
            let mut tui = open(&mut repo, size + 4);
            let mut moves = 0;
            while moves <= commits + 2 {
                let index = if commits == 0 { 0 } else { moves.min(commits - 1) };
                assert_eq!((tui.page(), tui.cursor()), (index / size, index % size));
                down(&mut repo, &mut tui, 1);
                moves += 1;
            }
            commits += 1;
        }
        size += 1;
    }
}

#[test]
fn move_down_counts_the_pages_only_on_the_last_row() {
    let mut repo = Repo::with_commits(10);
    let mut tui = open(&mut repo, 8);
    repo.asked.clear();
    down(&mut repo, &mut tui, 1);
    assert_eq!(repo.asked.len(), 1);
    assert!(repo.asked[0].contains(&"--skip=0".to_string()));
    down(&mut repo, &mut tui, 2);
    repo.asked.clear();
    down(&mut repo, &mut tui, 1);
    assert_eq!(repo.asked.len(), 2);
    assert_eq!((tui.page(), tui.cursor()), (1, 0));
}

#[test]
fn move_down_comes_back_into_a_log_that_shrank() {
    let mut repo = Repo::with_commits(20);
    let mut tui = open(&mut repo, 8);
    down(&mut repo, &mut tui, 19);
    assert_eq!((tui.page(), tui.cursor()), (4, 3));
    repo.lines.truncate(6);
    down(&mut repo, &mut tui, 1);
    assert_eq!((tui.page(), tui.cursor()), (1, 0));
    down(&mut repo, &mut tui, 1);
    assert_eq!((tui.page(), tui.cursor()), (1, 1));
    down(&mut repo, &mut tui, 1);
    assert_eq!((tui.page(), tui.cursor()), (1, 1));
}

#[test]
fn move_down_from_a_page_past_the_count_goes_to_the_last_page() {
    let mut repo = Repo::with_commits(20);
    let mut tui = open(&mut repo, 8);
    down(&mut repo, &mut tui, 19);
    let page = wrote("c016|a|b|c\nc017|a|b|c\nc018|a|b|c\nc019|a|b|c".to_string());
    let count = wrote("6\n".to_string());
    assert_eq!(tui.move_down(&[page, count]), Step::Done(()));
    assert_eq!((tui.page(), tui.cursor()), (1, 0));
}

#[test]
fn move_down_stays_on_its_page_while_rows_are_left() {
    let mut repo = Repo::with_commits(20);
    let mut tui = open(&mut repo, 8);
    down(&mut repo, &mut tui, 17);
    assert_eq!((tui.page(), tui.cursor()), (4, 1));
    let page = wrote("c016|a|b|c\nc017|a|b|c\nc018|a|b|c\nc019|a|b|c".to_string());
    assert_eq!(tui.move_down(&[page]), Step::Done(()));
    assert_eq!((tui.page(), tui.cursor()), (4, 2));
}

#[test]
fn move_up_from_the_first_record_is_a_no_op_and_asks_nothing() {
    let mut repo = Repo::with_commits(10);
    let mut tui = open(&mut repo, 8);
    repo.asked.clear();
    up(&mut repo, &mut tui, 3);
    assert_eq!((tui.page(), tui.cursor()), (0, 0));
    assert!(repo.asked.is_empty());
}

#[test]
fn move_up_within_a_page_asks_nothing() {
    let mut repo = Repo::with_commits(10);
    let mut tui = open(&mut repo, 8);
    down(&mut repo, &mut tui, 2);
    repo.asked.clear();
    up(&mut repo, &mut tui, 1);
    assert_eq!((tui.page(), tui.cursor()), (0, 1));
    assert!(repo.asked.is_empty());
}

#[test]
fn move_up_from_the_first_row_goes_to_the_last_row_of_the_page_above() {
    let mut repo = Repo::with_commits(10);
    let mut tui = open(&mut repo, 8);
    down(&mut repo, &mut tui, 8);
    assert_eq!((tui.page(), tui.cursor()), (2, 0));
    repo.asked.clear();
    up(&mut repo, &mut tui, 1);
    assert_eq!((tui.page(), tui.cursor()), (1, 3));
    assert_eq!(repo.asked.len(), 1);
    assert!(repo.asked[0].contains(&"--skip=4".to_string()));
}

#[test]
fn move_up_undoes_move_down() {
    let mut repo = Repo::with_commits(10);
    let mut tui = open(&mut repo, 7);
    down(&mut repo, &mut tui, 9);
    assert_eq!((tui.page(), tui.cursor()), (3, 0));
    let mut index = 9;
    while index > 0 {
        up(&mut repo, &mut tui, 1);
        index -= 1;
        assert_eq!((tui.page(), tui.cursor()), (index / 3, index % 3));
    }
    up(&mut repo, &mut tui, 1);
    assert_eq!((tui.page(), tui.cursor()), (0, 0));
}

#[test]
fn move_up_onto_an_empty_page_puts_the_cursor_on_row_zero() {
    let mut tui = match TUI::new(8, "/repo", &[wrote("c000\n".to_string())]) {
        Step::Done(tui) => tui,
        Step::Run(command) => panic!("unexpected {:?}", command),
    };
    let count = wrote("10\n".to_string());
    assert_eq!(tui.page_down(&[count]), Step::Done(()));
    assert_eq!((tui.page(), tui.cursor()), (1, 0));
    assert_eq!(tui.move_up(&[wrote(String::new())]), Step::Done(()));
    assert_eq!((tui.page(), tui.cursor()), (0, 0));
}

#[test]
fn move_up_treats_a_failed_query_as_an_empty_page() {
    let mut repo = Repo::with_commits(10);
    let mut tui = open(&mut repo, 8);
    down(&mut repo, &mut tui, 4);
    assert_eq!(tui.move_up(&[failed("fatal")]), Step::Done(()));
    assert_eq!((tui.page(), tui.cursor()), (0, 0));
}

#[test]
fn move_down_stays_when_nothing_can_be_read() {
    let mut repo = Repo::with_commits(10);
    let mut tui = open(&mut repo, 8);
    down(&mut repo, &mut tui, 2);
    assert_eq!(tui.move_down(&[failed("fatal"), failed("fatal")]), Step::Done(()));
    assert_eq!((tui.page(), tui.cursor()), (0, 2));
}

#[test]
fn page_down_and_up_change_the_page_and_reset_the_row() {
    let mut repo = Repo::with_commits(10);
    let mut tui = open(&mut repo, 8);
    down(&mut repo, &mut tui, 2);
    drive(&mut repo, |replies| tui.page_down(replies));
    assert_eq!((tui.page(), tui.cursor()), (1, 0));
    down(&mut repo, &mut tui, 3);
    drive(&mut repo, |replies| tui.page_down(replies));
    assert_eq!((tui.page(), tui.cursor()), (2, 0));
    down(&mut repo, &mut tui, 1);
    drive(&mut repo, |replies| tui.page_down(replies));
    assert_eq!((tui.page(), tui.cursor()), (2, 0));
    down(&mut repo, &mut tui, 1);
    drive(&mut repo, |replies| tui.page_up(replies));
    assert_eq!((tui.page(), tui.cursor()), (1, 0));
    drive(&mut repo, |replies| tui.page_up(replies));
    assert_eq!((tui.page(), tui.cursor()), (0, 0));
    down(&mut repo, &mut tui, 1);
    drive(&mut repo, |replies| tui.page_up(replies));
    assert_eq!((tui.page(), tui.cursor()), (0, 0));
}

#[test]
fn paging_without_pages_stays_on_the_first() {
    let mut repo = Repo::with_commits(0);
    let mut tui = open(&mut repo, 8);
    drive(&mut repo, |replies| tui.page_down(replies));
    assert_eq!((tui.page(), tui.cursor()), (0, 0));
    drive(&mut repo, |replies| tui.page_up(replies));
    assert_eq!((tui.page(), tui.cursor()), (0, 0));
    assert_eq!(tui.page_down(&[failed("fatal")]), Step::Done(()));
    assert_eq!((tui.page(), tui.cursor()), (0, 0));
}

#[test]
fn paging_comes_back_into_a_log_that_shrank() {
    let mut repo = Repo::with_commits(20);
    let mut tui = open(&mut repo, 8);
    let mut i = 0;
    while i < 4 {
        drive(&mut repo, |replies| tui.page_down(replies));
        i += 1;
    }
    assert_eq!(tui.page(), 4);
    repo.lines.truncate(6);
    drive(&mut repo, |replies| tui.page_down(replies));
    assert_eq!((tui.page(), tui.cursor()), (1, 0));
    let mut i = 0;
    while i < 4 {
        drive(&mut repo, |replies| tui.page_down(replies));
        i += 1;
    }
    repo.lines.truncate(2);
    assert_eq!(tui.page(), 1);
    drive(&mut repo, |replies| tui.page_up(replies));
    assert_eq!((tui.page(), tui.cursor()), (0, 0));
}

#[test]
fn resize_goes_back_to_the_first_row_of_the_first_page() {
    let mut repo = Repo::with_commits(10);
    let mut tui = open(&mut repo, 8);
    down(&mut repo, &mut tui, 6);
    assert_eq!((tui.page(), tui.cursor()), (1, 2));
    tui.resize(10);
    assert_eq!((tui.page(), tui.cursor()), (0, 0));
    assert_eq!(tui.history().page_size(), 6);
    tui.resize(2);
    assert_eq!((tui.page(), tui.cursor()), (0, 0));
    assert_eq!(tui.history().page_size(), 1);
    assert_eq!(tui.history().head_rev(), "c000");
}

#[test]
fn reading_every_page_in_order_gives_the_whole_log() {
    let mut size = 1;
    while size <= 6 {
        let mut commits = 0;
        while commits <= 13 {
            let mut repo = Repo::with_commits(commits);
            let tui = open(&mut repo, size + 4);
            let pages = drive(&mut repo, |replies| tui.get_page_count(replies));
            assert_eq!(pages, (commits + size - 1) / size);
            let mut seen: Vec<String> = Vec::new();
            let mut page = 0;
            while page < pages {
                let entries = drive(&mut repo, |replies| tui.get_page_data(page, replies));
                assert!(entries.len() <= size);
                if page + 1 < pages {
                    assert_eq!(entries.len(), size);
                } else {
                    assert!(entries.len() >= 1);
                }
                for entry in &entries {
                    seen.push(format!("{}|{}|{}|{}", entry.commit(), entry.name(), entry.time(), entry.comment()));
                }
                page += 1;
            }
            assert_eq!(seen, repo.lines);
            let past = drive(&mut repo, |replies| tui.get_page_data(pages, replies));
            assert!(past.is_empty());
            commits += 1;
        }
        size += 1;
    }
}

#[test]
fn a_commit_keeps_its_hash_when_the_page_size_changes() {
    let mut repo = Repo::with_commits(10);
    let mut tui = open(&mut repo, 8);
    let before = drive(&mut repo, |replies| tui.get_page_data(1, replies));
    assert_eq!(before[1].commit(), "c005");
    tui.resize(7);
    let after = drive(&mut repo, |replies| tui.get_page_data(1, replies));
    assert_eq!(after[2].commit(), "c005");
}

#[test]
fn get_page_size_and_count_read_failures_as_nothing() {
    let mut repo = Repo::with_commits(10);
    let tui = open(&mut repo, 8);
    assert_eq!(drive(&mut repo, |replies| tui.get_page_size(2, replies)), 2);
    assert_eq!(drive(&mut repo, |replies| tui.get_page_size(3, replies)), 0);
    assert_eq!(tui.get_page_size(0, &[failed("fatal")]), Step::Done(0));
    assert_eq!(drive(&mut repo, |replies| tui.get_page_count(replies)), 3);
    assert_eq!(tui.get_page_count(&[failed("fatal")]), Step::Done(0));
    assert_eq!(tui.get_page_count(&[wrote("many\n".to_string())]), Step::Done(0));
}

#[test]
fn get_cursor_entry_is_the_record_under_the_cursor() {
    let mut repo = Repo::with_commits(10);
    let mut tui = open(&mut repo, 8);
    down(&mut repo, &mut tui, 6);
    let entry: Entry = drive(&mut repo, |replies| tui.get_cursor_entry(replies)).expect("an entry");
    assert_eq!(entry.commit(), "c006");
    assert_eq!(entry.name(), "Author 6");
    assert_eq!(entry.time(), "6 days ago");
    assert_eq!(entry.comment(), "Subject 6");
}

#[test]
fn get_cursor_entry_is_none_in_an_empty_repository() {
    let mut repo = Repo::with_commits(0);
    let tui = open(&mut repo, 8);
    assert!(drive(&mut repo, |replies| tui.get_cursor_entry(replies)).is_none());
    assert!(matches!(tui.get_cursor_entry(&[failed("fatal")]), Step::Done(None)));
}

#[test]
fn reset_to_current_stashes_then_resets_to_the_record() {
    let mut repo = Repo::with_commits(10);
    let mut tui = open(&mut repo, 8);
    down(&mut repo, &mut tui, 5);
    repo.asked.clear();
    assert!(drive(&mut repo, |replies| tui.reset_to_current(replies)));
    assert_eq!(repo.asked.len(), 3);
    assert_eq!(repo.asked[1], vec!["stash".to_string(), "-u".to_string()]);
    assert_eq!(repo.asked[2], vec!["reset".to_string(), "--hard".to_string(), "c005".to_string()]);
    assert_eq!(repo.head, "c005");
    assert_eq!((tui.page(), tui.cursor()), (1, 1));
    assert_eq!(tui.history().head_rev(), "c000");
}

#[test]
fn reset_to_current_does_not_reset_when_the_stash_fails() {
    let mut repo = Repo::with_commits(10);
    repo.stash_fails = true;
    let mut tui = open(&mut repo, 8);
    down(&mut repo, &mut tui, 5);
    assert!(!drive(&mut repo, |replies| tui.reset_to_current(replies)));
    assert_eq!(repo.count_of("stash"), 1);
    assert_eq!(repo.count_of("reset"), 0);
    assert_eq!(repo.head, "c000");
}

#[test]
fn reset_to_current_reports_a_failed_reset() {
    let mut repo = Repo::with_commits(10);
    repo.reset_fails = true;
    let mut tui = open(&mut repo, 8);
    assert!(!drive(&mut repo, |replies| tui.reset_to_current(replies)));
    assert_eq!(repo.count_of("stash"), 1);
    assert_eq!(repo.count_of("reset"), 1);
}

#[test]
fn reset_to_current_touches_nothing_without_a_record() {
    let mut repo = Repo::with_commits(0);
    let mut tui = open(&mut repo, 8);
    assert!(!drive(&mut repo, |replies| tui.reset_to_current(replies)));
    assert_eq!(repo.count_of("stash"), 0);
    assert_eq!(repo.count_of("reset"), 0);
}

#[test]
fn finish_applies_the_stash() {
    let mut repo = Repo::with_commits(3);
    let mut tui = open(&mut repo, 8);
    repo.asked.clear();
    assert!(drive(&mut repo, |replies| tui.finish(replies)));
    assert_eq!(repo.asked, vec![vec!["stash".to_string(), "apply".to_string()]]);
    assert_eq!(tui.finish(&[failed("No stash entries found.")]), Step::Done(false));
}

#[test]
fn current_commit_follows_a_reset_while_the_pages_stay_pinned() {
    let mut repo = Repo::with_commits(10);
    let mut tui = open(&mut repo, 8);
    down(&mut repo, &mut tui, 2);
    assert!(drive(&mut repo, |replies| tui.reset_to_current(replies)));
    assert_eq!(drive(&mut repo, |replies| tui.get_current_commit(replies)), Some("c002".to_string()));
    repo.asked.clear();
    drive(&mut repo, |replies| tui.get_page_data(0, replies));
    assert_eq!(repo.asked[0][2], "c000");
    let entry = Entry::new("c002", "", "", "");
    assert!(drive(&mut repo, |replies| tui.history().is_current_commit(&entry, replies)));
}

#[test]
fn handle_quits_on_q() {
    let mut repo = Repo::with_commits(10);
    let mut tui = open(&mut repo, 8);
    assert_eq!(tui.handle(&TuiEvent::KeyEvent(TuiKey::Char('q')), &[]), Step::Done(Control::Quit));
    assert_eq!(tui.handle(&TuiEvent::KeyEvent(TuiKey::Char('Q')), &[]), Step::Done(Control::Quit));
}

#[test]
fn handle_draws_anew_on_r() {
    let mut repo = Repo::with_commits(10);
    let mut tui = open(&mut repo, 8);
    repo.asked.clear();
    assert_eq!(tui.handle(&TuiEvent::KeyEvent(TuiKey::Char('r')), &[]), Step::Done(Control::Draw));
    assert_eq!(tui.handle(&TuiEvent::KeyEvent(TuiKey::Char('R')), &[]), Step::Done(Control::Draw));
    assert_eq!((tui.page(), tui.cursor()), (0, 0));
}

#[test]
fn handle_passes_over_what_it_does_not_know() {
    let mut repo = Repo::with_commits(10);
    let mut tui = open(&mut repo, 8);
    for event in [
        TuiEvent::UnSupported,
        TuiEvent::KeyEvent(TuiKey::Esc),
        TuiEvent::KeyEvent(TuiKey::Char('x')),
        TuiEvent::KeyEvent(TuiKey::Ctrl('q')),
    ] {
        assert_eq!(tui.handle(&event, &[]), Step::Done(Control::Wait));
    }
    assert_eq!((tui.page(), tui.cursor()), (0, 0));
}

#[test]
fn handle_moves_the_cursor_and_asks_for_a_frame() {
    let mut repo = Repo::with_commits(10);
    let mut tui = open(&mut repo, 8);
    let down_key = TuiEvent::KeyEvent(TuiKey::Down);
    assert_eq!(drive(&mut repo, |replies| tui.handle(&down_key, replies)), Control::Draw);
    assert_eq!((tui.page(), tui.cursor()), (0, 1));
    let page_down = TuiEvent::KeyEvent(TuiKey::PageDown);
    assert_eq!(drive(&mut repo, |replies| tui.handle(&page_down, replies)), Control::Draw);
    assert_eq!((tui.page(), tui.cursor()), (1, 0));
    let up_key = TuiEvent::KeyEvent(TuiKey::Up);
    assert_eq!(drive(&mut repo, |replies| tui.handle(&up_key, replies)), Control::Draw);
    assert_eq!((tui.page(), tui.cursor()), (0, 3));
    assert_eq!(drive(&mut repo, |replies| tui.handle(&page_down, replies)), Control::Draw);
    let page_up = TuiEvent::KeyEvent(TuiKey::PageUp);
    assert_eq!(drive(&mut repo, |replies| tui.handle(&page_up, replies)), Control::Draw);
    assert_eq!((tui.page(), tui.cursor()), (0, 0));
}

#[test]
fn handle_resizes_to_the_new_height() {
    let mut repo = Repo::with_commits(10);
    let mut tui = open(&mut repo, 8);
    down(&mut repo, &mut tui, 5);
    assert_eq!(tui.handle(&TuiEvent::Resize(80, 14), &[]), Step::Done(Control::Draw));
    assert_eq!((tui.page(), tui.cursor()), (0, 0));
    assert_eq!(tui.history().page_size(), 10);
}

#[test]
fn draw_asks_for_count_head_and_page_in_turn() {
    let mut repo = Repo::with_commits(10);
    let mut tui = open(&mut repo, 8);
    down(&mut repo, &mut tui, 5);
    repo.asked.clear();
    let prints = drive(&mut repo, |replies| tui.draw(replies));
    assert_eq!(repo.asked.len(), 3);
    assert_eq!(repo.asked[0][0], "log");
    assert_eq!(repo.asked[1][0], "rev-parse");
    assert!(repo.asked[2].contains(&"--skip=4".to_string()));
    assert_eq!(prints.len(), 6);
    assert_eq!(prints[0].text, "2/3 pages. [/repo]");
    assert_eq!((prints[0].x, prints[0].y), (4, 1));
    assert_eq!(prints[1].text, "c004       4 days ago      Author 4             Subject 4");
    assert_eq!((prints[2].x, prints[2].y), (4, 3));
    assert_eq!((prints[5].x, prints[5].y), (4, 7));
}
