//! The paginated history: commit records, the queries that fetch them page
//! by page, and how their output is read.

use crate::git::{
    exec_command, get_rev_short_sha, git_exec, git_pipe, models, pipe_command, read_output,
    read_short_sha, reset, reset_args, rev_parse_args, stash, stash_args, succeeded, unstash,
    unstash_args, CommandModel, FailureModel, GitCommandError, Outcome, OutcomeModel, Step,
    StepModel,
};
use crate::text::{
    decimal_digits, parse_usize, parsed_usize, push_decimal, split, split_on, trim, trimmed, views,
};
use vstd::pervasive::unreached;
use vstd::prelude::*;
use vstd::slice::slice_subrange;
use vstd::std_specs::cmp::PartialEqSpecImpl;
use vstd::string::StringExecFns;

verus! {

/// One commit of the log.
#[derive(Debug, Clone)]
pub struct Entry {
    name: String,
    time: String,
    comment: String,
    commit: String,
}

/// An `Entry` as plain sequences: the short hash, the author's name, the
/// relative time and the subject.
pub struct EntryModel {
    pub commit: Seq<char>,
    pub name: Seq<char>,
    pub time: Seq<char>,
    pub comment: Seq<char>,
}

impl View for Entry {
    type V = EntryModel;

    closed spec fn view(&self) -> EntryModel {
        EntryModel {
            commit: self.commit@,
            name: self.name@,
            time: self.time@,
            comment: self.comment@,
        }
    }
}

impl Entry {
    pub fn new(commit: &str, name: &str, time: &str, comment: &str) -> (entry: Self)
        ensures
            entry@ == (EntryModel { commit: commit@, name: name@, time: time@, comment: comment@ }),
    {
        Entry {
            commit: commit.to_owned(),
            name: name.to_owned(),
            time: time.to_owned(),
            comment: comment.to_owned(),
        }
    }

    pub fn name(&self) -> (name: &str)
        ensures
            name@ == self@.name,
    {
        self.name.as_str()
    }

    pub fn time(&self) -> (time: &str)
        ensures
            time@ == self@.time,
    {
        self.time.as_str()
    }

    pub fn comment(&self) -> (comment: &str)
        ensures
            comment@ == self@.comment,
    {
        self.comment.as_str()
    }

    pub fn commit(&self) -> (commit: &str)
        ensures
            commit@ == self@.commit,
    {
        self.commit.as_str()
    }
}

/// The text that `{:?}` writes for a string: the string between double
/// quotes, with what does not print escaped.
pub uninterp spec fn debug_text(s: Seq<char>) -> Seq<char>;

/// The `Debug` formatting of `str` in the standard library, reached through
/// `format!` and taken on trust. All that is claimed is that the result is
/// the text named `debug_text` of the argument.
#[verifier::external_body]
fn debug_of(s: &str) -> (out: String)
    ensures
        out@ == debug_text(s@),
{
    format!("{:?}", s)
}

/// The line that describes an entry whose fields are written as given.
pub open spec fn entry_text(
    commit: Seq<char>,
    time: Seq<char>,
    name: Seq<char>,
    comment: Seq<char>,
) -> Seq<char> {
    "Entry: "@ + commit + " "@ + time + " "@ + name + ": "@ + comment
}

/// The line that describes an entry, from its fields as they are to be
/// written.
pub fn write_entry(commit: &str, time: &str, name: &str, comment: &str) -> (text: String)
    ensures
        text@ == entry_text(commit@, time@, name@, comment@),
{
    let mut text = "Entry: ".to_owned();
    text.append(commit);
    text.append(" ");
    text.append(time);
    text.append(" ");
    text.append(name);
    text.append(": ");
    text.append(comment);
    text
}

impl Entry {
    /// The entry in one line, each field written as `{:?}` writes it: hash,
    /// time, author, then the subject behind a colon.
    pub fn to_string(&self) -> (text: String)
        ensures
            text@ == entry_text(
                debug_text(self@.commit),
                debug_text(self@.time),
                debug_text(self@.name),
                debug_text(self@.comment),
            ),
    {
        let commit = debug_of(self.commit.as_str());
        let time = debug_of(self.time.as_str());
        let name = debug_of(self.name.as_str());
        let comment = debug_of(self.comment.as_str());
        write_entry(commit.as_str(), time.as_str(), name.as_str(), comment.as_str())
    }
}

/// Two entries are the same commit when their short hashes are equal.
impl PartialEq for Entry {
    fn eq(&self, other: &Self) -> (same: bool) {
        self.commit == other.commit
    }
}

impl PartialEqSpecImpl for Entry {
    open spec fn obeys_eq_spec() -> bool {
        true
    }

    open spec fn eq_spec(&self, other: &Self) -> bool {
        self@.commit == other@.commit
    }
}

/// The number of pages that `entries` records fill at `page_size` records a
/// page: none for no record, else one more than the full pages before the
/// last record.
pub open spec fn page_count_of(entries: nat, page_size: nat) -> nat {
    if entries == 0 {
        0
    } else {
        ((entries - 1) / page_size as int + 1) as nat
    }
}

/// The page size that a requested size gives: at least one record.
pub open spec fn clamp_page_size(size: usize) -> usize {
    if size < 1 {
        1
    } else {
        size
    }
}

/// The pages are just enough to hold the entries: all of them fit, one page
/// fewer would not hold them, and there is no page exactly when there is no
/// entry.
pub proof fn lemma_page_count_is_ceiling(entries: nat, page_size: nat)
    requires
        page_size >= 1,
    ensures
        page_count_of(entries, page_size) == 0 <==> entries == 0,
        entries <= page_count_of(entries, page_size) * page_size,
        entries > 0 ==> (page_count_of(entries, page_size) - 1) * page_size < entries,
        page_count_of(entries, page_size) <= entries,
{
    if entries > 0 {
        let q = (entries - 1) / page_size as int;
        let r = (entries - 1) % page_size as int;
        assert(entries - 1 == q * page_size + r && 0 <= r < page_size && 0 <= q <= entries - 1)
            by (nonlinear_arith)
            requires
                q == (entries - 1) / page_size as int,
                r == (entries - 1) % page_size as int,
                page_size >= 1,
                entries >= 1,
        ;
        assert((q + 1) * page_size == q * page_size + page_size) by (nonlinear_arith);
    }
}

/// The paginated history of one working directory.
#[derive(Debug)]
pub struct History<'a> {
    cwd: &'a str,
    head_rev: String,
    page_size: usize,
}

/// A `History` as plain values: the working directory, the revision that the
/// pages are read from, and the number of records on a page.
pub struct HistoryModel {
    pub cwd: Seq<char>,
    pub head_rev: Seq<char>,
    pub page_size: nat,
}

impl<'a> View for History<'a> {
    type V = HistoryModel;

    closed spec fn view(&self) -> HistoryModel {
        HistoryModel { cwd: self.cwd@, head_rev: self.head_rev@, page_size: self.page_size as nat }
    }
}

impl<'a> Clone for History<'a> {
    fn clone(&self) -> (copy: Self)
        ensures
            copy@ == self@,
    {
        proof {
            use_type_invariant(self);
        }
        History { cwd: self.cwd, head_rev: self.head_rev.clone(), page_size: self.page_size }
    }
}

/// The arguments that make `git log` write one line for each commit, newest
/// first: short hash, author, relative time and subject, with `|` between
/// them, and a newline between the lines.
pub open spec fn one_line_args() -> Seq<Seq<char>> {
    seq!["log"@, "--pretty=format:%h|%an|%cr|%s"@]
}

/// The same lines, each ended by a newline, so that a count of the lines is
/// a count of the commits.
pub open spec fn counted_line_args() -> Seq<Seq<char>> {
    seq!["log"@, "--pretty=tformat:%h|%an|%cr|%s"@]
}

/// The command line that counts lines.
pub open spec fn count_lines_args() -> Seq<Seq<char>> {
    seq!["wc"@, "-l"@]
}

/// The query that counts the commits of the log.
pub open spec fn count_command(h: HistoryModel) -> CommandModel {
    pipe_command(count_lines_args(), h.cwd, counted_line_args())
}

/// The query for one page: the log read from the pinned revision, `page`
/// pages skipped, one page at most.
pub open spec fn page_command(h: HistoryModel, page: nat) -> CommandModel {
    exec_command(
        h.cwd,
        one_line_args() + seq![
            h.head_rev,
            "--skip="@ + decimal_digits(h.page_size * page),
            "--max-count="@ + decimal_digits(h.page_size),
        ],
    )
}

/// The query for the short hash of the commit that is checked out now.
pub open spec fn head_command(cwd: Seq<char>) -> CommandModel {
    exec_command(cwd, rev_parse_args("HEAD"@))
}

/// The count that the outcome of the count query gives: the number written
/// in its output, whitespace around it aside. An outcome that fails or
/// writes no number gives none.
pub open spec fn read_count(o: OutcomeModel) -> Option<usize> {
    match read_output(o) {
        Ok(text) => parsed_usize(trimmed(text)),
        Err(_) => None,
    }
}

/// The number of pages that the outcome of the count query gives.
pub open spec fn read_page_count(o: OutcomeModel, page_size: nat) -> Option<usize> {
    match read_count(o) {
        Some(entries) => Some(page_count_of(entries as nat, page_size) as usize),
        None => None,
    }
}

/// Of the given lines, those that hold more than whitespace, each without
/// the whitespace around it, in order.
pub open spec fn kept_lines(lines: Seq<Seq<char>>) -> Seq<Seq<char>>
    decreases lines.len(),
{
    if lines.len() == 0 {
        Seq::<Seq<char>>::empty()
    } else {
        let before = kept_lines(lines.drop_last());
        let line = trimmed(lines.last());
        if line.len() > 0 {
            before.push(line)
        } else {
            before
        }
    }
}

/// The lines of a page's output that hold a record.
pub open spec fn page_lines(text: Seq<char>) -> Seq<Seq<char>> {
    kept_lines(split_on(text, '\n'))
}

/// The record that one line writes: four fields with `|` between them, the
/// whitespace around the line aside. A line of any other shape writes none.
pub open spec fn parse_line(line: Seq<char>) -> Option<EntryModel> {
    let fields = split_on(trimmed(line), '|');
    if fields.len() == 4 {
        Some(EntryModel { commit: fields[0], name: fields[1], time: fields[2], comment: fields[3] })
    } else {
        None
    }
}

/// The records that the given lines write, in order; a line that writes none
/// is left out.
pub open spec fn parse_lines(lines: Seq<Seq<char>>) -> Seq<EntryModel>
    decreases lines.len(),
{
    if lines.len() == 0 {
        Seq::<EntryModel>::empty()
    } else {
        let before = parse_lines(lines.drop_last());
        match parse_line(lines.last()) {
            Some(entry) => before.push(entry),
            None => before,
        }
    }
}

/// The lines that the outcome of a page query gives; none only where the
/// command failed.
pub open spec fn read_page_data(o: OutcomeModel) -> Option<Seq<Seq<char>>> {
    match read_output(o) {
        Ok(text) => Some(page_lines(text)),
        Err(_) => None,
    }
}

/// The records that the outcome of a page query gives; none only where the
/// command failed.
pub open spec fn read_page(o: OutcomeModel) -> Option<Seq<EntryModel>> {
    match read_page_data(o) {
        Some(lines) => Some(parse_lines(lines)),
        None => None,
    }
}

/// The short hash that the outcome of the head query gives, if any.
pub open spec fn read_current_commit(o: OutcomeModel) -> Option<Seq<char>> {
    match read_short_sha(o) {
        Ok(sha) => Some(sha),
        Err(_) => None,
    }
}

/// Resetting the working tree to `commit`, as one transaction: the pending
/// changes are put away first; only once that has succeeded is the reset
/// asked for; the result is success only where both commands succeeded.
pub open spec fn reset_to_step(
    cwd: Seq<char>,
    commit: Seq<char>,
    replies: Seq<OutcomeModel>,
) -> StepModel<bool> {
    if replies.len() == 0 {
        StepModel::Run(exec_command(cwd, stash_args()))
    } else if !succeeded(replies[0]) {
        StepModel::Done(false)
    } else if replies.len() == 1 {
        StepModel::Run(exec_command(cwd, reset_args(commit)))
    } else {
        StepModel::Done(succeeded(replies[1]))
    }
}

/// Where putting the changes away fails, the reset is over: it has failed,
/// and no further command is asked for, whatever outcomes follow.
pub proof fn lemma_failed_stash_ends_reset(
    cwd: Seq<char>,
    commit: Seq<char>,
    replies: Seq<OutcomeModel>,
)
    requires
        replies.len() > 0,
        !succeeded(replies[0]),
    ensures
        reset_to_step(cwd, commit, replies) == StepModel::Done(false),
{
}

/// The reset command is asked for only as the second command, after the
/// changes have been put away with success; and the whole succeeds only
/// where both commands did.
pub proof fn lemma_reset_follows_stash(cwd: Seq<char>, commit: Seq<char>, replies: Seq<OutcomeModel>)
    ensures
        reset_to_step(cwd, commit, replies) == StepModel::<bool>::Run(
            exec_command(cwd, reset_args(commit)),
        ) ==> replies.len() == 1 && succeeded(replies[0]),
        reset_to_step(cwd, commit, replies) == StepModel::Done(true) ==> replies.len() >= 2
            && succeeded(replies[0]) && succeeded(replies[1]),
{
    assert(stash_args().len() != reset_args(commit).len());
}

/// The views of a sequence of entries.
pub open spec fn entry_views(entries: Seq<Entry>) -> Seq<EntryModel> {
    entries.map_values(|e: Entry| e@)
}

/// The number of pages for `entries` records at `page_size` a page.
pub fn pages_for(entries: usize, page_size: usize) -> (pages: usize)
    requires
        page_size >= 1,
    ensures
        pages == page_count_of(entries as nat, page_size as nat),
{
    if entries == 0 {
        0
    } else {
        proof {
            lemma_page_count_is_ceiling(entries as nat, page_size as nat);
        }
        (entries - 1) / page_size + 1
    }
}

/// The lines of a page's output that hold a record.
pub fn lines_of(text: &str) -> (lines: Vec<String>)
    ensures
        views(lines@) == page_lines(text@),
{
    let pieces = split(text, '\n');
    let mut lines: Vec<String> = Vec::new();
    let mut i: usize = 0;
    assert(views(pieces@).take(0) == Seq::<Seq<char>>::empty());
    assert(views(lines@) == Seq::<Seq<char>>::empty());
    while i < pieces.len()
        invariant
            i <= pieces.len(),
            views(lines@) == kept_lines(views(pieces@).take(i as int)),
        decreases pieces.len() - i,
    {
        let line = trim(pieces[i].as_str());
        assert(views(pieces@).take(i + 1).drop_last() == views(pieces@).take(i as int));
        assert(views(pieces@).take(i + 1).last() == pieces@[i as int]@);
        if !line.as_str().is_empty() {
            assert(views(lines@.push(line)) == views(lines@).push(line@));
            lines.push(line);
        }
        i += 1;
    }
    assert(views(pieces@).take(pieces.len() as int) == views(pieces@));
    lines
}

/// The records that the given lines write.
pub fn entries_of(lines: &Vec<String>) -> (entries: Vec<Entry>)
    ensures
        entry_views(entries@) == parse_lines(views(lines@)),
{
    let mut entries: Vec<Entry> = Vec::new();
    let mut i: usize = 0;
    assert(views(lines@).take(0) == Seq::<Seq<char>>::empty());
    assert(entry_views(entries@) == Seq::<EntryModel>::empty());
    while i < lines.len()
        invariant
            i <= lines.len(),
            entry_views(entries@) == parse_lines(views(lines@).take(i as int)),
        decreases lines.len() - i,
    {
        assert(views(lines@).take(i + 1).drop_last() == views(lines@).take(i as int));
        assert(views(lines@).take(i + 1).last() == lines@[i as int]@);
        match History::make_entry(lines[i].as_str()) {
            Some(entry) => {
                assert(entry_views(entries@.push(entry)) == entry_views(entries@).push(entry@));
                entries.push(entry);
            },
            None => {},
        }
        i += 1;
    }
    assert(views(lines@).take(lines.len() as int) == views(lines@));
    entries
}

impl<'a> History<'a> {
    #[verifier::type_invariant]
    spec fn well_formed(self) -> bool {
        self.page_size >= 1
    }

    /// A history of `cwd` with `size` records a page, at least one, pinned
    /// to the commit that is checked out when it is made. The one query
    /// resolves that commit. Without it there is no history: an outcome that
    /// gives no hash must not be handed in.
    pub fn new(size: usize, cwd: &'a str, replies: &[Outcome]) -> (step: Step<History<'a>>)
        requires
            replies@.len() > 0 ==> read_short_sha(replies@[0]@) is Ok,
        ensures
            match step {
                Step::Run(command) => replies@.len() == 0 && command@ == head_command(cwd@),
                Step::Done(history) => replies@.len() > 0 && read_short_sha(replies@[0]@) == Ok::<
                    Seq<char>,
                    FailureModel,
                >(history@.head_rev) && history@.cwd == cwd@ && history@.page_size
                    == clamp_page_size(size),
            },
    {
        match get_rev_short_sha(cwd, "HEAD", replies) {
            Step::Run(command) => Step::Run(command),
            Step::Done(Ok(head_rev)) => {
                let page_size: usize = if size < 1 {
                    1
                } else {
                    size
                };
                Step::Done(History { cwd, head_rev, page_size })
            },
            Step::Done(Err(_)) => unreached(),
        }
    }

    pub fn page_size(&self) -> (size: usize)
        ensures
            size == self@.page_size,
            size >= 1,
    {
        proof {
            use_type_invariant(self);
        }
        self.page_size
    }

    pub fn head_rev(&self) -> (rev: &String)
        ensures
            rev@ == self@.head_rev,
    {
        &self.head_rev
    }

    pub fn cwd(&self) -> (dir: &str)
        ensures
            dir@ == self@.cwd,
    {
        self.cwd
    }

    /// Sets the number of records on a page, at least one. Nothing else
    /// changes.
    pub fn resize(&mut self, page_size: usize) -> (this: &mut Self)
        ensures
            this@ == (HistoryModel {
                page_size: clamp_page_size(page_size) as nat,
                ..old(self)@
            }),
            final(self)@ == final(this)@,
    {
        self.page_size = if page_size < 1 {
            1
        } else {
            page_size
        };
        self
    }

    /// The number of commits in the log, counted anew at each call; none
    /// where the count fails or writes no number.
    pub fn entries_count(&self, replies: &[Outcome]) -> (step: Step<Option<usize>>)
        ensures
            step.model() == if replies@.len() == 0 {
                StepModel::Run(count_command(self@))
            } else {
                StepModel::Done(read_count(replies@[0]@))
            },
    {
        let mut args: Vec<String> = Vec::new();
        args.push("log".to_owned());
        args.push("--pretty=tformat:%h|%an|%cr|%s".to_owned());
        assert(views(args@) == counted_line_args());
        let mut pipe: Vec<String> = Vec::new();
        pipe.push("wc".to_owned());
        pipe.push("-l".to_owned());
        assert(views(pipe@) == count_lines_args());
        match git_pipe(pipe, self.cwd, args, replies) {
            Step::Run(command) => Step::Run(command),
            Step::Done(Ok(text)) => Step::Done(parse_usize(trim(text.as_str()).as_str())),
            Step::Done(Err(_)) => Step::Done(None),
        }
    }

    /// The number of pages that the log fills; none where the count is
    /// unknown.
    pub fn page_count(&self, replies: &[Outcome]) -> (step: Step<Option<usize>>)
        ensures
            step.model() == if replies@.len() == 0 {
                StepModel::Run(count_command(self@))
            } else {
                StepModel::Done(read_page_count(replies@[0]@, self@.page_size))
            },
    {
        match self.entries_count(replies) {
            Step::Run(command) => Step::Run(command),
            Step::Done(Some(entries)) => Step::Done(Some(pages_for(entries, self.page_size()))),
            Step::Done(None) => Step::Done(None),
        }
    }

    /// The record that one line of the log writes, if it writes one.
    pub fn make_entry(line: &str) -> (made: Option<Entry>)
        ensures
            match made {
                Some(entry) => parse_line(line@) == Some(entry@),
                None => parse_line(line@) is None,
            },
    {
        let text = trim(line);
        let parts = split(text.as_str(), '|');
        assert(views(parts@).len() == parts@.len());
        if parts.len() == 4 {
            assert(views(parts@)[0] == parts@[0]@);
            assert(views(parts@)[1] == parts@[1]@);
            assert(views(parts@)[2] == parts@[2]@);
            assert(views(parts@)[3] == parts@[3]@);
            Some(
                Entry::new(
                    parts[0].as_str(),
                    parts[1].as_str(),
                    parts[2].as_str(),
                    parts[3].as_str(),
                ),
            )
        } else {
            None
        }
    }

    /// The lines of page `page` that hold a record; none only where the
    /// query failed.
    pub fn get_page_data(&self, page: usize, replies: &[Outcome]) -> (step: Step<
        Option<Vec<String>>,
    >)
        ensures
            match step {
                Step::Run(command) => replies@.len() == 0 && command@ == page_command(
                    self@,
                    page as nat,
                ),
                Step::Done(Some(lines)) => replies@.len() > 0 && read_page_data(replies@[0]@)
                    == Some(views(lines@)),
                Step::Done(None) => replies@.len() > 0 && read_page_data(replies@[0]@) is None,
            },
    {
        let size = self.page_size();
        assert(size * page <= u128::MAX) by (nonlinear_arith)
            requires
                size <= u64::MAX,
                page <= u64::MAX,
        ;
        let skip: u128 = (size as u128) * (page as u128);
        let mut args: Vec<String> = Vec::new();
        args.push("log".to_owned());
        args.push("--pretty=format:%h|%an|%cr|%s".to_owned());
        args.push(self.head_rev.clone());
        let mut skip_arg = "--skip=".to_owned();
        push_decimal(&mut skip_arg, skip);
        args.push(skip_arg);
        let mut count_arg = "--max-count=".to_owned();
        push_decimal(&mut count_arg, size as u128);
        args.push(count_arg);
        assert(views(args@) == page_command(self@, page as nat).args);
        match git_exec(self.cwd, args, replies) {
            Step::Run(command) => Step::Run(command),
            Step::Done(Ok(text)) => Step::Done(Some(lines_of(text.as_str()))),
            Step::Done(Err(_)) => Step::Done(None),
        }
    }

    /// The short hash of the commit that is checked out now, which need not
    /// be the one that the pages are read from; none where the query failed.
    pub fn get_current_commit(&self, replies: &[Outcome]) -> (step: Step<Option<String>>)
        ensures
            match step {
                Step::Run(command) => replies@.len() == 0 && command@ == head_command(self@.cwd),
                Step::Done(Some(sha)) => replies@.len() > 0 && read_current_commit(replies@[0]@)
                    == Some(sha@),
                Step::Done(None) => replies@.len() > 0 && read_current_commit(replies@[0]@)
                    is None,
            },
    {
        match get_rev_short_sha(self.cwd, "HEAD", replies) {
            Step::Run(command) => Step::Run(command),
            Step::Done(Ok(sha)) => Step::Done(Some(sha)),
            Step::Done(Err(_)) => Step::Done(None),
        }
    }

    /// Whether `entry` is the commit that is checked out now. Where the
    /// query fails it is not.
    pub fn is_current_commit(&self, entry: &Entry, replies: &[Outcome]) -> (step: Step<bool>)
        ensures
            step.model() == if replies@.len() == 0 {
                StepModel::Run(head_command(self@.cwd))
            } else {
                StepModel::Done(read_current_commit(replies@[0]@) == Some(entry@.commit))
            },
    {
        match get_rev_short_sha(self.cwd, "HEAD", replies) {
            Step::Run(command) => Step::Run(command),
            Step::Done(Ok(sha)) => Step::Done(sha == entry.commit),
            Step::Done(Err(_)) => Step::Done(false),
        }
    }

    /// Puts the pending changes away, untracked files included, and says
    /// whether that succeeded.
    pub fn stash(&self, replies: &[Outcome]) -> (step: Step<bool>)
        ensures
            step.model() == if replies@.len() == 0 {
                StepModel::Run(exec_command(self@.cwd, stash_args()))
            } else {
                StepModel::Done(succeeded(replies@[0]@))
            },
    {
        match stash(self.cwd, replies) {
            Step::Run(command) => Step::Run(command),
            Step::Done(r) => Step::Done(r.is_ok()),
        }
    }

    /// Brings the changes last put away back, without dropping them from the
    /// stash, and says whether that succeeded.
    pub fn unstash(&self, replies: &[Outcome]) -> (step: Step<bool>)
        ensures
            step.model() == if replies@.len() == 0 {
                StepModel::Run(exec_command(self@.cwd, unstash_args()))
            } else {
                StepModel::Done(succeeded(replies@[0]@))
            },
    {
        match unstash(self.cwd, replies) {
            Step::Run(command) => Step::Run(command),
            Step::Done(r) => Step::Done(r.is_ok()),
        }
    }

    /// Moves the working tree to `entry`: puts the pending changes away,
    /// then resets hard to the entry's commit. A failure to put them away
    /// ends it there, with the working tree untouched. The changes are not
    /// brought back: that is `unstash`.
    pub fn reset_to(&mut self, entry: &Entry, replies: &[Outcome]) -> (step: Step<bool>)
        ensures
            step.model() == reset_to_step(old(self)@.cwd, entry@.commit, models(replies@)),
            final(self)@ == old(self)@,
    {
        match stash(self.cwd, replies) {
            Step::Run(command) => Step::Run(command),
            Step::Done(Err(_)) => Step::Done(false),
            Step::Done(Ok(_)) => {
                let rest = slice_subrange(replies, 1, replies.len());
                match reset(self.cwd, entry.commit(), rest) {
                    Step::Run(command) => Step::Run(command),
                    Step::Done(r) => {
                        assert(rest@[0] == replies@[1]);
                        Step::Done(r.is_ok())
                    },
                }
            },
        }
    }

    /// The records of page `page`, newest first; none only where the query
    /// failed. A page past the end of the log is empty.
    pub fn get_page(&self, page: usize, replies: &[Outcome]) -> (step: Step<Option<Vec<Entry>>>)
        ensures
            match step {
                Step::Run(command) => replies@.len() == 0 && command@ == page_command(
                    self@,
                    page as nat,
                ),
                Step::Done(Some(entries)) => replies@.len() > 0 && read_page(replies@[0]@) == Some(
                    entry_views(entries@),
                ),
                Step::Done(None) => replies@.len() > 0 && read_page(replies@[0]@) is None,
            },
    {
        match self.get_page_data(page, replies) {
            Step::Run(command) => Step::Run(command),
            Step::Done(Some(lines)) => Step::Done(Some(entries_of(&lines))),
            Step::Done(None) => Step::Done(None),
        }
    }
}

} // verus!
