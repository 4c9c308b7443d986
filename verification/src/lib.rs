//! A browser for the commit history of a `git` repository, without the
//! terminal and without the processes: the pages of the log, the cursor that
//! moves over them, the commands to run and the frames to draw, as values.

pub mod git;
pub mod history;
pub mod paging;
pub mod screen;
pub mod text;
pub mod tui;
pub mod wire;
