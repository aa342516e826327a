//! Finding the line of a `.command.run` file that names its task.

use vstd::prelude::*;
use crate::pattern::Pattern;
use crate::utils::line_views;
use crate::task::{name_search, PlungerTaskError};

verus! {

/// Why no task name could be read.
#[derive(Debug)]
pub enum PlungerError {
    /// Reading the file failed.
    Io(std::io::Error),
    /// None of the lines that may be read names the task.
    LineLimitReached,
}

/// Group 1 of `regex` in the first of the first `limit_lines` lines of a file
/// (`lines`, then empty lines past its end) that matches `regex`.
pub fn get_name_line(lines: &Vec<String>, limit_lines: usize, regex: &Pattern) -> (r: Result<String, PlungerError>)
    requires
        name_search(line_views(lines@), limit_lines as int, regex@, 0) is Some,
    ensures
        match name_search(line_views(lines@), limit_lines as int, regex@, 0) {
            Some(Ok(name)) => r matches Ok(s) && s@ == name,
            _ => r matches Err(PlungerError::LineLimitReached),
        },
{
    match crate::task::get_name_line(lines, limit_lines, regex) {
        Ok(name) => Ok(name),
        Err(_) => Err(PlungerError::LineLimitReached),
    }
}

/// `None` when the search of `get_name_line` stops on a match whose group 1
/// cannot be read; else `Some` of what `get_name_line` returns.
pub fn try_get_name_line(lines: &Vec<String>, limit_lines: usize, regex: &Pattern) -> (r: Option<Result<String, PlungerError>>)
    ensures
        match name_search(line_views(lines@), limit_lines as int, regex@, 0) {
            None => r is None,
            Some(Ok(name)) => r matches Some(Ok(s)) && s@ == name,
            Some(Err(())) => r matches Some(Err(PlungerError::LineLimitReached)),
        },
{
    match crate::task::try_get_name_line(lines, limit_lines, regex) {
        None => None,
        Some(_) => Some(get_name_line(lines, limit_lines, regex)),
    }
}

} // verus!
