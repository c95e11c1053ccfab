//! The plain keyword search: the first occurrence in each line, without
//! context.

use vstd::prelude::*;
use crate::search::{lines_of, matches_in, search_lines, text_lines, SearchMatch};
use crate::analysis::views;

verus! {

/// A keyword search over a text.
pub struct SimpleSearchEngine {
    pub keyword: String,
    pub case_sensitive: bool,
    pub context: u32,
    pub line_numbers: bool,
}

impl SimpleSearchEngine {
    pub fn new(keyword: String, case_sensitive: bool, line_numbers: bool, context: u32) -> (r: Self)
        ensures
            r.keyword == keyword,
            r.case_sensitive == case_sensitive,
            r.line_numbers == line_numbers,
            r.context == context,
    {
        SimpleSearchEngine { keyword, case_sensitive, context, line_numbers }
    }

    /// The first occurrence of the keyword in each line that holds it, in
    /// line order, without context lines.
    pub fn search(&self, content: &str) -> (r: Vec<SearchMatch>)
        ensures
            matches_in(r@, lines_of(content@), self.keyword@, self.case_sensitive, 0),
    {
        let lines = text_lines(content);
        assert(views(lines@) =~= lines_of(content@));
        search_lines(&lines, self.keyword.as_str(), self.case_sensitive, 0)
    }
}

/// The matches found in one file.
pub struct SearchResult {
    pub file_path: String,
    pub matches: Vec<SearchMatch>,
}

impl SearchResult {
    /// The number of matches.
    pub fn total_matches(&self) -> (r: usize)
        ensures
            r == self.matches@.len(),
    {
        self.matches.len()
    }
}

} // verus!
