//! Keyword search over the lines of project files.

use vstd::prelude::*;
use vstd::string::StrSliceExecFns;
use crate::graph::{extension_of, extension_of_path};
use crate::analysis::views;
use crate::text::{find_text, first_occurrence, lower_of, lowercase, contains_text};

verus! {

/// What a search looks for.
#[derive(Debug, Clone)]
pub struct SearchConfig {
    pub path: String,
    pub keyword: String,
    pub file_type: Option<String>,
    pub file_pattern: Option<String>,
    pub case_sensitive: bool,
    pub line_numbers: bool,
    pub context: u32,
    pub output_format: String,
    pub verbose: bool,
}

impl SearchConfig {
    pub fn new(
        path: String,
        keyword: String,
        file_type: Option<String>,
        file_pattern: Option<String>,
        case_sensitive: bool,
        line_numbers: bool,
        context: u32,
        output_format: String,
        verbose: bool,
    ) -> (r: Self)
        ensures
            r == (SearchConfig {
                path,
                keyword,
                file_type,
                file_pattern,
                case_sensitive,
                line_numbers,
                context,
                output_format,
                verbose,
            }),
    {
        SearchConfig {
            path,
            keyword,
            file_type,
            file_pattern,
            case_sensitive,
            line_numbers,
            context,
            output_format,
            verbose,
        }
    }
}

/// The kind of a search.
#[derive(Debug, Clone)]
pub enum SearchType {
    Simple,
    Regex(String),
    HtmlClass(String),
    HtmlText(String),
    FunctionName(String),
    StructuralPattern(String),
}

/// One matching line.
#[derive(Debug, Clone)]
pub struct SearchMatch {
    pub line_number: usize,
    pub line_content: String,
    pub match_start: usize,
    pub match_end: usize,
    pub context_before: Vec<String>,
    pub context_after: Vec<String>,
    pub match_type: String,
}

/// The matches in one file.
#[derive(Debug, Clone)]
pub struct SearchResult {
    pub file_path: String,
    pub total_matches: usize,
    pub matches: Vec<SearchMatch>,
    pub search_type: SearchType,
}

/// Totals of a search.
#[derive(Debug, Clone)]
pub struct SearchSummary {
    pub total_files_searched: usize,
    pub files_with_matches: usize,
    pub total_matches: usize,
    pub search_config: SearchConfig,
}

/// The pieces of `s` between line feeds, the last running to the end
/// (empty when `s` ends with a line feed).
pub open spec fn split_at_line_feeds(s: Seq<char>) -> Seq<Seq<char>>
    decreases s.len(),
{
    if s.len() == 0 {
        seq![Seq::empty()]
    } else {
        let rest = split_at_line_feeds(s.drop_first());
        if s[0] == '\n' {
            seq![Seq::empty()] + rest
        } else {
            rest.update(0, seq![s[0]] + rest[0])
        }
    }
}

/// A line without the carriage return that ends it, if any.
pub open spec fn without_cr(l: Seq<char>) -> Seq<char> {
    if l.len() > 0 && l[l.len() - 1] == '\r' {
        l.drop_last()
    } else {
        l
    }
}

/// The lines of `s`, as `str::lines` splits them: at each line feed, with
/// a carriage return just before it dropped; a final line ending gives no
/// empty last line.
pub open spec fn lines_of(s: Seq<char>) -> Seq<Seq<char>> {
    let pieces = split_at_line_feeds(s);
    let n = pieces.len();
    let kept: nat = if pieces[n - 1].len() == 0 {
        (n - 1) as nat
    } else {
        n
    };
    Seq::new(kept, |i: int| if i < n - 1 { without_cr(pieces[i]) } else { pieces[i] })
}

/// Relies on `str::lines`: the lines of a text, without their line endings.
#[verifier::external_body]
pub(crate) fn text_lines(s: &str) -> (r: Vec<String>)
    ensures
        r@.map_values(|l: String| l@) == lines_of(s@),
{
    s.lines().map(|l| l.to_string()).collect()
}

/// The text a line is searched in: as it is, or in lower case.
pub open spec fn searched_text(line: Seq<char>, case_sensitive: bool) -> Seq<char> {
    if case_sensitive {
        line
    } else {
        lower_of(line)
    }
}

/// The number of bytes that the first `n` characters of `s` take in UTF-8,
/// as `str::len` counts them.
pub open spec fn byte_offset(s: Seq<char>, n: int) -> usize {
    vstd::utf8::encode_utf8(s.subrange(0, n)).len() as usize
}

/// `m` reports the match of `kw` in the line at position `i` of `lines`,
/// where it first occurs at character `p` of the searched text, with
/// `ctx` lines of context each side.
pub open spec fn match_matches(
    m: SearchMatch,
    lines: Seq<Seq<char>>,
    i: int,
    text: Seq<char>,
    kw: Seq<char>,
    p: int,
    ctx: nat,
) -> bool {
    &&& m.line_number == i + 1
    &&& m.line_content@ == lines[i]
    &&& m.match_start == byte_offset(text, p)
    &&& m.match_end == byte_offset(text, p + kw.len())
    &&& views(m.context_before@) == context_lines(lines, i, ctx, true)
    &&& views(m.context_after@) == context_lines(lines, i, ctx, false)
    &&& m.match_type@ == "simple"@
}

/// The context of the line at `i`: up to `ctx` lines before it, or after it.
pub open spec fn context_lines(lines: Seq<Seq<char>>, i: int, ctx: nat, before: bool) -> Seq<Seq<char>> {
    if before {
        let start = if i >= ctx { i - ctx } else { 0 };
        lines.subrange(start, i)
    } else {
        let end = if i + ctx + 1 <= lines.len() { i + ctx + 1 } else { lines.len() as int };
        if i + 1 <= end {
            lines.subrange(i + 1, end)
        } else {
            Seq::empty()
        }
    }
}

/// The lines among the first `n` of `lines` that hold `kw`, as the position
/// of the line and of the first occurrence in its searched text.
pub open spec fn hits_upto(lines: Seq<Seq<char>>, kw: Seq<char>, case_sensitive: bool, n: int) -> Seq<(int, int)>
    decreases n,
{
    if n <= 0 {
        Seq::empty()
    } else {
        let prev = hits_upto(lines, kw, case_sensitive, n - 1);
        let text = searched_text(lines[n - 1], case_sensitive);
        if contains_text(text, kw) {
            prev.push((n - 1, choose|p: int| first_occurrence(text, kw, p)))
        } else {
            prev
        }
    }
}

proof fn lemma_first_occurrence_unique(text: Seq<char>, kw: Seq<char>, p: int, q: int)
    requires
        first_occurrence(text, kw, p),
        first_occurrence(text, kw, q),
    ensures
        p == q,
{
}

fn clone_range(lines: &Vec<String>, from: usize, to: usize) -> (r: Vec<String>)
    requires
        from <= to <= lines@.len(),
    ensures
        r@ == lines@.subrange(from as int, to as int),
        views(r@) == views(lines@).subrange(from as int, to as int),
{
    let mut r: Vec<String> = Vec::new();
    let mut i: usize = from;
    while i < to
        invariant
            from <= i <= to,
            to <= lines@.len(),
            r@ == lines@.subrange(from as int, i as int),
        decreases to - i,
    {
        r.push(lines[i].clone());
        i += 1;
        assert(r@ =~= lines@.subrange(from as int, i as int));
    }
    assert(views(r@) =~= views(lines@).subrange(from as int, to as int));
    r
}

/// Up to `context` lines before or after the line at `current`.
fn get_context_lines(lines: &Vec<String>, current: usize, context: u32, before: bool) -> (r: Vec<String>)
    requires
        current < lines@.len(),
    ensures
        views(r@) == context_lines(views(lines@), current as int, context as nat, before),
{
    let ctx = context as usize;
    if before {
        let start = if current >= ctx { current - ctx } else { 0 };
        clone_range(lines, start, current)
    } else {
        let end = if ctx < lines.len() - current { current + ctx + 1 } else { lines.len() };
        clone_range(lines, current + 1, end)
    }
}

/// The matches of `keyword` in `lines`: for each line that holds it, its
/// first occurrence, with `context` lines of context.
pub fn search_lines(lines: &Vec<String>, keyword: &str, case_sensitive: bool, context: u32) -> (r: Vec<SearchMatch>)
    ensures
        ({
            let kw = searched_text(keyword@, case_sensitive);
            let hits = hits_upto(views(lines@), kw, case_sensitive, lines@.len() as int);
            &&& r@.len() == hits.len()
            &&& forall|k: int|
                0 <= k < r@.len() ==> match_matches(
                    #[trigger] r@[k],
                    views(lines@),
                    hits[k].0,
                    searched_text(views(lines@)[hits[k].0], case_sensitive),
                    kw,
                    hits[k].1,
                    context as nat,
                )
        }),
{
    let kw = if case_sensitive {
        keyword.to_owned()
    } else {
        lowercase(keyword)
    };
    let ghost kwv = searched_text(keyword@, case_sensitive);
    let mut r: Vec<SearchMatch> = Vec::new();
    let mut i: usize = 0;
    while i < lines.len()
        invariant
            0 <= i <= lines@.len(),
            kw@ == kwv,
            kwv == searched_text(keyword@, case_sensitive),
            r@.len() == hits_upto(views(lines@), kwv, case_sensitive, i as int).len(),
            forall|k: int|
                0 <= k < r@.len() ==> match_matches(
                    #[trigger] r@[k],
                    views(lines@),
                    hits_upto(views(lines@), kwv, case_sensitive, i as int)[k].0,
                    searched_text(views(lines@)[hits_upto(views(lines@), kwv, case_sensitive, i as int)[k].0], case_sensitive),
                    kwv,
                    hits_upto(views(lines@), kwv, case_sensitive, i as int)[k].1,
                    context as nat,
                ),
            forall|k: int|
                0 <= k < hits_upto(views(lines@), kwv, case_sensitive, i as int).len() ==> 0 <= (#[trigger] hits_upto(
                    views(lines@),
                    kwv,
                    case_sensitive,
                    i as int,
                )[k]).0 < i,
        decreases lines@.len() - i,
    {
        let line = &lines[i];
        let text = if case_sensitive {
            line.clone()
        } else {
            lowercase(line.as_str())
        };
        assert(text@ == searched_text(views(lines@)[i as int], case_sensitive));
        let ghost prev = hits_upto(views(lines@), kwv, case_sensitive, i as int);
        match find_text(text.as_str(), kw.as_str()) {
            Some(p) => {
                let ghost q = choose|q: int| first_occurrence(text@, kwv, q);
                proof {
                    lemma_first_occurrence_unique(text@, kwv, p as int, q);
                }
                let tl = text.as_str().unicode_len();
                let kl = kw.as_str().unicode_len();
                assert(p + kl <= tl);
                let before = text.as_str().substring_char(0, p);
                let upto = text.as_str().substring_char(0, p + kl);
                let start = before.len();
                let end = upto.len();
                assert(start == byte_offset(text@, p as int));
                assert(end == byte_offset(text@, p + kwv.len()));
                let context_before = get_context_lines(lines, i, context, true);
                let context_after = get_context_lines(lines, i, context, false);
                r.push(SearchMatch {
                    line_number: i + 1,
                    line_content: line.clone(),
                    match_start: start,
                    match_end: end,
                    context_before,
                    context_after,
                    match_type: "simple".to_owned(),
                });
                assert(hits_upto(views(lines@), kwv, case_sensitive, i as int + 1) == prev.push((i as int, q)));
                assert(views(lines@)[i as int] == lines@[i as int]@);
                assert(match_matches(r@[r@.len() - 1], views(lines@), i as int, text@, kwv, q, context as nat));
            },
            None => {
                assert(hits_upto(views(lines@), kwv, case_sensitive, i as int + 1) == prev);
            },
        }
        i += 1;
    }
    r
}

/// Searches the files of a project for a keyword.
pub struct SearchEngine {
    pub config: SearchConfig,
}

impl SearchEngine {
    pub fn new(config: SearchConfig) -> (r: Self)
        ensures
            r.config == config,
    {
        SearchEngine { config }
    }

    /// Whether a file takes part in the search: with a file type given, its
    /// extension must be that type; else it must be a script, markup or
    /// style-less page (`ts`, `js`, `html`, `htm`).
    pub fn should_include_file(&self, path: &str) -> (r: bool)
        ensures
            r == match self.config.file_type {
                Some(t) => extension_of(path@) == Some(t@),
                None => match extension_of(path@) {
                    Some(e) => e == "ts"@ || e == "js"@ || e == "html"@ || e == "htm"@,
                    None => false,
                },
            },
    {
        match extension_of_path(path) {
            Some(e) => match &self.config.file_type {
                Some(t) => e == *t,
                None => e == "ts".to_owned() || e == "js".to_owned() || e == "html".to_owned() || e
                    == "htm".to_owned(),
            },
            None => false,
        }
    }

    /// The matches of the configured keyword in a file's content.
    pub fn search_in_content(&self, content: &str) -> (r: Vec<SearchMatch>)
        ensures
            matches_in(r@, lines_of(content@), self.config.keyword@, self.config.case_sensitive, self.config.context as nat),
    {
        self.search_simple(content)
    }

    /// The first occurrence of the keyword in each line of the content, with
    /// the configured number of context lines.
    pub fn search_simple(&self, content: &str) -> (r: Vec<SearchMatch>)
        ensures
            matches_in(r@, lines_of(content@), self.config.keyword@, self.config.case_sensitive, self.config.context as nat),
    {
        let lines = text_lines(content);
        assert(views(lines@) =~= lines_of(content@));
        search_lines(&lines, self.config.keyword.as_str(), self.config.case_sensitive, self.config.context)
    }
}

/// `r` reports, in line order, the first occurrence of `keyword` in each
/// of `lines` that holds it, with `ctx` lines of context.
pub open spec fn matches_in(r: Seq<SearchMatch>, lines: Seq<Seq<char>>, keyword: Seq<char>, case_sensitive: bool, ctx: nat) -> bool {
    let kw = searched_text(keyword, case_sensitive);
    let hits = hits_upto(lines, kw, case_sensitive, lines.len() as int);
    &&& r.len() == hits.len()
    &&& forall|k: int|
        0 <= k < r.len() ==> match_matches(
            #[trigger] r[k],
            lines,
            hits[k].0,
            searched_text(lines[hits[k].0], case_sensitive),
            kw,
            hits[k].1,
            ctx,
        )
}

} // verus!
