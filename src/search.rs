//! Plain-text search over the lines of workspace files.

use crate::fs::{binary_extensions, path_extension, FSManager};
use vstd::prelude::*;

verus! {

/// One matching line.
#[derive(Debug, Clone)]
pub struct SearchResult {
    pub file_path: String,
    /// One-based.
    pub line_number: usize,
    pub line_content: String,
}

/// A file to search: its path and its text.
#[derive(Debug, Clone)]
pub struct SourceFile {
    pub path: String,
    pub content: String,
}

/// The text with every character lowered, as std's `to_lowercase` does it.
pub uninterp spec fn lower_of(s: Seq<char>) -> Seq<char>;

/// Relies on std's `str::to_lowercase`, whose result depends on the
/// characters alone.
#[verifier::external_body]
fn lowercase(s: &str) -> (r: String)
    ensures
        r@ == lower_of(s@),
{
    s.to_lowercase()
}

/// Whether `needle` occurs in `hay`.
pub open spec fn contains(hay: Seq<char>, needle: Seq<char>) -> bool {
    exists|i: int| 0 <= i && i + needle.len() <= hay.len() && #[trigger] hay.subrange(i, i + needle.len()) == needle
}

/// Relies on std's `str::contains` with a `&str` pattern: true exactly when
/// the pattern occurs as a contiguous run of characters.
#[verifier::external_body]
fn has_substring(hay: &str, needle: &str) -> (r: bool)
    ensures
        r == contains(hay@, needle@),
{
    hay.contains(needle)
}

/// Whether an already lowered line contains an already lowered pattern:
/// the test a search without regard to case makes after lowering both.
pub fn matches_folded(low_line: &str, low_pat: &str) -> (r: bool)
    ensures
        r == contains(low_line@, low_pat@),
{
    has_substring(low_line, low_pat)
}

/// The number of characters before the first line feed.
pub open spec fn line_len(s: Seq<char>) -> nat
    decreases s.len(),
{
    if s.len() == 0 || s[0] == '\n' {
        0
    } else {
        1 + line_len(s.drop_first())
    }
}

pub open spec fn strip_cr(l: Seq<char>) -> Seq<char> {
    if l.len() > 0 && l.last() == '\r' {
        l.drop_last()
    } else {
        l
    }
}

/// The lines of `s`: split at each line feed, a carriage return right before
/// a line feed dropped, with no empty line after a final line feed. A
/// carriage return with no line feed after it stays in the last line.
pub open spec fn lines_of(s: Seq<char>) -> Seq<Seq<char>>
    decreases s.len(),
{
    if s.len() == 0 {
        Seq::empty()
    } else {
        let k = line_len(s);
        if k < s.len() {
            seq![strip_cr(s.subrange(0, k as int))] + lines_of(s.subrange(k + 1 as int, s.len() as int))
        } else {
            seq![s]
        }
    }
}

/// Relies on std's `str::lines`, which splits as `lines_of` states.
#[verifier::external_body]
fn split_lines(s: &str) -> (r: Vec<String>)
    ensures
        r@.map_values(|l: String| l@) == lines_of(s@),
{
    s.lines().map(|l| l.to_string()).collect()
}

/// Whether `line` matches `pattern`, with or without regard to case.
pub open spec fn line_matches(line: Seq<char>, pattern: Seq<char>, case_sensitive: bool) -> bool {
    if case_sensitive {
        contains(line, pattern)
    } else {
        contains(lower_of(line), lower_of(pattern))
    }
}

/// A match as (path, one-based line number, line).
pub type Hit = (Seq<char>, nat, Seq<char>);

/// The matches among the first `n` of `lines`, in order.
pub open spec fn hits_in(
    path: Seq<char>,
    lines: Seq<Seq<char>>,
    n: nat,
    pattern: Seq<char>,
    case_sensitive: bool,
) -> Seq<Hit>
    decreases n,
{
    if n == 0 {
        Seq::empty()
    } else {
        let prev = hits_in(path, lines, (n - 1) as nat, pattern, case_sensitive);
        if line_matches(lines[n - 1], pattern, case_sensitive) {
            prev.push((path, n, lines[n - 1]))
        } else {
            prev
        }
    }
}

pub open spec fn is_binary_path(path: Seq<char>) -> bool {
    path_extension(path) matches Some(e) && binary_extensions().contains(e)
}

/// The matches in one file, in line order; none in a binary file.
pub open spec fn file_hits(f: SourceFile, pattern: Seq<char>, case_sensitive: bool) -> Seq<Hit> {
    if is_binary_path(f.path@) {
        Seq::empty()
    } else {
        let lines = lines_of(f.content@);
        hits_in(f.path@, lines, lines.len(), pattern, case_sensitive)
    }
}

/// The matches in the first `n` files, file by file.
pub open spec fn all_hits(files: Seq<SourceFile>, n: nat, pattern: Seq<char>, case_sensitive: bool) -> Seq<Hit>
    decreases n,
{
    if n == 0 {
        Seq::empty()
    } else {
        all_hits(files, (n - 1) as nat, pattern, case_sensitive) + file_hits(files[n - 1], pattern, case_sensitive)
    }
}

pub open spec fn hit_of(r: SearchResult) -> Hit {
    (r.file_path@, r.line_number as nat, r.line_content@)
}

pub open spec fn hits_view(rs: Seq<SearchResult>) -> Seq<Hit> {
    rs.map_values(|r: SearchResult| hit_of(r))
}

/// Searches text.
pub struct SearchManager {
    /// Search index: word to the paths that hold it. Searches read files
    /// directly and leave it as it is.
    pub index: std::collections::HashMap<String, Vec<String>>,
}

impl SearchManager {
    pub fn new() -> (m: SearchManager)
        ensures
            m.index@.len() == 0,
    {
        SearchManager { index: std::collections::HashMap::new() }
    }

    /// Appends the lines of `file` that contain `pattern` to `results`.
    /// Without regard to case, both the line and `pattern` are lowered first.
    fn search_text_in_file(
        &self,
        file: &SourceFile,
        pattern: &str,
        case_sensitive: bool,
        results: &mut Vec<SearchResult>,
    )
        ensures
            hits_view(final(results)@) == hits_view(old(results)@) + file_hits(*file, pattern@, case_sensitive),
    {
        if FSManager::is_binary_file(file.path.as_str()) {
            assert(hits_view(old(results)@) + Seq::<Hit>::empty() =~= hits_view(old(results)@));
            return;
        }
        let lines = split_lines(file.content.as_str());
        let ghost ls = lines_of(file.content@);
        let pat = if case_sensitive { String::from_str(pattern) } else { lowercase(pattern) };
        let mut k: usize = 0;
        while k < lines.len()
            invariant
                k <= lines@.len(),
                lines@.map_values(|l: String| l@) == ls,
                pat@ == if case_sensitive { pattern@ } else { lower_of(pattern@) },
                hits_view(results@) == hits_view(old(results)@) + hits_in(
                    file.path@,
                    ls,
                    k as nat,
                    pattern@,
                    case_sensitive,
                ),
            decreases lines@.len() - k,
        {
            let line = &lines[k];
            assert(line@ == ls[k as int]);
            let found = if case_sensitive {
                has_substring(line.as_str(), pat.as_str())
            } else {
                let low = lowercase(line.as_str());
                matches_folded(low.as_str(), pat.as_str())
            };
            let ghost before = results@;
            if found {
                results.push(SearchResult {
                    file_path: file.path.clone(),
                    line_number: k + 1,
                    line_content: line.clone(),
                });
                assert(hits_view(results@) =~= hits_view(before).push(hit_of(results@.last())));
            }
            assert(hits_view(results@) =~= hits_view(old(results)@) + hits_in(
                file.path@,
                ls,
                (k + 1) as nat,
                pattern@,
                case_sensitive,
            ));
            k = k + 1;
        }
    }

    /// Searches every file in `files` for lines containing `pattern`, and
    /// records the files in the index. Regular-expression search is not
    /// offered: with `is_regex` set nothing matches.
    pub fn search_files(
        &mut self,
        pattern: &str,
        files: &Vec<SourceFile>,
        is_regex: bool,
        case_sensitive: bool,
    ) -> (r: Vec<SearchResult>)
        ensures
            final(self).index == old(self).index,
            is_regex ==> r@.len() == 0,
            !is_regex ==> hits_view(r@) == all_hits(files@, files@.len(), pattern@, case_sensitive),
    {
        let mut results: Vec<SearchResult> = Vec::new();
        if is_regex {
            return results;
        }
        let mut i: usize = 0;
        while i < files.len()
            invariant
                i <= files@.len(),
                self.index == old(self).index,
                hits_view(results@) == all_hits(files@, i as nat, pattern@, case_sensitive),
            decreases files@.len() - i,
        {
            self.search_text_in_file(&files[i], pattern, case_sensitive, &mut results);
            i = i + 1;
        }
        results
    }

    /// Searches the files of the current workspace, without regard to case.
    pub fn search_workspace(&mut self, pattern: &str, files: &Vec<SourceFile>) -> (r: Vec<SearchResult>)
        ensures
            final(self).index == old(self).index,
            hits_view(r@) == all_hits(files@, files@.len(), pattern@, false),
    {
        self.search_files(pattern, files, false, false)
    }
}

} // verus!
