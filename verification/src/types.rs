use vstd::prelude::*;

verus! {

/// How a single physical line is classified.
#[derive(Clone, Copy, Debug, PartialEq, Eq, Structural)]
pub enum LineKind {
    Blank,
    Comment,
    Code,
}

/// The classifier's state: scanning ordinary code, or inside an open
/// multiline block. The payload records whether the block was opened as an
/// in-code string literal (its lines count as code) rather than as a bare
/// doc/comment block (its lines count as comments).
#[derive(Clone, Copy, Debug, PartialEq, Eq, Structural)]
pub enum ParseState {
    Code,
    MultiLineComment(bool),
}

/// Per-file line counters, produced by one scan of one file.
#[derive(Clone, Copy, Debug, PartialEq, Eq, Structural)]
pub struct FileStats {
    pub blank_lines: usize,
    pub comment_lines: usize,
    pub code_lines: usize,
}

impl Default for FileStats {
    fn default() -> (r: Self)
        ensures
            r.blank_lines == 0,
            r.comment_lines == 0,
            r.code_lines == 0,
    {
        FileStats { blank_lines: 0, comment_lines: 0, code_lines: 0 }
    }
}

/// Per-language totals: the fold of the `FileStats` of every scanned file.
#[derive(Clone, Copy, Debug, PartialEq, Eq, Structural)]
pub struct LanguageStats {
    pub files: usize,
    pub blank_lines: usize,
    pub comment_lines: usize,
    pub code_lines: usize,
}

impl Default for LanguageStats {
    fn default() -> (r: Self)
        ensures
            r.files == 0,
            r.blank_lines == 0,
            r.comment_lines == 0,
            r.code_lines == 0,
    {
        LanguageStats { files: 0, blank_lines: 0, comment_lines: 0, code_lines: 0 }
    }
}

} // verus!
