use vstd::prelude::*;

use crate::types::{FileStats, LanguageStats};

verus! {

/// The sum of the blank-line counts of a sequence of per-file results.
pub open spec fn total_blank(s: Seq<FileStats>) -> int
    decreases s.len(),
{
    if s.len() == 0 {
        0
    } else {
        s[0].blank_lines + total_blank(s.drop_first())
    }
}

/// The sum of the comment-line counts of a sequence of per-file results.
pub open spec fn total_comment(s: Seq<FileStats>) -> int
    decreases s.len(),
{
    if s.len() == 0 {
        0
    } else {
        s[0].comment_lines + total_comment(s.drop_first())
    }
}

/// The sum of the code-line counts of a sequence of per-file results.
pub open spec fn total_code(s: Seq<FileStats>) -> int
    decreases s.len(),
{
    if s.len() == 0 {
        0
    } else {
        s[0].code_lines + total_code(s.drop_first())
    }
}

/// Each total is a sum of non-negative counters.
pub proof fn lemma_totals_nonneg(s: Seq<FileStats>)
    ensures
        total_blank(s) >= 0,
        total_comment(s) >= 0,
        total_code(s) >= 0,
    decreases s.len(),
{
    if s.len() > 0 {
        lemma_totals_nonneg(s.drop_first());
    }
}

/// The fold over per-file results is associative and commutative: for any
/// partitioning of a file set into two groups, aggregating each group and
/// adding the results field-wise equals aggregating the union, and the file
/// count of the union is the sum of the groups' file counts.
pub proof fn lemma_aggregate_concat(a: Seq<FileStats>, b: Seq<FileStats>)
    ensures
        total_blank(a + b) == total_blank(a) + total_blank(b),
        total_comment(a + b) == total_comment(a) + total_comment(b),
        total_code(a + b) == total_code(a) + total_code(b),
        (a + b).len() == a.len() + b.len(),
    decreases a.len(),
{
    if a.len() == 0 {
        assert(a + b =~= b);
    } else {
        assert((a + b).drop_first() =~= a.drop_first() + b);
        assert((a + b)[0] == a[0]);
        lemma_aggregate_concat(a.drop_first(), b);
    }
}

impl LanguageStats {
    /// Folds one more per-file result into the running totals.
    pub fn add_file(&mut self, fs: &FileStats)
        requires
            old(self).files + 1 <= usize::MAX,
            old(self).blank_lines + fs.blank_lines <= usize::MAX,
            old(self).comment_lines + fs.comment_lines <= usize::MAX,
            old(self).code_lines + fs.code_lines <= usize::MAX,
        ensures
            final(self).files == old(self).files + 1,
            final(self).blank_lines == old(self).blank_lines + fs.blank_lines,
            final(self).comment_lines == old(self).comment_lines + fs.comment_lines,
            final(self).code_lines == old(self).code_lines + fs.code_lines,
    {
        self.files = self.files + 1;
        self.blank_lines = self.blank_lines + fs.blank_lines;
        self.comment_lines = self.comment_lines + fs.comment_lines;
        self.code_lines = self.code_lines + fs.code_lines;
    }
}

/// Folds a sequence of per-file results into per-language totals. Returns
/// `None` exactly when one of the three line totals does not fit in `usize`;
/// otherwise the result carries the file count and the exact field-wise sums.
pub fn aggregate(stats: &Vec<FileStats>) -> (r: Option<LanguageStats>)
    ensures
        (match r {
            Some(ls) => ls.files == stats@.len() && ls.blank_lines == total_blank(stats@)
                && ls.comment_lines == total_comment(stats@) && ls.code_lines == total_code(
                stats@,
            ),
            None => total_blank(stats@) > usize::MAX || total_comment(stats@) > usize::MAX
                || total_code(stats@) > usize::MAX,
        }),
{
    let n = stats.len();
    let mut blank: usize = 0;
    let mut comment: usize = 0;
    let mut code: usize = 0;
    let mut i: usize = 0;
    proof {
        assert(stats@.skip(0) =~= stats@);
    }
    while i < n
        invariant
            n == stats@.len(),
            i <= n,
            total_blank(stats@) == blank + total_blank(stats@.skip(i as int)),
            total_comment(stats@) == comment + total_comment(stats@.skip(i as int)),
            total_code(stats@) == code + total_code(stats@.skip(i as int)),
        decreases n - i,
    {
        let fs = stats[i];
        proof {
            assert(stats@.skip(i as int)[0] == stats@[i as int]);
            assert(stats@.skip(i as int).drop_first() =~= stats@.skip(i + 1));
            lemma_totals_nonneg(stats@.skip(i + 1));
        }
        if blank > usize::MAX - fs.blank_lines || comment > usize::MAX - fs.comment_lines || code
            > usize::MAX - fs.code_lines {
            return None;
        }
        blank = blank + fs.blank_lines;
        comment = comment + fs.comment_lines;
        code = code + fs.code_lines;
        i += 1;
    }
    proof {
        assert(stats@.skip(n as int) =~= Seq::<FileStats>::empty());
    }
    Some(LanguageStats { files: n, blank_lines: blank, comment_lines: comment, code_lines: code })
}

} // verus!
