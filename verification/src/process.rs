use vstd::prelude::*;

use crate::text::{
    contains_chars, contains_sub, find_sub, first_match, first_match_from, has_prefix, match_at,
    starts_with_chars, str_to_chars, subrange_chars, trim_chars, trim_leading_chars,
    trim_leading_spec, trim_spec,
};
use crate::types::{FileStats, LineKind, ParseState};

verus! {

/// The first marker, in configured order, that occurs anywhere in `line`,
/// searched from marker index `from` on.
pub open spec fn first_containing_from(markers: Seq<Seq<char>>, line: Seq<char>, from: int) -> Option<
    int,
>
    decreases markers.len() - from,
{
    if from < 0 || from >= markers.len() {
        None
    } else if contains_sub(line, markers[from]) {
        Some(from)
    } else {
        first_containing_from(markers, line, from + 1)
    }
}

/// The first marker, in configured order, that occurs anywhere in `line`.
pub open spec fn first_containing(markers: Seq<Seq<char>>, line: Seq<char>) -> Option<int> {
    first_containing_from(markers, line, 0)
}

/// Whether any of the markers occurs anywhere in `line`.
pub open spec fn any_contained(markers: Seq<Seq<char>>, line: Seq<char>) -> bool {
    first_containing(markers, line) is Some
}

/// What `first_match` promises: a result points at a real occurrence and at
/// the first one; no result means no occurrence at all.
pub proof fn lemma_first_match_props(s: Seq<char>, p: Seq<char>, from: int)
    requires
        0 <= from,
    ensures
        (match first_match_from(s, p, from) {
            Some(i) => from <= i && match_at(s, p, i) && (forall|j: int|
                from <= j < i ==> !match_at(s, p, j)),
            None => forall|j: int| j >= from ==> !match_at(s, p, j),
        }),
    decreases s.len() - from,
{
    if from + p.len() > s.len() {
        assert(forall|j: int| j >= from ==> !match_at(s, p, j));
    } else if p.len() == 0 {
        assert(s.subrange(from, from + p.len()) =~= p);
        assert(match_at(s, p, from));
    } else if match_at(s, p, from) {
    } else {
        lemma_first_match_props(s, p, from + 1);
    }
}

/// What `first_containing` promises: a result names the first marker in
/// configured order that occurs in the line; no result means none occurs.
pub proof fn lemma_first_containing_props(markers: Seq<Seq<char>>, line: Seq<char>, from: int)
    requires
        0 <= from,
    ensures
        (match first_containing_from(markers, line, from) {
            Some(k) => from <= k < markers.len() && contains_sub(line, markers[k]) && (forall|j: int|
                from <= j < k ==> !contains_sub(line, markers[j])),
            None => forall|j: int| from <= j < markers.len() ==> !contains_sub(line, markers[j]),
        }),
    decreases markers.len() - from,
{
    if from >= markers.len() {
    } else if contains_sub(line, markers[from]) {
    } else {
        lemma_first_containing_props(markers, line, from + 1);
    }
}

/// The lexical markers of one language: single-line comment prefixes and
/// multiline comment/string delimiters, tested in configured order.
pub struct LanguageRules {
    single_line_comment_start: Vec<String>,
    multiline_comment_start: Vec<String>,
    multiline_comment_end: Vec<String>,
    #[allow(dead_code)]
    string_delimiters: Vec<String>,
}

impl LanguageRules {
    /// The configured single-line comment prefixes.
    pub closed spec fn spec_singles(&self) -> Seq<Seq<char>> {
        self.single_line_comment_start.deep_view()
    }

    /// The configured multiline block start markers.
    pub closed spec fn spec_starts(&self) -> Seq<Seq<char>> {
        self.multiline_comment_start.deep_view()
    }

    /// The configured multiline block end markers.
    pub closed spec fn spec_ends(&self) -> Seq<Seq<char>> {
        self.multiline_comment_end.deep_view()
    }

    /// The configured distinct string delimiters (none for the built-in
    /// languages: their string markers coincide with the comment markers).
    pub closed spec fn spec_string_delimiters(&self) -> Seq<Seq<char>> {
        self.string_delimiters.deep_view()
    }

    /// Whether the line, after leading-whitespace trim, begins with one of
    /// the configured single-line comment prefixes.
    pub open spec fn spec_is_single_line_comment(&self, line: Seq<char>) -> bool {
        exists|k: int|
            0 <= k < self.spec_singles().len() && has_prefix(
                trim_leading_spec(line),
                self.spec_singles()[k],
            )
    }

    /// The rules for Python: `#` comments, and triple-quote blocks that may
    /// open or close with either `"""` or `'''`.
    pub fn for_python() -> (r: Self)
        ensures
            r.spec_singles() == seq![seq!['#']],
            r.spec_starts() == seq![seq!['"', '"', '"'], seq!['\'', '\'', '\'']],
            r.spec_ends() == seq![seq!['"', '"', '"'], seq!['\'', '\'', '\'']],
            r.spec_string_delimiters() == Seq::<Seq<char>>::empty(),
    {
        let mut singles: Vec<String> = Vec::new();
        singles.push("#".to_owned());
        let mut starts: Vec<String> = Vec::new();
        starts.push("\"\"\"".to_owned());
        starts.push("'''".to_owned());
        let mut ends: Vec<String> = Vec::new();
        ends.push("\"\"\"".to_owned());
        ends.push("'''".to_owned());
        let r = LanguageRules {
            single_line_comment_start: singles,
            multiline_comment_start: starts,
            multiline_comment_end: ends,
            string_delimiters: Vec::new(),
        };
        proof {
            reveal_strlit("#");
            reveal_strlit("\"\"\"");
            reveal_strlit("'''");
            assert(r.spec_singles() =~~= seq![seq!['#']]);
            assert(r.spec_starts() =~~= seq![seq!['"', '"', '"'], seq!['\'', '\'', '\'']]);
            assert(r.spec_ends() =~~= seq![seq!['"', '"', '"'], seq!['\'', '\'', '\'']]);
            assert(r.spec_string_delimiters() =~~= Seq::<Seq<char>>::empty());
        }
        r
    }

    /// The rules for C++-like languages: `//` comments and `/* ... */`
    /// blocks.
    pub fn for_cpp() -> (r: Self)
        ensures
            r.spec_singles() == seq![seq!['/', '/']],
            r.spec_starts() == seq![seq!['/', '*']],
            r.spec_ends() == seq![seq!['*', '/']],
            r.spec_string_delimiters() == Seq::<Seq<char>>::empty(),
    {
        let mut singles: Vec<String> = Vec::new();
        singles.push("//".to_owned());
        let mut starts: Vec<String> = Vec::new();
        starts.push("/*".to_owned());
        let mut ends: Vec<String> = Vec::new();
        ends.push("*/".to_owned());
        let r = LanguageRules {
            single_line_comment_start: singles,
            multiline_comment_start: starts,
            multiline_comment_end: ends,
            string_delimiters: Vec::new(),
        };
        proof {
            reveal_strlit("//");
            reveal_strlit("/*");
            reveal_strlit("*/");
            assert(r.spec_singles() =~~= seq![seq!['/', '/']]);
            assert(r.spec_starts() =~~= seq![seq!['/', '*']]);
            assert(r.spec_ends() =~~= seq![seq!['*', '/']]);
            assert(r.spec_string_delimiters() =~~= Seq::<Seq<char>>::empty());
        }
        r
    }

    /// The first configured multiline start marker that occurs anywhere in
    /// `line`, in configured order.
    pub fn starts_multiline(&self, line: &str) -> (r: Option<&String>)
        ensures
            (match first_containing(self.spec_starts(), line@) {
                Some(k) => r matches Some(m) && m@ == self.spec_starts()[k],
                None => r is None,
            }),
    {
        let chars = str_to_chars(line);
        match first_contained_idx(&self.multiline_comment_start, &chars) {
            Some(k) => {
                proof {
                    lemma_first_containing_props(self.spec_starts(), chars@, 0);
                    assert(self.spec_starts().len() == self.multiline_comment_start@.len());
                    assert(self.spec_starts()[k as int] == self.multiline_comment_start@[k as int]@);
                }
                Some(&self.multiline_comment_start[k])
            },
            None => None,
        }
    }

    /// The first configured multiline end marker that occurs anywhere in
    /// `line`, in configured order.
    pub fn ends_multiline(&self, line: &str) -> (r: Option<&String>)
        ensures
            (match first_containing(self.spec_ends(), line@) {
                Some(k) => r matches Some(m) && m@ == self.spec_ends()[k],
                None => r is None,
            }),
    {
        let chars = str_to_chars(line);
        match first_contained_idx(&self.multiline_comment_end, &chars) {
            Some(k) => {
                proof {
                    lemma_first_containing_props(self.spec_ends(), chars@, 0);
                    assert(self.spec_ends().len() == self.multiline_comment_end@.len());
                    assert(self.spec_ends()[k as int] == self.multiline_comment_end@[k as int]@);
                }
                Some(&self.multiline_comment_end[k])
            },
            None => None,
        }
    }

    /// Whether the line, after leading-whitespace trim, begins with one of
    /// the configured single-line comment prefixes.
    pub fn is_single_line_comment(&self, line: &str) -> (b: bool)
        ensures
            b == self.spec_is_single_line_comment(line@),
    {
        let chars = str_to_chars(line);
        self.is_single_line_comment_chars(&chars)
    }

    /// `is_single_line_comment`, on a line already held as characters.
    fn is_single_line_comment_chars(&self, line: &Vec<char>) -> (b: bool)
        ensures
            b == self.spec_is_single_line_comment(line@),
    {
        let t = trim_leading_chars(line);
        let n = self.single_line_comment_start.len();
        let mut k: usize = 0;
        while k < n
            invariant
                n == self.spec_singles().len(),
                k <= n,
                t@ == trim_leading_spec(line@),
                forall|j: int| 0 <= j < k ==> !has_prefix(t@, self.spec_singles()[j]),
            decreases n - k,
        {
            let p = str_to_chars(self.single_line_comment_start[k].as_str());
            proof {
                assert(p@ == self.spec_singles()[k as int]);
            }
            if starts_with_chars(&t, &p) {
                return true;
            }
            k += 1;
        }
        false
    }

    /// The classifier's transition function on one trimmed line `t`:
    /// which class the line gets, and the state the scan moves to.
    ///
    /// In the `Code` state: an empty line is blank; a line starting (after
    /// leading trim) with a single-line comment prefix is a comment;
    /// otherwise, if a multiline start marker occurs in the line, the line
    /// opens a block, counted as code exactly when the first `=` in the line
    /// sits before the marker's first occurrence (an in-code string
    /// assignment), else as a comment; if an end marker also occurs after
    /// that opening marker, the block closes on the same line and the state
    /// stays `Code`. Any other line is code.
    ///
    /// In the `MultiLineComment` state: the line takes the open block's
    /// class (code for an in-code string, comment otherwise), and the block
    /// closes when any configured end marker occurs in the line.
    pub open spec fn spec_classify(&self, state: ParseState, t: Seq<char>) -> (LineKind, ParseState) {
        match state {
            ParseState::Code => {
                if t.len() == 0 {
                    (LineKind::Blank, ParseState::Code)
                } else if self.spec_is_single_line_comment(t) {
                    (LineKind::Comment, ParseState::Code)
                } else {
                    match first_containing(self.spec_starts(), t) {
                        Some(k) => {
                            let m = self.spec_starts()[k];
                            match first_match(t, m) {
                                Some(pos) => {
                                    let as_code = (match first_match(t, seq!['=']) {
                                        Some(e) => pos > e,
                                        None => false,
                                    });
                                    let kind = if as_code {
                                        LineKind::Code
                                    } else {
                                        LineKind::Comment
                                    };
                                    let rest = t.subrange(pos + m.len(), t.len() as int);
                                    if any_contained(self.spec_ends(), rest) {
                                        (kind, ParseState::Code)
                                    } else {
                                        (kind, ParseState::MultiLineComment(as_code))
                                    }
                                },
                                None => (LineKind::Code, ParseState::Code),
                            }
                        },
                        None => (LineKind::Code, ParseState::Code),
                    }
                }
            },
            ParseState::MultiLineComment(as_code) => {
                let kind = if as_code {
                    LineKind::Code
                } else {
                    LineKind::Comment
                };
                if any_contained(self.spec_ends(), t) {
                    (kind, ParseState::Code)
                } else {
                    (kind, state)
                }
            },
        }
    }

    /// Classifies one raw line (trimmed internally) in the given state and
    /// returns the line's class together with the next state.
    pub fn classify_line(&self, state: ParseState, line: &str) -> (r: (LineKind, ParseState))
        ensures
            r == self.spec_classify(state, trim_spec(line@)),
    {
        let chars = str_to_chars(line);
        let t = trim_chars(&chars);
        match state {
            ParseState::Code => {
                if t.len() == 0 {
                    (LineKind::Blank, ParseState::Code)
                } else if self.is_single_line_comment_chars(&t) {
                    (LineKind::Comment, ParseState::Code)
                } else {
                    match first_contained_idx(&self.multiline_comment_start, &t) {
                        Some(k) => {
                            proof {
                                lemma_first_containing_props(self.spec_starts(), t@, 0);
                                assert(self.spec_starts().len()
                                    == self.multiline_comment_start@.len());
                            }
                            let m = str_to_chars(self.multiline_comment_start[k].as_str());
                            proof {
                                assert(m@ == self.spec_starts()[k as int]);
                            }
                            let pos = match find_sub(&t, &m) {
                                Some(u) => u,
                                None => {
                                    proof {
                                        assert(false);
                                    }
                                    0
                                },
                            };
                            proof {
                                lemma_first_match_props(t@, m@, 0);
                            }
                            let mut eq_marker: Vec<char> = Vec::new();
                            eq_marker.push('=');
                            proof {
                                assert(eq_marker@ =~= seq!['=']);
                            }
                            let as_code = match find_sub(&t, &eq_marker) {
                                Some(e) => pos > e,
                                None => false,
                            };
                            let kind = if as_code {
                                LineKind::Code
                            } else {
                                LineKind::Comment
                            };
                            let tn = t.len();
                            let rest = subrange_chars(&t, pos + m.len(), tn);
                            let closes = match first_contained_idx(&self.multiline_comment_end, &rest) {
                                Some(_) => true,
                                None => false,
                            };
                            if closes {
                                (kind, ParseState::Code)
                            } else {
                                (kind, ParseState::MultiLineComment(as_code))
                            }
                        },
                        None => (LineKind::Code, ParseState::Code),
                    }
                }
            },
            ParseState::MultiLineComment(as_code) => {
                let kind = if as_code {
                    LineKind::Code
                } else {
                    LineKind::Comment
                };
                let closes = match first_contained_idx(&self.multiline_comment_end, &t) {
                    Some(_) => true,
                    None => false,
                };
                if closes {
                    (kind, ParseState::Code)
                } else {
                    (kind, state)
                }
            },
        }
    }
}

/// The index of the first marker, in configured order, that occurs anywhere
/// in `line`.
fn first_contained_idx(markers: &Vec<String>, line: &Vec<char>) -> (r: Option<usize>)
    ensures
        (match r {
            Some(u) => first_containing(markers.deep_view(), line@) == Some(u as int),
            None => first_containing(markers.deep_view(), line@) is None,
        }),
{
    let n = markers.len();
    let mut k: usize = 0;
    while k < n
        invariant
            n == markers.deep_view().len(),
            k <= n,
            first_containing(markers.deep_view(), line@) == first_containing_from(
                markers.deep_view(),
                line@,
                k as int,
            ),
        decreases n - k,
    {
        let p = str_to_chars(markers[k].as_str());
        proof {
            assert(p@ == markers.deep_view()[k as int]);
        }
        if contains_chars(line, &p) {
            return Some(k);
        }
        k += 1;
    }
    None
}

/// The counts that scanning `lines` from `state` on accrues, as
/// (blank, comment, code): each raw line is trimmed, classified by
/// `spec_classify`, and the scan continues in the returned state.
pub open spec fn scan_counts(rules: LanguageRules, state: ParseState, lines: Seq<Seq<char>>) -> (
    nat,
    nat,
    nat,
)
    decreases lines.len(),
{
    if lines.len() == 0 {
        (0nat, 0nat, 0nat)
    } else {
        let step = rules.spec_classify(state, trim_spec(lines[0]));
        let rest = scan_counts(rules, step.1, lines.drop_first());
        match step.0 {
            LineKind::Blank => (rest.0 + 1, rest.1, rest.2),
            LineKind::Comment => (rest.0, rest.1 + 1, rest.2),
            LineKind::Code => (rest.0, rest.1, rest.2 + 1),
        }
    }
}

/// The (blank, comment, code) counts of a whole file: its lines scanned in
/// order, starting in the `Code` state.
pub open spec fn spec_count_lines(rules: LanguageRules, lines: Seq<Seq<char>>) -> (nat, nat, nat) {
    scan_counts(rules, ParseState::Code, lines)
}

/// Every scanned line lands in exactly one class: the three counts sum to
/// the number of lines scanned.
pub proof fn lemma_scan_conservation(rules: LanguageRules, state: ParseState, lines: Seq<Seq<char>>)
    ensures
        scan_counts(rules, state, lines).0 + scan_counts(rules, state, lines).1 + scan_counts(
            rules,
            state,
            lines,
        ).2 == lines.len(),
    decreases lines.len(),
{
    if lines.len() > 0 {
        let step = rules.spec_classify(state, trim_spec(lines[0]));
        lemma_scan_conservation(rules, step.1, lines.drop_first());
    }
}

/// Classification is deterministic: the same line sequence under the same
/// rules yields identical counts.
pub proof fn lemma_count_deterministic(
    rules1: LanguageRules,
    rules2: LanguageRules,
    lines1: Seq<Seq<char>>,
    lines2: Seq<Seq<char>>,
)
    requires
        rules1 == rules2,
        lines1 == lines2,
    ensures
        spec_count_lines(rules1, lines1) == spec_count_lines(rules2, lines2),
{
}

/// Scans a file's raw lines in order and counts how many are blank, comment,
/// and code. Lines are trimmed before classification; a whitespace-only line
/// is blank. This is the per-file counting core: reading the file itself is
/// the caller's concern, and a line that failed to decode should be handed
/// in as an empty string so that it counts as blank.
pub fn count_lines(rules: &LanguageRules, lines: &Vec<String>) -> (stats: FileStats)
    ensures
        stats.blank_lines == spec_count_lines(*rules, lines.deep_view()).0,
        stats.comment_lines == spec_count_lines(*rules, lines.deep_view()).1,
        stats.code_lines == spec_count_lines(*rules, lines.deep_view()).2,
        stats.blank_lines + stats.comment_lines + stats.code_lines == lines@.len(),
{
    let ghost all = lines.deep_view();
    let n = lines.len();
    let mut blank: usize = 0;
    let mut comment: usize = 0;
    let mut code: usize = 0;
    let mut state = ParseState::Code;
    let mut i: usize = 0;
    proof {
        assert(all.skip(0) =~= all);
    }
    while i < n
        invariant
            n == lines@.len(),
            all == lines.deep_view(),
            i <= n,
            blank + comment + code == i,
            spec_count_lines(*rules, all).0 == blank + scan_counts(*rules, state, all.skip(i as int)).0,
            spec_count_lines(*rules, all).1 == comment + scan_counts(*rules, state, all.skip(i as int)).1,
            spec_count_lines(*rules, all).2 == code + scan_counts(*rules, state, all.skip(i as int)).2,
        decreases n - i,
    {
        let step = rules.classify_line(state, lines[i].as_str());
        proof {
            assert(all[i as int] == lines@[i as int]@);
            assert(all.skip(i as int)[0] == all[i as int]);
            assert(all.skip(i as int).drop_first() =~= all.skip(i + 1));
        }
        match step.0 {
            LineKind::Blank => {
                blank += 1;
            },
            LineKind::Comment => {
                comment += 1;
            },
            LineKind::Code => {
                code += 1;
            },
        }
        state = step.1;
        i += 1;
    }
    proof {
        assert(all.skip(n as int) =~= Seq::<Seq<char>>::empty());
        lemma_scan_conservation(*rules, ParseState::Code, all);
    }
    FileStats { blank_lines: blank, comment_lines: comment, code_lines: code }
}

} // verus!
