use line_counter::process::{count_lines, LanguageRules};
use line_counter::stats::aggregate;
use line_counter::types::{FileStats, LineKind, ParseState};

fn lines(ls: &[&str]) -> Vec<String> {
    ls.iter().map(|s| s.to_string()).collect()
}

#[test]
fn test_blank_whitespace_only() {
    let rules = LanguageRules::for_python();
    let stats = count_lines(&rules, &lines(&["   \t  ", ""]));
    assert_eq!(stats.blank_lines, 2);
    assert_eq!(stats.comment_lines, 0);
    assert_eq!(stats.code_lines, 0);
}

#[test]
fn test_classify_blank_line() {
    let rules = LanguageRules::for_python();
    let r = rules.classify_line(ParseState::Code, "   \t ");
    assert_eq!(r, (LineKind::Blank, ParseState::Code));
}

#[test]
fn test_single_line_comment() {
    let rules = LanguageRules::for_python();
    let stats = count_lines(&rules, &lines(&["# hello", "    # indented"]));
    assert_eq!(stats.comment_lines, 2);
    assert_eq!(stats.blank_lines, 0);
    assert_eq!(stats.code_lines, 0);
}

#[test]
fn test_is_single_line_comment_trims_leading() {
    let rules = LanguageRules::for_python();
    assert!(rules.is_single_line_comment("# x"));
    assert!(rules.is_single_line_comment("   # x"));
    assert!(!rules.is_single_line_comment("x # y"));
}

#[test]
fn test_docstring_block() {
    let rules = LanguageRules::for_python();
    let stats = count_lines(&rules, &lines(&["\"\"\"", "docstring text", "\"\"\""]));
    assert_eq!(stats.comment_lines, 3);
    assert_eq!(stats.blank_lines, 0);
    assert_eq!(stats.code_lines, 0);
}

#[test]
fn test_code_string_block() {
    let rules = LanguageRules::for_python();
    let stats = count_lines(&rules, &lines(&["x = \"\"\"", "raw data", "\"\"\""]));
    assert_eq!(stats.code_lines, 3);
    assert_eq!(stats.blank_lines, 0);
    assert_eq!(stats.comment_lines, 0);
}

#[test]
fn test_mixed_file_scenario() {
    let rules = LanguageRules::for_python();
    let input = lines(&[
        "# header comment",
        "",
        "def f():",
        "    \"\"\"doc\"\"\"",
        "    return 1",
    ]);
    let stats = count_lines(&rules, &input);
    assert_eq!(stats.blank_lines, 1);
    assert_eq!(stats.comment_lines, 2);
    assert_eq!(stats.code_lines, 2);
}

#[test]
fn test_same_line_string_assignment() {
    let rules = LanguageRules::for_python();
    let stats = count_lines(&rules, &lines(&["x = \"\"\"abc\"\"\"", "y = 1"]));
    assert_eq!(stats.code_lines, 2);
    assert_eq!(stats.comment_lines, 0);
}

#[test]
fn test_unterminated_block() {
    let rules = LanguageRules::for_python();
    let stats = count_lines(&rules, &lines(&["\"\"\"", "still open"]));
    assert_eq!(stats.comment_lines, 2);
    assert_eq!(stats.blank_lines, 0);
    assert_eq!(stats.code_lines, 0);
}

#[test]
fn test_hash_line_with_marker_stays_comment() {
    let rules = LanguageRules::for_python();
    let stats = count_lines(&rules, &lines(&["#comment containing = \"\"\"", "x"]));
    assert_eq!(stats.comment_lines, 1);
    assert_eq!(stats.code_lines, 1);
}

#[test]
fn test_marker_priority_order() {
    let rules = LanguageRules::for_python();
    let m = rules.starts_multiline("''' \"\"\"");
    assert_eq!(m, Some(&String::from("\"\"\"")));
    let e = rules.ends_multiline("no marker here");
    assert_eq!(e, None);
}

#[test]
fn test_determinism() {
    let rules = LanguageRules::for_python();
    let input = lines(&["# a", "", "x = 1", "\"\"\"", "d", "\"\"\""]);
    let first = count_lines(&rules, &input);
    let second = count_lines(&rules, &input);
    assert_eq!(first, second);
}

#[test]
fn test_conservation() {
    let rules = LanguageRules::for_python();
    let input = lines(&["# a", "", "x = 1", "'''", "d", "'''", "  ", "y"]);
    let stats = count_lines(&rules, &input);
    assert_eq!(stats.blank_lines + stats.comment_lines + stats.code_lines, input.len());
}

#[test]
fn test_fold_concat() {
    let a = vec![
        FileStats { blank_lines: 1, comment_lines: 2, code_lines: 3 },
        FileStats { blank_lines: 4, comment_lines: 5, code_lines: 6 },
    ];
    let b = vec![FileStats { blank_lines: 7, comment_lines: 8, code_lines: 9 }];
    let mut union = a.clone();
    union.extend(b.clone());
    let ra = aggregate(&a).unwrap();
    let rb = aggregate(&b).unwrap();
    let ru = aggregate(&union).unwrap();
    assert_eq!(ru.files, ra.files + rb.files);
    assert_eq!(ru.blank_lines, ra.blank_lines + rb.blank_lines);
    assert_eq!(ru.comment_lines, ra.comment_lines + rb.comment_lines);
    assert_eq!(ru.code_lines, ra.code_lines + rb.code_lines);
}

#[test]
fn test_aggregate_overflow() {
    let huge = FileStats { blank_lines: usize::MAX, comment_lines: 0, code_lines: 0 };
    let stats = vec![huge, huge];
    assert_eq!(aggregate(&stats), None);
}

#[test]
fn test_add_file() {
    let mut totals = line_counter::types::LanguageStats::default();
    totals.add_file(&FileStats { blank_lines: 1, comment_lines: 2, code_lines: 3 });
    totals.add_file(&FileStats { blank_lines: 10, comment_lines: 20, code_lines: 30 });
    assert_eq!(totals.files, 2);
    assert_eq!(totals.blank_lines, 11);
    assert_eq!(totals.comment_lines, 22);
    assert_eq!(totals.code_lines, 33);
}

#[test]
fn test_cpp_rules() {
    let rules = LanguageRules::for_cpp();
    let input = lines(&[
        "// header",
        "",
        "/*",
        " block comment",
        "*/",
        "int x = 1;",
        "/* one line */",
    ]);
    let stats = count_lines(&rules, &input);
    assert_eq!(stats.blank_lines, 1);
    assert_eq!(stats.comment_lines, 5);
    assert_eq!(stats.code_lines, 1);
}

#[test]
fn test_process_file() {
    let rules = LanguageRules::for_python();
    let input = lines(&[
        "#!/usr/bin/env python",
        "# module header",
        "",
        "\"\"\"",
        "Module docstring",
        "spanning lines",
        "\"\"\"",
        "",
        "import os",
        "",
        "# helper",
        "def f():",
        "    \"\"\"doc\"\"\"",
        "    return 1",
        "x = \"\"\"",
        "raw",
        "\"\"\"",
        "y = 2",
        "# end",
    ]);
    let stats = count_lines(&rules, &input);
    assert_eq!(stats.blank_lines, 3, "Blank lines count should be 3");
    assert_eq!(stats.comment_lines, 9, "Comment lines count should be 9");
    assert_eq!(stats.code_lines, 7, "Code lines count should be 7");
}
