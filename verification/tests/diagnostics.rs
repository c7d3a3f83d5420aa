use algosketch::diagnostics::RawDiagnostics;
use algosketch::parser::{CppParser, GoParser, JavaParser, LanguageParser, PythonParser};

#[test]
fn total_sums_all_kinds() {
    let mut diag = RawDiagnostics::default();
    diag.record_item(1);
    diag.record_statement(2);
    diag.record_expression(3);
    assert_eq!(diag.total(), 3);
    assert_eq!(diag.total(), diag.lines.len());
}

#[test]
fn recorders_increment_counts_and_append_lines() {
    let mut diag = RawDiagnostics::default();
    diag.record_statement(5);
    diag.record_statement(7);
    assert_eq!(diag.statements, 2);
    assert_eq!(diag.lines, vec![5, 7]);
}

#[test]
fn sorted_unique_lines_sorts_and_dedups() {
    let mut diag = RawDiagnostics::default();
    diag.record_statement(9);
    diag.record_expression(3);
    diag.record_statement(9);
    assert_eq!(diag.sorted_unique_lines(), vec![3, 9]);
}

#[test]
fn new_diagnostics_are_empty() {
    let diag = RawDiagnostics::new();
    assert_eq!(diag, RawDiagnostics::default());
    assert_eq!(diag.total(), 0);
    assert!(diag.sorted_unique_lines().is_empty());
}

#[test]
fn sorted_unique_lines_depends_only_on_the_set_of_lines() {
    let mut a = RawDiagnostics::default();
    for line in [4, 1, 4, 2, 1] {
        a.record_expression(line);
    }
    let mut b = RawDiagnostics::default();
    for line in [2, 1, 4] {
        b.record_item(line);
    }
    assert_eq!(a.sorted_unique_lines(), vec![1, 2, 4]);
    assert_eq!(a.sorted_unique_lines(), b.sorted_unique_lines());
}

#[test]
fn every_recorder_adds_exactly_one_line() {
    let mut diag = RawDiagnostics::default();
    diag.record_item(10);
    assert_eq!((diag.items, diag.statements, diag.expressions), (1, 0, 0));
    diag.record_expression(11);
    assert_eq!((diag.items, diag.statements, diag.expressions), (1, 0, 1));
    diag.record_statement(12);
    assert_eq!(diag.lines, vec![10, 11, 12]);
    assert_eq!(diag.total(), diag.lines.len());
}

#[test]
fn python_reports_raw_statement_line() {
    let source = "\ndef f():\n    yield 42\n    return 1\n";
    let (_, diag) = PythonParser::new().parse(source).unwrap();
    assert_eq!(diag.total(), 1);
    assert_eq!(diag.statements, 1);
    assert_eq!(diag.sorted_unique_lines(), vec![3]);
}

#[test]
fn java_reports_raw_statement_line() {
    let source = "class C {\n    int sum(int[] values) {\n        int total = 0;\n        total += values[0];\n        return total;\n    }\n}\n";
    let (_, diag) = JavaParser::new().parse(source).unwrap();
    assert_eq!(diag.total(), 1);
    assert_eq!(diag.statements, 1);
    assert_eq!(diag.sorted_unique_lines(), vec![4]);
}

#[test]
fn cpp_reports_raw_statement_line() {
    let source = "int probe(int x) {\n    int *p;\n    return x;\n}\n";
    let (_, diag) = CppParser::new().parse(source).unwrap();
    assert_eq!(diag.total(), 1);
    assert_eq!(diag.statements, 1);
    assert_eq!(diag.sorted_unique_lines(), vec![2]);
}

#[test]
fn go_reports_raw_statement_and_expression_lines() {
    let source = "package main\n\nfunc f(x int) {\n\tdefer close(c)\n\tfor i := 0; i < x; i++ {\n\t\tg(i)\n\t}\n}\n";
    let (_, diag) = GoParser::new().parse(source).unwrap();
    assert_eq!(diag.statements, 1); // defer
    assert_eq!(diag.expressions, 1); // i++ update clause
    assert_eq!(diag.sorted_unique_lines(), vec![4, 5]);
}

#[test]
fn python_reports_raw_item_and_expression_lines() {
    let source = "import os\n\ndef f(a):\n    return a is None\n";
    let (_, diag) = PythonParser::new().parse(source).unwrap();
    assert_eq!(diag.items, 1);
    assert_eq!(diag.expressions, 1);
    assert_eq!(diag.lines, vec![1, 4]);
}

#[test]
fn java_reports_raw_expression_line() {
    let source = "class C {\n    int shift(int a) {\n        int y = a >>> 2;\n        return y;\n    }\n}\n";
    let (_, diag) = JavaParser::new().parse(source).unwrap();
    assert_eq!(diag.items, 0);
    assert_eq!(diag.statements, 0);
    assert_eq!(diag.expressions, 1);
    assert_eq!(diag.lines, vec![3]);
}

#[test]
fn cpp_initialiser_of_a_raw_declaration_stays_counted() {
    let source = "int probe(int a) {\n    int *p = a ? 0 : 0;\n    return a;\n}\n";
    let (module, diag) = CppParser::new().parse(source).unwrap();
    assert_eq!(module.items.len(), 1);
    assert_eq!(diag.statements, 1);
    assert_eq!(diag.expressions, 1);
    assert_eq!(diag.total(), diag.lines.len());
    assert_eq!(diag.sorted_unique_lines(), vec![2]);
}
