use algosketch::ir::{Expr, ForKind, Item, Stmt};
use algosketch::parser::{JavaParser, LanguageParser};
use algosketch::SourceLang;

#[test]
fn parses_java_method_shape() {
    let source = r#"
class Solution {
    int answer(int x) {
        return x;
    }
}
"#;

    let (module, _) = JavaParser::new().parse(source).unwrap();
    assert_eq!(module.source_language, SourceLang::Java);
    let Item::Function(function) = &module.items[0] else {
        panic!("expected function");
    };

    assert_eq!(function.name, "answer");
    assert_eq!(
        function.params.iter().map(|p| p.name.as_str()).collect::<Vec<_>>(),
        vec!["x"]
    );
    assert!(matches!(function.body.0[0], Stmt::Return(_)));
}

#[test]
fn parses_java_binary_search_control_flow() {
    let source = r#"
class Solution {
    int binary_search(int[] nums, int target) {
        int left = 0;
        int right = nums.length - 1;
        while (left <= right) {
            int mid = (left + right) / 2;
            if (nums[mid] == target) {
                return mid;
            } else if (nums[mid] < target) {
                left = mid + 1;
            } else {
                right = mid - 1;
            }
        }
        return -1;
    }
}
"#;

    let (module, _) = JavaParser::new().parse(source).unwrap();
    let Item::Function(function) = &module.items[0] else {
        panic!("expected function");
    };

    assert!(matches!(function.body.0[0], Stmt::VarDecl(_)));
    assert!(matches!(function.body.0[2], Stmt::While { .. }));
}

#[test]
fn parses_java_cstyle_for_loop() {
    let source = r#"
class Solution {
    int first_even(int[] nums) {
        for (int i = 0; i < nums.length; i++) {
            if (nums[i] % 2 == 0) {
                return nums[i];
            }
        }
        return -1;
    }
}
"#;

    let (module, _) = JavaParser::new().parse(source).unwrap();
    let Item::Function(function) = &module.items[0] else {
        panic!("expected function");
    };
    let Stmt::For { kind, .. } = &function.body.0[0] else {
        panic!("expected for loop");
    };
    assert!(matches!(kind, ForKind::CStyle { .. }));
}

#[test]
fn parses_java_enhanced_for_loop() {
    let source = r#"
class Solution {
    int total(int[] nums) {
        int total = 0;
        for (int value : nums) {
            total = total + value;
        }
        return total;
    }
}
"#;

    let (module, _) = JavaParser::new().parse(source).unwrap();
    let Item::Function(function) = &module.items[0] else {
        panic!("expected function");
    };
    let Stmt::For { kind, .. } = &function.body.0[1] else {
        panic!("expected for loop");
    };
    assert!(matches!(kind, ForKind::ForEach { .. }));
}

#[test]
fn parses_java_skips_bodyless_method_and_parses_valid_one() {
    let source = r#"
abstract class Base {
    abstract int compute(int x);
    int answer(int x) {
        return x;
    }
}
"#;

    let (module, _) = JavaParser::new().parse(source).unwrap();
    assert_eq!(module.items.len(), 1, "should only parse the concrete method");
    let Item::Function(function) = &module.items[0] else {
        panic!("expected function");
    };
    assert_eq!(function.name, "answer");
}

#[test]
fn parses_java_unknown_binary_as_raw() {
    // >>> is a binary_expression in tree-sitter Java but not in our operator table.
    let source = r#"
class Solution {
    int check(int x) {
        return x >>> 1;
    }
}
"#;

    let (module, diag) = JavaParser::new().parse(source).unwrap();
    let Item::Function(function) = &module.items[0] else {
        panic!("expected function");
    };
    let Stmt::Return(Some(expr)) = &function.body.0[0] else {
        panic!("expected return");
    };
    assert!(matches!(expr, Expr::Raw(_)));
    assert_eq!(diag.expressions, 1);
}

#[test]
fn parses_java_compound_assignment_as_raw() {
    let source = r#"
class Solution {
    int total(int[] nums) {
        int total = 0;
        for (int value : nums) {
            total += value;
        }
        return total;
    }
}
"#;

    let (module, _) = JavaParser::new().parse(source).unwrap();
    let Item::Function(function) = &module.items[0] else {
        panic!("expected function");
    };
    let Stmt::For { body, .. } = &function.body.0[1] else {
        panic!("expected for loop");
    };
    assert_eq!(body.0[0], Stmt::Raw("total += value".to_string()));
}

#[test]
fn java_collects_methods_of_nested_classes_in_order() {
    let source = "class A {\n  int f() { return 1; }\n  static class B {\n    int g() { return 2; }\n  }\n  int h() { return 3; }\n}\n";
    let (module, diag) = JavaParser::new().parse(source).unwrap();
    let names: Vec<&str> = module
        .items
        .iter()
        .map(|it| match it {
            Item::Function(f) => f.name.as_str(),
            _ => "?",
        })
        .collect();
    assert_eq!(names, vec!["f", "g", "h"]);
    assert_eq!(diag.total(), 0);
}

#[test]
fn java_reports_syntax_errors() {
    let err = JavaParser::new().parse("class A { int f( { }").unwrap_err();
    assert!(matches!(err, algosketch::PseudoError::Parse { .. }));
    assert_eq!(JavaParser::new().language(), SourceLang::Java);
}
