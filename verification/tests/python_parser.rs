use algosketch::ir::{Expr, ForKind, Item, Literal, Stmt};
use algosketch::parser::{LanguageParser, PythonParser};
use algosketch::{PseudoError, SourceLang};

const BINARY_SEARCH: &str = r#"
def binary_search(nums, target):
    left, right = 0, len(nums) - 1
    while left <= right:
        mid = (left + right) // 2
        if nums[mid] == target:
            return mid
        elif nums[mid] < target:
            left = mid + 1
        else:
            right = mid - 1
    return -1
"#;

fn check_binary_search_shape() {
    let (module, _) = PythonParser::new().parse(BINARY_SEARCH).unwrap();
    let Item::Function(function) = &module.items[0] else {
        panic!("expected function");
    };

    assert_eq!(function.name, "binary_search");
    assert_eq!(
        function.params.iter().map(|p| p.name.as_str()).collect::<Vec<_>>(),
        vec!["nums", "target"]
    );
    assert!(matches!(function.body.0[1], Stmt::While { .. }));
}

fn check_unsupported_comparison() {
    let source = r#"
def rebuild_path(came_from, current):
    while current in came_from:
        current = came_from[current]
    return current
"#;

    let (module, _) = PythonParser::new().parse(source).unwrap();
    let Item::Function(function) = &module.items[0] else {
        panic!("expected function");
    };
    let Stmt::While { cond, .. } = &function.body.0[0] else {
        panic!("expected while");
    };
    assert_eq!(cond, &Expr::Raw("current in came_from".to_string()));
}

fn check_invalid_python() {
    let result = PythonParser::new().parse("def f(:\n    pass\n");
    match result {
        Err(PseudoError::Parse { .. }) => {}
        other => panic!("expected Parse error, got {other:?}"),
    }
}

#[test]
fn parser_parses_python_binary_search_function_shape() {
    check_binary_search_shape();
}

#[test]
fn python_parses_python_binary_search_function_shape() {
    check_binary_search_shape();
}

#[test]
fn parser_preserves_unsupported_comparison_as_raw_expr() {
    check_unsupported_comparison();
}

#[test]
fn python_preserves_unsupported_comparison_as_raw_expr() {
    check_unsupported_comparison();
}

#[test]
fn parser_returns_parse_error_for_invalid_python() {
    check_invalid_python();
}

#[test]
fn python_returns_parse_error_for_invalid_python() {
    check_invalid_python();
}

#[test]
fn parses_python_range_for_loop() {
    let source = r#"
def first_even(nums):
    for i in range(0, len(nums)):
        if nums[i] % 2 == 0:
            return nums[i]
    return -1
"#;

    let (module, _) = PythonParser::new().parse(source).unwrap();
    let Item::Function(function) = &module.items[0] else {
        panic!("expected function");
    };
    let Stmt::For { kind, body } = &function.body.0[0] else {
        panic!("expected for loop");
    };
    let ForKind::Range { var, start, end, step } = kind else {
        panic!("expected range for loop");
    };

    assert_eq!(var, "i");
    assert_eq!(start, &Expr::Literal(Literal::Int(0)));
    assert_eq!(
        end,
        &Expr::Call {
            callee: Box::new(Expr::Ident("len".to_string())),
            args: vec![Expr::Ident("nums".to_string())]
        }
    );
    assert_eq!(step, &None);
    assert!(matches!(body.0[0], Stmt::If { .. }));
}

#[test]
fn parses_python_for_each_loop() {
    let source = r#"
def total(nums):
    sum = 0
    for value in nums:
        sum = sum + value
    return sum
"#;

    let (module, _) = PythonParser::new().parse(source).unwrap();
    let Item::Function(function) = &module.items[0] else {
        panic!("expected function");
    };
    let Stmt::For { kind, body } = &function.body.0[1] else {
        panic!("expected for loop");
    };
    assert_eq!(
        kind,
        &ForKind::ForEach { var: "value".to_string(), iter: Expr::Ident("nums".to_string()) }
    );
    assert!(matches!(body.0[0], Stmt::Assign { .. }));
}

#[test]
fn parses_python_break_and_continue() {
    let source = r#"
def scan(nums):
    while True:
        continue
        break
"#;

    let (module, _) = PythonParser::new().parse(source).unwrap();
    let Item::Function(function) = &module.items[0] else {
        panic!("expected function");
    };
    let Stmt::While { body, .. } = &function.body.0[0] else {
        panic!("expected while");
    };
    assert!(matches!(body.0[0], Stmt::Continue));
    assert!(matches!(body.0[1], Stmt::Break));
}

#[test]
fn python_module_is_tagged_and_keeps_other_items_raw() {
    let (module, diag) = PythonParser::new().parse("import os\n\ndef f():\n    return None\n").unwrap();
    assert_eq!(module.source_language, SourceLang::Python);
    assert_eq!(module.items[0], Item::Raw("import os".to_string()));
    let Item::Function(f) = &module.items[1] else {
        panic!("expected function");
    };
    assert_eq!(f.body.0[0], Stmt::Return(Some(Expr::Literal(Literal::Nil))));
    assert_eq!(diag.items, 1);
    assert_eq!(PythonParser::new().language(), SourceLang::Python);
}

#[test]
fn python_range_with_one_and_three_arguments() {
    let source = "def f(n):\n    for i in range(n):\n        pass\n    for j in range(1, n, 2):\n        pass\n";
    let (module, _) = PythonParser::new().parse(source).unwrap();
    let Item::Function(f) = &module.items[0] else {
        panic!("expected function");
    };
    let Stmt::For { kind: ForKind::Range { start, end, step, .. }, .. } = &f.body.0[0] else {
        panic!("expected range for loop");
    };
    assert_eq!(start, &Expr::Literal(Literal::Int(0)));
    assert_eq!(end, &Expr::Ident("n".to_string()));
    assert_eq!(step, &None);
    let Stmt::For { kind: ForKind::Range { start, step, .. }, .. } = &f.body.0[1] else {
        panic!("expected range for loop");
    };
    assert_eq!(start, &Expr::Literal(Literal::Int(1)));
    assert_eq!(step, &Some(Expr::Literal(Literal::Int(2))));
}

#[test]
fn python_typed_assignment_declares() {
    let (module, _) = PythonParser::new().parse("def f():\n    x: int = 3\n").unwrap();
    let Item::Function(f) = &module.items[0] else {
        panic!("expected function");
    };
    let Stmt::VarDecl(x) = &f.body.0[0] else {
        panic!("expected declaration");
    };
    assert_eq!(x.name, "x");
    assert_eq!(x.type_hint.as_ref().map(|t| t.0.as_str()), Some("int"));
    assert_eq!(x.init, Some(Expr::Literal(Literal::Int(3))));
}

#[test]
fn python_power_operator_stays_raw() {
    let (module, diag) = PythonParser::new().parse("def f(x):\n    return x ** 2\n").unwrap();
    let Item::Function(function) = &module.items[0] else {
        panic!("expected function");
    };
    assert_eq!(function.body.0[0], Stmt::Return(Some(Expr::Raw("x ** 2".to_string()))));
    assert_eq!(diag.expressions, 1);
    assert_eq!(diag.lines, vec![2]);
}

#[test]
fn python_unary_plus_stays_raw() {
    let (module, diag) = PythonParser::new().parse("def f(x):\n    return +x\n").unwrap();
    let Item::Function(function) = &module.items[0] else {
        panic!("expected function");
    };
    assert_eq!(function.body.0[0], Stmt::Return(Some(Expr::Raw("+x".to_string()))));
    assert_eq!(diag.expressions, 1);
}
