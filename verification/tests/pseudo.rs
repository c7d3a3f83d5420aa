use algosketch::ir::{BinOp, Block, Expr, ForKind, Function, Literal, Span, Stmt, VarDecl};
use algosketch::parser::{LanguageParser, PythonParser};
use algosketch::renderer::PseudoRenderer;

fn test_function(body: Vec<Stmt>) -> Function {
    Function {
        name: "test".to_string(),
        params: vec![],
        return_type: None,
        body: Block(body),
        span: Span::default(),
    }
}

#[test]
fn renders_vardecl_with_initializer() {
    let function = test_function(vec![Stmt::VarDecl(VarDecl {
        name: "x".to_string(),
        type_hint: None,
        init: Some(Expr::Literal(Literal::Int(1))),
    })]);

    let out = PseudoRenderer::new().render_function(&function);

    assert!(out.contains("x ← 1"), "missing VarDecl init in:\n{out}");
    assert!(!out.contains("<unsupported stmt>"), "rendered unsupported marker in:\n{out}");
}

#[test]
fn renders_for_each_loop() {
    let function = test_function(vec![Stmt::For {
        kind: ForKind::ForEach { var: "x".to_string(), iter: Expr::Ident("nums".to_string()) },
        body: Block(vec![Stmt::Continue]),
    }]);

    let out = PseudoRenderer::new().render_function(&function);

    assert!(out.contains("FOR EACH x IN nums"), "missing for-each header in:\n{out}");
    assert!(out.contains("END FOR"), "missing END FOR in:\n{out}");
}

#[test]
fn renders_range_loop() {
    let function = test_function(vec![Stmt::For {
        kind: ForKind::Range {
            var: "i".to_string(),
            start: Expr::Literal(Literal::Int(0)),
            end: Expr::Ident("n".to_string()),
            step: None,
        },
        body: Block(vec![Stmt::Break]),
    }]);

    let out = PseudoRenderer::new().render_function(&function);

    assert!(out.contains("FOR i ← 0 TO n - 1"), "missing range header in:\n{out}");
}

#[test]
fn renders_cstyle_for_loop() {
    let function = test_function(vec![Stmt::For {
        kind: ForKind::CStyle {
            init: Box::new(Stmt::Assign {
                target: Expr::Ident("i".to_string()),
                value: Expr::Literal(Literal::Int(0)),
            }),
            cond: Expr::Binary {
                op: BinOp::Lt,
                lhs: Box::new(Expr::Ident("i".to_string())),
                rhs: Box::new(Expr::Ident("n".to_string())),
            },
            step: Expr::Raw("i = i + 1".to_string()),
        },
        body: Block(vec![Stmt::Continue]),
    }]);

    let out = PseudoRenderer::new().render_function(&function);

    assert!(out.contains("FOR i ← 0; i < n; i = i + 1"), "missing c-style header in:\n{out}");
    assert!(out.contains("END FOR"), "missing END FOR in:\n{out}");
}

#[test]
fn renders_binary_search_pseudocode() {
    let source = r#"
def binary_search(nums, target):
    left, right = 0, len(nums) - 1
    while left <= right:
        mid = (left + right) // 2
        if nums[mid] == target:
            return mid
        elif nums[mid] < target:
            left = mid + 1
        else:
            right = mid - 1
    return -1
"#;

    let (module, _) = PythonParser::new().parse(source).unwrap();
    let out = PseudoRenderer::new().render_module(&module);

    assert!(out.contains("FUNCTION binary_search(nums, target)"), "missing FUNCTION header in:\n{out}");
    assert!(out.contains("WHILE left ≤ right"), "missing WHILE line in:\n{out}");
    assert!(out.contains("mid ← (left + right) DIV 2"), "missing mid line in:\n{out}");
    assert!(out.contains("IF nums[mid] = target THEN"), "missing IF line in:\n{out}");
    assert!(out.contains("ELSE IF nums[mid] < target THEN"), "missing ELSE IF line in:\n{out}");
    assert!(out.contains("ELSE\n"), "missing ELSE line in:\n{out}");
    assert!(out.contains("RETURN -1"), "missing RETURN -1 in:\n{out}");
    assert!(out.contains("END FUNCTION"), "missing END FUNCTION in:\n{out}");
}

#[test]
fn same_algorithm_in_three_languages_renders_the_same() {
    let py = "def f(n):\n    i = 0\n    while i < n:\n        i = i + 1\n    return i\n";
    let java = "class A {\n  int f(int n) {\n    int i = 0;\n    while (i < n) {\n      i = i + 1;\n    }\n    return i;\n  }\n}\n";
    let cpp = "int f(int n) {\n    int i = 0;\n    while (i < n) {\n        i = i + 1;\n    }\n    return i;\n}\n";
    let go = "package main\n\nfunc f(n int) int {\n\ti := 0\n\tfor i < n {\n\t\ti = i + 1\n\t}\n\treturn i\n}\n";
    let r = PseudoRenderer::new();
    let (m_py, _) = PythonParser::new().parse(py).unwrap();
    let (m_java, _) = algosketch::parser::JavaParser::new().parse(java).unwrap();
    let (m_cpp, _) = algosketch::parser::CppParser::new().parse(cpp).unwrap();
    let (m_go, _) = algosketch::parser::GoParser::new().parse(go).unwrap();
    let expected = r.render_module(&m_py);
    assert_eq!(
        expected,
        "FUNCTION f(n)\n    i ← 0\n    WHILE i < n\n        i ← i + 1\n    END WHILE\n    RETURN i\nEND FUNCTION\n"
    );
    assert_eq!(r.render_module(&m_java), expected);
    assert_eq!(r.render_module(&m_cpp), expected);
    assert_eq!(r.render_module(&m_go), expected);
}

#[test]
fn indent_width_sets_the_nesting_step() {
    let function = test_function(vec![Stmt::Return(None)]);
    let two = PseudoRenderer { indent_width: 2 }.render_function(&function);
    assert_eq!(two, "FUNCTION test()\n  RETURN\nEND FUNCTION\n");
    let zero = PseudoRenderer { indent_width: 0 }.render_function(&function);
    assert_eq!(zero, "FUNCTION test()\n    RETURN\nEND FUNCTION\n");
}

#[test]
fn array_length_field_renders_as_length() {
    let function = test_function(vec![Stmt::VarDecl(VarDecl {
        name: "n".to_string(),
        type_hint: None,
        init: Some(Expr::Field { obj: Box::new(Expr::Ident("x".to_string())), name: "length".to_string() }),
    })]);

    let out = PseudoRenderer::new().render_function(&function);

    assert!(out.contains("n ← LENGTH(x)"), "missing LENGTH in:\n{out}");
    assert!(!out.contains("x.length"), "field kept in:\n{out}");
}
