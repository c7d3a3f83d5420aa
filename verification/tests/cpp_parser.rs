use algosketch::ir::{BinOp, Expr, ForKind, Item, Literal, Stmt};
use algosketch::parser::{CppParser, LanguageParser};
use algosketch::SourceLang;

#[test]
fn parses_cpp_function_shape() {
    let source = r#"
int answer(int x) {
    return x;
}
"#;

    let (module, _) = CppParser::new().parse(source).unwrap();
    assert_eq!(module.source_language, SourceLang::Cpp);
    let Item::Function(function) = &module.items[0] else {
        panic!("expected function");
    };

    assert_eq!(function.name, "answer");
    assert_eq!(
        function.params.iter().map(|p| p.name.as_str()).collect::<Vec<_>>(),
        vec!["x"]
    );
    assert!(matches!(function.body.0[0], Stmt::Return(_)));
}

#[test]
fn parses_cpp_uninitialized_declaration_as_vardecl() {
    let source = r#"
int answer(int x) {
    int result;
    return x;
}
"#;

    let (module, _) = CppParser::new().parse(source).unwrap();
    let Item::Function(function) = &module.items[0] else {
        panic!("expected function");
    };
    let Stmt::VarDecl(var_decl) = &function.body.0[0] else {
        panic!("expected variable declaration");
    };

    assert_eq!(var_decl.name, "result");
    assert!(var_decl.init.is_none());
}

#[test]
fn parses_cpp_pointer_declaration_as_raw() {
    let source = r#"
int answer(int x) {
    int *p;
    return x;
}
"#;

    let (module, _) = CppParser::new().parse(source).unwrap();
    let Item::Function(function) = &module.items[0] else {
        panic!("expected function");
    };

    assert!(matches!(function.body.0[0], Stmt::Raw(ref text) if text == "int *p;"));
}

#[test]
fn parses_cpp_initialized_reference_declaration_as_raw() {
    let source = r#"
int answer(int x) {
    int &r = x;
    return x;
}
"#;

    let (module, _) = CppParser::new().parse(source).unwrap();
    let Item::Function(function) = &module.items[0] else {
        panic!("expected function");
    };

    assert!(matches!(function.body.0[0], Stmt::Raw(ref text) if text == "int &r = x;"));
}

#[test]
fn parses_cpp_multi_uninitialized_declaration_as_raw() {
    let source = r#"
int answer(int x) {
    int a, b;
    return x;
}
"#;

    let (module, _) = CppParser::new().parse(source).unwrap();
    let Item::Function(function) = &module.items[0] else {
        panic!("expected function");
    };

    assert!(matches!(function.body.0[0], Stmt::Raw(ref text) if text == "int a, b;"));
}

#[test]
fn parses_cpp_empty_statement_without_parse_error() {
    let source = r#"
int answer(int x) {
    ;
    return x;
}
"#;

    let (module, _) = CppParser::new().parse(source).unwrap();
    let Item::Function(function) = &module.items[0] else {
        panic!("expected function");
    };

    assert!(matches!(function.body.0[0], Stmt::Raw(ref text) if text == ";"));
    assert!(matches!(function.body.0[1], Stmt::Return(_)));
}

#[test]
fn parses_cpp_else_if_as_nested_if_in_else_block() {
    let source = r#"
int f(int x) {
    if (x == 1) { return 1; }
    else if (x == 2) { return 2; }
    else { return 3; }
}
"#;

    let (module, _) = CppParser::new().parse(source).unwrap();
    let Item::Function(function) = &module.items[0] else {
        panic!("expected function");
    };
    let Stmt::If { else_block, .. } = &function.body.0[0] else {
        panic!("expected if statement");
    };
    let Some(else_block) = else_block else {
        panic!("expected else block");
    };
    assert_eq!(else_block.0.len(), 1);
    assert!(matches!(else_block.0[0], Stmt::If { .. }));
}

#[test]
fn parses_cpp_binary_search_control_flow() {
    let source = r#"
int binary_search(vector<int>& nums, int target) {
    int left = 0;
    int right = nums.size() - 1;
    while (left <= right) {
        int mid = (left + right) / 2;
        if (nums[mid] == target) {
            return mid;
        } else if (nums[mid] < target) {
            left = mid + 1;
        } else {
            right = mid - 1;
        }
    }
    return -1;
}
"#;

    let (module, _) = CppParser::new().parse(source).unwrap();
    let Item::Function(function) = &module.items[0] else {
        panic!("expected function");
    };

    assert!(matches!(function.body.0[0], Stmt::VarDecl(_)));
    assert!(matches!(function.body.0[2], Stmt::While { .. }));
}

#[test]
fn parses_cpp_cstyle_for_loop() {
    let source = r#"
int first_even(vector<int>& nums) {
    for (int i = 0; i < nums.size(); i++) {
        if (nums[i] % 2 == 0) {
            return nums[i];
        }
    }
    return -1;
}
"#;

    let (module, _) = CppParser::new().parse(source).unwrap();
    let Item::Function(function) = &module.items[0] else {
        panic!("expected function");
    };
    let Stmt::For { kind, .. } = &function.body.0[0] else {
        panic!("expected for loop");
    };
    let ForKind::CStyle { init, cond, step } = kind else {
        panic!("expected C-style for loop");
    };
    let Stmt::VarDecl(init_decl) = init.as_ref() else {
        panic!("expected variable declaration init");
    };
    assert_eq!(init_decl.name, "i");
    assert_eq!(init_decl.init, Some(Expr::Literal(Literal::Int(0))));
    assert!(matches!(
        cond,
        Expr::Binary {
            op: BinOp::Lt,
            lhs,
            rhs,
        } if matches!(lhs.as_ref(), Expr::Ident(name) if name == "i")
            && matches!(rhs.as_ref(), Expr::Call { callee, args }
                if args.is_empty()
                    && matches!(callee.as_ref(), Expr::Field { obj, name }
                        if name == "size"
                            && matches!(obj.as_ref(), Expr::Ident(obj_name) if obj_name == "nums")))
    ));
    assert_eq!(step, &Expr::Raw("i++".to_string()));
}

#[test]
fn parses_cpp_range_for_loop() {
    let source = r#"
int total(vector<int>& nums) {
    int total = 0;
    for (int value : nums) {
        total = total + value;
    }
    return total;
}
"#;

    let (module, _) = CppParser::new().parse(source).unwrap();
    let Item::Function(function) = &module.items[0] else {
        panic!("expected function");
    };
    let Stmt::For { kind, .. } = &function.body.0[1] else {
        panic!("expected for loop");
    };
    assert!(matches!(kind, ForKind::ForEach { .. }));
}

#[test]
fn cpp_finds_functions_in_namespaces_and_skips_declarations() {
    let source = "int g(int);\nnamespace ns {\nint f(int a, int b) { return a + b; }\n}\n";
    let (module, _) = CppParser::new().parse(source).unwrap();
    assert_eq!(module.items.len(), 1);
    let Item::Function(f) = &module.items[0] else {
        panic!("expected function");
    };
    assert_eq!(f.name, "f");
    assert_eq!(f.params.len(), 2);
    assert_eq!(f.params[1].type_hint.as_ref().map(|t| t.0.as_str()), Some("int"));
    assert_eq!(f.return_type.as_ref().map(|t| t.0.as_str()), Some("int"));
    assert_eq!(CppParser::new().language(), SourceLang::Cpp);
}

#[test]
fn cpp_compound_assignment_keeps_the_statement_raw() {
    let source = "int f(int x) {\n    x += 1;\n    return x;\n}\n";
    let (module, diag) = CppParser::new().parse(source).unwrap();
    let Item::Function(f) = &module.items[0] else {
        panic!("expected function");
    };
    assert_eq!(f.body.0[0], Stmt::Raw("x += 1;".to_string()));
    assert_eq!(diag.statements, 1);
    assert_eq!(diag.lines, vec![2]);
}
