use algosketch::ir::{Expr, ForKind, Item, Literal, Stmt};
use algosketch::parser::{GoParser, LanguageParser};
use algosketch::{PseudoError, SourceLang};

#[test]
fn parses_go_function_shape() {
    let source = "package main\n\nfunc add(a int, b int) int {\n\treturn a + b\n}\n";
    let (module, diag) = GoParser::new().parse(source).unwrap();
    assert_eq!(diag.total(), 0);
    assert_eq!(module.items.len(), 1);
    let Item::Function(f) = &module.items[0] else {
        panic!("expected function");
    };
    assert_eq!(f.name, "add");
    assert_eq!(f.params.len(), 2);
    assert_eq!(f.params[0].name, "a");
}

#[test]
fn parses_go_method_receiver_as_param() {
    let source = "package main\n\nfunc (n *Node) set(v int) {\n\tn.v = v\n}\n";
    let (module, _) = GoParser::new().parse(source).unwrap();
    let Item::Function(f) = &module.items[0] else {
        panic!("expected function");
    };
    assert_eq!(f.name, "set");
    let names: Vec<&str> = f.params.iter().map(|p| p.name.as_str()).collect();
    assert_eq!(names, vec!["n", "v"]);
}

#[test]
fn parses_go_grouped_parameter_names() {
    let source = "package main\n\nfunc f(low, high int) int {\n\treturn low + high\n}\n";
    let (module, diag) = GoParser::new().parse(source).unwrap();
    assert_eq!(diag.total(), 0);
    let Item::Function(f) = &module.items[0] else {
        panic!("expected function");
    };
    assert_eq!(f.params.len(), 2);
    let names: Vec<&str> = f.params.iter().map(|p| p.name.as_str()).collect();
    assert_eq!(names, vec!["low", "high"]);
}

#[test]
fn skips_package_and_import_silently() {
    let source = "package main\n\nimport \"fmt\"\n\nfunc f() {\n\tfmt.Println(1)\n}\n";
    let (module, diag) = GoParser::new().parse(source).unwrap();
    assert_eq!(diag.total(), 0);
    assert_eq!(module.items.len(), 1);
}

#[test]
fn returns_parse_error_for_invalid_go() {
    let source = "func broken( {\n";
    let err = GoParser::new().parse(source).unwrap_err();
    assert!(matches!(err, PseudoError::Parse { .. }));
}

#[test]
fn parses_go_declarations_and_assignments() {
    let source =
        "package main\n\nfunc f() {\n\tvar x int = 3\n\ty := 4\n\tx = y\n\ta, b := 1, 2\n}\n";
    let (module, diag) = GoParser::new().parse(source).unwrap();
    let Item::Function(f) = &module.items[0] else {
        panic!()
    };
    assert!(matches!(f.body.0[0], Stmt::VarDecl(_)));
    assert!(matches!(f.body.0[1], Stmt::VarDecl(_)));
    assert!(matches!(f.body.0[2], Stmt::Assign { .. }));
    let Stmt::Assign { target: Expr::Tuple(targets), value: Expr::Tuple(values) } = &f.body.0[3]
    else {
        panic!("expected tuple assignment for a, b := 1, 2");
    };
    assert_eq!(targets.len(), 2);
    assert_eq!(values.len(), 2);
    assert_eq!(diag.total(), 0);
}

#[test]
fn parses_go_literals_and_operators() {
    let source =
        "package main\n\nfunc f() {\n\tx := 1 + 2 * 3\n\ts := \"hi\"\n\tb := true\n\tn := nil\n}\n";
    let (module, diag) = GoParser::new().parse(source).unwrap();
    let Item::Function(f) = &module.items[0] else {
        panic!()
    };
    assert_eq!(f.body.0.len(), 4);
    assert_eq!(diag.total(), 0);
}

#[test]
fn parses_go_return_break_continue() {
    let source = "package main\n\nfunc f() {\n\treturn 1\n}\n\nfunc g() {\n\treturn\n}\n\nfunc h() {\n\treturn 1, 2\n}\n";
    let (module, _) = GoParser::new().parse(source).unwrap();
    let Item::Function(f) = &module.items[0] else {
        panic!()
    };
    assert!(matches!(&f.body.0[0], Stmt::Return(Some(_))));
    let Item::Function(g) = &module.items[1] else {
        panic!()
    };
    assert!(matches!(&g.body.0[0], Stmt::Return(None)));
    let Item::Function(h) = &module.items[2] else {
        panic!()
    };
    let Stmt::Return(Some(Expr::Tuple(values))) = &h.body.0[0] else {
        panic!("expected tuple return");
    };
    assert_eq!(values.len(), 2);
}

#[test]
fn parses_go_calls_index_and_selectors() {
    let source =
        "package main\n\nfunc f(xs []int) {\n\tlen(xs)\n\tv := xs[0]\n\tw := xs[0].field\n}\n";
    let (module, diag) = GoParser::new().parse(source).unwrap();
    let Item::Function(f) = &module.items[0] else {
        panic!()
    };
    assert_eq!(f.body.0.len(), 3);
    assert_eq!(diag.total(), 0);
}

#[test]
fn parses_go_grouped_var_declaration() {
    let source = "package main\n\nfunc f() {\n\tvar (\n\t\ta int = 1\n\t\tb int = 2\n\t)\n}\n";
    let (module, diag) = GoParser::new().parse(source).unwrap();
    assert_eq!(diag.total(), 0);
    let Item::Function(f) = &module.items[0] else {
        panic!("expected function");
    };
    assert_eq!(f.body.0.len(), 2);
    assert!(matches!(&f.body.0[0], Stmt::VarDecl(d) if d.name == "a"));
    assert!(matches!(&f.body.0[1], Stmt::VarDecl(d) if d.name == "b"));
}

#[test]
fn parses_go_compound_assignment_as_raw() {
    let source = "package main\n\nfunc f() {\n\tx := 1\n\tx += 2\n}\n";
    let (module, diag) = GoParser::new().parse(source).unwrap();
    let Item::Function(f) = &module.items[0] else {
        panic!("expected function");
    };
    assert_eq!(f.body.0[1], Stmt::Raw("x += 2".to_string()));
    assert_eq!(diag.total(), 1);
}

#[test]
fn parses_go_body_with_leading_comment() {
    let source = "package main\n\nfunc f() {\n\t// leading\n\tx := 1\n\t// mid\n\ty := x\n}\n";
    let (module, diag) = GoParser::new().parse(source).unwrap();
    assert_eq!(diag.total(), 0);
    let Item::Function(f) = &module.items[0] else {
        panic!("expected function");
    };
    assert_eq!(f.body.0.len(), 2);
    assert!(matches!(f.body.0[0], Stmt::VarDecl(_)));
    assert!(matches!(f.body.0[1], Stmt::VarDecl(_)));
}

#[test]
fn bodyless_function_falls_back_to_raw_item() {
    let source = "package main\n\nfunc f()\n\nfunc g() int {\n\treturn 1\n}\n";
    let (module, diag) = GoParser::new().parse(source).unwrap();
    assert_eq!(module.items.len(), 2);
    let Item::Raw(text) = &module.items[0] else {
        panic!("expected raw item for the bodyless function");
    };
    assert!(text.contains("func f()"));
    let Item::Function(g) = &module.items[1] else {
        panic!("expected the concrete function to still parse");
    };
    assert_eq!(g.name, "g");
    assert_eq!(diag.items, 1);
}

#[test]
fn parses_go_if_else_chain() {
    let source = "package main\n\nfunc f(x int) int {\n\tif x == 1 {\n\t\treturn 1\n\t} else if x == 2 {\n\t\treturn 2\n\t} else {\n\t\treturn 3\n\t}\n}\n";
    let (module, diag) = GoParser::new().parse(source).unwrap();
    let Item::Function(f) = &module.items[0] else {
        panic!()
    };
    let Stmt::If { then_block, else_block: Some(else_block), .. } = &f.body.0[0] else {
        panic!("expected if with else");
    };
    assert_eq!(then_block.0.len(), 1);
    assert!(matches!(else_block.0[0], Stmt::If { .. }));
    assert_eq!(diag.total(), 0);
}

#[test]
fn parses_go_cstyle_and_cond_fors() {
    let source = "package main\n\nfunc f(n int) {\n\tfor i := 0; i < n; i++ {\n\t\tg(i)\n\t}\n\tfor n > 0 {\n\t\tn = n - 1\n\t}\n}\n";
    let (module, diag) = GoParser::new().parse(source).unwrap();
    let Item::Function(f) = &module.items[0] else {
        panic!()
    };
    let Stmt::For { kind: ForKind::CStyle { .. }, .. } = &f.body.0[0] else {
        panic!("expected c-style for");
    };
    let Stmt::While { cond, .. } = &f.body.0[1] else {
        panic!("expected while")
    };
    assert!(matches!(cond, Expr::Binary { .. }));
    assert_eq!(diag.expressions, 1);
    assert_eq!(diag.statements, 0);
}

#[test]
fn parses_go_range_and_infinite_for() {
    let source = "package main\n\nfunc f(xs []int) {\n\tfor v := range xs {\n\t\tg(v)\n\t}\n\tfor {\n\t\tbreak\n\t}\n}\n";
    let (module, diag) = GoParser::new().parse(source).unwrap();
    let Item::Function(f) = &module.items[0] else {
        panic!()
    };
    let Stmt::For { kind: ForKind::ForEach { var, .. }, .. } = &f.body.0[0] else {
        panic!("expected foreach");
    };
    assert_eq!(var, "v");
    let Stmt::While { cond, .. } = &f.body.0[1] else {
        panic!("expected while")
    };
    assert_eq!(cond, &Expr::Literal(Literal::Bool(true)));
    assert_eq!(diag.total(), 0);
}

#[test]
fn two_var_range_falls_back_to_raw() {
    let source = "package main\n\nfunc f(xs []int) {\n\tfor i, v := range xs {\n\t\tg(i)\n\t\tg(v)\n\t}\n}\n";
    let (_, diag) = GoParser::new().parse(source).unwrap();
    assert_eq!(diag.statements, 1);
    assert_eq!(diag.sorted_unique_lines(), vec![4]);
}

#[test]
fn parses_go_return_with_leading_comment() {
    let source = "package main\n\nfunc f() int {\n\treturn /* c */ 1\n}\n";
    let (module, diag) = GoParser::new().parse(source).unwrap();
    let Item::Function(f) = &module.items[0] else {
        panic!("expected function");
    };
    assert_eq!(f.body.0[0], Stmt::Return(Some(Expr::Literal(Literal::Int(1)))));
    assert_eq!(diag.total(), 0);
}

#[test]
fn top_level_comments_skip_silently() {
    let source =
        "// Algotorial sketch.\npackage main\n\nfunc f() {\n\tg()\n}\n// trailing note\n";
    let (module, diag) = GoParser::new().parse(source).unwrap();
    assert_eq!(module.items.len(), 1);
    assert_eq!(diag.total(), 0);
}

#[test]
fn comments_inside_expressions_do_not_disturb_parsing() {
    let source =
        "package main\n\nfunc f(n int) {\n\tx := (/* c */ n)\n\tg(/* d */ n)\n\treturn /* a */ n, /* b */ n\n}\n";
    let (module, diag) = GoParser::new().parse(source).unwrap();
    let Item::Function(f) = &module.items[0] else {
        panic!("expected function");
    };
    assert!(matches!(&f.body.0[0], Stmt::VarDecl(d) if matches!(d.init, Some(Expr::Ident(_)))));
    let Stmt::ExprStmt(Expr::Call { args, .. }) = &f.body.0[1] else {
        panic!("expected call");
    };
    assert_eq!(args.len(), 1);
    let Stmt::Return(Some(Expr::Tuple(values))) = &f.body.0[2] else {
        panic!("expected tuple return");
    };
    assert_eq!(values.len(), 2);
    assert_eq!(diag.total(), 0);
}

#[test]
fn go_function_span_covers_the_declaration() {
    let source = "package main\n\nfunc f() {\n}\n";
    let (module, _) = GoParser::new().parse(source).unwrap();
    let Item::Function(f) = &module.items[0] else {
        panic!("expected function");
    };
    assert_eq!(&source[f.span.start..f.span.end], "func f() {\n}");
    assert_eq!(module.source_language, SourceLang::Go);
    assert_eq!(GoParser::new().language(), SourceLang::Go);
}

#[test]
fn go_const_and_multi_name_var_declarations() {
    let source = "package main\n\nfunc f() {\n\tconst k = 10\n\tvar y, z int\n\tvar p, q = pair()\n}\n";
    let (module, diag) = GoParser::new().parse(source).unwrap();
    let Item::Function(f) = &module.items[0] else {
        panic!("expected function");
    };
    assert_eq!(f.body.0.len(), 4);
    assert!(matches!(&f.body.0[0], Stmt::VarDecl(d) if d.name == "k" && d.init == Some(Expr::Literal(Literal::Int(10)))));
    assert!(matches!(&f.body.0[1], Stmt::VarDecl(d) if d.name == "y" && d.init.is_none()));
    assert!(matches!(&f.body.0[2], Stmt::VarDecl(d) if d.name == "z" && d.init.is_none()));
    let Stmt::Assign { target: Expr::Tuple(names), value: Expr::Call { .. } } = &f.body.0[3] else {
        panic!("expected assignment of a multi-value call");
    };
    assert_eq!(names, &vec![Expr::Ident("p".to_string()), Expr::Ident("q".to_string())]);
    assert_eq!(diag.total(), 0);
}

#[test]
fn go_unmapped_unary_operator_stays_raw() {
    let source = "package main\n\nfunc f(p *int) int {\n\treturn *p\n}\n";
    let (module, diag) = GoParser::new().parse(source).unwrap();
    let Item::Function(f) = &module.items[0] else {
        panic!("expected function");
    };
    assert_eq!(f.body.0[0], Stmt::Return(Some(Expr::Raw("*p".to_string()))));
    assert_eq!(diag.expressions, 1);
    assert_eq!(diag.lines, vec![4]);
}
