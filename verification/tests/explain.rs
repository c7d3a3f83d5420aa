use algosketch::ir::{BinOp, Block, Expr, ForKind, Item, Literal, Stmt, VarDecl};
use algosketch::parser::{LanguageParser, PythonParser};
use algosketch::renderer::explain::expr_to_text;
use algosketch::renderer::ExplainRenderer;
use algosketch::NaturalLang;

fn parse(source: &str) -> algosketch::ir::Module {
    PythonParser::new().parse(source).unwrap().0
}

#[test]
fn renders_empty_module() {
    let module = parse("");
    let out = ExplainRenderer::new(NaturalLang::Zh).render_module(&module);
    assert_eq!(out, "");
}

#[test]
fn detects_loop_in_function() {
    let module = parse("\ndef foo():\n    while True:\n        pass\n");
    let renderer = ExplainRenderer::new(NaturalLang::Zh);
    if let Some(Item::Function(f)) = module.items.first() {
        assert!(renderer.has_loop(&f.body));
    } else {
        panic!("Expected function");
    }
}

#[test]
fn detects_loop_returns_false_without_loop() {
    let module = parse("\ndef foo():\n    x = 1\n    return x\n");
    let renderer = ExplainRenderer::new(NaturalLang::Zh);
    if let Some(Item::Function(f)) = module.items.first() {
        assert!(!renderer.has_loop(&f.body));
    } else {
        panic!("Expected function");
    }
}

#[test]
fn detects_loop_nested_under_if() {
    let module = parse("\ndef foo(flag):\n    if flag:\n        while True:\n            pass\n");
    let renderer = ExplainRenderer::new(NaturalLang::Zh);
    if let Some(Item::Function(f)) = module.items.first() {
        assert!(renderer.has_loop(&f.body));
    } else {
        panic!("Expected function");
    }
}

#[test]
fn detects_recursion_in_function() {
    let module = parse("\ndef factorial(n):\n    return factorial(n - 1)\n");
    let renderer = ExplainRenderer::new(NaturalLang::Zh);
    if let Some(Item::Function(f)) = module.items.first() {
        assert!(renderer.has_recursion(f));
    } else {
        panic!("Expected function");
    }
}

#[test]
fn detects_recursion_returns_false_for_different_function_call() {
    let module = parse("\ndef factorial(n):\n    return helper(n - 1)\n");
    let renderer = ExplainRenderer::new(NaturalLang::Zh);
    if let Some(Item::Function(f)) = module.items.first() {
        assert!(!renderer.has_recursion(f));
    } else {
        panic!("Expected function");
    }
}

#[test]
fn detects_recursion_under_unary_expression() {
    let module = parse("\ndef factorial(n):\n    return -factorial(n - 1)\n");
    let renderer = ExplainRenderer::new(NaturalLang::Zh);
    if let Some(Item::Function(f)) = module.items.first() {
        assert!(renderer.has_recursion(f));
    } else {
        panic!("Expected function");
    }
}

#[test]
fn detects_recursion_in_call_argument() {
    let module = parse("\ndef factorial(n):\n    return helper(factorial(n - 1))\n");
    let renderer = ExplainRenderer::new(NaturalLang::Zh);
    if let Some(Item::Function(f)) = module.items.first() {
        assert!(renderer.has_recursion(f));
    } else {
        panic!("Expected function");
    }
}

#[test]
fn detects_search_purpose_zh() {
    let module = parse("\ndef binary_search(nums, target):\n    while True:\n        pass\n");
    let renderer = ExplainRenderer::new(NaturalLang::Zh);
    if let Some(Item::Function(f)) = module.items.first() {
        let purpose = renderer.detect_purpose(f);
        assert!(purpose.contains("查找"));
        assert!(purpose.contains("迭代"));
    } else {
        panic!("Expected function");
    }
}

#[test]
fn detects_search_purpose_en() {
    let module = parse("\ndef binary_search(nums, target):\n    while True:\n        pass\n");
    let renderer = ExplainRenderer::new(NaturalLang::En);
    if let Some(Item::Function(f)) = module.items.first() {
        let purpose = renderer.detect_purpose(f);
        assert!(purpose.contains("search"));
        assert!(purpose.contains("iteratively"));
    } else {
        panic!("Expected function");
    }
}

#[test]
fn renders_while_and_if_steps_zh() {
    let module = parse("\ndef foo(x):\n    while x > 0:\n        if x == 1:\n            return x\n        x = x - 1\n");
    let out = ExplainRenderer::new(NaturalLang::Zh).render_module(&module);
    assert!(out.contains("当 x > 0 时重复以下步骤"));
    assert!(out.contains("如果 x = 1，则"));
    assert!(out.contains("返回 x"));
}

#[test]
fn renders_while_and_nested_if_with_numbering_zh() {
    let module = parse("\ndef foo(x):\n    while x > 0:\n        if x == 1:\n            return x\n        x = x - 1\n");
    let out = ExplainRenderer::new(NaturalLang::Zh).render_module(&module);
    assert_eq!(
        out,
        "  1. 当 x > 0 时重复以下步骤：\n    1. 如果 x = 1，则：\n      1. 返回 x\n    2. 将 x 赋值为 x - 1\n"
    );
}

#[test]
fn render_module_starts_function_steps_at_depth_one() {
    let module = parse("\ndef foo():\n    return 1\n");
    let out = ExplainRenderer::new(NaturalLang::Zh).render_module(&module);
    assert_eq!(out, "  1. 返回 1\n");
}

#[test]
fn renders_for_each_header_en() {
    let stmt = Stmt::For {
        kind: ForKind::ForEach { var: "x".into(), iter: Expr::Ident("nums".into()) },
        body: Block(vec![Stmt::Break]),
    };
    let mut out = String::new();
    ExplainRenderer::new(NaturalLang::En).render_stmt(&stmt, 0, &mut out);
    assert!(out.contains("For each x in nums, repeat:"));
    assert!(out.contains("Break out of loop"));
}

#[test]
fn renders_range_step_zh() {
    let stmt = Stmt::For {
        kind: ForKind::Range {
            var: "i".into(),
            start: Expr::Literal(Literal::Int(0)),
            end: Expr::Ident("n".into()),
            step: Some(Expr::Literal(Literal::Int(2))),
        },
        body: Block(vec![Stmt::Continue]),
    };
    let mut out = String::new();
    ExplainRenderer::new(NaturalLang::Zh).render_stmt(&stmt, 0, &mut out);
    assert!(out.contains("令 i 从 0 到 n，步长为 2，重复以下步骤："));
}

#[test]
fn renders_cstyle_for_header_with_init_cond_step_en() {
    let stmt = Stmt::For {
        kind: ForKind::CStyle {
            init: Box::new(Stmt::Assign {
                target: Expr::Ident("i".into()),
                value: Expr::Literal(Literal::Int(0)),
            }),
            cond: Expr::Binary {
                op: BinOp::Lt,
                lhs: Box::new(Expr::Ident("i".into())),
                rhs: Box::new(Expr::Ident("n".into())),
            },
            step: Expr::Raw("i = i + 1".into()),
        },
        body: Block(vec![Stmt::Break]),
    };
    let mut out = String::new();
    ExplainRenderer::new(NaturalLang::En).render_stmt(&stmt, 0, &mut out);
    assert!(out.contains("Loop with init Assign i to 0, condition i < n, and step i = i + 1, repeat:"));
}

#[test]
fn renders_else_if_zh() {
    let module = parse("\ndef foo(x):\n    if x == 1:\n        return 1\n    elif x == 2:\n        return 2\n    else:\n        return 3\n");
    let out = ExplainRenderer::new(NaturalLang::Zh).render_module(&module);
    assert!(out.contains("否则如果 x = 2，则"));
    assert!(out.contains("否则："));
}

#[test]
fn renders_assign_stmt_zh() {
    let module = parse("\ndef foo():\n    x = 5\n");
    let renderer = ExplainRenderer::new(NaturalLang::Zh);
    if let Some(Item::Function(f)) = module.items.first() {
        let mut out = String::new();
        renderer.render_stmt(&f.body.0[0], 0, &mut out);
        assert!(out.contains("将 x 赋值为 5"));
    } else {
        panic!("Expected function");
    }
}

#[test]
fn renders_return_stmt_en() {
    let module = parse("\ndef foo():\n    return 42\n");
    let renderer = ExplainRenderer::new(NaturalLang::En);
    if let Some(Item::Function(f)) = module.items.first() {
        let mut out = String::new();
        renderer.render_stmt(&f.body.0[0], 0, &mut out);
        assert!(out.contains("Return 42"));
    } else {
        panic!("Expected function");
    }
}

#[test]
fn renders_return_none_stmt_en_without_trailing_space() {
    let renderer = ExplainRenderer::new(NaturalLang::En);
    let mut out = String::new();
    renderer.render_stmt(&Stmt::Return(None), 0, &mut out);
    assert_eq!(out, "Return\n");
}

#[test]
fn renders_return_none_stmt_zh_without_trailing_space() {
    let renderer = ExplainRenderer::new(NaturalLang::Zh);
    let mut out = String::new();
    renderer.render_stmt(&Stmt::Return(None), 0, &mut out);
    assert_eq!(out, "返回\n");
}

#[test]
fn renders_break_stmt_en() {
    let renderer = ExplainRenderer::new(NaturalLang::En);
    let mut out = String::new();
    renderer.render_stmt(&Stmt::Break, 0, &mut out);
    assert_eq!(out, "Break out of loop\n");
}

#[test]
fn renders_continue_stmt_en() {
    let renderer = ExplainRenderer::new(NaturalLang::En);
    let mut out = String::new();
    renderer.render_stmt(&Stmt::Continue, 0, &mut out);
    assert_eq!(out, "Continue to next iteration\n");
}

#[test]
fn renders_expr_stmt() {
    let renderer = ExplainRenderer::new(NaturalLang::En);
    let mut out = String::new();
    renderer.render_stmt(&Stmt::ExprStmt(Expr::Ident("tick".to_string())), 0, &mut out);
    assert_eq!(out, "tick\n");
}

#[test]
fn renders_vardecl_without_init_en() {
    let renderer = ExplainRenderer::new(NaturalLang::En);
    let mut out = String::new();
    let stmt = Stmt::VarDecl(VarDecl { name: "x".to_string(), type_hint: None, init: None });
    renderer.render_stmt(&stmt, 0, &mut out);
    assert_eq!(out, "Declare x\n");
}

#[test]
fn renders_raw_stmt_zh() {
    let renderer = ExplainRenderer::new(NaturalLang::Zh);
    let mut out = String::new();
    renderer.render_stmt(&Stmt::Raw("...".to_string()), 0, &mut out);
    assert!(out.contains("此处源代码未能结构化解析"));
}

#[test]
fn renders_vardecl_with_init_en() {
    let renderer = ExplainRenderer::new(NaturalLang::En);
    let mut out = String::new();
    let stmt = Stmt::VarDecl(VarDecl {
        name: "x".to_string(),
        type_hint: None,
        init: Some(Expr::Literal(Literal::Int(1))),
    });
    renderer.render_stmt(&stmt, 0, &mut out);
    assert!(out.contains("Declare x and set it to 1"));
}

#[test]
fn expr_to_text_uses_pseudocode_operators() {
    let module = parse("\ndef foo(nums):\n    mid = (left + right) // 2\n    size = len(nums) - 1\n");
    if let Some(Item::Function(f)) = module.items.first() {
        let first_assign = f.body.0.first().unwrap();
        if let Stmt::Assign { value, .. } = first_assign {
            assert_eq!(expr_to_text(value), "(left + right) DIV 2");
        } else {
            panic!("Expected Assign");
        }
        let second_assign = f.body.0.get(1).unwrap();
        if let Stmt::Assign { value, .. } = second_assign {
            assert_eq!(expr_to_text(value), "LENGTH(nums) - 1");
        } else {
            panic!("Expected Assign");
        }
    } else {
        panic!("Expected function");
    }
}

#[test]
fn expr_to_text_renders_comparisons() {
    let module = parse("\ndef foo(nums, target):\n    if nums[mid] == target:\n        return mid\n");
    if let Some(Item::Function(f)) = module.items.first() {
        let if_stmt = f.body.0.first().unwrap();
        if let Stmt::If { cond, .. } = if_stmt {
            assert_eq!(expr_to_text(cond), "nums[mid] = target");
        } else {
            panic!("Expected If");
        }
    } else {
        panic!("Expected function");
    }
}

#[test]
fn render_function_has_header_purpose_and_steps() {
    let module = parse("def add(a, b):\n    return a + b\n");
    let Some(Item::Function(f)) = module.items.first() else {
        panic!("Expected function");
    };
    let en = ExplainRenderer::new(NaturalLang::En).render_function(f);
    assert!(en.starts_with("Function add(a, b)\n\nPurpose: "), "{en}");
    assert!(en.ends_with("\n\nSteps:\n  1. Return a + b\n"), "{en}");
    let zh = ExplainRenderer::new(NaturalLang::Zh).render_function(f);
    assert!(zh.starts_with("函数 add(a, b)\n\n目的："), "{zh}");
    assert!(zh.ends_with("\n\n步骤：\n  1. 返回 a + b\n"), "{zh}");
}
