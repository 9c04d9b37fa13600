use lambdify_for_each::assist::{
    ASSIST_ID, ASSIST_KIND, ASSIST_LABEL, AssistContext, AssistKind, convert_if_to_filter,
};
use lambdify_for_each::matcher::{continue_iff, find_node_at_offset, validate_method_call_expr};
use lambdify_for_each::tree::{NodeKind, Tree};

fn run(before: &str) -> Option<String> {
    let at = before.find("$0").expect("cursor marker");
    let offset = before[..at].chars().count();
    let text = before.replacen("$0", "", 1);
    let ctx = AssistContext::new(&text, offset);
    let edit = convert_if_to_filter(&ctx)?;
    let chars: Vec<char> = text.chars().collect();
    let mut out: String = chars[..edit.start].iter().collect();
    out.push_str(&edit.text);
    out.extend(chars[edit.end..].iter());
    Some(out)
}

fn check_assist(before: &str, after: &str) {
    assert_eq!(run(before).expect("assist applies"), after);
}

fn check_assist_not_applicable(before: &str) {
    assert_eq!(run(before), None);
}

#[test]
fn if_to_filter() {
    check_assist(
        r#"
fn main() {
    let it = core::iter::repeat((92,42));
    it.for_each$0(|(mut i,mut j)| {
        if (i*j)%3 == 2 {
            i *= 2;
        };
    });
}"#,
        r#"
fn main() {
    let it = core::iter::repeat((92,42));
    it.filter(|&(i,j)| (i*j)%3 == 2).for_each(|(mut i,mut j)| {
        i *= 2;
    });
}"#,
    )
}

#[test]
fn one_line_example() {
    check_assist(
        "it.for_each$0(|(mut i,mut j)| { if (i*j)%3 == 2 { i *= 2; }; })",
        "it.filter(|&(i,j)| (i*j)%3 == 2).for_each(|(mut i,mut j)| { i *= 2; })",
    )
}

#[test]
fn doc_example_with_macro_body() {
    check_assist(
        r#"
use core::iter;
fn main() {
    let it = core::iter::repeat(92);
    it.for_each$0(|x| {
        if x > 4 {
            println!("{}", x);
        };
    });
}"#,
        r#"
use core::iter;
fn main() {
    let it = core::iter::repeat(92);
    it.filter(|&x| x > 4).for_each(|x| {
        println!("{}", x);
    });
}"#,
    )
}

#[test]
fn body_that_is_an_if() {
    check_assist(
        "fn f() {\n    v.iter().for_each(|x| if $0*x > 1 { g(x); });\n}",
        "fn f() {\n    v.iter().filter(|&x| *x > 1).for_each(|x| { g(x); });\n}",
    )
}

#[test]
fn nested_mut_bindings_all_stripped() {
    check_assist(
        "fn f() {\n    xs.for_each$0(|S { mut a, b: (mut c, [mut d, _]) }| {\n        if a > c {\n            a += d;\n        };\n    });\n}",
        "fn f() {\n    xs.filter(|&S { a, b: (c, [d, _]) }| a > c).for_each(|S { mut a, b: (mut c, [mut d, _]) }| {\n        a += d;\n    });\n}",
    )
}

#[test]
fn reference_mut_is_kept() {
    check_assist(
        "fn f() {\n    xs.for_each$0(|&mut ref mut y| {\n        if ok(y) {\n            g(y);\n        };\n    });\n}",
        "fn f() {\n    xs.filter(|&&mut ref y| ok(y)).for_each(|&mut ref mut y| {\n        g(y);\n    });\n}",
    )
}

#[test]
fn deeper_body_is_dedented_one_level() {
    check_assist(
        "fn f() {\n    if t {\n        xs.for_each$0(|x| {\n            if x > 0 {\n                a(x);\n                if b {\n                    c();\n                }\n            };\n        });\n    }\n}",
        "fn f() {\n    if t {\n        xs.filter(|&x| x > 0).for_each(|x| {\n            a(x);\n            if b {\n                c();\n            }\n        });\n    }\n}",
    )
}

#[test]
fn else_branch_not_applicable() {
    check_assist_not_applicable(
        "fn f() {\n    xs.for_each$0(|x| {\n        if x > 0 {\n            a(x);\n        } else {\n            b(x);\n        };\n    });\n}",
    )
}

#[test]
fn else_branch_in_if_body_not_applicable() {
    check_assist_not_applicable("fn f() { xs.for_each$0(|x| if x { a(); } else { b(); }); }")
}

#[test]
fn two_statements_not_applicable() {
    check_assist_not_applicable(
        "fn f() {\n    xs.for_each$0(|x| {\n        if x > 0 {\n            a(x);\n        };\n        b(x);\n    });\n}",
    )
}

#[test]
fn tail_if_is_no_statement() {
    check_assist_not_applicable("fn f() { xs.for_each$0(|x| { if x > 0 { a(x); } }); }")
}

#[test]
fn other_method_not_applicable() {
    check_assist_not_applicable("fn f() { xs.map$0(|x| { if x > 0 { a(x); }; }); }")
}

#[test]
fn non_closure_argument_not_applicable() {
    check_assist_not_applicable("fn f() { xs.for_each$0(g); }")
}

#[test]
fn closure_without_params_not_applicable() {
    check_assist_not_applicable("fn f() { xs.for_each$0(|| { if c { a(); }; }); }")
}

#[test]
fn non_if_statement_not_applicable() {
    check_assist_not_applicable("fn f() { xs.for_each$0(|x| { a(x); }); }")
}

#[test]
fn cursor_outside_call_not_applicable() {
    check_assist_not_applicable("fn f() { let y = 1$0; xs.for_each(|x| { if x { a(); }; }); }")
}

#[test]
fn no_match_is_repeatable() {
    let before = "fn f() { xs.map$0(|x| { if x > 0 { a(x); }; }); }";
    assert_eq!(run(before), None);
    assert_eq!(run(before), None);
}

#[test]
fn match_is_repeatable() {
    let before = "fn f() { xs.for_each$0(|x| { if x > 0 { a(x); }; }); }";
    let first = run(before);
    assert!(first.is_some());
    assert_eq!(first, run(before));
}

#[test]
fn innermost_call_is_used() {
    check_assist(
        "fn f() { a.for_each(|y| { b.for_each$0(|x| { if x { c(); }; }); }); }",
        "fn f() { a.for_each(|y| { b.filter(|&x| x).for_each(|x| { c(); }); }); }",
    )
}

#[test]
fn output_reparses_as_a_call_chain() {
    let out = run("fn f() {\n    xs.for_each$0(|mut x| {\n        if x > 1 {\n            x += 1;\n        };\n    });\n}").unwrap();
    assert_eq!(out, "fn f() {\n    xs.filter(|&x| x > 1).for_each(|mut x| {\n        x += 1;\n    });\n}");
    let tree = Tree::parse(&out);
    let filter_at = out[..out.find("filter").unwrap()].chars().count();
    let for_each_at = out[..out.find("for_each").unwrap()].chars().count();
    let inner = find_node_at_offset(&tree, filter_at).expect("filter call");
    let outer = find_node_at_offset(&tree, for_each_at).expect("for_each call");
    assert!(inner != outer);
    match tree.nodes[outer].kind {
        NodeKind::MethodCall { receiver, .. } => assert_eq!(receiver, inner),
        _ => panic!("not a method call"),
    }
    assert_eq!(validate_method_call_expr(&tree, outer), Some((outer, inner)));
    assert_eq!(validate_method_call_expr(&tree, inner), None);
    let ctx = AssistContext::new(&out, for_each_at);
    assert!(convert_if_to_filter(&ctx).is_none());
}

#[test]
fn comment_kept_and_blank_line_gets_call_indent() {
    check_assist(
        "fn f() {\n    xs.for_each$0(|x| {\n        if x > 0 {\n            // keep\n\n            a(x);\n        };\n    });\n}",
        "fn f() {\n    xs.filter(|&x| x > 0).for_each(|x| {\n        // keep\n    \n        a(x);\n    });\n}",
    )
}

#[test]
fn continue_iff_follows_its_argument() {
    assert_eq!(continue_iff(true), Some(()));
    assert_eq!(continue_iff(false), None);
}

#[test]
fn registration_metadata() {
    assert_eq!(ASSIST_ID, "convert_if_to_filter");
    assert_eq!(ASSIST_LABEL, "Replace this `if { ... }` with a `filter()`");
    assert_eq!(ASSIST_KIND, AssistKind::RefactorRewrite);
}

#[test]
fn if_let_not_applicable() {
    check_assist_not_applicable(
        "fn f() {\n    xs.for_each$0(|x| {\n        if let Some(y) = x {\n            g(y);\n        };\n    });\n}",
    )
}

#[test]
fn let_chain_not_applicable() {
    check_assist_not_applicable("fn f() { xs.for_each$0(|x| { if ok(x) && let Some(y) = x { g(y); }; }); }")
}

#[test]
fn receiver_lies_inside_the_call() {
    let text = "fn f() { a.b().for_each(|x| { if x { c(); }; }); }";
    let tree = Tree::parse(text);
    let at = text[..text.find("for_each").unwrap()].chars().count();
    let call = find_node_at_offset(&tree, at).unwrap();
    let (e, recv) = validate_method_call_expr(&tree, call).unwrap();
    assert_eq!(e, call);
    assert!(tree.nodes[recv].lo >= tree.nodes[e].lo);
    assert!(tree.nodes[recv].hi < tree.nodes[e].hi);
    let start = tree.toks[tree.nodes[recv].lo].lo;
    let end = tree.toks[tree.nodes[recv].hi - 1].hi;
    let chars: Vec<char> = text.chars().collect();
    assert_eq!(chars[start..end].iter().collect::<String>(), "a.b()");
}
