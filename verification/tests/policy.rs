use mtdi::script::policy::{verify_constructs, Construct, Operator};

/// The violations in a probe that parses.
fn verify(code: &str) -> Vec<String> {
    mtdi::script::policy::verify(code).expect("test probe must parse")
}

#[test]
fn accepts_clean_probe() {
    let errs = verify(
        r#"
            pub fn on_open(ctx: &mut MtdiSafeContext) {
                if let Some(path) = ctx.read_arg_str(0, 256) {
                    println!("open: {}", path);
                }
            }
            pub fn register(reg: &mut MtdiRegistry) {
                reg.hook_symbol("open", on_open);
            }
            "#,
    );
    assert!(errs.is_empty(), "clean probe rejected: {errs:?}");
}

#[test]
fn rejects_unwrap_and_expect() {
    let errs = verify(
        r#"
            pub fn on_open(ctx: &mut MtdiSafeContext) {
                let x = ctx.read_arg_str(0, 8).unwrap();
                let y = Some(1u64).expect("boom");
                let _ = (x, y);
            }
            "#,
    );
    assert_eq!(errs.len(), 2, "expected unwrap+expect violations: {errs:?}");
    assert!(errs.iter().all(|e| e.contains("forbidden")));
}

#[test]
fn rejects_raw_indexing() {
    let errs = verify(
        r#"
            pub fn on_open(ctx: &mut MtdiSafeContext) {
                let v = [1u64, 2, 3];
                let _ = v[1];
            }
            "#,
    );
    assert_eq!(errs.len(), 1, "expected indexing violation: {errs:?}");
    assert!(errs[0].contains("get_safe"));
}

#[test]
fn rejects_panicking_macros() {
    let errs = verify(
        r#"
            pub fn on_open(ctx: &mut MtdiSafeContext) {
                assert!(ctx.arg(0) != 0);
                unreachable!();
            }
            "#,
    );
    assert_eq!(errs.len(), 2, "expected assert!+unreachable! violations: {errs:?}");
}

#[test]
fn rejects_raw_division_and_modulo() {
    let errs = verify(
        r#"
            pub fn on_open(ctx: &mut MtdiSafeContext) {
                let a = ctx.arg(0);
                let _ = a / 2;
                let _ = a % 2;
            }
            "#,
    );
    assert_eq!(errs.len(), 2, "expected div+rem violations: {errs:?}");
    assert!(
        errs.iter()
            .all(|e| e.contains("checked_div") || e.contains("checked_rem"))
    );
}

#[test]
fn rejects_process_killing_calls() {
    let errs = verify(
        r#"
            pub fn on_open(ctx: &mut MtdiSafeContext) {
                std::process::abort();
            }
            "#,
    );
    assert_eq!(errs.len(), 1, "expected abort() violation: {errs:?}");
}

#[test]
fn rejects_assigning_division_and_modulo() {
    let errs = verify("fn f(mut a: u64) { a /= 2; a %= 3; a += 1; a = a - 1; }");
    assert_eq!(errs.len(), 2);
    for e in errs {
        assert_eq!(
            e,
            "AST Verifier: Raw division '/' and modulo '%' are forbidden because dividing by zero panics. Use SafeU64's checked_div()/checked_rem() instead."
        );
    }
}

#[test]
fn rejects_every_banned_macro() {
    for name in ["panic", "assert", "assert_eq", "assert_ne", "todo", "unimplemented", "unreachable"] {
        let errs = verify(&format!("fn f() {{ {}!(); }}", name));
        assert_eq!(
            errs,
            vec![format!(
                "AST Verifier: Macro '{}!' is forbidden because it triggers an unconditional panic.",
                name
            )]
        );
    }
    assert!(verify("fn f() { println!(\"{}\", 1); debug_assert!(true); }").is_empty());
    assert_eq!(verify("fn f() { std::panic!(); }").len(), 1);
}

#[test]
fn rejects_every_banned_function() {
    for name in ["unwrap", "expect", "panic_any", "abort", "exit", "unreachable_unchecked"] {
        let errs = verify(&format!("fn f() {{ a::b::{}(1); }}", name));
        assert_eq!(
            errs,
            vec![format!(
                "AST Verifier: Function call to '{}' is forbidden because it can panic or kill the process.",
                name
            )]
        );
    }
    assert!(verify("fn f() { exit_code(1); (|x: u64| x)(2); }").is_empty());
}

#[test]
fn banned_methods_are_told_by_name() {
    assert_eq!(
        verify("fn f() { a.unwrap(); }"),
        vec!["AST Verifier: Method '.unwrap()' is forbidden because it can panic. Use '.unwrap_or()' instead.".to_string()]
    );
    assert!(verify("fn f() { a.unwrap_or(1); a.abort(); a.exit(); }").is_empty());
}

#[test]
fn violations_come_outermost_first() {
    let errs = verify("fn f() { v[a.unwrap() / 2]; }");
    assert_eq!(errs.len(), 3);
    assert!(errs[0].contains("Raw array indexing"));
    assert!(errs[1].contains("Raw division"));
    assert!(errs[2].contains("'.unwrap()'"));
}

#[test]
fn violations_of_parts_add_up() {
    let first = "fn f() { a.unwrap(); }";
    let second = "fn g() { panic!(); }";
    let both = format!("{}\n{}", first, second);
    let mut expected = verify(first);
    expected.extend(verify(second));
    assert_eq!(verify(&both), expected);
}

#[test]
fn sources_that_do_not_parse_are_reported() {
    let e = mtdi::script::policy::verify("fn f( {").unwrap_err();
    assert!(!e.is_empty());
    assert_ne!(e, "fn f( {");
}

#[test]
fn constructs_are_judged_one_by_one() {
    let errs = verify_constructs(&vec![
        Construct::MethodCall("map".to_string()),
        Construct::Binary(Operator::Other),
        Construct::MacroCall(Vec::new()),
        Construct::MacroCall(vec!["panic".to_string(), "note".to_string()]),
        Construct::MacroCall(vec!["std".to_string(), "panic".to_string()]),
        Construct::FunctionCall(None),
        Construct::Binary(Operator::RemAssign),
        Construct::Index,
    ]);
    assert_eq!(errs.len(), 3);
    assert!(errs[0].contains("'panic!'"));
    assert!(errs[1].contains("checked_rem"));
    assert_eq!(
        errs[2],
        "AST Verifier: Raw array indexing '[]' is forbidden. Use '.get_safe()' to guarantee Zero-Panic bounds clamping."
    );
}
