use mtdi::hook::trampoline::disasm::is_pc_relative;
use mtdi::script::compiler::{
    compilation_result, compile_script, compile_verified, content_hash, plan_compilation,
    rejection_message, rustc_finished,
};
use mtdi::script::harness::generate_harness;
use std::collections::hash_map::DefaultHasher;
use std::hash::{Hash, Hasher};

const PROBE: &str = "pub fn register(_reg: &mut MtdiRegistry) {}";

#[test]
fn harnesses_hold_the_probe() {
    let safe = generate_harness(PROBE, false);
    let legacy = generate_harness(PROBE, true);
    assert!(safe.starts_with("// Auto-generated by mtdis\nuse std::arch::global_asm;\n"));
    assert!(safe.contains(&format!("    // INJECT USER CODE:\n    {}\n}}\n", PROBE)));
    assert!(safe.ends_with("            eprintln!(\"[mtdis] Failed to hook {}: {}\", symbol_name, e);\n        }\n    }\n}\n"));
    assert!(safe.contains("        let mut safe_ctx = MtdiSafeContext { raw: ctx };\n\n        \n        handler(&mut safe_ctx);\n        \n\n        depth.set(0);\n"));
    assert!(!safe.contains("catch_unwind"));
    assert!(legacy.contains("let _ = std::panic::catch_unwind(std::panic::AssertUnwindSafe(|| {\n            handler(&mut safe_ctx);\n        }));\n"));
    assert!(!safe.contains("{{"));
}

#[test]
fn harnesses_move_both_branches_on_a_test() {
    let source = generate_harness(PROBE, false);
    for (class, words) in [
        ("0b011010", [0x3400_0000u32, 0x3500_0000, 0xB400_0000, 0xB500_0000]),
        ("0b011011", [0x3600_0000, 0x3700_0000, 0xB600_0000, 0xB700_0000]),
    ] {
        assert!(source.contains(&format!("if ((insn >> 25) & 0b111111) == {} {{", class)));
        assert!(source.contains(&format!("if ((instruction >> 25) & 0b111111) == {} {{", class)));
        let bits = u32::from_str_radix(&class[2..], 2).unwrap();
        assert!(words.iter().all(|w| (w >> 25) & 0b111111 == bits && is_pc_relative(*w)));
    }
    assert!(!source.contains("0b01111111"));
}

#[test]
fn harnesses_differ_where_probes_do() {
    assert_ne!(generate_harness("fn a() {}", false), generate_harness("fn b() {}", false));
    assert_eq!(generate_harness(PROBE, true), generate_harness(PROBE, true));
}

#[test]
fn harnesses_are_rust() {
    assert!(syn::parse_file(&generate_harness(PROBE, false)).is_ok());
    assert!(syn::parse_file(&generate_harness(PROBE, true)).is_ok());
}

#[test]
fn probes_are_planned_under_their_hash() {
    let plan = plan_compilation(PROBE, false, 0xABCDEF);
    assert_eq!(plan.wrapper_path, "/tmp/mtdis_wrap_abcdef.rs");
    assert_eq!(plan.dylib_path, "/tmp/mtdis_lib_abcdef.dylib");
    assert_eq!(plan.source, generate_harness(PROBE, false));
    assert_eq!(
        plan.rustc_args,
        vec![
            "--edition=2021",
            "--crate-type",
            "cdylib",
            "-O",
            "-C",
            "overflow-checks=off",
            "-C",
            "panic=abort",
            "/tmp/mtdis_wrap_abcdef.rs",
            "-o",
            "/tmp/mtdis_lib_abcdef.dylib",
        ]
    );
    let plan = plan_compilation(PROBE, true, 0);
    assert_eq!(
        plan.rustc_args,
        vec![
            "--edition=2021",
            "--crate-type",
            "cdylib",
            "-O",
            "/tmp/mtdis_wrap_0.rs",
            "-o",
            "/tmp/mtdis_lib_0.dylib",
        ]
    );
    assert_ne!(plan_compilation(PROBE, true, 1).dylib_path, plan.dylib_path);
}

#[test]
fn clean_probes_are_compiled() {
    let plan = compile_script(PROBE, false).unwrap();
    assert_eq!(plan.source, generate_harness(PROBE, false));
    // the same text gives the same files
    let again = compile_script(PROBE, false).unwrap();
    assert_eq!(plan.dylib_path, again.dylib_path);
    assert!(plan.dylib_path.starts_with("/tmp/mtdis_lib_"));
    let other = compile_script("pub fn register(_r: &mut MtdiRegistry) {}", false).unwrap();
    assert_ne!(plan.dylib_path, other.dylib_path);
}

#[test]
fn rejected_probes_are_reported() {
    let e = compile_script("fn f() { a.unwrap(); v[0]; }", false).unwrap_err();
    assert_eq!(
        e,
        "[mtdis] Probe Verification Failed:\n- AST Verifier: Method '.unwrap()' is forbidden because it can panic. Use '.unwrap_or()' instead.\n- AST Verifier: Raw array indexing '[]' is forbidden. Use '.get_safe()' to guarantee Zero-Panic bounds clamping.\n"
    );
    assert_eq!(rejection_message(&vec![]), "[mtdis] Probe Verification Failed:\n");
}

#[test]
fn broken_probes_are_reported() {
    let e = compile_script("fn f( {", false).unwrap_err();
    assert!(e.starts_with("[mtdis] AST Parse Error: "));
    assert!(e.len() > "[mtdis] AST Parse Error: ".len());
}

#[test]
fn probes_that_may_panic_are_not_verified() {
    let plan = compile_script("fn f() { panic!(); }", true).unwrap();
    assert!(plan.source.contains("catch_unwind"));
    assert!(compile_script("fn f( {", true).is_ok());
}

#[test]
fn the_compiler_is_heard() {
    let plan = plan_compilation(PROBE, false, 1);
    assert_eq!(rustc_finished(&plan, true, b"warning"), Ok("/tmp/mtdis_lib_1.dylib".to_string()));
    assert_eq!(
        rustc_finished(&plan, false, &[b'e', 0xFE]),
        Err("[mtdis] Compilation failed:\ne\u{FFFD}".to_string())
    );
    assert_eq!(
        compilation_result(&plan, false, "error: x"),
        Err("[mtdis] Compilation failed:\nerror: x".to_string())
    );
}

#[test]
fn probes_are_hashed_as_strings() {
    for code in ["", "a", PROBE, "h\u{e9}\u{1F600}"] {
        let mut hasher = DefaultHasher::new();
        code.to_string().hash(&mut hasher);
        assert_eq!(content_hash(code), hasher.finish());
    }
    let plan = compile_script(PROBE, true).unwrap();
    assert_eq!(plan.wrapper_path, format!("/tmp/mtdis_wrap_{:x}.rs", content_hash(PROBE)));
}

#[test]
fn verdicts_decide_what_is_compiled() {
    assert!(compile_verified(PROBE, &Ok(vec![])).is_ok());
    assert_eq!(
        compile_verified(PROBE, &Ok(vec!["one".to_string(), "two".to_string()])).unwrap_err(),
        "[mtdis] Probe Verification Failed:\n- one\n- two\n"
    );
    assert_eq!(
        compile_verified(PROBE, &Err("expected `(`".to_string())).unwrap_err(),
        "[mtdis] AST Parse Error: expected `(`"
    );
}
