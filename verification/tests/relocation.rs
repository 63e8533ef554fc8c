use mtdi::hook::trampoline::builder::{build_trampoline, literal_addresses};
use mtdi::hook::trampoline::disasm::is_pc_relative;
use mtdi::hook::trampoline::relocator::{
    literal_address, push_absolute_jump, relocate_instruction, target_address,
};

const PC: usize = 0x1_0000_4560;

fn moved(instruction: u32) -> Vec<u8> {
    let mut out = vec![0xEE];
    relocate_instruction(instruction, PC, 0x1122_3344_5566_7788, &mut out);
    assert_eq!(out.remove(0), 0xEE);
    out
}

fn words(parts: &[u32], tail: &[u64]) -> Vec<u8> {
    let mut out = Vec::new();
    for w in parts {
        out.extend_from_slice(&w.to_le_bytes());
    }
    for d in tail {
        out.extend_from_slice(&d.to_le_bytes());
    }
    out
}

#[test]
fn six_families_are_pc_relative() {
    for w in [
        0x14000001u32, // b
        0x17FFFFFF,    // b backwards
        0x94000001,    // bl
        0x54000040,    // b.eq
        0x34000040,    // cbz w0
        0xB4000040,    // cbz x0
        0x35000040,    // cbnz w0
        0xB5000040,    // cbnz x0
        0x36000040,    // tbz
        0xB6000040,    // tbz, high bit
        0x37000040,    // tbnz
        0x10000000,    // adr
        0x90000000,    // adrp
        0x18000040,    // ldr w0
        0x58000040,    // ldr x0
        0x1C000040,    // ldr s0
    ] {
        assert!(is_pc_relative(w), "{:#x}", w);
    }
    for w in [
        0xD503237Fu32, // pacibsp
        0xD10083FF,    // sub sp, sp, #32
        0xA9017BFD,    // stp x29, x30, [sp, #16]
        0xD65F03C0,    // ret
        0xD61F0200,    // br x16
        0xF9400000,    // ldr x0, [x0]
        0x91000400,    // add x0, x0, #1
        0xD2800000,    // movz x0
        0xD503201F,    // nop
    ] {
        assert!(!is_pc_relative(w), "{:#x}", w);
    }
}

#[test]
fn other_instructions_are_copied() {
    assert_eq!(moved(0xD503237F), words(&[0xD503237F], &[]));
    assert_eq!(moved(0xA9017BFD), words(&[0xA9017BFD], &[]));
}

#[test]
fn adr_loads_its_address() {
    // adr x3, #-4
    assert_eq!(moved(0x10FFFFE3), words(&[0x58000043, 0x14000003], &[PC as u64 - 4]));
    // adr x3, #5
    assert_eq!(moved(0x30000023), words(&[0x58000043, 0x14000003], &[PC as u64 + 5]));
}

#[test]
fn adrp_loads_its_page() {
    // adrp x0, #0x1000
    assert_eq!(moved(0xB0000000), words(&[0x58000040, 0x14000003], &[0x1_0000_5000]));
    // adrp x9, #-0x1000
    assert_eq!(moved(0xF0FFFFE9), words(&[0x58000049, 0x14000003], &[0x1_0000_3000]));
}

#[test]
fn branches_become_absolute() {
    // b #8
    assert_eq!(moved(0x14000002), words(&[0x58000050, 0xD61F0200], &[PC as u64 + 8]));
    // b #-4
    assert_eq!(moved(0x17FFFFFF), words(&[0x58000050, 0xD61F0200], &[PC as u64 - 4]));
}

#[test]
fn calls_keep_their_return_address() {
    // bl #16
    assert_eq!(
        moved(0x94000004),
        words(&[0x5800007E, 0x58000090, 0xD61F0200], &[PC as u64 + 4, PC as u64 + 16])
    );
}

#[test]
fn conditional_branches_are_inverted() {
    // b.eq #8 becomes b.ne over an absolute jump
    assert_eq!(
        moved(0x54000040),
        words(&[0x540000A1, 0x58000050, 0xD61F0200], &[PC as u64 + 8])
    );
    // b.lt #-8
    assert_eq!(
        moved(0x54FFFFCB),
        words(&[0x540000AA, 0x58000050, 0xD61F0200], &[PC as u64 - 8])
    );
}

#[test]
fn compare_and_test_branches_are_inverted() {
    // cbz x1, #8 becomes cbnz x1
    assert_eq!(
        moved(0xB4000041),
        words(&[0xB50000A1, 0x58000050, 0xD61F0200], &[PC as u64 + 8])
    );
    // cbnz w2, #-4 becomes cbz w2
    assert_eq!(
        moved(0x35FFFFE2),
        words(&[0x340000A2, 0x58000050, 0xD61F0200], &[PC as u64 - 4])
    );
    // tbz w3, #5, #8 becomes tbnz
    assert_eq!(
        moved(0x36280043),
        words(&[0x372800A3, 0x58000050, 0xD61F0200], &[PC as u64 + 8])
    );
    // tbnz x3, #63, #-4 becomes tbz
    assert_eq!(
        moved(0xB7FFFFE3),
        words(&[0xB6F800A3, 0x58000050, 0xD61F0200], &[PC as u64 - 4])
    );
}

#[test]
fn literal_loads_bring_their_literal() {
    // ldr x4, #0x10
    assert_eq!(
        moved(0x58000084),
        words(&[0x58000044, 0x14000003], &[0x1122_3344_5566_7788])
    );
    assert_eq!(literal_address(0x58000084, PC), Some(PC as u64 + 16));
    assert_eq!(literal_address(0x58FFFFE4, PC), Some(PC as u64 - 4));
    assert_eq!(literal_address(0x14000002, PC), None);
    assert_eq!(target_address(0x14000002, PC as u64), PC as u64 + 8);
}

#[test]
fn absolute_jumps_are_sixteen_bytes() {
    let mut out = Vec::new();
    push_absolute_jump(&mut out, 0x1_2345_6789);
    assert_eq!(out, words(&[0x58000050, 0xD61F0200], &[0x1_2345_6789]));
}

#[test]
fn trampolines_go_back_behind_the_stolen_bytes() {
    let stolen: [u8; 16] = words(&[0xD503237F, 0xD10083FF, 0x58000084, 0x14000002], &[])
        .try_into()
        .unwrap();
    assert_eq!(
        literal_addresses(PC, &stolen),
        vec![None, None, Some(PC as u64 + 8 + 16), None]
    );
    let code = build_trampoline(PC, &stolen, &[0, 0, 77, 0]);
    let mut expected = words(&[0xD503237F, 0xD10083FF, 0x58000044, 0x14000003], &[77]);
    expected.extend(words(&[0x58000050, 0xD61F0200], &[PC as u64 + 12 + 8]));
    expected.extend(words(&[0x58000050, 0xD61F0200], &[PC as u64 + 16]));
    assert_eq!(code, expected);
}

/// A processor that knows the instructions that moved code is made of.
struct Machine {
    pc: u64,
    x: [u64; 31],
    base: u64,
    code: Vec<u8>,
}

impl Machine {
    fn word(&self, at: u64) -> u32 {
        let i = (at - self.base) as usize;
        u32::from_le_bytes(self.code[i..i + 4].try_into().unwrap())
    }

    fn step(&mut self) {
        let w = self.word(self.pc);
        if w >> 24 == 0x58 {
            let at = self.pc + ((w as u64 >> 5) & 0x7FFFF) * 4;
            let lo = self.word(at) as u64;
            let hi = self.word(at + 4) as u64;
            self.x[(w & 31) as usize] = lo | (hi << 32);
            self.pc += 4;
        } else if w & 0xFFFF_FC1F == 0xD61F_0000 {
            self.pc = self.x[((w >> 5) & 31) as usize];
        } else if w == 0x1400_0003 {
            self.pc += 12;
        } else if w >> 24 == 0xB5 {
            let taken = self.x[(w & 31) as usize] != 0;
            self.pc += if taken { ((w as u64 >> 5) & 0x7FFFF) * 4 } else { 4 };
        } else {
            panic!("unknown instruction {:#x}", w);
        }
    }

    fn run(&mut self) {
        while self.pc >= self.base && self.pc < self.base + self.code.len() as u64 {
            self.step();
        }
    }
}

#[test]
fn moved_code_does_what_it_did() {
    let base = 0x9_0000_0000u64;
    for (instruction, x1, at, x5) in [
        (0xB4000041u32, 0u64, PC as u64 + 8, 0u64), // cbz x1, #8, taken
        (0xB4000041, 1, base + 20, 0),              // cbz x1, #8, not taken
        (0x14000002, 0, PC as u64 + 8, 0),          // b #8
        (0x30000025, 0, base + 16, PC as u64 + 5),  // adr x5, #5
    ] {
        let mut m = Machine { pc: base, x: [0; 31], base, code: moved(instruction) };
        m.x[1] = x1;
        m.run();
        assert_eq!(m.pc, at, "{:#x}", instruction);
        assert_eq!(m.x[5], x5);
        for r in 0..31 {
            if r != 1 && r != 5 && r != 16 {
                assert_eq!(m.x[r], 0);
            }
        }
    }
}

#[test]
fn calls_return_to_the_original_function() {
    let base = 0x9_0000_0000u64;
    let mut m = Machine { pc: base, x: [0; 31], base, code: moved(0x94000004) };
    m.run();
    assert_eq!(m.pc, PC as u64 + 16);
    assert_eq!(m.x[30], PC as u64 + 4);
}

#[test]
fn whole_trampolines_come_back() {
    let base = 0x9_0000_0000u64;
    // adr x2, #4; ldr x3, #8; cbz x4, #64; adrp x5, #0
    let stolen: [u8; 16] = words(&[0x10000022, 0x58000043, 0xB4000204, 0x90000005], &[])
        .try_into()
        .unwrap();
    let code = build_trampoline(PC, &stolen, &[0, 99, 0, 0]);
    let mut m = Machine { pc: base, x: [7; 31], base, code: code.clone() };
    m.run();
    assert_eq!(m.pc, PC as u64 + 16);
    assert_eq!((m.x[2], m.x[3], m.x[4], m.x[5]), (PC as u64 + 4, 99, 7, 0x1_0000_4000));
    // the branch leaves for its own target
    let mut m = Machine { pc: base, x: [0; 31], base, code };
    m.run();
    assert_eq!(m.pc, PC as u64 + 8 + 64);
    assert_eq!((m.x[2], m.x[3], m.x[5]), (PC as u64 + 4, 99, 0));
}
