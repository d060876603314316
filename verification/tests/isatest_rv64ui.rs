use rshehe::interface::CtrlSignals;
use rshehe::HeHeCore;

// Operation identifiers the small assembler below understands.
const ADD: u32 = 0;
const SUB: u32 = 1;
const XOR: u32 = 2;
const OR: u32 = 3;
const AND: u32 = 4;
const SLL: u32 = 5;
const SRL: u32 = 6;
const SRA: u32 = 7;
const SLT: u32 = 8;
const SLTU: u32 = 9;
const ADDW: u32 = 10;
const SUBW: u32 = 11;
const SLLW: u32 = 12;
const SRLW: u32 = 13;
const SRAW: u32 = 14;
const ADDI: u32 = 20;
const XORI: u32 = 21;
const ORI: u32 = 22;
const ANDI: u32 = 23;
const SLTI: u32 = 24;
const SLTIU: u32 = 25;
const SLLI: u32 = 26;
const SRLI: u32 = 27;
const SRAI: u32 = 28;
const ADDIW: u32 = 29;
const SLLIW: u32 = 30;
const SRLIW: u32 = 31;
const SRAIW: u32 = 32;
const BEQ: u32 = 40;
const BNE: u32 = 41;
const BLT: u32 = 42;
const BGE: u32 = 43;
const BLTU: u32 = 44;
const BGEU: u32 = 45;
const LB: u32 = 50;
const LH: u32 = 51;
const LW: u32 = 52;
const LD: u32 = 53;
const LBU: u32 = 54;
const LHU: u32 = 55;
const LWU: u32 = 56;
const SB: u32 = 60;
const SH: u32 = 61;
const SW: u32 = 62;
const SD: u32 = 63;

/// Where programs are loaded and start.
const BASE: u64 = 0x8000_0000;
/// Offset of the test data from `BASE`.
const TDAT: u64 = 0x2000;
/// The data the load tests read, at `BASE + TDAT`.
const TDAT_BYTES: [u8; 44] = [
    0xff, 0x00, 0xf0, 0x0f, 0x00, 0xff, 0x0f, 0xf0, 0xef, 0xbe, 0xad, 0xde, 0x78, 0x56, 0x34, 0x12,
    0x01, 0x80, 0x00, 0x7f, 0xff, 0xff, 0xff, 0xff, 0x00, 0x00, 0x00, 0x80, 0x11, 0x22, 0x33, 0x44,
    0x55, 0x66, 0x77, 0x88, 0x99, 0xaa, 0xbb, 0xcc, 0xdd, 0xee, 0xff, 0x00,
];

fn r_type(op: u32, f3: u32, f7: u32, rd: u32, rs1: u32, rs2: u32) -> u32 {
    (f7 << 25) | (rs2 << 20) | (rs1 << 15) | (f3 << 12) | (rd << 7) | op
}

fn i_type(op: u32, f3: u32, rd: u32, rs1: u32, imm: i64) -> u32 {
    (((imm as u32) & 0xfff) << 20) | (rs1 << 15) | (f3 << 12) | (rd << 7) | op
}

fn s_type(f3: u32, rs1: u32, rs2: u32, imm: i64) -> u32 {
    let imm = imm as u32;
    (((imm >> 5) & 0x7f) << 25) | (rs2 << 20) | (rs1 << 15) | (f3 << 12) | ((imm & 0x1f) << 7) | 0x23
}

fn b_type(f3: u32, rs1: u32, rs2: u32, off: i64) -> u32 {
    let imm = off as u32;
    (((imm >> 12) & 1) << 31)
        | (((imm >> 5) & 0x3f) << 25)
        | (rs2 << 20)
        | (rs1 << 15)
        | (f3 << 12)
        | (((imm >> 1) & 0xf) << 8)
        | (((imm >> 11) & 1) << 7)
        | 0x63
}

fn j_type(rd: u32, off: i64) -> u32 {
    let imm = off as u32;
    (((imm >> 20) & 1) << 31)
        | (((imm >> 1) & 0x3ff) << 21)
        | (((imm >> 11) & 1) << 20)
        | (((imm >> 12) & 0xff) << 12)
        | (rd << 7)
        | 0x6f
}

fn u_type(op: u32, rd: u32, imm20: u32) -> u32 {
    ((imm20 & 0xfffff) << 12) | (rd << 7) | op
}

/// The sign extension of the low 12 bits of `v`.
fn low12(v: i128) -> i128 {
    let l = v & 0xfff;
    if l >= 0x800 {
        l - 0x1000
    } else {
        l
    }
}

#[derive(Clone, Copy)]
enum Fix {
    Branch(u32, u32, u32),
    Jal(u32),
    AddiFromAuipc(usize, u32),
}

/// A tiny RV64I assembler for self-checking test programs: each case compares a
/// result with its expected value and branches to `fail` on a mismatch, with the
/// case number in `x3`; the end of the program writes 1 to the host-communication
/// word, `fail` writes `(x3 << 1) | 1`.
struct Asm {
    code: Vec<u32>,
    labels: Vec<Option<usize>>,
    fixups: Vec<(usize, usize, Fix)>,
    fail: usize,
}

impl Asm {
    fn new() -> Self {
        let mut a = Asm { code: Vec::new(), labels: Vec::new(), fixups: Vec::new(), fail: 0 };
        a.fail = a.label();
        a
    }

    fn label(&mut self) -> usize {
        self.labels.push(None);
        self.labels.len() - 1
    }

    fn bind(&mut self, l: usize) {
        self.labels[l] = Some(self.code.len());
    }

    fn pc(&self) -> u64 {
        BASE + 4 * self.code.len() as u64
    }

    fn emit(&mut self, w: u32) {
        self.code.push(w);
    }

    fn op_imm(&mut self, f3: u32, rd: u32, rs1: u32, imm: i64) {
        self.emit(i_type(0x13, f3, rd, rs1, imm));
    }

    fn addi(&mut self, rd: u32, rs1: u32, imm: i64) {
        self.op_imm(0, rd, rs1, imm);
    }

    fn slli(&mut self, rd: u32, rs1: u32, sh: i64) {
        self.op_imm(1, rd, rs1, sh);
    }

    fn lui(&mut self, rd: u32, imm20: u32) {
        self.emit(u_type(0x37, rd, imm20));
    }

    /// Loads the 64-bit constant `v` into `rd`.
    fn li(&mut self, rd: u32, v: u64) {
        self.li_signed(rd, v as i64 as i128);
    }

    fn li_signed(&mut self, rd: u32, v: i128) {
        if (-2048..2048).contains(&v) {
            self.addi(rd, 0, v as i64);
        } else if (i32::MIN as i128..=i32::MAX as i128).contains(&v) {
            let lo = low12(v);
            let hi = (((v - lo) >> 12) & 0xfffff) as u32;
            self.lui(rd, hi);
            self.emit(i_type(0x1b, 0, rd, rd, lo as i64));
        } else {
            let lo = low12(v);
            let hi = (v - lo) >> 12;
            self.li_signed(rd, hi);
            self.slli(rd, rd, 12);
            if lo != 0 {
                self.addi(rd, rd, lo as i64);
            }
        }
    }

    fn branch(&mut self, f3: u32, rs1: u32, rs2: u32, l: usize) {
        let at = self.code.len();
        self.fixups.push((at, l, Fix::Branch(f3, rs1, rs2)));
        self.emit(0);
    }

    fn jal(&mut self, rd: u32, l: usize) {
        let at = self.code.len();
        self.fixups.push((at, l, Fix::Jal(rd)));
        self.emit(0);
    }

    /// Puts the address of `l` in `rd`.
    fn la(&mut self, rd: u32, l: usize) {
        let at = self.code.len();
        self.emit(u_type(0x17, rd, 0));
        let at2 = self.code.len();
        self.fixups.push((at2, l, Fix::AddiFromAuipc(at, rd)));
        self.emit(0);
    }

    /// Fails the test unless `reg` holds `expected`.
    fn check(&mut self, n: u64, reg: u32, expected: u64) {
        self.li(7, expected);
        self.li(3, n);
        let fail = self.fail;
        self.branch(1, reg, 7, fail);
    }

    fn rr_case(&mut self, n: u64, op: u32, a: u64, b: u64, expected: u64) {
        self.li(1, a);
        self.li(2, b);
        let (code, f3, f7) = match op {
            ADD => (0x33, 0, 0),
            SUB => (0x33, 0, 0x20),
            SLL => (0x33, 1, 0),
            SLT => (0x33, 2, 0),
            SLTU => (0x33, 3, 0),
            XOR => (0x33, 4, 0),
            SRL => (0x33, 5, 0),
            SRA => (0x33, 5, 0x20),
            OR => (0x33, 6, 0),
            AND => (0x33, 7, 0),
            ADDW => (0x3b, 0, 0),
            SUBW => (0x3b, 0, 0x20),
            SLLW => (0x3b, 1, 0),
            SRLW => (0x3b, 5, 0),
            _ => (0x3b, 5, 0x20),
        };
        self.emit(r_type(code, f3, f7, 14, 1, 2));
        self.check(n, 14, expected);
    }

    fn imm_case(&mut self, n: u64, op: u32, a: u64, imm: u32, expected: u64) {
        self.li(1, a);
        let imm = imm as i64;
        let w = match op {
            ADDI => i_type(0x13, 0, 14, 1, imm),
            SLTI => i_type(0x13, 2, 14, 1, imm),
            SLTIU => i_type(0x13, 3, 14, 1, imm),
            XORI => i_type(0x13, 4, 14, 1, imm),
            ORI => i_type(0x13, 6, 14, 1, imm),
            ANDI => i_type(0x13, 7, 14, 1, imm),
            SLLI => i_type(0x13, 1, 14, 1, imm),
            SRLI => i_type(0x13, 5, 14, 1, imm),
            SRAI => i_type(0x13, 5, 14, 1, 0x400 | imm),
            ADDIW => i_type(0x1b, 0, 14, 1, imm),
            SLLIW => i_type(0x1b, 1, 14, 1, imm),
            SRLIW => i_type(0x1b, 5, 14, 1, imm),
            _ => i_type(0x1b, 5, 14, 1, 0x400 | imm),
        };
        self.emit(w);
        self.check(n, 14, expected);
    }

    fn lui_case(&mut self, n: u64, imm20: u32, expected: u64) {
        self.lui(14, imm20);
        self.check(n, 14, expected);
    }

    fn auipc_case(&mut self, n: u64, imm20: u32) {
        let pc = self.pc();
        self.emit(u_type(0x17, 14, imm20));
        let offset = ((imm20 << 12) as i32) as i64 as u64;
        self.check(n, 14, pc.wrapping_add(offset));
    }

    fn branch_case(&mut self, n: u64, op: u32, a: u64, b: u64, taken: bool) {
        self.li(1, a);
        self.li(2, b);
        self.li(3, n);
        let f3 = match op {
            BEQ => 0,
            BNE => 1,
            BLT => 4,
            BGE => 5,
            BLTU => 6,
            _ => 7,
        };
        let fail = self.fail;
        if taken {
            let ok = self.label();
            self.branch(f3, 1, 2, ok);
            self.jal(0, fail);
            self.bind(ok);
        } else {
            self.branch(f3, 1, 2, fail);
        }
    }

    fn jal_case(&mut self, n: u64) {
        self.li(3, n);
        let target = self.label();
        let link = self.pc() + 4;
        self.jal(1, target);
        let fail = self.fail;
        self.jal(0, fail);
        self.bind(target);
        self.check(n, 1, link);
    }

    fn jalr_case(&mut self, n: u64) {
        self.li(3, n);
        let target = self.label();
        self.la(1, target);
        let link = self.pc() + 4;
        self.emit(i_type(0x67, 0, 2, 1, 0));
        let fail = self.fail;
        self.jal(0, fail);
        self.bind(target);
        self.check(n, 2, link);
    }

    /// Puts `BASE + TDAT + off` in `rd`.
    fn data_address(&mut self, rd: u32, off: u64) {
        self.li(rd, BASE + TDAT + off);
    }

    fn load(&mut self, op: u32, rd: u32, rs1: u32, imm: i64) {
        let f3 = match op {
            LB => 0,
            LH => 1,
            LW => 2,
            LD => 3,
            LBU => 4,
            LHU => 5,
            _ => 6,
        };
        self.emit(i_type(0x03, f3, rd, rs1, imm));
    }

    /// Loads from `BASE + TDAT + base + imm`, with `BASE + TDAT + base` in the base
    /// register and `imm` as the instruction's offset.
    fn load_case(&mut self, n: u64, op: u32, base: u64, imm: i64, expected: u64) {
        self.data_address(1, base);
        self.load(op, 14, 1, imm);
        self.check(n, 14, expected);
    }

    /// Stores `value` at `BASE + TDAT + base + imm` (offset `imm` from the base
    /// register), then loads it back through another base and offset that name
    /// the same address.
    fn store_case(
        &mut self,
        n: u64,
        op: u32,
        load: u32,
        base: u64,
        imm: i64,
        load_base: u64,
        load_imm: i64,
        value: u64,
        expected: u64,
    ) {
        self.data_address(1, base);
        self.li(2, value);
        let f3 = match op {
            SB => 0,
            SH => 1,
            SW => 2,
            _ => 3,
        };
        self.emit(s_type(f3, 1, 2, imm));
        self.data_address(4, load_base);
        self.load(load, 14, 4, load_imm);
        self.check(n, 14, expected);
    }

    /// Ends the program and gives its image: lines of 32 hexadecimal digits, 16
    /// bytes each, the last byte of a line at the lowest address.
    fn finish(mut self) -> Vec<String> {
        // pass: write 1 to the host word and spin
        self.lui(5, 0x80001);
        self.addi(5, 5, -16);
        self.addi(6, 0, 1);
        self.emit(s_type(2, 5, 6, 16));
        self.emit(j_type(0, 0));
        // fail: write (x3 << 1) | 1 to the host word and spin
        let fail = self.fail;
        self.bind(fail);
        self.slli(3, 3, 1);
        self.op_imm(6, 3, 3, 1);
        self.lui(5, 0x80001);
        self.addi(5, 5, 32);
        self.emit(s_type(2, 5, 3, -32));
        self.emit(j_type(0, 0));
        for &(at, l, fix) in self.fixups.iter() {
            let target = self.labels[l].expect("unbound label") as i64;
            let off = (target - at as i64) * 4;
            self.code[at] = match fix {
                Fix::Branch(f3, rs1, rs2) => b_type(f3, rs1, rs2, off),
                Fix::Jal(rd) => j_type(rd, off),
                Fix::AddiFromAuipc(auipc_at, rd) => i_type(0x13, 0, rd, rd, (target - auipc_at as i64) * 4),
            };
        }
        assert!((self.code.len() as u64) * 4 <= 0x1000, "program overlaps the host word");
        let mut bytes = vec![0u8; (TDAT as usize) + TDAT_BYTES.len() + 0x100];
        for (k, w) in self.code.iter().enumerate() {
            bytes[4 * k..4 * k + 4].copy_from_slice(&w.to_le_bytes());
        }
        bytes[TDAT as usize..TDAT as usize + TDAT_BYTES.len()].copy_from_slice(&TDAT_BYTES);
        while bytes.len() % 16 != 0 {
            bytes.push(0);
        }
        bytes
            .chunks(16)
            .map(|c| c.iter().rev().map(|b| format!("{:02x}", b)).collect::<String>())
            .collect()
    }
}

/// Runs a program for at most 3000 cycles; it passes when the host word becomes 1.
fn run(lines: Vec<String>, name: &str) {
    let mut core = HeHeCore::new();
    assert_eq!(core.load_hex(&lines), Ok(()));
    for _i in 0..3000 {
        assert!(core.cycle_ok(), "{}: the core cannot take its next cycle", name);
        core.tik();
        if core.read_from_host() == 1 {
            println!("======test succ!======");
            return;
        } else if core.read_from_host() != 0 {
            panic!("test fail @ {:x}", core.read_from_host());
        }
    }
    panic!("rv64ui_{}: time limit reach", name);
}

#[test]
fn isatest_rv64ui_isatest_rv64ui_add() {
    let mut a = Asm::new();
    a.rr_case(2, ADD, 0x0, 0x0, 0x0);
    a.rr_case(3, ADD, 0x1, 0x1, 0x2);
    a.rr_case(4, ADD, 0x3, 0x7, 0xa);
    a.rr_case(5, ADD, 0x0, 0xffffffffffff8000, 0xffffffffffff8000);
    a.rr_case(6, ADD, 0xffffffff80000000, 0x0, 0xffffffff80000000);
    a.rr_case(7, ADD, 0xffffffff80000000, 0xffffffffffff8000, 0xffffffff7fff8000);
    a.rr_case(8, ADD, 0x7fffffff, 0x7fff, 0x80007ffe);
    a.rr_case(9, ADD, 0xffffffffffffffff, 0x1, 0x0);
    a.rr_case(10, ADD, 0x7fffffffffffffff, 0x1, 0x8000000000000000);
    a.rr_case(11, ADD, 0x8000000000000000, 0xffffffffffffffff, 0x7fffffffffffffff);

    run(a.finish(), "add");
}

#[test]
fn add_isa_test_isatest_rv64ui_add() {
    let mut a = Asm::new();
    a.rr_case(2, ADD, 0x0, 0x0, 0x0);
    a.rr_case(3, ADD, 0x1, 0x1, 0x2);
    a.rr_case(4, ADD, 0x3, 0x7, 0xa);
    a.rr_case(5, ADD, 0x0, 0xffffffffffff8000, 0xffffffffffff8000);
    a.rr_case(6, ADD, 0xffffffff80000000, 0x0, 0xffffffff80000000);
    a.rr_case(7, ADD, 0xffffffff80000000, 0xffffffffffff8000, 0xffffffff7fff8000);
    a.rr_case(8, ADD, 0x7fffffff, 0x7fff, 0x80007ffe);
    a.rr_case(9, ADD, 0xffffffffffffffff, 0x1, 0x0);
    a.rr_case(10, ADD, 0x7fffffffffffffff, 0x1, 0x8000000000000000);
    a.rr_case(11, ADD, 0x8000000000000000, 0xffffffffffffffff, 0x7fffffffffffffff);

    run(a.finish(), "add");
}

#[test]
fn add_isa_test() {
    let mut a = Asm::new();
    a.rr_case(2, ADD, 0x0, 0x0, 0x0);
    a.rr_case(3, ADD, 0x1, 0x1, 0x2);
    a.rr_case(4, ADD, 0x3, 0x7, 0xa);
    a.rr_case(5, ADD, 0x0, 0xffffffffffff8000, 0xffffffffffff8000);
    a.rr_case(6, ADD, 0xffffffff80000000, 0x0, 0xffffffff80000000);
    a.rr_case(7, ADD, 0xffffffff80000000, 0xffffffffffff8000, 0xffffffff7fff8000);
    a.rr_case(8, ADD, 0x7fffffff, 0x7fff, 0x80007ffe);
    a.rr_case(9, ADD, 0xffffffffffffffff, 0x1, 0x0);
    a.rr_case(10, ADD, 0x7fffffffffffffff, 0x1, 0x8000000000000000);
    a.rr_case(11, ADD, 0x8000000000000000, 0xffffffffffffffff, 0x7fffffffffffffff);

    run(a.finish(), "add");
}


#[test]
fn isatest_rv64ui_sub() {
    let mut a = Asm::new();
    a.rr_case(2, SUB, 0x0, 0x0, 0x0);
    a.rr_case(3, SUB, 0x1, 0x1, 0x0);
    a.rr_case(4, SUB, 0x3, 0x7, 0xfffffffffffffffc);
    a.rr_case(5, SUB, 0x0, 0xffffffffffff8000, 0x8000);
    a.rr_case(6, SUB, 0xffffffff80000000, 0x0, 0xffffffff80000000);
    a.rr_case(7, SUB, 0xffffffff80000000, 0xffffffffffff8000, 0xffffffff80008000);
    a.rr_case(8, SUB, 0x7fffffff, 0x7fff, 0x7fff8000);
    a.rr_case(9, SUB, 0xffffffffffffffff, 0x1, 0xfffffffffffffffe);
    a.rr_case(10, SUB, 0x7fffffffffffffff, 0x1, 0x7ffffffffffffffe);
    a.rr_case(11, SUB, 0x8000000000000000, 0xffffffffffffffff, 0x8000000000000001);

    run(a.finish(), "sub");
}

#[test]
fn isatest_rv64ui_addw() {
    let mut a = Asm::new();
    a.rr_case(2, ADDW, 0x0, 0x0, 0x0);
    a.rr_case(3, ADDW, 0x1, 0x1, 0x2);
    a.rr_case(4, ADDW, 0x3, 0x7, 0xa);
    a.rr_case(5, ADDW, 0x0, 0xffffffffffff8000, 0xffffffffffff8000);
    a.rr_case(6, ADDW, 0xffffffff80000000, 0x0, 0xffffffff80000000);
    a.rr_case(7, ADDW, 0xffffffff80000000, 0xffffffffffff8000, 0x7fff8000);
    a.rr_case(8, ADDW, 0x7fffffff, 0x7fff, 0xffffffff80007ffe);
    a.rr_case(9, ADDW, 0xffffffffffffffff, 0x1, 0x0);
    a.rr_case(10, ADDW, 0x7fffffffffffffff, 0x1, 0x0);
    a.rr_case(11, ADDW, 0x8000000000000000, 0xffffffffffffffff, 0xffffffffffffffff);

    run(a.finish(), "addw");
}

#[test]
fn isatest_rv64ui_subw() {
    let mut a = Asm::new();
    a.rr_case(2, SUBW, 0x0, 0x0, 0x0);
    a.rr_case(3, SUBW, 0x1, 0x1, 0x0);
    a.rr_case(4, SUBW, 0x3, 0x7, 0xfffffffffffffffc);
    a.rr_case(5, SUBW, 0x0, 0xffffffffffff8000, 0x8000);
    a.rr_case(6, SUBW, 0xffffffff80000000, 0x0, 0xffffffff80000000);
    a.rr_case(7, SUBW, 0xffffffff80000000, 0xffffffffffff8000, 0xffffffff80008000);
    a.rr_case(8, SUBW, 0x7fffffff, 0x7fff, 0x7fff8000);
    a.rr_case(9, SUBW, 0xffffffffffffffff, 0x1, 0xfffffffffffffffe);
    a.rr_case(10, SUBW, 0x7fffffffffffffff, 0x1, 0xfffffffffffffffe);
    a.rr_case(11, SUBW, 0x8000000000000000, 0xffffffffffffffff, 0x1);

    run(a.finish(), "subw");
}

#[test]
fn isatest_rv64ui_xor() {
    let mut a = Asm::new();
    a.rr_case(2, XOR, 0xffffffffff00ff00, 0xf0f0f0f, 0xfffffffff00ff00f);
    a.rr_case(3, XOR, 0xff00ff0, 0xfffffffff0f0f0f0, 0xffffffffff00ff00);
    a.rr_case(4, XOR, 0xff00ff, 0xf0f0f0f, 0xff00ff0);
    a.rr_case(5, XOR, 0xfffffffff00ff00f, 0xfffffffff0f0f0f0, 0xff00ff);
    a.rr_case(6, XOR, 0x0, 0x0, 0x0);
    a.rr_case(7, XOR, 0xffffffffffffffff, 0x123456789abcdef0, 0xedcba9876543210f);

    run(a.finish(), "xor");
}

#[test]
fn isatest_rv64ui_or() {
    let mut a = Asm::new();
    a.rr_case(2, OR, 0xffffffffff00ff00, 0xf0f0f0f, 0xffffffffff0fff0f);
    a.rr_case(3, OR, 0xff00ff0, 0xfffffffff0f0f0f0, 0xfffffffffff0fff0);
    a.rr_case(4, OR, 0xff00ff, 0xf0f0f0f, 0xfff0fff);
    a.rr_case(5, OR, 0xfffffffff00ff00f, 0xfffffffff0f0f0f0, 0xfffffffff0fff0ff);
    a.rr_case(6, OR, 0x0, 0x0, 0x0);
    a.rr_case(7, OR, 0xffffffffffffffff, 0x123456789abcdef0, 0xffffffffffffffff);

    run(a.finish(), "or");
}

#[test]
fn isatest_rv64ui_and() {
    let mut a = Asm::new();
    a.rr_case(2, AND, 0xffffffffff00ff00, 0xf0f0f0f, 0xf000f00);
    a.rr_case(3, AND, 0xff00ff0, 0xfffffffff0f0f0f0, 0xf000f0);
    a.rr_case(4, AND, 0xff00ff, 0xf0f0f0f, 0xf000f);
    a.rr_case(5, AND, 0xfffffffff00ff00f, 0xfffffffff0f0f0f0, 0xfffffffff000f000);
    a.rr_case(6, AND, 0x0, 0x0, 0x0);
    a.rr_case(7, AND, 0xffffffffffffffff, 0x123456789abcdef0, 0x123456789abcdef0);

    run(a.finish(), "and");
}

#[test]
fn isatest_rv64ui_slt() {
    let mut a = Asm::new();
    a.rr_case(2, SLT, 0x0, 0x0, 0x0);
    a.rr_case(3, SLT, 0x1, 0x1, 0x0);
    a.rr_case(4, SLT, 0x3, 0x7, 0x1);
    a.rr_case(5, SLT, 0x7, 0x3, 0x0);
    a.rr_case(6, SLT, 0x0, 0xffffffffffff8000, 0x0);
    a.rr_case(7, SLT, 0xffffffff80000000, 0x0, 0x1);
    a.rr_case(8, SLT, 0xffffffff80000000, 0xffffffffffff8000, 0x1);
    a.rr_case(9, SLT, 0xffffffffffffffff, 0x1, 0x1);
    a.rr_case(10, SLT, 0x1, 0xffffffffffffffff, 0x0);
    a.rr_case(11, SLT, 0x7fffffffffffffff, 0x8000000000000000, 0x0);
    a.rr_case(12, SLT, 0x8000000000000000, 0x7fffffffffffffff, 0x1);

    run(a.finish(), "slt");
}

#[test]
fn isatest_rv64ui_sltu() {
    let mut a = Asm::new();
    a.rr_case(2, SLTU, 0x0, 0x0, 0x0);
    a.rr_case(3, SLTU, 0x1, 0x1, 0x0);
    a.rr_case(4, SLTU, 0x3, 0x7, 0x1);
    a.rr_case(5, SLTU, 0x7, 0x3, 0x0);
    a.rr_case(6, SLTU, 0x0, 0xffffffffffff8000, 0x1);
    a.rr_case(7, SLTU, 0xffffffff80000000, 0x0, 0x0);
    a.rr_case(8, SLTU, 0xffffffff80000000, 0xffffffffffff8000, 0x1);
    a.rr_case(9, SLTU, 0xffffffffffffffff, 0x1, 0x0);
    a.rr_case(10, SLTU, 0x1, 0xffffffffffffffff, 0x1);
    a.rr_case(11, SLTU, 0x7fffffffffffffff, 0x8000000000000000, 0x1);
    a.rr_case(12, SLTU, 0x8000000000000000, 0x7fffffffffffffff, 0x0);

    run(a.finish(), "sltu");
}

#[test]
fn isatest_rv64ui_sll() {
    let mut a = Asm::new();
    a.rr_case(2, SLL, 0x1, 0x0, 0x1);
    a.rr_case(3, SLL, 0x1, 0x1, 0x2);
    a.rr_case(4, SLL, 0x1, 0x7, 0x80);
    a.rr_case(5, SLL, 0x1, 0x1f, 0x80000000);
    a.rr_case(6, SLL, 0x1, 0x3f, 0x8000000000000000);
    a.rr_case(7, SLL, 0xffffffffffffffff, 0x1, 0xfffffffffffffffe);
    a.rr_case(8, SLL, 0xffffffffffffffff, 0x1f, 0xffffffff80000000);
    a.rr_case(9, SLL, 0x21212121, 0xe, 0x84848484000);
    a.rr_case(10, SLL, 0x21212121, 0xffffffffffffffc0, 0x21212121);
    a.rr_case(11, SLL, 0x21212121, 0xffffffffffffffce, 0x84848484000);
    a.rr_case(12, SLL, 0xffffffff81818181, 0x1, 0xffffffff03030302);
    a.rr_case(13, SLL, 0xffffffff81818181, 0x21, 0x303030200000000);
    a.rr_case(14, SLL, 0xffffffff12345678, 0x4, 0xfffffff123456780);
    a.rr_case(15, SLL, 0x92345678, 0x4, 0x923456780);
    a.rr_case(16, SLL, 0x8000000000000000, 0x3f, 0x0);

    run(a.finish(), "sll");
}

#[test]
fn isatest_rv64ui_srl() {
    let mut a = Asm::new();
    a.rr_case(2, SRL, 0x1, 0x0, 0x1);
    a.rr_case(3, SRL, 0x1, 0x1, 0x0);
    a.rr_case(4, SRL, 0x1, 0x7, 0x0);
    a.rr_case(5, SRL, 0x1, 0x1f, 0x0);
    a.rr_case(6, SRL, 0x1, 0x3f, 0x0);
    a.rr_case(7, SRL, 0xffffffffffffffff, 0x1, 0x7fffffffffffffff);
    a.rr_case(8, SRL, 0xffffffffffffffff, 0x1f, 0x1ffffffff);
    a.rr_case(9, SRL, 0x21212121, 0xe, 0x8484);
    a.rr_case(10, SRL, 0x21212121, 0xffffffffffffffc0, 0x21212121);
    a.rr_case(11, SRL, 0x21212121, 0xffffffffffffffce, 0x8484);
    a.rr_case(12, SRL, 0xffffffff81818181, 0x1, 0x7fffffffc0c0c0c0);
    a.rr_case(13, SRL, 0xffffffff81818181, 0x21, 0x7fffffff);
    a.rr_case(14, SRL, 0xffffffff12345678, 0x4, 0xffffffff1234567);
    a.rr_case(15, SRL, 0x92345678, 0x4, 0x9234567);
    a.rr_case(16, SRL, 0x8000000000000000, 0x3f, 0x1);

    run(a.finish(), "srl");
}

#[test]
fn isatest_rv64ui_sra() {
    let mut a = Asm::new();
    a.rr_case(2, SRA, 0x1, 0x0, 0x1);
    a.rr_case(3, SRA, 0x1, 0x1, 0x0);
    a.rr_case(4, SRA, 0x1, 0x7, 0x0);
    a.rr_case(5, SRA, 0x1, 0x1f, 0x0);
    a.rr_case(6, SRA, 0x1, 0x3f, 0x0);
    a.rr_case(7, SRA, 0xffffffffffffffff, 0x1, 0xffffffffffffffff);
    a.rr_case(8, SRA, 0xffffffffffffffff, 0x1f, 0xffffffffffffffff);
    a.rr_case(9, SRA, 0x21212121, 0xe, 0x8484);
    a.rr_case(10, SRA, 0x21212121, 0xffffffffffffffc0, 0x21212121);
    a.rr_case(11, SRA, 0x21212121, 0xffffffffffffffce, 0x8484);
    a.rr_case(12, SRA, 0xffffffff81818181, 0x1, 0xffffffffc0c0c0c0);
    a.rr_case(13, SRA, 0xffffffff81818181, 0x21, 0xffffffffffffffff);
    a.rr_case(14, SRA, 0xffffffff12345678, 0x4, 0xfffffffff1234567);
    a.rr_case(15, SRA, 0x92345678, 0x4, 0x9234567);
    a.rr_case(16, SRA, 0x8000000000000000, 0x3f, 0xffffffffffffffff);

    run(a.finish(), "sra");
}

#[test]
fn isatest_rv64ui_sllw() {
    let mut a = Asm::new();
    a.rr_case(2, SLLW, 0x1, 0x0, 0x1);
    a.rr_case(3, SLLW, 0x1, 0x1, 0x2);
    a.rr_case(4, SLLW, 0x1, 0x7, 0x80);
    a.rr_case(5, SLLW, 0x1, 0x1f, 0xffffffff80000000);
    a.rr_case(6, SLLW, 0xffffffffffffffff, 0x1, 0xfffffffffffffffe);
    a.rr_case(7, SLLW, 0xffffffffffffffff, 0x1f, 0xffffffff80000000);
    a.rr_case(8, SLLW, 0x21212121, 0xe, 0x48484000);
    a.rr_case(9, SLLW, 0x21212121, 0xffffffffffffffe0, 0x21212121);
    a.rr_case(10, SLLW, 0x21212121, 0xffffffffffffffee, 0x48484000);
    a.rr_case(11, SLLW, 0xffffffff81818181, 0x1, 0x3030302);
    a.rr_case(12, SLLW, 0xffffffff12345678, 0x4, 0x23456780);
    a.rr_case(13, SLLW, 0x92345678, 0x4, 0x23456780);
    a.rr_case(14, SLLW, 0x92345678, 0x1f, 0x0);

    run(a.finish(), "sllw");
}

#[test]
fn isatest_rv64ui_srlw() {
    let mut a = Asm::new();
    a.rr_case(2, SRLW, 0x1, 0x0, 0x1);
    a.rr_case(3, SRLW, 0x1, 0x1, 0x0);
    a.rr_case(4, SRLW, 0x1, 0x7, 0x0);
    a.rr_case(5, SRLW, 0x1, 0x1f, 0x0);
    a.rr_case(6, SRLW, 0xffffffffffffffff, 0x1, 0x7fffffff);
    a.rr_case(7, SRLW, 0xffffffffffffffff, 0x1f, 0x1);
    a.rr_case(8, SRLW, 0x21212121, 0xe, 0x8484);
    a.rr_case(9, SRLW, 0x21212121, 0xffffffffffffffe0, 0x21212121);
    a.rr_case(10, SRLW, 0x21212121, 0xffffffffffffffee, 0x8484);
    a.rr_case(11, SRLW, 0xffffffff81818181, 0x1, 0x40c0c0c0);
    a.rr_case(12, SRLW, 0xffffffff12345678, 0x4, 0x1234567);
    a.rr_case(13, SRLW, 0x92345678, 0x4, 0x9234567);
    a.rr_case(14, SRLW, 0x92345678, 0x1f, 0x1);

    run(a.finish(), "srlw");
}

#[test]
fn isatest_rv64ui_sraw() {
    let mut a = Asm::new();
    a.rr_case(2, SRAW, 0x1, 0x0, 0x1);
    a.rr_case(3, SRAW, 0x1, 0x1, 0x0);
    a.rr_case(4, SRAW, 0x1, 0x7, 0x0);
    a.rr_case(5, SRAW, 0x1, 0x1f, 0x0);
    a.rr_case(6, SRAW, 0xffffffffffffffff, 0x1, 0xffffffffffffffff);
    a.rr_case(7, SRAW, 0xffffffffffffffff, 0x1f, 0xffffffffffffffff);
    a.rr_case(8, SRAW, 0x21212121, 0xe, 0x8484);
    a.rr_case(9, SRAW, 0x21212121, 0xffffffffffffffe0, 0x21212121);
    a.rr_case(10, SRAW, 0x21212121, 0xffffffffffffffee, 0x8484);
    a.rr_case(11, SRAW, 0xffffffff81818181, 0x1, 0xffffffffc0c0c0c0);
    a.rr_case(12, SRAW, 0xffffffff12345678, 0x4, 0x1234567);
    a.rr_case(13, SRAW, 0x92345678, 0x4, 0xfffffffff9234567);
    a.rr_case(14, SRAW, 0x92345678, 0x1f, 0xffffffffffffffff);

    run(a.finish(), "sraw");
}

#[test]
fn isatest_rv64ui_addi() {
    let mut a = Asm::new();
    a.imm_case(2, ADDI, 0x0, 0x0, 0x0);
    a.imm_case(3, ADDI, 0x1, 0x1, 0x2);
    a.imm_case(4, ADDI, 0x3, 0x7, 0xa);
    a.imm_case(5, ADDI, 0x0, 0x800, 0xfffffffffffff800);
    a.imm_case(6, ADDI, 0xffffffff80000000, 0x0, 0xffffffff80000000);
    a.imm_case(7, ADDI, 0xffffffff80000000, 0x800, 0xffffffff7ffff800);
    a.imm_case(8, ADDI, 0x7fffffff, 0x7ff, 0x800007fe);
    a.imm_case(9, ADDI, 0xffffffffffffffff, 0x1, 0x0);
    a.imm_case(10, ADDI, 0x7fffffffffffffff, 0x1, 0x8000000000000000);
    a.imm_case(11, ADDI, 0x0, 0xfff, 0xffffffffffffffff);

    run(a.finish(), "addi");
}

#[test]
fn isatest_rv64ui_addiw() {
    let mut a = Asm::new();
    a.imm_case(2, ADDIW, 0x0, 0x0, 0x0);
    a.imm_case(3, ADDIW, 0x1, 0x1, 0x2);
    a.imm_case(4, ADDIW, 0x3, 0x7, 0xa);
    a.imm_case(5, ADDIW, 0x0, 0x800, 0xfffffffffffff800);
    a.imm_case(6, ADDIW, 0xffffffff80000000, 0x0, 0xffffffff80000000);
    a.imm_case(7, ADDIW, 0xffffffff80000000, 0x800, 0x7ffff800);
    a.imm_case(8, ADDIW, 0x7fffffff, 0x7ff, 0xffffffff800007fe);
    a.imm_case(9, ADDIW, 0xffffffffffffffff, 0x1, 0x0);
    a.imm_case(10, ADDIW, 0x7fffffffffffffff, 0x1, 0x0);
    a.imm_case(11, ADDIW, 0x0, 0xfff, 0xffffffffffffffff);

    run(a.finish(), "addiw");
}

#[test]
fn isatest_rv64ui_xori() {
    let mut a = Asm::new();
    a.imm_case(2, XORI, 0xffffffffff00ff00, 0xf0f, 0xff000f);
    a.imm_case(3, XORI, 0xff00ff0, 0xf0, 0xff00f00);
    a.imm_case(4, XORI, 0xff00ff, 0x70f, 0xff07f0);
    a.imm_case(5, XORI, 0xfffffffff00ff00f, 0xf0, 0xfffffffff00ff0ff);
    a.imm_case(6, XORI, 0x0, 0x0, 0x0);
    a.imm_case(7, XORI, 0x123456789abcdef0, 0x800, 0xedcba987654326f0);

    run(a.finish(), "xori");
}

#[test]
fn isatest_rv64ui_ori() {
    let mut a = Asm::new();
    a.imm_case(2, ORI, 0xffffffffff00ff00, 0xf0f, 0xffffffffffffff0f);
    a.imm_case(3, ORI, 0xff00ff0, 0xf0, 0xff00ff0);
    a.imm_case(4, ORI, 0xff00ff, 0x70f, 0xff07ff);
    a.imm_case(5, ORI, 0xfffffffff00ff00f, 0xf0, 0xfffffffff00ff0ff);
    a.imm_case(6, ORI, 0x0, 0x0, 0x0);
    a.imm_case(7, ORI, 0x123456789abcdef0, 0x800, 0xfffffffffffffef0);

    run(a.finish(), "ori");
}

#[test]
fn isatest_rv64ui_andi() {
    let mut a = Asm::new();
    a.imm_case(2, ANDI, 0xffffffffff00ff00, 0xf0f, 0xffffffffff00ff00);
    a.imm_case(3, ANDI, 0xff00ff0, 0xf0, 0xf0);
    a.imm_case(4, ANDI, 0xff00ff, 0x70f, 0xf);
    a.imm_case(5, ANDI, 0xfffffffff00ff00f, 0xf0, 0x0);
    a.imm_case(6, ANDI, 0x0, 0x0, 0x0);
    a.imm_case(7, ANDI, 0x123456789abcdef0, 0x800, 0x123456789abcd800);

    run(a.finish(), "andi");
}

#[test]
fn isatest_rv64ui_slti() {
    let mut a = Asm::new();
    a.imm_case(2, SLTI, 0x0, 0x0, 0x0);
    a.imm_case(3, SLTI, 0x1, 0x1, 0x0);
    a.imm_case(4, SLTI, 0x3, 0x7, 0x1);
    a.imm_case(5, SLTI, 0x7, 0x3, 0x0);
    a.imm_case(6, SLTI, 0x0, 0x800, 0x0);
    a.imm_case(7, SLTI, 0xffffffff80000000, 0x0, 0x1);
    a.imm_case(8, SLTI, 0xffffffff80000000, 0x800, 0x1);
    a.imm_case(9, SLTI, 0xffffffffffffffff, 0xfff, 0x0);
    a.imm_case(10, SLTI, 0x1, 0xfff, 0x0);
    a.imm_case(11, SLTI, 0x7fffffffffffffff, 0x7ff, 0x0);

    run(a.finish(), "slti");
}

#[test]
fn isatest_rv64ui_sltiu() {
    let mut a = Asm::new();
    a.imm_case(2, SLTIU, 0x0, 0x0, 0x0);
    a.imm_case(3, SLTIU, 0x1, 0x1, 0x0);
    a.imm_case(4, SLTIU, 0x3, 0x7, 0x1);
    a.imm_case(5, SLTIU, 0x7, 0x3, 0x0);
    a.imm_case(6, SLTIU, 0x0, 0x800, 0x1);
    a.imm_case(7, SLTIU, 0xffffffff80000000, 0x0, 0x0);
    a.imm_case(8, SLTIU, 0xffffffff80000000, 0x800, 0x1);
    a.imm_case(9, SLTIU, 0xffffffffffffffff, 0xfff, 0x0);
    a.imm_case(10, SLTIU, 0x1, 0xfff, 0x1);
    a.imm_case(11, SLTIU, 0x7fffffffffffffff, 0x7ff, 0x0);

    run(a.finish(), "sltiu");
}

#[test]
fn isatest_rv64ui_slli() {
    let mut a = Asm::new();
    a.imm_case(2, SLLI, 0x1, 0x0, 0x1);
    a.imm_case(3, SLLI, 0x1, 0x1, 0x2);
    a.imm_case(4, SLLI, 0x1, 0x7, 0x80);
    a.imm_case(5, SLLI, 0x1, 0x1f, 0x80000000);
    a.imm_case(6, SLLI, 0x1, 0x3f, 0x8000000000000000);
    a.imm_case(7, SLLI, 0xffffffffffffffff, 0x1, 0xfffffffffffffffe);
    a.imm_case(8, SLLI, 0xffffffffffffffff, 0x1f, 0xffffffff80000000);
    a.imm_case(9, SLLI, 0x21212121, 0xe, 0x84848484000);
    a.imm_case(10, SLLI, 0xffffffff81818181, 0x1, 0xffffffff03030302);
    a.imm_case(11, SLLI, 0xffffffff81818181, 0x21, 0x303030200000000);
    a.imm_case(12, SLLI, 0xffffffff12345678, 0x4, 0xfffffff123456780);
    a.imm_case(13, SLLI, 0x92345678, 0x4, 0x923456780);
    a.imm_case(14, SLLI, 0x8000000000000000, 0x3f, 0x0);

    run(a.finish(), "slli");
}

#[test]
fn isatest_rv64ui_srli() {
    let mut a = Asm::new();
    a.imm_case(2, SRLI, 0x1, 0x0, 0x1);
    a.imm_case(3, SRLI, 0x1, 0x1, 0x0);
    a.imm_case(4, SRLI, 0x1, 0x7, 0x0);
    a.imm_case(5, SRLI, 0x1, 0x1f, 0x0);
    a.imm_case(6, SRLI, 0x1, 0x3f, 0x0);
    a.imm_case(7, SRLI, 0xffffffffffffffff, 0x1, 0x7fffffffffffffff);
    a.imm_case(8, SRLI, 0xffffffffffffffff, 0x1f, 0x1ffffffff);
    a.imm_case(9, SRLI, 0x21212121, 0xe, 0x8484);
    a.imm_case(10, SRLI, 0xffffffff81818181, 0x1, 0x7fffffffc0c0c0c0);
    a.imm_case(11, SRLI, 0xffffffff81818181, 0x21, 0x7fffffff);
    a.imm_case(12, SRLI, 0xffffffff12345678, 0x4, 0xffffffff1234567);
    a.imm_case(13, SRLI, 0x92345678, 0x4, 0x9234567);
    a.imm_case(14, SRLI, 0x8000000000000000, 0x3f, 0x1);

    run(a.finish(), "srli");
}

#[test]
fn isatest_rv64ui_srai() {
    let mut a = Asm::new();
    a.imm_case(2, SRAI, 0x1, 0x0, 0x1);
    a.imm_case(3, SRAI, 0x1, 0x1, 0x0);
    a.imm_case(4, SRAI, 0x1, 0x7, 0x0);
    a.imm_case(5, SRAI, 0x1, 0x1f, 0x0);
    a.imm_case(6, SRAI, 0x1, 0x3f, 0x0);
    a.imm_case(7, SRAI, 0xffffffffffffffff, 0x1, 0xffffffffffffffff);
    a.imm_case(8, SRAI, 0xffffffffffffffff, 0x1f, 0xffffffffffffffff);
    a.imm_case(9, SRAI, 0x21212121, 0xe, 0x8484);
    a.imm_case(10, SRAI, 0xffffffff81818181, 0x1, 0xffffffffc0c0c0c0);
    a.imm_case(11, SRAI, 0xffffffff81818181, 0x21, 0xffffffffffffffff);
    a.imm_case(12, SRAI, 0xffffffff12345678, 0x4, 0xfffffffff1234567);
    a.imm_case(13, SRAI, 0x92345678, 0x4, 0x9234567);
    a.imm_case(14, SRAI, 0x8000000000000000, 0x3f, 0xffffffffffffffff);

    run(a.finish(), "srai");
}

#[test]
fn isatest_rv64ui_slliw() {
    let mut a = Asm::new();
    a.imm_case(2, SLLIW, 0x1, 0x0, 0x1);
    a.imm_case(3, SLLIW, 0x1, 0x1, 0x2);
    a.imm_case(4, SLLIW, 0x1, 0x7, 0x80);
    a.imm_case(5, SLLIW, 0x1, 0x1f, 0xffffffff80000000);
    a.imm_case(6, SLLIW, 0xffffffffffffffff, 0x1, 0xfffffffffffffffe);
    a.imm_case(7, SLLIW, 0xffffffffffffffff, 0x1f, 0xffffffff80000000);
    a.imm_case(8, SLLIW, 0x21212121, 0xe, 0x48484000);
    a.imm_case(9, SLLIW, 0xffffffff81818181, 0x1, 0x3030302);
    a.imm_case(10, SLLIW, 0xffffffff12345678, 0x4, 0x23456780);
    a.imm_case(11, SLLIW, 0x92345678, 0x4, 0x23456780);
    a.imm_case(12, SLLIW, 0x92345678, 0x1f, 0x0);

    run(a.finish(), "slliw");
}

#[test]
fn isatest_rv64ui_srliw() {
    let mut a = Asm::new();
    a.imm_case(2, SRLIW, 0x1, 0x0, 0x1);
    a.imm_case(3, SRLIW, 0x1, 0x1, 0x0);
    a.imm_case(4, SRLIW, 0x1, 0x7, 0x0);
    a.imm_case(5, SRLIW, 0x1, 0x1f, 0x0);
    a.imm_case(6, SRLIW, 0xffffffffffffffff, 0x1, 0x7fffffff);
    a.imm_case(7, SRLIW, 0xffffffffffffffff, 0x1f, 0x1);
    a.imm_case(8, SRLIW, 0x21212121, 0xe, 0x8484);
    a.imm_case(9, SRLIW, 0xffffffff81818181, 0x1, 0x40c0c0c0);
    a.imm_case(10, SRLIW, 0xffffffff12345678, 0x4, 0x1234567);
    a.imm_case(11, SRLIW, 0x92345678, 0x4, 0x9234567);
    a.imm_case(12, SRLIW, 0x92345678, 0x1f, 0x1);

    run(a.finish(), "srliw");
}

#[test]
fn isatest_rv64ui_sraiw() {
    let mut a = Asm::new();
    a.imm_case(2, SRAIW, 0x1, 0x0, 0x1);
    a.imm_case(3, SRAIW, 0x1, 0x1, 0x0);
    a.imm_case(4, SRAIW, 0x1, 0x7, 0x0);
    a.imm_case(5, SRAIW, 0x1, 0x1f, 0x0);
    a.imm_case(6, SRAIW, 0xffffffffffffffff, 0x1, 0xffffffffffffffff);
    a.imm_case(7, SRAIW, 0xffffffffffffffff, 0x1f, 0xffffffffffffffff);
    a.imm_case(8, SRAIW, 0x21212121, 0xe, 0x8484);
    a.imm_case(9, SRAIW, 0xffffffff81818181, 0x1, 0xffffffffc0c0c0c0);
    a.imm_case(10, SRAIW, 0xffffffff12345678, 0x4, 0x1234567);
    a.imm_case(11, SRAIW, 0x92345678, 0x4, 0xfffffffff9234567);
    a.imm_case(12, SRAIW, 0x92345678, 0x1f, 0xffffffffffffffff);

    run(a.finish(), "sraiw");
}

#[test]
fn isatest_rv64ui_lui() {
    let mut a = Asm::new();
    a.lui_case(2, 0x0, 0x0);
    a.lui_case(3, 0xfffff, 0xfffffffffffff000);
    a.lui_case(4, 0x7ffff, 0x7ffff000);
    a.lui_case(5, 0x80000, 0xffffffff80000000);
    a.lui_case(6, 0x12345, 0x12345000);

    run(a.finish(), "lui");
}

#[test]
fn isatest_rv64ui_auipc() {
    let mut a = Asm::new();
    a.auipc_case(2, 0x0);
    a.auipc_case(3, 0x1);
    a.auipc_case(4, 0x7ffff);
    a.auipc_case(5, 0x80000);
    a.auipc_case(6, 0xfffff);

    run(a.finish(), "auipc");
}

#[test]
fn isatest_rv64ui_beq() {
    let mut a = Asm::new();
    a.branch_case(2, BEQ, 0x0, 0x0, true);
    a.branch_case(3, BEQ, 0x1, 0x1, true);
    a.branch_case(4, BEQ, 0xffffffffffffffff, 0xffffffffffffffff, true);
    a.branch_case(5, BEQ, 0x0, 0x1, false);
    a.branch_case(6, BEQ, 0x1, 0x0, false);
    a.branch_case(7, BEQ, 0xffffffffffffffff, 0x1, false);
    a.branch_case(8, BEQ, 0x1, 0xffffffffffffffff, false);
    a.branch_case(9, BEQ, 0xfffffffffffffffe, 0xffffffffffffffff, false);
    a.branch_case(10, BEQ, 0x8000000000000000, 0x7fffffffffffffff, false);
    a.branch_case(11, BEQ, 0x7fffffffffffffff, 0x8000000000000000, false);

    run(a.finish(), "beq");
}

#[test]
fn isatest_rv64ui_bne() {
    let mut a = Asm::new();
    a.branch_case(2, BNE, 0x0, 0x0, false);
    a.branch_case(3, BNE, 0x1, 0x1, false);
    a.branch_case(4, BNE, 0xffffffffffffffff, 0xffffffffffffffff, false);
    a.branch_case(5, BNE, 0x0, 0x1, true);
    a.branch_case(6, BNE, 0x1, 0x0, true);
    a.branch_case(7, BNE, 0xffffffffffffffff, 0x1, true);
    a.branch_case(8, BNE, 0x1, 0xffffffffffffffff, true);
    a.branch_case(9, BNE, 0xfffffffffffffffe, 0xffffffffffffffff, true);
    a.branch_case(10, BNE, 0x8000000000000000, 0x7fffffffffffffff, true);
    a.branch_case(11, BNE, 0x7fffffffffffffff, 0x8000000000000000, true);

    run(a.finish(), "bne");
}

#[test]
fn isatest_rv64ui_blt() {
    let mut a = Asm::new();
    a.branch_case(2, BLT, 0x0, 0x0, false);
    a.branch_case(3, BLT, 0x1, 0x1, false);
    a.branch_case(4, BLT, 0xffffffffffffffff, 0xffffffffffffffff, false);
    a.branch_case(5, BLT, 0x0, 0x1, true);
    a.branch_case(6, BLT, 0x1, 0x0, false);
    a.branch_case(7, BLT, 0xffffffffffffffff, 0x1, true);
    a.branch_case(8, BLT, 0x1, 0xffffffffffffffff, false);
    a.branch_case(9, BLT, 0xfffffffffffffffe, 0xffffffffffffffff, true);
    a.branch_case(10, BLT, 0x8000000000000000, 0x7fffffffffffffff, true);
    a.branch_case(11, BLT, 0x7fffffffffffffff, 0x8000000000000000, false);

    run(a.finish(), "blt");
}

#[test]
fn isatest_rv64ui_bge() {
    let mut a = Asm::new();
    a.branch_case(2, BGE, 0x0, 0x0, true);
    a.branch_case(3, BGE, 0x1, 0x1, true);
    a.branch_case(4, BGE, 0xffffffffffffffff, 0xffffffffffffffff, true);
    a.branch_case(5, BGE, 0x0, 0x1, false);
    a.branch_case(6, BGE, 0x1, 0x0, true);
    a.branch_case(7, BGE, 0xffffffffffffffff, 0x1, false);
    a.branch_case(8, BGE, 0x1, 0xffffffffffffffff, true);
    a.branch_case(9, BGE, 0xfffffffffffffffe, 0xffffffffffffffff, false);
    a.branch_case(10, BGE, 0x8000000000000000, 0x7fffffffffffffff, false);
    a.branch_case(11, BGE, 0x7fffffffffffffff, 0x8000000000000000, true);

    run(a.finish(), "bge");
}

#[test]
fn isatest_rv64ui_bltu() {
    let mut a = Asm::new();
    a.branch_case(2, BLTU, 0x0, 0x0, false);
    a.branch_case(3, BLTU, 0x1, 0x1, false);
    a.branch_case(4, BLTU, 0xffffffffffffffff, 0xffffffffffffffff, false);
    a.branch_case(5, BLTU, 0x0, 0x1, true);
    a.branch_case(6, BLTU, 0x1, 0x0, false);
    a.branch_case(7, BLTU, 0xffffffffffffffff, 0x1, false);
    a.branch_case(8, BLTU, 0x1, 0xffffffffffffffff, true);
    a.branch_case(9, BLTU, 0xfffffffffffffffe, 0xffffffffffffffff, true);
    a.branch_case(10, BLTU, 0x8000000000000000, 0x7fffffffffffffff, false);
    a.branch_case(11, BLTU, 0x7fffffffffffffff, 0x8000000000000000, true);

    run(a.finish(), "bltu");
}

#[test]
fn isatest_rv64ui_bgeu() {
    let mut a = Asm::new();
    a.branch_case(2, BGEU, 0x0, 0x0, true);
    a.branch_case(3, BGEU, 0x1, 0x1, true);
    a.branch_case(4, BGEU, 0xffffffffffffffff, 0xffffffffffffffff, true);
    a.branch_case(5, BGEU, 0x0, 0x1, false);
    a.branch_case(6, BGEU, 0x1, 0x0, true);
    a.branch_case(7, BGEU, 0xffffffffffffffff, 0x1, true);
    a.branch_case(8, BGEU, 0x1, 0xffffffffffffffff, false);
    a.branch_case(9, BGEU, 0xfffffffffffffffe, 0xffffffffffffffff, false);
    a.branch_case(10, BGEU, 0x8000000000000000, 0x7fffffffffffffff, true);
    a.branch_case(11, BGEU, 0x7fffffffffffffff, 0x8000000000000000, false);

    run(a.finish(), "bgeu");
}

#[test]
fn isatest_rv64ui_jal() {
    let mut a = Asm::new();
    a.jal_case(2);
    a.jal_case(3);

    run(a.finish(), "jal");
}

#[test]
fn isatest_rv64ui_jalr() {
    let mut a = Asm::new();
    a.jalr_case(2);
    a.jalr_case(3);

    run(a.finish(), "jalr");
}

#[test]
fn isatest_rv64ui_lb() {
    let mut a = Asm::new();
    a.load_case(2, LB, 0x7f4, -2036, 0xffffffffffffffff);
    a.load_case(3, LB, 0x0, 1, 0x0);
    a.load_case(4, LB, 0x22, -32, 0xfffffffffffffff0);
    a.load_case(5, LB, 0x7f7, -2036, 0xf);
    a.load_case(6, LB, 0x0, 4, 0x0);
    a.load_case(7, LB, 0x25, -32, 0xffffffffffffffff);
    a.load_case(8, LB, 0x7fa, -2036, 0xf);
    a.load_case(9, LB, 0x0, 7, 0xfffffffffffffff0);

    run(a.finish(), "lb");
}

#[test]
fn isatest_rv64ui_lbu() {
    let mut a = Asm::new();
    a.load_case(2, LBU, 0x7f4, -2036, 0xff);
    a.load_case(3, LBU, 0x0, 1, 0x0);
    a.load_case(4, LBU, 0x22, -32, 0xf0);
    a.load_case(5, LBU, 0x7f7, -2036, 0xf);
    a.load_case(6, LBU, 0x0, 4, 0x0);
    a.load_case(7, LBU, 0x25, -32, 0xff);
    a.load_case(8, LBU, 0x7fa, -2036, 0xf);
    a.load_case(9, LBU, 0x0, 7, 0xf0);

    run(a.finish(), "lbu");
}

#[test]
fn isatest_rv64ui_lh() {
    let mut a = Asm::new();
    a.load_case(2, LH, 0x7f4, -2036, 0xff);
    a.load_case(3, LH, 0x0, 2, 0xff0);
    a.load_case(4, LH, 0x24, -32, 0xffffffffffffff00);
    a.load_case(5, LH, 0x7fa, -2036, 0xfffffffffffff00f);
    a.load_case(6, LH, 0x0, 8, 0xffffffffffffbeef);
    a.load_case(7, LH, 0x2a, -32, 0xffffffffffffdead);
    a.load_case(8, LH, 0x800, -2036, 0x5678);
    a.load_case(9, LH, 0x0, 14, 0x1234);

    run(a.finish(), "lh");
}

#[test]
fn isatest_rv64ui_lhu() {
    let mut a = Asm::new();
    a.load_case(2, LHU, 0x7f4, -2036, 0xff);
    a.load_case(3, LHU, 0x0, 2, 0xff0);
    a.load_case(4, LHU, 0x24, -32, 0xff00);
    a.load_case(5, LHU, 0x7fa, -2036, 0xf00f);
    a.load_case(6, LHU, 0x0, 8, 0xbeef);
    a.load_case(7, LHU, 0x2a, -32, 0xdead);
    a.load_case(8, LHU, 0x800, -2036, 0x5678);
    a.load_case(9, LHU, 0x0, 14, 0x1234);

    run(a.finish(), "lhu");
}

#[test]
fn isatest_rv64ui_lw() {
    let mut a = Asm::new();
    a.load_case(2, LW, 0x7f4, -2036, 0xff000ff);
    a.load_case(3, LW, 0x0, 4, 0xfffffffff00fff00);
    a.load_case(4, LW, 0x28, -32, 0xffffffffdeadbeef);
    a.load_case(5, LW, 0x800, -2036, 0x12345678);
    a.load_case(6, LW, 0x0, 16, 0x7f008001);
    a.load_case(7, LW, 0x34, -32, 0xffffffffffffffff);
    a.load_case(8, LW, 0x80c, -2036, 0xffffffff80000000);
    a.load_case(9, LW, 0x0, 28, 0x44332211);

    run(a.finish(), "lw");
}

#[test]
fn isatest_rv64ui_lwu() {
    let mut a = Asm::new();
    a.load_case(2, LWU, 0x7f4, -2036, 0xff000ff);
    a.load_case(3, LWU, 0x0, 4, 0xf00fff00);
    a.load_case(4, LWU, 0x28, -32, 0xdeadbeef);
    a.load_case(5, LWU, 0x800, -2036, 0x12345678);
    a.load_case(6, LWU, 0x0, 16, 0x7f008001);
    a.load_case(7, LWU, 0x34, -32, 0xffffffff);
    a.load_case(8, LWU, 0x80c, -2036, 0x80000000);
    a.load_case(9, LWU, 0x0, 28, 0x44332211);

    run(a.finish(), "lwu");
}

#[test]
fn isatest_rv64ui_ld() {
    let mut a = Asm::new();
    a.load_case(2, LD, 0x7f4, -2036, 0xf00fff000ff000ff);
    a.load_case(3, LD, 0x0, 8, 0x12345678deadbeef);
    a.load_case(4, LD, 0x30, -32, 0xffffffff7f008001);
    a.load_case(5, LD, 0x80c, -2036, 0x4433221180000000);

    run(a.finish(), "ld");
}

#[test]
fn isatest_rv64ui_sb() {
    let mut a = Asm::new();
    a.store_case(2, SB, LB, 0x3c, 4, 0x54, -20, 0xffffffffffffffaa, 0xffffffffffffffaa);
    a.store_case(3, SB, LB, 0x818, -2000, 0x48, 0, 0x0, 0x0);
    a.store_case(4, SB, LB, 0x4c, 4, 0x64, -20, 0xffffffffffffa00a, 0xa);
    a.store_case(5, SB, LB, 0x828, -2000, 0x58, 0, 0xaa, 0xffffffffffffffaa);
    a.store_case(6, SB, LB, 0x5c, 4, 0x74, -20, 0xffffffffaa00aa00, 0x0);
    a.store_case(7, SB, LB, 0x838, -2000, 0x68, 0, 0xaa00aa0, 0xffffffffffffffa0);
    a.store_case(8, SB, LB, 0x6c, 4, 0x84, -20, 0xaabbccddeeff0011, 0x11);
    a.store_case(9, SB, LB, 0x848, -2000, 0x78, 0, 0x1122334455667788, 0xffffffffffffff88);

    run(a.finish(), "sb");
}

#[test]
fn isatest_rv64ui_sh() {
    let mut a = Asm::new();
    a.store_case(2, SH, LH, 0x3c, 4, 0x54, -20, 0xffffffffffffffaa, 0xffffffffffffffaa);
    a.store_case(3, SH, LH, 0x818, -2000, 0x48, 0, 0x0, 0x0);
    a.store_case(4, SH, LH, 0x4c, 4, 0x64, -20, 0xffffffffffffa00a, 0xffffffffffffa00a);
    a.store_case(5, SH, LH, 0x828, -2000, 0x58, 0, 0xaa, 0xaa);
    a.store_case(6, SH, LH, 0x5c, 4, 0x74, -20, 0xffffffffaa00aa00, 0xffffffffffffaa00);
    a.store_case(7, SH, LH, 0x838, -2000, 0x68, 0, 0xaa00aa0, 0xaa0);
    a.store_case(8, SH, LH, 0x6c, 4, 0x84, -20, 0xaabbccddeeff0011, 0x11);
    a.store_case(9, SH, LH, 0x848, -2000, 0x78, 0, 0x1122334455667788, 0x7788);

    run(a.finish(), "sh");
}

#[test]
fn isatest_rv64ui_sw() {
    let mut a = Asm::new();
    a.store_case(2, SW, LW, 0x3c, 4, 0x54, -20, 0xffffffffffffffaa, 0xffffffffffffffaa);
    a.store_case(3, SW, LW, 0x818, -2000, 0x48, 0, 0x0, 0x0);
    a.store_case(4, SW, LW, 0x4c, 4, 0x64, -20, 0xffffffffffffa00a, 0xffffffffffffa00a);
    a.store_case(5, SW, LW, 0x828, -2000, 0x58, 0, 0xaa, 0xaa);
    a.store_case(6, SW, LW, 0x5c, 4, 0x74, -20, 0xffffffffaa00aa00, 0xffffffffaa00aa00);
    a.store_case(7, SW, LW, 0x838, -2000, 0x68, 0, 0xaa00aa0, 0xaa00aa0);
    a.store_case(8, SW, LW, 0x6c, 4, 0x84, -20, 0xaabbccddeeff0011, 0xffffffffeeff0011);
    a.store_case(9, SW, LW, 0x848, -2000, 0x78, 0, 0x1122334455667788, 0x55667788);

    run(a.finish(), "sw");
}

#[test]
fn isatest_rv64ui_sd() {
    let mut a = Asm::new();
    a.store_case(2, SD, LD, 0x3c, 4, 0x54, -20, 0xffffffffffffffaa, 0xffffffffffffffaa);
    a.store_case(3, SD, LD, 0x818, -2000, 0x48, 0, 0x0, 0x0);
    a.store_case(4, SD, LD, 0x4c, 4, 0x64, -20, 0xffffffffffffa00a, 0xffffffffffffa00a);
    a.store_case(5, SD, LD, 0x828, -2000, 0x58, 0, 0xaa, 0xaa);
    a.store_case(6, SD, LD, 0x5c, 4, 0x74, -20, 0xffffffffaa00aa00, 0xffffffffaa00aa00);
    a.store_case(7, SD, LD, 0x838, -2000, 0x68, 0, 0xaa00aa0, 0xaa00aa0);
    a.store_case(8, SD, LD, 0x6c, 4, 0x84, -20, 0xaabbccddeeff0011, 0xaabbccddeeff0011);
    a.store_case(9, SD, LD, 0x848, -2000, 0x78, 0, 0x1122334455667788, 0x1122334455667788);

    run(a.finish(), "sd");
}

#[test]
fn isatest_rv64ui_simple() {
    let mut a = Asm::new();

    run(a.finish(), "simple");
}
