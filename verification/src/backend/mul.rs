use vstd::prelude::*;
use crate::buffers::fifo::DelayFIFO;
use crate::buffers::fifo::FifoView;
use crate::buffers::fifo::fifo_req;
use crate::buffers::fifo::fifo_resp;
use crate::buffers::fifo::fifo_pop;
use crate::buffers::fifo::fifo_tik;
use crate::buffers::fifo::fifo_rst;
use crate::buffers::fifo::fifo_tik_n;
use crate::buffers::fifo::lemma_fifo_delay;
use crate::interface::CtrlSignals;
use crate::interface::Interface;
use crate::instr::Instr;
use crate::instr::instr_default;
use crate::instr::intsr_type::InstrOpcode;
use crate::utils::sext;
use crate::utils::sext_spec;
use vstd::arithmetic::div_mod::lemma_fundamental_div_mod;
use vstd::arithmetic::div_mod::lemma_fundamental_div_mod_converse;
use vstd::arithmetic::div_mod::lemma_small_mod;
use vstd::arithmetic::div_mod::lemma_mul_mod_noop_general;
use vstd::arithmetic::div_mod::lemma_mod_mod;
use vstd::arithmetic::div_mod::lemma_div_is_ordered_by_denominator;
use vstd::arithmetic::div_mod::lemma_mod_pos_bound;
use vstd::arithmetic::div_mod::lemma_div_basics;

verus! {

/// A 64-bit word read as a two's-complement number.
pub open spec fn s64(x: u64) -> int {
    if x < 0x8000_0000_0000_0000 {
        x as int
    } else {
        x - 0x1_0000_0000_0000_0000int
    }
}

/// The low 32 bits of a word read as a two's-complement number.
pub open spec fn s32(x: u64) -> int {
    let l = x % 0x1_0000_0000;
    if l < 0x8000_0000 {
        l as int
    } else {
        l - 0x1_0000_0000int
    }
}

/// `|x|`
pub open spec fn abs(x: int) -> int {
    if x < 0 {
        -x
    } else {
        x
    }
}

/// Division rounding toward zero (`d != 0`).
pub open spec fn trunc_div(x: int, d: int) -> int {
    if (x >= 0) == (d > 0) {
        abs(x) / abs(d)
    } else {
        -(abs(x) / abs(d))
    }
}

/// The remainder of division rounding toward zero: it has the sign of `x`.
pub open spec fn trunc_rem(x: int, d: int) -> int {
    if x >= 0 {
        abs(x) % abs(d)
    } else {
        -(abs(x) % abs(d))
    }
}

/// 2^64
pub open spec fn two64() -> int {
    0x1_0000_0000_0000_0000int
}

/// 2^32
pub open spec fn two32() -> int {
    0x1_0000_0000int
}

/// The value the multiply-divide unit computes. Division by zero gives all ones
/// and a remainder by zero gives the dividend; the 32-bit forms work on the low
/// halves and sign-extend their result; quotients that overflow wrap.
pub open spec fn mul_result(i: Instr) -> u64 {
    let rs1 = i.rs1_data;
    let rs2 = i.rs2_data;
    match i.decoded.opcode_type {
        InstrOpcode::MUL => ((rs1 * rs2) % two64()) as u64,
        InstrOpcode::MULW => sext_spec(((rs1 * rs2) % two32()) as u64, 31),
        InstrOpcode::MULH => (((s64(rs1) * s64(rs2)) / two64()) % two64()) as u64,
        InstrOpcode::MULHSU => (((s64(rs1) * rs2) / two64()) % two64()) as u64,
        InstrOpcode::MULHU => ((rs1 * rs2) / two64()) as u64,
        InstrOpcode::DIV => if rs2 != 0 {
            (trunc_div(s64(rs1), s64(rs2)) % two64()) as u64
        } else {
            0xffff_ffff_ffff_ffff
        },
        InstrOpcode::DIVW => if s32(rs2) != 0 {
            sext_spec((trunc_div(s32(rs1), s32(rs2)) % two32()) as u64, 31)
        } else {
            0xffff_ffff_ffff_ffff
        },
        InstrOpcode::DIVU => if rs2 != 0 {
            rs1 / rs2
        } else {
            0xffff_ffff_ffff_ffff
        },
        InstrOpcode::DIVUW => if (rs2 as int) % two32() != 0 {
            sext_spec((((rs1 as int) % two32()) / ((rs2 as int) % two32())) as u64, 31)
        } else {
            0xffff_ffff_ffff_ffff
        },
        InstrOpcode::REM => if rs2 != 0 {
            (trunc_rem(s64(rs1), s64(rs2)) % two64()) as u64
        } else {
            rs1
        },
        InstrOpcode::REMW => if s32(rs2) != 0 {
            sext_spec((trunc_rem(s32(rs1), s32(rs2)) % two32()) as u64, 31)
        } else {
            rs1
        },
        InstrOpcode::REMU => if rs2 != 0 {
            rs1 % rs2
        } else {
            rs1
        },
        _ => if (rs2 as int) % two32() != 0 {
            sext_spec((((rs1 as int) % two32()) % ((rs2 as int) % two32())) as u64, 31)
        } else {
            rs1
        },
    }
}

/// The operations of the multiply-divide unit.
pub open spec fn is_muldiv_op(op: InstrOpcode) -> bool {
    op == InstrOpcode::MUL || op == InstrOpcode::MULW || op == InstrOpcode::MULH || op
        == InstrOpcode::MULHSU || op == InstrOpcode::MULHU || op == InstrOpcode::DIV || op
        == InstrOpcode::DIVW || op == InstrOpcode::DIVU || op == InstrOpcode::DIVUW || op
        == InstrOpcode::REM || op == InstrOpcode::REMW || op == InstrOpcode::REMU || op
        == InstrOpcode::REMUW
}

/// The instruction after the unit executes it.
pub open spec fn mul_exec(i: Instr) -> Instr {
    if i.exception_vld {
        i
    } else {
        Instr { wb_vld: true, wb_data: mul_result(i), executed: true, ..i }
    }
}

/// The unit's queue after `req` is offered.
pub open spec fn mul_req(v: FifoView<Instr>, req: (bool, Instr)) -> FifoView<Instr> {
    if v.rdy && req.0 && req.1.decoded.is_mul {
        fifo_req(v, (true, mul_exec(req.1)))
    } else {
        v
    }
}

/// Timing from reset: a unit that is empty and ready, as `new` builds it, takes a
/// valid multiply-divide instruction and shows it, executed, exactly its delay later, and
/// from then on until it is taken.
pub proof fn lemma_mul_delay(v: FifoView<Instr>, req: (bool, Instr), n: nat)
    requires
        v.items.len() == 0,
        v.delays.len() == 0,
        v.cap > 0,
        v.options.len() > 0,
        v.rdy,
        req.0,
        req.1.decoded.is_mul,
    ensures
        fifo_resp(fifo_tik_n(mul_req(v, req), n)) == (n >= v.options[0], mul_exec(req.1)),
{
    lemma_fifo_delay(v, mul_exec(req.1), n);
}

proof fn lemma_i64_as_u128(x: u64)
    ensures
        ((x as i64) as u128) as int == s64(x) % (two64() * two64()),
{
    let y = x as i64 as u128;
    assert(y as int == (if x < 0x8000_0000_0000_0000u64 {
        x as int
    } else {
        x + 0xffff_ffff_ffff_ffff_0000_0000_0000_0000int
    })) by (bit_vector)
        requires
            y == x as i64 as u128,
    ;
    if x < 0x8000_0000_0000_0000u64 {
        lemma_small_mod(x as nat, (two64() * two64()) as nat);
    } else {
        lemma_fundamental_div_mod_converse(s64(x), two64() * two64(), -1, y as int);
    }
}

proof fn lemma_u128_parts(p: u128)
    ensures
        (p as u64) as int == (p as int) % two64(),
        (p >> 64u128) as int == (p as int) / two64(),
        (p as int) / two64() < two64(),
{
    let lo = p as u64;
    assert(lo as u128 == p % 0x1_0000_0000_0000_0000u128) by (bit_vector)
        requires
            lo == p as u64,
    ;
    assert(p >> 64u128 == p / 0x1_0000_0000_0000_0000u128) by (bit_vector);
    assert(p / 0x1_0000_0000_0000_0000u128 < 0x1_0000_0000_0000_0000u128) by (bit_vector);
}

proof fn lemma_high_half(x: int)
    ensures
        (x % (two64() * two64())) / two64() == (x / two64()) % two64(),
        (x % (two64() * two64())) % two64() == x % two64(),
{
    let m = two64();
    lemma_fundamental_div_mod(x, m);
    let q = x / m;
    let r = x % m;
    lemma_fundamental_div_mod(q, m);
    let q2 = q / m;
    let r2 = q % m;
    assert(x == (q2 * m * m) + (r2 * m + r));
    assert(0 <= r2 * m + r < m * m);
    lemma_fundamental_div_mod_converse(x, m * m, q2, r2 * m + r);
    lemma_fundamental_div_mod_converse(r2 * m + r, m, r2, r);
    lemma_mod_mod(x, m, m);
}

proof fn lemma_i64_as_u64(q: i64)
    ensures
        (q as u64) as int == (q as int) % two64(),
{
    let u = q as u64;
    assert(u as int == (if q >= 0 {
        q as int
    } else {
        q + 0x1_0000_0000_0000_0000int
    })) by (bit_vector)
        requires
            u == q as u64,
    ;
    if q < 0 {
        lemma_fundamental_div_mod_converse(q as int, two64(), -1, q + two64());
    } else {
        lemma_small_mod(q as nat, two64() as nat);
    }
}

proof fn lemma_i32_as_u64(q: i32)
    ensures
        (q as u64) == sext_spec(((q as int) % two32()) as u64, 31),
{
    let u = q as u64;
    let l = q as u32;
    assert(u == sext_spec(l as u64, 31) && l as int == (if q >= 0 {
        q as int
    } else {
        q + 0x1_0000_0000int
    })) by (bit_vector)
        requires
            u == q as u64,
            l == q as u32,
    ;
    if q < 0 {
        lemma_fundamental_div_mod_converse(q as int, two32(), -1, q + two32());
    } else {
        lemma_small_mod(q as nat, two32() as nat);
    }
}

proof fn lemma_u64_as_signed(x: u64)
    ensures
        (x as i64) as int == s64(x),
        (x as i32) as int == s32(x),
        (x as u32) as int == (x as int) % two32(),
{
    let y = x as i64;
    let z = x as i32;
    let w = x as u32;
    assert(y as int == s64(x)) by (bit_vector)
        requires
            y == x as i64,
    ;
    assert(w as int == x % 0x1_0000_0000 && z as int == (if w < 0x8000_0000u32 {
        w as int
    } else {
        w - 0x1_0000_0000int
    })) by (bit_vector)
        requires
            z == x as i32,
            w == x as u32,
    ;
}

proof fn lemma_s32_congruent(x: u64)
    ensures
        s32(x) % two32() == (x as int) % two32(),
{
    let l = (x as int) % two32();
    if l < 0x8000_0000 {
        lemma_small_mod(l as nat, two32() as nat);
    } else {
        lemma_fundamental_div_mod_converse(s32(x), two32(), -1, l);
    }
    lemma_mod_mod(x as int, two32(), 1);
}

fn mul_low(rs1: u64, rs2: u64) -> (r: u64)
    ensures
        r == (rs1 * rs2) % two64(),
{
    let a = rs1 as i64 as u128;
    let b = rs2 as i64 as u128;
    let p = a.wrapping_mul(b);
    proof {
        lemma_i64_as_u128(rs1);
        lemma_i64_as_u128(rs2);
        lemma_u128_parts(p);
        let m2 = two64() * two64();
        assert(p as int == (a * b) % m2);
        lemma_mul_mod_noop_general(s64(rs1), s64(rs2), m2);
        lemma_high_half(s64(rs1) * s64(rs2));
        lemma_mul_mod_noop_general(s64(rs1), s64(rs2), two64());
        lemma_mul_mod_noop_general(rs1 as int, rs2 as int, two64());
        if rs1 >= 0x8000_0000_0000_0000 {
            lemma_fundamental_div_mod_converse(s64(rs1), two64(), -1, rs1 as int);
        } else {
            lemma_small_mod(rs1 as nat, two64() as nat);
        }
        if rs2 >= 0x8000_0000_0000_0000 {
            lemma_fundamental_div_mod_converse(s64(rs2), two64(), -1, rs2 as int);
        } else {
            lemma_small_mod(rs2 as nat, two64() as nat);
        }
    }
    p as u64
}

fn mul_high_signed(rs1: u64, rs2: u64) -> (r: u64)
    ensures
        r == ((s64(rs1) * s64(rs2)) / two64()) % two64(),
{
    let a = rs1 as i64 as u128;
    let b = rs2 as i64 as u128;
    let p = a.wrapping_mul(b);
    proof {
        lemma_i64_as_u128(rs1);
        lemma_i64_as_u128(rs2);
        lemma_u128_parts(p);
        let m2 = two64() * two64();
        assert(p as int == (a * b) % m2);
        lemma_mul_mod_noop_general(s64(rs1), s64(rs2), m2);
        lemma_high_half(s64(rs1) * s64(rs2));
    }
    (p >> 64u128) as u64
}

fn mul_high_signed_unsigned(rs1: u64, rs2: u64) -> (r: u64)
    ensures
        r == ((s64(rs1) * rs2) / two64()) % two64(),
{
    let a = rs1 as i64 as u128;
    let b = rs2 as u128;
    let p = a.wrapping_mul(b);
    proof {
        lemma_i64_as_u128(rs1);
        lemma_u128_parts(p);
        let m2 = two64() * two64();
        assert(p as int == (a * b) % m2);
        lemma_small_mod(rs2 as nat, m2 as nat);
        lemma_mul_mod_noop_general(s64(rs1), rs2 as int, m2);
        lemma_high_half(s64(rs1) * rs2);
    }
    (p >> 64u128) as u64
}

fn mul_high_unsigned(rs1: u64, rs2: u64) -> (r: u64)
    ensures
        r == (rs1 * rs2) / two64(),
{
    let a = rs1 as u128;
    let b = rs2 as u128;
    let p = a.wrapping_mul(b);
    proof {
        lemma_u128_parts(p);
        let m2 = two64() * two64();
        assert(0 <= a * b < m2) by (nonlinear_arith)
            requires
                a < two64(),
                b < two64(),
                m2 == two64() * two64(),
        ;
        lemma_small_mod((a * b) as nat, m2 as nat);
    }
    (p >> 64u128) as u64
}

fn mul_word(rs1: u64, rs2: u64) -> (r: u64)
    ensures
        r == sext_spec(((rs1 * rs2) % two32()) as u64, 31),
{
    let p = (rs1 as i32).wrapping_mul(rs2 as i32);
    proof {
        lemma_u64_as_signed(rs1);
        lemma_u64_as_signed(rs2);
        lemma_s32_congruent(rs1);
        lemma_s32_congruent(rs2);
        lemma_i32_as_u64(p);
        lemma_mul_mod_noop_general(s32(rs1), s32(rs2), two32());
        lemma_mul_mod_noop_general(rs1 as int, rs2 as int, two32());
        let m = two32();
        let w = (s32(rs1) * s32(rs2)) % m;
        assert(w == ((rs1 as int) * (rs2 as int)) % m) by {
            assert(((s32(rs1) % m) * (s32(rs2) % m)) % m == w);
            assert(((rs1 as int % m) * (rs2 as int % m)) % m == ((rs1 as int) * (rs2 as int)) % m);
        }
        if w > 0x7fff_ffff {
            lemma_fundamental_div_mod_converse(p as int, m, -1, w);
        } else {
            lemma_small_mod(w as nat, m as nat);
        }
        assert((p as int) % m == w);
        let y = w as u64;
        assert(sext_spec(sext_spec(y, 31), 31) == sext_spec(y, 31)) by (bit_vector);
    }
    sext(p as u64, 31)
}


/// Division rounding toward zero stays within `m` in size, except for the one
/// quotient `-m / -1`, which is `m`.
proof fn lemma_trunc_div_bound(x: int, d: int, m: int)
    requires
        m > 0,
        -m <= x < m,
        -m <= d < m,
        d != 0,
    ensures
        x == -m && d == -1 ==> trunc_div(x, d) == m,
        !(x == -m && d == -1) ==> -m <= trunc_div(x, d) < m,
{
    let ax = abs(x);
    let ad = abs(d);
    lemma_div_basics(ax);
    lemma_div_is_ordered_by_denominator(ax, 1, ad);
    if ad >= 2 {
        lemma_div_is_ordered_by_denominator(ax, 2, ad);
    }
    assert(ax / ad >= 0) by {
        lemma_div_is_ordered_by_denominator(0, 1, ad);
        vstd::arithmetic::div_mod::lemma_div_is_ordered(0, ax, ad);
    }
}

/// The remainder of division rounding toward zero is smaller than the divisor.
proof fn lemma_trunc_rem_bound(x: int, d: int, m: int)
    requires
        m > 0,
        -m <= x < m,
        -m <= d < m,
        d != 0,
    ensures
        -m < trunc_rem(x, d) < m,
        x == -m && d == -1 ==> trunc_rem(x, d) == 0,
        x == 0 ==> trunc_rem(x, d) == 0,
{
    lemma_mod_pos_bound(abs(x), abs(d));
    lemma_small_mod(0, abs(d) as nat);
    lemma_div_basics(abs(x));
}

/// Division rounding toward zero and its remainder fit together: the quotient
/// times the divisor plus the remainder is the dividend.
pub proof fn lemma_trunc_div_rem(x: int, d: int)
    requires
        d != 0,
    ensures
        trunc_div(x, d) * d + trunc_rem(x, d) == x,
{
    let ax = abs(x);
    let ad = abs(d);
    lemma_fundamental_div_mod(ax, ad);
    let q = ax / ad;
    let r = ax % ad;
    assert(ax == ad * q + r);
    if x >= 0 {
        if d > 0 {
            assert(q * d + r == x) by (nonlinear_arith)
                requires
                    ax == ad * q + r,
                    ax == x,
                    ad == d,
            ;
        } else {
            assert((-q) * d + r == x) by (nonlinear_arith)
                requires
                    ax == ad * q + r,
                    ax == x,
                    ad == -d,
            ;
        }
    } else {
        if d > 0 {
            assert((-q) * d + (-r) == x) by (nonlinear_arith)
                requires
                    ax == ad * q + r,
                    ax == -x,
                    ad == d,
            ;
        } else {
            assert(q * d + (-r) == x) by (nonlinear_arith)
                requires
                    ax == ad * q + r,
                    ax == -x,
                    ad == -d,
            ;
        }
    }
}

/// For the same operands and a non-zero divisor, the quotient the unit gives
/// times the divisor, plus the remainder it gives, is the dividend modulo 2^64:
/// for the signed pair DIV and REM (the one overflowing quotient included) and the
/// unsigned pair DIVU and REMU.
pub proof fn lemma_div_rem_identity(div: Instr, rem: Instr)
    requires
        (div.decoded.opcode_type == InstrOpcode::DIV && rem.decoded.opcode_type == InstrOpcode::REM)
            || (div.decoded.opcode_type == InstrOpcode::DIVU && rem.decoded.opcode_type
            == InstrOpcode::REMU),
        div.rs1_data == rem.rs1_data,
        div.rs2_data == rem.rs2_data,
        div.rs2_data != 0,
    ensures
        (mul_result(div) * div.rs2_data + mul_result(rem)) % two64() == div.rs1_data,
{
    let a = div.rs1_data;
    let b = div.rs2_data;
    let m = two64();
    if div.decoded.opcode_type == InstrOpcode::DIV {
        let x = s64(a);
        let d = s64(b);
        assert(d != 0);
        let q = trunc_div(x, d);
        let r = trunc_rem(x, d);
        lemma_trunc_div_rem(x, d);
        // b and d agree modulo 2^64, and so do a and x
        let k: int = if b >= 0x8000_0000_0000_0000 { 1 } else { 0 };
        assert(b == d + k * m);
        assert((q % m) * b % m == (q * b) % m) by {
            vstd::arithmetic::div_mod::lemma_mul_mod_noop_left(q, b as int, m);
        }
        assert((q * b) % m == (q * d) % m) by {
            assert(q * b == m * (q * k) + q * d) by (nonlinear_arith)
                requires
                    b == d + k * m,
            ;
            vstd::arithmetic::div_mod::lemma_mod_multiples_vanish(q * k, q * d, m);
        }
        vstd::arithmetic::div_mod::lemma_add_mod_noop((q % m) * b, r % m, m);
        vstd::arithmetic::div_mod::lemma_add_mod_noop((q % m) * b, r, m);
        lemma_mod_mod(r, m, 1);
        vstd::arithmetic::div_mod::lemma_add_mod_noop(q * d, r, m);
        vstd::arithmetic::div_mod::lemma_add_mod_noop(q * b, r, m);
        assert(((q % m) * b + (r % m)) % m == (q * d + r) % m);
        let ka: int = if a >= 0x8000_0000_0000_0000 { 1 } else { 0 };
        assert(a == x + ka * m);
        vstd::arithmetic::div_mod::lemma_mod_multiples_vanish(ka, x, m);
        lemma_small_mod(a as nat, m as nat);
        assert(x % m == a);
        assert(mul_result(div) == q % m);
        assert(mul_result(rem) == r % m);
    } else {
        lemma_fundamental_div_mod(a as int, b as int);
        lemma_small_mod(a as nat, m as nat);
        assert(mul_result(div) == a / b);
        assert(mul_result(rem) == a % b);
        assert((a / b) * b == b * (a / b)) by (nonlinear_arith);
    }
}

/// A sign-extended low word read back as a signed 64-bit number is the signed
/// 32-bit number it came from.
proof fn lemma_word_reads_back(v: int)
    requires
        -0x8000_0000 <= v < 0x8000_0000,
    ensures
        s64(sext_spec((v % two32()) as u64, 31)) == v,
{
    let q = v as i32;
    assert(q as int == v);
    lemma_i32_as_u64(q);
    lemma_i64_as_u64(q as i64);
    assert((q as i64) as u64 == q as u64);
    if v >= 0 {
        lemma_small_mod(v as nat, two64() as nat);
    } else {
        lemma_fundamental_div_mod_converse(v, two64(), -1, v + two64());
    }
}

/// A value in the signed 64-bit range, taken modulo 2^64, reads back as itself.
proof fn lemma_doubleword_reads_back(v: int)
    requires
        -0x8000_0000_0000_0000 <= v < 0x8000_0000_0000_0000,
    ensures
        s64((v % two64()) as u64) == v,
{
    if v >= 0 {
        lemma_small_mod(v as nat, two64() as nat);
    } else {
        lemma_fundamental_div_mod_converse(v, two64(), -1, v + two64());
    }
}

/// What makes `r` the remainder of `a` divided by `b` rounding toward zero: it is
/// smaller than the divisor in size, it is zero or has the sign of the dividend,
/// and the dividend minus it is a multiple of the divisor.
proof fn lemma_trunc_rem_laws(a: int, b: int)
    requires
        b != 0,
    ensures
        abs(trunc_rem(a, b)) < abs(b),
        trunc_rem(a, b) == 0 || (trunc_rem(a, b) < 0) == (a < 0),
        (a - trunc_rem(a, b)) % abs(b) == 0,
{
    lemma_mod_pos_bound(abs(a), abs(b));
    lemma_trunc_div_rem(a, b);
    let q = trunc_div(a, b);
    let k: int = if b > 0 { q } else { -q };
    assert(a - trunc_rem(a, b) == k * abs(b)) by (nonlinear_arith)
        requires
            q * b + trunc_rem(a, b) == a,
            k == (if b > 0 { q } else { -q }),
            abs(b) == (if b > 0 { b } else { -b }),
    ;
    vstd::arithmetic::div_mod::lemma_mod_multiples_basic(k, abs(b));
}

/// The signed remainders: read as signed numbers, the result of REM (on whole
/// words) or REMW (on the low words) by a non-zero divisor is smaller than the
/// divisor in size, is zero or carries the dividend's sign, and leaves a multiple
/// of the divisor when taken from the dividend.
pub proof fn lemma_signed_rem(i: Instr)
    requires
        i.decoded.opcode_type == InstrOpcode::REM && i.rs2_data != 0
            || i.decoded.opcode_type == InstrOpcode::REMW && s32(i.rs2_data) != 0,
    ensures
        ({
            let w = i.decoded.opcode_type == InstrOpcode::REMW;
            let a = if w { s32(i.rs1_data) } else { s64(i.rs1_data) };
            let b = if w { s32(i.rs2_data) } else { s64(i.rs2_data) };
            let r = s64(mul_result(i));
            &&& abs(r) < abs(b)
            &&& (r == 0 || (r < 0) == (a < 0))
            &&& (a - r) % abs(b) == 0
        }),
{
    if i.decoded.opcode_type == InstrOpcode::REMW {
        let a = s32(i.rs1_data);
        let b = s32(i.rs2_data);
        lemma_trunc_rem_bound(a, b, 0x8000_0000);
        lemma_word_reads_back(trunc_rem(a, b));
        lemma_trunc_rem_laws(a, b);
    } else {
        let a = s64(i.rs1_data);
        let b = s64(i.rs2_data);
        lemma_trunc_rem_bound(a, b, 0x8000_0000_0000_0000);
        lemma_doubleword_reads_back(trunc_rem(a, b));
        lemma_trunc_rem_laws(a, b);
    }
}

/// The signed divisions with their remainders: for DIV with REM (whole words) or
/// DIVW with REMW (low words) on the same operands and a non-zero divisor, read as
/// signed numbers, the quotient times the divisor plus the remainder is the
/// dividend; the one quotient that overflows, the most negative dividend over
/// minus one, gives the dividend back with remainder zero.
pub proof fn lemma_signed_div_rem(div: Instr, rem: Instr)
    requires
        div.decoded.opcode_type == InstrOpcode::DIV && rem.decoded.opcode_type == InstrOpcode::REM
            && div.rs2_data != 0 || div.decoded.opcode_type == InstrOpcode::DIVW
            && rem.decoded.opcode_type == InstrOpcode::REMW && s32(div.rs2_data) != 0,
        div.rs1_data == rem.rs1_data,
        div.rs2_data == rem.rs2_data,
    ensures
        ({
            let w = div.decoded.opcode_type == InstrOpcode::DIVW;
            let a = if w { s32(div.rs1_data) } else { s64(div.rs1_data) };
            let b = if w { s32(div.rs2_data) } else { s64(div.rs2_data) };
            let m: int = if w { 0x8000_0000 } else { 0x8000_0000_0000_0000 };
            let q = s64(mul_result(div));
            let r = s64(mul_result(rem));
            &&& (a == -m && b == -1 ==> q == a && r == 0)
            &&& (!(a == -m && b == -1) ==> q * b + r == a)
        }),
{
    let w = div.decoded.opcode_type == InstrOpcode::DIVW;
    let m: int = if w { 0x8000_0000 } else { 0x8000_0000_0000_0000 };
    let a = if w { s32(div.rs1_data) } else { s64(div.rs1_data) };
    let b = if w { s32(div.rs2_data) } else { s64(div.rs2_data) };
    lemma_trunc_div_bound(a, b, m);
    lemma_trunc_rem_bound(a, b, m);
    lemma_trunc_div_rem(a, b);
    let q0 = trunc_div(a, b);
    let r0 = trunc_rem(a, b);
    if w {
        lemma_word_reads_back(r0);
        if a == -m && b == -1 {
            assert(q0 % two32() == (-m) % two32()) by {
                lemma_fundamental_div_mod_converse(q0, two32(), 0, q0);
                lemma_fundamental_div_mod_converse(-m, two32(), -1, q0);
            }
            lemma_word_reads_back(-m);
        } else {
            lemma_word_reads_back(q0);
        }
    } else {
        lemma_doubleword_reads_back(r0);
        if a == -m && b == -1 {
            assert(q0 % two64() == (-m) % two64()) by {
                lemma_fundamental_div_mod_converse(q0, two64(), 0, q0);
                lemma_fundamental_div_mod_converse(-m, two64(), -1, q0);
            }
            lemma_doubleword_reads_back(-m);
        } else {
            lemma_doubleword_reads_back(q0);
        }
    }
}

/// A low word `y`, sign-extended, keeps `y` as its low word and reads the same as
/// a signed 64-bit number and as a signed 32-bit one.
proof fn lemma_sext_word(y: int)
    requires
        0 <= y < 0x1_0000_0000,
    ensures
        (sext_spec(y as u64, 31) as int) % two32() == y,
        s64(sext_spec(y as u64, 31)) == s32(sext_spec(y as u64, 31)),
{
    let v: int = if y < 0x8000_0000 { y } else { y - two32() };
    if y < 0x8000_0000 {
        lemma_small_mod(y as nat, two32() as nat);
    } else {
        lemma_fundamental_div_mod_converse(v, two32(), -1, y);
    }
    lemma_word_reads_back(v);
    let r = sext_spec(y as u64, 31);
    if v >= 0 {
        assert(r as int == v);
        lemma_small_mod(y as nat, two32() as nat);
    } else {
        assert(r as int == v + two64());
        lemma_fundamental_div_mod_converse(r as int, two32(), 0xffff_ffff, y);
    }
}

/// The unsigned divisions with their remainders: for DIVU with REMU (whole words)
/// or DIVUW with REMUW (low words) on the same operands and a non-zero divisor, the
/// remainder is below the divisor and the quotient times the divisor plus the
/// remainder is the dividend; the word forms give sign-extended low words.
pub proof fn lemma_unsigned_div_rem(div: Instr, rem: Instr)
    requires
        div.decoded.opcode_type == InstrOpcode::DIVU && rem.decoded.opcode_type == InstrOpcode::REMU
            && div.rs2_data != 0 || div.decoded.opcode_type == InstrOpcode::DIVUW
            && rem.decoded.opcode_type == InstrOpcode::REMUW && (div.rs2_data as int) % two32() != 0,
        div.rs1_data == rem.rs1_data,
        div.rs2_data == rem.rs2_data,
    ensures
        ({
            let w = div.decoded.opcode_type == InstrOpcode::DIVUW;
            let a = if w { (div.rs1_data as int) % two32() } else { div.rs1_data as int };
            let b = if w { (div.rs2_data as int) % two32() } else { div.rs2_data as int };
            let q = if w { (mul_result(div) as int) % two32() } else { mul_result(div) as int };
            let r = if w { (mul_result(rem) as int) % two32() } else { mul_result(rem) as int };
            &&& 0 <= r < b
            &&& q * b + r == a
            &&& (w ==> s64(mul_result(div)) == s32(mul_result(div)) && s64(mul_result(rem)) == s32(
                mul_result(rem),
            ))
        }),
{
    let w = div.decoded.opcode_type == InstrOpcode::DIVUW;
    let a = if w { (div.rs1_data as int) % two32() } else { div.rs1_data as int };
    let b = if w { (div.rs2_data as int) % two32() } else { div.rs2_data as int };
    lemma_mod_pos_bound(div.rs1_data as int, two32());
    lemma_mod_pos_bound(div.rs2_data as int, two32());
    lemma_fundamental_div_mod(a, b);
    lemma_mod_pos_bound(a, b);
    assert(0 <= a / b <= a) by {
        lemma_div_basics(a);
        lemma_div_is_ordered_by_denominator(a, 1, b);
        vstd::arithmetic::div_mod::lemma_div_pos_is_pos(a, b);
    }
    if w {
        lemma_sext_word(a / b);
        lemma_sext_word(a % b);
    }
    assert((a / b) * b == b * (a / b)) by (nonlinear_arith);
}

/// The multiplications: MULW gives the low word of the product, sign-extended;
/// and the high part that MULHU, MULH or MULHSU gives (its operands read as
/// unsigned, both signed, or signed and unsigned), placed above the low part that
/// MUL gives for the same operands, is the whole product.
pub proof fn lemma_products(lo: Instr, hi: Instr)
    requires
        lo.decoded.opcode_type == InstrOpcode::MUL,
        hi.decoded.opcode_type == InstrOpcode::MULHU || hi.decoded.opcode_type == InstrOpcode::MULH
            || hi.decoded.opcode_type == InstrOpcode::MULHSU,
        lo.rs1_data == hi.rs1_data,
        lo.rs2_data == hi.rs2_data,
    ensures
        ({
            let op = hi.decoded.opcode_type;
            let x = if op == InstrOpcode::MULHU { lo.rs1_data as int } else { s64(lo.rs1_data) };
            let y = if op == InstrOpcode::MULH { s64(lo.rs2_data) } else { lo.rs2_data as int };
            let h = if op == InstrOpcode::MULHU { mul_result(hi) as int } else { s64(mul_result(hi)) };
            h * two64() + mul_result(lo) == x * y
        }),
        ({
            let w = Instr { decoded: crate::instr::decoded_instr::DecodedInstr { opcode_type: InstrOpcode::MULW, ..lo.decoded }, ..lo };
            &&& (mul_result(w) as int) % two32() == (lo.rs1_data * lo.rs2_data) % two32()
            &&& s64(mul_result(w)) == s32(mul_result(w))
        }),
{
    let op = hi.decoded.opcode_type;
    let a = lo.rs1_data;
    let b = lo.rs2_data;
    let m = two64();
    let w = Instr { decoded: crate::instr::decoded_instr::DecodedInstr { opcode_type: InstrOpcode::MULW, ..lo.decoded }, ..lo };
    lemma_mod_pos_bound((a * b) as int, two32());
    lemma_sext_word((a * b) % two32());
    lemma_mul_mod_noop_general(a as int, b as int, m);
    if op == InstrOpcode::MULHU {
        let p = a * b;
        lemma_fundamental_div_mod(p, m);
        assert(0 <= p < m * m) by (nonlinear_arith)
            requires
                0 <= a < m,
                0 <= b < m,
                p == a * b,
        ;
        lemma_mod_pos_bound(p, m);
        let q = p / m;
        assert(0 <= q < m) by (nonlinear_arith)
            requires
                p == m * q + p % m,
                0 <= p % m < m,
                0 <= p < m * m,
                m > 0,
        ;
    } else {
        let x = s64(a);
        let y = if op == InstrOpcode::MULH { s64(b) } else { b as int };
        let p = x * y;
        assert(x % m == (a as int) % m) by {
            lemma_small_mod(a as nat, m as nat);
            if x < 0 {
                lemma_fundamental_div_mod_converse(x, m, -1, a as int);
            }
        }
        assert(y % m == (b as int) % m) by {
            lemma_small_mod(b as nat, m as nat);
            if y < 0 {
                lemma_fundamental_div_mod_converse(y, m, -1, b as int);
            }
        }
        lemma_mul_mod_noop_general(x, y, m);
        assert(p % m == (a * b) % m);
        lemma_fundamental_div_mod(p, m);
        let k = 0x8000_0000_0000_0000int;
        assert(-k * m <= p < k * m) by (nonlinear_arith)
            requires
                -k <= x < k,
                -k <= y < m,
                op == InstrOpcode::MULH ==> y < k,
                op != InstrOpcode::MULH ==> y >= 0,
                p == x * y,
                m == 2 * k,
        ;
        vstd::arithmetic::div_mod::lemma_mod_division_less_than_divisor(p, m);
        let q = p / m;
        assert(-k <= q < k) by (nonlinear_arith)
            requires
                p == m * q + p % m,
                0 <= p % m < m,
                -k * m <= p < k * m,
                m > 0,
        ;
        lemma_doubleword_reads_back(p / m);
    }
}

/// Division by zero: every quotient is all ones and every remainder is the
/// dividend; for the word forms the divisor is the low word.
pub proof fn lemma_div_by_zero(i: Instr)
    requires
        is_muldiv_op(i.decoded.opcode_type),
        ({
            let op = i.decoded.opcode_type;
            if op == InstrOpcode::DIV || op == InstrOpcode::DIVU || op == InstrOpcode::REM || op
                == InstrOpcode::REMU {
                i.rs2_data == 0
            } else if op == InstrOpcode::DIVW || op == InstrOpcode::REMW || op == InstrOpcode::DIVUW
                || op == InstrOpcode::REMUW {
                (i.rs2_data as int) % two32() == 0
            } else {
                false
            }
        }),
    ensures
        ({
            let op = i.decoded.opcode_type;
            &&& (op == InstrOpcode::DIV || op == InstrOpcode::DIVU || op == InstrOpcode::DIVW || op
                == InstrOpcode::DIVUW) ==> mul_result(i) == 0xffff_ffff_ffff_ffffu64
            &&& (op == InstrOpcode::REM || op == InstrOpcode::REMU || op == InstrOpcode::REMW || op
                == InstrOpcode::REMUW) ==> mul_result(i) == i.rs1_data
        }),
{
}

fn div_signed(rs1: u64, rs2: u64) -> (r: u64)
    requires
        rs2 != 0,
    ensures
        r == trunc_div(s64(rs1), s64(rs2)) % two64(),
{
    proof {
        lemma_u64_as_signed(rs1);
        lemma_u64_as_signed(rs2);
        lemma_trunc_div_bound(s64(rs1), s64(rs2), 0x8000_0000_0000_0000);
    }
    let a = rs1 as i64;
    let b = rs2 as i64;
    match a.checked_div(b) {
        Some(q) => {
            proof {
                lemma_i64_as_u64(q);
            }
            q as u64
        },
        None => {
            proof {
                lemma_small_mod(rs1 as nat, two64() as nat);
            }
            rs1
        },
    }
}

fn rem_signed(rs1: u64, rs2: u64) -> (r: u64)
    requires
        rs2 != 0,
    ensures
        r == trunc_rem(s64(rs1), s64(rs2)) % two64(),
{
    proof {
        lemma_u64_as_signed(rs1);
        lemma_u64_as_signed(rs2);
        lemma_trunc_rem_bound(s64(rs1), s64(rs2), 0x8000_0000_0000_0000);
    }
    let a = rs1 as i64;
    let b = rs2 as i64;
    match a.checked_rem(b) {
        Some(q) => {
            proof {
                lemma_i64_as_u64(q);
            }
            q as u64
        },
        None => 0,
    }
}

fn div_word(rs1: u64, rs2: u64) -> (r: u64)
    requires
        s32(rs2) != 0,
    ensures
        r == sext_spec((trunc_div(s32(rs1), s32(rs2)) % two32()) as u64, 31),
{
    proof {
        lemma_u64_as_signed(rs1);
        lemma_u64_as_signed(rs2);
        lemma_trunc_div_bound(s32(rs1), s32(rs2), 0x8000_0000);
    }
    let a = rs1 as i32;
    let b = rs2 as i32;
    let q: i32 = match a.checked_div(b) {
        Some(q) => q,
        None => a,
    };
    proof {
        lemma_i32_as_u64(q);
        let y = ((q as int) % two32()) as u64;
        assert(sext_spec(sext_spec(y, 31), 31) == sext_spec(y, 31)) by (bit_vector);
    }
    sext(q as u64, 31)
}

fn rem_word(rs1: u64, rs2: u64) -> (r: u64)
    requires
        s32(rs2) != 0,
    ensures
        r == sext_spec((trunc_rem(s32(rs1), s32(rs2)) % two32()) as u64, 31),
{
    proof {
        lemma_u64_as_signed(rs1);
        lemma_u64_as_signed(rs2);
        lemma_trunc_rem_bound(s32(rs1), s32(rs2), 0x8000_0000);
    }
    let a = rs1 as i32;
    let b = rs2 as i32;
    let q: i32 = match a.checked_rem(b) {
        Some(q) => q,
        None => 0,
    };
    proof {
        lemma_i32_as_u64(q);
        let y = ((q as int) % two32()) as u64;
        assert(sext_spec(sext_spec(y, 31), 31) == sext_spec(y, 31)) by (bit_vector);
    }
    sext(q as u64, 31)
}

fn div_word_unsigned(rs1: u64, rs2: u64) -> (r: u64)
    requires
        (rs2 as int) % two32() != 0,
    ensures
        r == sext_spec((((rs1 as int) % two32()) / ((rs2 as int) % two32())) as u64, 31),
{
    proof {
        lemma_u64_as_signed(rs1);
        lemma_u64_as_signed(rs2);
    }
    let q = (rs1 as u32) / (rs2 as u32);
    sext(q as u64, 31)
}

fn rem_word_unsigned(rs1: u64, rs2: u64) -> (r: u64)
    requires
        (rs2 as int) % two32() != 0,
    ensures
        r == sext_spec((((rs1 as int) % two32()) % ((rs2 as int) % two32())) as u64, 31),
{
    proof {
        lemma_u64_as_signed(rs1);
        lemma_u64_as_signed(rs2);
    }
    let q = (rs1 as u32) % (rs2 as u32);
    sext(q as u64, 31)
}

/// The multiply-divide unit: it computes an instruction's result and hands the
/// instruction on after a fixed delay.
pub struct MUL {
    output: DelayFIFO<Instr>,
}

impl MUL {
    /// The unit's output queue.
    pub closed spec fn view(&self) -> FifoView<Instr> {
        self.output.view()
    }

    /// The output queue is well formed.
    pub closed spec fn queue_wf(&self) -> bool {
        self.output.wf()
    }

    /// The unit's invariant: a well-formed one-entry queue that answers the default
    /// instruction when empty.
    pub open spec fn wf(&self) -> bool {
        &&& self.queue_wf()
        &&& self.view().cap == 1
        &&& self.view().options.len() == 1
        &&& self.view().idle == instr_default()
    }

    /// A unit whose results wait `delay` cycles.
    pub fn new(delay: u16) -> (r: Self)
        ensures
            r.wf(),
            r.view().items.len() == 0,
            r.view().delays.len() == 0,
            r.view().rdy,
            r.view().options == seq![delay],
    {
        let output = DelayFIFO::new(1, vec![delay]);
        MUL { output }
    }

    fn calc(&self, instr: &Instr) -> (r: u64)
        requires
            is_muldiv_op(instr.decoded.opcode_type),
        ensures
            r == mul_result(*instr),
    {
        let rs1 = instr.rs1_data;
        let rs2 = instr.rs2_data;
        proof {
            lemma_u64_as_signed(rs2);
        }
        match instr.decoded.opcode_type {
            InstrOpcode::MUL => mul_low(rs1, rs2),
            InstrOpcode::MULW => mul_word(rs1, rs2),
            InstrOpcode::MULH => mul_high_signed(rs1, rs2),
            InstrOpcode::MULHSU => mul_high_signed_unsigned(rs1, rs2),
            InstrOpcode::MULHU => mul_high_unsigned(rs1, rs2),
            InstrOpcode::DIV => {
                if rs2 != 0 {
                    div_signed(rs1, rs2)
                } else {
                    0xffff_ffff_ffff_ffff
                }
            },
            InstrOpcode::DIVW => {
                if rs2 as i32 != 0 {
                    div_word(rs1, rs2)
                } else {
                    0xffff_ffff_ffff_ffff
                }
            },
            InstrOpcode::DIVU => {
                if rs2 != 0 {
                    rs1 / rs2
                } else {
                    0xffff_ffff_ffff_ffff
                }
            },
            InstrOpcode::DIVUW => {
                if rs2 as u32 != 0 {
                    div_word_unsigned(rs1, rs2)
                } else {
                    0xffff_ffff_ffff_ffff
                }
            },
            InstrOpcode::REM => {
                if rs2 != 0 {
                    rem_signed(rs1, rs2)
                } else {
                    rs1
                }
            },
            InstrOpcode::REMW => {
                if rs2 as i32 != 0 {
                    rem_word(rs1, rs2)
                } else {
                    rs1
                }
            },
            InstrOpcode::REMU => {
                if rs2 != 0 {
                    rs1 % rs2
                } else {
                    rs1
                }
            },
            _ => {
                if rs2 as u32 != 0 {
                    rem_word_unsigned(rs1, rs2)
                } else {
                    rs1
                }
            },
        }
    }
}

impl Interface for MUL {
    type Input = Instr;

    type Output = Instr;

    open spec fn inv(&self) -> bool {
        self.wf()
    }

    /// An instruction the unit takes must name one of its operations.
    open spec fn accepts(&self, req: (bool, Instr)) -> bool {
        self.view().rdy && req.0 && req.1.decoded.is_mul && !req.1.exception_vld
            ==> is_muldiv_op(req.1.decoded.opcode_type)
    }

    /// When the unit last reported ready and a valid multiply-divide instruction is
    /// offered, executes it and queues it; otherwise nothing changes.
    fn req_i(&mut self, req: (bool, Instr))
        ensures
            final(self).view() == mul_req(old(self).view(), req),
    {
        if self.output.rdy_o() && req.0 && req.1.decoded.is_mul {
            let mut instr = req.1;
            if !instr.exception_vld {
                let val = self.calc(&instr);
                instr.wb_vld = true;
                instr.wb_data = val;
                instr.executed = true;
            }
            self.output.req_i((true, instr));
        }
    }

    fn rdy_o(&self) -> (r: bool)
        ensures
            r == self.view().rdy,
    {
        self.output.rdy_o()
    }

    fn resp_o(&self) -> (r: (bool, Instr))
        ensures
            r == fifo_resp(self.view()),
    {
        self.output.resp_o()
    }

    fn rdy_i(&mut self, rdy: bool)
        ensures
            final(self).view() == fifo_pop(old(self).view(), rdy),
    {
        self.output.rdy_i(rdy);
    }
}

impl CtrlSignals for MUL {
    open spec fn ctrl_inv(&self) -> bool {
        self.wf()
    }

    open spec fn tik_ok(&self) -> bool {
        true
    }

    fn tik(&mut self)
        ensures
            final(self).view() == fifo_tik(old(self).view()),
    {
        self.output.tik();
    }

    fn rst(&mut self, rst: bool)
        ensures
            final(self).view() == fifo_rst(old(self).view(), rst),
    {
        self.output.rst(rst);
    }

    fn flush(&mut self, rst: bool)
        ensures
            final(self).view() == fifo_rst(old(self).view(), rst),
    {
        self.output.flush(rst);
    }
}

} // verus!
