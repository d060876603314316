use rshehe::backend::FakeBackend;
use rshehe::backend::fake_lsu::FakeLSU;
use rshehe::backend::mul::MUL;
use rshehe::bpu::btb::BTB;
use rshehe::bpu::pht::PFSM;
use rshehe::bpu::BPU;
use rshehe::buffers::fifo::DelayFIFO;
use rshehe::buffers::plru::BufPLRU;
use rshehe::frontend::fetch1::Fetch1;
use rshehe::frontend::Frontend;
use rshehe::instr::decoded_instr::DecodedInstr;
use rshehe::instr::intsr_type::InstrOpcode;
use rshehe::instr::Instr;
use rshehe::interface::CtrlSignals;
use rshehe::interface::Interface;
use rshehe::memory::memory::LoadError;
use rshehe::memory::memory::Memory;
use rshehe::memory::regfiles::ARF;
use rshehe::memory::regfiles::CSRF;
use rshehe::utils::sext;
use rshehe::utils::signed_less_than;
use rshehe::utils::sra32;
use rshehe::utils::sra64;
use rshehe::HeHeCore;

fn mul_result(op: InstrOpcode, rs1: u64, rs2: u64) -> u64 {
    let mut mul = MUL::new(0);
    let mut instr = Instr::new(0);
    instr.decoded.is_mul = true;
    instr.decoded.opcode_type = op;
    instr.rs1_data = rs1;
    instr.rs2_data = rs2;
    mul.req_i((true, instr));
    let r = mul.resp_o();
    assert!(r.0);
    assert!(r.1.wb_vld && r.1.executed);
    r.1.wb_data
}

#[test]
fn fifo_entry_waits_its_delay() {
    let mut fifo = DelayFIFO::<u64>::new(2, vec![3]);
    fifo.req_i((true, 7));
    for _i in 0..3 {
        assert_eq!(fifo.resp_o().0, false);
        fifo.tik();
    }
    assert_eq!(fifo.resp_o(), (true, 7));
    fifo.tik();
    assert_eq!(fifo.resp_o(), (true, 7));
}

#[test]
fn fifo_keeps_order() {
    let mut fifo = DelayFIFO::<u64>::new(2, vec![1]);
    fifo.req_i((true, 10));
    fifo.req_i((true, 20));
    fifo.tik();
    assert_eq!(fifo.resp_o(), (true, 10));
    fifo.rdy_i(true);
    assert_eq!(fifo.resp_o(), (true, 20));
    fifo.rdy_i(true);
    assert_eq!(fifo.resp_o().0, false);
}

#[test]
fn fifo_full_refuses_and_reset_empties() {
    let mut fifo = DelayFIFO::<u64>::new(1, vec![0]);
    fifo.req_i((true, 1));
    assert!(fifo.rdy_o());
    fifo.req_i((true, 2));
    assert!(!fifo.rdy_o());
    assert_eq!(fifo.resp_o(), (true, 1));
    fifo.rst(true);
    assert!(fifo.rdy_o());
    assert_eq!(fifo.resp_o().0, false);
}

#[test]
fn arf_read_after_write() {
    let mut arf = ARF::new();
    arf.set(5, 0x1234);
    arf.set(6, 0x5678);
    assert_eq!(arf.get(5), 0x1234);
    assert_eq!(arf.get(6), 0x5678);
    arf.set(5, 0x9);
    assert_eq!(arf.get(5), 0x9);
    assert_eq!(arf.get(6), 0x5678);
}

#[test]
fn arf_register_zero_reads_zero() {
    let mut arf = ARF::new();
    arf.set(0, 0xffff);
    assert_eq!(arf.get(0), 0);
    arf.set_busy(0, true);
    assert_eq!(arf.get_busy(0), false);
    arf.set_busy(3, true);
    assert_eq!(arf.get_busy(3), true);
    arf.set_busy(3, false);
    assert_eq!(arf.get_busy(3), false);
}

#[test]
fn csrf_read_after_write() {
    let mut csrf = CSRF::new();
    csrf.set(0x300, 0x1800);
    assert_eq!(csrf.get(0x300), 0x1800);
    assert_eq!(csrf.get(0x301), 0);
    csrf.set_busy(0x300, true);
    assert!(csrf.get_busy(0x300));
    assert!(!csrf.get_busy(0x301));
}

#[test]
fn memory_load_after_store_widths() {
    let mut mem = Memory::new();
    mem.sd(0x100, 0x8877_6655_4433_2211);
    assert_eq!(mem.ld(0x100), 0x8877_6655_4433_2211);
    assert_eq!(mem.lwu(0x104), 0x8877_6655);
    assert_eq!(mem.lw(0x104), 0xffff_ffff_8877_6655);
    assert_eq!(mem.lhu(0x106), 0x8877);
    assert_eq!(mem.lh(0x106), 0xffff_ffff_ffff_8877);
    assert_eq!(mem.lbu(0x107), 0x88);
    assert_eq!(mem.lb(0x107), 0xffff_ffff_ffff_ff88);
    assert_eq!(mem.lb(0x100), 0x11);
    mem.sb(0x103, 0xaa);
    assert_eq!(mem.ld(0x100), 0x8877_6655_aa33_2211);
    mem.sh(0x100, 0x1_beef);
    assert_eq!(mem.lhu(0x100), 0xbeef);
    assert_eq!(mem.lbu(0x102), 0x33);
}

#[test]
fn memory_addresses_wrap() {
    let mut mem = Memory::new();
    mem.sw(0x8000_1000, 1);
    assert_eq!(mem.lw(0x1000), 1);
    assert_eq!(mem.lw(0x4000_1000), 1);
}

#[test]
fn load_hex_reads_back() {
    let mut mem = Memory::new();
    let lines = vec![
        String::from("00112233445566778899AABBCCDDEEFF"),
        String::from("0f0e0d0c0b0a09080706050403020100"),
    ];
    assert_eq!(mem.load_hex_lines(&lines, 0x40), Ok(()));
    assert_eq!(mem.lbu(0x40), 0xff);
    assert_eq!(mem.lbu(0x4f), 0x00);
    assert_eq!(mem.ld(0x40), 0x8899_aabb_ccdd_eeff);
    assert_eq!(mem.ld(0x48), 0x0011_2233_4455_6677);
    assert_eq!(mem.lbu(0x50), 0x00);
    assert_eq!(mem.lbu(0x5f), 0x0f);
    assert_eq!(mem.lbu(0x3f), 0);
    assert_eq!(mem.lbu(0x60), 0);
}

#[test]
fn load_hex_rejects_bad_line() {
    let mut mem = Memory::new();
    let lines = vec![
        String::from("00000000000000000000000000000000"),
        String::from("0000000000000000000000000000000g"),
    ];
    assert_eq!(mem.load_hex_lines(&lines, 0), Err(LoadError::InvalidHexLine(1)));
    let short = vec![String::from("0011")];
    assert_eq!(mem.load_hex_lines(&short, 0), Err(LoadError::InvalidHexLine(0)));
    let odd = vec![String::from("000000000000000000000000000000000")];
    assert_eq!(mem.load_hex_lines(&odd, 0), Err(LoadError::InvalidHexLine(0)));
}

#[test]
fn load_hex_rejects_overflow() {
    let mut mem = Memory::new();
    let lines = vec![
        String::from("00000000000000000000000000000001"),
        String::from("00000000000000000000000000000002"),
    ];
    assert_eq!(mem.load_hex_lines(&lines, 0x3fff_fff0), Err(LoadError::OutOfMemory(1)));
    assert_eq!(mem.lbu(0x3fff_fff0), 1);
}

#[test]
fn core_starts_clean() {
    let core = HeHeCore::new();
    assert_eq!(core.read_from_host(), 0);
    assert!(!core.test_done());
}

#[test]
fn core_load_hex_errors() {
    let mut core = HeHeCore::new();
    let lines = vec![String::from("xyz")];
    assert_eq!(core.load_hex(&lines), Err(LoadError::InvalidHexLine(0)));
}

#[test]
fn pfsm_counter_saturates() {
    let mut fsm: PFSM = Default::default();
    for _i in 0..5 {
        fsm.branch(true);
    }
    assert!(fsm.predict());
    fsm.branch(false);
    assert!(fsm.predict());
    fsm.branch(false);
    assert!(!fsm.predict());
    for _i in 0..5 {
        fsm.branch(false);
    }
    fsm.branch(true);
    assert!(!fsm.predict());
    fsm.rst(true);
    assert!(!fsm.predict());
    fsm.branch(true);
    assert!(fsm.predict());
}

#[test]
fn plru_insert_then_get() {
    let mut plru = BufPLRU::<u64, u64>::new(4);
    assert_eq!(plru.get(7), (false, 0));
    plru.insert((7, 70));
    assert_eq!(plru.get(7), (true, 70));
    plru.insert((8, 80));
    assert_eq!(plru.get(8), (true, 80));
    plru.rst(true);
    assert_eq!(plru.get(8).0, false);
}

#[test]
fn btb_records_targets() {
    let mut btb = BTB::new(4, 8, 2);
    assert_eq!(btb.predict(0x8000_0010).0, false);
    btb.branch(0x8000_0010, 0x8000_0100);
    assert_eq!(btb.predict(0x8000_0010), (true, 0x8000_0100));
    btb.rst(true);
    assert_eq!(btb.predict(0x8000_0010).0, false);
}

#[test]
fn bpu_needs_taken_and_target() {
    let mut bpu = BPU::new(2, 8, 4, 2, 2, 2, false, PFSM::default());
    assert_eq!(bpu.predict(0x40).0, false);
    bpu.branch(0x40, true, 0x80);
    assert_eq!(bpu.predict(0x40).1, 0x80);
}

#[test]
fn fetch1_redirect_wins() {
    let mut fetch1 = Fetch1::new(4);
    let taken = fetch1.pc_i(vec![(true, 0x8000_0100), (false, 0), (true, 0x8000_0004), (true, 0x8000_0000)]);
    assert_eq!(taken, vec![true, false, false, false]);
    fetch1.tik();
    assert_eq!(fetch1.resp_o().1.pc, 0x8000_0100);
}

#[test]
fn frontend_fetches_in_sequence() {
    let mut mem = Memory::new();
    let lines = vec![String::from("00000013000000130000001300000013"); 4];
    assert_eq!(mem.load_hex_lines(&lines, 0x8000_0000), Ok(()));
    let mut frontend = Frontend::new();
    let mut pcs = Vec::new();
    for _i in 0..8 {
        frontend.tik(&mem);
        let r = frontend.resp_o();
        if r.0 {
            pcs.push(r.1.pc);
            assert_eq!(r.1.decoded.opcode_type, InstrOpcode::ADDI);
            frontend.rdy_i(true);
        }
    }
    assert_eq!(pcs[0], 0x8000_0000);
    for k in 1..pcs.len() {
        assert_eq!(pcs[k], pcs[k - 1] + 4);
    }
}

#[test]
fn mul_products() {
    assert_eq!(mul_result(InstrOpcode::MUL, 3, 0xffff_ffff_ffff_ffff), 0xffff_ffff_ffff_fffd);
    assert_eq!(mul_result(InstrOpcode::MULH, 0xffff_ffff_ffff_ffff, 0xffff_ffff_ffff_ffff), 0);
    assert_eq!(mul_result(InstrOpcode::MULHU, 0xffff_ffff_ffff_ffff, 0xffff_ffff_ffff_ffff), 0xffff_ffff_ffff_fffe);
    assert_eq!(mul_result(InstrOpcode::MULHSU, 0xffff_ffff_ffff_ffff, 0xffff_ffff_ffff_ffff), 0xffff_ffff_ffff_ffff);
    assert_eq!(mul_result(InstrOpcode::MULW, 0x7fff_ffff, 2), 0xffff_ffff_ffff_fffe);
}

#[test]
fn mul_divisions() {
    assert_eq!(mul_result(InstrOpcode::DIV, 0xffff_ffff_ffff_fff9, 2), 0xffff_ffff_ffff_fffd);
    assert_eq!(mul_result(InstrOpcode::REM, 0xffff_ffff_ffff_fff9, 2), 0xffff_ffff_ffff_ffff);
    assert_eq!(mul_result(InstrOpcode::DIV, 5, 0), 0xffff_ffff_ffff_ffff);
    assert_eq!(mul_result(InstrOpcode::REM, 5, 0), 5);
    assert_eq!(mul_result(InstrOpcode::DIV, 0x8000_0000_0000_0000, 0xffff_ffff_ffff_ffff), 0x8000_0000_0000_0000);
    assert_eq!(mul_result(InstrOpcode::REM, 0x8000_0000_0000_0000, 0xffff_ffff_ffff_ffff), 0);
    assert_eq!(mul_result(InstrOpcode::DIVU, 7, 2), 3);
    assert_eq!(mul_result(InstrOpcode::REMU, 7, 2), 1);
    assert_eq!(mul_result(InstrOpcode::DIVW, 0xffff_ffff_8000_0000, 0xffff_ffff), 0xffff_ffff_8000_0000);
    assert_eq!(mul_result(InstrOpcode::REMW, 0x1_0000_0007, 0x2), 1);
    assert_eq!(mul_result(InstrOpcode::DIVUW, 0xffff_ffff_ffff_fffe, 2), 0x7fff_ffff);
    assert_eq!(mul_result(InstrOpcode::REMUW, 0xffff_ffff, 0x1_0000_0000), 0xffff_ffff);
    assert_eq!(mul_result(InstrOpcode::REMUW, 0xffff_ffff, 0x1_0000_0002), 1);
}

#[test]
fn mul_div_rem_identity() {
    let cases: [(u64, u64); 5] = [
        (0xffff_ffff_ffff_fff9, 2),
        (100, 7),
        (0x8000_0000_0000_0000, 0xffff_ffff_ffff_ffff),
        (0x1234_5678_9abc_def0, 0xffff_ffff_ffff_fff3),
        (3, 0x8000_0000_0000_0000),
    ];
    for &(a, b) in cases.iter() {
        let q = mul_result(InstrOpcode::DIV, a, b);
        let r = mul_result(InstrOpcode::REM, a, b);
        assert_eq!(q.wrapping_mul(b).wrapping_add(r), a);
        let qu = mul_result(InstrOpcode::DIVU, a, b);
        let ru = mul_result(InstrOpcode::REMU, a, b);
        assert_eq!(qu.wrapping_mul(b).wrapping_add(ru), a);
    }
}

#[test]
fn utils_exact_values() {
    assert!(signed_less_than(0xffff_ffff_ffff_ffff, 0));
    assert!(!signed_less_than(0, 0xffff_ffff_ffff_ffff));
    assert!(signed_less_than(0xffff_ffff_ffff_fffe, 0xffff_ffff_ffff_ffff));
    assert!(signed_less_than(1, 2));
    assert!(!signed_less_than(2, 2));
    assert_eq!(sext(0x800, 11), 0xffff_ffff_ffff_f800);
    assert_eq!(sext(0xffff_f7ff, 11), 0x7ff);
    assert_eq!(sra64(0x8000_0000_0000_0000, 4), 0xf800_0000_0000_0000);
    assert_eq!(sra64(0x8000_0000_0000_0000, 64), 0x8000_0000_0000_0000);
    assert_eq!(sra64(0x4000_0000_0000_0000, 2), 0x1000_0000_0000_0000);
    assert_eq!(sra32(0x8000_0000, 31), 0xffff_ffff);
    assert_eq!(sra32(0x4000_0000, 1), 0x2000_0000);
}

#[test]
fn decoder_fields() {
    // addi x1, x2, -1
    let d = DecodedInstr::new(0xfff10093);
    assert_eq!(d.opcode_type, InstrOpcode::ADDI);
    assert_eq!(d.rd, 1);
    assert_eq!(d.rs1, 2);
    assert_eq!(d.immi, 0xfff);
    assert!(d.is_alu && !d.illegale_instr);
    // sd x5, 8(x6)
    let d = DecodedInstr::new(0x00533423);
    assert_eq!(d.opcode_type, InstrOpcode::SD);
    assert!(d.is_st);
    assert_eq!(d.imms, 8);
    // an all-zero word is not an instruction
    let d = DecodedInstr::new(0);
    assert!(d.illegale_instr);
}

#[test]
fn instr_life_cycle() {
    let mut i = Instr::new(0x8000_0040);
    assert!(i.pc_vld && !i.raw_vld && !i.done);
    i.fetch(0x00a00093);
    assert!(i.raw_vld);
    assert_eq!(i.raw, 0x00a00093);
    i.decode(DecodedInstr::new(i.raw));
    assert!(i.decoded_vld);
    assert_eq!(i.decoded.opcode_type, InstrOpcode::ADDI);
    i.dispatch(3, 4);
    assert!(i.reg_data_vld);
    assert_eq!((i.rs1_data, i.rs2_data), (3, 4));
    i.exec_done(true, 13);
    assert_eq!((i.wb_vld, i.wb_data), (true, 13));
    i.exception(2);
    assert_eq!((i.exception_vld, i.ecause), (true, 2));
    i.finish();
    assert!(i.done);
    assert_eq!(i.pc, 0x8000_0040);
}

#[test]
fn memory_tik_sets_done() {
    let mut mem = Memory::new();
    assert!(!mem.test_done());
    mem.sw(0x8000_1000, 1);
    mem.tik();
    assert!(mem.test_done());
}

#[test]
fn lsu_adds_offsets() {
    let mut mem = Memory::new();
    let mut lsu = FakeLSU::new();
    // sd x2, -8(x1) with x1 = 0x108
    let mut st = Instr::new(0);
    st.decoded.is_st = true;
    st.decoded.opcode_type = InstrOpcode::SD;
    st.decoded.imms = 0xff8;
    st.rs1_data = 0x108;
    st.rs2_data = 0x1122_3344_5566_7788;
    lsu.req_i((true, st), &mut mem);
    assert_eq!(mem.ld(0x100), 0x1122_3344_5566_7788);
    lsu.tik();
    lsu.rdy_i(true);
    // lbu x14, 7(x1) with x1 = 0x100
    let mut ld = Instr::new(0);
    ld.decoded.is_ld = true;
    ld.decoded.opcode_type = InstrOpcode::LBU;
    ld.decoded.immi = 7;
    ld.rs1_data = 0x100;
    lsu.req_i((true, ld), &mut mem);
    lsu.tik();
    assert_eq!(lsu.resp_o(), (true, Instr { wb_vld: true, wb_data: 0x11, ..ld }));
}

#[test]
fn cycle_ok_stops_at_fetch_past_memory_end() {
    // lui x1, 0xc0000; addi x1, x1, -2; jalr x0, 0(x1); nop
    let lines = vec!["0000001300008067ffe08093c00000b7".to_string()];
    let mut core = HeHeCore::new();
    assert_eq!(core.load_hex(&lines), Ok(()));
    let mut stopped = false;
    for _i in 0..100 {
        if !core.cycle_ok() {
            stopped = true;
            break;
        }
        core.tik();
    }
    assert!(stopped);
}

#[test]
fn frontend_first_instruction_on_third_cycle() {
    let mut mem = Memory::new();
    // jal x0, 0x100 at the start address, then nops
    let lines = vec![String::from("0000001300000013000000131000006f")];
    assert_eq!(mem.load_hex_lines(&lines, 0x8000_0000), Ok(()));
    let mut frontend = Frontend::new();
    assert!(!frontend.resp_o().0);
    for _round in 0..2 {
        frontend.rdy_i(true);
        frontend.branch_i((false, 0));
        frontend.tik(&mem);
        assert!(!frontend.resp_o().0);
    }
    frontend.rdy_i(true);
    frontend.branch_i((false, 0));
    frontend.tik(&mem);
    let r = frontend.resp_o();
    assert!(r.0);
    assert_eq!(r.1.pc, 0x8000_0000);
    assert_eq!(r.1.raw, 0x1000_006f);
    assert!(r.1.decoded_vld);
    assert!(r.1.decoded.is_branch);
    assert_eq!(r.1.decoded.opcode_type, InstrOpcode::JAL);
    // the decode stage rests for one cycle after its first instruction
    frontend.rdy_i(true);
    frontend.branch_i((false, 0));
    frontend.tik(&mem);
    assert!(!frontend.resp_o().0);
    frontend.branch_i((false, 0));
    frontend.tik(&mem);
    let r = frontend.resp_o();
    assert!(r.0);
    assert_eq!(r.1.pc, 0x8000_0004);
}

#[test]
fn frontend_redirect_drops_in_flight() {
    let mut mem = Memory::new();
    // addi x1, x0, 1 at 0x8000_0100 and addi x2, x0, 2 at 0x8000_0104
    let mut lines = vec![String::from("00000013000000130000001300000013"); 16];
    lines.push(String::from("00000013000000130020011300100093"));
    assert_eq!(mem.load_hex_lines(&lines, 0x8000_0000), Ok(()));
    let mut frontend = Frontend::new();
    for _i in 0..6 {
        frontend.rdy_i(true);
        frontend.branch_i((false, 0));
        frontend.tik(&mem);
    }
    frontend.branch_i((true, 0x8000_0100));
    frontend.tik(&mem);
    assert!(!frontend.resp_o().0);
    frontend.branch_i((false, 0));
    frontend.tik(&mem);
    assert!(!frontend.resp_o().0);
    frontend.tik(&mem);
    let r = frontend.resp_o();
    assert!(r.0);
    assert_eq!(r.1.pc, 0x8000_0100);
    assert_eq!(r.1.raw, 0x0010_0093);
    frontend.rdy_i(true);
    frontend.tik(&mem);
    let r = frontend.resp_o();
    assert!(r.0);
    assert_eq!(r.1.pc, 0x8000_0104);
    assert_eq!(r.1.raw, 0x0020_0113);
}

#[test]
fn store_of_loaded_doubleword_changes_nothing() {
    let mut mem = Memory::new();
    mem.sd(0x40, 0x0123_4567_89ab_cdef);
    mem.sb(0x48, 0x5a);
    let before: Vec<u64> = (0x38..0x50).map(|a| mem.lbu(a)).collect();
    let v = mem.ld(0x41);
    mem.sd(0x41, v);
    let after: Vec<u64> = (0x38..0x50).map(|a| mem.lbu(a)).collect();
    assert_eq!(before, after);
    assert_eq!(mem.ld(0x41), v);
}

#[test]
fn btb_single_slot_keeps_latest_target() {
    let mut btb = BTB::new(1, 8, 2);
    btb.branch(0x8000_0010, 0x8000_0100);
    btb.branch(0x8000_0010, 0x8000_0200);
    assert_eq!(btb.predict(0x8000_0010), (true, 0x8000_0200));
}

#[test]
fn backend_no_flush_means_no_redirect() {
    let mut arf = ARF::new();
    let mut mem = Memory::new();
    let mut backend = FakeBackend::new();
    for _i in 0..3 {
        assert!(!backend.flush_o());
        assert_eq!(backend.branch_o(), (false, 0));
        backend.tik(&mut mem, &mut arf);
    }
}
