use rshehe::backend::alu::ALU;
use rshehe::backend::bru::BRU;
use rshehe::backend::csr::CSR;
use rshehe::backend::fake_lsu::FakeLSU;
use rshehe::backend::fake_rcu::FakeRCU;
use rshehe::backend::mul::MUL;
use rshehe::backend::FakeBackend;
use rshehe::bpu::gshare::GShare;
use rshehe::bpu::pht::PFSM;
use rshehe::buffers::fifo::DelayFIFO;
use rshehe::buffers::mux::Mux;
use rshehe::buffers::plru::BufPLRU;
use rshehe::frontend::decode::Decode;
use rshehe::frontend::fetch1::Fetch1;
use rshehe::frontend::fetch2::Fetch2;
use rshehe::frontend::Frontend;
use rshehe::instr::decoded_instr::DecodedInstr;
use rshehe::instr::intsr_type::InstrOpcode;
use rshehe::instr::intsr_type::InstrType;
use rshehe::instr::Instr;
use rshehe::interface::CtrlSignals;
use rshehe::interface::Interface;
use rshehe::memory::memory::Memory;
use rshehe::memory::regfiles::ARF;

/// The first line of the `add` test image: `j reset_vector`, `csrr t5, mcause`,
/// `li t6, 8`, and a word the tests do not read.
fn add_hex_head() -> Vec<String> {
    vec![String::from("0000000000800f9334202f7305c0006f")]
}

#[test]
fn basic_alu_test() {
    let mut alu = ALU::new(1);
    let mut instr = Instr::new(0x0);

    // add
    instr.decoded.is_alu = true;
    instr.decoded.opcode_type = InstrOpcode::ADD;
    instr.rs1_data = 0x1;
    instr.rs2_data = 0x2;
    alu.req_i((true, instr));
    alu.tik();
    assert_eq!(alu.resp_o().0, true);
    assert_eq!(alu.resp_o().1.wb_vld, true);
    assert_eq!(alu.resp_o().1.wb_data, 0x1 + 0x2);
    alu.rdy_i(true);

    // addi without sext
    instr.decoded.opcode_type = InstrOpcode::ADDI;
    instr.rs1_data = 0x1;
    instr.decoded.immi = 0x02;
    alu.req_i((true, instr));
    alu.tik();
    assert_eq!(alu.resp_o().0, true);
    assert_eq!(alu.resp_o().1.wb_vld, true);
    assert_eq!(alu.resp_o().1.wb_data, 0x1 + 0x2);
    alu.rdy_i(true);

    // addi with sext
    instr.decoded.opcode_type = InstrOpcode::ADDI;
    instr.rs1_data = 0x1;
    instr.decoded.immi = 0x800;
    alu.req_i((true, instr));
    alu.tik();
    assert_eq!(alu.resp_o().0, true);
    assert_eq!(alu.resp_o().1.wb_vld, true);
    assert_eq!(alu.resp_o().1.wb_data, 0xffff_ffff_ffff_f801);
    alu.rdy_i(true);

    // addw
    instr.decoded.opcode_type = InstrOpcode::ADDW;
    instr.rs1_data = 0x1;
    instr.rs2_data = 0x1000_0000_0000_0002;
    alu.req_i((true, instr));
    alu.tik();
    assert_eq!(alu.resp_o().0, true);
    assert_eq!(alu.resp_o().1.wb_vld, true);
    assert_eq!(alu.resp_o().1.wb_data, 0x3);
    alu.rdy_i(true);

    // SLLIW
    instr.decoded.opcode_type = InstrOpcode::SLLIW;
    instr.rs1_data = 0x8000_0001;
    instr.decoded.shamt = 0x1;
    alu.req_i((true, instr));
    alu.tik();
    assert_eq!(alu.resp_o().0, true);
    assert_eq!(alu.resp_o().1.wb_vld, true);
    assert_eq!(alu.resp_o().1.wb_data, 0x02);
    alu.rdy_i(true);

    // SLTI
    instr.decoded.opcode_type = InstrOpcode::SLTI;
    instr.rs1_data = 0x1;
    instr.decoded.immi = 0x2;
    alu.req_i((true, instr));
    alu.tik();
    assert_eq!(alu.resp_o().0, true);
    assert_eq!(alu.resp_o().1.wb_vld, true);
    assert_eq!(alu.resp_o().1.wb_data, 1);
    alu.rdy_i(true);

    // SLTI
    instr.decoded.opcode_type = InstrOpcode::SLTI;
    instr.rs1_data = 0x1;
    instr.decoded.immi = 0x802;
    alu.req_i((true, instr));
    alu.tik();
    assert_eq!(alu.resp_o().0, true);
    assert_eq!(alu.resp_o().1.wb_vld, true);
    assert_eq!(alu.resp_o().1.wb_data, 0);
    alu.rdy_i(true);

    // SRA
    instr.decoded.opcode_type = InstrOpcode::SRA;
    instr.rs1_data = 0x8000_0000_0000_0000;
    instr.rs2_data = 1;
    alu.req_i((true, instr));
    alu.tik();
    assert_eq!(alu.resp_o().0, true);
    assert_eq!(alu.resp_o().1.wb_vld, true);
    assert_eq!(alu.resp_o().1.wb_data, 0xc000_0000_0000_0000);
    alu.rdy_i(true);
}

#[test]
fn basic_bru_test() {
    let mut bru = BRU::new(1);
    let mut instr = Instr::new(0x8000_0000);

    // beq succ predict succ
    instr.decoded.is_branch = true;
    instr.predicted_direction = true;
    instr.predicted_pc = 0x8000_0010;
    instr.decoded.opcode_type = InstrOpcode::BEQ;
    instr.decoded.immb = 0x10;
    instr.rs1_data = 0x1;
    instr.rs2_data = 0x1;
    instr.wb_vld = false;
    bru.req_i((true, instr));
    bru.tik();
    assert_eq!(bru.resp_o().0, true);
    assert_eq!(bru.resp_o().1.wb_vld, false);
    assert_eq!(bru.resp_o().1.predict_fail, false);
    bru.rdy_i(true);

    // beq fail predict success
    instr.decoded.is_branch = true;
    instr.predicted_direction = false;
    instr.predicted_pc = 0x8000_0010;
    instr.decoded.opcode_type = InstrOpcode::BEQ;
    instr.decoded.immb = 0x10;
    instr.rs1_data = 0x1;
    instr.rs2_data = 0x2;
    instr.wb_vld = false;
    bru.req_i((true, instr));
    bru.tik();
    assert_eq!(bru.resp_o().0, true);
    assert_eq!(bru.resp_o().1.wb_vld, false);
    assert_eq!(bru.resp_o().1.predict_fail, false);
    bru.rdy_i(true);

    // beq succ predict success
    instr.decoded.is_branch = true;
    instr.predicted_direction = false;
    instr.predicted_pc = 0x8000_0010;
    instr.decoded.opcode_type = InstrOpcode::BEQ;
    instr.decoded.immb = 0x10;
    instr.rs1_data = 0x1;
    instr.rs2_data = 0x1;
    instr.wb_vld = false;
    bru.req_i((true, instr));
    bru.tik();
    assert_eq!(bru.resp_o().0, true);
    assert_eq!(bru.resp_o().1.wb_vld, false);
    assert_eq!(bru.resp_o().1.predict_fail, true);
    assert_eq!(bru.resp_o().1.branch_pc, 0x8000_0010);
    bru.rdy_i(true);

    // jalr predict success
    instr.decoded.is_branch = true;
    instr.predicted_direction = true;
    instr.predicted_pc = 0x8000_0010;
    instr.decoded.opcode_type = InstrOpcode::JALR;
    instr.decoded.immb = 0x10;
    instr.decoded.immi = 0x10;
    instr.rs1_data = 0x8000_0000;
    instr.rs2_data = 0x1;
    instr.wb_vld = false;
    instr.predict_fail = false;
    instr.branch_pc = 0;
    bru.req_i((true, instr));
    bru.tik();
    assert_eq!(bru.resp_o().0, true);
    assert_eq!(bru.resp_o().1.wb_vld, true);
    assert_eq!(bru.resp_o().1.wb_data, 0x8000_0004);
    assert_eq!(bru.resp_o().1.predict_fail, false);
    bru.rdy_i(true);

    // jal predict fail
    instr.decoded.is_branch = true;
    instr.predicted_direction = false;
    instr.predicted_pc = 0x8000_0010;
    instr.decoded.opcode_type = InstrOpcode::JALR;
    instr.decoded.immb = 0x10;
    instr.decoded.immj = 0x10;
    instr.rs1_data = 0x8000_0000;
    instr.rs2_data = 0x1;
    instr.wb_vld = false;
    instr.predict_fail = false;
    instr.branch_pc = 0;
    bru.req_i((true, instr));
    bru.tik();
    assert_eq!(bru.resp_o().0, true);
    assert_eq!(bru.resp_o().1.wb_vld, true);
    assert_eq!(bru.resp_o().1.wb_data, 0x8000_0004);
    assert_eq!(bru.resp_o().1.predict_fail, true);
    assert_eq!(bru.resp_o().1.branch_pc, 0x8000_0010);
    bru.rdy_i(true);
}

#[test]
fn basic_csr_test() {
    let mut csr = CSR::new(1);
    let mut instr = Instr::new(0x8000_0000);
    // csrci
    instr.decoded.is_csr = true;
    instr.decoded.opcode_type = InstrOpcode::CSRRWI;
    instr.decoded.zimm = 0x0f;
    instr.decoded.rd = 1;
    instr.decoded.rs1 = 1;
    instr.decoded.csr_re = true;
    instr.decoded.csr_we = true;
    instr.csr_data = 0xf0;
    csr.req_i((true, instr));
    csr.tik();
    assert_eq!(csr.resp_o().0, true);
    assert_eq!(csr.resp_o().1.wb_vld, true);
    assert_eq!(csr.resp_o().1.wb_data, 0xf0);
    csr.rdy_i(true);
}

#[test]
fn basic_fake_lsu_test_on_add_hex() {
    let mut mem = Memory::new();
    assert_eq!(mem.load_hex_lines(&add_hex_head(), 0), Ok(()));
    let mut fake_lsu = FakeLSU::new();
    let mut instr = Instr::new(0x0);

    // ld
    instr.decoded.is_ld = true;
    instr.decoded.is_st = false;
    instr.decoded.opcode_type = InstrOpcode::LB;
    instr.wb_vld = false;
    instr.rs1_data = 0x0;
    fake_lsu.req_i((true, instr), &mut mem);
    fake_lsu.tik();
    assert_eq!(fake_lsu.resp_o().0, true);
    assert_eq!(fake_lsu.resp_o().1.wb_vld, true);
    assert_eq!(fake_lsu.resp_o().1.wb_data, 0x6f);
    fake_lsu.rdy_i(true);

    // st
    instr.decoded.is_ld = false;
    instr.decoded.is_st = true;
    instr.decoded.opcode_type = InstrOpcode::SB;
    instr.wb_vld = false;
    instr.rs1_data = 0x0;
    instr.rs2_data = 0x2b;
    fake_lsu.req_i((true, instr), &mut mem);
    fake_lsu.tik();
    assert_eq!(fake_lsu.resp_o().0, true);
    assert_eq!(fake_lsu.resp_o().1.wb_vld, false);
    assert_eq!(mem.lb(0), 0x2b);
    fake_lsu.rdy_i(true);
}

#[test]
fn basic_fake_rcu_test() {
    let mut arf = ARF::new();
    let mut instr = Instr::new(0x8000_0000);
    let mut fake_rcu = FakeRCU::new(1, 1);

    // rcu get data
    arf.set(1, 0xf0);
    arf.set(2, 0x0f);
    instr.decoded.rs1 = 1;
    instr.decoded.rs2 = 2;
    instr.decoded.csr = 0;
    fake_rcu.req_i((true, instr));
    fake_rcu.tik();
    assert_eq!(fake_rcu.resp_o(&arf).0, true);
    assert_eq!(fake_rcu.resp_o(&arf).1.rs1_data, 0xf0);
    assert_eq!(fake_rcu.resp_o(&arf).1.rs2_data, 0x0f);
    fake_rcu.rdy_i(true, &mut arf);

    // rcu wb data
    instr.wb_vld = true;
    instr.wb_data = 0xdead_beaf;
    instr.decoded.rd = 3;
    instr.decoded.csr = 3;
    instr.decoded.is_csr = true;
    instr.predict_fail = true;
    instr.branch_pc = 0x8000_1000;
    assert_ne!(arf.get(3), 0xdead_beaf);
    let rdy = fake_rcu.commit(
        vec![(false, Default::default()), (true, instr), (false, Default::default()), (false, Default::default())],
        &mut arf,
    );
    assert_eq!(rdy, [false, true, false, false]);
    fake_rcu.tik();
    assert_eq!(arf.get(3), 0xdead_beaf);
    assert_eq!(fake_rcu.flush_o(), true);
    assert_eq!(fake_rcu.branch_o(), (true, 0x8000_1000));
    fake_rcu.tik();
    assert_ne!(fake_rcu.flush_o(), true);
    assert_ne!(fake_rcu.branch_o(), (true, 0x8000_1000));
}

#[test]
fn backend_store_load_trace() {
    let mut arf = ARF::new();
    let mut mem = Memory::new();
    let mut backend = FakeBackend::new();

    // addi 0xf -> arf[1]
    let mut instr = Instr::new(0x8000_0000);
    instr.decoded.is_alu = true;
    instr.decoded.opcode_type = InstrOpcode::ADDI;
    instr.decoded.instr_type = InstrType::I;
    instr.decoded.rs1 = 0;
    instr.decoded.rs2 = 1;
    instr.decoded.immi = 0xf;
    instr.decoded.rd = 0x1;
    backend.req_i((true, instr));
    backend.tik(&mut mem, &mut arf);

    // addi 0x1 -> arf[2]
    let mut instr = Instr::new(0x8000_0000);
    instr.decoded.is_alu = true;
    instr.decoded.opcode_type = InstrOpcode::ADDI;
    instr.decoded.rs1 = 0;
    instr.decoded.instr_type = InstrType::I;
    instr.decoded.immi = 0x1;
    instr.decoded.rd = 0x2;
    backend.req_i((true, instr));
    backend.tik(&mut mem, &mut arf);
    assert_ne!(0xf, arf.get(1));

    // sll rs1 << rs2 -> arf[3]
    let mut instr = Instr::new(0x8000_0000);
    instr.decoded.is_alu = true;
    instr.decoded.opcode_type = InstrOpcode::SLL;
    instr.decoded.instr_type = InstrType::R;
    instr.decoded.rs1 = 1;
    instr.decoded.rs2 = 2;
    instr.decoded.rd = 0x3;
    backend.req_i((true, instr));
    backend.tik(&mut mem, &mut arf);
    assert_eq!(0xf, arf.get(1));

    // sb arf[3] -> mem[arf[4] + 4]
    let mut instr = Instr::new(0x8000_0000);
    instr.decoded.is_st = true;
    instr.decoded.opcode_type = InstrOpcode::SB;
    instr.decoded.instr_type = InstrType::S;
    instr.decoded.rs1 = 4;
    instr.decoded.rs2 = 3;
    instr.decoded.imms = 4;
    backend.req_i((true, instr));
    backend.tik(&mut mem, &mut arf);
    assert_eq!(0x1, arf.get(2));

    // lb arf[4] <- mem[arf[0] + 4]
    let mut instr = Instr::new(0x8000_0000);
    instr.decoded.is_ld = true;
    instr.decoded.opcode_type = InstrOpcode::LB;
    instr.decoded.instr_type = InstrType::I;
    instr.decoded.rs1 = 0;
    instr.decoded.immi = 4;
    instr.decoded.rd = 0x4;
    backend.req_i((true, instr));
    backend.tik(&mut mem, &mut arf);
    // nop
    backend.tik(&mut mem, &mut arf);
    // nop
    backend.tik(&mut mem, &mut arf);
    assert_eq!(0xf << 0x1, arf.get(3));
    // nop
    backend.tik(&mut mem, &mut arf);
    // nop
    backend.tik(&mut mem, &mut arf);
    assert_eq!(0xf << 0x1, arf.get(4));

    // bne arf[1] arf[2]
    let mut instr = Instr::new(0x8000_0000);
    instr.decoded.is_branch = true;
    instr.decoded.opcode_type = InstrOpcode::BNE;
    instr.decoded.instr_type = InstrType::B;
    instr.decoded.rs1 = 1;
    instr.decoded.rs2 = 2;
    instr.decoded.immb = 0x123;
    instr.predicted_direction = false;
    backend.req_i((true, instr));
    backend.tik(&mut mem, &mut arf);
    // nop
    backend.tik(&mut mem, &mut arf);
    // nop
    backend.tik(&mut mem, &mut arf);
    assert_eq!(backend.branch_o(), (true, 0x8000_0123));
    assert_eq!(mem.lbu(4), 0x1e);
    assert_eq!(mem.lbu(0), 0);
}

#[test]
fn basic_backend_test() {
    let mut arf = ARF::new();
    let mut mem = Memory::new();
    let mut backend = FakeBackend::new();

    // addi 0xf -> arf[1]
    let mut instr = Instr::new(0x8000_0000);
    instr.decoded.is_alu = true;
    instr.decoded.opcode_type = InstrOpcode::ADDI;
    instr.decoded.instr_type = InstrType::I;
    instr.decoded.rs1 = 0;
    instr.decoded.rs2 = 1;
    instr.decoded.immi = 0xf;
    instr.decoded.rd = 0x1;
    backend.req_i((true, instr));
    backend.tik(&mut mem, &mut arf);

    // addi 0x1 -> arf[2]
    let mut instr = Instr::new(0x8000_0000);
    instr.decoded.is_alu = true;
    instr.decoded.opcode_type = InstrOpcode::ADDI;
    instr.decoded.rs1 = 0;
    instr.decoded.instr_type = InstrType::I;
    instr.decoded.immi = 0x1;
    instr.decoded.rd = 0x2;
    backend.req_i((true, instr));
    backend.tik(&mut mem, &mut arf);
    assert_ne!(0xf, arf.get(1));

    // sll rs1 << rs2 -> arf[3]
    let mut instr = Instr::new(0x8000_0000);
    instr.decoded.is_alu = true;
    instr.decoded.opcode_type = InstrOpcode::SLL;
    instr.decoded.instr_type = InstrType::R;
    instr.decoded.rs1 = 1;
    instr.decoded.rs2 = 2;
    instr.decoded.rd = 0x3;
    backend.req_i((true, instr));
    backend.tik(&mut mem, &mut arf);
    assert_eq!(0xf, arf.get(1));

    // sb arf[3] -> mem[arf[4]]
    let mut instr = Instr::new(0x8000_0000);
    instr.decoded.is_st = true;
    instr.decoded.opcode_type = InstrOpcode::SB;
    instr.decoded.instr_type = InstrType::S;
    instr.decoded.rs1 = 4;
    instr.decoded.rs2 = 3;
    backend.req_i((true, instr));
    backend.tik(&mut mem, &mut arf);
    assert_eq!(0x1, arf.get(2));

    // lb arf[4] <- mem[arf[0] + 3]
    let mut instr = Instr::new(0x8000_0000);
    instr.decoded.is_ld = true;
    instr.decoded.opcode_type = InstrOpcode::LB;
    instr.decoded.instr_type = InstrType::I;
    instr.decoded.rs1 = 0;
    instr.decoded.immi = 3;
    instr.decoded.rd = 0x4;
    backend.req_i((true, instr));
    backend.tik(&mut mem, &mut arf);
    // nop
    backend.tik(&mut mem, &mut arf);
    // nop
    backend.tik(&mut mem, &mut arf);
    assert_eq!(0xf << 0x1, arf.get(3));
    // nop
    backend.tik(&mut mem, &mut arf);
    // nop
    backend.tik(&mut mem, &mut arf);
    // Loads and stores add their offset to the base register, as the rv64ui
    // programs require: the store wrote address 0 and the load read address 3,
    // which still holds zero. (With the offset ignored, the load would read the
    // stored byte back.)
    assert_eq!(0, arf.get(4));
    assert_eq!(mem.lbu(0), 0xf << 0x1);
    assert_eq!(mem.lbu(3), 0);

    // bne arf[1] arf[2]
    let mut instr = Instr::new(0x8000_0000);
    instr.decoded.is_branch = true;
    instr.decoded.opcode_type = InstrOpcode::BNE;
    instr.decoded.instr_type = InstrType::B;
    instr.decoded.rs1 = 1;
    instr.decoded.rs2 = 2;
    instr.decoded.immb = 0x123;
    instr.predicted_direction = false;
    backend.req_i((true, instr));
    backend.tik(&mut mem, &mut arf);
    // nop
    backend.tik(&mut mem, &mut arf);
    // nop
    backend.tik(&mut mem, &mut arf);
    assert_eq!(backend.branch_o(), (true, 0x8000_0123));
}

#[test]
fn basic_mul_test() {
    let mut mul = MUL::new(1);
    let mut instr = Instr::new(0x0);
    instr.decoded.is_mul = true;
    instr.decoded.opcode_type = InstrOpcode::MUL;
    instr.rs1_data = 0x2;
    instr.rs2_data = 0x2;
    mul.req_i((true, instr));
    mul.tik();
    assert_eq!(mul.resp_o().0, true);
    assert_eq!(mul.resp_o().1.wb_vld, true);
    assert_eq!(mul.resp_o().1.wb_data, 0x2 * 0x2);
    mul.rdy_i(true);
}

#[test]
fn basic_gshare_tests() {
    let pfsm: PFSM = Default::default();
    let mut gshare = GShare::new(2, 2, 0, false, pfsm);
    gshare.branch(0x8000_0000, true);
    assert_eq!(gshare.history_cut(), 0b01);
    gshare.branch(0x8000_0000, false);
    assert_eq!(gshare.history_cut(), 0b10);
    gshare.branch(0x8000_0000, false);
    assert_eq!(gshare.history_cut(), 0b00);
    gshare.branch(0x8000_0000, true);
    assert_eq!(gshare.history_cut(), 0b01);
    gshare.branch(0x8000_0000, true);
    assert_eq!(gshare.history_cut(), 0b11);
}

#[test]
fn basic_pfsm_test() {
    let mut fsm: PFSM = Default::default();
    assert!(!fsm.predict()); // 01

    fsm.branch(true); // 10
    assert!(fsm.predict());

    fsm.branch(true); // 11
    assert!(fsm.predict());

    fsm.branch(true); // 11
    assert!(fsm.predict());

    fsm.branch(false); // 10
    assert!(fsm.predict());

    fsm.branch(false); // 01
    assert!(!fsm.predict());

    fsm.branch(true); // 10
    assert!(fsm.predict());

    fsm.branch(false); // 01
    assert!(!fsm.predict());

    fsm.branch(false); // 00
    assert!(!fsm.predict());

    fsm.branch(true); // 01
    assert!(!fsm.predict());

    fsm.branch(true); // 10
    assert!(fsm.predict());
}

#[test]
fn basic_mux_test() {
    let mut mux = Mux::<u32>::new(3, 2);

    mux.req_i(vec![(false, 1), (true, 2), (true, 3)]);
    mux.rdy_i(vec![true, true]);
    let correct_resp = vec![(true, 2), (true, 3)];
    let correct_rdy = vec![false, true, true];
    assert_eq!(mux.rdy_o(), correct_rdy);
    assert_eq!(mux.resp_o(), correct_resp);

    mux.req_i(vec![(false, 1), (true, 2), (false, 3)]);
    mux.rdy_i(vec![true, true]);
    let correct_resp = vec![(true, 2), (false, 0)];
    let correct_rdy = vec![false, true, false];
    assert_eq!(mux.rdy_o(), correct_rdy);
    assert_eq!(mux.resp_o(), correct_resp);

    mux.req_i(vec![(true, 1), (true, 2), (true, 3)]);
    mux.rdy_i(vec![true, true]);
    let correct_resp = vec![(true, 1), (true, 2)];
    let correct_rdy = vec![true, true, false];
    assert_eq!(mux.rdy_o(), correct_rdy);
    assert_eq!(mux.resp_o(), correct_resp);

    mux.req_i(vec![(false, 1), (true, 2), (false, 3)]);
    mux.rdy_i(vec![true, false]);
    let correct_resp = vec![(true, 2), (false, 0)];
    let correct_rdy = vec![false, true, false];
    assert_eq!(mux.rdy_o(), correct_rdy);
    assert_eq!(mux.resp_o(), correct_resp);
}

#[test]
fn basic_delay_fifo_test() {
    // 0 delay
    let mut fifo = DelayFIFO::<u32>::new(4, vec![0; 1]);
    fifo.req_i((true, 1));
    assert_eq!((true, 1), fifo.resp_o());
    fifo.rdy_i(true);
    assert_eq!(false, fifo.resp_o().0);

    // 1 delay
    let mut fifo = DelayFIFO::<u32>::new(4, vec![1; 1]);
    fifo.req_i((true, 1));
    assert_eq!(false, fifo.resp_o().0);
    fifo.tik();
    fifo.req_i((true, 2));
    assert_eq!((true, 1), fifo.resp_o());
    fifo.rdy_i(true);
    fifo.tik();
    assert_eq!((true, 2), fifo.resp_o());
    fifo.rdy_i(true);
    fifo.tik();
    assert_eq!(false, fifo.resp_o().0);

    // 5 delay
    let mut fifo = DelayFIFO::<u32>::new(4, vec![5; 1]);
    fifo.req_i((true, 1));
    for _i in 0..5 {
        assert_eq!(false, fifo.resp_o().0);
        fifo.tik();
    }
    assert_eq!((true, 1), fifo.resp_o());
    fifo.rdy_i(true);
    assert_eq!(false, fifo.resp_o().0);

    // vld-rdy hsk
    let mut fifo1 = DelayFIFO::<u32>::new(4, vec![1; 1]);
    let mut fifo2 = DelayFIFO::<u32>::new(4, vec![1; 1]);
    fifo1.req_i((true, 1));
    assert_eq!(false, fifo1.resp_o().0);
    assert_eq!(false, fifo2.resp_o().0);
    fifo1.tik();
    fifo2.tik();
    assert_eq!((true, 1), fifo1.resp_o());
    fifo2.req_i(fifo1.resp_o());
    fifo1.rdy_i(fifo2.rdy_o());
    assert_eq!(false, fifo2.resp_o().0);
    fifo1.tik();
    fifo2.tik();
    assert_eq!((true, 1), fifo2.resp_o());
    fifo2.rdy_i(true);

    // 1 delay
    let mut fifo = DelayFIFO::<u32>::new(4, vec![1; 1]);
    fifo.req_i((true, 1));
    assert_eq!(false, fifo.resp_o().0);
    fifo.tik();
    assert_eq!((true, 1), fifo.resp_o());
    fifo.rdy_i(false);
    assert_eq!((true, 1), fifo.resp_o());
    fifo.tik();
    assert_eq!((true, 1), fifo.resp_o());
    fifo.rdy_i(true);
    assert_eq!(false, fifo.resp_o().0);
}

#[test]
fn basic_plru_test() {
    let mut plru = BufPLRU::<usize, &str>::new(8);

    assert_eq!(plru.get(2).0, false);
    plru.insert((1, "one"));
    assert_eq!(plru.get(1).0, true);
    assert_eq!(plru.get(1).1, "one");

    plru.insert((2, "two"));
    plru.insert((3, "three"));
    plru.insert((4, "four"));
    plru.insert((5, "five"));
    plru.insert((6, "five"));
    plru.insert((7, "five"));
    plru.insert((8, "five"));
    plru.insert((9, "five"));

    assert_eq!(plru.get(1).0, false);

    assert_eq!(plru.get(2).0, true);
    assert_eq!(plru.get(2).1, "two");

    plru.insert((10, "ten"));

    assert_eq!(plru.get(2).0, true);
    assert_eq!(plru.get(2).1, "two");

    plru.flush(true);
    assert_eq!(plru.get(2).0, false);
    plru.insert((1, "one"));
    assert_eq!(plru.get(1).0, true);
    assert_eq!(plru.get(1).1, "one");
}

#[test]
fn decode_basic_fetch2_test() {
    let mut decode = Decode::new();

    let mut req = Instr::new(0x8000_0000);
    req.raw_vld = true;
    req.raw = 0x00051063;

    decode.req_i((true, req));

    assert_eq!(decode.resp_o().0, false);
    decode.tik();
    assert_eq!(decode.resp_o().0, true);
    let resp: Instr = decode.resp_o().1;
    assert_eq!(resp.decoded_vld, true);
    assert_eq!(resp.decoded.is_branch, true);
}

#[test]
fn fetch1_basic_fetch1_test() {
    let mut fetch1 = Fetch1::new(4);
    let mut addr: u64 = 0x8000_0000;

    fetch1.pc_i(vec![
        (false, 0), // branch unit
        (false, 0), // predict
        (false, 0), // pc + 4
        (true, addr), // start pc
    ]);
    fetch1.rdy_i(true);
    assert_eq!(fetch1.resp_o().0, false);
    fetch1.tik();
    assert_eq!(fetch1.resp_o().0, true);
    assert_eq!(fetch1.resp_o().1.pc_vld, true);
    assert_eq!(
        fetch1.resp_o().1.pc,
        addr,
        "fetch1 resp data wrong 0x{:8x} - 0x{:8x}",
        fetch1.resp_o().1.pc,
        addr
    );
    fetch1.rdy_i(true);

    for _i in 0..100 {
        addr += 4;
        fetch1.pc_i(vec![
            (false, 0), // branch unit
            (false, 0), // predict
            (true, addr), // pc + 4
            (true, 0x8000_0000), // start pc
        ]);

        fetch1.tik();
        assert_eq!(fetch1.resp_o().0, true);
        assert_eq!(fetch1.resp_o().1.pc_vld, true);
        assert_eq!(
            fetch1.resp_o().1.pc,
            addr,
            "fetch1 resp data wrong 0x{:8x} - 0x{:8x}",
            fetch1.resp_o().1.pc,
            addr
        );
        fetch1.rdy_i(true);
    }
}

#[test]
fn fetch2_basic_fetch2_test() {
    let mut mem = Memory::new();
    assert_eq!(mem.load_hex_lines(&add_hex_head(), 0x8000_0000), Ok(()));
    let mut fetch2 = Fetch2::new();
    let addr: u64 = 0x8000_0000;

    fetch2.req_i((true, Instr::new(addr)), &mem);
    assert_eq!(fetch2.resp_o().0, false);
    fetch2.tik();
    assert_eq!(fetch2.resp_o().0, true);
    assert_eq!(fetch2.resp_o().1.raw_vld, true);
    assert_eq!(fetch2.resp_o().1.raw, mem.lw(fetch2.resp_o().1.pc) as u32);
}

#[test]
fn basic_decoded_instr_test_on_add_hex() {
    // j 8000005c <reset_vector>
    let instr = DecodedInstr::new(0x05c0006f);
    assert_eq!(instr.instr_type, InstrType::J);
    assert_eq!(instr.opcode_type, InstrOpcode::JAL);
    assert_eq!(instr.immj, (0x8000005c & 0x1fffe));
    assert!(instr.is_branch);
    // bnez a0, 800000dc <reset_vector+0x80>
    let instr = DecodedInstr::new(0x00051063);
    assert_eq!(instr.opcode_type, InstrOpcode::BNE);
    assert_eq!(instr.rs1, 10);
    assert_eq!(instr.rs2, 0);
    assert_eq!(instr.immb, 0);
    assert!(instr.is_branch);
    // bgez a0, 8000015c <reset_vector+0x100>
    let instr = DecodedInstr::new(0x00055c63);
    assert_eq!(instr.opcode_type, InstrOpcode::BGE);
    assert_eq!(instr.rs1, 10);
    assert_eq!(instr.rs2, 0);
    assert_eq!(instr.immb, (0x015c - 0x0144) & 0x1ffe);
    assert!(instr.is_branch);
    // csrr a0, mhartid
    let instr = DecodedInstr::new(0xf1402573);
    assert_eq!(instr.opcode_type, InstrOpcode::CSRRS);
    assert!(instr.is_csr);
    let instr = DecodedInstr::new(0x0012829b);
    assert_eq!(instr.opcode_type, InstrOpcode::ADDIW);
    assert!(instr.is_alu);
}

#[test]
fn basic_load_on_add_hex() {
    let mut mem = Memory::new();
    assert_eq!(mem.load_hex_lines(&add_hex_head(), 0), Ok(()));

    assert_eq!(mem.lbu(0x0), 0x6fu64);
    assert_eq!(mem.lbu(0x1), 0x0u64);
    assert_eq!(mem.lbu(0x2), 0xc0u64);
    assert_eq!(mem.lb(0x2), 0xffff_ffff_ffff_ffc0);

    assert_eq!(mem.lhu(0x4), 0x2f73);
    assert_eq!(mem.lhu(0x6), 0x3420);

    assert_eq!(mem.lwu(0x0), 0x05c0006f);
    assert_eq!(mem.lwu(0x4), 0x34202f73);

    assert_eq!(mem.ld(0x0), 0x34202f7305c0006f);

    mem.sb(0, 0x2b);
    assert_eq!(mem.lb(0x0), 0x2b);

    mem.sh(0, 0xaf2b);
    assert_eq!(mem.lh(0x0), 0xffff_ffff_ffff_af2b);

    mem.sw(0, 0xdeadbeaf);
    assert_eq!(mem.lw(0x0), 0xffff_ffff_dead_beaf);

    mem.sd(0, 0xdeadbeaf_deadbeaf);
    assert_eq!(mem.ld(0x0), 0xdeadbeaf_deadbeaf);
}

#[test]
fn frontend_basic_test_on_add() {
    let mut mem = Memory::new();
    assert_eq!(mem.load_hex_lines(&add_hex_head(), 0x8000_0000), Ok(()));

    let mut frontend = Frontend::new();
    assert_eq!(frontend.resp_o().0, false);
    frontend.rdy_i(true);

    frontend.branch_i((false, 0));
    frontend.tik(&mem);
    assert_eq!(frontend.resp_o().0, false);
    frontend.rdy_i(true);

    frontend.branch_i((false, 0));
    frontend.tik(&mem);
    assert_eq!(frontend.resp_o().0, false);
    frontend.rdy_i(true);

    frontend.branch_i((false, 0));
    frontend.tik(&mem);
    assert_eq!(frontend.resp_o().0, true);
    assert_eq!(frontend.resp_o().1.decoded_vld, true);
    assert_eq!(frontend.resp_o().1.decoded.is_branch, true);
    assert_eq!(frontend.resp_o().1.decoded.opcode_type, InstrOpcode::JAL);
    frontend.rdy_i(true);

    frontend.branch_i((false, 0));
    frontend.tik(&mem);
    assert_eq!(frontend.resp_o().0, false);

    frontend.branch_i((true, 0x8000_0004));
    frontend.tik(&mem);
    frontend.branch_i((false, 0));
    frontend.tik(&mem);
    frontend.tik(&mem);
    assert_eq!(frontend.resp_o().0, true);
    assert_eq!(frontend.resp_o().1.decoded_vld, true);
    assert_eq!(frontend.resp_o().1.decoded.is_csr, true);
    assert_eq!(frontend.resp_o().1.decoded.opcode_type, InstrOpcode::CSRRS);
    frontend.rdy_i(true);

    frontend.branch_i((false, 0));
    frontend.tik(&mem);
    assert_eq!(frontend.resp_o().0, true);
    assert_eq!(frontend.resp_o().1.decoded_vld, true);
    assert_eq!(frontend.resp_o().1.decoded.is_alu, true);
    assert_eq!(frontend.resp_o().1.decoded.opcode_type, InstrOpcode::ADDI);
    frontend.rdy_i(true);
}
