use rkbpf::bytecode::{BpfInsn, BpfProgType, ProgramBuilder, ProgramError};
use rkbpf::event::TimeSeriesEvent;
use rkbpf::helpers::HelperTable;
use rkbpf::interp::{BpfContext, ExecError, Interpreter};
use rkbpf::jit::{JitExecutor, X64Emitter};

#[test]
fn jit_compile_simple() {
    let program = ProgramBuilder::new(BpfProgType::SocketFilter)
        .insn(BpfInsn::mov64_imm(0, 42))
        .insn(BpfInsn::exit())
        .build()
        .expect("valid program");

    let jit = JitExecutor::new();
    let result = jit.compile(&program);

    assert!(result.is_ok());
}

#[test]
fn jit_compile_arithmetic() {
    let program = ProgramBuilder::new(BpfProgType::SocketFilter)
        .insn(BpfInsn::mov64_imm(0, 10))
        .insn(BpfInsn::add64_imm(0, 5))
        .insn(BpfInsn::mov64_imm(1, 3))
        .insn(BpfInsn::add64_reg(0, 1))
        .insn(BpfInsn::exit())
        .build()
        .expect("valid program");

    let jit = JitExecutor::new();
    let result = jit.compile(&program);

    assert!(result.is_ok());
}

#[test]
fn jit_fallback_to_interpreter() {
    let program = ProgramBuilder::new(BpfProgType::SocketFilter)
        .insn(BpfInsn::mov64_imm(0, 42))
        .insn(BpfInsn::exit())
        .build()
        .expect("valid program");

    let jit = JitExecutor::new();
    let ctx = BpfContext::empty();

    let result = jit.execute(&program, &ctx);
    assert_eq!(result, Ok(42));
}

#[test]
fn emitter_mov_reg() {
    let mut emitter = X64Emitter::new(64);

    // mov rax, rbx: REX.W 89 /r
    emitter.emit_mov_reg(0, 3);

    assert_eq!(&emitter.code()[..3], &[0x48, 0x89, 0xD8]);
}

#[test]
fn emitter_add_reg() {
    let mut emitter = X64Emitter::new(64);

    // add rax, rcx: REX.W 01 /r
    emitter.emit_add_reg(0, 1);

    assert_eq!(&emitter.code()[..3], &[0x48, 0x01, 0xC8]);
}

#[test]
fn trivial_program() {
    // mov64_imm r0, 42; exit — r0 is 42 through the interpreter and through
    // the compile-then-execute path alike
    let program = ProgramBuilder::new(BpfProgType::SocketFilter)
        .insn(BpfInsn::mov64_imm(0, 42))
        .insn(BpfInsn::exit())
        .build()
        .unwrap();
    let ctx = BpfContext::empty();
    let interp = Interpreter::new();
    assert_eq!(interp.execute(&program, &ctx), Ok(42));
    let jit = JitExecutor::new();
    assert_eq!(jit.execute(&program, &ctx), Ok(42));
}

#[test]
fn arithmetic_program() {
    // mov64_imm r0, 10; add64_imm r0, 5; mov64_imm r1, 3; add64_reg r0, r1;
    // exit — r0 is 18
    let program = ProgramBuilder::new(BpfProgType::SocketFilter)
        .insn(BpfInsn::mov64_imm(0, 10))
        .insn(BpfInsn::add64_imm(0, 5))
        .insn(BpfInsn::mov64_imm(1, 3))
        .insn(BpfInsn::add64_reg(0, 1))
        .insn(BpfInsn::exit())
        .build()
        .unwrap();
    let ctx = BpfContext::empty();
    let interp = Interpreter::new();
    assert_eq!(interp.execute(&program, &ctx), Ok(18));
    let jit = JitExecutor::new();
    assert_eq!(jit.execute(&program, &ctx), Ok(18));
}

#[test]
fn division_by_zero_yields_zero() {
    // mov64 r0, 7; mov64 r1, 0; div64 r0, r1 (0x3f reg-form); exit
    let program = ProgramBuilder::new(BpfProgType::SocketFilter)
        .insn(BpfInsn::mov64_imm(0, 7))
        .insn(BpfInsn::mov64_imm(1, 0))
        .insn(BpfInsn::new(0x3f, 0, 1, 0, 0))
        .insn(BpfInsn::exit())
        .build()
        .unwrap();
    let interp = Interpreter::new();
    assert_eq!(interp.execute(&program, &BpfContext::empty()), Ok(0));
}

#[test]
fn alu32_zero_extends() {
    // mov64 r0, -1 (all bits set); add32 r0, 1 (0x04 imm-form) wraps the low
    // word to zero and clears the upper bits
    let program = ProgramBuilder::new(BpfProgType::SocketFilter)
        .insn(BpfInsn::mov64_imm(0, -1))
        .insn(BpfInsn::new(0x04, 0, 0, 0, 1))
        .insn(BpfInsn::exit())
        .build()
        .unwrap();
    let interp = Interpreter::new();
    assert_eq!(interp.execute(&program, &BpfContext::empty()), Ok(0));

    // and a case with a nonzero 32-bit result: the upper half stays zero
    let program2 = ProgramBuilder::new(BpfProgType::SocketFilter)
        .insn(BpfInsn::mov64_imm(0, -1))
        .insn(BpfInsn::new(0x04, 0, 0, 0, 2))
        .insn(BpfInsn::exit())
        .build()
        .unwrap();
    assert_eq!(interp.execute(&program2, &BpfContext::empty()), Ok(1));
}

#[test]
fn wide_load_consumes_two_slots() {
    // lddw r0, 0x1_0000_0001 as two slots, then exit
    let program = ProgramBuilder::new(BpfProgType::SocketFilter)
        .insn(BpfInsn::new(0x18, 0, 0, 0, 1))
        .insn(BpfInsn::new(0x00, 0, 0, 0, 1))
        .insn(BpfInsn::exit())
        .build()
        .unwrap();
    let interp = Interpreter::new();
    assert_eq!(interp.execute(&program, &BpfContext::empty()), Ok(0x1_0000_0001));
}

#[test]
fn unpaired_wide_is_load_error() {
    // a wide load in the final slot has no second half: the builder rejects
    // the program
    let r = ProgramBuilder::new(BpfProgType::SocketFilter)
        .insn(BpfInsn::mov64_imm(0, 1))
        .insn(BpfInsn::new(0x18, 0, 0, 0, 7))
        .build();
    assert_eq!(r.unwrap_err(), ProgramError::UnpairedWide);

    let r2 = ProgramBuilder::new(BpfProgType::SocketFilter).build();
    assert_eq!(r2.unwrap_err(), ProgramError::Empty);
}

#[test]
fn conditional_jump_takes_branch() {
    // mov64 r0, 1; jeq r0, 1, +1; mov64 r0, 99; exit
    let program = ProgramBuilder::new(BpfProgType::SocketFilter)
        .insn(BpfInsn::mov64_imm(0, 1))
        .insn(BpfInsn::new(0x15, 0, 0, 1, 1))
        .insn(BpfInsn::mov64_imm(0, 99))
        .insn(BpfInsn::exit())
        .build()
        .unwrap();
    let interp = Interpreter::new();
    assert_eq!(interp.execute(&program, &BpfContext::empty()), Ok(1));
}

#[test]
fn stack_store_load_round_trip() {
    // store 0x55 at [r10 - 8], load it back into r0
    let program = ProgramBuilder::new(BpfProgType::SocketFilter)
        .insn(BpfInsn::new(0x7a, 10, 0, -8, 0x55)) // st dw [r10-8], 0x55
        .insn(BpfInsn::new(0x79, 0, 10, -8, 0)) // ldx dw r0, [r10-8]
        .insn(BpfInsn::exit())
        .build()
        .unwrap();
    let interp = Interpreter::new();
    assert_eq!(interp.execute(&program, &BpfContext::empty()), Ok(0x55));
}

#[test]
fn helper_call_returns_zero() {
    // call 1; exit — no entry stands behind id 1, so r0 becomes zero
    let program = ProgramBuilder::new(BpfProgType::SocketFilter)
        .insn(BpfInsn::mov64_imm(0, 7))
        .insn(BpfInsn::call(1))
        .insn(BpfInsn::exit())
        .build()
        .unwrap();
    let interp = Interpreter::new();
    assert_eq!(interp.execute(&program, &BpfContext::empty()), Ok(0));
}

#[test]
fn runaway_program_hits_step_limit() {
    // ja -1 loops forever; the step budget stops it
    let program = ProgramBuilder::new(BpfProgType::SocketFilter)
        .insn(BpfInsn::new(0x05, 0, 0, -1, 0))
        .insn(BpfInsn::exit())
        .build()
        .unwrap();
    let interp = Interpreter::with_limit(1000);
    assert_eq!(interp.execute(&program, &BpfContext::empty()), Err(ExecError::StepLimit));
}

#[test]
fn out_of_stack_access_fails() {
    // load from far outside the scratch stack
    let program = ProgramBuilder::new(BpfProgType::SocketFilter)
        .insn(BpfInsn::new(0x79, 0, 10, 8, 0)) // ldx dw r0, [r10+8]
        .insn(BpfInsn::exit())
        .build()
        .unwrap();
    let interp = Interpreter::new();
    assert_eq!(
        interp.execute(&program, &BpfContext::empty()),
        Err(ExecError::MemoryOutOfBounds)
    );
}

#[test]
fn insn_field_accessors() {
    let insn = BpfInsn::new(0xb7, 3, 5, -2, 42);
    assert_eq!(insn.dst_reg(), 3);
    assert_eq!(insn.src_reg(), 5);
    assert_eq!(insn.offset, -2);
    assert_eq!(insn.imm, 42);
    assert!(!insn.is_wide());
    assert!(!insn.is_exit());
    assert!(BpfInsn::exit().is_exit());
    assert!(BpfInsn::new(0x18, 0, 0, 0, 0).is_wide());
}

#[test]
fn ktime_helper_reads_table_clock() {
    // call 5 returns the clock the host set on the helper table
    let program = ProgramBuilder::new(BpfProgType::SocketFilter)
        .insn(BpfInsn::call(5))
        .insn(BpfInsn::exit())
        .build()
        .unwrap();
    let interp = Interpreter::new();
    let mut ht = HelperTable::new();
    ht.set_time_ns(123_456_789);
    assert_eq!(
        interp.execute_with(&program, &BpfContext::empty(), &mut ht),
        Ok(123_456_789)
    );
}

#[test]
fn ringbuf_output_helper_commits_record() {
    // st.w [r10-8] = 0x11223344; r2 = 504; r3 = 4; call 130; exit
    let program = ProgramBuilder::new(BpfProgType::SocketFilter)
        .insn(BpfInsn::new(0x62, 10, 0, -8, 0x11223344))
        .insn(BpfInsn::mov64_imm(2, 504))
        .insn(BpfInsn::mov64_imm(3, 4))
        .insn(BpfInsn::call(130))
        .insn(BpfInsn::exit())
        .build()
        .unwrap();
    let interp = Interpreter::new();
    let mut ht = HelperTable::new();
    assert_eq!(interp.execute_with(&program, &BpfContext::empty(), &mut ht), Ok(0));
    assert_eq!(ht.drops(), 0);
    let rec = ht.read_event().expect("one committed record");
    assert_eq!(rec, vec![0x44, 0x33, 0x22, 0x11]);
    assert!(ht.read_event().is_none());
}

#[test]
fn ringbuf_output_out_of_range_read_fails() {
    // a read beyond the scratch stack returns the error value and commits
    // nothing
    let program = ProgramBuilder::new(BpfProgType::SocketFilter)
        .insn(BpfInsn::mov64_imm(2, 600))
        .insn(BpfInsn::mov64_imm(3, 4))
        .insn(BpfInsn::call(130))
        .insn(BpfInsn::exit())
        .build()
        .unwrap();
    let interp = Interpreter::new();
    let mut ht = HelperTable::new();
    assert_eq!(
        interp.execute_with(&program, &BpfContext::empty(), &mut ht),
        Ok(u64::MAX)
    );
    assert_eq!(ht.drops(), 0);
    assert!(ht.read_event().is_none());
}

#[test]
fn ringbuf_query_helper_reports_backlog() {
    // commit a 4-byte record (8-byte header + 8 rounded bytes), then query
    let program = ProgramBuilder::new(BpfProgType::SocketFilter)
        .insn(BpfInsn::mov64_imm(2, 504))
        .insn(BpfInsn::mov64_imm(3, 4))
        .insn(BpfInsn::call(130))
        .insn(BpfInsn::call(134))
        .insn(BpfInsn::exit())
        .build()
        .unwrap();
    let interp = Interpreter::new();
    let mut ht = HelperTable::new();
    assert_eq!(interp.execute_with(&program, &BpfContext::empty(), &mut ht), Ok(16));
}

#[test]
fn emergency_stop_helper_sets_latch() {
    let program = ProgramBuilder::new(BpfProgType::SocketFilter)
        .insn(BpfInsn::call(200))
        .insn(BpfInsn::exit())
        .build()
        .unwrap();
    let interp = Interpreter::new();
    let mut ht = HelperTable::new();
    assert!(!ht.emergency_stopped());
    assert_eq!(interp.execute_with(&program, &BpfContext::empty(), &mut ht), Ok(0));
    assert!(ht.emergency_stopped());
}

#[test]
fn timeseries_push_helper_commits_stamped_event() {
    // r1 = series, r2 = value, r3 = tag; the record carries the table clock
    let program = ProgramBuilder::new(BpfProgType::SocketFilter)
        .insn(BpfInsn::mov64_imm(1, 4))
        .insn(BpfInsn::mov64_imm(2, 25))
        .insn(BpfInsn::mov64_imm(3, 2))
        .insn(BpfInsn::call(201))
        .insn(BpfInsn::exit())
        .build()
        .unwrap();
    let interp = Interpreter::new();
    let mut ht = HelperTable::new();
    ht.set_time_ns(99);
    assert_eq!(interp.execute_with(&program, &BpfContext::empty(), &mut ht), Ok(0));
    let rec = ht.read_event().expect("one committed record");
    assert_eq!(rec.len(), 48);
    let ev = TimeSeriesEvent::parse(&rec);
    assert_eq!(ev.header.timestamp_ns, 99);
    assert_eq!(ev.header.event_type, 5);
    assert_eq!(ev.series_id, 4);
    assert_eq!(ev.value, 25);
    assert_eq!(ev.tag, 2);
}

#[test]
fn sensor_timestamp_helper_reads_latest() {
    let program = ProgramBuilder::new(BpfProgType::SocketFilter)
        .insn(BpfInsn::call(202))
        .insn(BpfInsn::exit())
        .build()
        .unwrap();
    let interp = Interpreter::new();
    let mut ht = HelperTable::new();
    ht.note_sensor_timestamp(777);
    assert_eq!(interp.execute_with(&program, &BpfContext::empty(), &mut ht), Ok(777));
}
