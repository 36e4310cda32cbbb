//! Machine code: encodings, generated functions, and where they are kept.

use aura::bytecode::{
    ClassDef, ClassId, FloatConst, MethodDef, MethodId, Module, Op, TypeDesc,
};
use aura::jit::assembler::{Asm, Cond, Gpr, Mem, Xmm};
use aura::jit::code::{assemble_codes, Alu, Code};
use aura::jit::codegen::{NF_SIZE, STATUS_ERROR, STATUS_EXCEPTION, STATUS_OK};
use aura::jit::compiler::{
    compile_method, dispatch_status, frame_result, CompileError, FrameResult, Jit,
};
use aura::jit::mem::{decode_result, page_align_up, ExecutableMemory, PAGE_SIZE};
use aura::jit::regs::{R12, R13, R9, RAX, RBP, RBX, RCX, RDI, RSP};
use aura::jit::xmms::{XMM0, XMM9};
use aura::vm::value::Value;
use aura::vm::world::{Applied, Ask, VmError};

fn bytes(write: impl FnOnce(&mut Asm)) -> Vec<u8> {
    let mut out = Asm::new();
    write(&mut out);
    out.assemble()
}

#[test]
fn moves_are_encoded() {
    assert_eq!(bytes(|a| a.mov_rr(Gpr(RBP), Gpr(RSP))), [0x48, 0x8B, 0xEC]);
    assert_eq!(bytes(|a| a.mov_rr(Gpr(R9), Gpr(RAX))), [0x4C, 0x8B, 0xC8]);
    // [rsp] and [r12] need a SIB byte, [rbp] and [r13] a displacement.
    assert_eq!(bytes(|a| a.mov_rm(Gpr(RAX), Mem::new(Gpr(RSP), 8))), [0x48, 0x8B, 0x44, 0x24, 8]);
    assert_eq!(bytes(|a| a.mov_rm(Gpr(RAX), Mem::new(Gpr(R12), 8))), [0x49, 0x8B, 0x44, 0x24, 8]);
    assert_eq!(
        bytes(|a| a.mov_mr(Mem::new(Gpr(RDI), 0x1234), Gpr(RBX))),
        [0x48, 0x89, 0x9F, 0x34, 0x12, 0, 0]
    );
    assert_eq!(
        bytes(|a| a.movabs(Gpr(RAX), 0x1122334455667788)),
        [0x48, 0xB8, 0x88, 0x77, 0x66, 0x55, 0x44, 0x33, 0x22, 0x11]
    );
    assert_eq!(bytes(|a| a.push(Gpr(R13))), [0x41, 0x55]);
    assert_eq!(bytes(|a| a.pop(Gpr(RBP))), [0x5D]);
    assert_eq!(bytes(|a| a.ret()), [0xC3]);
}

#[test]
fn arithmetic_is_encoded() {
    assert_eq!(bytes(|a| a.add_rr(Gpr(RAX), Gpr(RCX))), [0x48, 0x01, 0xC8]);
    assert_eq!(bytes(|a| a.imul_rr(Gpr(RAX), Gpr(RCX))), [0x48, 0x0F, 0xAF, 0xC1]);
    assert_eq!(bytes(|a| a.neg(Gpr(RAX))), [0x48, 0xF7, 0xD8]);
    assert_eq!(bytes(|a| a.cqo()), [0x48, 0x99]);
    assert_eq!(bytes(|a| a.idiv(Gpr(RCX))), [0x48, 0xF7, 0xF9]);
    assert_eq!(bytes(|a| a.shl_ri(Gpr(RAX), 5)), [0x48, 0xC1, 0xE0, 5]);
    assert_eq!(bytes(|a| a.test_rr(Gpr(RAX), Gpr(RAX))), [0x48, 0x85, 0xC0]);
    // The byte is widened to the whole register.
    assert_eq!(
        bytes(|a| a.setcc(Cond::Z, Gpr(RAX))),
        [0x40, 0x0F, 0x94, 0xC0, 0x48, 0x0F, 0xB6, 0xC0]
    );
    assert_eq!(
        bytes(|a| a.movsd_rm(Xmm(XMM9), Mem::new(Gpr(R13), 16))),
        [0xF2, 0x45, 0x0F, 0x10, 0x4D, 16]
    );
    assert_eq!(
        bytes(|a| a.cvtsi2sd_rr(Xmm(XMM0), Gpr(RAX))),
        [0xF2, 0x48, 0x0F, 0x2A, 0xC0]
    );
}

#[test]
fn jumps_reach_their_labels() {
    let code = bytes(|a| {
        let top = a.label();
        let end = a.label();
        a.bind(top);
        a.nop();
        a.jcc(Cond::Z, end);
        a.jmp(top);
        a.bind(end);
        a.ret();
    });
    assert_eq!(
        code,
        [0x90, 0x0F, 0x84, 5, 0, 0, 0, 0xE9, 0xF4, 0xFF, 0xFF, 0xFF, 0xC3]
    );
    let codes = vec![
        Code::Bind(0),
        Code::AluRr(Alu::Add, Gpr(RAX), Gpr(RCX)),
        Code::Jmp(0),
        Code::Ret,
    ];
    assert_eq!(
        assemble_codes(&codes, 1),
        Some(vec![0x48, 0x01, 0xC8, 0xE9, 0xF8, 0xFF, 0xFF, 0xFF, 0xC3])
    );
}

fn module(body: Vec<Op>, params: Vec<TypeDesc>) -> Module {
    let m = MethodDef {
        name: "test".to_string(),
        return_ty: TypeDesc::Int64,
        params,
        generic_params: Vec::new(),
        is_instance: false,
        body,
        handlers: Vec::new(),
        max_stack: 8,
        locals: 4,
        line_starts: Vec::new(),
        local_names: Vec::new(),
    };
    Module {
        name: "test".to_string(),
        classes: vec![(
            ClassId(0),
            ClassDef {
                name: "Test".to_string(),
                generic_params: Vec::new(),
                super_class: None,
                interfaces: Vec::new(),
                is_interface: false,
                is_abstract: false,
                is_record: false,
                fields: Vec::new(),
                static_fields: Vec::new(),
                methods: Vec::new(),
                static_methods: vec![(MethodId(1), m)],
            },
        )],
        enums: Vec::new(),
        entrypoint: None,
        constant_pool: vec!["1.5".to_string()],
        float_pool: vec![FloatConst::Bits(1.5f64.to_bits())],
    }
}

fn sum() -> Module {
    module(
        vec![Op::Ldarg(0), Op::Ldarg(1), Op::Add, Op::Ret],
        vec![TypeDesc::Int64, TypeDesc::Int64],
    )
}

/// `push rbp; mov rbp, rsp; push r13; push r14; push r15; push rbx`.
const ENTRY: [u8; 11] = [0x55, 0x48, 0x8B, 0xEC, 0x41, 0x55, 0x41, 0x56, 0x41, 0x57, 0x53];

/// `pop rbx; pop r15; pop r14; pop r13; pop rbp; ret`.
const EXIT: [u8; 9] = [0x5B, 0x41, 0x5F, 0x41, 0x5E, 0x41, 0x5D, 0x5D, 0xC3];

#[test]
fn a_function_saves_and_restores_registers() {
    let m = sum();
    let c = compile_method(&m, MethodId(1), false, &Vec::new(), 0).unwrap();
    assert_eq!(c.method_id(), MethodId(1));
    assert_eq!(c.locals_count, 4);
    assert!(c.helpers.is_empty());
    assert!(c.asks.is_empty());
    assert_eq!(c.code[..ENTRY.len()], ENTRY);
    assert_eq!(c.code[c.code.len() - EXIT.len()..], EXIT);
    // Frame of four locals, eight operands and the link to the native frame,
    // kept aligned to sixteen bytes behind the saved registers.
    assert_eq!(c.frame_bytes % 16, 0);
}

#[test]
fn checks_change_the_code() {
    let m = sum();
    let plain = compile_method(&m, MethodId(1), false, &Vec::new(), 7).unwrap();
    let checked = compile_method(&m, MethodId(1), true, &Vec::new(), 7).unwrap();
    let overflow_jump = |code: &Vec<u8>| code.windows(2).any(|w| w == [0x0F, 0x80]);
    assert!(!overflow_jump(&plain.code));
    assert!(overflow_jump(&checked.code));
}

#[test]
fn helpers_are_numbered() {
    let m = module(
        vec![Op::LdStr(0), Op::Print, Op::LdInt(1), Op::Ret],
        Vec::new(),
    );
    let c = compile_method(&m, MethodId(1), false, &Vec::new(), 0).unwrap();
    assert!(matches!(c.helpers[..], [Op::LdStr(0), Op::Print]));
}

#[test]
fn open_float_questions_are_reported() {
    let m = module(
        vec![Op::LdFloat(0), Op::LdFloat(0), Op::Add, Op::Ret],
        Vec::new(),
    );
    let c = compile_method(&m, MethodId(1), false, &Vec::new(), 0).unwrap();
    assert_eq!(c.asks.len(), 1);
}

#[test]
fn unknown_methods_are_not_compiled() {
    let m = sum();
    match compile_method(&m, MethodId(9), false, &Vec::new(), 0) {
        Err(e) => assert!(e.message().starts_with("jit: unsupported: "), "{}", e.message()),
        Ok(_) => panic!("compiled a method that does not exist"),
    }
    assert_eq!(CompileError::OutOfMemory.message(), "jit: out of executable memory");
}

#[test]
fn compiled_methods_are_kept() {
    let m = sum();
    let mut jit = Jit::new();
    assert!(jit.get(MethodId(1), false).is_none());
    jit.compile(&m, MethodId(1), false, &Vec::new(), 0).unwrap();
    jit.compile(&m, MethodId(1), false, &Vec::new(), 0).unwrap();
    assert_eq!(jit.compiled_count(), 1);
    assert!(jit.get(MethodId(1), false).is_some());
    assert!(jit.get(MethodId(1), true).is_none());
    jit.clear();
    assert!(jit.get(MethodId(1), false).is_none());
}

#[test]
fn statuses_have_meanings() {
    let v = Value::Int(3);
    assert!(matches!(frame_result(STATUS_OK, v), Ok(FrameResult::Normal(Value::Int(3)))));
    assert!(matches!(frame_result(STATUS_EXCEPTION, v), Ok(FrameResult::Exception(Value::Int(3)))));
    assert_eq!(
        frame_result(7, v).unwrap_err().message(),
        "runtime error: jit: unknown return status 7"
    );
    assert_eq!(dispatch_status(&Applied::Value(v)), Some((STATUS_OK, Some(v))));
    assert_eq!(dispatch_status(&Applied::Thrown(v)), Some((STATUS_EXCEPTION, Some(v))));
    assert_eq!(
        dispatch_status(&Applied::Failed(VmError::DivideByZero)),
        Some((STATUS_ERROR, None))
    );
    assert_eq!(dispatch_status(&Applied::Ask(Ask::ReadLine)), None);
    assert_eq!(NF_SIZE, 0x58);
}

#[test]
fn pages_hold_code() {
    assert_eq!(page_align_up(0), 0);
    assert_eq!(page_align_up(1), PAGE_SIZE);
    assert_eq!(page_align_up(4096), 4096);
    assert_eq!(page_align_up(4097), 8192);
    assert_eq!(decode_result(5), Ok(5));
    assert_eq!(decode_result(-12i64 as u64), Err(-12));
    let mut m = ExecutableMemory::allocate(100, Ok(0x7000)).unwrap();
    assert_eq!((m.len(), m.ptr(), m.code_ptr()), (4096, 0x7000, 0x7000));
    assert_eq!(
        m.accepts(5000).unwrap_err().message(),
        "jit memory error: code of 5000 bytes exceeds region of 4096 bytes"
    );
    assert_eq!(
        m.finalize(10, Err(-13)).unwrap_err().0,
        "mprotect failed with errno -13"
    );
    m.finalize(10, Ok(())).unwrap();
    assert_eq!(m.finalize(10, Ok(())).unwrap_err().0, "region already frozen");
    assert_eq!(
        ExecutableMemory::allocate(1, Err(-12)).unwrap_err().0,
        "mmap failed with errno -12"
    );
}

#[test]
fn calls_and_jumps_differ_in_one_byte() {
    let way = |call: bool| {
        bytes(|a| {
            let there = a.label();
            if call {
                a.call_label(there);
            } else {
                a.jmp(there);
            }
            a.nop();
            a.bind(there);
            a.ret();
        })
    };
    assert_eq!(way(true), [0xE8, 1, 0, 0, 0, 0x90, 0xC3]);
    assert_eq!(way(false), [0xE9, 1, 0, 0, 0, 0x90, 0xC3]);
}

#[test]
fn every_instruction_adds_its_bytes() {
    let mut a = Asm::new();
    assert_eq!(a.len(), 0);
    let end = a.label();
    a.nop();
    assert_eq!(a.len(), 1);
    a.jcc(Cond::Z, end);
    assert_eq!(a.len(), 7);
    // Binding writes into what is there.
    a.bind(end);
    assert_eq!(a.len(), 7);
    assert_eq!(a.assemble(), [0x90, 0x0F, 0x84, 0, 0, 0, 0]);
}
