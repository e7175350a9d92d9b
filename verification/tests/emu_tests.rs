use belle::cpu::{OutEvent, CPU};
use belle::encoder::encode_instruction;
use belle::faults::UnrecoverableError;
use belle::isa::{bytes_to_words, parse_word, words_to_bytes, Argument, Instruction};
use belle::symbols::SymbolTable;
use belle::tokens::Token;

fn enc(ins: Token, a1: Option<Token>, a2: Option<Token>) -> i16 {
    let tab = SymbolTable::new();
    encode_instruction(&ins, a1.as_ref(), a2.as_ref(), &tab, 1)
        .unwrap()
        .unwrap()
}

#[test]
fn codec_round_trips_every_layout() {
    // two-operand with a literal source
    let w = enc(
        Token::Ident("mov".to_string()),
        Some(Token::Register(3)),
        Some(Token::Literal(4)),
    );
    assert_eq!(
        parse_word(w as u16),
        Instruction::MOV(Argument::Register(3), Argument::Literal(4))
    );
    // a negative literal stored sign-magnitude: byte 133 is -5
    let w = enc(
        Token::Ident("add".to_string()),
        Some(Token::Register(0)),
        Some(Token::Literal(133)),
    );
    assert_eq!(
        parse_word(w as u16),
        Instruction::ADD(Argument::Register(0), Argument::Literal(-5))
    );
    // register pointer and memory pointer sources
    let w = enc(
        Token::Ident("mul".to_string()),
        Some(Token::Register(2)),
        Some(Token::RegPointer(5)),
    );
    assert_eq!(
        parse_word(w as u16),
        Instruction::MUL(Argument::Register(2), Argument::RegPtr(5))
    );
    let w = enc(
        Token::Ident("cmp".to_string()),
        Some(Token::Register(4)),
        Some(Token::MemPointer(32)),
    );
    assert_eq!(
        parse_word(w as u16),
        Instruction::CMP(Argument::Register(4), Argument::MemPtr(32))
    );
    // loads, stores direct and indirect
    let w = enc(
        Token::Ident("ld".to_string()),
        Some(Token::Register(5)),
        Some(Token::MemAddr(300)),
    );
    assert_eq!(
        parse_word(w as u16),
        Instruction::LD(Argument::Register(5), Argument::MemAddr(300))
    );
    let w = enc(
        Token::Ident("st".to_string()),
        Some(Token::MemAddr(200)),
        Some(Token::Register(1)),
    );
    assert_eq!(
        parse_word(w as u16),
        Instruction::ST(Argument::MemAddr(200), Argument::Register(1))
    );
    let w = enc(
        Token::Ident("st".to_string()),
        Some(Token::RegPointer(3)),
        Some(Token::Register(1)),
    );
    assert_eq!(
        parse_word(w as u16),
        Instruction::ST(Argument::RegPtr(3), Argument::Register(1))
    );
    // jumps direct and register-indirect
    let w = enc(
        Token::Ident("jmp".to_string()),
        Some(Token::MemAddr(2047)),
        None,
    );
    assert_eq!(parse_word(w as u16), Instruction::JMP(Argument::MemAddr(2047)));
    let w = enc(
        Token::Ident("jz".to_string()),
        Some(Token::RegPointer(6)),
        None,
    );
    assert_eq!(parse_word(w as u16), Instruction::JZ(Argument::RegPtr(6)));
    // stack and interrupt forms
    let w = enc(
        Token::Ident("push".to_string()),
        Some(Token::Register(2)),
        None,
    );
    assert_eq!(parse_word(w as u16), Instruction::PUSH(Argument::Register(2)));
    let w = enc(
        Token::Ident("pop".to_string()),
        Some(Token::Register(2)),
        None,
    );
    assert_eq!(parse_word(w as u16), Instruction::POP(Argument::Register(2)));
    let w = enc(
        Token::Ident("int".to_string()),
        Some(Token::Literal(9)),
        None,
    );
    assert_eq!(parse_word(w as u16), Instruction::INT(Argument::Literal(9)));
    // the no-operand forms
    assert_eq!(
        parse_word(enc(Token::Ident("hlt".to_string()), None, None) as u16),
        Instruction::HLT
    );
    assert_eq!(
        parse_word(enc(Token::Ident("ret".to_string()), None, None) as u16),
        Instruction::RET
    );
    assert_eq!(
        parse_word(enc(Token::Ident("nop".to_string()), None, None) as u16),
        Instruction::NOP
    );
}

#[test]
fn literal_range_is_the_sign_magnitude_byte() {
    // a literal outside its byte always fails to encode
    let tab = SymbolTable::new();
    assert!(encode_instruction(
        &Token::Ident("mov".to_string()),
        Some(&Token::Register(0)),
        Some(&Token::Literal(256)),
        &tab,
        1
    )
    .is_err());
    assert!(encode_instruction(
        &Token::Ident("mov".to_string()),
        Some(&Token::Register(0)),
        Some(&Token::Literal(-1)),
        &tab,
        1
    )
    .is_err());
    // every in-range byte decodes to its signed value
    for b in 0..=255i16 {
        let w = enc(
            Token::Ident("mov".to_string()),
            Some(Token::Register(0)),
            Some(Token::Literal(b)),
        );
        let signed = if b >= 128 { -(b - 128) } else { b };
        assert_eq!(
            parse_word(w as u16),
            Instruction::MOV(Argument::Register(0), Argument::Literal(signed))
        );
    }
}

#[test]
fn end_to_end_add_then_halt() {
    // assembling `ADD %r0, #4` then `HLT` with load address 0 and
    // executing leaves r0 holding the literal plus its initial value
    let words = vec![
        enc(
            Token::Ident("ADD".to_string()),
            Some(Token::Register(0)),
            Some(Token::Literal(4)),
        ),
        enc(Token::Ident("HLT".to_string()), None, None),
    ];
    let mut cpu = CPU::new();
    cpu.load_binary(&words).unwrap();
    assert!(cpu.run().is_ok());
    assert_eq!(cpu.int_reg[0], 4);
    assert!(!cpu.running);
}

#[test]
fn end_to_end_divide_by_zero_faults_at_the_div() {
    // `MOV %r1, #0` then `DIV %r1, %r1` halts with DivideByZero at the
    // DIV instruction's address
    let words = vec![
        enc(
            Token::Ident("MOV".to_string()),
            Some(Token::Register(1)),
            Some(Token::Literal(0)),
        ),
        enc(
            Token::Ident("DIV".to_string()),
            Some(Token::Register(1)),
            Some(Token::Register(1)),
        ),
        enc(Token::Ident("HLT".to_string()), None, None),
    ];
    let mut cpu = CPU::new();
    cpu.load_binary(&words).unwrap();
    let div_addr = cpu.starts_at + 1;
    match cpu.run() {
        Err(UnrecoverableError::DivideByZero(loc, _)) => assert_eq!(loc, div_addr),
        other => panic!("expected DivideByZero, got {:?}", other.is_ok()),
    }
}

#[test]
fn divide_by_zero_leaves_the_destination_unchanged() {
    let mut cpu = CPU::new();
    cpu.int_reg[0] = 42;
    let r = cpu.handle_div(&Argument::Register(0), &Argument::Literal(0));
    assert!(matches!(r, Err(UnrecoverableError::DivideByZero(_, _))));
    assert_eq!(cpu.int_reg[0], 42);
}

#[test]
fn absent_cell_reads_raise_segmentation_faults() {
    let mut cpu = CPU::new();
    cpu.int_reg[0] = 42;
    // a direct read of a never-written cell
    assert!(matches!(
        cpu.get_value(&Argument::MemAddr(5)),
        Err(UnrecoverableError::SegmentationFault(_, _))
    ));
    // one level of pointer indirection to an absent cell
    cpu.int_reg[1] = 9;
    assert!(matches!(
        cpu.get_value(&Argument::RegPtr(1)),
        Err(UnrecoverableError::SegmentationFault(_, _))
    ));
    // the destination register is unchanged when the source faults
    let r = cpu.handle_add(&Argument::Register(0), &Argument::MemAddr(5));
    assert!(r.is_err());
    assert_eq!(cpu.int_reg[0], 42);
}

#[test]
fn stack_symmetry_restores_the_registers() {
    let mut cpu = CPU::new();
    cpu.int_reg[0] = 11;
    cpu.int_reg[1] = -22;
    cpu.int_reg[2] = 33;
    cpu.uint_reg[0] = 44;
    let sp0 = cpu.sp;
    for n in [0i16, 1, 2, 4] {
        cpu.handle_push(&Argument::Register(n)).unwrap();
    }
    // clobber the registers, then pop in reverse order
    cpu.int_reg[0] = 0;
    cpu.int_reg[1] = 0;
    cpu.int_reg[2] = 0;
    cpu.uint_reg[0] = 0;
    for n in [4i16, 2, 1, 0] {
        cpu.handle_pop(&Argument::Register(n)).unwrap();
    }
    assert_eq!(cpu.int_reg[0], 11);
    assert_eq!(cpu.int_reg[1], -22);
    assert_eq!(cpu.int_reg[2], 33);
    assert_eq!(cpu.uint_reg[0], 44);
    assert_eq!(cpu.sp, sp0);
}

#[test]
fn pop_from_an_empty_stack_underflows() {
    let mut cpu = CPU::new();
    assert!(matches!(
        cpu.handle_pop(&Argument::Register(0)),
        Err(UnrecoverableError::StackUnderflow(_, _))
    ));
}

#[test]
fn overflow_sets_the_flag_and_records_the_condition() {
    let mut cpu = CPU::new();
    cpu.int_reg[0] = 32700;
    cpu.handle_add(&Argument::Register(0), &Argument::Literal(127))
        .unwrap();
    assert!(cpu.oflag);
    assert_eq!(cpu.warnings.len(), 1);
}

#[test]
fn interrupts_emit_output_events() {
    let mut cpu = CPU::new();
    cpu.int_reg[2] = 77;
    cpu.handle_int(&Argument::Literal(2)).unwrap();
    assert!(matches!(cpu.output[0], OutEvent::Number(77)));
    // an unknown code is recorded and survived
    cpu.handle_int(&Argument::Literal(99)).unwrap();
    assert_eq!(cpu.warnings.len(), 1);
}

#[test]
fn loader_honors_directives_and_places_words() {
    let words = vec![(1 << 9) | 7, (2 << 9) | 50, (3 << 9) | 50, 0x1234, 0]; // .start 7, .ssp 50, .sbp 50
    let mut cpu = CPU::new();
    cpu.load_binary(&words).unwrap();
    assert_eq!(cpu.starts_at, 7);
    assert_eq!(cpu.pc, 7);
    assert_eq!(cpu.sp, 50);
    assert_eq!(cpu.bp, 50);
    assert_eq!(cpu.memory[7], Some(0x1234));
    assert_eq!(cpu.memory[8], Some(0));
    assert_eq!(cpu.memory[9], None);
}

#[test]
fn loader_rejects_a_second_start_directive() {
    let words = vec![(1 << 9) | 7, (1 << 9) | 8];
    let mut cpu = CPU::new();
    assert!(cpu.load_binary(&words).is_err());
    assert!(cpu.do_not_run);
}

#[test]
fn wire_format_round_trips() {
    let words: Vec<i16> = vec![0x1234, -1, 0, 0x7FFF, i16::MIN];
    let bytes = words_to_bytes(&words);
    assert_eq!(bytes.len(), 10);
    assert_eq!(&bytes[0..2], &[0x12, 0x34]);
    let back = bytes_to_words(&bytes);
    assert_eq!(back, words);
}

#[test]
fn subroutine_call_and_return_round_trip() {
    // .start 10; JMP to a subroutine at 13 that sets r0 and returns
    let mut tab = SymbolTable::new();
    tab.insert("sub".chars().collect(), 13);
    let jmp = encode_instruction(
        &Token::Ident("jmp".to_string()),
        Some(&Token::SRCall("sub".to_string())),
        None,
        &tab,
        1,
    )
    .unwrap()
    .unwrap();
    let words = vec![
        (1 << 9) | 10, // .start 10
        jmp,           // 10: call sub
        enc(Token::Ident("HLT".to_string()), None, None), // 11: halt
        enc(Token::Ident("HLT".to_string()), None, None), // 12: unused
        enc(
            Token::Ident("MOV".to_string()),
            Some(Token::Register(0)),
            Some(Token::Literal(9)),
        ), // 13: sub body
        enc(Token::Ident("RET".to_string()), None, None), // 14: return
    ];
    let mut cpu = CPU::new();
    cpu.load_binary(&words).unwrap();
    assert!(cpu.run().is_ok());
    assert_eq!(cpu.int_reg[0], 9);
}
