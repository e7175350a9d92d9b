use belle::encoder::{argument_to_binary, encode_instruction};
use belle::symbols::{load_subroutines, process_start, SymbolTable};
use belle::tokens::Token;
use belle::verify::verify;

fn enc(ins: Token, a1: Option<Token>, a2: Option<Token>) -> i16 {
    let tab = SymbolTable::new();
    encode_instruction(&ins, a1.as_ref(), a2.as_ref(), &tab, 1)
        .unwrap()
        .unwrap()
}

#[test]
fn mov_check() {
    let result = enc(
        Token::Ident("mov".to_string()),
        Some(Token::Register(0)),
        Some(Token::Literal(4)),
    );
    assert_eq!(result.unsigned_abs(), 0b01111011111100);
}

#[test]
fn hlt_check() {
    let result = enc(Token::Ident("hlt".to_string()), None, None);
    assert_eq!(result, 0);
}

#[test]
fn add_check() {
    let result = enc(
        Token::Ident("add".to_string()),
        Some(Token::Register(6)),
        Some(Token::Literal(4)),
    );
    assert_eq!(result as u16, 0b0001110100000100);
}

#[test]
fn jge_check() {
    let result = enc(
        Token::Ident("jge".to_string()),
        Some(Token::Literal(3)),
        None,
    );
    println!("rsrsr {result:b}");
    assert_eq!(result as u16, 0b0010000100000011);
}

#[test]
fn cl_check() {
    let result = enc(
        Token::Ident("cl".to_string()),
        Some(Token::Literal(2)),
        None,
    );
    assert_eq!(result.abs() as u16, 0b0011000100000010);
}

#[test]
fn mul_check() {
    let result = enc(
        Token::Ident("mul".to_string()),
        Some(Token::Register(0)),
        Some(Token::RegPointer(7)),
    );
    assert_eq!(result as u16, 0b1011000001000111);
}

#[test]
fn ret_check() {
    let result = enc(Token::Ident("ret".to_string()), None, None);
    assert_eq!(result as u16, 0b0101000000000000);
}

#[test]
fn ld_check() {
    let result = enc(
        Token::Ident("ld".to_string()),
        Some(Token::Register(5)),
        Some(Token::Literal(1)),
    );
    assert_eq!(result as u16, 0b0110101100000001);
}

#[test]
fn st_check() {
    let result = enc(
        Token::Ident("st".to_string()),
        Some(Token::MemAddr(1)),
        Some(Token::Register(4)),
    );
    println!("st {result:b}");
    assert_eq!(result as u16, 0b0111000000001100);
}

#[test]
fn jz_check() {
    let result = enc(
        Token::Ident("jnz".to_string()),
        Some(Token::MemAddr(8)),
        None,
    );
    assert_eq!(result as u16, 0b1001000000001000);
}

#[test]
fn int_check() {
    let result = enc(
        Token::Ident("int".to_string()),
        Some(Token::Literal(1)),
        None,
    );
    assert_eq!(result as u16, 0b1101000100000001);
}

#[test]
fn cmp_check() {
    let result = enc(
        Token::Ident("cmp".to_string()),
        Some(Token::Register(4)),
        Some(Token::MemPointer(32)),
    );
    assert_eq!(result as u16, 0b1010100010100000);
}

#[test]
fn unknown_mnemonic_is_an_error() {
    let tab = SymbolTable::new();
    let r = encode_instruction(&Token::Ident("frob".to_string()), None, None, &tab, 3);
    assert!(r.is_err());
}

#[test]
fn unresolved_subroutine_is_an_error() {
    let tab = SymbolTable::new();
    let r = encode_instruction(
        &Token::Ident("jmp".to_string()),
        Some(&Token::SRCall("nowhere".to_string())),
        None,
        &tab,
        4,
    );
    assert!(r.is_err());
}

#[test]
fn subroutine_call_resolves_through_the_table() {
    let mut tab = SymbolTable::new();
    tab.insert("foo".chars().collect(), 7);
    let w = encode_instruction(
        &Token::Ident("jmp".to_string()),
        Some(&Token::SRCall("foo".to_string())),
        None,
        &tab,
        1,
    )
    .unwrap()
    .unwrap();
    assert_eq!(w as u16, (8 << 12) | 7);
}

#[test]
fn register_above_seven_is_rejected() {
    let tab = SymbolTable::new();
    assert!(argument_to_binary(Some(&Token::Register(8)), &tab, 1).is_err());
    assert_eq!(argument_to_binary(Some(&Token::Register(7)), &tab, 1), Ok(7));
}

#[test]
fn directive_words_take_their_codes() {
    let tab = SymbolTable::new();
    let w = encode_instruction(
        &Token::Label("start".to_string()),
        Some(&Token::MemAddr(100)),
        None,
        &tab,
        1,
    )
    .unwrap()
    .unwrap();
    assert_eq!(w as u16, (1 << 9) | 100);
    let w2 = encode_instruction(
        &Token::Label("ssp".to_string()),
        Some(&Token::MemAddr(50)),
        None,
        &tab,
        1,
    )
    .unwrap()
    .unwrap();
    assert_eq!(w2 as u16, (2 << 9) | 50);
}

#[test]
fn arity_is_enforced_for_every_shape() {
    // no-operand mnemonics reject operands
    assert!(verify(
        &Token::Ident("HLT".to_string()),
        Some(&Token::Register(0)),
        None,
        1
    )
    .is_err());
    assert!(verify(&Token::Ident("HLT".to_string()), None, None, 1).is_ok());
    // two-operand mnemonics need both
    assert!(verify(
        &Token::Ident("ADD".to_string()),
        Some(&Token::Register(0)),
        None,
        1
    )
    .is_err());
    assert!(verify(
        &Token::Ident("ADD".to_string()),
        Some(&Token::Register(0)),
        Some(&Token::Literal(4)),
        1
    )
    .is_ok());
    // one-operand mnemonics take exactly one
    assert!(verify(&Token::Ident("PUSH".to_string()), None, None, 1).is_err());
    assert!(verify(
        &Token::Ident("JMP".to_string()),
        Some(&Token::MemAddr(5)),
        Some(&Token::MemAddr(6)),
        1
    )
    .is_err());
    assert!(verify(
        &Token::Ident("JMP".to_string()),
        Some(&Token::MemAddr(5)),
        None,
        1
    )
    .is_ok());
    // INT takes zero or one non-negative literal
    assert!(verify(&Token::Ident("INT".to_string()), None, None, 1).is_ok());
    assert!(verify(
        &Token::Ident("INT".to_string()),
        Some(&Token::Literal(130)),
        None,
        1
    )
    .is_err());
}

#[test]
fn kind_table_is_enforced() {
    // LD's source must be a direct memory address inside nine bits
    assert!(verify(
        &Token::Ident("LD".to_string()),
        Some(&Token::Register(1)),
        Some(&Token::MemAddr(511)),
        1
    )
    .is_ok());
    assert!(verify(
        &Token::Ident("LD".to_string()),
        Some(&Token::Register(1)),
        Some(&Token::Literal(3)),
        1
    )
    .is_err());
    // ST's destination is a direct address or register pointer
    assert!(verify(
        &Token::Ident("ST".to_string()),
        Some(&Token::RegPointer(2)),
        Some(&Token::Register(0)),
        1
    )
    .is_ok());
    assert!(verify(
        &Token::Ident("ST".to_string()),
        Some(&Token::Literal(2)),
        Some(&Token::Register(0)),
        1
    )
    .is_err());
}

#[test]
fn duplicate_label_is_rejected_before_encoding() {
    // the source `foo:` / `ADD %r0, #1` / `foo:` / `HLT`
    let lines: Vec<String> = vec![
        "foo:".to_string(),
        "ADD %r0, #1".to_string(),
        "foo:".to_string(),
        "HLT".to_string(),
    ];
    let start = process_start(&lines).unwrap();
    assert_eq!(start, 0);
    assert!(load_subroutines(&lines, start).is_err());
}

#[test]
fn resolver_assigns_following_instruction_addresses() {
    let lines: Vec<String> = vec![
        ".start $10".to_string(),
        "ADD %r0, #1".to_string(),
        "loop:".to_string(),
        "ADD %r0, #1".to_string(),
        "HLT".to_string(),
    ];
    let start = process_start(&lines).unwrap();
    assert_eq!(start, 10);
    let tab = load_subroutines(&lines, start).unwrap();
    assert_eq!(tab.get(&"loop".chars().collect()), Some(11));
}

#[test]
fn two_start_directives_are_an_error() {
    let lines: Vec<String> = vec![".start $1".to_string(), ".start $2".to_string()];
    assert!(process_start(&lines).is_err());
}
