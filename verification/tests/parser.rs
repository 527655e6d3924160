//! Tests of the command mini-language parser.

use sosim::lang::parse::{Command, _AllocReq, _DeallocReq};
use sosim::lang::parser;

////////////// Expression //////////////

#[test]
fn expression_add_par() {
    assert_eq!(parser::expression("(54+2)").unwrap(), 56);
}

#[test]
fn expression_add() {
    assert_eq!(parser::expression("54+2").unwrap(), 56);
}

#[test]
fn expression_par() {
    assert_eq!(parser::expression("(5)").unwrap(), 5);
}

#[test]
fn expression_min() {
    assert_eq!(parser::expression("54-2").unwrap(), 52);
}

#[test]
fn expression_mod() {
    assert_eq!(parser::expression("54/2").unwrap(), 0);
}

#[test]
fn expression_unary_minus() {
    assert_eq!(parser::expression("-5").unwrap(), -5);
    assert_eq!(parser::expression("2*-3").unwrap(), -6);
}

#[test]
fn expression_precedence() {
    assert_eq!(parser::expression("2+3*4").unwrap(), 14);
    assert_eq!(parser::expression("(2+3)*4").unwrap(), 20);
}

#[test]
fn expression_remainder() {
    assert_eq!(parser::expression("7/3").unwrap(), 1);
}

#[test]
fn expression_rejects_oversized_scalar() {
    assert!(parser::expression("200").is_err());
}

#[test]
fn expression_rejects_zero_divisor() {
    assert!(parser::expression("5/0").is_err());
}

#[test]
fn expression_rejects_trailing_garbage() {
    assert!(parser::expression("5+").is_err());
}

////////////// Commands //////////////

#[test]
#[should_panic]
fn ill_command_sc() {
    // We use alloc here but any command missing a semicolon is ill-formed really
    let cmd = "alloc 24 0";
    parser::cmd(cmd).unwrap();
}

#[test]
fn _alloc_scalar() {
    let cmd = "alloc 24 0;";
    assert_eq!(
        parser::cmd(cmd).unwrap(),
        Command::Alloc(_AllocReq {
            aggr: vec![24],
            at: Some(0),
            label: None
        })
    );
}

#[test]
fn _alloc_aggr() {
    let cmd = "struct 24 35 64,0;";
    assert_eq!(
        parser::cmd(cmd).unwrap(),
        Command::Alloc(_AllocReq {
            aggr: vec![24, 35, 64],
            at: Some(0),
            label: None
        })
    );
}

#[test]
fn _dealloc() {
    let cmd = "dealloc 0;";
    assert_eq!(
        parser::cmd(cmd).unwrap(),
        Command::Dealloc(_DeallocReq { at: 0 })
    );
}

#[test]
fn cmd_dbg_and_exit() {
    assert_eq!(parser::cmd("dbg;").unwrap(), Command::Debug);
    assert_eq!(parser::cmd("exit;").unwrap(), Command::Exit);
}

#[test]
fn parse_src_sequence() {
    let cmds = sosim::lang::parse_src(" alloc 24 0; dealloc 0; dbg; ".to_string()).unwrap();
    assert_eq!(cmds.len(), 3);
    assert_eq!(
        cmds[0],
        Command::Alloc(_AllocReq {
            aggr: vec![24],
            at: Some(0),
            label: None
        })
    );
    assert_eq!(cmds[1], Command::Dealloc(_DeallocReq { at: 0 }));
    assert_eq!(cmds[2], Command::Debug);
}

#[test]
fn parse_src_empty_is_ok() {
    assert_eq!(sosim::lang::parse_src("  ".to_string()).unwrap().len(), 0);
}

#[test]
fn parse_src_rejects_garbage() {
    assert!(sosim::lang::parse_src("alloc 24 0; what".to_string()).is_err());
}

#[test]
fn dealloc_address_bounds() {
    // the largest address that fits is accepted; one past it is not
    assert_eq!(
        parser::cmd("dealloc 18446744073709551615;").unwrap(),
        Command::Dealloc(_DeallocReq {
            at: u64::MAX
        })
    );
    assert!(parser::cmd("dealloc 18446744073709551616;").is_err());
}

#[test]
fn expression_wraps_in_eight_bits() {
    // 127 + 1 wraps, as eight-bit machine arithmetic does
    assert_eq!(parser::expression("127+1").unwrap(), -128);
    assert_eq!(parser::expression("-(2*3)+1").unwrap(), -5);
}
