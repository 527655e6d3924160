//! A recursive-descent parser for the command mini-language.
//!
//! Grammar, whitespace-tolerant (space, newline, tab):
//! - `expression`: `+`/`-` over `*`/`/` over unary `-` over parentheses
//!   and decimal scalars; `/` computes the remainder; arithmetic wraps
//!   in eight bits.
//! - commands, each terminated by `;`: `alloc <scalar> <addr>`,
//!   `struct <scalar>* , <addr>`, `dealloc <addr>`, `dbg`, `exit`.
//! - `parse`: a whitespace-separated command sequence consuming the
//!   whole input.

use super::parse::{Command, _AllocReq, _DeallocReq};
use vstd::prelude::*;
use vstd::string::StringSliceAdditionalSpecFns;

verus! {

/// The input did not match the grammar.
#[derive(Clone, Copy, Debug, PartialEq, Eq, Structural)]
pub struct ParseError;

/// Whitespace accepted between tokens: space, newline, tab.
pub open spec fn is_ws(b: u8) -> bool {
    b == 32 || b == 10 || b == 9
}

/// A decimal digit byte.
pub open spec fn is_digit(b: u8) -> bool {
    48 <= b <= 57
}

/// The number the digit run `s[i..j)` denotes, read left to right.
pub open spec fn digits_val(s: Seq<u8>, i: int, j: int) -> int
    decreases j - i,
{
    if i >= j {
        0
    } else {
        digits_val(s, i, j - 1) * 10 + (s[j - 1] - 48)
    }
}

/// First position at or after `i` holding a non-whitespace byte.
fn skip_ws(s: &[u8], i: usize) -> (j: usize)
    requires
        i <= s@.len(),
    ensures
        i <= j <= s@.len(),
        forall|k: int| i <= k < j ==> is_ws(s@[k]),
        j < s@.len() ==> !is_ws(s@[j as int]),
{
    let mut j = i;
    while j < s.len() && (s[j] == 32 || s[j] == 10 || s[j] == 9)
        invariant
            i <= j <= s@.len(),
            forall|k: int| i <= k < j ==> is_ws(s@[k]),
        decreases s@.len() - j,
    {
        j = j + 1;
    }
    j
}

/// Position right after the keyword when the input carries it at `i`.
fn match_kw(s: &[u8], i: usize, kw: &str) -> (r: Option<usize>)
    requires
        i <= s@.len(),
    ensures
        r matches Some(j) ==> i <= j <= s@.len(),
{
    let kb = kw.as_bytes();
    if kb.len() > s.len() - i {
        return None;
    }
    let mut k: usize = 0;
    while k < kb.len()
        invariant
            i + kb@.len() <= s@.len(),
            i + kb@.len() <= usize::MAX,
            k <= kb@.len(),
        decreases kb@.len() - k,
    {
        if s[i + k] != kb[k] {
            return None;
        }
        k = k + 1;
    }
    Some(i + kb.len())
}

/// Scans the digit run starting at `i`: its end, and its value —
/// exact up to `u64::MAX`, and anything larger than `u64::MAX` when
/// the run denotes more.
fn scan_digits(s: &[u8], i: usize) -> (r: (usize, u128))
    requires
        i <= s@.len(),
    ensures
        ({
            let (j, acc) = r;
            &&& i <= j <= s@.len()
            &&& forall|k: int| i <= k < j ==> is_digit(s@[k])
            &&& (j < s@.len() ==> !is_digit(s@[j as int]))
            &&& (digits_val(s@, i as int, j as int) <= u64::MAX ==> acc == digits_val(
                s@,
                i as int,
                j as int,
            ))
            &&& (digits_val(s@, i as int, j as int) > u64::MAX ==> acc > u64::MAX)
        }),
{
    let mut j = i;
    let mut acc: u128 = 0;
    while j < s.len() && 48 <= s[j] && s[j] <= 57
        invariant
            i <= j <= s@.len(),
            forall|k: int| i <= k < j ==> is_digit(s@[k]),
            acc <= 0xffffffffffffffffu128 * 10 + 9,
            digits_val(s@, i as int, j as int) <= u64::MAX ==> acc == digits_val(
                s@,
                i as int,
                j as int,
            ),
            digits_val(s@, i as int, j as int) > u64::MAX ==> acc > u64::MAX,
        decreases s@.len() - j,
    {
        let d = s[j] - 48;
        proof {
            let v = digits_val(s@, i as int, j as int);
            assert(digits_val(s@, i as int, j as int + 1) == v * 10 + d);
            if v > u64::MAX {
                vstd::arithmetic::mul::lemma_mul_inequality(
                    u64::MAX as int + 1,
                    v,
                    10,
                );
            }
        }
        if acc <= 0xffffffffffffffffu128 {
            acc = acc * 10 + d as u128;
        }
        j = j + 1;
    }
    (j, acc)
}

/// The value `v` is what some digit run of `s` between `i` and `j`
/// denotes.
pub open spec fn reads_digit_run(s: Seq<u8>, i: int, j: int, v: int) -> bool {
    exists|a: int, b: int|
        {
            &&& i <= a < b <= j <= s.len()
            &&& (forall|k: int| a <= k < b ==> is_digit(s[k]))
            &&& v == #[trigger] digits_val(s, a, b)
        }
}

/// A value read from a digit run of `s[i1..j1)` is read from a digit
/// run of any enclosing slice.
proof fn lemma_digit_run_widen(s: Seq<u8>, i1: int, j1: int, i: int, j: int, v: int)
    requires
        reads_digit_run(s, i1, j1, v),
        i <= i1,
        j1 <= j <= s.len(),
    ensures
        reads_digit_run(s, i, j, v),
{
    let (a, b) = choose|a: int, b: int|
        {
            &&& i1 <= a < b <= j1 <= s.len()
            &&& (forall|k: int| a <= k < b ==> is_digit(s[k]))
            &&& v == #[trigger] digits_val(s, a, b)
        };
    assert(i <= a < b <= j <= s.len() && (forall|k: int| a <= k < b ==> is_digit(s[k])) && v
        == digits_val(s, a, b));
}

/// What the grammar guarantees of any command it hands back for the
/// input slice `s[i..j)`: its shape is one the command rules produce —
/// never a read or a write, which have no surface syntax — and every
/// numeric payload was read from a digit run of that slice.
pub open spec fn command_values_from(s: Seq<u8>, i: int, j: int, c: Command) -> bool {
    match c {
        Command::Alloc(req) => {
            &&& req.at is Some
            &&& req.label is None
            &&& reads_digit_run(s, i, j, req.at->0 as int)
            &&& forall|k: int|
                0 <= k < req.aggr@.len() ==> 0 <= #[trigger] req.aggr@[k] && reads_digit_run(
                    s,
                    i,
                    j,
                    req.aggr@[k] as int,
                )
        },
        Command::Dealloc(req) => reads_digit_run(s, i, j, req.at as int),
        Command::Write(_) => false,
        Command::Read(_) => false,
        Command::Exit => true,
        Command::Debug => true,
    }
}

/// A command read from the slice `s[i1..j1)` is read from any enclosing
/// slice.
proof fn lemma_command_widen(s: Seq<u8>, i1: int, j1: int, i: int, j: int, c: Command)
    requires
        command_values_from(s, i1, j1, c),
        i <= i1 <= j1 <= j <= s.len(),
    ensures
        command_values_from(s, i, j, c),
{
    match c {
        Command::Alloc(req) => {
            lemma_digit_run_widen(s, i1, j1, i, j, req.at->0 as int);
            assert forall|k: int| 0 <= k < req.aggr@.len() implies 0 <= #[trigger] req.aggr@[k]
                && reads_digit_run(s, i, j, req.aggr@[k] as int) by {
                lemma_digit_run_widen(s, i1, j1, i, j, req.aggr@[k] as int);
            }
        },
        Command::Dealloc(req) => {
            lemma_digit_run_widen(s, i1, j1, i, j, req.at as int);
        },
        _ => {},
    }
}

/// What a successful whole-input parse guarantees: every command's
/// shape and numeric payloads come from the input, an all-whitespace
/// input yields no commands, and a nonempty command list comes from an
/// input whose last command ends at a `;` followed only by whitespace —
/// so a well-formed command without its terminating `;` is rejected.
pub open spec fn parse_ok(s: Seq<u8>, cmds: Seq<Command>) -> bool {
    &&& forall|k: int|
        0 <= k < cmds.len() ==> command_values_from(s, 0, s.len() as int, #[trigger] cmds[k])
    &&& (cmds.len() == 0 ==> forall|k: int| 0 <= k < s.len() ==> is_ws(s[k]))
    &&& (cmds.len() > 0 ==> exists|p: int|
        0 <= p < s.len() && (#[trigger] s[p]) == 59 && (forall|k: int|
            p < k < s.len() ==> is_ws(s[k])))
}

/// Parses a scalar: optional whitespace, a digit run valued at most
/// 127, optional whitespace.
fn parse_scalar(s: &[u8], i: usize) -> (r: Option<(i8, usize)>)
    requires
        i <= s@.len(),
    ensures
        r matches Some((v, j)) ==> i < j <= s@.len() && 0 <= v <= 127 && reads_digit_run(
            s@,
            i as int,
            j as int,
            v as int,
        ) && (exists|k: int| i <= k < j && is_digit(#[trigger] s@[k])),
{
    let j0 = skip_ws(s, i);
    let (j1, acc) = scan_digits(s, j0);
    if j1 == j0 {
        return None;
    }
    if acc > 127 {
        return None;
    }
    let j2 = skip_ws(s, j1);
    proof {
        assert(acc == digits_val(s@, j0 as int, j1 as int));
        assert(is_digit(s@[j0 as int]));
    }
    Some((acc as i8, j2))
}

/// Parses an address: optional whitespace, a digit run fitting `u64`,
/// optional whitespace.
fn parse_addr(s: &[u8], i: usize) -> (r: Option<(u64, usize)>)
    requires
        i <= s@.len(),
    ensures
        r matches Some((v, j)) ==> i < j <= s@.len() && reads_digit_run(
            s@,
            i as int,
            j as int,
            v as int,
        ),
{
    let j0 = skip_ws(s, i);
    let (j1, acc) = scan_digits(s, j0);
    if j1 == j0 {
        return None;
    }
    if acc > 0xffffffffffffffffu128 {
        return None;
    }
    let j2 = skip_ws(s, j1);
    proof {
        assert(acc == digits_val(s@, j0 as int, j1 as int));
    }
    Some((acc as u64, j2))
}

/// What a value one eight-bit step out of range wraps to.
pub open spec fn wrap8(v: int) -> int {
    if v > 127 {
        v - 256
    } else if v < -128 {
        v + 256
    } else {
        v
    }
}

/// Eight-bit wrapping addition.
fn add_wrap(x: i8, y: i8) -> (r: i8)
    ensures
        r == wrap8(x + y),
{
    let v: i16 = x as i16 + y as i16;
    if v > 127 {
        (v - 256) as i8
    } else if v < -128 {
        (v + 256) as i8
    } else {
        v as i8
    }
}

/// Eight-bit wrapping subtraction.
fn sub_wrap(x: i8, y: i8) -> (r: i8)
    ensures
        r == wrap8(x - y),
{
    let v: i16 = x as i16 - y as i16;
    if v > 127 {
        (v - 256) as i8
    } else if v < -128 {
        (v + 256) as i8
    } else {
        v as i8
    }
}

/// What any value wraps to in eight bits.
pub open spec fn wrap8_mod(v: int) -> int {
    ((v + 128) % 256) - 128
}

/// Eight-bit wrapping multiplication.
fn mul_wrap(x: i8, y: i8) -> (r: i8)
    ensures
        r == wrap8_mod(x * y),
        -128 <= x * y <= 127 ==> r == x * y,
{
    proof {
        assert(-0x4000 <= (x as int) * (y as int) <= 0x4000) by (nonlinear_arith)
            requires
                -128 <= x <= 127,
                -128 <= y <= 127,
        ;
    }
    let p: i16 = x as i16 * y as i16;
    // shift by a multiple of 256 into nonnegative range, reduce, recentre
    let u: i32 = p as i32 + 128 + 32768;
    let m: i32 = u % 256;
    proof {
        vstd::arithmetic::div_mod::lemma_mod_multiples_vanish(128, p as int + 128, 256);
        vstd::arithmetic::div_mod::lemma_mod_division_less_than_divisor(u as int, 256);
        vstd::arithmetic::div_mod::lemma_mod_bound(u as int, 256);
        if -128 <= x * y <= 127 {
            vstd::arithmetic::div_mod::lemma_small_mod((x * y + 128) as nat, 256);
        }
    }
    (m - 128) as i8
}

/// Eight-bit wrapping negation; `-128` stays itself.
fn neg_wrap(x: i8) -> (r: i8)
    ensures
        r == wrap8(-x),
{
    if x == -128 {
        x
    } else {
        -x
    }
}

/// The remainder of `x` by `y` with the dividend's sign, as machine
/// division leaves it.
pub open spec fn rem8(x: int, y: int) -> int {
    let ax = if x < 0 {
        -x
    } else {
        x
    };
    let ay = if y < 0 {
        -y
    } else {
        y
    };
    if x < 0 {
        -(ax % ay)
    } else {
        ax % ay
    }
}

/// The remainder of `x` by `y` with the dividend's sign, as the
/// machine computes it; `None` on a zero divisor.
fn rem_i8(x: i8, y: i8) -> (r: Option<i8>)
    ensures
        y != 0 ==> r == Some((rem8(x as int, y as int) as i8)),
        y == 0 ==> r is None,
{
    if y == 0 {
        return None;
    }
    let ax: i16 = if x < 0 {
        0i16 - x as i16
    } else {
        x as i16
    };
    let ay: i16 = if y < 0 {
        0i16 - y as i16
    } else {
        y as i16
    };
    let m = ax % ay;
    let r0: i16 = if x < 0 {
        0i16 - m
    } else {
        m
    };
    Some(r0 as i8)
}

/// Parses one atom: a unary minus, a parenthesized expression, or a
/// scalar.
fn parse_atom(s: &[u8], i: usize) -> (r: Option<(i8, usize)>)
    requires
        i <= s@.len(),
    ensures
        r matches Some((v, j)) ==> i < j <= s@.len() && (exists|k: int|
            i <= k < j && is_digit(#[trigger] s@[k])),
    decreases s@.len() - i, 0int,
{
    let j = skip_ws(s, i);
    if j < s.len() && s[j] == 45 {
        // a leading minus sign
        match parse_atom(s, j + 1) {
            Some((v, p)) => Some((neg_wrap(v), p)),
            None => None,
        }
    } else if j < s.len() && s[j] == 40 {
        // an opening parenthesis
        match parse_expr(s, j + 1) {
            Some((v, p)) => {
                let q = skip_ws(s, p);
                if q < s.len() && s[q] == 41 {
                    Some((v, q + 1))
                } else {
                    None
                }
            },
            None => None,
        }
    } else {
        parse_scalar(s, i)
    }
}

/// Parses a product: atoms joined by `*` (product) or `/` (remainder).
fn parse_product(s: &[u8], i: usize) -> (r: Option<(i8, usize)>)
    requires
        i <= s@.len(),
    ensures
        r matches Some((v, j)) ==> i < j <= s@.len() && (exists|k: int|
            i <= k < j && is_digit(#[trigger] s@[k])),
    decreases s@.len() - i, 1int,
{
    let first = parse_atom(s, i);
    match first {
        None => None,
        Some((v0, p0)) => {
            let mut v = v0;
            let mut p = p0;
            let mut done = false;
            while !done
                invariant
                    i < p <= s@.len(),
                    exists|k: int| i <= k < p && is_digit(#[trigger] s@[k]),
                decreases s@.len() - p + (if done {
                    0int
                } else {
                    1int
                }),
            {
                let q = skip_ws(s, p);
                if q < s.len() && (s[q] == 42 || s[q] == 47) {
                    let star = s[q] == 42;
                    match parse_atom(s, q + 1) {
                        Some((w, p2)) => {
                            if star {
                                v = mul_wrap(v, w);
                            } else {
                                match rem_i8(v, w) {
                                    Some(m) => {
                                        v = m;
                                    },
                                    None => {
                                        return None;
                                    },
                                }
                            }
                            p = p2;
                        },
                        None => {
                            done = true;
                        },
                    }
                } else {
                    done = true;
                }
            }
            Some((v, p))
        },
    }
}

/// Parses an expression: products joined by `+` or `-`.
fn parse_expr(s: &[u8], i: usize) -> (r: Option<(i8, usize)>)
    requires
        i <= s@.len(),
    ensures
        r matches Some((v, j)) ==> i < j <= s@.len() && (exists|k: int|
            i <= k < j && is_digit(#[trigger] s@[k])),
    decreases s@.len() - i, 2int,
{
    let first = parse_product(s, i);
    match first {
        None => None,
        Some((v0, p0)) => {
            let mut v = v0;
            let mut p = p0;
            let mut done = false;
            while !done
                invariant
                    i < p <= s@.len(),
                    exists|k: int| i <= k < p && is_digit(#[trigger] s@[k]),
                decreases s@.len() - p + (if done {
                    0int
                } else {
                    1int
                }),
            {
                let q = skip_ws(s, p);
                if q < s.len() && (s[q] == 43 || s[q] == 45) {
                    let plus = s[q] == 43;
                    match parse_product(s, q + 1) {
                        Some((w, p2)) => {
                            v = if plus {
                                add_wrap(v, w)
                            } else {
                                sub_wrap(v, w)
                            };
                            p = p2;
                        },
                        None => {
                            done = true;
                        },
                    }
                } else {
                    done = true;
                }
            }
            Some((v, p))
        },
    }
}

/// Parses `alloc <scalar> <addr>` into an allocation of one word.
fn try_alloc_scalar(s: &[u8], i: usize) -> (r: Option<(Command, usize)>)
    requires
        i <= s@.len(),
    ensures
        r matches Some((c, j)) ==> i <= j <= s@.len() && command_values_from(
            s@,
            i as int,
            j as int,
            c,
        ) && (c matches Command::Alloc(req) && req.aggr@.len() == 1),
{
    let j0 = skip_ws(s, i);
    let j1 = match match_kw(s, j0, "alloc") {
        Some(x) => x,
        None => {
            return None;
        },
    };
    let (v, j2) = match parse_scalar(s, j1) {
        Some(x) => x,
        None => {
            return None;
        },
    };
    let (a, j3) = match parse_addr(s, j2) {
        Some(x) => x,
        None => {
            return None;
        },
    };
    proof {
        lemma_digit_run_widen(s@, j1 as int, j2 as int, i as int, j3 as int, v as int);
        lemma_digit_run_widen(s@, j2 as int, j3 as int, i as int, j3 as int, a as int);
    }
    Some((Command::Alloc(_AllocReq { aggr: vec![v], at: Some(a), label: None }), j3))
}

/// Parses `struct <scalar>* , <addr>` into an aggregate allocation.
fn try_alloc_aggr(s: &[u8], i: usize) -> (r: Option<(Command, usize)>)
    requires
        i <= s@.len(),
    ensures
        r matches Some((c, j)) ==> i <= j <= s@.len() && command_values_from(
            s@,
            i as int,
            j as int,
            c,
        ) && c matches Command::Alloc(_),
{
    let j0 = skip_ws(s, i);
    let j1 = match match_kw(s, j0, "struct") {
        Some(x) => x,
        None => {
            return None;
        },
    };
    let mut aggr: Vec<i8> = Vec::new();
    let mut p = j1;
    let mut done = false;
    while !done
        invariant
            i <= j1 <= p <= s@.len(),
            forall|k: int|
                0 <= k < aggr@.len() ==> 0 <= #[trigger] aggr@[k] && reads_digit_run(
                    s@,
                    i as int,
                    p as int,
                    aggr@[k] as int,
                ),
        decreases s@.len() - p + (if done {
            0int
        } else {
            1int
        }),
    {
        match parse_scalar(s, p) {
            Some((v, p2)) => {
                proof {
                    assert forall|k: int| 0 <= k < aggr@.len() implies 0 <= #[trigger] aggr@[k]
                        && reads_digit_run(s@, i as int, p2 as int, aggr@[k] as int) by {
                        lemma_digit_run_widen(
                            s@,
                            i as int,
                            p as int,
                            i as int,
                            p2 as int,
                            aggr@[k] as int,
                        );
                    }
                    lemma_digit_run_widen(s@, p as int, p2 as int, i as int, p2 as int, v as int);
                }
                aggr.push(v);
                p = p2;
            },
            None => {
                done = true;
            },
        }
    }
    let q = skip_ws(s, p);
    if !(q < s.len() && s[q] == 44) {
        // no comma before the address
        return None;
    }
    let (a, j2) = match parse_addr(s, q + 1) {
        Some(x) => x,
        None => {
            return None;
        },
    };
    proof {
        assert forall|k: int| 0 <= k < aggr@.len() implies 0 <= #[trigger] aggr@[k]
            && reads_digit_run(s@, i as int, j2 as int, aggr@[k] as int) by {
            lemma_digit_run_widen(s@, i as int, p as int, i as int, j2 as int, aggr@[k] as int);
        }
        lemma_digit_run_widen(s@, q as int + 1, j2 as int, i as int, j2 as int, a as int);
    }
    Some((Command::Alloc(_AllocReq { aggr, at: Some(a), label: None }), j2))
}

/// Parses `dealloc <addr>`.
fn try_dealloc(s: &[u8], i: usize) -> (r: Option<(Command, usize)>)
    requires
        i <= s@.len(),
    ensures
        r matches Some((c, j)) ==> i <= j <= s@.len() && command_values_from(
            s@,
            i as int,
            j as int,
            c,
        ) && c matches Command::Dealloc(_),
{
    let j0 = skip_ws(s, i);
    let j1 = match match_kw(s, j0, "dealloc") {
        Some(x) => x,
        None => {
            return None;
        },
    };
    let (a, j2) = match parse_addr(s, j1) {
        Some(x) => x,
        None => {
            return None;
        },
    };
    proof {
        lemma_digit_run_widen(s@, j1 as int, j2 as int, i as int, j2 as int, a as int);
    }
    Some((Command::Dealloc(_DeallocReq { at: a }), j2))
}

/// Parses `dbg`.
fn try_dbg(s: &[u8], i: usize) -> (r: Option<(Command, usize)>)
    requires
        i <= s@.len(),
    ensures
        r matches Some((c, j)) ==> i <= j <= s@.len() && c == Command::Debug,
{
    let j = skip_ws(s, i);
    match match_kw(s, j, "dbg") {
        Some(j) => Some((Command::Debug, j)),
        None => None,
    }
}

/// Parses `exit`.
fn try_exit(s: &[u8], i: usize) -> (r: Option<(Command, usize)>)
    requires
        i <= s@.len(),
    ensures
        r matches Some((c, j)) ==> i <= j <= s@.len() && c == Command::Exit,
{
    let j = skip_ws(s, i);
    let j = match match_kw(s, j, "exit") {
        Some(j) => j,
        None => {
            return None;
        },
    };
    let j2 = skip_ws(s, j);
    Some((Command::Exit, j2))
}

/// Parses one semicolon-terminated command, trying each form in turn.
fn try_cmd(s: &[u8], i: usize) -> (r: Option<(Command, usize)>)
    requires
        i <= s@.len(),
    ensures
        r matches Some((c, j)) ==> i < j <= s@.len() && s@[j - 1] == 59 && command_values_from(
            s@,
            i as int,
            j as int,
            c,
        ),
{
    match try_alloc_scalar(s, i) {
        Some((c, p)) => {
            if p < s.len() && s[p] == 59 {
                proof {
                    lemma_command_widen(s@, i as int, p as int, i as int, p as int + 1, c);
                }
                return Some((c, p + 1));
            }
        },
        None => {},
    }
    match try_alloc_aggr(s, i) {
        Some((c, p)) => {
            if p < s.len() && s[p] == 59 {
                proof {
                    lemma_command_widen(s@, i as int, p as int, i as int, p as int + 1, c);
                }
                return Some((c, p + 1));
            }
        },
        None => {},
    }
    match try_dealloc(s, i) {
        Some((c, p)) => {
            if p < s.len() && s[p] == 59 {
                proof {
                    lemma_command_widen(s@, i as int, p as int, i as int, p as int + 1, c);
                }
                return Some((c, p + 1));
            }
        },
        None => {},
    }
    match try_dbg(s, i) {
        Some((c, p)) => {
            if p < s.len() && s[p] == 59 {
                proof {
                    lemma_command_widen(s@, i as int, p as int, i as int, p as int + 1, c);
                }
                return Some((c, p + 1));
            }
        },
        None => {},
    }
    match try_exit(s, i) {
        Some((c, p)) => {
            if p < s.len() && s[p] == 59 {
                proof {
                    lemma_command_widen(s@, i as int, p as int, i as int, p as int + 1, c);
                }
                return Some((c, p + 1));
            }
        },
        None => {},
    }
    None
}

/// Evaluates a whole input as one expression; a successful evaluation
/// read at least one digit of the input.
pub fn expression(s: &str) -> (r: Result<i8, ParseError>)
    ensures
        r is Ok ==> exists|k: int|
            0 <= k < s.spec_bytes().len() && is_digit(#[trigger] s.spec_bytes()[k]),
{
    let bytes = s.as_bytes();
    match parse_expr(bytes, 0) {
        Some((v, p)) => {
            if p == bytes.len() {
                Ok(v)
            } else {
                Err(ParseError)
            }
        },
        None => Err(ParseError),
    }
}

/// Parses a whole input as one semicolon-terminated command: success
/// means the whole input was consumed, it ends with the `;`, and the
/// command's shape and numeric payloads were read from it.
pub fn cmd(s: &str) -> (r: Result<Command, ParseError>)
    ensures
        r matches Ok(c) ==> ({
            let b = s.spec_bytes();
            &&& b.len() > 0
            &&& b[b.len() - 1] == 59
            &&& command_values_from(b, 0, b.len() as int, c)
        }),
{
    let bytes = s.as_bytes();
    match try_cmd(bytes, 0) {
        Some((c, p)) => {
            if p == bytes.len() {
                Ok(c)
            } else {
                Err(ParseError)
            }
        },
        None => Err(ParseError),
    }
}

/// Parses a whole input as a whitespace-separated command sequence,
/// consuming all of it; see `parse_ok` for what success guarantees.
pub fn parse(s: &str) -> (r: Result<Vec<Command>, ParseError>)
    ensures
        r matches Ok(cmds) ==> parse_ok(s.spec_bytes(), cmds@),
{
    let bytes = s.as_bytes();
    let mut cmds: Vec<Command> = Vec::new();
    let mut i = skip_ws(bytes, 0);
    let mut done = false;
    while !done
        invariant
            i <= bytes@.len(),
            bytes@ == s.spec_bytes(),
            forall|k: int|
                0 <= k < cmds@.len() ==> command_values_from(
                    bytes@,
                    0,
                    bytes@.len() as int,
                    #[trigger] cmds@[k],
                ),
            cmds@.len() == 0 ==> forall|k: int| 0 <= k < i ==> is_ws(bytes@[k]),
            cmds@.len() > 0 ==> exists|p: int|
                0 <= p < i && (#[trigger] bytes@[p]) == 59 && (forall|k: int|
                    p < k < i ==> is_ws(bytes@[k])),
        decreases bytes@.len() - i + (if done {
            0int
        } else {
            1int
        }),
    {
        match try_cmd(bytes, i) {
            Some((c, j)) => {
                proof {
                    lemma_command_widen(
                        bytes@,
                        i as int,
                        j as int,
                        0,
                        bytes@.len() as int,
                        c,
                    );
                }
                cmds.push(c);
                i = skip_ws(bytes, j);
                proof {
                    assert(0 <= j - 1 < i && bytes@[j - 1] == 59 && (forall|k: int|
                        j - 1 < k < i ==> is_ws(bytes@[k])));
                }
            },
            None => {
                done = true;
            },
        }
    }
    if i == bytes.len() {
        Ok(cmds)
    } else {
        Err(ParseError)
    }
}

} // verus!
