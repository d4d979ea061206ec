//! Machine-wide laws of the instruction semantics, stated and proved
//! over the specification step function.

use vstd::prelude::*;
use vstd::arithmetic::div_mod::lemma_mod_add_multiples_vanish;
use crate::arith::lemma_wrap_round;
use crate::cpu::CpuView;
use crate::cpu::Instr;
use crate::cpu::inv;
use crate::cpu::spec_exec_instr;
use crate::cpu::spec_cycle;
use crate::cpu::spec_fetch;
use crate::cpu::spec_decode;
use crate::cpu::spec_resolve;
use crate::cpu::tick;

verus! {

/// Register addition: for all byte pairs the destination receives the
/// sum modulo 256, the flag becomes 1 exactly when the sum exceeds 255,
/// and the program counter advances by one instruction.
///
/// Stated for destinations other than the flag register itself, which
/// the flag write would overwrite.
pub proof fn lemma_add_semantics(s: CpuView, x: u8, y: u8)
    requires
        inv(s),
        x < 15,
        y < 16,
    ensures
        ({
            let a = s.v[x as int];
            let b = s.v[y as int];
            let s2 = spec_exec_instr(s, Instr::AddVy(x, y), 0);
            &&& s2.v[x as int] == ((a + b) % 256) as u8
            &&& s2.v[15] == (if a + b > 255 { 1u8 } else { 0u8 })
            &&& s2.pc == (s.pc + 2) % 4096
        }),
{
}

/// Register subtraction `Vx - Vy`: the destination receives the
/// difference modulo 256 and the flag becomes 0 exactly when the signed
/// difference is negative, else 1.
///
/// Stated for destinations other than the flag register itself.
pub proof fn lemma_sub_semantics(s: CpuView, x: u8, y: u8)
    requires
        inv(s),
        x < 15,
        y < 16,
    ensures
        ({
            let a = s.v[x as int];
            let b = s.v[y as int];
            let s2 = spec_exec_instr(s, Instr::SubVy(x, y), 0);
            &&& s2.v[x as int] == ((a - b) % 256) as u8
            &&& s2.v[15] == (if a - b < 0 { 0u8 } else { 1u8 })
            &&& s2.pc == (s.pc + 2) % 4096
        }),
{
    let a = s.v[x as int];
    let b = s.v[y as int];
    lemma_mod_add_multiples_vanish(a - b, 256);
}

/// The mirrored subtraction `Vy - Vx`: the same law with the operands
/// swapped.
pub proof fn lemma_subn_semantics(s: CpuView, x: u8, y: u8)
    requires
        inv(s),
        x < 15,
        y < 16,
    ensures
        ({
            let a = s.v[y as int];
            let b = s.v[x as int];
            let s2 = spec_exec_instr(s, Instr::SubnVy(x, y), 0);
            &&& s2.v[x as int] == ((a - b) % 256) as u8
            &&& s2.v[15] == (if a - b < 0 { 0u8 } else { 1u8 })
            &&& s2.pc == (s.pc + 2) % 4096
        }),
{
    let a = s.v[y as int];
    let b = s.v[x as int];
    lemma_mod_add_multiples_vanish(a - b, 256);
}

/// Shifts: shifting right moves the source one bit down and hands the
/// flag the source's high bit, unnormalized; shifting left doubles the
/// source modulo 256 and hands the flag the source's low bit.
///
/// Stated for destinations other than the flag register itself.
pub proof fn lemma_shift_semantics(s: CpuView, x: u8, y: u8)
    requires
        inv(s),
        x < 15,
        y < 16,
    ensures
        ({
            let src = s.v[y as int];
            let sr = spec_exec_instr(s, Instr::ShrVy(x, y), 0);
            let sl = spec_exec_instr(s, Instr::ShlVy(x, y), 0);
            &&& sr.v[x as int] == src >> 1u8
            &&& sr.v[15] == src & 0x80
            &&& sl.v[x as int] == src << 1u8
            &&& sl.v[15] == src & 0x01
        }),
{
    let src = s.v[y as int];
    assert(src >> 1u8 == src / 2) by (bit_vector);
    assert(src & 0x80 == (if src >= 128 { 128u8 } else { 0u8 })) by (bit_vector);
    assert(src << 1u8 == ((src * 2) % 256) as u8) by (bit_vector);
    assert(src & 0x01 == (src % 2) as u8) by (bit_vector);
}

/// Skip instructions: the program counter advances by 4 when the
/// condition holds and by 2 otherwise, for every comparison opcode:
/// immediate-equal, immediate-not-equal, register-equal,
/// register-not-equal, key-pressed and key-not-pressed.
pub proof fn lemma_skip_semantics(s: CpuView, x: u8, y: u8, nn: u8)
    requires
        inv(s),
        x < 16,
        y < 16,
    ensures
        spec_exec_instr(s, Instr::SeNn(x, nn), 0).pc == (s.pc + if s.v[x as int] == nn {
            4int
        } else {
            2
        }) as nat % 4096,
        spec_exec_instr(s, Instr::SneNn(x, nn), 0).pc == (s.pc + if s.v[x as int] != nn {
            4int
        } else {
            2
        }) as nat % 4096,
        spec_exec_instr(s, Instr::SeVy(x, y), 0).pc == (s.pc + if s.v[x as int] == s.v[y as int] {
            4int
        } else {
            2
        }) as nat % 4096,
        spec_exec_instr(s, Instr::SneVy(x, y), 0).pc == (s.pc + if s.v[x as int] != s.v[y as int] {
            4int
        } else {
            2
        }) as nat % 4096,
        spec_exec_instr(s, Instr::Skp(x), 0).pc == (s.pc + if s.keys[s.v[x as int] as int % 16] {
            4int
        } else {
            2
        }) as nat % 4096,
        spec_exec_instr(s, Instr::Sknp(x), 0).pc == (s.pc + if s.keys[s.v[x as int] as int % 16] {
            2int
        } else {
            4
        }) as nat % 4096,
{
}

/// Storing registers `0..=x` and then loading them back from the same
/// memory region reproduces every register value, and the index register
/// advances by `x + 1` after either operation.
///
/// The load starts from the index register the store started from, as a
/// program that reloads `I` between the two instructions arranges.
pub proof fn lemma_store_load_roundtrip(s: CpuView, x: u8)
    requires
        inv(s),
        x < 16,
    ensures
        ({
            let s1 = spec_exec_instr(s, Instr::StoreRegs(x), 0);
            let s2 = spec_exec_instr(CpuView { i: s.i, ..s1 }, Instr::LoadRegs(x), 0);
            &&& s1.i == (s.i + x + 1) as nat % 4096
            &&& s2.i == (s.i + x + 1) as nat % 4096
            &&& s2.v == s.v
        }),
{
    let s1 = spec_exec_instr(s, Instr::StoreRegs(x), 0);
    let s2 = spec_exec_instr(CpuView { i: s.i, ..s1 }, Instr::LoadRegs(x), 0);
    assert forall|k: int| 0 <= k < 16 implies s2.v[k] == s.v[k] by {
        if k <= x {
            lemma_wrap_round(s.i as int, k, 4096);
        }
    }
    assert(s2.v =~= s.v);
}

/// A call followed immediately by a return leaves the program counter at
/// the instruction after the call and restores the stack pointer.
pub proof fn lemma_call_return(s: CpuView, addr: u16)
    requires
        inv(s),
        addr < 4096,
        s.sp < 16,
    ensures
        ({
            let s1 = spec_exec_instr(s, Instr::Call(addr), 0);
            let s2 = spec_exec_instr(s1, Instr::Ret, 0);
            &&& s1.pc == addr
            &&& s2.pc == (s.pc + 2) % 4096
            &&& s2.sp == s.sp
        }),
{
}

/// Wait-for-key: a cycle whose fetched instruction is the wait leaves
/// the whole machine unchanged except for recording the pending
/// register, however often it re-executes; resolving with a key the
/// keypad reports pressed stores that key index in the pending register
/// and ends the wait.
pub proof fn lemma_wait_for_key(s: CpuView, r1: u8, r2: u8, key: int)
    requires
        inv(s),
        0 <= key < 16,
    ensures
        spec_decode(spec_fetch(s)) matches Instr::WaitKey(x) ==> ({
            let s1 = spec_cycle(s, r1);
            &&& s1 == (CpuView { wait: Some(x), ..s })
            &&& spec_cycle(s1, r2) == s1
            &&& s.keys[key] ==> ({
                let s3 = spec_resolve(s1, key);
                &&& s3.v == s1.v.update(x as int, key as u8)
                &&& s3.wait is None
                &&& s3.pc == (s.pc + 2) % 4096
            })
        }),
{
}

/// The timer value after `n` ticks, each decrementing while positive.
pub open spec fn tick_n(t: u8, n: nat) -> u8
    decreases n,
{
    if n == 0 {
        t
    } else {
        tick(tick_n(t, (n - 1) as nat))
    }
}

/// Ticking a timer `n` times leaves `max(0, t - n)`: it never wraps and
/// never goes below zero.
pub proof fn lemma_timer_countdown(t: u8, n: nat)
    ensures
        tick_n(t, n) == (if n >= t { 0u8 } else { (t - n) as u8 }),
    decreases n,
{
    if n > 0 {
        lemma_timer_countdown(t, (n - 1) as nat);
    }
}

} // verus!
