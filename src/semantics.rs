//! Properties of the instruction semantics, stated over the abstract machine
//! state and proved from the definitions that the CPU's contracts use.
use vstd::prelude::*;
use crate::cpu::{execute_spec, opcode_at, tick_spec, CpuError, CpuState, FLAG, MEMORY_SIZE, STACK_SIZE};
use crate::instruction::{decode_spec, Instruction};
use crate::keyboard::any_key_pressed;

verus! {

/// `8xy4` with `Vx = a`, `Vy = b` (and `x` not the flag register): the flag
/// is 1 exactly when `a + b > 255`, and `Vx` becomes `(a + b) mod 256`.
pub proof fn lemma_add_xy_carry(s: CpuState, x: u8, y: u8, rnd: u8)
    requires
        s.registers.len() == 16,
        x < FLAG,
        y < 16,
    ensures
        ({
            let a = s.registers[x as int];
            let b = s.registers[y as int];
            let r = execute_spec(s, Instruction::AddXy(x, y), rnd);
            &&& r is Ok
            &&& r->Ok_0.registers[FLAG as int] == (if a + b > 255 { 1u8 } else { 0u8 })
            &&& r->Ok_0.registers[x as int] == (a + b) % 256
        }),
{
}

/// `8xy5` with `Vx = a`, `Vy = b` (and `x` not the flag register): the flag
/// is 1 exactly when `a > b`, and `Vx` becomes `(a - b) mod 256`.
pub proof fn lemma_sub_xy_borrow(s: CpuState, x: u8, y: u8, rnd: u8)
    requires
        s.registers.len() == 16,
        x < FLAG,
        y < 16,
    ensures
        ({
            let a = s.registers[x as int];
            let b = s.registers[y as int];
            let r = execute_spec(s, Instruction::SubXy(x, y), rnd);
            &&& r is Ok
            &&& r->Ok_0.registers[FLAG as int] == (if a > b { 1u8 } else { 0u8 })
            &&& r->Ok_0.registers[x as int] == (a - b) % 256
        }),
{
}

/// The shifts set the flag to the bit that the shift moves out of the
/// original value: its lowest bit for `8xy6`, its highest for `8xyE`.
pub proof fn lemma_shift_flag(s: CpuState, x: u8, rnd: u8)
    requires
        s.registers.len() == 16,
        x < FLAG,
    ensures
        ({
            let a = s.registers[x as int];
            let right = execute_spec(s, Instruction::ShrXy(x), rnd);
            let left = execute_spec(s, Instruction::ShlXy(x), rnd);
            &&& right is Ok
            &&& right->Ok_0.registers[FLAG as int] == a % 2
            &&& right->Ok_0.registers[x as int] == a / 2
            &&& left is Ok
            &&& left->Ok_0.registers[FLAG as int] == a / 128
            &&& left->Ok_0.registers[x as int] == (a * 2) % 256
        }),
{
}

/// `7xkk` wraps modulo 256 and changes no register but `Vx`; in particular
/// it leaves the flag register alone when `x` is not the flag register.
pub proof fn lemma_add_immediate_wraps(s: CpuState, x: u8, kk: u8, rnd: u8)
    requires
        s.registers.len() == 16,
        x < 16,
    ensures
        ({
            let a = s.registers[x as int];
            let r = execute_spec(s, Instruction::Add(x, kk), rnd);
            &&& r is Ok
            &&& r->Ok_0.registers == s.registers.update(x as int, ((a + kk) % 256) as u8)
            &&& x != FLAG ==> r->Ok_0.registers[FLAG as int] == s.registers[FLAG as int]
        }),
{
}

/// The state after `n` consecutive `2nnn` calls to `addr`.
pub open spec fn calls(s: CpuState, addr: u16, n: nat) -> Result<CpuState, CpuError>
    decreases n,
{
    if n == 0 {
        Ok(s)
    } else {
        match calls(s, addr, (n - 1) as nat) {
            Ok(t) => execute_spec(t, Instruction::Call(addr), 0),
            Err(e) => Err(e),
        }
    }
}

proof fn lemma_calls_fit(s: CpuState, addr: u16, n: nat)
    requires
        s.sp == 0,
        n <= STACK_SIZE,
    ensures
        calls(s, addr, n) is Ok,
        calls(s, addr, n)->Ok_0.sp == n,
    decreases n,
{
    if n > 0 {
        lemma_calls_fit(s, addr, (n - 1) as nat);
    }
}

/// From an empty stack, sixteen consecutive calls succeed and the
/// seventeenth is a stack overflow; a return on an empty stack is a stack
/// underflow.
pub proof fn lemma_stack_limits(s: CpuState, addr: u16, rnd: u8)
    requires
        s.sp == 0,
    ensures
        calls(s, addr, 16) is Ok,
        calls(s, addr, 17) == Err::<CpuState, CpuError>(CpuError::StackOverflow),
        execute_spec(s, Instruction::Ret, rnd) == Err::<CpuState, CpuError>(CpuError::StackUnderflow),
{
    lemma_calls_fit(s, addr, 16);
}

/// `Fx29` points the index register at the digit sprite of the low nibble of
/// `Vx`: `(Vx mod 16) * 5`, inside the sprite area.
pub proof fn lemma_digit_sprite_address(s: CpuState, x: u8, rnd: u8)
    requires
        s.registers.len() == 16,
        x < 16,
    ensures
        ({
            let r = execute_spec(s, Instruction::LdF(x), rnd);
            &&& r is Ok
            &&& r->Ok_0.i == (s.registers[x as int] % 16) * 5
            &&& r->Ok_0.i < 80
        }),
{
}

/// A tick on `Fx0A` with no key pressed leaves the program counter where it
/// was, so the same instruction runs again on the next tick, and changes no
/// register.
pub proof fn lemma_wait_for_key_repeats(s: CpuState, x: u8, rnd: u8)
    requires
        0 <= s.pc,
        s.pc + 1 < MEMORY_SIZE,
        decode_spec(opcode_at(s.memory, s.pc)) == Some(Instruction::LdK(x)),
        !any_key_pressed(s.keys),
    ensures
        tick_spec(s, rnd) is Ok,
        tick_spec(s, rnd)->Ok_0.pc == s.pc,
        tick_spec(s, rnd)->Ok_0.registers == s.registers,
{
}

} // verus!
