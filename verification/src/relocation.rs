//! Moving the first instructions of a function elsewhere: how long each
//! instruction is, how many bytes a patch has to capture, and what the
//! captured instructions look like at their new address.

use crate::assembler::encoding::{
    fits_signed, le_bytes, le_value, lemma_le_bytes_len, lemma_pow256_values,
    lemma_signed_round_trip, load_le, signed_from, signed_of,
};
use crate::assembler::x86_assembler::{
    addressing_mode, mod_rm_byte, operand_bytes, relative_bytes, X86Assembler, X86Operand,
    X86Register,
};
use vstd::slice::slice_to_vec;
use vstd::prelude::*;

verus! {

/// The length of the jump that redirects a target: one opcode byte and four
/// bytes of offset. A patch captures at least this many bytes.
pub const PATCH_LEN: usize = 5;

/// The greatest number of bytes that a patch captures: the longest
/// instruction may start one byte before the jump ends.
pub const MAX_CAPTURE: usize = 15;

/// The greatest number of bytes that a trampoline takes: the captured bytes
/// and the jump back.
pub const MAX_TRAMPOLINE: usize = 20;

/// The number of offset bytes that follow a ModRM byte with the addressing
/// mode `mode` (0 to 2) whose base field is `base`.
pub open spec fn displacement_len(mode: int, base: int) -> nat {
    if mode == 1 {
        1
    } else if mode == 2 {
        4
    } else if base == 5 {
        4
    } else {
        0
    }
}

/// The length of the operand bytes that start with the ModRM byte at index
/// `at`: that byte, a scaled-index byte where the ModRM byte asks for one,
/// and the offset. 0 where the code ends before the ModRM or scaled-index byte.
pub open spec fn operand_len(code: Seq<u8>, at: int) -> nat {
    if at < 0 || at >= code.len() {
        0
    } else if code[at] / 64 == 3 {
        1
    } else if code[at] % 8 == 4 {
        if at + 1 >= code.len() {
            0
        } else {
            2 + displacement_len((code[at] / 64) as int, (code[at + 1] % 8) as int)
        }
    } else {
        1 + displacement_len((code[at] / 64) as int, (code[at] % 8) as int)
    }
}

/// The length of an instruction made of `before` opcode bytes, the operand
/// bytes at index `at`, and `after` bytes of immediate value. 0 where the
/// operand bytes are cut off.
pub open spec fn form_len(code: Seq<u8>, at: int, before: nat, after: nat) -> nat {
    if operand_len(code, at) == 0 {
        0
    } else {
        before + operand_len(code, at) + after
    }
}

/// Whether the instruction at index `at` is a jump or call whose operand is
/// the distance to its target.
pub open spec fn is_relative(code: Seq<u8>, at: int) -> bool {
    0 <= at < code.len() && (code[at] == 0xE8 || code[at] == 0xE9)
}

/// The length that the opcode at index `at` gives its instruction, whether or
/// not the code holds that many bytes. 0 for an instruction that cannot be
/// moved. The instructions that can be moved are: `push` and `pop` of a
/// register, `nop`, `mov` of a value into a register, `mov` and `lea` with
/// operand bytes, arithmetic with a value of one or four bytes, `call`, `jmp`
/// and `push` through an operand, relative `call` and `jmp`, loads and stores
/// of the floating-point stack, and `movss`, `movsd` and `movaps`.
#[verifier::opaque]
pub open spec fn opcode_len(code: Seq<u8>, at: int) -> nat {
    if at < 0 || at >= code.len() {
        0
    } else if 0x50 <= code[at] <= 0x5F || code[at] == 0x90 {
        1
    } else if 0xB8 <= code[at] <= 0xBF || code[at] == 0xE8 || code[at] == 0xE9 {
        5
    } else if code[at] == 0x89 || code[at] == 0x8B || code[at] == 0x8D || code[at] == 0xD9
        || code[at] == 0xDD {
        form_len(code, at + 1, 1, 0)
    } else if code[at] == 0x81 {
        form_len(code, at + 1, 1, 4)
    } else if code[at] == 0x83 {
        form_len(code, at + 1, 1, 1)
    } else if code[at] == 0xFF {
        if at + 1 < code.len() && ((code[at + 1] / 8) % 8 == 2 || (code[at + 1] / 8) % 8 == 4 || (
        code[at + 1] / 8) % 8 == 6) {
            form_len(code, at + 1, 1, 0)
        } else {
            0
        }
    } else if code[at] == 0x0F {
        if at + 1 < code.len() && (code[at + 1] == 0x28 || code[at + 1] == 0x29) {
            form_len(code, at + 2, 2, 0)
        } else {
            0
        }
    } else if code[at] == 0xF2 || code[at] == 0xF3 {
        if at + 2 < code.len() && code[at + 1] == 0x0F && (code[at + 2] == 0x10 || code[at + 2]
            == 0x11) {
            form_len(code, at + 3, 3, 0)
        } else {
            0
        }
    } else {
        0
    }
}

/// The length of the instruction at index `at` of `code`. 0 where the
/// instruction cannot be moved or the code ends before the instruction does.
pub open spec fn instruction_len(code: Seq<u8>, at: int) -> nat {
    if at + opcode_len(code, at) > code.len() {
        0
    } else {
        opcode_len(code, at)
    }
}

/// The end of the first instruction, from index `at` on, that ends at or
/// behind index `PATCH_LEN`: the number of bytes that a patch captures.
/// 0 where an instruction on the way cannot be moved.
pub open spec fn capture_len(code: Seq<u8>, at: int) -> nat
    decreases code.len() - at,
{
    if at >= PATCH_LEN {
        at as nat
    } else if at < 0 || instruction_len(code, at) == 0 {
        0
    } else {
        capture_len(code, at + instruction_len(code, at))
    }
}

/// An instruction is at most eleven bytes long, and lies in the code.
pub proof fn lemma_instruction_len(code: Seq<u8>, at: int)
    ensures
        instruction_len(code, at) <= 11,
        instruction_len(code, at) > 0 ==> 0 <= at && at + instruction_len(code, at) <= code.len(),
        is_relative(code, at) && instruction_len(code, at) > 0 ==> instruction_len(code, at) == 5,
{
    reveal(opcode_len);
}

/// The number of offset bytes for the addressing mode `mode` and base
/// field `base`.
fn displacement_length(mode: u8, base: u8) -> (length: usize)
    ensures
        length == displacement_len(mode as int, base as int),
{
    if mode == 1 {
        1
    } else if mode == 2 {
        4
    } else if base == 5 {
        4
    } else {
        0
    }
}

/// The length of the operand bytes at index `at`, or 0 where they are cut off.
fn operand_length(code: &Vec<u8>, at: usize) -> (length: usize)
    ensures
        length == operand_len(code@, at as int),
        length <= 6,
{
    let len = code.len();
    if at >= len {
        0
    } else if code[at] / 64 == 3 {
        1
    } else if code[at] % 8 == 4 {
        if at + 1 >= len {
            0
        } else {
            2 + displacement_length(code[at] / 64, code[at + 1] % 8)
        }
    } else {
        1 + displacement_length(code[at] / 64, code[at] % 8)
    }
}

/// The length of `before` opcode bytes, the operand bytes at `at` and
/// `after` bytes of immediate value, or 0 where the operand is cut off.
fn form_length(code: &Vec<u8>, at: usize, before: usize, after: usize) -> (length: usize)
    requires
        before <= 3,
        after <= 4,
    ensures
        length == form_len(code@, at as int, before as nat, after as nat),
{
    let operand = operand_length(code, at);
    if operand == 0 {
        0
    } else {
        before + operand + after
    }
}

/// The length of the instruction at index `at` of `code`, where it is one
/// that can be moved and the code holds all of it.
pub fn instruction_length(code: &Vec<u8>, at: usize) -> (found: Option<usize>)
    ensures
        match found {
            Some(length) => 0 < length <= 11 && at + length <= code@.len() && length
                == instruction_len(code@, at as int),
            None => instruction_len(code@, at as int) == 0,
        },
{
    proof {
        reveal(opcode_len);
    }
    let len = code.len();
    if at >= len {
        return None;
    }
    let opcode = code[at];
    let length: usize = if (0x50 <= opcode && opcode <= 0x5F) || opcode == 0x90 {
        1
    } else if (0xB8 <= opcode && opcode <= 0xBF) || opcode == 0xE8 || opcode == 0xE9 {
        5
    } else if opcode == 0x89 || opcode == 0x8B || opcode == 0x8D || opcode == 0xD9 || opcode
        == 0xDD {
        form_length(code, at + 1, 1, 0)
    } else if opcode == 0x81 {
        form_length(code, at + 1, 1, 4)
    } else if opcode == 0x83 {
        form_length(code, at + 1, 1, 1)
    } else if opcode == 0xFF {
        if at + 1 < len && ((code[at + 1] / 8) % 8 == 2 || (code[at + 1] / 8) % 8 == 4 || (code[at
            + 1] / 8) % 8 == 6) {
            form_length(code, at + 1, 1, 0)
        } else {
            0
        }
    } else if opcode == 0x0F {
        if at + 1 < len && (code[at + 1] == 0x28 || code[at + 1] == 0x29) {
            form_length(code, at + 2, 2, 0)
        } else {
            0
        }
    } else if opcode == 0xF2 || opcode == 0xF3 {
        if len - at > 2 && code[at + 1] == 0x0F && (code[at + 2] == 0x10 || code[at + 2] == 0x11) {
            form_length(code, at + 3, 3, 0)
        } else {
            0
        }
    } else {
        0
    };
    if length == 0 || length > len - at {
        None
    } else {
        Some(length)
    }
}

/// The number of bytes that a patch of `code` captures: the end of the first
/// instruction that ends at or behind the fifth byte.
pub fn capture_length(code: &Vec<u8>) -> (found: Option<usize>)
    ensures
        match found {
            Some(length) => PATCH_LEN <= length <= code@.len() && length == capture_len(code@, 0),
            None => capture_len(code@, 0) == 0,
        },
{
    let mut at: usize = 0;
    while at < PATCH_LEN
        invariant
            at <= code@.len(),
            capture_len(code@, 0) == capture_len(code@, at as int),
        decreases code@.len() - at,
    {
        match instruction_length(code, at) {
            Some(length) => {
                at = at + length;
            },
            None => {
                return None;
            },
        }
    }
    Some(at)
}

/// The distance that the relative jump or call at index `at` holds: from the
/// end of the instruction to its target.
pub open spec fn distance_at(code: Seq<u8>, at: int) -> int {
    signed_of(le_value(code.subrange(at + 1, at + 5)) as int, 4)
}

/// The instruction at index `at` as it has to read once the code stands
/// `shift` bytes further to the front. An instruction that names no distance
/// reads as before. A relative jump or call keeps its target: its distance
/// grows by `shift`. That cannot be done where the new distance does not fit
/// four bytes, or where the target lies inside the `end` bytes that move,
/// behind the first.
pub open spec fn moved_instruction(code: Seq<u8>, at: int, end: int, shift: int) -> Option<
    Seq<u8>,
> {
    if is_relative(code, at) {
        if 0 < at + 5 + distance_at(code, at) < end || !fits_signed(
            distance_at(code, at) + shift,
            4,
        ) {
            None
        } else {
            Some(seq![code[at]] + le_bytes(distance_at(code, at) + shift, 4))
        }
    } else {
        Some(code.subrange(at, at + instruction_len(code, at)))
    }
}

/// The instructions of `code` from index `at` up to index `end`, as they
/// have to read once the code stands `shift` bytes further to the front.
/// `None` where some instruction cannot be moved, or where `end` falls into
/// an instruction.
pub open spec fn relocated(code: Seq<u8>, at: int, end: int, shift: int) -> Option<Seq<u8>>
    decreases end - at,
{
    if at >= end {
        Some(Seq::<u8>::empty())
    } else if at < 0 || instruction_len(code, at) == 0 || at + instruction_len(code, at) > end {
        None
    } else {
        match (
            moved_instruction(code, at, end, shift),
            relocated(code, at + instruction_len(code, at), end, shift),
        ) {
            (Some(head), Some(tail)) => Some(head + tail),
            _ => None,
        }
    }
}

/// Whether `len` bytes from `address` on lie in the addresses that the
/// assembler can name.
pub open spec fn placeable(address: int, len: int) -> bool {
    address + len <= i64::MAX
}

/// The code of a trampoline that stands at `to` for the first `n` bytes of
/// the function at `from`: the captured instructions, moved, and then a jump
/// back to the first instruction behind them. `None` where the instructions
/// cannot be moved, or the jump back cannot span the distance.
pub open spec fn trampoline_code(code: Seq<u8>, n: int, from: int, to: int) -> Option<Seq<u8>> {
    if !placeable(from, n) || !placeable(to, n + 5) || !fits_signed(from - to - 5, 4) {
        None
    } else {
        match relocated(code, 0, n, from - to) {
            Some(body) => Some(body + seq![0xE9u8] + relative_bytes(to + n, from + n)),
            None => None,
        }
    }
}

/// The bytes that redirect the function at `from` to `handler` over `n`
/// captured bytes: a jump, and a `nop` for each byte that is left.
/// `None` where the jump cannot span the distance.
pub open spec fn redirect_code(n: int, from: int, handler: int) -> Option<Seq<u8>> {
    if n < PATCH_LEN || !placeable(from, n) || !placeable(handler, 0) || !fits_signed(
        handler - from - 5,
        4,
    ) {
        None
    } else {
        Some(
            seq![0xE9u8] + relative_bytes(from, handler) + Seq::new(
                (n - PATCH_LEN) as nat,
                |i: int| 0x90u8,
            ),
        )
    }
}

/// How `relocated` goes on from a whole instruction: with that instruction
/// moved, and then the rest.
pub proof fn lemma_relocated_step(code: Seq<u8>, at: int, end: int, shift: int)
    requires
        0 <= at < end,
        instruction_len(code, at) > 0,
        at + instruction_len(code, at) <= end,
    ensures
        relocated(code, at, end, shift) == match (
            moved_instruction(code, at, end, shift),
            relocated(code, at + instruction_len(code, at), end, shift),
        ) {
            (Some(head), Some(tail)) => Some(head + tail),
            _ => None::<Seq<u8>>,
        },
{
}

/// A moved instruction takes as many bytes as it took before.
pub proof fn lemma_moved_len(code: Seq<u8>, at: int, end: int, shift: int)
    requires
        instruction_len(code, at) > 0,
        moved_instruction(code, at, end, shift) is Some,
    ensures
        moved_instruction(code, at, end, shift)->0.len() == instruction_len(code, at),
{
    lemma_instruction_len(code, at);
    if is_relative(code, at) {
        lemma_le_bytes_len(distance_at(code, at) + shift, 4);
    }
}

/// A capture is at least as long as the redirecting jump, at most as long
/// as `MAX_CAPTURE`, and lies in the code that was read.
pub proof fn lemma_capture_len(code: Seq<u8>, at: int)
    requires
        0 <= at <= PATCH_LEN + 10,
    ensures
        capture_len(code, at) == 0 || (at <= capture_len(code, at) && PATCH_LEN <= capture_len(
            code,
            at,
        ) <= MAX_CAPTURE),
        capture_len(code, at) != 0 && at <= code.len() ==> capture_len(code, at) <= code.len(),
    decreases code.len() - at,
{
    if at < PATCH_LEN && instruction_len(code, at) != 0 {
        lemma_instruction_len(code, at);
        lemma_capture_len(code, at + instruction_len(code, at));
    }
}

/// A trampoline is as long as what was captured and the jump back: at most
/// `MAX_TRAMPOLINE` bytes.
pub proof fn lemma_trampoline_len(code: Seq<u8>, from: int, to: int)
    requires
        capture_len(code, 0) > 0,
        trampoline_code(code, capture_len(code, 0) as int, from, to) is Some,
    ensures
        trampoline_code(code, capture_len(code, 0) as int, from, to)->0.len() == capture_len(
            code,
            0,
        ) + 5,
        trampoline_code(code, capture_len(code, 0) as int, from, to)->0.len() <= MAX_TRAMPOLINE,
{
    let n = capture_len(code, 0) as int;
    lemma_capture_len(code, 0);
    lemma_relocated_len(code, 0, n, from - to);
    lemma_le_bytes_len((from + n) - (to + n + 5), 4);
}

/// The bytes that redirect a target are as many as were captured from it.
pub proof fn lemma_redirect_len(n: int, from: int, handler: int)
    requires
        redirect_code(n, from, handler) is Some,
    ensures
        redirect_code(n, from, handler)->0.len() == n,
{
    lemma_le_bytes_len(handler - (from + 5), 4);
}

/// Moved instructions take as many bytes as they took before.
pub proof fn lemma_relocated_len(code: Seq<u8>, at: int, end: int, shift: int)
    requires
        0 <= at <= end,
        relocated(code, at, end, shift) is Some,
    ensures
        relocated(code, at, end, shift)->0.len() == end - at,
    decreases end - at,
{
    if at < end {
        let len = instruction_len(code, at);
        lemma_instruction_len(code, at);
        lemma_relocated_len(code, at + len, end, shift);
        if is_relative(code, at) {
            lemma_le_bytes_len(distance_at(code, at) + shift, 4);
        }
    }
}

/// A moved jump or call still goes where it went: from its new place, `shift`
/// bytes further to the front, its new distance leads to the old target.
pub proof fn lemma_moved_keeps_target(code: Seq<u8>, at: int, end: int, shift: int)
    requires
        is_relative(code, at),
        moved_instruction(code, at, end, shift) is Some,
    ensures
        moved_instruction(code, at, end, shift)->0.len() == 5,
        moved_instruction(code, at, end, shift)->0[0] == code[at],
        (at - shift) + 5 + distance_at(moved_instruction(code, at, end, shift)->0, 0) == at + 5
            + distance_at(code, at),
{
    let moved = moved_instruction(code, at, end, shift)->0;
    let distance = distance_at(code, at) + shift;
    lemma_le_bytes_len(distance, 4);
    assert(moved.subrange(1, 5) =~= le_bytes(distance, 4));
    lemma_signed_round_trip(distance, 4);
}

/// Appends to `assembler` the instruction of `len` bytes at index `at`, as it
/// has to read once the code stands `shift` bytes further to the front.
/// Appends nothing where the instruction cannot be moved.
fn move_instruction(
    assembler: &mut X86Assembler,
    code: &Vec<u8>,
    at: usize,
    len: usize,
    end: usize,
    shift: i128,
) -> (moved: bool)
    requires
        old(assembler)@.wf(),
        old(assembler)@.has_room(len as nat),
        len > 0,
        len == instruction_len(code@, at as int),
        at + len <= end <= code@.len(),
        -0x1_0000_0000_0000_0000 < shift < 0x1_0000_0000_0000_0000,
    ensures
        final(assembler)@.wf(),
        match moved_instruction(code@, at as int, end as int, shift as int) {
            Some(head) => moved && final(assembler)@ == old(assembler)@.emit(head),
            None => !moved && final(assembler)@ == old(assembler)@,
        },
{
    proof {
        lemma_pow256_values();
        lemma_instruction_len(code@, at as int);
    }
    if code[at] == 0xE8 || code[at] == 0xE9 {
        let distance = signed_from(load_le(code, at + 1, 4), 4);
        let landing: i128 = at as i128 + 5 + distance as i128;
        let target: i128 = distance as i128 + shift;
        if (0 < landing && landing < end as i128) || target < -0x8000_0000 || target
            >= 0x8000_0000 {
            return false;
        }
        assembler.write_bytes(code, at, at + 1);
        assembler.write32(target as i32);
        proof {
            assert(code@.subrange(at as int, at + 1) =~= seq![code@[at as int]]);
            assert(assembler@.bytes =~= old(assembler)@.bytes + (seq![code@[at as int]] + le_bytes(
                target as int,
                4,
            )));
        }
    } else {
        assembler.write_bytes(code, at, at + len);
    }
    true
}

/// The trampoline that stands at `to` for the first `length` bytes of the
/// function at `from`, whose code starts with `code`.
pub fn build_trampoline(code: &Vec<u8>, length: usize, from: u64, to: u64) -> (built: Option<
    Vec<u8>,
>)
    requires
        length <= code@.len(),
    ensures
        match built {
            Some(bytes) => trampoline_code(code@, length as int, from as int, to as int) == Some(
                bytes@,
            ),
            None => trampoline_code(code@, length as int, from as int, to as int) is None,
        },
{
    proof {
        lemma_pow256_values();
    }
    let shift: i128 = from as i128 - to as i128;
    if from as u128 + length as u128 > 0x7fff_ffff_ffff_ffff || to as u128 + length as u128 + 5
        > 0x7fff_ffff_ffff_ffff || shift - 5 < -0x8000_0000 || shift - 5 >= 0x8000_0000 {
        return None;
    }
    let mut assembler = X86Assembler::new(to as i64);
    let mut at: usize = 0;
    proof {
        assert(assembler@.bytes + relocated(code@, 0, length as int, shift as int)->0
            =~= relocated(code@, 0, length as int, shift as int)->0);
    }
    while at < length
        invariant
            at <= length <= code@.len(),
            to + length + 5 <= i64::MAX,
            shift == from - to,
            assembler@.wf(),
            assembler@.base == to,
            assembler@.bytes.len() == at,
            relocated(code@, 0, length as int, shift as int) == match relocated(
                code@,
                at as int,
                length as int,
                shift as int,
            ) {
                Some(tail) => Some(assembler@.bytes + tail),
                None => None::<Seq<u8>>,
            },
        decreases length - at,
    {
        let ghost before = assembler@;
        let ghost rest = relocated(code@, at as int, length as int, shift as int);
        let ghost head = moved_instruction(code@, at as int, length as int, shift as int);
        match instruction_length(code, at) {
            None => {
                return None;
            },
            Some(len) => {
                if len > length - at {
                    return None;
                }
                let ghost tail = relocated(code@, at + len, length as int, shift as int);
                if !move_instruction(&mut assembler, code, at, len, length, shift) {
                    return None;
                }
                proof {
                    lemma_relocated_step(code@, at as int, length as int, shift as int);
                    if tail is Some {
                        assert(rest == Some(head->0 + tail->0));
                        assert(before.bytes + (head->0 + tail->0) =~= assembler@.bytes + tail->0);
                    }
                    lemma_moved_len(code@, at as int, length as int, shift as int);
                }
                at = at + len;
            },
        }
    }
    proof {
        assert(relocated(code@, at as int, length as int, shift as int) == Some(
            Seq::<u8>::empty(),
        ));
        assert(assembler@.bytes + Seq::<u8>::empty() =~= assembler@.bytes);
    }
    let ghost body = assembler@.bytes;
    assembler.jmp_addr((from + length as u64) as i64);
    proof {
        assert(assembler@.bytes =~= body + seq![0xE9u8] + relative_bytes(
            to + length,
            from + length,
        ));
    }
    Some(slice_to_vec(assembler.buffer()))
}

/// The bytes that redirect the function at `from` to `handler` over
/// `length` captured bytes.
pub fn build_redirect(length: usize, from: u64, handler: u64) -> (built: Option<Vec<u8>>)
    ensures
        match built {
            Some(bytes) => redirect_code(length as int, from as int, handler as int) == Some(
                bytes@,
            ),
            None => redirect_code(length as int, from as int, handler as int) is None,
        },
{
    proof {
        lemma_pow256_values();
    }
    let distance: i128 = handler as i128 - from as i128 - 5;
    if length < PATCH_LEN || from as u128 + length as u128 > 0x7fff_ffff_ffff_ffff || handler
        > 0x7fff_ffff_ffff_ffff || distance < -0x8000_0000 || distance >= 0x8000_0000 {
        return None;
    }
    let mut assembler = X86Assembler::new(from as i64);
    assembler.jmp_addr(handler as i64);
    let ghost jump = assembler@.bytes;
    let mut at: usize = PATCH_LEN;
    proof {
        lemma_le_bytes_len(handler - (from + 5), 4);
        assert(jump =~= seq![0xE9u8] + relative_bytes(from as int, handler as int));
        assert(assembler@.bytes =~= jump + Seq::new(0, |i: int| 0x90u8));
    }
    while at < length
        invariant
            PATCH_LEN <= at <= length,
            from + length <= i64::MAX,
            assembler@.wf(),
            assembler@.base == from,
            jump.len() == PATCH_LEN,
            assembler@.bytes == jump + Seq::new((at - PATCH_LEN) as nat, |i: int| 0x90u8),
        decreases length - at,
    {
        assembler.nop();
        proof {
            assert(assembler@.bytes =~= jump + Seq::new(
                (at + 1 - PATCH_LEN) as nat,
                |i: int| 0x90u8,
            ));
        }
        at = at + 1;
    }
    Some(slice_to_vec(assembler.buffer()))
}

/// Whether a register is one of the eight general registers.
pub open spec fn general(reg: X86Register) -> bool {
    reg.code() < 8
}

/// Whether an operand names a general register, or memory through one.
pub open spec fn general_operand(op: X86Operand) -> bool {
    match op {
        X86Operand::Register(reg) => general(reg),
        X86Operand::ModRM(ptr) => general(ptr.reg),
    }
}

/// Whether `digit` can stand in the middle field of a ModRM byte without
/// reaching into the addressing mode: it is an opcode digit, or the number
/// of a register.
pub open spec fn plain_digit(digit: u8) -> bool {
    digit & 0x18 == 0
}

/// The number of every register can stand in the middle field of a ModRM byte.
pub proof fn lemma_register_digit(reg: X86Register)
    ensures
        plain_digit(reg.code()),
{
    let code = reg.code();
    assert(code < 8 || 0x80 <= code < 0x88 ==> code & 0x18 == 0) by (bit_vector);
}

/// The fields of a ModRM byte can be read back from it: the addressing mode
/// from its two high bits, the base from its three low bits.
pub proof fn lemma_mod_rm_read_back(mode: u8, digit: u8, rm: u8)
    requires
        mode < 4,
        rm < 8,
        plain_digit(digit),
    ensures
        mod_rm_byte(mode, digit, rm) / 64 == mode,
        mod_rm_byte(mode, digit, rm) % 8 == rm,
        (mod_rm_byte(mode, digit, rm) / 8) % 8 == digit % 8,
{
    assert(mode < 4 && rm < 8 && digit & 0x18 == 0 ==> ((mode << 6) | (digit << 3) | rm) / 64
        == mode && ((mode << 6) | (digit << 3) | rm) % 8 == rm && (((mode << 6) | (digit << 3)
        | rm) / 8) % 8 == digit % 8) by (bit_vector);
}

/// The decoder measures the operand bytes that the assembler writes: where
/// they stand in `code` at index `at`, their length is what the decoder
/// finds there.
pub proof fn lemma_operand_measured(code: Seq<u8>, at: int, op: X86Operand, digit: u8)
    requires
        general_operand(op),
        plain_digit(digit),
        0 <= at,
        at + operand_bytes(op, digit).len() <= code.len(),
        code.subrange(at, at + operand_bytes(op, digit).len()) == operand_bytes(op, digit),
    ensures
        operand_len(code, at) == operand_bytes(op, digit).len(),
{
    let bytes = operand_bytes(op, digit);
    match op {
        X86Operand::Register(reg) => {
            lemma_mod_rm_read_back(3, digit, reg.code());
            assert(code[at] == code.subrange(at, at + bytes.len())[0]);
        },
        X86Operand::ModRM(ptr) => {
            let mode = addressing_mode(ptr);
            lemma_mod_rm_read_back(mode, digit, ptr.reg.code());
            lemma_le_bytes_len(ptr.offset as int, 1);
            lemma_le_bytes_len(ptr.offset as int, 4);
            assert(code[at] == code.subrange(at, at + bytes.len())[0]);
            if ptr.reg == X86Register::ESP {
                assert(code[at + 1] == code.subrange(at, at + bytes.len())[1]);
                assert(bytes[1] == 0x24);
            }
        },
    }
}

/// The decoder measures what `mov`, `lea`, `push`, `jmp`, `call`, `fld` and
/// `fstp` with operand bytes come to in the assembler: one opcode byte and
/// the operand bytes.
pub proof fn lemma_one_byte_form_measured(opcode: u8, op: X86Operand, digit: u8)
    requires
        general_operand(op),
        plain_digit(digit),
        opcode == 0x89 || opcode == 0x8B || opcode == 0x8D || opcode == 0xD9 || opcode == 0xDD || (
        opcode == 0xFF && (digit == 2 || digit == 4 || digit == 6)),
    ensures
        instruction_len(seq![opcode] + operand_bytes(op, digit), 0) == 1 + operand_bytes(
            op,
            digit,
        ).len(),
{
    reveal(opcode_len);
    let code = seq![opcode] + operand_bytes(op, digit);
    crate::assembler::x86_assembler::lemma_operand_bytes_len(op, digit);
    assert(code.subrange(1, 1 + operand_bytes(op, digit).len() as int) =~= operand_bytes(
        op,
        digit,
    ));
    lemma_operand_measured(code, 1, op, digit);
    if opcode == 0xFF {
        match op {
            X86Operand::Register(reg) => {
                lemma_mod_rm_read_back(3, digit, reg.code());
            },
            X86Operand::ModRM(ptr) => {
                lemma_mod_rm_read_back(addressing_mode(ptr), digit, ptr.reg.code());
            },
        }
        assert(code[1] == operand_bytes(op, digit)[0]);
    }
}

/// The decoder measures what `movaps` comes to in the assembler: two opcode
/// bytes and the operand bytes.
pub proof fn lemma_two_byte_form_measured(second: u8, op: X86Operand, digit: u8)
    requires
        general_operand(op),
        plain_digit(digit),
        second == 0x28 || second == 0x29,
    ensures
        instruction_len(seq![0x0Fu8, second] + operand_bytes(op, digit), 0) == 2 + operand_bytes(
            op,
            digit,
        ).len(),
{
    reveal(opcode_len);
    let code = seq![0x0Fu8, second] + operand_bytes(op, digit);
    crate::assembler::x86_assembler::lemma_operand_bytes_len(op, digit);
    assert(code.subrange(2, 2 + operand_bytes(op, digit).len() as int) =~= operand_bytes(
        op,
        digit,
    ));
    lemma_operand_measured(code, 2, op, digit);
}

/// The decoder measures what `movss` and `movsd` come to in the assembler:
/// three opcode bytes and the operand bytes.
pub proof fn lemma_three_byte_form_measured(first: u8, third: u8, op: X86Operand, digit: u8)
    requires
        general_operand(op),
        plain_digit(digit),
        first == 0xF2 || first == 0xF3,
        third == 0x10 || third == 0x11,
    ensures
        instruction_len(seq![first, 0x0Fu8, third] + operand_bytes(op, digit), 0) == 3
            + operand_bytes(op, digit).len(),
{
    reveal(opcode_len);
    let code = seq![first, 0x0Fu8, third] + operand_bytes(op, digit);
    crate::assembler::x86_assembler::lemma_operand_bytes_len(op, digit);
    assert(code.subrange(3, 3 + operand_bytes(op, digit).len() as int) =~= operand_bytes(
        op,
        digit,
    ));
    lemma_operand_measured(code, 3, op, digit);
}

/// The decoder measures the instructions that the assembler writes without
/// operand bytes of their own: `nop`, `push` and `pop` of a general
/// register, `mov` of a value into one, `add` and `sub` of a value, the
/// relative `jmp` and `call`, and `lea` and `mov` with a label.
pub proof fn lemma_fixed_forms_measured(reg: X86Register, value: int, start: int, target: int)
    requires
        general(reg),
    ensures
        instruction_len(seq![0x90u8], 0) == 1,
        instruction_len(seq![0x50u8 | reg.code()], 0) == 1,
        instruction_len(seq![0x58u8 | reg.code()], 0) == 1,
        instruction_len(seq![0xB8u8 | reg.code()] + le_bytes(value, 4), 0) == 5,
        instruction_len(seq![0x81u8, 0xC0u8 | reg.code()] + le_bytes(value, 4), 0) == 6,
        instruction_len(seq![0x81u8, 0xE8u8 | reg.code()] + le_bytes(value, 4), 0) == 6,
        instruction_len(seq![0xE9u8] + relative_bytes(start, target), 0) == 5,
        instruction_len(seq![0xE8u8] + relative_bytes(start, target), 0) == 5,
        instruction_len(seq![0x8Du8, 0x05u8 | (reg.code() << 3)] + le_bytes(0, 4), 0) == 6,
        instruction_len(seq![0x8Bu8, 0x05u8 | (reg.code() << 3)] + le_bytes(0, 4), 0) == 6,
{
    reveal(opcode_len);
    let code = reg.code();
    lemma_le_bytes_len(value, 4);
    lemma_le_bytes_len(0, 4);
    lemma_le_bytes_len(target - (start + 5), 4);
    assert(code < 8 ==> 0x50 <= (0x50u8 | code) <= 0x57 && 0x58 <= (0x58u8 | code) <= 0x5F && 0xB8
        <= (0xB8u8 | code) <= 0xBF && (0xC0u8 | code) / 64 == 3 && (0xE8u8 | code) / 64 == 3 && (
    0x05u8 | (code << 3)) / 64 == 0 && (0x05u8 | (code << 3)) % 8 == 5) by (bit_vector);
}

} // verus!
