use tulip_hook::assembler::base_assembler::BaseAssembler;
use tulip_hook::assembler::x86_assembler::X86Register::{
    EAX, EBP, EBX, ECX, EDI, EDX, ESI, ESP, XMM0, XMM1, XMM2, XMM3, XMM4, XMM7,
};
use tulip_hook::assembler::x86_assembler::{X86Assembler, X86Operand, X86Pointer, X86Register};
use tulip_hook::error::HookError;

#[test]
fn write_is_little_endian() {
    let mut a = BaseAssembler::new(0x1000);
    assert_eq!(a.write8(0x12), 0x1000);
    assert_eq!(a.write16(0x3456), 0x1001);
    assert_eq!(a.write32(0x789a_bcde), 0x1003);
    assert_eq!(a.write64(0x0102_0304_0506_0708), 0x1007);
    assert_eq!(
        a.buffer(),
        &[
            0x12, 0x56, 0x34, 0xde, 0xbc, 0x9a, 0x78, 0x08, 0x07, 0x06, 0x05, 0x04, 0x03, 0x02,
            0x01
        ]
    );
    assert_eq!(a.current_address(), 0x100f);
}

#[test]
fn read_returns_what_was_written() {
    let mut a = BaseAssembler::new(-16);
    let p8 = a.write8(-1);
    let p16 = a.write16(-2);
    let p32 = a.write32(i32::MIN);
    let p64 = a.write64(i64::MIN + 5);
    assert_eq!(a.read8(p8), -1);
    assert_eq!(a.read16(p16), -2);
    assert_eq!(a.read32(p32), i32::MIN);
    assert_eq!(a.read64(p64), i64::MIN + 5);
    a.rewrite16(p16, 0x7fff);
    a.rewrite32(p32, -123456);
    a.rewrite64(p64, i64::MAX);
    a.rewrite8(p8, i8::MIN);
    assert_eq!(a.read8(p8), i8::MIN);
    assert_eq!(a.read16(p16), 0x7fff);
    assert_eq!(a.read32(p32), -123456);
    assert_eq!(a.read64(p64), i64::MAX);
}

#[test]
fn update_labels_resolves_every_reference() {
    let mut a = X86Assembler::new(0x40_0000);
    a.mov_label(X86Register::EAX, "data");
    a.lea(X86Register::ECX, "end");
    a.ret();
    a.label("data");
    a.write32(7);
    a.label("end");
    assert_eq!(a.update_labels(), Ok(()));
    assert_eq!(
        a.buffer(),
        &[0x8b, 0x05, 0x0d, 0x00, 0x40, 0x00, 0x8d, 0x0d, 0x11, 0x00, 0x40, 0x00, 0xc3, 7, 0, 0, 0]
    );
    assert_eq!(a.label_address("data"), Some(0x40_000d));
    assert_eq!(a.label_address("nowhere"), None);
}

#[test]
fn update_labels_with_a_missing_label_changes_nothing() {
    let mut a = X86Assembler::new(0);
    a.label("known");
    a.label32("known");
    a.label32("unknown");
    let before = a.buffer().to_vec();
    assert_eq!(a.update_labels(), Err(HookError::UnresolvedLabel));
    assert_eq!(a.buffer(), &before[..]);
}

#[test]
fn memory_operands_choose_the_shortest_offset() {
    let mut a = X86Assembler::new(0);
    a.mov_ptr(X86Register::EAX, X86Pointer::new(X86Register::ECX, 0));
    a.mov_ptr(X86Register::EAX, X86Pointer::new(X86Register::EBP, 0));
    a.mov_ptr(X86Register::EDX, X86Pointer::new(X86Register::ESP, 8));
    a.mov_reg(X86Pointer::new(X86Register::EBX, -0x81), X86Register::ESI);
    assert_eq!(
        a.buffer(),
        &[0x8b, 0x01, 0x8b, 0x45, 0x00, 0x8b, 0x54, 0x24, 0x08, 0x89, 0xb3, 0x7f, 0xff, 0xff, 0xff]
    );
}

#[test]
fn relative_jump_counts_from_the_end_of_the_instruction() {
    let mut a = X86Assembler::new(0x1000);
    a.nop();
    a.jmp_addr(0x1006);
    a.call_addr(0x1000);
    assert_eq!(a.buffer(), &[0x90, 0xe9, 0, 0, 0, 0, 0xe8, 0xf5, 0xff, 0xff, 0xff]);
}

#[test]
fn register_plus_offset_is_a_pointer() {
    let pointer = X86Register::EBP + 8;
    assert_eq!(pointer.reg, X86Register::EBP);
    assert_eq!(pointer.offset, 8);
    let same = tulip_hook::assembler::x86_assembler::RegMem32.index(X86Register::ESP + -4);
    assert_eq!(same.reg, X86Register::ESP);
    assert_eq!(same.offset, -4);
    assert!(X86Register::EAX < X86Register::XMM0);
    assert_eq!(X86Register::EDI.code(), 7);
    assert_eq!(X86Register::XMM7.code(), 0x87);
}

fn assembled(write: impl Fn(&mut X86Assembler)) -> Vec<u8> {
    let mut a = X86Assembler::new(0x1000);
    write(&mut a);
    a.buffer().to_vec()
}

#[test]
fn every_instruction_has_its_encoding() {
    let at = X86Pointer::new;
    assert_eq!(assembled(|a| a.nop()), [0x90]);
    assert_eq!(assembled(|a| a.int3()), [0xcc]);
    assert_eq!(assembled(|a| a.ret()), [0xc3]);
    assert_eq!(assembled(|a| a.ret_offset(8)), [0xc2, 0x08, 0x00]);
    assert_eq!(assembled(|a| a.add(ESP, 0x10)), [0x81, 0xc4, 0x10, 0, 0, 0]);
    assert_eq!(assembled(|a| a.sub(ESP, 0x10)), [0x81, 0xec, 0x10, 0, 0, 0]);
    assert_eq!(assembled(|a| a.push(EBP)), [0x55]);
    assert_eq!(assembled(|a| a.push_ptr(at(EBP, 8))), [0xff, 0x75, 0x08]);
    assert_eq!(assembled(|a| a.pop(EBX)), [0x5b]);
    assert_eq!(assembled(|a| a.jmp(EAX)), [0xff, 0xe0]);
    assert_eq!(assembled(|a| a.call(ECX)), [0xff, 0xd1]);
    assert_eq!(assembled(|a| a.jmp_addr(0x1005)), [0xe9, 0, 0, 0, 0]);
    assert_eq!(assembled(|a| a.call_addr(0x2000)), [0xe8, 0xfb, 0x0f, 0, 0]);
    assert_eq!(
        assembled(|a| a.movsd_ptr(XMM1, at(ESP, 0x10))),
        [0xf2, 0x0f, 0x10, 0x4c, 0x24, 0x10]
    );
    assert_eq!(assembled(|a| a.movsd(at(EAX, 0), XMM0)), [0xf2, 0x0f, 0x11, 0x00]);
    assert_eq!(assembled(|a| a.movss_ptr(XMM2, at(EBP, -4))), [0xf3, 0x0f, 0x10, 0x55, 0xfc]);
    assert_eq!(assembled(|a| a.movss_reg(at(ECX, 0), XMM3)), [0xf3, 0x0f, 0x11, 0x19]);
    assert_eq!(assembled(|a| a.movaps(XMM4, at(ESP, 0))), [0x0f, 0x28, 0x24, 0x24]);
    assert_eq!(
        assembled(|a| a.movaps_reg(at(ESP, 0x100), XMM7)),
        [0x0f, 0x29, 0xbc, 0x24, 0x00, 0x01, 0x00, 0x00]
    );
    assert_eq!(assembled(|a| a.mov_val(EDX, -2)), [0xba, 0xfe, 0xff, 0xff, 0xff]);
    assert_eq!(assembled(|a| a.mov_ptr(EAX, at(ESI, 0x7f))), [0x8b, 0x46, 0x7f]);
    assert_eq!(assembled(|a| a.mov_ptr(EAX, at(ESI, 0x80))), [0x8b, 0x86, 0x80, 0, 0, 0]);
    assert_eq!(assembled(|a| a.mov_reg(at(EDI, -0x80), ECX)), [0x89, 0x4f, 0x80]);
    assert_eq!(assembled(|a| a.mov_reg2(EBP, ESP)), [0x89, 0xe5]);
    assert_eq!(assembled(|a| a.lea(ECX, "l")), [0x8d, 0x0d, 0, 0, 0, 0]);
    assert_eq!(assembled(|a| a.mov_label(EDX, "l")), [0x8b, 0x15, 0, 0, 0, 0]);
    assert_eq!(assembled(|a| a.fstps(at(ESP, 0))), [0xd9, 0x1c, 0x24]);
    assert_eq!(assembled(|a| a.flds(at(EAX, 4))), [0xd9, 0x40, 0x04]);
    assert_eq!(assembled(|a| a.fstpd(at(EBP, -8))), [0xdd, 0x5d, 0xf8]);
    assert_eq!(assembled(|a| a.fldd(at(EDX, 0))), [0xdd, 0x02]);
}

#[test]
fn operand_bytes_follow_the_addressing_mode() {
    let register = X86Operand::Register(X86Register::EDI);
    let memory = X86Operand::ModRM(X86Pointer::new(X86Register::ESP, -0x81));
    assert_eq!(register.reg_idx(), 7);
    assert_eq!(memory.reg_idx(), 4);
    assert_eq!(assembled(|a| a.encode_mod_rm(&register, 2)), [0xd7]);
    assert_eq!(assembled(|a| a.encode_mod_rm(&memory, 2)), [0x94, 0x24, 0x7f, 0xff, 0xff, 0xff]);
    assert_eq!(assembled(|a| a.write_bytes(&vec![1, 2, 3, 4], 1, 3)), [2, 3]);
}

#[test]
fn a_later_label_overrides_an_earlier_one() {
    let mut a = BaseAssembler::new(0x100);
    a.label("here");
    assert_eq!(a.reference_label("here", 2), 0x100);
    a.write8(0);
    a.label("here");
    assert_eq!(a.reference_label("here", 1), 0x103);
    assert_eq!(a.reference_label("here", 8), 0x104);
    assert_eq!(a.label_address("here"), Some(0x103));
    assert_eq!(a.update_labels(), Ok(()));
    assert_eq!(a.buffer(), &[0x03, 0x01, 0x00, 0x03, 0x03, 0x01, 0, 0, 0, 0, 0, 0]);
    // A second pass finds everything resolved and changes nothing.
    let resolved = a.buffer().to_vec();
    assert_eq!(a.update_labels(), Ok(()));
    assert_eq!(a.buffer(), &resolved[..]);
    // Once the label moves, another pass follows it.
    a.label("here");
    assert_eq!(a.update_labels(), Ok(()));
    assert_eq!(a.buffer(), &[0x0c, 0x01, 0x00, 0x0c, 0x0c, 0x01, 0, 0, 0, 0, 0, 0]);
}

#[test]
fn a_relative_jump_is_cut_to_four_bytes() {
    // The distance does not fit: its low four bytes are written.
    let far = assembled(|a| a.jmp_addr(0x1_0000_1005));
    assert_eq!(far, [0xe9, 0, 0, 0, 0]);
    let back = assembled(|a| a.call_addr(-0x7fff_f000));
    assert_eq!(back, [0xe8, 0xfb, 0xff, 0xff, 0x7f]);
}

#[test]
fn values_are_cut_to_the_width_they_are_written_with() {
    let mut a = BaseAssembler::new(0);
    assert_eq!(a.write(0x1122_3344_5566_7788, 4), 0);
    assert_eq!(a.write(-2, 2), 4);
    assert_eq!(a.buffer(), &[0x88, 0x77, 0x66, 0x55, 0xfe, 0xff]);
    assert_eq!(a.read(0, 4), 0x5566_7788);
    assert_eq!(a.read(4, 2), -2);
    assert_eq!(a.read(4, 1), -2);
    assert_eq!(a.read(5, 1), -1);
    a.rewrite(1, 0x7fff_ffff_ffff_ff80, 1);
    assert_eq!(a.read(1, 1), -128);
    assert_eq!(a.read(0, 2), -0x7f78);
    assert_eq!(a.buffer(), &[0x88, 0x80, 0x66, 0x55, 0xfe, 0xff]);
}
