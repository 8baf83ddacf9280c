use tulip_hook::assembler::x86_assembler::{X86Assembler, X86Pointer, X86Register};
use tulip_hook::error::HookError;
use tulip_hook::arena::Arena;
use tulip_hook::relocation::{
    build_redirect, build_trampoline, capture_length, instruction_length, MAX_CAPTURE,
    MAX_TRAMPOLINE, PATCH_LEN,
};
use tulip_hook::wrapper::{Target, Wrapper, WrapperMetadata, CONVENTION_CDECL, CONVENTION_DEFAULT};

#[test]
fn lengths_of_single_instructions() {
    let cases: Vec<(Vec<u8>, Option<usize>)> = vec![
        (vec![0x55], Some(1)),
        (vec![0x5f], Some(1)),
        (vec![0x90], Some(1)),
        (vec![0xb8, 1, 2, 3, 4], Some(5)),
        (vec![0xb8, 1, 2, 3], None),
        (vec![0xe8, 0, 0, 0, 0], Some(5)),
        (vec![0xe9, 0, 0, 0, 0], Some(5)),
        (vec![0x8b, 0xec], Some(2)),
        (vec![0x8b, 0x45, 0x08], Some(3)),
        (vec![0x8b, 0x85, 0, 1, 0, 0], Some(6)),
        (vec![0x8b, 0x05, 0, 0, 0x40, 0], Some(6)),
        (vec![0x8b, 0x04, 0x24], Some(3)),
        (vec![0x8b, 0x44, 0x24, 0x04], Some(4)),
        (vec![0x8b, 0x84, 0x24, 0, 1, 0, 0], Some(7)),
        (vec![0x8b, 0x04, 0x25, 0, 0, 0x40, 0], Some(7)),
        (vec![0x8b, 0x04], None),
        (vec![0x8b], None),
        (vec![0x83, 0xec, 0x10], Some(3)),
        (vec![0x81, 0xec, 0, 1, 0, 0], Some(6)),
        (vec![0x81, 0x44, 0x24, 0x04, 1, 0, 0, 0], Some(8)),
        (vec![0xff, 0x75, 0x08], Some(3)),
        (vec![0xff, 0xe0], Some(2)),
        (vec![0xff, 0xd0], Some(2)),
        (vec![0xff, 0xc0], None),
        (vec![0x0f, 0x28, 0x04, 0x24], Some(4)),
        (vec![0x0f, 0x05], None),
        (vec![0xf2, 0x0f, 0x10, 0x45, 0x08], Some(5)),
        (vec![0xf3, 0x0f, 0x11, 0x04, 0x24], Some(5)),
        (vec![0xf3, 0x0f, 0x12, 0x04, 0x24], None),
        (vec![0xf3, 0x0f], None),
        (vec![0xd9, 0x5d, 0xfc], Some(3)),
        (vec![0xdd, 0x04, 0x24], Some(3)),
        (vec![0xc3], None),
        (vec![0xcc], None),
        (vec![0xeb, 0x05], None),
        (vec![], None),
    ];
    for (code, expected) in cases {
        assert_eq!(instruction_length(&code, 0), expected, "{:02x?}", code);
    }
    assert_eq!(instruction_length(&vec![0x90, 0x55], 1), Some(1));
    assert_eq!(instruction_length(&vec![0x90, 0x55], 2), None);
}

#[test]
fn the_decoder_measures_what_the_assembler_writes() {
    let pointers = [
        X86Pointer::new(X86Register::EAX, 0),
        X86Pointer::new(X86Register::EBP, 0),
        X86Pointer::new(X86Register::ESP, 0),
        X86Pointer::new(X86Register::ESP, 0x7f),
        X86Pointer::new(X86Register::ESP, 0x80),
        X86Pointer::new(X86Register::ESI, -0x80),
        X86Pointer::new(X86Register::EDI, -0x81),
    ];
    for ptr in pointers {
        let mut all: Vec<X86Assembler> = Vec::new();
        let mut emit = |write: &dyn Fn(&mut X86Assembler)| {
            let mut a = X86Assembler::new(0x1000);
            write(&mut a);
            all.push(a);
        };
        emit(&|a| a.push_ptr(ptr));
        emit(&|a| a.mov_ptr(X86Register::ECX, ptr));
        emit(&|a| a.mov_reg(ptr, X86Register::EDX));
        emit(&|a| a.movsd_ptr(X86Register::XMM1, ptr));
        emit(&|a| a.movsd(ptr, X86Register::XMM2));
        emit(&|a| a.movss_ptr(X86Register::XMM3, ptr));
        emit(&|a| a.movss_reg(ptr, X86Register::XMM4));
        emit(&|a| a.movaps(X86Register::XMM5, ptr));
        emit(&|a| a.movaps_reg(ptr, X86Register::XMM6));
        emit(&|a| a.fstps(ptr));
        emit(&|a| a.flds(ptr));
        emit(&|a| a.fstpd(ptr));
        emit(&|a| a.fldd(ptr));
        emit(&|a| a.nop());
        emit(&|a| a.push(X86Register::EBX));
        emit(&|a| a.pop(X86Register::EBX));
        emit(&|a| a.add(X86Register::ESP, 0x1000));
        emit(&|a| a.sub(X86Register::ESP, 0x1000));
        emit(&|a| a.jmp(X86Register::EAX));
        emit(&|a| a.call(X86Register::EAX));
        emit(&|a| a.jmp_addr(0x2000));
        emit(&|a| a.call_addr(0x2000));
        emit(&|a| a.mov_val(X86Register::EAX, -1));
        emit(&|a| a.mov_reg2(X86Register::EBP, X86Register::ESP));
        emit(&|a| a.lea(X86Register::EAX, "l"));
        emit(&|a| a.mov_label(X86Register::EAX, "l"));
        for a in all {
            let code = a.buffer().to_vec();
            assert_eq!(instruction_length(&code, 0), Some(code.len()), "{:02x?}", code);
        }
    }
}

#[test]
fn capture_ends_with_the_first_instruction_past_the_jump() {
    assert_eq!(PATCH_LEN, 5);
    assert_eq!(capture_length(&vec![0xb8, 1, 0, 0, 0, 0xc3]), Some(5));
    assert_eq!(capture_length(&vec![0x55, 0x8b, 0xec, 0x83, 0xec, 0x10, 0x53]), Some(6));
    assert_eq!(capture_length(&vec![0x90, 0x90, 0x90, 0x90, 0x81, 0xec, 0, 1, 0, 0]), Some(10));
    assert_eq!(capture_length(&vec![0x90, 0x90, 0x90, 0x90, 0x81, 0xec, 0, 1, 0]), None);
    assert_eq!(capture_length(&vec![0x55, 0xc3, 0x90, 0x90, 0x90]), None);
    assert_eq!(capture_length(&vec![]), None);
}

#[test]
fn trampoline_keeps_the_target_of_a_relative_call() {
    // call +0x10; nop
    let code = vec![0xe8, 0x10, 0x00, 0x00, 0x00, 0x90];
    let built = build_trampoline(&code, 5, 0x1000, 0x3000).unwrap();
    assert_eq!(built, vec![0xe8, 0x10, 0xe0, 0xff, 0xff, 0xe9, 0xfb, 0xdf, 0xff, 0xff]);
    // From its new place the call reaches the same address.
    let moved = i32::from_le_bytes([built[1], built[2], built[3], built[4]]) as i64;
    assert_eq!(0x3000 + 5 + moved, 0x1000 + 5 + 0x10);
    let back = i32::from_le_bytes([built[6], built[7], built[8], built[9]]) as i64;
    assert_eq!(0x3005 + 5 + back, 0x1005);
}

#[test]
fn trampoline_copies_what_names_no_distance() {
    let code = vec![0x55, 0x8b, 0xec, 0x83, 0xec, 0x10, 0x53];
    let built = build_trampoline(&code, 6, 0x40_1000, 0x50_0000).unwrap();
    assert_eq!(&built[..6], &code[..6]);
    assert_eq!(&built[6..], &[0xe9, 0xfb, 0x0f, 0xf0, 0xff]);
}

#[test]
fn trampoline_refuses_what_cannot_be_moved() {
    // A jump into the captured bytes.
    let inward = vec![0x90, 0xe9, 0xfc, 0xff, 0xff, 0xff];
    assert_eq!(build_trampoline(&inward, 6, 0x1000, 0x3000), None);
    // A jump to the start of the target stays what it is.
    let to_start = vec![0x90, 0xe9, 0xfa, 0xff, 0xff, 0xff];
    assert!(build_trampoline(&to_start, 6, 0x1000, 0x3000).is_some());
    // The end falls into an instruction.
    let code = vec![0x55, 0x8b, 0xec, 0x83, 0xec, 0x10];
    assert_eq!(build_trampoline(&code, 5, 0x1000, 0x3000), None);
    // The trampoline lies further away than a jump can span.
    assert_eq!(build_trampoline(&code, 6, 0x1000, 0x1_0000_0000), None);
    assert!(build_trampoline(&code, 6, 0x1000, 0x7fff_fffb).is_some());
    // A distance that no longer fits once the call has moved.
    let far_call = vec![0xe8, 0x00, 0x00, 0x00, 0x80];
    assert_eq!(build_trampoline(&far_call, 5, 0x1000, 0x3000), None);
    assert_eq!(
        build_trampoline(&far_call, 5, 0x3000, 0x1000),
        Some(vec![0xe8, 0x00, 0x20, 0x00, 0x80, 0xe9, 0xfb, 0x1f, 0x00, 0x00])
    );
    // An address that the assembler cannot name.
    assert_eq!(build_trampoline(&code, 6, u64::MAX - 2, u64::MAX - 100), None);
}

#[test]
fn redirect_is_a_jump_and_padding() {
    assert_eq!(
        build_redirect(5, 0x40_1000, 0x60_0000),
        Some(vec![0xe9, 0xfb, 0xef, 0x1f, 0x00])
    );
    assert_eq!(
        build_redirect(8, 0x60_0000, 0x40_1000),
        Some(vec![0xe9, 0xfb, 0x0f, 0xe0, 0xff, 0x90, 0x90, 0x90])
    );
    assert_eq!(build_redirect(4, 0x40_1000, 0x60_0000), None);
    assert_eq!(build_redirect(5, 0x1000, 0x1000 + 5 + 0x8000_0000), None);
    assert!(build_redirect(5, 0x1000, 0x1000 + 5 + 0x7fff_ffff).is_some());
    assert_eq!(build_redirect(5, 0x1_0000_0000, 0), None);
    assert!(build_redirect(5, 0x8000_0000 - 5, 0).is_some());
}

#[test]
fn wrapper_cache_hands_out_one_stub_per_address_and_direction() {
    let cdecl = WrapperMetadata { convention: CONVENTION_CDECL, abstractd: 0 };
    let thiscall = WrapperMetadata { convention: 3, abstractd: 0 };
    let mut cache = Wrapper::get();
    assert_eq!(cache.create_wrapper(0x1000, &thiscall), Err(HookError::UnsupportedConvention));
    assert_eq!(cache.create_wrapper(0x1000, &cdecl), Ok(0x1000));
    // The stub that is kept is handed out again, whatever is asked for.
    assert_eq!(cache.create_wrapper(0x1000, &thiscall), Ok(0x1000));
    // The other direction has a cache of its own.
    assert_eq!(
        cache.create_reverse_wrapper(0x1000, &thiscall),
        Err(HookError::UnsupportedConvention)
    );
    assert_eq!(cache.create_reverse_wrapper(0x1000, &cdecl), Ok(0x1000));
    assert_eq!(cache.create_reverse_wrapper(0x1000, &thiscall), Ok(0x1000));
    assert_eq!(cache.create_reverse_wrapper(0x2000, &thiscall), Err(HookError::UnsupportedConvention));
}

#[test]
fn generator_bridges_only_what_needs_no_code() {
    let target = Target::get();
    for convention in [CONVENTION_DEFAULT, CONVENTION_CDECL] {
        let generator =
            target.get_wrapper_generator(0x1234, &WrapperMetadata { convention, abstractd: 7 });
        assert_eq!(generator.generate_wrapper(), Ok(0x1234));
        assert_eq!(generator.generate_reverse_wrapper(), Ok(0x1234));
    }
    for convention in [2, 3, 4, u32::MAX] {
        let generator =
            target.get_wrapper_generator(0x1234, &WrapperMetadata { convention, abstractd: 7 });
        assert_eq!(generator.generate_wrapper(), Err(HookError::UnsupportedConvention));
        assert_eq!(generator.generate_reverse_wrapper(), Err(HookError::UnsupportedConvention));
    }
}

#[test]
fn error_messages_differ() {
    let all = [
        HookError::PatchFailure,
        HookError::UnsupportedConvention,
        HookError::UnknownHandle,
        HookError::UnresolvedLabel,
    ];
    for (i, a) in all.iter().enumerate() {
        assert!(!a.message().is_empty());
        for b in &all[i + 1..] {
            assert_ne!(a.message(), b.message());
        }
    }
}

#[test]
fn arena_hands_out_pieces_that_do_not_meet() {
    let mut arena = Arena::new(0x50_0000, 50).unwrap();
    assert_eq!(arena.remaining(), 50);
    assert_eq!(arena.allocate(20), Some(0x50_0000));
    assert_eq!(arena.allocate(20), Some(0x50_0014));
    assert_eq!(arena.remaining(), 10);
    assert_eq!(arena.allocate(11), None);
    assert_eq!(arena.remaining(), 10);
    assert_eq!(arena.allocate(10), Some(0x50_0028));
    assert_eq!(arena.allocate(0), Some(0x50_0032));
    assert_eq!(arena.allocate(1), None);
    assert!(Arena::new(u64::MAX, 1).is_none());
    assert!(Arena::new(u64::MAX - 1, 1).is_some());
}

#[test]
fn the_longest_capture_and_trampoline() {
    // Four single bytes, and then the longest instruction there is.
    let code = vec![
        0x90, 0x90, 0x90, 0x90, 0x81, 0x84, 0x24, 0x00, 0x01, 0x00, 0x00, 0x01, 0x00, 0x00, 0x00,
    ];
    assert_eq!(instruction_length(&code, 4), Some(11));
    assert_eq!(capture_length(&code), Some(MAX_CAPTURE));
    let built = build_trampoline(&code, 15, 0x1000, 0x3000).unwrap();
    assert_eq!(built.len(), MAX_TRAMPOLINE);
}
