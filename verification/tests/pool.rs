use tulip_hook::error::HookError;
use tulip_hook::handler::HandlerMetadata;
use tulip_hook::hook::{HookHandle, HookMetadata};
use tulip_hook::patch::{Patch, PatchSite};
use tulip_hook::pool::Pool;
use tulip_hook::{create_handler, remove_handler};

const X: u64 = 0x40_1000;
const Y: u64 = 0x40_2000;

fn cdecl() -> HandlerMetadata {
    HandlerMetadata { convention: 0, abstractd: 0 }
}

fn site(trampoline: u64) -> PatchSite {
    PatchSite {
        // mov eax, 1; ret
        code: vec![0xb8, 0x01, 0x00, 0x00, 0x00, 0xc3],
        trampoline,
        handler: 0x60_0000,
    }
}

fn priority(priority: i32) -> HookMetadata {
    HookMetadata { priority }
}

/// Performs `patches` on the 16 bytes of `memory` that stand at `base`.
fn perform(memory: &mut [u8; 16], base: u64, patches: &[Patch]) {
    for patch in patches {
        if patch.address >= base && patch.address < base + 16 {
            let at = (patch.address - base) as usize;
            memory[at..at + patch.bytes.len()].copy_from_slice(&patch.bytes);
        }
    }
}

#[test]
fn new_pool_is_empty() {
    assert!(Pool::new().get_handler(X).is_none());
    assert!(Pool::get().get_handler(X).is_none());
    assert!(Pool::default().get_handler(X).is_none());
}

#[test]
fn create_handler_patches_once() {
    let mut pool = Pool::new();
    let (address, patches) = pool.create_handler(X, cdecl(), &site(0x50_0000)).unwrap();
    assert_eq!(address, X);
    assert_eq!(patches.len(), 2);
    let (address, patches) = pool.create_handler(X, cdecl(), &site(0x50_1000)).unwrap();
    assert_eq!(address, X);
    assert!(patches.is_empty());
    let handler = pool.get_handler(X).unwrap();
    assert_eq!(handler.hook_count(), 1);
    assert_eq!(handler.trampoline(), 0x50_0000);
    assert!(handler.is_patched());
}

#[test]
fn create_handler_that_fails_leaves_no_handler() {
    let mut pool = Pool::new();
    let bad = PatchSite { code: vec![0xc3], trampoline: 0x50_0000, handler: 0x60_0000 };
    assert_eq!(pool.create_handler(X, cdecl(), &bad).err(), Some(HookError::PatchFailure));
    assert!(pool.get_handler(X).is_none());
    let stdcall = HandlerMetadata { convention: 2, abstractd: 0 };
    assert_eq!(
        pool.create_handler(X, stdcall, &site(0x50_0000)).err(),
        Some(HookError::UnsupportedConvention)
    );
    assert!(pool.get_handler(X).is_none());
}

#[test]
fn install_twice_gives_two_handles_and_one_handler() {
    let mut pool = Pool::new();
    let (first, patches) = pool.install(X, 0xcafe, priority(0), cdecl(), &site(0x50_0000)).unwrap();
    assert_eq!(patches.len(), 2);
    let (second, patches) =
        pool.install(X, 0xcafe, priority(0), cdecl(), &site(0x50_1000)).unwrap();
    assert!(patches.is_empty());
    assert_ne!(first, second);
    assert_eq!(first, HookHandle { address: X, id: 2 });
    assert_eq!(second, HookHandle { address: X, id: 3 });
    let handler = pool.get_handler(X).unwrap();
    assert_eq!(handler.content().functions, vec![0xcafe, 0xcafe, 0x50_0000]);
    assert_eq!(handler.original_bytes(), &vec![0xb8, 0x01, 0x00, 0x00, 0x00]);
    assert!(pool.get_handler(Y).is_none());
}

#[test]
fn install_orders_by_priority_around_the_original() {
    let mut pool = Pool::new();
    pool.install(X, 0x10, priority(10), cdecl(), &site(0x50_0000)).unwrap();
    pool.install(X, 0x05, priority(5), cdecl(), &site(0x50_0000)).unwrap();
    assert_eq!(pool.get_handler(X).unwrap().content().functions, vec![0x05, 0x10, 0x50_0000]);
    pool.install(X, 0x99, priority(i32::MAX), cdecl(), &site(0x50_0000)).unwrap();
    assert_eq!(
        pool.get_handler(X).unwrap().content().functions,
        vec![0x05, 0x10, 0x50_0000, 0x99]
    );
}

#[test]
fn handlers_of_different_addresses_do_not_meet() {
    let mut pool = Pool::new();
    let (x, _) = pool.install(X, 0x1, priority(0), cdecl(), &site(0x50_0000)).unwrap();
    let (y, _) = pool.install(Y, 0x2, priority(0), cdecl(), &site(0x50_1000)).unwrap();
    assert_eq!(x.id, y.id);
    assert_ne!(x, y);
    assert_eq!(pool.get_handler(X).unwrap().content().functions, vec![0x1, 0x50_0000]);
    assert_eq!(pool.get_handler(Y).unwrap().content().functions, vec![0x2, 0x50_1000]);
    pool.remove(x).unwrap();
    assert!(pool.get_handler(X).is_none());
    assert!(pool.get_handler(Y).is_some());
}

#[test]
fn removing_the_last_hook_restores_the_target() {
    let mut memory: [u8; 16] = [0xb8, 0x01, 0x00, 0x00, 0x00, 0xc3, 1, 2, 3, 4, 5, 6, 7, 8, 9, 10];
    let found = memory;
    let mut pool = Pool::new();
    let here = PatchSite { code: memory.to_vec(), trampoline: 0x50_0000, handler: 0x60_0000 };
    let (h1, patches) = pool.install(X, 0x111, priority(0), cdecl(), &here).unwrap();
    perform(&mut memory, X, &patches);
    assert_eq!(&memory[..5], &[0xe9, 0xfb, 0xef, 0x1f, 0x00]);
    assert_eq!(&memory[5..], &found[5..]);
    let now = PatchSite { code: memory.to_vec(), trampoline: 0x50_1000, handler: 0x60_0000 };
    let (h2, patches) = pool.install(X, 0x222, priority(1), cdecl(), &now).unwrap();
    perform(&mut memory, X, &patches);
    let patches = pool.remove(h1).unwrap();
    assert!(patches.is_empty());
    assert_eq!(pool.get_handler(X).unwrap().content().functions, vec![0x222, 0x50_0000]);
    let patches = pool.remove(h2).unwrap();
    perform(&mut memory, X, &patches);
    assert_eq!(memory, found);
    assert!(pool.get_handler(X).is_none());
}

#[test]
fn remove_of_an_unknown_handle_fails() {
    let mut pool = Pool::new();
    assert_eq!(pool.remove(HookHandle { address: X, id: 1 }).err(), Some(HookError::UnknownHandle));
    let (handle, _) = pool.install(X, 0x1, priority(0), cdecl(), &site(0x50_0000)).unwrap();
    pool.install(X, 0x2, priority(0), cdecl(), &site(0x50_0000)).unwrap();
    let wrong = HookHandle { address: X, id: 77 };
    assert_eq!(pool.remove(wrong).err(), Some(HookError::UnknownHandle));
    assert_eq!(pool.get_handler(X).unwrap().hook_count(), 3);
    assert!(pool.remove(handle).is_ok());
    assert_eq!(pool.remove(handle).err(), Some(HookError::UnknownHandle));
}

#[test]
fn update_through_the_pool_reorders() {
    let mut pool = Pool::new();
    let (a, _) = pool.install(X, 0xa, priority(1), cdecl(), &site(0x50_0000)).unwrap();
    pool.install(X, 0xb, priority(2), cdecl(), &site(0x50_0000)).unwrap();
    assert_eq!(pool.update_hook_metadata(a, priority(3)), Ok(()));
    assert_eq!(pool.get_handler(X).unwrap().content().functions, vec![0xb, 0xa, 0x50_0000]);
    let wrong = HookHandle { address: Y, id: a.id };
    assert_eq!(pool.update_hook_metadata(wrong, priority(3)), Err(HookError::UnknownHandle));
}

#[test]
fn remove_handler_restores_and_evicts() {
    let mut pool = Pool::new();
    pool.install(X, 0xa, priority(1), cdecl(), &site(0x50_0000)).unwrap();
    pool.install(X, 0xb, priority(2), cdecl(), &site(0x50_0000)).unwrap();
    let patches = pool.remove_handler(X).unwrap();
    assert_eq!(patches.len(), 1);
    assert_eq!(patches[0].address, X);
    assert_eq!(patches[0].bytes, vec![0xb8, 0x01, 0x00, 0x00, 0x00]);
    assert!(pool.get_handler(X).is_none());
    assert!(pool.remove_handler(X).unwrap().is_empty());
}

#[test]
fn free_functions_work_on_the_pool_they_are_given() {
    let mut pool = Pool::get();
    let (address, patches) = create_handler(&mut pool, X, cdecl(), &site(0x50_0000)).unwrap();
    assert_eq!(address, X);
    assert_eq!(patches[1].address, X);
    assert!(pool.get_handler(X).is_some());
    let patches = remove_handler(&mut pool, X).unwrap();
    assert_eq!(patches.len(), 1);
    assert!(pool.get_handler(X).is_none());
}
