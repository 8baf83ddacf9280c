use tulip_hook::error::HookError;
use tulip_hook::handler::{Handler, HandlerContent, HandlerMetadata, ORIGINAL_PRIORITY};
use tulip_hook::hook::{Hook, HookMetadata};
use tulip_hook::patch::PatchSite;

const TARGET: u64 = 0x40_1000;
const TRAMPOLINE: u64 = 0x50_0000;
const DISPATCHER: u64 = 0x60_0000;

fn cdecl() -> HandlerMetadata {
    HandlerMetadata { convention: 0, abstractd: 0 }
}

fn prologue() -> PatchSite {
    PatchSite {
        // push ebp; mov ebp, esp; sub esp, 0x10; push ebx; push esi
        code: vec![0x55, 0x8b, 0xec, 0x83, 0xec, 0x10, 0x53, 0x56],
        trampoline: TRAMPOLINE,
        handler: DISPATCHER,
    }
}

fn priority(priority: i32) -> HookMetadata {
    HookMetadata { priority }
}

#[test]
fn hook_new_keeps_its_fields() {
    let hook = Hook::new(0x1234, priority(-3));
    assert_eq!(hook.address, 0x1234);
    assert_eq!(hook.metadata.priority, -3);
}

#[test]
fn new_handler_is_empty_and_unpatched() {
    let handler = Handler::new(TARGET, cdecl());
    assert_eq!(handler.address(), TARGET);
    assert_eq!(handler.metadata(), cdecl());
    assert_eq!(handler.hook_count(), 0);
    assert_eq!(handler.original_hook(), None);
    assert!(!handler.is_patched());
    assert!(handler.is_idle());
    assert_eq!(handler.trampoline_size(), 0);
}

#[test]
fn init_registers_the_original_with_the_highest_priority() {
    let mut handler = Handler::new(TARGET, cdecl());
    assert_eq!(handler.init(), Ok(()));
    let hooks = handler.hooks();
    assert_eq!(hooks.len(), 1);
    assert_eq!(hooks[0].id, 1);
    assert_eq!(hooks[0].hook.metadata.priority, i32::MAX);
    assert_eq!(ORIGINAL_PRIORITY, i32::MAX);
    assert_eq!(handler.original_hook(), Some(1));
    assert!(handler.is_idle());
}

#[test]
fn hooks_run_by_ascending_priority_and_the_original_last() {
    let (mut handler, _) = Handler::create(TARGET, cdecl(), &prologue()).unwrap();
    let ten = handler.create_hook(0xa0, priority(10));
    let five = handler.create_hook(0x50, priority(5));
    assert_ne!(ten, five);
    assert_eq!(handler.content().functions, vec![0x50, 0xa0, TRAMPOLINE]);
    // No priority lies above that of the original: a hook that asks for
    // the same one stands behind it, and so runs after the original.
    handler.create_hook(0xff, priority(i32::MAX));
    assert_eq!(handler.content().functions, vec![0x50, 0xa0, TRAMPOLINE, 0xff]);
}

#[test]
fn hooks_of_one_priority_run_in_the_order_of_registration() {
    let mut handler = Handler::new(TARGET, cdecl());
    handler.create_hook(1, priority(7));
    handler.create_hook(2, priority(7));
    handler.create_hook(3, priority(-7));
    handler.create_hook(4, priority(7));
    assert_eq!(handler.content().functions, vec![3, 1, 2, 4]);
}

#[test]
fn observed_calls_before_and_after_a_removal() {
    let (mut handler, _) = Handler::create(TARGET, cdecl(), &prologue()).unwrap();
    let h1 = handler.create_hook(0x111, priority(0));
    let _h2 = handler.create_hook(0x222, priority(1));
    let proceed = vec![true, true, true];
    assert_eq!(handler.content().dispatch(&proceed), vec![0x111, 0x222, TRAMPOLINE]);
    assert_eq!(handler.remove_hook(h1), Ok(()));
    assert_eq!(handler.content().dispatch(&proceed), vec![0x222, TRAMPOLINE]);
}

#[test]
fn dispatch_stops_behind_the_first_hook_that_does_not_proceed() {
    let content = HandlerContent { functions: vec![10, 20, 30, 40] };
    assert_eq!(content.dispatch(&vec![true, false, true, true]), vec![10, 20]);
    assert_eq!(content.dispatch(&vec![false]), vec![10]);
    assert_eq!(content.dispatch(&vec![]), vec![10, 20, 30, 40]);
    assert_eq!(content.dispatch(&vec![true, true, true, false]), vec![10, 20, 30, 40]);
    assert_eq!(HandlerContent::new().dispatch(&vec![false]), Vec::<u64>::new());
}

#[test]
fn removing_a_hook_keeps_the_others_in_order() {
    let mut handler = Handler::new(TARGET, cdecl());
    let a = handler.create_hook(0xa, priority(1));
    let b = handler.create_hook(0xb, priority(2));
    let c = handler.create_hook(0xc, priority(3));
    let d = handler.create_hook(0xd, priority(4));
    assert_eq!(handler.remove_hook(b), Ok(()));
    assert_eq!(handler.content().functions, vec![0xa, 0xc, 0xd]);
    let ids: Vec<u64> = handler.hooks().iter().map(|entry| entry.id).collect();
    assert_eq!(ids, vec![a, c, d]);
}

#[test]
fn removing_an_unknown_hook_fails_and_changes_nothing() {
    let mut handler = Handler::new(TARGET, cdecl());
    let a = handler.create_hook(0xa, priority(1));
    assert_eq!(handler.remove_hook(a + 1), Err(HookError::UnknownHandle));
    assert_eq!(handler.hooks().len(), 1);
    assert_eq!(handler.remove_hook(a), Ok(()));
    assert_eq!(handler.remove_hook(a), Err(HookError::UnknownHandle));
}

#[test]
fn removing_the_original_forgets_it() {
    let mut handler = Handler::new(TARGET, cdecl());
    handler.add_original();
    let original = handler.original_hook().unwrap();
    let other = handler.create_hook(0xa, priority(1));
    assert!(!handler.is_idle());
    assert_eq!(handler.remove_hook(original), Ok(()));
    assert_eq!(handler.original_hook(), None);
    assert_eq!(handler.hooks()[0].id, other);
}

#[test]
fn clear_hooks_leaves_only_a_new_original() {
    let (mut handler, _) = Handler::create(TARGET, cdecl(), &prologue()).unwrap();
    handler.create_hook(0xa, priority(1));
    handler.create_hook(0xb, priority(2));
    handler.clear_hooks();
    assert_eq!(handler.content().functions, vec![TRAMPOLINE]);
    assert_eq!(handler.original_hook(), Some(4));
    assert!(handler.is_idle());
    assert!(handler.is_patched());
}

#[test]
fn update_moves_a_hook_the_least_distance() {
    let mut handler = Handler::new(TARGET, cdecl());
    let a = handler.create_hook(0xa, priority(5));
    let b = handler.create_hook(0xb, priority(5));
    let c = handler.create_hook(0xc, priority(7));
    // c comes down to the priority of a and b: it stays behind them.
    assert_eq!(handler.update_hook_metadata(c, priority(5)), Ok(()));
    assert_eq!(handler.content().functions, vec![0xa, 0xb, 0xc]);
    // a goes up to 7: it moves behind b and c.
    assert_eq!(handler.update_hook_metadata(a, priority(7)), Ok(()));
    assert_eq!(handler.content().functions, vec![0xb, 0xc, 0xa]);
    // a comes back to 5: it stands behind the hooks of priority 5 that were
    // before it.
    assert_eq!(handler.update_hook_metadata(a, priority(5)), Ok(()));
    assert_eq!(handler.content().functions, vec![0xb, 0xc, 0xa]);
    // b goes up to 6: it passes c and a.
    assert_eq!(handler.update_hook_metadata(b, priority(6)), Ok(()));
    assert_eq!(handler.content().functions, vec![0xc, 0xa, 0xb]);
    // b comes down to 5 again: it stops where the order is restored, in
    // front of nothing that it need not pass.
    assert_eq!(handler.update_hook_metadata(b, priority(5)), Ok(()));
    assert_eq!(handler.content().functions, vec![0xc, 0xa, 0xb]);
    assert_eq!(handler.update_hook_metadata(b, priority(4)), Ok(()));
    assert_eq!(handler.content().functions, vec![0xb, 0xc, 0xa]);
    let priorities: Vec<i32> =
        handler.hooks().iter().map(|entry| entry.hook.metadata.priority).collect();
    assert_eq!(priorities, vec![4, 5, 5]);
}

#[test]
fn update_of_an_unknown_hook_fails() {
    let mut handler = Handler::new(TARGET, cdecl());
    handler.create_hook(0xa, priority(5));
    assert_eq!(handler.update_hook_metadata(9, priority(1)), Err(HookError::UnknownHandle));
    assert_eq!(handler.hooks()[0].hook.metadata.priority, 5);
}

#[test]
fn update_does_not_touch_the_patch() {
    let (mut handler, _) = Handler::create(TARGET, cdecl(), &prologue()).unwrap();
    let a = handler.create_hook(0xa, priority(5));
    let before = (handler.modified_bytes().clone(), handler.trampoline_code().clone());
    // A hook that stood before the original and takes its priority stays
    // before it: a stable sort moves nothing that is in order.
    assert_eq!(handler.update_hook_metadata(a, priority(i32::MAX)), Ok(()));
    assert_eq!(handler.content().functions, vec![0xa, TRAMPOLINE]);
    assert_eq!((handler.modified_bytes().clone(), handler.trampoline_code().clone()), before);
}

#[test]
fn intervene_captures_whole_instructions_and_redirects() {
    let (handler, patches) = Handler::create(TARGET, cdecl(), &prologue()).unwrap();
    assert!(handler.is_patched());
    assert_eq!(handler.original_bytes(), &vec![0x55, 0x8b, 0xec, 0x83, 0xec, 0x10]);
    assert_eq!(handler.modified_bytes(), &vec![0xe9, 0xfb, 0xef, 0x1f, 0x00, 0x90]);
    assert_eq!(
        handler.trampoline_code(),
        &vec![0x55, 0x8b, 0xec, 0x83, 0xec, 0x10, 0xe9, 0xfb, 0x0f, 0xf0, 0xff]
    );
    assert_eq!(handler.trampoline(), TRAMPOLINE);
    assert_eq!(handler.trampoline_size(), 11);
    assert_eq!(handler.handler(), DISPATCHER);
    // The trampoline is written first, the jump that takes effect last.
    assert_eq!(patches.len(), 2);
    assert_eq!(patches[0].address, TRAMPOLINE);
    assert_eq!(&patches[0].bytes, handler.trampoline_code());
    assert_eq!(patches[1].address, TARGET);
    assert_eq!(&patches[1].bytes, handler.modified_bytes());
}

#[test]
fn intervene_twice_patches_once() {
    let (mut handler, _) = Handler::create(TARGET, cdecl(), &prologue()).unwrap();
    let other = PatchSite { code: vec![0x90; 8], trampoline: 0x70_0000, handler: 0x80_0000 };
    let patches = handler.intervene_function(&other).unwrap();
    assert!(patches.is_empty());
    assert_eq!(handler.original_bytes(), &vec![0x55, 0x8b, 0xec, 0x83, 0xec, 0x10]);
    assert_eq!(handler.trampoline(), TRAMPOLINE);
}

#[test]
fn restore_writes_the_captured_bytes_back() {
    let site = prologue();
    let (mut handler, _) = Handler::create(TARGET, cdecl(), &site).unwrap();
    let patches = handler.restore_function().unwrap();
    assert_eq!(patches.len(), 1);
    assert_eq!(patches[0].address, TARGET);
    assert_eq!(patches[0].bytes, site.code[..6].to_vec());
    assert!(!handler.is_patched());
    assert_eq!(handler.trampoline_size(), 0);
    assert!(handler.restore_function().unwrap().is_empty());
}

#[test]
fn intervene_after_restore_leads_the_original_to_the_new_trampoline() {
    let (mut handler, _) = Handler::create(TARGET, cdecl(), &prologue()).unwrap();
    handler.create_hook(0xa, priority(1));
    handler.restore_function().unwrap();
    let moved = PatchSite { trampoline: 0x50_1000, ..prologue() };
    let patches = handler.intervene_function(&moved).unwrap();
    assert_eq!(patches.len(), 2);
    assert_eq!(handler.content().functions, vec![0xa, 0x50_1000]);
}

#[test]
fn intervene_refuses_what_it_cannot_move() {
    // ret: the function ends before five bytes are captured.
    let ret = PatchSite { code: vec![0x55, 0xc3, 0x90, 0x90, 0x90, 0x90], ..prologue() };
    assert_eq!(Handler::create(TARGET, cdecl(), &ret).err(), Some(HookError::PatchFailure));
    // The region is too small: it ends inside the third instruction.
    let short = PatchSite { code: vec![0x55, 0x8b, 0xec, 0x83, 0xec], ..prologue() };
    assert_eq!(Handler::create(TARGET, cdecl(), &short).err(), Some(HookError::PatchFailure));
    // The dispatcher lies further away than a jump can span.
    let far = PatchSite { handler: 0x1_0000_0000_0000, ..prologue() };
    assert_eq!(Handler::create(TARGET, cdecl(), &far).err(), Some(HookError::PatchFailure));
    let mut handler = Handler::new(TARGET, cdecl());
    assert_eq!(handler.intervene_function(&ret).err(), Some(HookError::PatchFailure));
    assert!(!handler.is_patched());
    assert_eq!(handler.original_bytes().len(), 0);
}

#[test]
fn intervene_refuses_a_convention_it_cannot_bridge() {
    let thiscall = HandlerMetadata { convention: 3, abstractd: 0 };
    assert_eq!(
        Handler::create(TARGET, thiscall, &prologue()).err(),
        Some(HookError::UnsupportedConvention)
    );
    let cdecl_by_name = HandlerMetadata { convention: 1, abstractd: 0 };
    assert!(Handler::create(TARGET, cdecl_by_name, &prologue()).is_ok());
}

#[test]
fn one_callback_can_be_registered_twice() {
    let mut handler = Handler::new(TARGET, cdecl());
    let first = handler.create_hook(0xabc, priority(3));
    let other = handler.create_hook(0xdef, priority(2));
    let second = handler.create_hook(0xabc, priority(1));
    assert_eq!(handler.hooks_with(0xabc), vec![second, first]);
    assert_eq!(handler.hooks_with(0xdef), vec![other]);
    assert_eq!(handler.hooks_with(0x123), Vec::<u64>::new());
    assert_eq!(handler.remove_hook(first), Ok(()));
    assert_eq!(handler.hooks_with(0xabc), vec![second]);
}

#[test]
fn reorder_of_a_chain_in_order_changes_nothing() {
    let mut handler = Handler::new(TARGET, cdecl());
    handler.create_hook(1, priority(1));
    handler.create_hook(2, priority(1));
    handler.create_hook(3, priority(0));
    let before = handler.hooks();
    handler.reorder_functions();
    assert_eq!(handler.hooks(), before);
}

#[test]
fn add_hook_patches_a_target_that_is_not_patched() {
    let mut handler = Handler::new(TARGET, cdecl());
    handler.add_original();
    let (first, patches) = handler.add_hook(0xa, priority(0), &prologue()).unwrap();
    assert_eq!(first, 2);
    assert_eq!(patches.len(), 2);
    let (second, patches) = handler.add_hook(0xb, priority(0), &prologue()).unwrap();
    assert_eq!(second, 3);
    assert!(patches.is_empty());
    handler.restore_function().unwrap();
    let (_, patches) = handler.add_hook(0xc, priority(0), &prologue()).unwrap();
    assert_eq!(patches.len(), 2);
    assert_eq!(handler.content().functions, vec![0xa, 0xb, 0xc, TRAMPOLINE]);
    let bad = PatchSite { code: vec![0xc3], ..prologue() };
    handler.restore_function().unwrap();
    assert_eq!(handler.add_hook(0xd, priority(0), &bad).err(), Some(HookError::PatchFailure));
    assert_eq!(handler.hook_count(), 4);
}
