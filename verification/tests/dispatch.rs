use batch_kernel::batch::{
    init, print_app_info, run_next_app, step_message, AppManager, NextStep,
};
use batch_kernel::config::{
    get_base_i, APP_BASE_ADDRESS, APP_SIZE_LIMIT, KERNEL_STACK_SIZE, USER_STACK_SIZE,
};
use batch_kernel::console::{push_decimal, push_hexadecimal, push_text};
use batch_kernel::context::{TrapContext, CONTEXT_SIZE};
use batch_kernel::image::ImageTable;
use batch_kernel::loader::init_app_cx;
use batch_kernel::region::Region;
use batch_kernel::sbi::{console_putchar, set_timer, shutdown, PlatformCall, ResetReason};
use batch_kernel::stack::{KernelStack, StackPool, UserStack};

const KSTACK: usize = 0x8030_0000;
const USTACK: usize = 0x8031_0000;

fn table() -> (ImageTable, Vec<u8>) {
    let image: Vec<u8> = (0..4197usize).map(|i| (i % 251) as u8 + 1).collect();
    (ImageTable::new(3, vec![0, 100, 4196, 4197], image.clone()).unwrap(), image)
}

#[test]
fn apps_are_dispatched_in_order_then_shutdown() {
    let (t, image) = table();
    let bounds = [0usize, 100, 4196, 4197];
    let mut manager = AppManager::new(t);
    let mut slot = Region::new(APP_BASE_ADDRESS, APP_SIZE_LIMIT);
    let mut kstack = KernelStack::new(KSTACK);
    let ustack = UserStack::new(USTACK);
    assert_eq!(manager.get_current_app(), 0);
    for id in 0..3usize {
        let step = run_next_app(&mut manager, &mut slot, &mut kstack, &ustack);
        assert_eq!(
            step,
            NextStep::Enter { app_id: id, cx_addr: KSTACK + KERNEL_STACK_SIZE - CONTEXT_SIZE }
        );
        assert_eq!(manager.get_current_app(), id + 1);
        let len = bounds[id + 1] - bounds[id];
        assert_eq!(slot.read(APP_BASE_ADDRESS, len), &image[bounds[id]..bounds[id + 1]]);
        let cx = kstack.read_context(KSTACK + KERNEL_STACK_SIZE - CONTEXT_SIZE);
        assert_eq!(cx.entry(), APP_BASE_ADDRESS);
        assert_eq!(cx.stack_pointer(), USTACK + USER_STACK_SIZE);
    }
    let slot_before = slot.read(APP_BASE_ADDRESS, APP_SIZE_LIMIT);
    let stack_before = kstack.read(KSTACK, KERNEL_STACK_SIZE);
    for _ in 0..3 {
        let step = run_next_app(&mut manager, &mut slot, &mut kstack, &ustack);
        assert_eq!(step, NextStep::Shutdown { failure: false });
        assert_eq!(manager.get_current_app(), 3);
    }
    assert_eq!(slot.read(APP_BASE_ADDRESS, APP_SIZE_LIMIT), slot_before);
    assert_eq!(kstack.read(KSTACK, KERNEL_STACK_SIZE), stack_before);
}

#[test]
fn empty_table_shuts_down_at_once() {
    let t = ImageTable::new(0, vec![0], vec![]).unwrap();
    let mut manager = AppManager::new(t);
    let mut slot = Region::new(APP_BASE_ADDRESS, APP_SIZE_LIMIT);
    let mut kstack = KernelStack::new(KSTACK);
    let ustack = UserStack::new(USTACK);
    let step = run_next_app(&mut manager, &mut slot, &mut kstack, &ustack);
    assert_eq!(step, NextStep::Shutdown { failure: false });
    assert_eq!(manager.get_current_app(), 0);
}

#[test]
fn move_to_next_app_adds_one() {
    let (t, _) = table();
    let mut manager = AppManager::new(t);
    assert_eq!(manager.num_app(), 3);
    manager.move_to_next_app();
    assert_eq!(manager.get_current_app(), 1);
    manager.move_to_next_app();
    assert_eq!(manager.get_current_app(), 2);
}

#[test]
fn boot_report_lists_every_app() {
    let (t, _) = table();
    let manager = AppManager::new(t);
    let want = "[kernel] num_app = 3\n\
                [kernel] app_0 [0x0, 0x64)\n\
                [kernel] app_1 [0x64, 0x1064)\n\
                [kernel] app_2 [0x1064, 0x1065)\n";
    assert_eq!(String::from_utf8(manager.print_app_info()).unwrap(), want);
    assert_eq!(String::from_utf8(print_app_info(&manager)).unwrap(), want);
    assert_eq!(String::from_utf8(init(&manager)).unwrap(), want);
}

#[test]
fn boot_report_of_empty_table_has_one_line() {
    let manager = AppManager::new(ImageTable::new(0, vec![0x8020_0000], vec![]).unwrap());
    assert_eq!(String::from_utf8(manager.print_app_info()).unwrap(), "[kernel] num_app = 0\n");
}

#[test]
fn boot_report_prints_addresses_in_hexadecimal() {
    let t = ImageTable::new(
        2,
        vec![0x8020_a000, 0x8020_bfff, 0x8021_0000],
        vec![0; 0x6000],
    )
    .unwrap();
    let manager = AppManager::new(t);
    let want = format!(
        "[kernel] num_app = {}\n[kernel] app_{} [{:#x}, {:#x})\n[kernel] app_{} [{:#x}, {:#x})\n",
        2, 0, 0x8020_a000usize, 0x8020_bfffusize, 1, 0x8020_bfffusize, 0x8021_0000usize
    );
    assert_eq!(String::from_utf8(manager.print_app_info()).unwrap(), want);
}

#[test]
fn each_step_has_its_console_line() {
    let enter = NextStep::Enter { app_id: 12, cx_addr: 0x8030_1ef0 };
    assert_eq!(String::from_utf8(step_message(enter)).unwrap(), "[kernel] Loading app_12\n");
    let enter = NextStep::Enter { app_id: 0, cx_addr: 0 };
    assert_eq!(String::from_utf8(step_message(enter)).unwrap(), "[kernel] Loading app_0\n");
    let stop = NextStep::Shutdown { failure: false };
    assert_eq!(String::from_utf8(step_message(stop)).unwrap(), "All applications completed!\n");
}

#[test]
fn numbers_are_written_as_the_formatter_writes_them() {
    let values = [
        0usize, 1, 9, 10, 11, 15, 16, 17, 99, 100, 255, 256, 4095, 4096, 65535, 0x8040_0000,
        0xdead_beef, usize::MAX - 1, usize::MAX,
    ];
    for v in values {
        let mut out = Vec::new();
        push_decimal(&mut out, v);
        assert_eq!(String::from_utf8(out).unwrap(), format!("{}", v));
        let mut out = Vec::new();
        push_hexadecimal(&mut out, v);
        assert_eq!(String::from_utf8(out).unwrap(), format!("{:#x}", v));
    }
}

#[test]
fn text_is_appended_after_what_is_there() {
    let mut out = vec![b'a'];
    push_text(&mut out, "bc ");
    push_decimal(&mut out, 42);
    push_text(&mut out, " ");
    push_hexadecimal(&mut out, 42);
    assert_eq!(out, b"abc 42 0x2a");
}

#[test]
fn pushed_record_lies_just_below_the_top() {
    let mut kstack = KernelStack::new(KSTACK);
    assert_eq!(kstack.get_sp(), KSTACK + 8192);
    let record: Vec<u8> = (0..256usize).map(|i| (i as u8) ^ 0x5a).collect();
    let addr = kstack.push_record(&record);
    assert_eq!(addr, kstack.get_sp() - 256);
    assert_eq!(kstack.read(addr, 256), record);
    assert!(kstack.read(KSTACK, 8192 - 256).iter().all(|b| *b == 0));
}

#[test]
fn pushed_context_reads_back() {
    let mut kstack = KernelStack::new(KSTACK);
    let cx = TrapContext::app_init_context(0x8040_0000, 0x8031_2000);
    let addr = kstack.push_context(cx);
    assert_eq!(addr, KSTACK + KERNEL_STACK_SIZE - 272);
    let back = kstack.read_context(addr);
    assert_eq!(back, cx);
    assert_eq!(back.entry(), 0x8040_0000);
    assert_eq!(back.stack_pointer(), 0x8031_2000);
    assert_eq!(kstack.read(addr, CONTEXT_SIZE), cx.to_bytes());
}

#[test]
fn initial_context_has_only_entry_and_stack_pointer() {
    let cx = TrapContext::app_init_context(0x1122_3344, 0x5566_7788);
    assert_eq!(cx.sepc, 0x1122_3344);
    assert_eq!(cx.sstatus, 0);
    assert_eq!(cx.sstatus & 0x100, 0);
    for i in 0..32 {
        assert_eq!(cx.x[i], if i == 2 { 0x5566_7788 } else { 0 });
    }
}

#[test]
fn context_bytes_are_little_endian_words() {
    let mut cx = TrapContext::app_init_context(0x0102_0304_0506_0708, 0x1112_1314_1516_1718);
    cx.x[31] = 0xff;
    cx.sstatus = 0x100;
    let bytes = cx.to_bytes();
    assert_eq!(bytes.len(), 272);
    assert_eq!(&bytes[0..16], &[0u8; 16]);
    assert_eq!(&bytes[16..24], &[0x18, 0x17, 0x16, 0x15, 0x14, 0x13, 0x12, 0x11]);
    assert_eq!(&bytes[248..256], &[0xff, 0, 0, 0, 0, 0, 0, 0]);
    assert_eq!(&bytes[256..264], &[0, 1, 0, 0, 0, 0, 0, 0]);
    assert_eq!(&bytes[264..272], &[8, 7, 6, 5, 4, 3, 2, 1]);
    assert_eq!(TrapContext::from_bytes(&bytes), cx);
}

#[test]
fn pool_gives_each_slot_its_own_stacks() {
    let mut pool = StackPool::new(KSTACK, USTACK, 4);
    assert_eq!(pool.slot_count(), 4);
    for i in 0..4 {
        assert_eq!(pool.kernel_sp(i), KSTACK + (i + 1) * KERNEL_STACK_SIZE);
        assert_eq!(pool.user_sp(i), USTACK + (i + 1) * USER_STACK_SIZE);
    }
    let cx = TrapContext::app_init_context(0x40, 0x80);
    let addr = pool.push_context(2, cx);
    assert_eq!(addr, KSTACK + 3 * KERNEL_STACK_SIZE - CONTEXT_SIZE);
    assert_eq!(pool.read_context(2, addr), cx);
    let zero = pool.read_context(1, KSTACK + 2 * KERNEL_STACK_SIZE - CONTEXT_SIZE);
    assert_eq!(zero.entry(), 0);
    assert_eq!(zero.stack_pointer(), 0);
}

#[test]
fn init_app_cx_pushes_the_slot_entry() {
    let mut pool = StackPool::new(KSTACK, USTACK, 3);
    for id in 0..3usize {
        let addr = init_app_cx(&mut pool, id);
        assert_eq!(addr, KSTACK + (id + 1) * KERNEL_STACK_SIZE - CONTEXT_SIZE);
        let cx = pool.read_context(id, addr);
        assert_eq!(cx.entry(), get_base_i(id));
        assert_eq!(cx.entry(), APP_BASE_ADDRESS + id * APP_SIZE_LIMIT);
        assert_eq!(cx.stack_pointer(), USTACK + (id + 1) * USER_STACK_SIZE);
        assert_eq!(cx.sstatus, 0);
    }
}

#[test]
fn platform_calls_carry_their_arguments() {
    assert_eq!(console_putchar(65), PlatformCall::ConsolePutchar { c: 65 });
    assert_eq!(set_timer(12_500_000), PlatformCall::SetTimer { deadline: 12_500_000 });
    assert_eq!(shutdown(false), PlatformCall::Shutdown { reason: ResetReason::NoReason });
    assert_eq!(shutdown(true), PlatformCall::Shutdown { reason: ResetReason::SystemFailure });
}
