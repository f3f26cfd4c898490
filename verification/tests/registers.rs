use ptrace::regs::{
    clear_process_regs, rebase_regs_ptr, rebase_regs_ptr_mut, regs_for, regs_for_mut,
    set_process_regs, Context, SavedRegs, SignalBackup,
};

fn context() -> Context {
    Context { kstack: Some(0x1000), regs: None, ksig: None, user_handled: vec![false, true] }
}

#[test]
fn registers_are_available_until_they_are_cleared() {
    let mut context = context();
    assert_eq!(regs_for(&context), None);
    assert!(set_process_regs(Some(&mut context), 0x1f00).is_some());
    assert_eq!(context.regs, Some(SavedRegs { stack_base: 0x1000, pointer: 0x1f00 }));
    assert_eq!(regs_for(&context), Some(0x1f00));
    assert_eq!(regs_for_mut(&mut context), Some(0x1f00));
    assert_eq!(clear_process_regs(Some(&mut context)), Some(()));
    assert_eq!(context.regs, None);
    assert_eq!(context.kstack, Some(0x1000));
    assert_eq!(clear_process_regs(None), None);
}

#[test]
fn registers_need_a_process_with_a_kernel_stack() {
    assert!(set_process_regs(None, 0x1f00).is_none());
    let mut context = context();
    context.kstack = None;
    assert!(set_process_regs(Some(&mut context), 0x1f00).is_none());
    assert_eq!(context.regs, None);
}

#[test]
fn rebasing_keeps_the_distance_to_the_stack() {
    let regs = SavedRegs { stack_base: 0x1000, pointer: 0x1f00 };
    assert_eq!(rebase_regs_ptr(Some(regs), Some(0x8000)), Some(0x8f00));
    assert_eq!(rebase_regs_ptr_mut(Some(regs), Some(0x8000)), Some(0x8f00));
    assert_eq!(rebase_regs_ptr(Some(regs), Some(0)), Some(0xf00));
    assert_eq!(rebase_regs_ptr(Some(regs), Some(0x1000)), Some(0x1f00));
    let moved = SavedRegs { stack_base: 0x8000, pointer: 0x8f00 };
    assert_eq!(rebase_regs_ptr(Some(moved), Some(0x1000)), Some(0x1f00));
    assert_eq!(rebase_regs_ptr(None, Some(0x8000)), None);
    assert_eq!(rebase_regs_ptr(Some(regs), None), None);
}

#[test]
fn registers_are_found_on_the_stack_that_was_set_aside() {
    let mut context = context();
    set_process_regs(Some(&mut context), 0x1f00);
    context.ksig = Some(SignalBackup { kstack: Some(0x8000), signum: 0 });
    assert_eq!(regs_for(&context), Some(0x8f00));
    assert_eq!(regs_for_mut(&mut context), Some(0x8f00));
    context.ksig = Some(SignalBackup { kstack: None, signum: 0 });
    assert_eq!(regs_for(&context), None);
}

#[test]
fn a_handler_of_its_own_leaves_the_registers_where_they_are() {
    let mut context = context();
    set_process_regs(Some(&mut context), 0x1f00);
    context.ksig = Some(SignalBackup { kstack: Some(0x8000), signum: 1 });
    assert_eq!(regs_for(&context), Some(0x1f00));
    context.regs = None;
    assert_eq!(regs_for_mut(&mut context), None);
}
