//! Where the saved registers of a process lie.
//!
//! A process that enters the kernel leaves its registers on its kernel stack.
//! Addresses are plain numbers here: the kernel turns them into pointers.

use vstd::prelude::*;

verus! {

/// The registers of a process that is inside the kernel.
#[derive(Clone, Copy, Debug, PartialEq, Eq, Structural)]
pub struct SavedRegs {
    /// Where the kernel stack began when the registers were saved on it.
    pub stack_base: usize,
    /// Where the registers were saved.
    pub pointer: usize,
}

/// What is set aside while a process handles a signal.
#[derive(Clone, Copy, Debug, PartialEq, Eq, Structural)]
pub struct SignalBackup {
    /// Where the copy of the kernel stack begins, if there is one.
    pub kstack: Option<usize>,
    /// The signal.
    pub signum: u8,
}

/// The part of a process's context that tells where its registers are.
#[derive(Debug)]
pub struct Context {
    /// Where the kernel stack begins, if the process has one.
    pub kstack: Option<usize>,
    /// The saved registers, while they are available.
    pub regs: Option<SavedRegs>,
    /// What was set aside for the signal that is being handled, if there is one.
    pub ksig: Option<SignalBackup>,
    /// For each signal, whether the process has a handler of its own for it.
    pub user_handled: Vec<bool>,
}

/// Stands for the time in which the registers of the current process are
/// available. When it ends, `clear_process_regs` has to be called.
#[derive(Debug)]
pub struct ProcessRegsGuard;

/// A context after its registers were saved at `pointer`, on its kernel stack.
pub open spec fn after_set_regs(context: Context, pointer: usize) -> Context {
    match context.kstack {
        Some(stack_base) => Context { regs: Some(SavedRegs { stack_base, pointer }), ..context },
        None => context,
    }
}

/// A context whose registers are not available.
pub open spec fn after_clear_regs(context: Context) -> Context {
    Context { regs: None, ..context }
}

/// Makes the registers of the current process available: they lie at `pointer`,
/// on its kernel stack. Returns `None`, and changes nothing, if there is no
/// current process or it has no kernel stack.
pub fn set_process_regs(current: Option<&mut Context>, pointer: usize) -> (guard: Option<
    ProcessRegsGuard,
>)
    ensures
        guard is Some <==> (current matches Some(context) && context.kstack is Some),
        current matches Some(context) ==> *final(context) == after_set_regs(*context, pointer),
{
    let context = current?;
    let stack_base = context.kstack?;
    context.regs = Some(SavedRegs { stack_base, pointer });
    Some(ProcessRegsGuard)
}

/// Makes the registers of the current process unavailable again. Returns `None`
/// if there is no current process.
pub fn clear_process_regs(current: Option<&mut Context>) -> (cleared: Option<()>)
    ensures
        cleared is Some <==> current is Some,
        current matches Some(context) ==> *final(context) == after_clear_regs(*context),
{
    let context = current?;
    context.regs = None;
    Some(())
}

/// The place that lies as far above `base` as the saved registers lie above the
/// beginning of their own stack.
pub open spec fn rebased(regs: SavedRegs, base: usize) -> int {
    regs.pointer - regs.stack_base + base
}

/// The registers lie above the beginning of their stack, and the same distance
/// above `kstack` is an address: both, as far as they are given.
pub open spec fn can_rebase(regs: Option<SavedRegs>, kstack: Option<usize>) -> bool {
    regs matches Some(regs) ==> kstack matches Some(base) ==> {
        &&& regs.stack_base <= regs.pointer
        &&& rebased(regs, base) <= usize::MAX
    }
}

/// Where the registers lie on another stack, if there are registers and there is
/// such a stack.
pub open spec fn rebased_place(regs: Option<SavedRegs>, kstack: Option<usize>) -> Option<usize> {
    match (regs, kstack) {
        (Some(regs), Some(base)) => Some(rebased(regs, base) as usize),
        _ => None,
    }
}

/// Where the registers lie, but relative to the given stack instead of the one
/// that they were saved on.
pub fn rebase_regs_ptr(regs: Option<SavedRegs>, kstack: Option<usize>) -> (pointer: Option<usize>)
    requires
        can_rebase(regs, kstack),
    ensures
        pointer == rebased_place(regs, kstack),
{
    let regs = regs?;
    let base = kstack?;
    Some(regs.pointer - regs.stack_base + base)
}

/// The same place as `rebase_regs_ptr` gives, for changing the registers.
pub fn rebase_regs_ptr_mut(regs: Option<SavedRegs>, kstack: Option<usize>) -> (pointer: Option<
    usize,
>)
    requires
        can_rebase(regs, kstack),
    ensures
        pointer == rebased_place(regs, kstack),
{
    rebase_regs_ptr(regs, kstack)
}

impl Context {
    /// The process handles a signal, and not by a handler of its own: its kernel
    /// stack was set aside and will be restored.
    pub open spec fn stack_set_aside(self) -> bool {
        self.ksig matches Some(backup) && !self.user_handled@[backup.signum as int]
    }

    /// The signal that is being handled is one that the process knows of, and the
    /// registers have a place on the stack that was set aside for it.
    pub open spec fn locatable(self) -> bool {
        self.ksig matches Some(backup) ==> {
            &&& backup.signum < self.user_handled@.len()
            &&& self.stack_set_aside() ==> can_rebase(self.regs, backup.kstack)
        }
    }

    /// Where the registers are: on the stack that was set aside, as that will be
    /// restored and otherwise undo all changes; else where they were saved.
    pub open spec fn regs_place(self) -> Option<usize> {
        if self.stack_set_aside() {
            rebased_place(self.regs, self.ksig->0.kstack)
        } else {
            match self.regs {
                Some(regs) => Some(regs.pointer),
                None => None,
            }
        }
    }
}

/// Where to read the registers of a process. If its kernel stack was set aside
/// for a signal, this is the place on the copy.
pub fn regs_for(context: &Context) -> (pointer: Option<usize>)
    requires
        context.locatable(),
    ensures
        pointer == context.regs_place(),
{
    match context.ksig {
        None => {},
        Some(backup) => {
            let is_user_handled = context.user_handled[backup.signum as usize];
            if !is_user_handled {
                return rebase_regs_ptr(context.regs, backup.kstack);
            }
        },
    }
    match context.regs {
        Some(regs) => Some(regs.pointer),
        None => None,
    }
}

/// Where to change the registers of a process: the same place as `regs_for`
/// gives.
pub fn regs_for_mut(context: &mut Context) -> (pointer: Option<usize>)
    requires
        old(context).locatable(),
    ensures
        *final(context) == *old(context),
        pointer == old(context).regs_place(),
{
    regs_for(context)
}

} // verus!
