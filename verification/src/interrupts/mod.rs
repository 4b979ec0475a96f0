//! Interrupt bookkeeping: the interrupt flag of the CPU and the masks of the two interrupt
//! controllers, and what to do around code that must run uninterrupted. The caller mirrors
//! each change on the hardware.

use vstd::prelude::*;

pub mod exception;
pub mod idt;
pub mod irq;
pub mod stack_frame;

verus! {

/// The interrupt stack table entry that holds the double-fault stack.
pub const DOUBLE_FAULT_IST_INDEX: usize = 0;

/// The interrupt flag and the masks of the main and the worker controller.
#[derive(Clone, Copy, PartialEq, Eq, Structural, Debug)]
pub struct InterruptState {
    pub enabled: bool,
    pub main_mask: u8,
    pub worker_mask: u8,
}

/// Disables interrupts.
pub fn disable(state: &mut InterruptState)
    ensures
        *final(state) == (InterruptState { enabled: false, ..*old(state) }),
{
    state.enabled = false;
}

/// Enables interrupts.
pub fn enable(state: &mut InterruptState)
    ensures
        *final(state) == (InterruptState { enabled: true, ..*old(state) }),
{
    state.enabled = true;
}

/// Enables interrupts; the caller then halts until the next one.
pub fn enable_and_hlt(state: &mut InterruptState)
    ensures
        *final(state) == (InterruptState { enabled: true, ..*old(state) }),
{
    enable(state);
}

/// Whether interrupts are enabled.
pub fn enabled(state: &InterruptState) -> (r: bool)
    ensures
        r == state.enabled,
{
    state.enabled
}

/// Runs `uninterrupted_fn` with interrupts disabled, handing it the state it runs in, then
/// enables them again if they were enabled before.
pub fn disable_then_execute<F, T>(state: &mut InterruptState, uninterrupted_fn: F) -> (r: T) where
    F: FnOnce(&InterruptState) -> T,

    requires
        call_requires(uninterrupted_fn, (&InterruptState { enabled: false, ..*old(state) },)),
    ensures
        call_ensures(uninterrupted_fn, (&InterruptState { enabled: false, ..*old(state) },), r),
        *final(state) == *old(state),
{
    let interrupts_enabled = enabled(state);
    if interrupts_enabled == true {
        disable(state);
    }
    let result: T = uninterrupted_fn(&*state);
    if interrupts_enabled == true {
        enable(state);
    }
    result
}

/// Disables interrupts, masks every line of both controllers and returns the masks they
/// had.
pub fn mask(state: &mut InterruptState) -> (r: (u8, u8))
    ensures
        r == (old(state).main_mask, old(state).worker_mask),
        *final(state) == (InterruptState { enabled: false, main_mask: 0xff, worker_mask: 0xff }),
{
    disable(state);
    let saved_mask1 = state.main_mask;
    let saved_mask2 = state.worker_mask;
    state.main_mask = 0xff;
    state.worker_mask = 0xff;
    (saved_mask1, saved_mask2)
}

/// Unmasks every line of both controllers and enables interrupts.
pub fn clear_mask(state: &mut InterruptState)
    ensures
        *final(state) == (InterruptState { enabled: true, main_mask: 0, worker_mask: 0 }),
{
    disable(state);
    state.main_mask = 0;
    state.worker_mask = 0;
    enable(state);
}

/// Puts back the masks `saved_masks` and enables interrupts.
pub fn restore_mask(state: &mut InterruptState, saved_masks: (u8, u8))
    ensures
        *final(state) == (InterruptState {
            enabled: true,
            main_mask: saved_masks.0,
            worker_mask: saved_masks.1,
        }),
{
    disable(state);
    let (saved_mask1, saved_mask2) = saved_masks;
    state.main_mask = saved_mask1;
    state.worker_mask = saved_mask2;
    enable(state);
}

/// Runs `uninterrupted_fn` with interrupts disabled and every line of both controllers
/// masked, handing it that state, then puts the masks back and enables interrupts.
pub fn mask_then_restore<F, T>(state: &mut InterruptState, uninterrupted_fn: F) -> (r: T) where
    F: FnOnce(&InterruptState) -> T,

    requires
        call_requires(
            uninterrupted_fn,
            (&InterruptState { enabled: false, main_mask: 0xff, worker_mask: 0xff },),
        ),
    ensures
        call_ensures(
            uninterrupted_fn,
            (&InterruptState { enabled: false, main_mask: 0xff, worker_mask: 0xff },),
            r,
        ),
        *final(state) == (InterruptState { enabled: true, ..*old(state) }),
{
    let saved_masks: (u8, u8) = mask(state);
    let result: T = uninterrupted_fn(&*state);
    restore_mask(state, saved_masks);
    result
}

/// Disables interrupts, runs `uninterrupted_fn` on that state and enables interrupts.
pub fn disable_interrupts_then<F>(state: &mut InterruptState, uninterrupted_fn: F) where
    F: FnOnce(&InterruptState) -> (),

    requires
        call_requires(uninterrupted_fn, (&InterruptState { enabled: false, ..*old(state) },)),
    ensures
        call_ensures(uninterrupted_fn, (&InterruptState { enabled: false, ..*old(state) },), ()),
        *final(state) == (InterruptState { enabled: true, ..*old(state) }),
{
    disable(state);
    uninterrupted_fn(&*state);
    enable(state);
}

} // verus!
