//! The task state segment of the x86_64 kernel: a double-fault stack and a stack for each
//! of the privilege levels 0 to 2.

use vstd::prelude::*;

use super::bits64::TaskStateSegment;
use crate::interrupts::DOUBLE_FAULT_IST_INDEX;
use crate::memory::{lemma_first_stack_ready, lemma_next_stacks_ready, MemoryController};
use crate::paging::PAGE_SIZE;

verus! {

/// A TSS with a new one-page double-fault stack and three new one-page privilege-level
/// stacks; `None` when a stack could not be allocated.
pub fn tss(memory_controller: &mut MemoryController) -> (r: Option<TaskStateSegment>)
    requires
        old(memory_controller).wf(),
    ensures
        final(memory_controller).wf(),
        r matches Some(t) ==> {
            let start = old(memory_controller).stack_range().start.number;
            &&& t.ist[DOUBLE_FAULT_IST_INDEX as int] == (start + 2) * PAGE_SIZE
            &&& forall|i: int| 0 <= i < 3 ==> #[trigger] t.rsp[i] == (start + 4 + 2 * i) * PAGE_SIZE
            &&& forall|i: int| 1 <= i < 7 ==> #[trigger] t.ist[i] == 0
            &&& t.iomap_base == 0
        },
        old(memory_controller).one_page_stacks_ready(4) ==> r is Some,
{
    let mut tss = TaskStateSegment::new();
    let ghost ready = memory_controller.one_page_stacks_ready(4);
    let ghost prev = *memory_controller;
    proof {
        if ready {
            lemma_first_stack_ready(memory_controller, 4);
        }
    }
    let double_fault_stack = match memory_controller.alloc_stack(1) {
        Some(stack) => stack,
        None => {
            return None;
        },
    };
    proof {
        if ready {
            lemma_next_stacks_ready(&prev, memory_controller, 4);
        }
    }
    tss.ist[DOUBLE_FAULT_IST_INDEX] = double_fault_stack.top();
    let ghost start = old(memory_controller).stack_range().start.number;
    // privilege level stacks
    let mut i: usize = 0;
    while i < 3
        invariant
            memory_controller.wf(),
            i <= 3,
            memory_controller.stack_range().start.number == start + 2 + 2 * i,
            tss.ist[DOUBLE_FAULT_IST_INDEX as int] == (start + 2) * PAGE_SIZE,
            forall|k: int| 1 <= k < 7 ==> #[trigger] tss.ist[k] == 0,
            tss.iomap_base == 0,
            forall|k: int| 0 <= k < i ==> #[trigger] tss.rsp[k] == (start + 4 + 2 * k) * PAGE_SIZE,
            ready == old(memory_controller).one_page_stacks_ready(4),
            ready ==> memory_controller.one_page_stacks_ready(3 - i),
        decreases 3 - i,
    {
        let ghost prev = *memory_controller;
        proof {
            if ready {
                lemma_first_stack_ready(memory_controller, 3 - i);
            }
        }
        let stack = match memory_controller.alloc_stack(1) {
            Some(stack) => stack,
            None => {
                return None;
            },
        };
        proof {
            if ready {
                lemma_next_stacks_ready(&prev, memory_controller, 3 - i);
            }
        }
        tss.rsp[i] = stack.top();
        i = i + 1;
    }
    Some(tss)
}

} // verus!
