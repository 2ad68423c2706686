//! Privilege-isolation and memory-protection core of a small single-core
//! x86-64 kernel: frame allocation, page-table bookkeeping, the heap arena,
//! segment and interrupt tables, syscall dispatch and the ring transition,
//! together with the kernel's supporting data-processing components.
use vstd::prelude::*;

pub mod frame;
pub mod paging;
pub mod heap;
pub mod gdt;
pub mod process;
pub mod syscall;
pub mod interrupts;
pub mod transition;
pub mod boot;
pub mod layout;
pub mod keyboard;
pub mod platform;
pub mod text;
pub mod network;
pub mod resource;
pub mod fs;
pub mod css;
pub mod html;
pub mod drivers;

verus! {

} // verus!
