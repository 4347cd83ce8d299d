//! The registers of a user task, and what the kernel changes in them to have a
//! completion handler called and to return from it.

use vstd::prelude::*;
use crate::arch::Arch;
use crate::bytes::{
    law_little_endian,
    law_write_then_read,
    le64,
    le_bytes,
    read_u64,
    to_le_bytes,
};
use crate::error::KernelError;
use crate::paging::Region;

verus! {

/// The registers that a call changes. `a0` to `a7` hold the arguments and `t0`
/// to `t6` temporary values; a processor that has fewer of them leaves the
/// others unused.
#[derive(Clone, Copy, PartialEq, Eq, Structural, Debug)]
pub struct UserContext {
    pub ip: usize,
    pub ra: usize,
    pub sp: usize,
    pub t0: usize,
    pub t1: usize,
    pub t2: usize,
    pub t3: usize,
    pub t4: usize,
    pub t5: usize,
    pub t6: usize,
    pub a0: usize,
    pub a1: usize,
    pub a2: usize,
    pub a3: usize,
    pub a4: usize,
    pub a5: usize,
    pub a6: usize,
    pub a7: usize,
}

// ---------- Calling the handler ----------

/// How far the call of a handler was prepared.
#[derive(PartialEq, Eq, Debug)]
pub enum Injection {
    /// There is no room on the stack; nothing was changed.
    NoRoom,
    /// The task calls the handler when it runs again.
    Ready,
    /// Nothing was changed yet: the return address, `data`, is to be stored at
    /// `addr` first.
    Push { addr: usize, data: Vec<u8> },
}

/// Whether a call leaves the return address on the stack, not in a register.
pub open spec fn returns_by_stack(arch: Arch) -> bool {
    arch == Arch::X86_64
}

/// The registers when the task is about to run a handler that was called from
/// where it is now. `None` if the return address finds no room on the stack.
pub open spec fn handler_call(
    arch: Arch,
    c: UserContext,
    handler: usize,
    userdata: u64,
    result: i64,
) -> Option<UserContext> {
    let d = UserContext { ip: handler, a0: userdata as usize, a1: result as usize, ..c };
    if !returns_by_stack(arch) {
        Some(UserContext { ra: c.ip, ..d })
    } else if c.sp >= 8 {
        Some(UserContext { sp: (c.sp - 8) as usize, ..d })
    } else {
        None
    }
}

/// Saves the return address and redirects the task to the completion handler,
/// with the user data and the result of the completion as its arguments. Where
/// the return address belongs on the stack, says what is to be stored there,
/// and leaves the rest to `pushed`.
pub fn inject_handler_call(
    arch: Arch,
    uctx: &mut UserContext,
    handler: usize,
    userdata: u64,
    result: i64,
) -> (r: Injection)
    ensures
        match handler_call(arch, *old(uctx), handler, userdata, result) {
            None => r is NoRoom && *final(uctx) == *old(uctx),
            Some(c) => if returns_by_stack(arch) {
                &&& *final(uctx) == *old(uctx)
                &&& r matches Injection::Push { addr, data } && addr == c.sp && data@ == le_bytes(
                    old(uctx).ip as u64,
                )
            } else {
                r is Ready && *final(uctx) == c
            },
        },
{
    match arch {
        Arch::Riscv64 | Arch::Aarch64 | Arch::Loongarch64 => {
            uctx.ra = uctx.ip;
        },
        Arch::X86_64 => {
            return match uctx.sp.checked_sub(8) {
                Some(addr) => Injection::Push { addr, data: to_le_bytes(uctx.ip as u64) },
                None => Injection::NoRoom,
            };
        },
    }
    redirect(uctx, handler, userdata, result);
    Injection::Ready
}

/// Has the task run the handler next.
fn redirect(uctx: &mut UserContext, handler: usize, userdata: u64, result: i64)
    ensures
        *final(uctx) == (UserContext {
            ip: handler,
            a0: userdata as usize,
            a1: result as usize,
            ..*old(uctx)
        }),
{
    uctx.ip = handler;
    uctx.a0 = userdata as usize;
    uctx.a1 = result as usize;
}

/// Finishes the call of a handler whose return address belongs on the stack,
/// once it was tried to store the address there. If it could not be stored, the
/// call fails and nothing is changed.
pub fn pushed(
    uctx: &mut UserContext,
    handler: usize,
    userdata: u64,
    result: i64,
    stored: bool,
) -> (r: bool)
    requires
        old(uctx).sp >= 8,
    ensures
        r == stored,
        stored ==> Some(*final(uctx)) == handler_call(
            Arch::X86_64,
            *old(uctx),
            handler,
            userdata,
            result,
        ),
        !stored ==> *final(uctx) == *old(uctx),
{
    if stored {
        uctx.sp = uctx.sp - 8;
        redirect(uctx, handler, userdata, result);
    }
    stored
}

// ---------- Returning from the handler ----------

/// The size of the frame that holds a task's registers while a handler runs.
pub const FRAME_SIZE: usize = 144;

/// Word `i` of a frame.
#[verifier::opaque]
pub open spec fn frame_word(d: Seq<u8>, i: int) -> usize {
    (le64(d, 8 * i) as u64) as usize
}

/// The registers after those in the frame were restored. The frame holds every
/// register that a call may change but the first argument register, which gets
/// the result of the system call.
pub open spec fn restored(c: UserContext, d: Seq<u8>) -> UserContext {
    UserContext {
        ip: frame_word(d, 0),
        ra: frame_word(d, 1),
        sp: frame_word(d, 2),
        t0: frame_word(d, 3),
        t1: frame_word(d, 4),
        t2: frame_word(d, 5),
        a1: frame_word(d, 6),
        a2: frame_word(d, 7),
        a3: frame_word(d, 8),
        a4: frame_word(d, 9),
        a5: frame_word(d, 10),
        a6: frame_word(d, 11),
        a7: frame_word(d, 12),
        t3: frame_word(d, 13),
        t4: frame_word(d, 14),
        t5: frame_word(d, 15),
        t6: frame_word(d, 16),
        ..c
    }
}

/// The frame that the return from a handler reads: it lies at the top of the
/// user stack. Only RISC-V has one.
pub fn cq_frame(arch: Arch, uctx: &UserContext) -> (r: Option<Region>)
    ensures
        r == (if arch == Arch::Riscv64 {
            Some(Region { start: uctx.sp, size: FRAME_SIZE })
        } else {
            None::<Region>
        }),
{
    match arch {
        Arch::Riscv64 => Some(Region { start: uctx.sp, size: FRAME_SIZE }),
        _ => None,
    }
}

/// Word `i` of a frame.
fn read_word(frame: &Vec<u8>, i: usize) -> (r: usize)
    requires
        i < 18,
        frame@.len() == FRAME_SIZE,
    ensures
        r == frame_word(frame@, i as int),
{
    proof {
        reveal(frame_word);
    }
    read_u64(frame.as_slice(), 8 * i) as usize
}

/// Returns from a completion handler: the registers are restored from the
/// frame that was read from the user stack.
pub fn sys_cq_return(arch: Arch, uctx: &mut UserContext, frame: Result<Vec<u8>, KernelError>) -> (r:
    Result<isize, KernelError>)
    requires
        arch == Arch::Riscv64 && frame is Ok ==> frame->Ok_0@.len() == FRAME_SIZE,
    ensures
        match (arch, frame) {
            (Arch::Riscv64, Ok(d)) => r == Ok::<isize, KernelError>(0) && *final(uctx) == restored(
                *old(uctx),
                d@,
            ),
            (Arch::Riscv64, Err(e)) => r == Err::<isize, KernelError>(e) && *final(uctx) == *old(
                uctx,
            ),
            _ => r == Ok::<isize, KernelError>(0) && *final(uctx) == *old(uctx),
        },
{
    match arch {
        Arch::Riscv64 => {
            let d = match frame {
                Ok(d) => d,
                Err(e) => return Err(e),
            };
            uctx.ip = read_word(&d, 0);
            uctx.ra = read_word(&d, 1);
            uctx.sp = read_word(&d, 2);
            uctx.t0 = read_word(&d, 3);
            uctx.t1 = read_word(&d, 4);
            uctx.t2 = read_word(&d, 5);
            uctx.a1 = read_word(&d, 6);
            uctx.a2 = read_word(&d, 7);
            uctx.a3 = read_word(&d, 8);
            uctx.a4 = read_word(&d, 9);
            uctx.a5 = read_word(&d, 10);
            uctx.a6 = read_word(&d, 11);
            uctx.a7 = read_word(&d, 12);
            uctx.t3 = read_word(&d, 13);
            uctx.t4 = read_word(&d, 14);
            uctx.t5 = read_word(&d, 15);
            uctx.t6 = read_word(&d, 16);
        },
        _ => {},
    }
    Ok(0)
}

// ---------- Laws ----------

/// A handler that returns gets back to where the task was: the return address
/// is in the register for it, or it is the word at the top of the stack, where
/// it was stored, and without that word the stack is as it was.
pub proof fn law_handler_returns(
    arch: Arch,
    c: UserContext,
    handler: usize,
    userdata: u64,
    result: i64,
)
    requires
        handler_call(arch, c, handler, userdata, result) is Some,
    ensures
        ({
            let d = handler_call(arch, c, handler, userdata, result)->0;
            let stored = le_bytes(c.ip as u64);
            &&& d.ip == handler
            &&& if returns_by_stack(arch) {
                le64(stored, 0) == c.ip && d.sp + stored.len() == c.sp && d.ra == c.ra
            } else {
                d.ra == c.ip && d.sp == c.sp
            }
        }),
{
    law_write_then_read(c.ip as u64);
}

/// The words of a frame that holds the registers of `c`.
pub open spec fn frame_words(c: UserContext) -> Seq<usize> {
    seq![
        c.ip,
        c.ra,
        c.sp,
        c.t0,
        c.t1,
        c.t2,
        c.a1,
        c.a2,
        c.a3,
        c.a4,
        c.a5,
        c.a6,
        c.a7,
        c.t3,
        c.t4,
        c.t5,
        c.t6,
        0,
    ]
}

/// The bytes of a frame that holds the registers of `c`.
pub open spec fn frame_of(c: UserContext) -> Seq<u8> {
    Seq::new(
        FRAME_SIZE as nat,
        |k: int| le_bytes(frame_words(c)[k / 8] as u64)[k % 8],
    )
}

proof fn lemma_frame_word(c: UserContext, i: int)
    requires
        0 <= i < 18,
    ensures
        frame_word(frame_of(c), i) == frame_words(c)[i],
{
    reveal(frame_word);
    let w = frame_words(c)[i];
    let b = le_bytes(w as u64);
    let d = frame_of(c);
    assert forall|j: int| 0 <= j < 8 implies #[trigger] d[8 * i + j] == b[j] by {
        assert((8 * i + j) / 8 == i);
        assert((8 * i + j) % 8 == j);
    }
    assert(d[8 * i + 0] == b[0]);
    assert(d[8 * i + 1] == b[1]);
    assert(d[8 * i + 2] == b[2]);
    assert(d[8 * i + 3] == b[3]);
    assert(d[8 * i + 4] == b[4]);
    assert(d[8 * i + 5] == b[5]);
    assert(d[8 * i + 6] == b[6]);
    assert(d[8 * i + 7] == b[7]);
    law_write_then_read(w as u64);
    assert(le64(d, 8 * i) == le64(b, 0));
}

/// Returning from a handler undoes all that it did to the registers, if the
/// frame holds them as they were. Only the first argument register keeps its
/// value: it gets the result of the system call.
pub proof fn law_frame_restored(saved: UserContext, now: UserContext)
    ensures
        frame_of(saved).len() == FRAME_SIZE,
        restored(now, frame_of(saved)) == (UserContext { a0: now.a0, ..saved }),
{
    lemma_frame_word(saved, 0);
    lemma_frame_word(saved, 1);
    lemma_frame_word(saved, 2);
    lemma_frame_word(saved, 3);
    lemma_frame_word(saved, 4);
    lemma_frame_word(saved, 5);
    lemma_frame_word(saved, 6);
    lemma_frame_word(saved, 7);
    lemma_frame_word(saved, 8);
    lemma_frame_word(saved, 9);
    lemma_frame_word(saved, 10);
    lemma_frame_word(saved, 11);
    lemma_frame_word(saved, 12);
    lemma_frame_word(saved, 13);
    lemma_frame_word(saved, 14);
    lemma_frame_word(saved, 15);
    lemma_frame_word(saved, 16);
}

/// A handler is called with the user data in the first argument register and the
/// result, in two's complement, in the second. The call fails exactly if the
/// return address belongs on the stack and there are less than eight bytes. Of
/// the other registers only the one that takes the return address changes, or
/// else the stack pointer.
pub proof fn law_handler_arguments(
    arch: Arch,
    c: UserContext,
    handler: usize,
    userdata: u64,
    result: i64,
)
    ensures
        handler_call(arch, c, handler, userdata, result) is None <==> arch == Arch::X86_64 && c.sp
            < 8,
        handler_call(arch, c, handler, userdata, result) matches Some(d) ==> {
            &&& d.ip == handler
            &&& usize::BITS == 64 ==> d.a0 == userdata && (d.a1 == result || d.a1 == result
                + 0x1_0000_0000_0000_0000)
            &&& d.a0 == userdata as usize
            &&& d.a1 == result as usize
            &&& d.ra == if arch == Arch::X86_64 {
                c.ra
            } else {
                c.ip
            }
            &&& d.sp == if arch == Arch::X86_64 {
                c.sp - 8
            } else {
                c.sp as int
            }
            &&& (d.t0, d.t1, d.t2, d.t3, d.t4, d.t5, d.t6) == (
                c.t0,
                c.t1,
                c.t2,
                c.t3,
                c.t4,
                c.t5,
                c.t6,
            )
            &&& (d.a2, d.a3, d.a4, d.a5, d.a6, d.a7) == (c.a2, c.a3, c.a4, c.a5, c.a6, c.a7)
        },
{
    if usize::BITS == 64 {
        assert(result as usize == result || result as usize == result + 0x1_0000_0000_0000_0000)
            by (bit_vector)
            requires
                usize::BITS == 64,
        ;
    }
}

/// Where the registers lie in a frame: the program counter, the return address
/// and the stack pointer come first, then the temporary registers `t0` to `t2`,
/// the argument registers but the first, and `t3` to `t6`, in words of eight
/// bytes.
pub proof fn law_frame_layout(c: UserContext, d: Seq<u8>)
    requires
        usize::BITS == 64,
    ensures
        FRAME_SIZE == 144,
        ({
            let r = restored(c, d);
            &&& (r.ip as int, r.ra as int, r.sp as int) == (le64(d, 0), le64(d, 8), le64(d, 16))
            &&& (r.t0 as int, r.t1 as int, r.t2 as int) == (le64(d, 24), le64(d, 32), le64(d, 40))
            &&& (r.a1 as int, r.a2 as int, r.a3 as int) == (le64(d, 48), le64(d, 56), le64(d, 64))
            &&& (r.a4 as int, r.a5 as int, r.a6 as int) == (le64(d, 72), le64(d, 80), le64(d, 88))
            &&& (r.a7 as int, r.t3 as int, r.t4 as int) == (le64(d, 96), le64(d, 104), le64(d, 112))
            &&& (r.t5 as int, r.t6 as int) == (le64(d, 120), le64(d, 128))
            &&& r.a0 == c.a0
        }),
{
    reveal(frame_word);
    assert forall|i: int| #[trigger] frame_word(d, i) == le64(d, 8 * i) by {
        law_little_endian(d, 8 * i);
    }
}

/// The return address belongs on the stack on x86_64 alone.
pub proof fn law_return_address(arch: Arch)
    ensures
        returns_by_stack(arch) <==> arch == Arch::X86_64,
{
}

/// Only RISC-V has a frame to return from a handler with: the 144 bytes at the
/// stack pointer. Returning restores the registers from it, or fails with the
/// error of reading it; elsewhere nothing changes.
pub proof fn law_cq_return(
    arch: Arch,
    uctx: &mut UserContext,
    frame: Result<Vec<u8>, KernelError>,
    region: Option<Region>,
    r: Result<isize, KernelError>,
)
    requires
        call_ensures(cq_frame, (arch, &*uctx), region),
        call_ensures(sys_cq_return, (arch, uctx, frame), r),
    ensures
        region is Some <==> arch == Arch::Riscv64,
        region matches Some(at) ==> at.start == old(uctx).sp && at.size == 144,
        arch != Arch::Riscv64 ==> r == Ok::<isize, KernelError>(0) && *final(uctx) == *old(uctx),
        arch == Arch::Riscv64 ==> match frame {
            Ok(d) => r == Ok::<isize, KernelError>(0) && *final(uctx) == restored(*old(uctx), d@),
            Err(e) => r == Err::<isize, KernelError>(e) && *final(uctx) == *old(uctx),
        },
{
}

} // verus!
