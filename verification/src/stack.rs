//! The initial contents of a user stack.

use vstd::prelude::*;
use vstd::utf8::encode_utf8;
use crate::auxv::{aux_code, AuxEntry, AuxType};

verus! {

/// The texts of a list of strings.
pub open spec fn texts(v: Seq<String>) -> Seq<Seq<char>> {
    v.map_values(|s: String| s@)
}

/// The entries of an auxiliary vector, with the numbers of their types.
pub open spec fn aux_pairs(v: Seq<AuxEntry>) -> Seq<(usize, usize)> {
    v.map_values(|e: AuxEntry| (aux_code(e.kind), e.value))
}

/// The initial contents of a stack whose top is at `sp`, for the given
/// arguments, environment and auxiliary vector.
pub uninterp spec fn stack_region(
    args: Seq<Seq<char>>,
    envs: Seq<Seq<char>>,
    auxv: Seq<(usize, usize)>,
    sp: usize,
) -> Seq<u8>;

/// The bytes that strings take up, each with a zero byte behind it.
pub open spec fn strings_size(v: Seq<Seq<char>>) -> int
    decreases v.len(),
{
    if v.len() == 0 {
        0
    } else {
        strings_size(v.drop_last()) + encode_utf8(v.last()).len() + 1
    }
}

/// The address below the strings on a stack with its top at `sp`: there are
/// sixteen more bytes above them and eight below.
pub open spec fn below_strings(args: Seq<Seq<char>>, envs: Seq<Seq<char>>, sp: usize) -> int {
    sp - 16 - strings_size(envs) - strings_size(args) - 8
}

/// The initial stack pointer: the strings, rounded down to a multiple of
/// sixteen; the auxiliary vector with two more entries; the pointers to the
/// strings, each list with a null pointer behind it; and the number of
/// arguments. Eight bytes more keep it a multiple of sixteen.
pub open spec fn initial_sp(
    args: Seq<Seq<char>>,
    envs: Seq<Seq<char>>,
    entries: nat,
    sp: usize,
) -> int {
    let words = envs.len() + args.len() + 3;
    let below = below_strings(args, envs, sp);
    below - below % 16 - (words % 2) * 8 - 16 * (entries + 2) - 8 * words
}

/// Whether there is room for the initial contents of a stack with its top at
/// `sp`.
pub open spec fn stack_fits(
    args: Seq<Seq<char>>,
    envs: Seq<Seq<char>>,
    entries: nat,
    sp: usize,
) -> bool {
    below_strings(args, envs, sp) >= 0 && initial_sp(args, envs, entries, sp) >= 0
}

/// The initial contents of a stack, by `kernel_elf_parser::app_stack_region`.
/// Trusted: they are a function of the arguments, and they reach down from the
/// top of the stack to `initial_sp`. What they hold is not spelled out.
#[verifier::external_body]
fn outside_stack_region(
    args: &Vec<String>,
    envs: &Vec<String>,
    auxv: &Vec<AuxEntry>,
    sp: usize,
) -> (r: Vec<u8>)
    requires
        usize::BITS == 64,
        args@.len() > 0,
        stack_fits(texts(args@), texts(envs@), auxv@.len(), sp),
    ensures
        r@ == stack_region(texts(args@), texts(envs@), aux_pairs(auxv@), sp),
        sp - r@.len() == initial_sp(texts(args@), texts(envs@), auxv@.len(), sp),
{
    let auxv: Vec<_> = auxv.iter().map(|e| kernel_elf_parser::AuxEntry::new(match e.kind {
        AuxType::Phdr => kernel_elf_parser::AuxType::PHDR,
        AuxType::Phent => kernel_elf_parser::AuxType::PHENT,
        AuxType::Phnum => kernel_elf_parser::AuxType::PHNUM,
        AuxType::Pagesz => kernel_elf_parser::AuxType::PAGESZ,
        AuxType::Base => kernel_elf_parser::AuxType::BASE,
        AuxType::Entry => kernel_elf_parser::AuxType::ENTRY,
        AuxType::Hwcap => kernel_elf_parser::AuxType::HWCAP,
    }, e.value)).collect();
    kernel_elf_parser::app_stack_region(args, envs, &auxv, sp)
}

/// A program starts with its stack pointer at a multiple of sixteen.
pub proof fn law_stack_aligned(
    args: Seq<Seq<char>>,
    envs: Seq<Seq<char>>,
    entries: nat,
    sp: usize,
)
    ensures
        initial_sp(args, envs, entries, sp) % 16 == 0,
{
    let words = envs.len() + args.len() + 3;
    let below = below_strings(args, envs, sp);
    assert((below - below % 16) % 16 == 0);
    assert(((words % 2) * 8 + 8 * words) % 16 == 0);
}

/// Goes down the stack by the strings in `v`.
fn push_strings(v: &Vec<String>, sp: usize) -> (r: Option<usize>)
    ensures
        match r {
            Some(a) => a == sp - strings_size(texts(v@)),
            None => strings_size(texts(v@)) > sp,
        },
{
    let mut left: usize = sp;
    let mut i: usize = 0;
    assert(texts(v@).take(0) =~= Seq::empty());
    while i < v.len()
        invariant
            i <= v.len(),
            left == sp - strings_size(texts(v@).take(i as int)),
        decreases v.len() - i,
    {
        proof {
            let t = texts(v@).take(i + 1);
            assert(t.drop_last() =~= texts(v@).take(i as int));
            assert(t.last() == v@[i as int]@);
            lemma_strings_size(texts(v@), i + 1);
        }
        let n = v[i].as_str().as_bytes().len();
        if left <= n {
            return None;
        }
        left = left - n - 1;
        i = i + 1;
    }
    assert(texts(v@).take(i as int) =~= texts(v@));
    Some(left)
}

proof fn lemma_strings_size(v: Seq<Seq<char>>, i: int)
    requires
        0 <= i <= v.len(),
    ensures
        0 <= strings_size(v.take(i)) <= strings_size(v),
    decreases v.len(),
{
    if v.len() == 0 {
        assert(v.take(i) =~= v);
    } else if i == v.len() {
        assert(v.take(i) =~= v);
        lemma_strings_size(v.drop_last(), i - 1);
        assert(v.drop_last().take(i - 1) =~= v.drop_last());
    } else {
        lemma_strings_size(v.drop_last(), i);
        assert(v.drop_last().take(i) =~= v.take(i));
    }
}

/// Finds the initial stack pointer, if there is room.
fn find_sp(args: &Vec<String>, envs: &Vec<String>, entries: usize, sp: usize) -> (r: Option<usize>)
    ensures
        match r {
            Some(a) => stack_fits(texts(args@), texts(envs@), entries as nat, sp) && a
                == initial_sp(texts(args@), texts(envs@), entries as nat, sp),
            None => !stack_fits(texts(args@), texts(envs@), entries as nat, sp),
        },
{
    proof {
        lemma_strings_size(texts(args@), 0);
        lemma_strings_size(texts(envs@), 0);
    }
    let a = sp.checked_sub(16)?;
    let b = push_strings(envs, a)?;
    let c = push_strings(args, b)?;
    let below = c.checked_sub(8)?;
    let aligned = below - below % 16;
    let words = envs.len().checked_add(args.len())?.checked_add(3)?;
    let d = aligned.checked_sub(words % 2 * 8)?;
    let e = d.checked_sub(entries.checked_add(2)?.checked_mul(16)?)?;
    e.checked_sub(words.checked_mul(8)?)
}

/// The initial contents of a stack, and the stack pointer that goes with them.
/// `None` if there are no arguments or there is no room, or if a machine word
/// does not have 64 bits.
pub fn app_stack(
    args: &Vec<String>,
    envs: &Vec<String>,
    auxv: &Vec<AuxEntry>,
    top: usize,
) -> (r: Option<(usize, Vec<u8>)>)
    ensures
        match r {
            Some((sp, data)) => {
                &&& usize::BITS == 64
                &&& args@.len() > 0
                &&& stack_fits(texts(args@), texts(envs@), auxv@.len(), top)
                &&& sp == initial_sp(texts(args@), texts(envs@), auxv@.len(), top)
                &&& sp + data@.len() == top
                &&& data@ == stack_region(texts(args@), texts(envs@), aux_pairs(auxv@), top)
            },
            None => {
                ||| usize::BITS != 64
                ||| args@.len() == 0
                ||| !stack_fits(texts(args@), texts(envs@), auxv@.len(), top)
            },
        },
{
    if usize::BITS != 64 || args.len() == 0 {
        return None;
    }
    let sp = find_sp(args, envs, auxv.len(), top)?;
    let data = outside_stack_region(args, envs, auxv, top);
    Some((sp, data))
}

// ---------- Laws ----------

/// Each string takes up its bytes and one more, wherever it stands.
pub proof fn law_strings_size(v: Seq<Seq<char>>, s: Seq<char>, w: Seq<Seq<char>>)
    ensures
        strings_size(Seq::empty()) == 0,
        strings_size(v.push(s) + w) == strings_size(v + w) + encode_utf8(s).len() + 1,
    decreases w.len(),
{
    if w.len() == 0 {
        assert(v.push(s) + w =~= v.push(s));
        assert(v + w =~= v);
        assert(v.push(s).drop_last() =~= v);
    } else {
        law_strings_size(v, s, w.drop_last());
        assert((v.push(s) + w).drop_last() =~= v.push(s) + w.drop_last());
        assert((v + w).drop_last() =~= v + w.drop_last());
    }
}

/// The initial stack pointer is the greatest multiple of sixteen that leaves room
/// for the words: the number of arguments, the pointers to the strings with a null
/// pointer behind each list, and the entries of the auxiliary vector with two
/// more. The words lie below the greatest multiple of sixteen that leaves room
/// for the strings and 24 bytes.
pub proof fn law_initial_sp(
    args: Seq<Seq<char>>,
    envs: Seq<Seq<char>>,
    entries: nat,
    sp: usize,
    floor: int,
)
    requires
        floor % 16 == 0,
        floor <= sp - 24 - strings_size(args) - strings_size(envs) < floor + 16,
    ensures
        ({
            let words = 1 + (args.len() + 1) + (envs.len() + 1) + 2 * (entries + 2);
            let r = initial_sp(args, envs, entries, sp);
            &&& r % 16 == 0
            &&& r <= floor - 8 * words < r + 16
            &&& r >= 0 && sp >= 24 + strings_size(args) + strings_size(envs) <==> stack_fits(
                args,
                envs,
                entries,
                sp,
            )
        }),
{
    law_stack_aligned(args, envs, entries, sp);
}

/// The auxiliary vector on the stack has the entries of the vector, in order,
/// each with the number of its type.
pub proof fn law_aux_pairs(v: Seq<AuxEntry>)
    ensures
        aux_pairs(v).len() == v.len(),
        forall|i: int|
            0 <= i < v.len() ==> #[trigger] aux_pairs(v)[i] == (aux_code(v[i].kind), v[i].value),
{
}

/// The texts of a list are those of its strings, one by one.
pub proof fn law_texts(v: Seq<String>)
    ensures
        texts(v).len() == v.len(),
        forall|i: int| 0 <= i < v.len() ==> #[trigger] texts(v)[i] == v[i]@,
{
}

} // verus!
