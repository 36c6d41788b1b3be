//! The interlocking guarantees of the machine, stated over the model:
//! comparison sets exactly one ordering flag, a push followed by a pop
//! restores the stack, and appending instructions into an empty DRAM lays
//! their encodings out back to back.

use vstd::prelude::*;
use crate::constants::DRAM_SIZE;
use crate::cpu::{
    CpuView, spec_cmp_flags, spec_execute, spec_is_reg_id, spec_reg_read, spec_new_cpu,
    spec_add_to_end, spec_find_fit, spec_window_free, spec_splice,
};
use crate::instruction::{Instruction, spec_encode, spec_with_jump_target};
use crate::program_file::{
    AsmItem, AsmError, spec_label_base, spec_label_base_from, spec_emit, spec_emit_start,
    spec_bound_insts, spec_code_words, spec_jump_operand, spec_pass1, spec_classify, Pass1State,
};

verus! {

/// Comparing two register values sets exactly one of the less-than, equal
/// and greater-than flags, the one that matches unsigned comparison, and
/// touches nothing else.
pub proof fn lemma_cmp_sets_one_flag(s: CpuView, ra: u8, rb: u8)
    requires
        spec_is_reg_id(ra),
        spec_is_reg_id(rb),
    ensures
        spec_execute(s, Instruction::Cmp(ra, rb)) == Ok::<CpuView, crate::cpu::CpuError>(
            spec_cmp_flags(s, spec_reg_read(s, ra), spec_reg_read(s, rb)),
        ),
        ({
            let a = spec_reg_read(s, ra);
            let b = spec_reg_read(s, rb);
            let s2 = spec_cmp_flags(s, a, b);
            &&& (s2.lt_flag <==> a < b)
            &&& (s2.eq_flag <==> a == b)
            &&& (s2.gt_flag <==> a > b)
            &&& (s2.lt_flag && !s2.eq_flag && !s2.gt_flag) || (!s2.lt_flag && s2.eq_flag
                && !s2.gt_flag) || (!s2.lt_flag && !s2.eq_flag && s2.gt_flag)
            &&& s2 == (CpuView {
                lt_flag: s2.lt_flag,
                eq_flag: s2.eq_flag,
                gt_flag: s2.gt_flag,
                ..s
            })
        }),
{
}

/// Pushing a value and then popping leaves that value in the output
/// register, restores the stack pointer, and zeroes the cell that held it.
pub proof fn lemma_push_then_pop(s: CpuView, v: u16)
    requires
        s.wf(),
        s.sp < DRAM_SIZE,
    ensures
        ({
            let pushed = spec_execute(s, Instruction::IPush(v));
            &&& pushed is Ok
            &&& spec_execute(pushed->Ok_0, Instruction::Pop) is Ok
            &&& {
                let s2 = spec_execute(pushed->Ok_0, Instruction::Pop)->Ok_0;
                &&& s2.or == v as u32
                &&& s2.sp == s.sp
                &&& s2.dram == s.dram.update(s.sp as int, 0u32)
                &&& s2.dram[s.sp as int] == 0
                &&& s2.zero_flag == (v == 0)
            }
        }),
{
    let s1 = spec_execute(s, Instruction::IPush(v))->Ok_0;
    assert(s1.dram[s.sp as int] == v as u32);
    let s2 = spec_execute(s1, Instruction::Pop)->Ok_0;
    assert(s2.dram =~= s.dram.update(s.sp as int, 0u32));
}

/// The same stack law for pushing a register's value.
pub proof fn lemma_push_reg_then_pop(s: CpuView, r: u8)
    requires
        s.wf(),
        s.sp < DRAM_SIZE,
        spec_is_reg_id(r),
    ensures
        ({
            let v = spec_reg_read(s, r);
            let pushed = spec_execute(s, Instruction::Push(r));
            &&& pushed is Ok
            &&& spec_execute(pushed->Ok_0, Instruction::Pop) is Ok
            &&& {
                let s2 = spec_execute(pushed->Ok_0, Instruction::Pop)->Ok_0;
                &&& s2.or == v
                &&& s2.sp == s.sp
                &&& s2.dram == s.dram.update(s.sp as int, 0u32)
            }
        }),
{
    let s1 = spec_execute(s, Instruction::Push(r))->Ok_0;
    assert(s1.dram[s.sp as int] == spec_reg_read(s, r));
    let s2 = spec_execute(s1, Instruction::Pop)->Ok_0;
    assert(s2.dram =~= s.dram.update(s.sp as int, 0u32));
}

/// A DRAM of `n` zero cells.
pub open spec fn spec_zeros(n: nat) -> Seq<u32> {
    Seq::new(n, |i: int| 0u32)
}

/// The concatenation of the encodings of a list of instructions.
pub open spec fn spec_encodings(insts: Seq<Instruction>) -> Seq<u32>
    decreases insts.len(),
{
    if insts.len() == 0 {
        Seq::empty()
    } else {
        spec_encode(insts[0]) + spec_encodings(insts.drop_first())
    }
}

/// Appending a list of instructions one after another.
pub open spec fn spec_append_all(s: CpuView, insts: Seq<Instruction>) -> CpuView
    decreases insts.len(),
{
    if insts.len() == 0 {
        s
    } else {
        spec_append_all(spec_add_to_end(s, insts[0]), insts.drop_first())
    }
}

/// No word of any encoding is zero. `Unknown` breaks this, and so does a
/// long variant whose immediate is zero: the appender would later mistake
/// such a word for an empty cell.
pub open spec fn spec_words_nonzero(insts: Seq<Instruction>) -> bool {
    forall|i: int, j: int|
        0 <= i < insts.len() && 0 <= j < spec_encode(insts[i]).len() ==> #[trigger] spec_encode(
            insts[i],
        )[j] != 0
}

proof fn lemma_find_fit_skips(dram: Seq<u32>, len: int, f: int, w: int)
    requires
        dram.len() == DRAM_SIZE,
        1 <= len,
        0 <= f <= w,
        w + len <= DRAM_SIZE,
        forall|j: int| 0 <= j < w ==> dram[j] != 0,
    ensures
        spec_find_fit(dram, len, f) == spec_find_fit(dram, len, w),
    decreases w - f,
{
    if f < w {
        assert(!spec_window_free(dram, f, len)) by {
            assert(dram[f] != 0);
        }
        lemma_find_fit_skips(dram, len, f + 1, w);
    }
}

/// In a DRAM whose nonzero prefix ends at `w`, an instruction that still
/// fits is appended exactly at `w`.
proof fn lemma_fit_at_prefix_end(dram: Seq<u32>, len: int, w: int)
    requires
        dram.len() == DRAM_SIZE,
        1 <= len,
        0 <= w,
        w + len <= DRAM_SIZE,
        forall|j: int| 0 <= j < w ==> dram[j] != 0,
        forall|j: int| w <= j < DRAM_SIZE ==> dram[j] == 0,
    ensures
        spec_find_fit(dram, len, 0) == Some(w),
{
    lemma_find_fit_skips(dram, len, 0, w);
    assert(spec_window_free(dram, w, len));
}

proof fn lemma_append_all_from_prefix(s: CpuView, pre: Seq<u32>, insts: Seq<Instruction>)
    requires
        s.wf(),
        pre.len() <= DRAM_SIZE,
        s.dram == pre + spec_zeros((DRAM_SIZE - pre.len()) as nat),
        forall|j: int| 0 <= j < pre.len() ==> pre[j] != 0,
        spec_words_nonzero(insts),
        pre.len() + spec_encodings(insts).len() <= DRAM_SIZE,
    ensures
        spec_append_all(s, insts) == (CpuView {
            dram: (pre + spec_encodings(insts)) + spec_zeros(
                (DRAM_SIZE - pre.len() - spec_encodings(insts).len()) as nat,
            ),
            ..s
        }),
    decreases insts.len(),
{
    if insts.len() == 0 {
        assert(spec_encodings(insts).len() == 0);
        assert((pre + spec_encodings(insts)) + spec_zeros(
            (DRAM_SIZE - pre.len() - spec_encodings(insts).len()) as nat,
        ) =~= pre + spec_zeros((DRAM_SIZE - pre.len()) as nat));
    } else {
        let i0 = insts[0];
        let words = spec_encode(i0);
        let rest = insts.drop_first();
        assert(words.len() >= 1 && spec_encodings(insts) == words + spec_encodings(rest)) by {
            crate::instruction::lemma_encode_decode(i0, 0);
        }
        assert forall|j: int| 0 <= j < words.len() implies #[trigger] words[j] != 0 by {
            assert(spec_encode(insts[0])[j] != 0);
        }
        let w = pre.len() as int;
        assert(forall|j: int| 0 <= j < w ==> s.dram[j] != 0);
        assert(forall|j: int| w <= j < DRAM_SIZE ==> s.dram[j] == 0);
        lemma_fit_at_prefix_end(s.dram, words.len() as int, w);
        let s1 = spec_add_to_end(s, i0);
        assert(s1.dram == spec_splice(s.dram, w, words));
        let pre1 = pre + words;
        assert(s1.dram =~= pre1 + spec_zeros((DRAM_SIZE - pre1.len()) as nat));
        assert(forall|j: int| 0 <= j < pre1.len() ==> pre1[j] != 0);
        assert(spec_words_nonzero(rest)) by {
            assert forall|i: int, j: int|
                0 <= i < rest.len() && 0 <= j < spec_encode(rest[i]).len() implies #[trigger]
            spec_encode(rest[i])[j] != 0 by {
                assert(rest[i] == insts[i + 1]);
                assert(spec_encode(insts[i + 1])[j] != 0);
            }
        }
        lemma_append_all_from_prefix(s1, pre1, rest);
        assert(spec_append_all(s, insts) == spec_append_all(s1, rest));
        assert((pre1 + spec_encodings(rest)) + spec_zeros(
            (DRAM_SIZE - pre1.len() - spec_encodings(rest).len()) as nat,
        ) =~= (pre + spec_encodings(insts)) + spec_zeros(
            (DRAM_SIZE - pre.len() - spec_encodings(insts).len()) as nat,
        ));
    }
}

/// Appending instructions into a fresh CPU writes their encodings back to
/// back from cell 0, leaving the rest of DRAM zero and every register
/// untouched — provided every encoded word is nonzero and the total fits.
pub proof fn lemma_appends_concatenate(insts: Seq<Instruction>)
    requires
        spec_words_nonzero(insts),
        spec_encodings(insts).len() <= DRAM_SIZE,
    ensures
        spec_append_all(spec_new_cpu(), insts) == (CpuView {
            dram: spec_encodings(insts) + spec_zeros(
                (DRAM_SIZE - spec_encodings(insts).len()) as nat,
            ),
            ..spec_new_cpu()
        }),
        spec_append_all(spec_new_cpu(), insts).dram.take(spec_encodings(insts).len() as int)
            == spec_encodings(insts),
{
    let s = spec_new_cpu();
    assert(s.dram =~= Seq::<u32>::empty() + spec_zeros(DRAM_SIZE as nat));
    lemma_append_all_from_prefix(s, Seq::empty(), insts);
    assert(Seq::<u32>::empty() + spec_encodings(insts) =~= spec_encodings(insts));
    assert((Seq::<u32>::empty() + spec_encodings(insts)) + spec_zeros(
        (DRAM_SIZE - spec_encodings(insts).len()) as nat,
    ) =~= spec_encodings(insts) + spec_zeros((DRAM_SIZE - spec_encodings(insts).len()) as nat));
    assert(spec_append_all(s, insts).dram.take(spec_encodings(insts).len() as int)
        =~= spec_encodings(insts));
}


/// A name no item defines resolves to nothing.
proof fn lemma_label_base_undefined(items: Seq<AsmItem>, nm: Seq<u8>, ii: nat, ex: nat)
    requires
        forall|k: int| 0 <= k < items.len() ==> #[trigger] items[k] != AsmItem::Label(nm),
    ensures
        spec_label_base_from(items, nm, ii, ex) is None,
    decreases items.len(),
{
    if items.len() > 0 {
        let rest = items.drop_first();
        assert(forall|k: int| 0 <= k < rest.len() ==> #[trigger] rest[k] == items[k + 1]);
        match items[0] {
            AsmItem::Asm(i) => {
                lemma_label_base_undefined(
                    rest,
                    nm,
                    (ii + 1) as nat,
                    (ex + spec_encode(i).len() - 1) as nat,
                );
            },
            AsmItem::Jump(_, _) => {
                lemma_label_base_undefined(rest, nm, (ii + 1) as nat, ex);
            },
            AsmItem::LeaSym(_) => {
                lemma_label_base_undefined(rest, nm, (ii + 1) as nat, ex);
            },
            AsmItem::Label(_) => {
                lemma_label_base_undefined(rest, nm, ii, ex);
            },
            AsmItem::Var(_, _) => {
                lemma_label_base_undefined(rest, nm, ii, ex);
            },
        }
    }
}

proof fn lemma_label_base_from_words(items: Seq<AsmItem>, nm: Seq<u8>, ii: nat, ex: nat, p: int)
    requires
        0 <= p < items.len(),
        items[p] == AsmItem::Label(nm),
        forall|k: int| p < k < items.len() ==> #[trigger] items[k] != AsmItem::Label(nm),
    ensures
        spec_label_base_from(items, nm, ii, ex) == Some(
            (ii + ex + spec_code_words(items.take(p))) as nat,
        ),
    decreases items.len(),
{
    let rest = items.drop_first();
    assert(forall|k: int| 0 <= k < rest.len() ==> #[trigger] rest[k] == items[k + 1]);
    if p == 0 {
        lemma_label_base_undefined(rest, nm, ii, ex);
        assert(items.take(0) =~= Seq::<AsmItem>::empty());
    } else {
        assert(items.take(p)[0] == items[0]);
        assert(items.take(p).drop_first() =~= rest.take(p - 1));
        match items[0] {
            AsmItem::Asm(i) => {
                crate::instruction::lemma_encode_decode(i, 0);
                lemma_label_base_from_words(
                    rest,
                    nm,
                    (ii + 1) as nat,
                    (ex + spec_encode(i).len() - 1) as nat,
                    p - 1,
                );
            },
            AsmItem::Jump(_, _) => {
                lemma_label_base_from_words(rest, nm, (ii + 1) as nat, ex, p - 1);
            },
            AsmItem::LeaSym(_) => {
                lemma_label_base_from_words(rest, nm, (ii + 1) as nat, ex, p - 1);
            },
            AsmItem::Label(_) => {
                lemma_label_base_from_words(rest, nm, ii, ex, p - 1);
            },
            AsmItem::Var(_, _) => {
                lemma_label_base_from_words(rest, nm, ii, ex, p - 1);
            },
        }
    }
}

/// A label resolves to the number of DRAM cells the instructions before
/// it occupy: the index of the first word of the code that follows it.
pub proof fn lemma_label_addresses_following_code(items: Seq<AsmItem>, nm: Seq<u8>, p: int)
    requires
        0 <= p < items.len(),
        items[p] == AsmItem::Label(nm),
        forall|k: int| p < k < items.len() ==> #[trigger] items[k] != AsmItem::Label(nm),
    ensures
        spec_label_base(items, nm) == Some(spec_code_words(items.take(p))),
{
    lemma_label_base_from_words(items, nm, 0, 0, p);
}

proof fn lemma_encodings_singleton(i: Instruction)
    ensures
        spec_encodings(seq![i]) == spec_encode(i),
{
    assert(seq![i][0] == i);
    assert(seq![i].drop_first() =~= Seq::<Instruction>::empty());
    assert(spec_encodings(seq![i].drop_first()) == Seq::<u32>::empty());
    assert(spec_encodings(seq![i]) =~= spec_encode(i));
}

/// Concatenating instruction lists concatenates their encodings.
proof fn lemma_encodings_concat(s1: Seq<Instruction>, s2: Seq<Instruction>)
    ensures
        spec_encodings(s1 + s2) == spec_encodings(s1) + spec_encodings(s2),
    decreases s1.len(),
{
    if s1.len() == 0 {
        assert(s1 + s2 =~= s2);
        assert(spec_encodings(s1) + spec_encodings(s2) =~= spec_encodings(s2));
    } else {
        assert((s1 + s2).drop_first() =~= s1.drop_first() + s2);
        lemma_encodings_concat(s1.drop_first(), s2);
        assert(spec_encodings(s1 + s2) =~= spec_encodings(s1) + spec_encodings(s2));
    }
}

/// Splitting an item list splits the bound instructions it emits.
proof fn lemma_bound_split(a: Seq<AsmItem>, b: Seq<AsmItem>, all: Seq<AsmItem>)
    ensures
        spec_bound_insts(a + b, all) == spec_bound_insts(a, all) + spec_bound_insts(b, all),
    decreases a.len(),
{
    if a.len() == 0 {
        assert(a + b =~= b);
        assert(spec_bound_insts(a, all) + spec_bound_insts(b, all) =~= spec_bound_insts(b, all));
    } else {
        assert((a + b).drop_first() =~= a.drop_first() + b);
        assert((a + b)[0] == a[0]);
        lemma_bound_split(a.drop_first(), b, all);
        assert(spec_bound_insts(a + b, all) =~= spec_bound_insts(a, all) + spec_bound_insts(
            b,
            all,
        ));
    }
}

/// Every symbolic jump item really holds a jump instruction, as the
/// classifier guarantees.
pub open spec fn spec_jump_items_wf(items: Seq<AsmItem>) -> bool {
    forall|k: int|
        0 <= k < items.len() ==> ((#[trigger] items[k]) is Jump ==> {
            let i = items[k]->Jump_0;
            i is JMP || i is JE || i is JGT || i is JLT || i is JZ || i is JOV
        })
}

/// Without symbolic `lea` items, the bound instructions' words count the
/// item list's code cells exactly.
proof fn lemma_bound_words(items: Seq<AsmItem>, all: Seq<AsmItem>)
    requires
        forall|k: int| 0 <= k < items.len() ==> !((#[trigger] items[k]) is LeaSym),
        spec_jump_items_wf(items),
    ensures
        spec_encodings(spec_bound_insts(items, all)).len() == spec_code_words(items),
    decreases items.len(),
{
    if items.len() > 0 {
        let rest = items.drop_first();
        assert(forall|k: int| 0 <= k < rest.len() ==> #[trigger] rest[k] == items[k + 1]);
        assert(spec_jump_items_wf(rest));
        lemma_bound_words(rest, all);
        match items[0] {
            AsmItem::Asm(i) => {
                assert(spec_bound_insts(items, all) == seq![i] + spec_bound_insts(rest, all));
                lemma_encodings_concat(seq![i], spec_bound_insts(rest, all));
                lemma_encodings_singleton(i);
            },
            AsmItem::Jump(i, name) => {
                let bi = spec_with_jump_target(
                    i,
                    spec_jump_operand(spec_label_base(all, name)->Some_0, 0),
                );
                assert(spec_bound_insts(items, all) == seq![bi] + spec_bound_insts(rest, all));
                lemma_encodings_concat(seq![bi], spec_bound_insts(rest, all));
                lemma_encodings_singleton(bi);
                assert(items[0] is Jump);
                assert(spec_encode(bi).len() == 1);
            },
            AsmItem::LeaSym(_) => {
                assert(false);
            },
            AsmItem::Label(_) => {
                assert(spec_bound_insts(items, all) =~= spec_bound_insts(rest, all));
            },
            AsmItem::Var(_, _) => {
                assert(spec_bound_insts(items, all) =~= spec_bound_insts(rest, all));
            },
        }
    }
}

/// With no symbolic `lea` and every jump's label defined, the emit pass
/// is exactly an append of the bound instructions, and cannot fail.
proof fn lemma_emit_appends(s: CpuView, rem: Seq<AsmItem>, all: Seq<AsmItem>)
    requires
        forall|k: int| 0 <= k < rem.len() ==> !((#[trigger] rem[k]) is LeaSym),
        forall|k: int|
            0 <= k < rem.len() ==> ((#[trigger] rem[k]) is Jump ==> spec_label_base(
                all,
                rem[k]->Jump_1,
            ) is Some),
    ensures
        spec_emit(s, rem, all, Seq::empty()) == Ok::<CpuView, AsmError>(
            spec_append_all(s, spec_bound_insts(rem, all)),
        ),
    decreases rem.len(),
{
    if rem.len() > 0 {
        let rest = rem.drop_first();
        assert(forall|k: int| 0 <= k < rest.len() ==> #[trigger] rest[k] == rem[k + 1]);
        match rem[0] {
            AsmItem::Asm(i) => {
                lemma_emit_appends(spec_add_to_end(s, i), rest, all);
                assert((seq![i] + spec_bound_insts(rest, all))[0] == i);
                assert((seq![i] + spec_bound_insts(rest, all)).drop_first() =~= spec_bound_insts(
                    rest,
                    all,
                ));
            },
            AsmItem::Jump(i, name) => {
                let bi = spec_with_jump_target(
                    i,
                    spec_jump_operand(spec_label_base(all, name)->Some_0, 0),
                );
                lemma_emit_appends(spec_add_to_end(s, bi), rest, all);
                assert((seq![bi] + spec_bound_insts(rest, all))[0] == bi);
                assert((seq![bi] + spec_bound_insts(rest, all)).drop_first() =~= spec_bound_insts(
                    rest,
                    all,
                ));
            },
            AsmItem::LeaSym(_) => {
                assert(false);
            },
            AsmItem::Label(_) => {
                lemma_emit_appends(s, rest, all);
                assert(spec_bound_insts(rem, all) =~= spec_bound_insts(rest, all));
            },
            AsmItem::Var(_, _) => {
                lemma_emit_appends(s, rest, all);
                assert(spec_bound_insts(rem, all) =~= spec_bound_insts(rest, all));
            },
        }
    }
}

/// Jump resolution. In a program without variables or symbolic `lea`,
/// take any label defined (last) at position `p` and any jump at
/// position `q` that names it. Provided every encoded word of the bound
/// program is nonzero and the whole program fits in DRAM, the emit pass
/// succeeds, the jump's operand is the count of DRAM cells occupied by
/// the code before the label — the index of the first word of the
/// instruction that follows the label — and the word emitted for the
/// jump at its own cell encodes exactly that operand.
pub proof fn lemma_jump_resolution(items: Seq<AsmItem>, nm: Seq<u8>, p: int, q: int)
    requires
        forall|k: int|
            0 <= k < items.len() ==> !((#[trigger] items[k]) is LeaSym) && !(items[k] is Var),
        forall|k: int|
            0 <= k < items.len() ==> ((#[trigger] items[k]) is Jump ==> spec_label_base(
                items,
                items[k]->Jump_1,
            ) is Some),
        spec_jump_items_wf(items),
        0 <= p < items.len(),
        items[p] == AsmItem::Label(nm),
        forall|k: int| p < k < items.len() ==> #[trigger] items[k] != AsmItem::Label(nm),
        0 <= q < items.len(),
        items[q] is Jump,
        items[q]->Jump_1 == nm,
        spec_words_nonzero(spec_bound_insts(items, items)),
        spec_code_words(items) <= DRAM_SIZE,
        spec_code_words(items.take(p)) < 0x10000,
    ensures
        spec_label_base(items, nm) == Some(spec_code_words(items.take(p))),
        spec_emit(spec_emit_start(Seq::empty()), items, items, Seq::empty()) is Ok,
        ({
            let base = spec_code_words(items.take(p));
            let bound = spec_with_jump_target(items[q]->Jump_0, base as u16);
            let s2 = spec_emit(spec_emit_start(Seq::empty()), items, items, Seq::empty())->Ok_0;
            s2.dram[spec_code_words(items.take(q)) as int] == spec_encode(bound)[0]
        }),
{
    lemma_label_addresses_following_code(items, nm, p);
    let base = spec_code_words(items.take(p));
    let start = spec_emit_start(Seq::empty());
    assert(start == spec_new_cpu()) by {
        assert(crate::program_file::spec_vars_dram(Seq::empty()) =~= spec_new_cpu().dram);
    }
    lemma_emit_appends(start, items, items);
    let bound_all = spec_bound_insts(items, items);
    lemma_bound_words(items, items);
    lemma_appends_concatenate(bound_all);
    let s2 = spec_append_all(spec_new_cpu(), bound_all);
    // split the program at the jump
    let pre = items.take(q);
    let jq = items[q]->Jump_0;
    let bi = spec_with_jump_target(jq, spec_jump_operand(base, 0));
    assert(spec_jump_operand(base, 0) == base as u16);
    assert(forall|k: int| 0 <= k < pre.len() ==> #[trigger] pre[k] == items[k]);
    assert(spec_jump_items_wf(pre));
    assert(items =~= pre + items.skip(q as int));
    lemma_bound_split(pre, items.skip(q as int), items);
    let tail = items.skip(q as int);
    assert(tail[0] == items[q]);
    assert(spec_bound_insts(tail, items) == seq![bi] + spec_bound_insts(
        tail.drop_first(),
        items,
    ));
    lemma_bound_words(pre, items);
    let w = spec_encodings(spec_bound_insts(pre, items)).len() as int;
    assert(w == spec_code_words(pre));
    lemma_encodings_concat(spec_bound_insts(pre, items), spec_bound_insts(tail, items));
    lemma_encodings_concat(seq![bi], spec_bound_insts(tail.drop_first(), items));
    lemma_encodings_singleton(bi);
    crate::instruction::lemma_encode_decode(bi, 0);
    assert(spec_encodings(bound_all)[w] == spec_encode(bi)[0]) by {
        assert(spec_encodings(bound_all) == spec_encodings(spec_bound_insts(pre, items))
            + (spec_encode(bi) + spec_encodings(spec_bound_insts(tail.drop_first(), items))));
    }
    assert(s2.dram[w] == spec_encodings(bound_all)[w]) by {
        lemma_bound_words(items, items);
        assert(w < spec_encodings(bound_all).len());
    }
}

/// The classification pass only ever records a jump variant in a
/// symbolic jump item, so every program it produces meets the jump
/// resolution law's shape hypothesis.
pub proof fn lemma_pass1_keeps_jumps_wf(lines: Seq<Seq<u8>>, st: Pass1State)
    requires
        spec_jump_items_wf(st.items),
        spec_pass1(lines, st) is Ok,
    ensures
        spec_jump_items_wf(spec_pass1(lines, st)->Ok_0.items),
    decreases lines.len(),
{
    if lines.len() > 0 {
        if crate::program_file::spec_line_skipped(lines[0]) {
            lemma_pass1_keeps_jumps_wf(lines.drop_first(), st);
        } else {
            let stepped = spec_classify(crate::parse::spec_line_tokens(lines[0]), st);
            assert(stepped is Ok);
            let st2 = stepped->Ok_0;
            assert(spec_jump_items_wf(st2.items)) by {
                assert forall|k: int| 0 <= k < st2.items.len() implies ((#[trigger] st2.items[k])
                    is Jump ==> {
                    let i = st2.items[k]->Jump_0;
                    i is JMP || i is JE || i is JGT || i is JLT || i is JZ || i is JOV
                }) by {
                    if k < st.items.len() {
                        assert(st2.items[k] == st.items[k]);
                    }
                }
            }
            lemma_pass1_keeps_jumps_wf(lines.drop_first(), st2);
        }
    }
}

} // verus!
