//! The assembler: turn line-oriented source text into a finalized CPU
//! image.
//!
//! Pass 1 classifies each statement line as an instruction, a label, a
//! variable declaration or a symbolic reference, allocating one DRAM cell
//! per variable as it goes. Pass 2 addresses labels by the position of the
//! instruction that follows them. Pass 3 emits every instruction in order
//! through the CPU's append operation, rewriting each symbolic jump to its
//! label's cell and each symbolic `lea` to its variable's cell.
//!
//! The whole pipeline is mirrored by pure functions over byte sequences
//! ([`spec_compile`] at the top); `compile` is proved to produce exactly
//! that image or exactly that error.

use vstd::prelude::*;
use crate::constants::DRAM_SIZE;
use crate::cpu::{
    Cpu, CpuView, RunOutcome, RunState, spec_new_cpu, spec_default_sp, spec_add_to_end,
    spec_load_dram, spec_dram_bytes, spec_run_to_halt,
};
use crate::instruction::{
    Instruction, spec_encode, spec_parse_line, spec_with_jump_target,
};
use crate::parse::{spec_is_space, spec_line_tokens, spec_split_lines, line_tokens, split_lines};

verus! {

/// One classified statement of the intermediate program list.
#[derive(Debug, Clone)]
pub enum ProgramInstruction {
    /// A fully parsed instruction
    Asm(Instruction),
    /// An instruction holding a symbolic name bound in a later pass: a
    /// jump to a label, or a `lea` of a variable (the name is stored
    /// without its colons)
    PreAsm(Instruction, Vec<u8>),
    /// A label definition (stored without its colons)
    Label(Vec<u8>),
    /// A variable declaration
    Variable(Vec<u8>, u32),
}

/// The ghost counterpart of [`ProgramInstruction`].
pub enum AsmItem {
    Asm(Instruction),
    Jump(Instruction, Seq<u8>),
    LeaSym(Seq<u8>),
    Label(Seq<u8>),
    Var(Seq<u8>, u32),
}

/// The ghost reading of one classified statement.
pub open spec fn spec_item_view(p: ProgramInstruction) -> AsmItem {
    match p {
        ProgramInstruction::Asm(i) => AsmItem::Asm(i),
        ProgramInstruction::PreAsm(i, n) => if i is Lea {
            AsmItem::LeaSym(n@)
        } else {
            AsmItem::Jump(i, n@)
        },
        ProgramInstruction::Label(n) => AsmItem::Label(n@),
        ProgramInstruction::Variable(n, v) => AsmItem::Var(n@, v),
    }
}

/// Why assembly stopped. Statement numbers are 1-based and count the
/// lines that hold a statement (empty and comment-only lines do not).
#[derive(Clone, Copy, Debug, PartialEq, Eq, Structural)]
pub enum AsmError {
    /// The statement is no instruction, label, variable or symbolic form
    Parse(usize),
    /// A variable declaration without a readable 32-bit value
    BadVariableValue(usize),
    /// More variables than the region between the default stack pointer
    /// and the end of DRAM can hold
    TooManyVariables(usize),
    /// A jump names a label no line defines
    UnknownLabel,
    /// A `lea` names a variable no line declares
    UnknownVariable,
}

/// A token with its colons removed, as label names are keyed.
pub open spec fn spec_without_colons(t: Seq<u8>) -> Seq<u8>
    decreases t.len(),
{
    if t.len() == 0 {
        Seq::empty()
    } else {
        spec_without_colons(t.drop_last()) + (if t.last() == 58 {
            Seq::empty()
        } else {
            seq![t.last()]
        })
    }
}

/// A label token: it begins and ends with a colon.
pub open spec fn spec_is_label(t: Seq<u8>) -> bool {
    t.len() >= 1 && t[0] == 58 && t[t.len() - 1] == 58
}

/// The first byte of a line that is not whitespace, if any.
pub open spec fn spec_first_nonspace(line: Seq<u8>) -> Option<u8>
    decreases line.len(),
{
    if line.len() == 0 {
        None
    } else if spec_is_space(line[0]) {
        spec_first_nonspace(line.drop_first())
    } else {
        Some(line[0])
    }
}

/// Lines the classifier never sees: empty lines, and lines whose first
/// visible byte opens a comment.
pub open spec fn spec_line_skipped(line: Seq<u8>) -> bool {
    line.len() == 0 || spec_first_nonspace(line) == Some(59u8)
}

/// The placeholder operand handed to the codec when classifying a jump
/// whose target is symbolic; the bound pass overwrites it.
pub open spec fn spec_placeholder_tok() -> Seq<u8> {
    seq![49u8, 48u8, 48u8, 48u8]
}

/// The jump instruction a mnemonic token classifies to when its operand
/// is a label: the codec must read `mnemonic 1000` as a jump.
pub open spec fn spec_precompile_jump(item: Seq<u8>) -> Option<Instruction> {
    match spec_parse_line(seq![item, spec_placeholder_tok()], 0) {
        Some(i) => if i is JMP || i is JE || i is JGT || i is JLT || i is JZ || i is JOV {
            Some(i)
        } else {
            None
        },
        None => None,
    }
}

/// The running state of the classification pass.
pub struct Pass1State {
    /// Statements classified so far
    pub items: Seq<AsmItem>,
    /// Variables declared so far, in declaration order, each with its
    /// value; the `k`-th declared variable owns the cell `k` above the
    /// default stack pointer
    pub vars: Seq<(Seq<u8>, u32)>,
    /// Extra DRAM cells consumed by the multi-word instructions so far
    pub extra: nat,
    /// Statement lines seen so far
    pub stmts: nat,
}

/// The empty starting state of the classification pass.
pub open spec fn spec_pass1_init() -> Pass1State {
    Pass1State { items: Seq::empty(), vars: Seq::empty(), extra: 0, stmts: 0 }
}

/// The `added_lines` value the codec is called with: extra cells from
/// earlier multi-word instructions plus declared variables, saturated to
/// 32 bits.
pub open spec fn spec_added_lines(st: Pass1State) -> u32 {
    if st.extra + st.vars.len() > u32::MAX {
        u32::MAX
    } else {
        (st.extra + st.vars.len()) as u32
    }
}

/// Classify one statement's tokens, growing the state. `None` stands for
/// a line with no tokens once the comment is stripped, which is skipped.
pub open spec fn spec_classify(toks: Seq<Seq<u8>>, st: Pass1State) -> Result<
    Pass1State,
    AsmError,
> {
    let stmt = (st.stmts + 1) as nat;
    let counted = Pass1State { stmts: stmt, ..st };
    if toks.len() == 0 {
        Ok(counted)
    } else {
        match spec_parse_line(toks, spec_added_lines(st)) {
            Some(i) => Ok(
                Pass1State {
                    items: counted.items.push(AsmItem::Asm(i)),
                    extra: (counted.extra + spec_encode(i).len() - 1) as nat,
                    ..counted
                },
            ),
            None => {
                if spec_is_label(toks[0]) {
                    Ok(
                        Pass1State {
                            items: counted.items.push(
                                AsmItem::Label(spec_without_colons(toks[0])),
                            ),
                            ..counted
                        },
                    )
                } else if toks.len() >= 2 && toks[1] == seq![61u8] {
                    if toks.len() < 3 || crate::parse::spec_parse_u32(toks[2]) is None {
                        Err(AsmError::BadVariableValue(stmt as usize))
                    } else if spec_default_sp() + counted.vars.len() >= DRAM_SIZE {
                        Err(AsmError::TooManyVariables(stmt as usize))
                    } else {
                        let v = crate::parse::spec_parse_u32(toks[2])->Some_0;
                        Ok(
                            Pass1State {
                                items: counted.items.push(AsmItem::Var(toks[0], v)),
                                vars: counted.vars.push((toks[0], v)),
                                ..counted
                            },
                        )
                    }
                } else if toks.len() >= 2 && spec_precompile_jump(toks[0]) is Some {
                    Ok(
                        Pass1State {
                            items: counted.items.push(
                                AsmItem::Jump(
                                    spec_precompile_jump(toks[0])->Some_0,
                                    spec_without_colons(toks[1]),
                                ),
                            ),
                            ..counted
                        },
                    )
                } else if toks.len() == 2 && toks[0].map_values(
                    |b: u8| crate::parse::spec_lower(b),
                ) == seq![108u8, 101u8, 97u8] && spec_is_label(toks[1]) {
                    Ok(
                        Pass1State {
                            items: counted.items.push(
                                AsmItem::LeaSym(spec_without_colons(toks[1])),
                            ),
                            ..counted
                        },
                    )
                } else {
                    Err(AsmError::Parse(stmt as usize))
                }
            },
        }
    }
}

/// The classification pass over all remaining lines.
pub open spec fn spec_pass1(lines: Seq<Seq<u8>>, st: Pass1State) -> Result<Pass1State, AsmError>
    decreases lines.len(),
{
    if lines.len() == 0 {
        Ok(st)
    } else if spec_line_skipped(lines[0]) {
        spec_pass1(lines.drop_first(), st)
    } else {
        match spec_classify(spec_line_tokens(lines[0]), st) {
            Ok(st2) => spec_pass1(lines.drop_first(), st2),
            Err(e) => Err(e),
        }
    }
}

/// The label pass: the address base a name resolves to, walking the item
/// list with an instruction cursor. Labels do not advance the cursor;
/// every emitted instruction advances it by one; a multi-word instruction
/// additionally widens all later bases by its extra words. A name defined
/// twice resolves to its last definition.
pub open spec fn spec_label_base_from(
    items: Seq<AsmItem>,
    name: Seq<u8>,
    inst_index: nat,
    extra: nat,
) -> Option<nat>
    decreases items.len(),
{
    if items.len() == 0 {
        None
    } else {
        match items[0] {
            AsmItem::Asm(i) => spec_label_base_from(
                items.drop_first(),
                name,
                (inst_index + 1) as nat,
                (extra + spec_encode(i).len() - 1) as nat,
            ),
            AsmItem::Jump(_, _) => spec_label_base_from(
                items.drop_first(),
                name,
                (inst_index + 1) as nat,
                extra,
            ),
            AsmItem::LeaSym(_) => spec_label_base_from(
                items.drop_first(),
                name,
                (inst_index + 1) as nat,
                extra,
            ),
            AsmItem::Label(n) => {
                let later = spec_label_base_from(items.drop_first(), name, inst_index, extra);
                if later is Some {
                    later
                } else if n == name {
                    Some((inst_index + extra) as nat)
                } else {
                    None
                }
            },
            AsmItem::Var(_, _) => spec_label_base_from(items.drop_first(), name, inst_index, extra),
        }
    }
}

/// The address base of a label over the whole program.
pub open spec fn spec_label_base(items: Seq<AsmItem>, name: Seq<u8>) -> Option<nat> {
    spec_label_base_from(items, name, 0, 0)
}

/// The DRAM cell of a declared variable: the cell above the default
/// stack pointer that its declaration order gave it. A name declared
/// twice resolves to its last declaration.
pub open spec fn spec_var_addr(vars: Seq<(Seq<u8>, u32)>, name: Seq<u8>) -> Option<u32>
    decreases vars.len(),
{
    if vars.len() == 0 {
        None
    } else if vars.last().0 == name {
        Some((spec_default_sp() + vars.len() - 1) as u32)
    } else {
        spec_var_addr(vars.drop_last(), name)
    }
}

/// The operand a symbolic jump is bound to: the label's base plus one
/// cell per declared variable, truncated to 16 bits.
pub open spec fn spec_jump_operand(base: nat, nvars: nat) -> u16 {
    (((base + nvars) % 0x10000) as u16)
}

/// The emit pass: append the program's instructions in order, binding
/// each symbolic name as it passes.
pub open spec fn spec_emit(
    s: CpuView,
    rem: Seq<AsmItem>,
    all: Seq<AsmItem>,
    vars: Seq<(Seq<u8>, u32)>,
) -> Result<CpuView, AsmError>
    decreases rem.len(),
{
    if rem.len() == 0 {
        Ok(s)
    } else {
        match rem[0] {
            AsmItem::Asm(i) => spec_emit(spec_add_to_end(s, i), rem.drop_first(), all, vars),
            AsmItem::Jump(i, name) => match spec_label_base(all, name) {
                None => Err(AsmError::UnknownLabel),
                Some(base) => {
                    let bound = spec_with_jump_target(
                        i,
                        spec_jump_operand(base, vars.len() as nat),
                    );
                    spec_emit(spec_add_to_end(s, bound), rem.drop_first(), all, vars)
                },
            },
            AsmItem::LeaSym(name) => match spec_var_addr(vars, name) {
                None => Err(AsmError::UnknownVariable),
                Some(addr) => spec_emit(
                    spec_add_to_end(s, Instruction::Lea(addr as u16)),
                    rem.drop_first(),
                    all,
                    vars,
                ),
            },
            AsmItem::Label(_) => spec_emit(s, rem.drop_first(), all, vars),
            AsmItem::Var(_, _) => spec_emit(s, rem.drop_first(), all, vars),
        }
    }
}

/// The DRAM after the classification pass alone: each variable's value
/// sits in its own cell above the default stack pointer, everything else
/// is zero.
pub open spec fn spec_vars_dram(vars: Seq<(Seq<u8>, u32)>) -> Seq<u32> {
    Seq::new(
        DRAM_SIZE as nat,
        |i: int| if spec_default_sp() <= i < spec_default_sp() + vars.len() {
            vars[i - spec_default_sp()].1
        } else {
            0u32
        },
    )
}

/// The machine state the emit pass starts from: a fresh CPU holding the
/// variables, its stack pointer above them, and — when any variable
/// exists — the implicit `IMoveL(SP, …)` that moves the runtime stack
/// above the variable region, already appended at cell 0.
pub open spec fn spec_emit_start(vars: Seq<(Seq<u8>, u32)>) -> CpuView {
    let s0 = CpuView {
        sp: (spec_default_sp() + vars.len()) as u32,
        dram: spec_vars_dram(vars),
        ..spec_new_cpu()
    };
    if vars.len() > 0 {
        spec_add_to_end(
            s0,
            Instruction::IMoveL(
                crate::constants::SP,
                (spec_default_sp() + vars.len()) as u32,
            ),
        )
    } else {
        s0
    }
}

/// What assembling a source file produces: the finalized machine image,
/// or the first error.
pub open spec fn spec_compile(lines: Seq<Seq<u8>>) -> Result<CpuView, AsmError> {
    match spec_pass1(lines, spec_pass1_init()) {
        Err(e) => Err(e),
        Ok(st) => spec_emit(spec_emit_start(st.vars), st.items, st.items, st.vars),
    }
}

/// How many DRAM cells the emit pass writes for these items: a parsed
/// instruction takes its word count, a symbolic jump or `lea` takes one
/// cell, labels and variables take none.
pub open spec fn spec_code_words(items: Seq<AsmItem>) -> nat
    decreases items.len(),
{
    if items.len() == 0 {
        0
    } else {
        (match items[0] {
            AsmItem::Asm(i) => spec_encode(i).len(),
            AsmItem::Jump(_, _) => 1,
            AsmItem::LeaSym(_) => 1,
            AsmItem::Label(_) => 0,
            AsmItem::Var(_, _) => 0,
        } + spec_code_words(items.drop_first())) as nat
    }
}

/// The instructions the emit pass hands to the appender, in order, with
/// every symbolic jump bound to its label (defined where every jump's
/// label resolves and no symbolic `lea` occurs).
pub open spec fn spec_bound_insts(rem: Seq<AsmItem>, all: Seq<AsmItem>) -> Seq<Instruction>
    decreases rem.len(),
{
    if rem.len() == 0 {
        Seq::empty()
    } else {
        (match rem[0] {
            AsmItem::Asm(i) => seq![i],
            AsmItem::Jump(i, name) => seq![
                spec_with_jump_target(
                    i,
                    spec_jump_operand(spec_label_base(all, name)->Some_0, 0),
                ),
            ],
            AsmItem::LeaSym(_) => Seq::empty(),
            AsmItem::Label(_) => Seq::empty(),
            AsmItem::Var(_, _) => Seq::empty(),
        }) + spec_bound_insts(rem.drop_first(), all)
    }
}

/// The ghost reading of the classified statement list.
pub open spec fn spec_items_view(items: Seq<ProgramInstruction>) -> Seq<AsmItem> {
    items.map_values(|p: ProgramInstruction| spec_item_view(p))
}

/// The ghost reading of the variable table.
pub open spec fn spec_vars_view(vars: Seq<(Vec<u8>, u32)>) -> Seq<(Seq<u8>, u32)> {
    vars.map_values(|p: (Vec<u8>, u32)| (p.0@, p.1))
}

/// Every symbolic item of the list carries what its pass expects: a
/// non-`lea` symbolic instruction is a jump.
pub open spec fn spec_items_wf(items: Seq<ProgramInstruction>) -> bool {
    forall|k: int|
        0 <= k < items.len() ==> match #[trigger] items[k] {
            ProgramInstruction::PreAsm(i, _) => i is Lea || i is JMP || i is JE || i is JGT
                || i is JLT || i is JZ || i is JOV,
            _ => true,
        }
}

/// A fresh byte-for-byte copy of a token.
fn copy_bytes(v: &Vec<u8>) -> (r: Vec<u8>)
    ensures
        r@ == v@,
{
    let n = v.len();
    let mut out: Vec<u8> = Vec::new();
    let mut i: usize = 0;
    while i < n
        invariant
            0 <= i <= n,
            n == v@.len(),
            out@ == v@.take(i as int),
        decreases n - i,
    {
        out.push(v[i]);
        proof {
            assert(out@ =~= v@.take(i + 1));
        }
        i = i + 1;
    }
    proof {
        assert(v@.take(n as int) =~= v@);
    }
    out
}

/// Whether two tokens hold the same bytes.
fn bytes_eq(a: &Vec<u8>, b: &Vec<u8>) -> (r: bool)
    ensures
        r == (a@ == b@),
{
    let n = a.len();
    if n != b.len() {
        return false;
    }
    let mut i: usize = 0;
    while i < n
        invariant
            0 <= i <= n,
            n == a@.len(),
            n == b@.len(),
            forall|j: int| 0 <= j < i ==> a@[j] == b@[j],
        decreases n - i,
    {
        if a[i] != b[i] {
            return false;
        }
        i = i + 1;
    }
    proof {
        assert(a@ =~= b@);
    }
    true
}

/// A token with its colons removed: how symbolic names are keyed.
fn without_colons(t: &Vec<u8>) -> (r: Vec<u8>)
    ensures
        r@ == spec_without_colons(t@),
{
    let n = t.len();
    let mut out: Vec<u8> = Vec::new();
    let mut i: usize = 0;
    while i < n
        invariant
            0 <= i <= n,
            n == t@.len(),
            out@ == spec_without_colons(t@.take(i as int)),
        decreases n - i,
    {
        let b = t[i];
        if b != 58 {
            out.push(b);
        }
        proof {
            assert(t@.take(i + 1).drop_last() =~= t@.take(i as int));
            assert(t@.take(i + 1).last() == t@[i as int]);
            if b != 58 {
                assert(out@ =~= spec_without_colons(t@.take(i as int)) + seq![b]);
            } else {
                assert(out@ =~= spec_without_colons(t@.take(i as int)) + Seq::<u8>::empty());
            }
        }
        i = i + 1;
    }
    proof {
        assert(t@.take(n as int) =~= t@);
    }
    out
}

/// Returns true if the given token is a label: it starts and ends with a
/// colon, as in `:this_is_a_label:`.
pub fn is_label(item: &Vec<u8>) -> (r: bool)
    ensures
        r == spec_is_label(item@),
{
    item.len() >= 1 && item[0] == 58 && item[item.len() - 1] == 58
}

/// Whether a mnemonic with a symbolic operand is a jump: the codec must
/// read the mnemonic with a placeholder numeric operand as a jump
/// instruction. Hands back that instruction and a copy of the operand.
pub fn is_precompile_label_inst(item: &Vec<u8>, label: &Vec<u8>) -> (r: Option<
    (Instruction, Vec<u8>),
>)
    ensures
        match spec_precompile_jump(item@) {
            Some(i) => r is Some && r->Some_0.0 == i && r->Some_0.1@ == label@,
            None => r is None,
        },
{
    let mut toks: Vec<Vec<u8>> = Vec::new();
    toks.push(copy_bytes(item));
    let mut placeholder: Vec<u8> = Vec::new();
    placeholder.push(49);
    placeholder.push(48);
    placeholder.push(48);
    placeholder.push(48);
    proof {
        assert(placeholder@ =~= spec_placeholder_tok());
    }
    toks.push(placeholder);
    proof {
        assert(toks@.map_values(|t: Vec<u8>| t@) =~= seq![item@, spec_placeholder_tok()]);
    }
    let inst = match Instruction::from_code_line(&toks, 0) {
        Some(inst) => inst,
        None => {
            return None;
        },
    };
    match inst {
        Instruction::JMP(_) | Instruction::JE(_) | Instruction::JGT(_) | Instruction::JLT(_)
        | Instruction::JZ(_) | Instruction::JOV(_) => Some((inst, copy_bytes(label))),
        _ => None,
    }
}

/// Whether the classifier skips this line: it is empty, or its first
/// visible byte opens a comment.
fn line_is_skipped(line: &Vec<u8>) -> (r: bool)
    ensures
        r == spec_line_skipped(line@),
{
    let n = line.len();
    if n == 0 {
        return true;
    }
    let mut i: usize = 0;
    proof {
        assert(line@.skip(0) =~= line@);
    }
    while i < n
        invariant
            0 <= i <= n,
            n == line@.len(),
            spec_first_nonspace(line@) == spec_first_nonspace(line@.skip(i as int)),
        decreases n - i,
    {
        let b = line[i];
        if !(b == 32 || b == 9 || b == 13 || b == 11 || b == 12) {
            proof {
                assert(line@.skip(i as int)[0] == b);
            }
            return b == 59;
        }
        proof {
            assert(line@.skip(i as int)[0] == line@[i as int]);
            assert(line@.skip(i as int).drop_first() =~= line@.skip(i + 1));
        }
        i = i + 1;
    }
    proof {
        assert(line@.skip(n as int) =~= Seq::<u8>::empty());
    }
    false
}

proof fn lemma_label_base_bound(items: Seq<AsmItem>, name: Seq<u8>, inst_index: nat, extra: nat)
    ensures
        spec_label_base_from(items, name, inst_index, extra) is Some
            ==> spec_label_base_from(items, name, inst_index, extra)->Some_0 <= inst_index + extra
            + 2 * items.len(),
    decreases items.len(),
{
    if items.len() > 0 {
        match items[0] {
            AsmItem::Asm(i) => {
                lemma_label_base_bound(
                    items.drop_first(),
                    name,
                    (inst_index + 1) as nat,
                    (extra + spec_encode(i).len() - 1) as nat,
                );
                crate::instruction::lemma_encode_decode(i, 0);
            },
            AsmItem::Jump(_, _) => {
                lemma_label_base_bound(items.drop_first(), name, (inst_index + 1) as nat, extra);
            },
            AsmItem::LeaSym(_) => {
                lemma_label_base_bound(items.drop_first(), name, (inst_index + 1) as nat, extra);
            },
            AsmItem::Label(_) => {
                lemma_label_base_bound(items.drop_first(), name, inst_index, extra);
            },
            AsmItem::Var(_, _) => {
                lemma_label_base_bound(items.drop_first(), name, inst_index, extra);
            },
        }
    }
}

/// The address base a label name resolves to, scanning the classified
/// list: the count of emitted instructions before the label plus the
/// extra words of the multi-word ones. The last definition wins.
fn find_label_base(items: &Vec<ProgramInstruction>, name: &Vec<u8>) -> (r: Option<u128>)
    ensures
        match spec_label_base(spec_items_view(items@), name@) {
            Some(b) => r == Some(b as u128) && b <= 2 * items@.len(),
            None => r is None,
        },
{
    let ghost iv = spec_items_view(items@);
    let n = items.len();
    let mut inst_index: u64 = 0;
    let mut extra: u64 = 0;
    let mut best: Option<u128> = None;
    let mut k: usize = 0;
    proof {
        assert(iv.skip(0) =~= iv);
        lemma_label_base_bound(iv, name@, 0, 0);
    }
    while k < n
        invariant
            0 <= k <= n,
            n == items@.len(),
            iv == spec_items_view(items@),
            iv.len() == n,
            inst_index <= k,
            extra <= k,
            ({
                let tail = spec_label_base_from(
                    iv.skip(k as int),
                    name@,
                    inst_index as nat,
                    extra as nat,
                );
                match spec_label_base(iv, name@) {
                    Some(b) => b <= 2 * iv.len() && ((tail is Some && tail == Some(b as nat)) || (
                    tail is None && best == Some(b as u128))),
                    None => tail is None && best is None,
                }
            }),
        decreases n - k,
    {
        proof {
            assert(iv.skip(k as int)[0] == iv[k as int]);
            assert(iv.skip(k as int).drop_first() =~= iv.skip(k + 1));
            assert(iv[k as int] == spec_item_view(items@[k as int]));
        }
        match &items[k] {
            ProgramInstruction::Asm(i) => {
                let wc = i.word_count();
                extra = extra + (wc - 1) as u64;
                inst_index = inst_index + 1;
            },
            ProgramInstruction::PreAsm(_, _) => {
                inst_index = inst_index + 1;
            },
            ProgramInstruction::Label(t) => {
                if bytes_eq(t, name) {
                    best = Some(inst_index as u128 + extra as u128);
                }
            },
            ProgramInstruction::Variable(_, _) => {},
        }
        k = k + 1;
    }
    proof {
        assert(iv.skip(n as int) =~= Seq::<AsmItem>::empty());
    }
    best
}

/// The DRAM cell of a declared variable; the last declaration wins.
fn find_var_addr(vars: &Vec<(Vec<u8>, u32)>, name: &Vec<u8>) -> (r: Option<u32>)
    requires
        spec_default_sp() + vars@.len() <= DRAM_SIZE,
    ensures
        r == spec_var_addr(spec_vars_view(vars@), name@),
{
    let ghost vv = spec_vars_view(vars@);
    let n = vars.len();
    let mut best: Option<u32> = None;
    let mut k: usize = 0;
    while k < n
        invariant
            0 <= k <= n,
            n == vars@.len(),
            spec_default_sp() + n <= DRAM_SIZE,
            vv == spec_vars_view(vars@),
            vv.len() == n,
            best == spec_var_addr(vv.take(k as int), name@),
        decreases n - k,
    {
        proof {
            assert(vv.take(k + 1).drop_last() =~= vv.take(k as int));
            assert(vv.take(k + 1).last() == vv[k as int]);
            assert(vv[k as int] == (vars@[k as int].0@, vars@[k as int].1));
        }
        if bytes_eq(&vars[k].0, name) {
            best = Some(DRAM_SIZE - (DRAM_SIZE / 4) + k as u32);
        }
        k = k + 1;
    }
    proof {
        assert(vv.take(n as int) =~= vv);
    }
    best
}

/// A single assembly source file (or loaded binary image) together with
/// the CPU it builds.
pub struct ProgramFile {
    /// The source, split into raw lines
    lines: Vec<Vec<u8>>,
    /// The variables declared by the source, each with its DRAM cell
    variables: Vec<(Vec<u8>, u32)>,
    /// The machine the image is built into and run on
    cpu: Cpu,
}

/// The mathematical reading of a program file: its source lines and its
/// machine.
pub struct ProgramFileView {
    pub lines: Seq<Seq<u8>>,
    pub cpu: CpuView,
}

impl View for ProgramFile {
    type V = ProgramFileView;

    closed spec fn view(&self) -> ProgramFileView {
        ProgramFileView {
            lines: self.lines@.map_values(|l: Vec<u8>| l@),
            cpu: self.cpu@,
        }
    }
}

impl ProgramFile {
    /// Create a program file from source text, split into lines on the
    /// newline byte. The CPU starts fresh; `compile` builds the image.
    pub fn new(source: Vec<u8>) -> (pf: ProgramFile)
        ensures
            pf@.lines == spec_split_lines(source@),
            pf@.cpu == spec_new_cpu(),
            pf@.cpu.wf(),
    {
        ProgramFile { lines: split_lines(&source), variables: Vec::new(), cpu: Cpu::new() }
    }

    /// Create a program file straight from a binary image; the bytes are
    /// loaded into DRAM unchecked and there is no source.
    pub fn new_from_binary(bytes: &Vec<u8>) -> (pf: ProgramFile)
        ensures
            pf@.lines == Seq::<Seq<u8>>::empty(),
            pf@.cpu == (CpuView { dram: spec_load_dram(bytes@), ..spec_new_cpu() }),
            pf@.cpu.wf(),
    {
        let pf = ProgramFile {
            lines: Vec::new(),
            variables: Vec::new(),
            cpu: Cpu::from_binary(bytes),
        };
        proof {
            assert(pf@.lines =~= Seq::<Seq<u8>>::empty());
        }
        pf
    }

    /// Replace the machine with one loaded from a binary image.
    pub fn read_binary(&mut self, bytes: &Vec<u8>)
        ensures
            final(self)@.lines == old(self)@.lines,
            final(self)@.cpu == (CpuView { dram: spec_load_dram(bytes@), ..spec_new_cpu() }),
            final(self)@.cpu.wf(),
    {
        self.cpu = Cpu::from_binary(bytes);
    }

    /// Run the loaded image until it halts, faults or spends the cycle
    /// budget.
    pub fn run(&mut self, fuel: u64) -> (r: RunOutcome)
        requires
            old(self)@.cpu.wf(),
        ensures
            final(self)@.lines == old(self)@.lines,
            final(self)@.cpu.wf(),
            match spec_run_to_halt(old(self)@.cpu, fuel as nat) {
                RunState::Halted(s2) => r == RunOutcome::Halted && final(self)@.cpu == s2,
                RunState::OutOfFuel(s2) => r == RunOutcome::OutOfFuel && final(self)@.cpu == s2,
                RunState::Fault(e) => r == RunOutcome::Fault(e),
            },
    {
        self.cpu.execute_until_unknown(fuel)
    }

    /// Run the binary stored in the machine: the same run loop.
    pub fn run_binary(&mut self, fuel: u64) -> (r: RunOutcome)
        requires
            old(self)@.cpu.wf(),
        ensures
            final(self)@.lines == old(self)@.lines,
            final(self)@.cpu.wf(),
            match spec_run_to_halt(old(self)@.cpu, fuel as nat) {
                RunState::Halted(s2) => r == RunOutcome::Halted && final(self)@.cpu == s2,
                RunState::OutOfFuel(s2) => r == RunOutcome::OutOfFuel && final(self)@.cpu == s2,
                RunState::Fault(e) => r == RunOutcome::Fault(e),
            },
    {
        self.run(fuel)
    }

    /// The machine image as little-endian bytes, four per DRAM cell.
    pub fn output_binary(&self) -> (r: Vec<u8>)
        ensures
            r@ == spec_dram_bytes(self@.cpu.dram),
    {
        self.cpu.dram_bytes()
    }

    /// The machine itself, for observation.
    pub fn get_cpu(&self) -> (r: &Cpu)
        ensures
            r@ == self@.cpu,
    {
        &self.cpu
    }

    /// Assemble the stored source into the machine: classify every
    /// statement, address the labels, and emit the image — exactly the
    /// image [`spec_compile`] gives, or exactly its error. On an error
    /// the machine holds a half-built image that means nothing.
    #[verifier::rlimit(100)]
    #[verifier::spinoff_prover]
    pub fn compile(&mut self) -> (r: Result<(), AsmError>)
        ensures
            final(self)@.lines == old(self)@.lines,
            final(self)@.cpu.wf(),
            match spec_compile(old(self)@.lines) {
                Ok(s) => r == Ok::<(), AsmError>(()) && final(self)@.cpu == s,
                Err(e) => r == Err::<(), AsmError>(e),
            },
    {
        let ghost linesv = self@.lines;
        self.cpu = Cpu::new();
        self.variables = Vec::new();
        let mut items: Vec<ProgramInstruction> = Vec::new();
        let mut extra: u64 = 0;
        let mut stmts: usize = 0;
        let n = self.lines.len();
        let mut li: usize = 0;
        proof {
            assert(linesv.skip(0) =~= linesv);
            assert(spec_items_view(items@) =~= Seq::<AsmItem>::empty());
            assert(spec_vars_view(self.variables@) =~= Seq::<(Seq<u8>, u32)>::empty());
            assert(Pass1State {
                items: spec_items_view(items@),
                vars: spec_vars_view(self.variables@),
                extra: extra as nat,
                stmts: stmts as nat,
            } == spec_pass1_init());
            assert(self.cpu@.dram =~= spec_vars_dram(spec_vars_view(self.variables@)));
        }
        while li < n
            invariant
                0 <= li <= n,
                n == linesv.len(),
                linesv == old(self)@.lines,
                self@.lines == linesv,
                extra <= li,
                stmts <= li,
                spec_default_sp() + self.variables@.len() <= DRAM_SIZE,
                spec_items_wf(items@),
                spec_pass1(linesv, spec_pass1_init()) == spec_pass1(
                    linesv.skip(li as int),
                    Pass1State {
                        items: spec_items_view(items@),
                        vars: spec_vars_view(self.variables@),
                        extra: extra as nat,
                        stmts: stmts as nat,
                    },
                ),
                self.cpu@ == (CpuView {
                    sp: (spec_default_sp() + self.variables@.len()) as u32,
                    dram: spec_vars_dram(spec_vars_view(self.variables@)),
                    ..spec_new_cpu()
                }),
            decreases n - li,
        {
            let ghost st0 = Pass1State {
                items: spec_items_view(items@),
                vars: spec_vars_view(self.variables@),
                extra: extra as nat,
                stmts: stmts as nat,
            };
            proof {
                assert(linesv.skip(li as int)[0] == linesv[li as int]);
                assert(linesv.skip(li as int).drop_first() =~= linesv.skip(li + 1));
                assert(linesv[li as int] == self.lines@[li as int]@);
            }
            let skipped = line_is_skipped(&self.lines[li]);
            if !skipped {
                let toks = line_tokens(&self.lines[li]);
                let ghost toksv = spec_line_tokens(linesv[li as int]);
                stmts = stmts + 1;
                if toks.len() == 0 {
                } else {
                    let added: u32 = {
                        let t: u128 = extra as u128 + self.variables.len() as u128;
                        if t > 0xFFFF_FFFF {
                            u32::MAX
                        } else {
                            t as u32
                        }
                    };
                    proof {
                        assert(added == spec_added_lines(st0));
                    }
                    match Instruction::from_code_line(&toks, added) {
                        Some(inst) => {
                            let wc = inst.word_count();
                            extra = extra + (wc - 1) as u64;
                            items.push(ProgramInstruction::Asm(inst));
                            proof {
                                assert(spec_items_view(items@) =~= st0.items.push(
                                    AsmItem::Asm(inst),
                                ));
                            }
                        },
                        None => {
                            let is_lab = is_label(&toks[0]);
                            if is_lab {
                                items.push(ProgramInstruction::Label(without_colons(&toks[0])));
                                proof {
                                    assert(spec_items_view(items@) =~= st0.items.push(
                                        AsmItem::Label(spec_without_colons(toksv[0])),
                                    ));
                                }
                            } else if toks.len() >= 2 && toks[1].len() == 1 && toks[1][0] == 61 {
                                proof {
                                    assert(toksv[1] =~= seq![61u8]);
                                }
                                if toks.len() < 3 {
                                    return Err(AsmError::BadVariableValue(stmts));
                                }
                                match crate::parse::parse_u32(&toks[2]) {
                                    None => {
                                        return Err(AsmError::BadVariableValue(stmts));
                                    },
                                    Some(v) => {
                                        if self.variables.len() >= (DRAM_SIZE / 4) as usize {
                                            return Err(AsmError::TooManyVariables(stmts));
                                        }
                                        let _addr = self.cpu.push_variable(v);
                                        items.push(
                                            ProgramInstruction::Variable(copy_bytes(&toks[0]), v),
                                        );
                                        self.variables.push((copy_bytes(&toks[0]), v));
                                        proof {
                                            assert(spec_items_view(items@) =~= st0.items.push(
                                                AsmItem::Var(toksv[0], v),
                                            ));
                                            assert(spec_vars_view(self.variables@)
                                                =~= st0.vars.push((toksv[0], v)));
                                            assert(self.cpu@.dram =~= spec_vars_dram(
                                                spec_vars_view(self.variables@),
                                            ));
                                        }
                                    },
                                }
                            } else if toks.len() >= 2 {
                                match is_precompile_label_inst(&toks[0], &toks[1]) {
                                    Some(jump_and_label) => {
                                        let (inst, label) = jump_and_label;
                                        items.push(
                                            ProgramInstruction::PreAsm(
                                                inst,
                                                without_colons(&label),
                                            ),
                                        );
                                        proof {
                                            assert(spec_items_view(items@) =~= st0.items.push(
                                                AsmItem::Jump(
                                                    inst,
                                                    spec_without_colons(toksv[1]),
                                                ),
                                            ));
                                        }
                                    },
                                    None => {
                                        let low = crate::parse::lower_token(&toks[0]);
                                        if toks.len() == 2 && low.len() == 3 && low[0] == 108
                                            && low[1] == 101 && low[2] == 97 && is_label(
                                            &toks[1],
                                        ) {
                                            proof {
                                                assert(toksv[0].map_values(
                                                    |b: u8| crate::parse::spec_lower(b),
                                                ) =~= seq![108u8, 101u8, 97u8]);
                                            }
                                            items.push(
                                                ProgramInstruction::PreAsm(
                                                    Instruction::Lea(0),
                                                    without_colons(&toks[1]),
                                                ),
                                            );
                                            proof {
                                                assert(spec_items_view(items@) =~= st0.items.push(
                                                    AsmItem::LeaSym(
                                                        spec_without_colons(toksv[1]),
                                                    ),
                                                ));
                                            }
                                        } else {
                                            return Err(AsmError::Parse(stmts));
                                        }
                                    },
                                }
                            } else {
                                return Err(AsmError::Parse(stmts));
                            }
                        },
                    }
                }
            }
            li = li + 1;
        }
        proof {
            assert(linesv.skip(n as int) =~= Seq::<Seq<u8>>::empty());
        }
        let ghost stf = Pass1State {
            items: spec_items_view(items@),
            vars: spec_vars_view(self.variables@),
            extra: extra as nat,
            stmts: stmts as nat,
        };
        let ghost itemsv = spec_items_view(items@);
        let ghost varsv = spec_vars_view(self.variables@);
        let nvars = self.variables.len();
        if nvars > 0 {
            let start_sp: u32 = DRAM_SIZE - (DRAM_SIZE / 4) + nvars as u32;
            self.cpu.add_to_end(&Instruction::IMoveL(crate::constants::SP, start_sp));
        }
        proof {
            assert(self.cpu@ == spec_emit_start(varsv));
        }
        let m = items.len();
        let mut k: usize = 0;
        proof {
            assert(itemsv.skip(0) =~= itemsv);
        }
        while k < m
            invariant
                0 <= k <= m,
                m == items@.len(),
                itemsv == spec_items_view(items@),
                varsv == spec_vars_view(self.variables@),
                itemsv.len() == m,
                spec_items_wf(items@),
                linesv == old(self)@.lines,
                self@.lines == linesv,
                spec_pass1(linesv, spec_pass1_init()) == Ok::<Pass1State, AsmError>(stf),
                stf.items == itemsv,
                stf.vars == varsv,
                nvars == self.variables@.len(),
                spec_default_sp() + self.variables@.len() <= DRAM_SIZE,
                self.cpu@.wf(),
                spec_emit(spec_emit_start(varsv), itemsv, itemsv, varsv) == spec_emit(
                    self.cpu@,
                    itemsv.skip(k as int),
                    itemsv,
                    varsv,
                ),
            decreases m - k,
        {
            proof {
                assert(itemsv.skip(k as int)[0] == itemsv[k as int]);
                assert(itemsv.skip(k as int).drop_first() =~= itemsv.skip(k + 1));
                assert(itemsv[k as int] == spec_item_view(items@[k as int]));
            }
            match &items[k] {
                ProgramInstruction::Asm(inst) => {
                    self.cpu.add_to_end(inst);
                },
                ProgramInstruction::PreAsm(inst, name) => {
                    let is_lea_ref = match inst {
                        Instruction::Lea(_) => true,
                        _ => false,
                    };
                    if is_lea_ref {
                        match find_var_addr(&self.variables, name) {
                            None => {
                                return Err(AsmError::UnknownVariable);
                            },
                            Some(addr) => {
                                let bound = Instruction::Lea(addr as u16);
                                self.cpu.add_to_end(&bound);
                            },
                        }
                    } else {
                        match find_label_base(&items, name) {
                            None => {
                                return Err(AsmError::UnknownLabel);
                            },
                            Some(base) => {
                                let tgt: u16 = (((base + nvars as u128) % 0x10000) as u16);
                                proof {
                                    let b = spec_label_base(itemsv, items@[k as int]->PreAsm_1@)
                                        ->Some_0;
                                    assert(base == b as u128);
                                    assert((base + nvars as u128) as int == b + varsv.len());
                                    assert(tgt == spec_jump_operand(b, varsv.len() as nat));
                                }
                                let mut bound = *inst;
                                bound.change_jump_line(tgt);
                                self.cpu.add_to_end(&bound);
                            },
                        }
                    }
                },
                ProgramInstruction::Label(_) => {},
                ProgramInstruction::Variable(_, _) => {},
            }
            k = k + 1;
        }
        proof {
            assert(itemsv.skip(m as int) =~= Seq::<AsmItem>::empty());
        }
        Ok(())
    }
}

} // verus!
