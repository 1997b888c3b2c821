//! The opcode dispatch table: each WebAssembly instruction class, keyed by
//! operation family, numeric type and signedness, maps to a sequence of
//! target-machine primitives, or is unsupported.

use vstd::prelude::*;

verus! {

/// The numeric type an instruction operates on.
#[derive(PartialEq, Eq, Structural, Clone, Copy)]
pub enum NumType {
    I32,
    I64,
    F32,
    F64,
}

/// The operation family of an instruction.
#[derive(PartialEq, Eq, Structural, Clone, Copy)]
pub enum Family {
    Add,
    Sub,
    Mul,
    Eq,
    Ne,
    Div,
    Rem,
    Lt,
    Gt,
    Le,
    Ge,
    And,
    Or,
    Xor,
    Shl,
    Shr,
    Load,
    Load8,
    Load16,
    Load32,
    Store,
    Store8,
    Store16,
    Store32,
    Const,
}

/// Byte offset and alignment hint of a memory access, passed on unchanged.
#[derive(PartialEq, Eq, Structural, Clone, Copy)]
pub struct MemArg {
    pub offset: u64,
    pub align: u32,
}

/// One classified instruction.
#[derive(PartialEq, Eq, Structural, Clone, Copy)]
pub struct Instr {
    pub family: Family,
    pub ty: NumType,
    pub signed: bool,
    pub mem: MemArg,
    pub value: i64,
}

/// A target-machine primitive.
#[derive(PartialEq, Eq, Structural, Clone, Copy)]
pub enum Prim {
    Add,
    Sub,
    Mul,
    Div,
    SDiv,
    Mod,
    SMod,
    Lt,
    Gt,
    SLt,
    SGt,
    Eq,
    IsZero,
    And,
    Or,
    Xor,
    Shl,
    Shr,
    Sar,
    MLoad { width: u8, mem: MemArg },
    MStore { width: u8, mem: MemArg },
    Push { value: i64 },
}

/// An instruction class that has no translation.
pub struct UnsupportedOperator {
    pub instr: Instr,
}

pub open spec fn is_int(t: NumType) -> bool {
    t == NumType::I32 || t == NumType::I64
}

/// Width in bytes of a full-width access of the type.
pub open spec fn width_of(t: NumType) -> u8 {
    match t {
        NumType::I32 | NumType::F32 => 4u8,
        NumType::I64 | NumType::F64 => 8u8,
    }
}

/// Whether an instruction class belongs to the baseline instruction set.
pub open spec fn in_baseline(i: Instr) -> bool {
    &&& (i.signed ==> is_int(i.ty))
    &&& match i.family {
        Family::Rem | Family::And | Family::Or | Family::Xor | Family::Shl | Family::Shr
        | Family::Load8 | Family::Load16 | Family::Store8 | Family::Store16 => is_int(i.ty),
        Family::Load32 | Family::Store32 => i.ty == NumType::I64,
        _ => true,
    }
}

/// The primitives that a baseline instruction translates to.
pub open spec fn entry_of(i: Instr) -> Seq<Prim> {
    let s = i.signed;
    match i.family {
        Family::Add => seq![Prim::Add],
        Family::Sub => seq![Prim::Sub],
        Family::Mul => seq![Prim::Mul],
        Family::Eq => seq![Prim::Eq],
        Family::Ne => seq![Prim::Eq, Prim::IsZero],
        Family::Div => seq![if s { Prim::SDiv } else { Prim::Div }],
        Family::Rem => seq![if s { Prim::SMod } else { Prim::Mod }],
        Family::Lt => seq![if s { Prim::SLt } else { Prim::Lt }],
        Family::Gt => seq![if s { Prim::SGt } else { Prim::Gt }],
        Family::Le => seq![if s { Prim::SGt } else { Prim::Gt }, Prim::IsZero],
        Family::Ge => seq![if s { Prim::SLt } else { Prim::Lt }, Prim::IsZero],
        Family::And => seq![Prim::And],
        Family::Or => seq![Prim::Or],
        Family::Xor => seq![Prim::Xor],
        Family::Shl => seq![Prim::Shl],
        Family::Shr => seq![if s { Prim::Sar } else { Prim::Shr }],
        Family::Load => seq![Prim::MLoad { width: width_of(i.ty), mem: i.mem }],
        Family::Load8 => seq![Prim::MLoad { width: 1u8, mem: i.mem }],
        Family::Load16 => seq![Prim::MLoad { width: 2u8, mem: i.mem }],
        Family::Load32 => seq![Prim::MLoad { width: 4u8, mem: i.mem }],
        Family::Store => seq![Prim::MStore { width: width_of(i.ty), mem: i.mem }],
        Family::Store8 => seq![Prim::MStore { width: 1u8, mem: i.mem }],
        Family::Store16 => seq![Prim::MStore { width: 2u8, mem: i.mem }],
        Family::Store32 => seq![Prim::MStore { width: 4u8, mem: i.mem }],
        Family::Const => seq![Prim::Push { value: i.value }],
    }
}

fn is_int_type(t: NumType) -> (r: bool)
    ensures
        r == is_int(t),
{
    match t {
        NumType::I32 | NumType::I64 => true,
        _ => false,
    }
}

fn width(t: NumType) -> (r: u8)
    ensures
        r == width_of(t),
{
    match t {
        NumType::I32 | NumType::F32 => 4,
        NumType::I64 | NumType::F64 => 8,
    }
}

/// Looks an instruction up in the dispatch table.
pub fn lookup(i: Instr) -> (r: Result<Vec<Prim>, UnsupportedOperator>)
    ensures
        match r {
            Ok(p) => in_baseline(i) && p@ == entry_of(i),
            Err(e) => !in_baseline(i) && e.instr == i,
        },
{
    let integer = is_int_type(i.ty);
    let known = match i.family {
        Family::Rem | Family::And | Family::Or | Family::Xor | Family::Shl | Family::Shr
        | Family::Load8 | Family::Load16 | Family::Store8 | Family::Store16 => integer,
        Family::Load32 | Family::Store32 => match i.ty {
            NumType::I64 => true,
            _ => false,
        },
        _ => true,
    };
    if !known || (i.signed && !integer) {
        return Err(UnsupportedOperator { instr: i });
    }
    let s = i.signed;
    let m = i.mem;
    let p = match i.family {
        Family::Add => vec![Prim::Add],
        Family::Sub => vec![Prim::Sub],
        Family::Mul => vec![Prim::Mul],
        Family::Eq => vec![Prim::Eq],
        Family::Ne => vec![Prim::Eq, Prim::IsZero],
        Family::Div => vec![if s { Prim::SDiv } else { Prim::Div }],
        Family::Rem => vec![if s { Prim::SMod } else { Prim::Mod }],
        Family::Lt => vec![if s { Prim::SLt } else { Prim::Lt }],
        Family::Gt => vec![if s { Prim::SGt } else { Prim::Gt }],
        Family::Le => vec![if s { Prim::SGt } else { Prim::Gt }, Prim::IsZero],
        Family::Ge => vec![if s { Prim::SLt } else { Prim::Lt }, Prim::IsZero],
        Family::And => vec![Prim::And],
        Family::Or => vec![Prim::Or],
        Family::Xor => vec![Prim::Xor],
        Family::Shl => vec![Prim::Shl],
        Family::Shr => vec![if s { Prim::Sar } else { Prim::Shr }],
        Family::Load => vec![Prim::MLoad { width: width(i.ty), mem: m }],
        Family::Load8 => vec![Prim::MLoad { width: 1, mem: m }],
        Family::Load16 => vec![Prim::MLoad { width: 2, mem: m }],
        Family::Load32 => vec![Prim::MLoad { width: 4, mem: m }],
        Family::Store => vec![Prim::MStore { width: width(i.ty), mem: m }],
        Family::Store8 => vec![Prim::MStore { width: 1, mem: m }],
        Family::Store16 => vec![Prim::MStore { width: 2, mem: m }],
        Family::Store32 => vec![Prim::MStore { width: 4, mem: m }],
        Family::Const => vec![Prim::Push { value: i.value }],
    };
    assert(p@ =~= entry_of(i));
    Ok(p)
}

/// The primitives that a sequence of baseline instructions translates to,
/// in order.
pub open spec fn emitted(s: Seq<Instr>) -> Seq<Prim>
    decreases s.len(),
{
    if s.len() == 0 {
        Seq::empty()
    } else {
        emitted(s.drop_last()) + entry_of(s.last())
    }
}

/// Where a translation stopped: the index of the first unsupported
/// instruction, and the instruction.
pub struct TranslateError {
    pub at: usize,
    pub error: UnsupportedOperator,
}

/// Translates a sequence of instructions through the dispatch table. The
/// first instruction outside the baseline set aborts the whole translation.
pub fn translate(body: &Vec<Instr>) -> (r: Result<Vec<Prim>, TranslateError>)
    ensures
        r is Ok <==> forall|k: int| 0 <= k < body@.len() ==> in_baseline(#[trigger] body@[k]),
        match r {
            Ok(p) => p@ == emitted(body@),
            Err(e) => {
                &&& e.at < body@.len()
                &&& !in_baseline(body@[e.at as int])
                &&& e.error.instr == body@[e.at as int]
                &&& forall|k: int| 0 <= k < e.at ==> in_baseline(#[trigger] body@[k])
            },
        },
{
    let mut out: Vec<Prim> = Vec::new();
    let n = body.len();
    let mut i: usize = 0;
    assert(body@.subrange(0, 0) =~= Seq::<Instr>::empty());
    while i < n
        invariant
            n == body@.len(),
            i <= n,
            out@ == emitted(body@.subrange(0, i as int)),
            forall|k: int| 0 <= k < i ==> in_baseline(#[trigger] body@[k]),
        decreases n - i,
    {
        match lookup(body[i]) {
            Ok(p) => {
                let mut p = p;
                let ghost before = out@;
                out.append(&mut p);
                assert(body@.subrange(0, i + 1).drop_last() =~= body@.subrange(0, i as int));
                assert(out@ =~= before + entry_of(body@[i as int]));
            },
            Err(error) => {
                return Err(TranslateError { at: i, error });
            },
        }
        i += 1;
    }
    assert(body@.subrange(0, n as int) =~= body@);
    Ok(out)
}

} // verus!
