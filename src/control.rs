//! Control-flow structure of a function body: the frame stack that
//! `block`, `loop`, `if`, `else` and `end` build, and the branch depths
//! checked against it.

use vstd::prelude::*;

verus! {

/// A control instruction, or any other instruction (`Op`).
#[derive(PartialEq, Eq, Structural, Clone, Copy)]
pub enum Ctl {
    Block,
    Loop,
    If,
    Else,
    End,
    Br { depth: u32 },
    BrIf { depth: u32 },
    Op,
}

/// The kind of an open frame.
#[derive(PartialEq, Eq, Structural, Clone, Copy)]
pub enum FrameKind {
    Block,
    Loop,
    If,
    /// An `if` whose `else` has been seen.
    IfElse,
}

/// Why a body's structure is rejected.
#[derive(PartialEq, Eq, Structural, Clone, Copy)]
pub enum ControlError {
    /// The branch at `at` reaches past the outermost open frame.
    InvalidBranchTarget { at: usize },
    /// The `end` at `at` closes no frame.
    StrayEnd { at: usize },
    /// The `else` at `at` is not inside an `if` without one.
    StrayElse { at: usize },
    /// The body ends with `open` frames still open.
    MissingEnd { open: usize },
}

/// The frame stack after one instruction, or `None` if it is rejected.
pub open spec fn step(st: Seq<FrameKind>, c: Ctl) -> Option<Seq<FrameKind>> {
    match c {
        Ctl::Block => Some(st.push(FrameKind::Block)),
        Ctl::Loop => Some(st.push(FrameKind::Loop)),
        Ctl::If => Some(st.push(FrameKind::If)),
        Ctl::Else => if st.len() > 0 && st.last() == FrameKind::If {
            Some(st.drop_last().push(FrameKind::IfElse))
        } else {
            None
        },
        Ctl::End => if st.len() > 0 { Some(st.drop_last()) } else { None },
        Ctl::Br { depth } => if depth < st.len() { Some(st) } else { None },
        Ctl::BrIf { depth } => if depth < st.len() { Some(st) } else { None },
        Ctl::Op => Some(st),
    }
}

/// The frame stack after a sequence of instructions, or `None` if one of
/// them is rejected.
pub open spec fn frames(s: Seq<Ctl>) -> Option<Seq<FrameKind>>
    decreases s.len(),
{
    if s.len() == 0 {
        Some(Seq::empty())
    } else {
        match frames(s.drop_last()) {
            Some(st) => step(st, s.last()),
            None => None,
        }
    }
}

/// Whether a body is balanced: every instruction accepted and no frame
/// left open after the last one.
pub open spec fn balanced(s: Seq<Ctl>) -> bool {
    frames(s) == Some(Seq::<FrameKind>::empty())
}

/// The error that an instruction rejected by `step` gives.
pub open spec fn error_at(c: Ctl, at: usize) -> ControlError {
    match c {
        Ctl::End => ControlError::StrayEnd { at },
        Ctl::Else => ControlError::StrayElse { at },
        _ => ControlError::InvalidBranchTarget { at },
    }
}

proof fn lemma_frames_prefix(s: Seq<Ctl>, i: int)
    requires
        0 <= i < s.len(),
    ensures
        frames(s.subrange(0, i + 1)) == match frames(s.subrange(0, i)) {
            Some(st) => step(st, s[i]),
            None => None,
        },
{
    assert(s.subrange(0, i + 1).drop_last() =~= s.subrange(0, i));
}

/// Walks a body's control instructions, keeping the frame stack, and
/// rejects the first instruction that breaks the nesting, or a body that
/// leaves frames open.
pub fn check_nesting(body: &Vec<Ctl>) -> (r: Result<(), ControlError>)
    ensures
        r is Ok <==> balanced(body@),
        match r {
            Ok(()) => true,
            Err(ControlError::MissingEnd { open }) => exists|st: Seq<FrameKind>|
                frames(body@) == Some(st) && st.len() == open && open > 0,
            Err(e) => exists|at: usize| #![trigger body@[at as int]]
                at < body@.len() && frames(body@.subrange(0, at as int)) is Some
                && frames(body@.subrange(0, at + 1)) is None && e == error_at(body@[at as int], at),
        },
{
    let mut stack: Vec<FrameKind> = Vec::new();
    let n = body.len();
    let mut i: usize = 0;
    assert(body@.subrange(0, 0) =~= Seq::<Ctl>::empty());
    while i < n
        invariant
            n == body@.len(),
            i <= n,
            frames(body@.subrange(0, i as int)) == Some(stack@),
        decreases n - i,
    {
        proof {
            lemma_frames_prefix(body@, i as int);
        }
        let c = body[i];
        let ok = match c {
            Ctl::Block => {
                stack.push(FrameKind::Block);
                true
            },
            Ctl::Loop => {
                stack.push(FrameKind::Loop);
                true
            },
            Ctl::If => {
                stack.push(FrameKind::If);
                true
            },
            Ctl::Else => {
                let len = stack.len();
                if len > 0 && stack[len - 1] == FrameKind::If {
                    stack.pop();
                    stack.push(FrameKind::IfElse);
                    true
                } else {
                    false
                }
            },
            Ctl::End => {
                if stack.len() > 0 {
                    stack.pop();
                    true
                } else {
                    false
                }
            },
            Ctl::Br { depth } | Ctl::BrIf { depth } => (depth as usize) < stack.len(),
            Ctl::Op => true,
        };
        if !ok {
            let e = match c {
                Ctl::End => ControlError::StrayEnd { at: i },
                Ctl::Else => ControlError::StrayElse { at: i },
                _ => ControlError::InvalidBranchTarget { at: i },
            };
            proof {
                assert(frames(body@.subrange(0, i + 1)) is None);
                assert(body@ == body@.subrange(0, n as int));
                if i + 1 < n {
                    lemma_none_stays(body@, i + 1);
                }
                assert(!balanced(body@));
            }
            return Err(e);
        }
        assert(frames(body@.subrange(0, i + 1)) == Some(stack@));
        i += 1;
    }
    assert(body@.subrange(0, n as int) =~= body@);
    if stack.len() > 0 {
        return Err(ControlError::MissingEnd { open: stack.len() });
    }
    assert(stack@ =~= Seq::<FrameKind>::empty());
    Ok(())
}

proof fn lemma_none_stays(s: Seq<Ctl>, k: int)
    requires
        0 < k <= s.len(),
        frames(s.subrange(0, k)) is None,
    ensures
        frames(s) is None,
    decreases s.len() - k,
{
    if k < s.len() {
        lemma_frames_prefix(s, k);
        lemma_none_stays(s, k + 1);
    } else {
        assert(s.subrange(0, k) =~= s);
    }
}

} // verus!
