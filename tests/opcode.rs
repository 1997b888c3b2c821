use zink_abi::control::{check_nesting, ControlError, Ctl};
use zink_abi::opcode::{lookup, translate, Family, Instr, MemArg, NumType, Prim};

fn ins(family: Family, ty: NumType, signed: bool) -> Instr {
    Instr { family, ty, signed, mem: MemArg { offset: 16, align: 2 }, value: -7 }
}

#[test]
fn sign_agnostic_ops_map_identically() {
    for s in [false, true] {
        assert!(lookup(ins(Family::Add, NumType::I32, s)).ok() == Some(vec![Prim::Add]));
        assert!(lookup(ins(Family::Ne, NumType::I64, s)).ok() == Some(vec![Prim::Eq, Prim::IsZero]));
    }
}

#[test]
fn signed_ops_have_distinct_primitives() {
    assert!(lookup(ins(Family::Div, NumType::I32, true)).ok() == Some(vec![Prim::SDiv]));
    assert!(lookup(ins(Family::Div, NumType::I32, false)).ok() == Some(vec![Prim::Div]));
    assert!(lookup(ins(Family::Ge, NumType::I64, true)).ok() == Some(vec![Prim::SLt, Prim::IsZero]));
    assert!(lookup(ins(Family::Shr, NumType::I64, true)).ok() == Some(vec![Prim::Sar]));
    assert!(lookup(ins(Family::Lt, NumType::F64, false)).ok() == Some(vec![Prim::Lt]));
}

#[test]
fn memory_argument_is_passed_on() {
    let m = MemArg { offset: 16, align: 2 };
    assert!(lookup(ins(Family::Store32, NumType::I64, false)).ok() == Some(vec![Prim::MStore { width: 4, mem: m }]));
    assert!(lookup(ins(Family::Load, NumType::F64, false)).ok() == Some(vec![Prim::MLoad { width: 8, mem: m }]));
    assert!(lookup(ins(Family::Const, NumType::I32, false)).ok() == Some(vec![Prim::Push { value: -7 }]));
}

#[test]
fn instructions_outside_baseline_are_unsupported() {
    for i in [
        ins(Family::Store32, NumType::I32, false),
        ins(Family::Load32, NumType::I32, true),
        ins(Family::Rem, NumType::F32, false),
        ins(Family::Add, NumType::F64, true),
    ] {
        match lookup(i) {
            Err(e) => assert!(e.instr == i),
            Ok(_) => panic!("expected an unsupported operator"),
        }
    }
}

#[test]
fn balanced_body_is_accepted() {
    let body = vec![Ctl::Block, Ctl::If, Ctl::Op, Ctl::Else, Ctl::Br { depth: 1 }, Ctl::End, Ctl::Loop, Ctl::BrIf { depth: 0 }, Ctl::End, Ctl::End];
    assert!(check_nesting(&body) == Ok(()));
    assert!(check_nesting(&vec![]) == Ok(()));
}

#[test]
fn unbalanced_body_is_rejected() {
    assert!(check_nesting(&vec![Ctl::Block, Ctl::End, Ctl::End]) == Err(ControlError::StrayEnd { at: 2 }));
    assert!(check_nesting(&vec![Ctl::Loop, Ctl::Block, Ctl::End]) == Err(ControlError::MissingEnd { open: 1 }));
    assert!(check_nesting(&vec![Ctl::Block, Ctl::Br { depth: 1 }, Ctl::End]) == Err(ControlError::InvalidBranchTarget { at: 1 }));
    assert!(check_nesting(&vec![Ctl::Block, Ctl::Else, Ctl::End]) == Err(ControlError::StrayElse { at: 1 }));
    assert!(check_nesting(&vec![Ctl::If, Ctl::Else, Ctl::Else, Ctl::End]) == Err(ControlError::StrayElse { at: 2 }));
}

#[test]
fn translate_concatenates_entries() {
    let body = vec![
        ins(Family::Const, NumType::I32, false),
        ins(Family::Const, NumType::I32, false),
        ins(Family::Le, NumType::I32, false),
    ];
    match translate(&body) {
        Ok(p) => assert!(p == vec![Prim::Push { value: -7 }, Prim::Push { value: -7 }, Prim::Gt, Prim::IsZero]),
        Err(_) => panic!("baseline body must translate"),
    }
    assert!(translate(&vec![]).ok() == Some(vec![]));
}

#[test]
fn translate_stops_at_first_unsupported() {
    let bad = ins(Family::Xor, NumType::F32, false);
    let body = vec![ins(Family::Add, NumType::I64, false), bad, ins(Family::Store32, NumType::I32, false)];
    match translate(&body) {
        Err(e) => {
            assert_eq!(e.at, 1);
            assert!(e.error.instr == bad);
        }
        Ok(_) => panic!("expected an unsupported operator"),
    }
}
