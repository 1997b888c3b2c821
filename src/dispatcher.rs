//! The selector-based dispatcher: one comparison per exported function, in
//! declaration order, followed by a fallback.

use crate::selector::Abi;
use vstd::prelude::*;

verus! {

/// One step of the dispatcher.
pub enum DispatchOp {
    /// Jump to function `target` when the call's selector equals `selector`.
    Compare { selector: [u8; 4], target: usize },
    /// Revert: no selector matched.
    Fallback,
}

/// Why a dispatcher could not be built.
pub enum DispatchError {
    /// Functions `first` and `second` (`first < second`) share a selector.
    SelectorCollision { first: usize, second: usize },
}

/// No two keys are equal.
pub open spec fn distinct_keys(keys: Seq<Seq<u8>>) -> bool {
    forall|i: int, j: int| 0 <= i < j < keys.len() ==> keys[i] != keys[j]
}

/// The views of a list of selectors.
pub open spec fn keys_of(sels: Seq<[u8; 4]>) -> Seq<Seq<u8>> {
    sels.map_values(|s: [u8; 4]| s@)
}

/// The selectors of a list of exported functions.
pub open spec fn abi_keys(abis: Seq<Abi>) -> Seq<Seq<u8>> {
    abis.map_values(|a: Abi| a.selector_spec())
}

/// `ops` compares against `keys` in order, jumping to the matching index,
/// and ends in a single fallback.
pub open spec fn is_plan_for(keys: Seq<Seq<u8>>, ops: Seq<DispatchOp>) -> bool {
    &&& ops.len() == keys.len() + 1
    &&& forall|i: int| 0 <= i < keys.len() ==> (match #[trigger] ops[i] {
        DispatchOp::Compare { selector, target } => selector@ == keys[i] && target == i,
        DispatchOp::Fallback => false,
    })
    &&& ops.last() is Fallback
}

/// The plan, or the collision that prevents it.
pub open spec fn plan_result(keys: Seq<Seq<u8>>, r: Result<Vec<DispatchOp>, DispatchError>) -> bool {
    match r {
        Ok(ops) => distinct_keys(keys) && is_plan_for(keys, ops@),
        Err(DispatchError::SelectorCollision { first, second }) => {
            &&& !distinct_keys(keys)
            &&& first < second < keys.len()
            &&& keys[first as int] == keys[second as int]
            &&& forall|i: int, j: int|
                0 <= i < j < keys.len() && keys[i] == keys[j] ==> (i > first || (i == first && j >= second))
        },
    }
}

fn same_selector(a: &[u8; 4], b: &[u8; 4]) -> (r: bool)
    ensures
        r == (a@ == b@),
{
    proof {
        vstd::array::array_len_matches_n(a);
        vstd::array::array_len_matches_n(b);
    }
    let r = a[0] == b[0] && a[1] == b[1] && a[2] == b[2] && a[3] == b[3];
    if r {
        assert(a@ =~= b@);
    }
    r
}

/// Builds the dispatcher for functions with the given selectors, in order;
/// fails on the first colliding pair before emitting anything.
pub fn plan_dispatch(sels: &Vec<[u8; 4]>) -> (r: Result<Vec<DispatchOp>, DispatchError>)
    ensures
        plan_result(keys_of(sels@), r),
{
    let ghost keys = keys_of(sels@);
    let n = sels.len();
    let mut i: usize = 0;
    while i < n
        invariant
            n == sels@.len(),
            keys == keys_of(sels@),
            i <= n,
            forall|a: int, b: int| 0 <= a < i && a < b < n ==> keys[a] != keys[b],
        decreases n - i,
    {
        let mut j: usize = i + 1;
        while j < n
            invariant
                n == sels@.len(),
                keys == keys_of(sels@),
                i < n,
                i + 1 <= j <= n,
                forall|a: int, b: int| 0 <= a < i && a < b < n ==> keys[a] != keys[b],
                forall|b: int| i < b < j ==> keys[i as int] != keys[b],
            decreases n - j,
        {
            if same_selector(&sels[i], &sels[j]) {
                assert(keys[i as int] == sels@[i as int]@);
                assert(keys[j as int] == sels@[j as int]@);
                return Err(DispatchError::SelectorCollision { first: i, second: j });
            }
            j += 1;
        }
        i += 1;
    }
    let mut ops: Vec<DispatchOp> = Vec::new();
    let mut k: usize = 0;
    while k < n
        invariant
            n == sels@.len(),
            keys == keys_of(sels@),
            k <= n,
            ops@.len() == k,
            forall|a: int| 0 <= a < k ==> (match #[trigger] ops@[a] {
                DispatchOp::Compare { selector, target } => selector@ == keys[a] && target == a,
                DispatchOp::Fallback => false,
            }),
        decreases n - k,
    {
        ops.push(DispatchOp::Compare { selector: sels[k], target: k });
        k += 1;
    }
    ops.push(DispatchOp::Fallback);
    Ok(ops)
}

/// Builds the dispatcher for an export table, in declaration order.
pub fn build_dispatcher(abis: &Vec<Abi>) -> (r: Result<Vec<DispatchOp>, DispatchError>)
    ensures
        plan_result(abi_keys(abis@), r),
{
    let mut sels: Vec<[u8; 4]> = Vec::new();
    let mut i: usize = 0;
    while i < abis.len()
        invariant
            i <= abis@.len(),
            sels@.len() == i,
            forall|a: int| 0 <= a < i ==> #[trigger] sels@[a]@ == abis@[a].selector_spec(),
        decreases abis@.len() - i,
    {
        sels.push(abis[i].selector());
        i += 1;
    }
    assert(keys_of(sels@) =~= abi_keys(abis@));
    plan_dispatch(&sels)
}

/// The key that call data selects: its leading four bytes.
pub open spec fn call_key(data: Seq<u8>) -> Seq<u8> {
    data.subrange(0, 4)
}

/// Whether step `op` matches the key.
pub open spec fn op_matches(op: DispatchOp, key: Seq<u8>) -> bool {
    match op {
        DispatchOp::Compare { selector, target } => selector@ == key,
        DispatchOp::Fallback => false,
    }
}

/// Step `i` is the first that matches the key.
pub open spec fn is_first_match(ops: Seq<DispatchOp>, key: Seq<u8>, i: int) -> bool {
    &&& 0 <= i < ops.len()
    &&& op_matches(ops[i], key)
    &&& forall|k: int| 0 <= k < i ==> !op_matches(#[trigger] ops[k], key)
}

/// The function that a dispatcher routes call data to: the target of the
/// first matching comparison, or `None` for the fallback.
pub open spec fn route_spec(ops: Seq<DispatchOp>, data: Seq<u8>) -> Option<usize> {
    if data.len() < 4 || !(exists|i: int| is_first_match(ops, call_key(data), i)) {
        None
    } else {
        let i = choose|i: int| is_first_match(ops, call_key(data), i);
        match ops[i] {
            DispatchOp::Compare { selector, target } => Some(target),
            DispatchOp::Fallback => None,
        }
    }
}

/// A dispatcher built from distinct selectors routes call data whose leading
/// four bytes are the selector of function `k` to function `k` and no other.
pub proof fn plan_routes_to_selected(keys: Seq<Seq<u8>>, ops: Seq<DispatchOp>, data: Seq<u8>, k: int)
    requires
        distinct_keys(keys),
        is_plan_for(keys, ops),
        0 <= k < keys.len(),
        data.len() >= 4,
        call_key(data) == keys[k],
    ensures
        route_spec(ops, data) == Some(k as usize),
{
    let key = call_key(data);
    assert(op_matches(ops[k], key));
    assert forall|j: int| 0 <= j < k implies !op_matches(#[trigger] ops[j], key) by {
        assert(keys[j] != keys[k]);
    }
    assert(is_first_match(ops, key, k));
    let w = choose|w: int| is_first_match(ops, key, w);
    assert(w == k) by {
        if w < k {
            assert(!op_matches(ops[w], key));
        } else if w > k {
            assert(!op_matches(ops[k], key));
        }
    }
}

/// A dispatcher built from a list of selectors sends call data that matches
/// none of them to the fallback.
pub proof fn plan_falls_back(keys: Seq<Seq<u8>>, ops: Seq<DispatchOp>, data: Seq<u8>)
    requires
        is_plan_for(keys, ops),
        forall|i: int| 0 <= i < keys.len() ==> keys[i] != call_key(data),
    ensures
        route_spec(ops, data) is None,
{
    assert forall|w: int| !is_first_match(ops, call_key(data), w) by {
        if 0 <= w < keys.len() {
            assert(keys[w] != call_key(data));
        }
    }
}

/// Runs a dispatcher on call data.
pub fn route(ops: &Vec<DispatchOp>, data: &[u8]) -> (r: Option<usize>)
    ensures
        r == route_spec(ops@, data@),
{
    if data.len() < 4 {
        return None;
    }
    let key = [data[0], data[1], data[2], data[3]];
    assert(key@ =~= call_key(data@));
    let mut i: usize = 0;
    while i < ops.len()
        invariant
            key@ == call_key(data@),
            data@.len() >= 4,
            i <= ops@.len(),
            forall|k: int| 0 <= k < i ==> !op_matches(#[trigger] ops@[k], call_key(data@)),
        decreases ops@.len() - i,
    {
        match &ops[i] {
            DispatchOp::Compare { selector, target } => {
                if same_selector(selector, &key) {
                    let ghost key_s = call_key(data@);
                    assert(is_first_match(ops@, key_s, i as int));
                    let ghost w = choose|w: int| is_first_match(ops@, call_key(data@), w);
                    assert(w == i) by {
                        if w < i {
                            assert(!op_matches(ops@[w], key_s));
                        } else if w > i {
                            assert(!op_matches(ops@[i as int], key_s));
                        }
                    }
                    assert(ops@[i as int] == (DispatchOp::Compare { selector: *selector, target: *target }));
                    return Some(*target);
                }
            },
            DispatchOp::Fallback => {},
        }
        i += 1;
    }
    assert forall|w: int| !is_first_match(ops@, call_key(data@), w) by {
        if 0 <= w < ops@.len() {
            assert(!op_matches(ops@[w], call_key(data@)));
        }
    }
    None
}

} // verus!
