//! Canonical function signatures and their 4-byte selectors.

use sha3::{Digest, Keccak256};
use vstd::prelude::*;
use vstd::utf8::encode_utf8;

verus! {

/// The Keccak-256 digest of a byte string.
pub uninterp spec fn keccak_of(input: Seq<u8>) -> Seq<u8>;

/// Relies on sha3's `Keccak256` (`new`, `update`, `finalize`): the 32-byte
/// digest of `input`, which depends on the bytes alone.
#[verifier::external_body]
pub fn keccak256(input: &[u8]) -> (r: [u8; 32])
    ensures
        r@ == keccak_of(input@),
{
    let mut hasher = Keccak256::new();
    hasher.update(input);
    hasher.finalize().into()
}

/// Relies on `String::push_str`: appends `t` to `s`.
#[verifier::external_body]
fn push_str(s: &mut String, t: &str)
    ensures
        final(s)@ == old(s)@ + t@,
{
    s.push_str(t);
}

/// The selector of a byte string: the first four bytes of its digest.
pub open spec fn selector_of(bytes: Seq<u8>) -> Seq<u8> {
    keccak_of(bytes).subrange(0, 4)
}

/// Parse selector from bytes: the first four bytes of their digest.
pub fn parse(bytes: &[u8]) -> (r: [u8; 4])
    ensures
        r@ == selector_of(bytes@),
        r@.len() == 4,
{
    let h = keccak256(bytes);
    proof {
        vstd::array::array_len_matches_n(&h);
    }
    let r = [h[0], h[1], h[2], h[3]];
    assert(r@ =~= keccak_of(bytes@).subrange(0, 4));
    r
}

/// One parameter of an exported function.
pub struct Input {
    pub name: String,
    pub ty: String,
}

/// An exported function: its name and its ordered parameters.
pub struct Abi {
    pub name: String,
    pub inputs: Vec<Input>,
}

/// The type names of a parameter list, in order.
pub open spec fn types_of(inputs: Seq<Input>) -> Seq<Seq<char>> {
    inputs.map_values(|p: Input| p.ty@)
}

/// Type names joined with `,`.
pub open spec fn join_types(tys: Seq<Seq<char>>) -> Seq<char>
    decreases tys.len(),
{
    if tys.len() == 0 {
        Seq::empty()
    } else if tys.len() == 1 {
        tys[0]
    } else {
        join_types(tys.drop_last()) + seq![','] + tys.last()
    }
}

/// `name(t1,t2,...,tn)`.
pub open spec fn signature_of(name: Seq<char>, tys: Seq<Seq<char>>) -> Seq<char> {
    name + seq!['('] + join_types(tys) + seq![')']
}

/// The number of commas in a string.
pub open spec fn comma_count(s: Seq<char>) -> nat
    decreases s.len(),
{
    if s.len() == 0 {
        0
    } else {
        comma_count(s.drop_last()) + if s.last() == ',' { 1nat } else { 0nat }
    }
}

proof fn lemma_comma_count_concat(a: Seq<char>, b: Seq<char>)
    ensures
        comma_count(a + b) == comma_count(a) + comma_count(b),
    decreases b.len(),
{
    if b.len() > 0 {
        assert((a + b).drop_last() =~= a + b.drop_last());
        lemma_comma_count_concat(a, b.drop_last());
    } else {
        assert(a + b =~= a);
    }
}

/// Two descriptors with the same name and the same parameter types, in the
/// same order, have the same signature and the same selector.
pub proof fn selector_is_determined(a: Abi, b: Abi)
    requires
        a.name@ == b.name@,
        types_of(a.inputs@) == types_of(b.inputs@),
    ensures
        a.signature_spec() == b.signature_spec(),
        a.selector_spec() == b.selector_spec(),
{
}

/// A signature is the name, `(`, the types separated by commas, and `)`:
/// with no parameters it is `name()`, and when no type name holds a comma,
/// `n` parameters give exactly `n - 1` commas between the parentheses.
pub proof fn signature_shape(name: Seq<char>, tys: Seq<Seq<char>>)
    requires
        forall|i: int| 0 <= i < tys.len() ==> comma_count(#[trigger] tys[i]) == 0,
    ensures
        signature_of(name, tys) == name + seq!['('] + join_types(tys) + seq![')'],
        tys.len() == 0 ==> signature_of(name, tys) == name + seq!['(', ')'],
        tys.len() > 0 ==> comma_count(join_types(tys)) == tys.len() - 1,
    decreases tys.len(),
{
    if tys.len() == 0 {
        assert(name + seq!['('] + Seq::<char>::empty() + seq![')'] =~= name + seq!['(', ')']);
    } else if tys.len() > 1 {
        signature_shape(name, tys.drop_last());
        lemma_comma_count_concat(join_types(tys.drop_last()), seq![',']);
        lemma_comma_count_concat(join_types(tys.drop_last()) + seq![','], tys.last());
        let c = seq![','];
        assert(c.drop_last() =~= Seq::<char>::empty());
        assert(c.last() == ',');
        assert(comma_count(Seq::<char>::empty()) == 0);
        assert(comma_count(c) == 1);
    }
}

impl Abi {
    /// The canonical signature of this function.
    pub open spec fn signature_spec(&self) -> Seq<char> {
        signature_of(self.name@, types_of(self.inputs@))
    }

    /// The selector of this function's signature.
    pub open spec fn selector_spec(&self) -> Seq<u8> {
        selector_of(encode_utf8(self.signature_spec()))
    }

    /// Get function signature.
    pub fn signature(&self) -> (r: String)
        ensures
            r@ == self.signature_spec(),
    {
        let mut s = self.name.clone();
        proof {
            reveal_strlit("(");
            reveal_strlit(",");
            reveal_strlit(")");
        }
        push_str(&mut s, "(");
        let n = self.inputs.len();
        let mut i: usize = 0;
        while i < n
            invariant
                i <= n,
                n == self.inputs@.len(),
                s@ == self.name@ + seq!['('] + join_types(types_of(self.inputs@.subrange(0, i as int))),
            decreases n - i,
        {
            let ghost before = types_of(self.inputs@.subrange(0, i as int));
            let ghost after = types_of(self.inputs@.subrange(0, i + 1));
            assert(after.drop_last() =~= before);
            assert(after.len() == i + 1);
            assert(after.last() == self.inputs@[i as int].ty@);
            assert(i == 0 ==> join_types(after) == after[0]);
            assert(i > 0 ==> join_types(after) == join_types(before) + seq![','] + after.last());
            let ghost s0 = s@;
            if i > 0 {
                let comma = ",";
                proof {
                    reveal_strlit(",");
                    assert(comma@ =~= seq![',']);
                }
                push_str(&mut s, comma);
            }
            let t = self.inputs[i].ty.as_str();
            assert(t@ == after.last());
            push_str(&mut s, t);
            assert(s@ =~= self.name@ + seq!['('] + join_types(after));
            i += 1;
        }
        assert(self.inputs@.subrange(0, n as int) =~= self.inputs@);
        push_str(&mut s, ")");
        s
    }

    /// Get function selector.
    pub fn selector(&self) -> (r: [u8; 4])
        ensures
            r@ == self.selector_spec(),
            r@.len() == 4,
    {
        let sig = self.signature();
        parse(sig.as_str().as_bytes())
    }
}

} // verus!
