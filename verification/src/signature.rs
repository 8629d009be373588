//! Signature extraction and comparison.
//!
//! `extract` projects a signal's ordered parameter list into one composite
//! signature string; a signal with no parameters yields the empty signature,
//! the defined "no parameters" signature value (a value, never an absent
//! one).  `compare` decides exact token-sequence equality after dropping
//! insignificant whitespace; no coercion between structurally different
//! signatures is performed.

use crate::grammar::lemma_single_type_prefix_free;
use crate::model::{ParameterView, Signal, SignalView};
use crate::text::{is_ws_char, ws_char};
use vstd::prelude::*;
use vstd::string::{StrSliceExecFns, StringExecFns};

verus! {

/// The composite signature of an ordered parameter list: the concatenation
/// of the parameters' type tokens in declared order.
pub open spec fn params_signature(params: Seq<ParameterView>) -> Seq<char>
    decreases params.len(),
{
    if params.len() == 0 {
        Seq::empty()
    } else {
        params_signature(params.drop_last()) + params.last().type_signature
    }
}

/// What `extract` returns for a signal.
pub open spec fn extract_spec(signal: SignalView) -> Seq<char> {
    params_signature(signal.parameters)
}

/// Concatenates the signal's parameter type tokens, in declared order, into
/// the signal's composite signature.  Zero parameters yield the empty
/// signature.  Pure and total.
pub fn extract(signal: &Signal) -> (r: String)
    ensures
        r@ == extract_spec(signal@),
{
    let ghost params = signal@.parameters;
    let mut r = String::new();
    let n = signal.parameters.len();
    let mut idx: usize = 0;
    while idx < n
        invariant
            n == signal.parameters.len(),
            idx <= n,
            params == signal@.parameters,
            r@ == params_signature(params.take(idx as int)),
        decreases n - idx,
    {
        r.append(signal.parameters[idx].type_signature.as_str());
        proof {
            assert(params.take(idx + 1).drop_last() =~= params.take(idx as int));
            assert(params.take(idx + 1).last() == params[idx as int]);
            assert(params[idx as int] == signal.parameters@[idx as int]@);
        }
        idx = idx + 1;
    }
    proof {
        assert(params.take(n as int) =~= params);
    }
    r
}

/// The normalization applied before comparison: every insignificant
/// whitespace character is dropped; everything else is kept in order.
pub open spec fn normalize_spec(s: Seq<char>) -> Seq<char> {
    s.filter(|c: char| !is_ws_char(c))
}

/// Strips insignificant whitespace from a signature.
pub fn normalize(s: &str) -> (r: String)
    ensures
        r@ == normalize_spec(s@),
{
    let n = s.unicode_len();
    let mut r = String::new();
    let mut i: usize = 0;
    proof {
        reveal(Seq::filter);
        assert(s@.take(0).len() == 0);
    }
    while i < n
        invariant
            n == s@.len(),
            i <= n,
            r@ == normalize_spec(s@.take(i as int)),
        decreases n - i,
    {
        let c = s.get_char(i);
        if !ws_char(c) {
            r.append(s.substring_char(i, i + 1));
            proof {
                assert(s@.subrange(i as int, i + 1) =~= seq![s@[i as int]]);
            }
        }
        proof {
            reveal(Seq::filter);
            let t = s@.take(i + 1);
            assert(t.drop_last() =~= s@.take(i as int));
            assert(t.last() == s@[i as int]);
            if !is_ws_char(s@[i as int]) {
                assert(r@ == normalize_spec(s@.take(i as int)).push(s@[i as int]));
            }
        }
        i = i + 1;
    }
    proof {
        assert(s@.take(n as int) =~= s@);
    }
    r
}

/// A failed comparison: both signatures, verbatim as supplied.
#[derive(Debug)]
pub struct MismatchError {
    pub expected: String,
    pub actual: String,
}

pub struct MismatchErrorView {
    pub expected: Seq<char>,
    pub actual: Seq<char>,
}

impl View for MismatchError {
    type V = MismatchErrorView;

    open spec fn view(&self) -> MismatchErrorView {
        MismatchErrorView { expected: self.expected@, actual: self.actual@ }
    }
}

/// Compares two signatures for exact token-sequence equality after
/// normalization; on mismatch the error carries both inputs verbatim.
pub fn compare(expected: &str, actual: &str) -> (r: Result<(), MismatchError>)
    ensures
        r is Ok <==> normalize_spec(expected@) == normalize_spec(actual@),
        r is Err ==> r->Err_0@.expected == expected@ && r->Err_0@.actual == actual@,
{
    let ne = normalize(expected);
    let na = normalize(actual);
    if ne == na {
        Ok(())
    } else {
        Err(
            MismatchError {
                expected: String::from_str(expected),
                actual: String::from_str(actual),
            },
        )
    }
}

/// Extraction is order-preserving: two well-formed signals whose two
/// parameters appear in swapped order have equal signatures only when the
/// two parameter tokens are the same token.
pub proof fn lemma_extract_order_preserving(s1: SignalView, s2: SignalView)
    requires
        s1.wf(),
        s2.wf(),
        s1.parameters.len() == 2,
        s2.parameters.len() == 2,
        s2.parameters[0] == s1.parameters[1],
        s2.parameters[1] == s1.parameters[0],
    ensures
        extract_spec(s1) == extract_spec(s2) <==> s1.parameters[0].type_signature
            == s1.parameters[1].type_signature,
{
    let x = s1.parameters[0].type_signature;
    let y = s1.parameters[1].type_signature;
    lemma_pair_signature(s1.parameters);
    lemma_pair_signature(s2.parameters);
    if x == y {
        assert(x + y =~= y + x);
    }
    if extract_spec(s1) == extract_spec(s2) {
        assert(x + y == y + x);
        assert(s1.parameters[0].wf() && s1.parameters[1].wf());
        if x.len() <= y.len() {
            assert forall|j: int| 0 <= j < x.len() implies y.take(x.len() as int)[j] == x[j] by {
                assert((x + y)[j] == x[j]);
                assert((y + x)[j] == y[j]);
            }
            assert(x =~= y.take(x.len() as int));
            lemma_single_type_prefix_free(x, y);
        } else {
            assert forall|j: int| 0 <= j < y.len() implies x.take(y.len() as int)[j] == y[j] by {
                assert((y + x)[j] == y[j]);
                assert((x + y)[j] == x[j]);
            }
            assert(y =~= x.take(y.len() as int));
            lemma_single_type_prefix_free(y, x);
        }
    }
}


proof fn lemma_pair_signature(params: Seq<ParameterView>)
    requires
        params.len() == 2,
    ensures
        params_signature(params) == params[0].type_signature + params[1].type_signature,
{
    assert(params.drop_last().drop_last() =~= Seq::<ParameterView>::empty());
    assert(params.drop_last() =~= seq![params[0]]);
    assert(params_signature(Seq::<ParameterView>::empty()) =~= Seq::<char>::empty());
    assert(params_signature(params.drop_last()) =~= Seq::<char>::empty()
        + params[0].type_signature);
    assert(params_signature(params) =~= (Seq::<char>::empty() + params[0].type_signature)
        + params[1].type_signature);
    assert((Seq::<char>::empty() + params[0].type_signature) + params[1].type_signature
        =~= params[0].type_signature + params[1].type_signature);
}

/// A signal with no parameters never shares a signature with a well-formed
/// signal that has at least one parameter.
pub proof fn lemma_empty_signature_distinct(s1: SignalView, s2: SignalView)
    requires
        s1.wf(),
        s2.wf(),
        s1.parameters.len() == 0,
        s2.parameters.len() > 0,
    ensures
        extract_spec(s1) != extract_spec(s2),
{
    assert(extract_spec(s1).len() == 0);
    assert(s2.parameters.last().wf());
    assert(s2.parameters.last().type_signature.len() > 0);
    assert(extract_spec(s2).len() >= s2.parameters.last().type_signature.len());
}

} // verus!
