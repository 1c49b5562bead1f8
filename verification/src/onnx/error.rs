use vstd::prelude::*;

use crate::text::{decimal, decimal_spec, owned};

verus! {

/// Errors of the ONNX inference wrappers.
#[derive(Debug)]
pub enum OnnxError {
    /// Model loading error.
    ModelLoad(String),
    /// Inference error.
    Inference(String),
    /// Invalid tensor shape.
    InvalidShape { expected: Vec<usize>, actual: Vec<usize> },
    /// Type mismatch.
    TypeMismatch(String),
}

/// The text of the numbers `dims[..k]`, separated by `, `.
pub open spec fn dims_list(dims: Seq<usize>) -> Seq<char>
    decreases dims.len(),
{
    if dims.len() == 0 {
        Seq::empty()
    } else if dims.len() == 1 {
        decimal_spec(dims[0] as nat)
    } else {
        dims_list(dims.drop_last()) + seq![',', ' '] + decimal_spec(dims.last() as nat)
    }
}

/// A list of dimensions as `Debug` prints it: `[1, 3]`.
pub fn dims_text(dims: &Vec<usize>) -> (r: String)
    ensures
        r@ == seq!['['] + dims_list(dims@) + seq![']'],
{
    let mut r = owned("[");
    proof {
        reveal_strlit("[");
        reveal_strlit(", ");
        reveal_strlit("]");
        assert(dims@.take(0) =~= Seq::<usize>::empty());
    }
    let mut i: usize = 0;
    while i < dims.len()
        invariant
            i <= dims@.len(),
            r@ == seq!['['] + dims_list(dims@.take(i as int)),
        decreases dims.len() - i,
    {
        let ghost before = r@;
        if i > 0 {
            r.append(", ");
            proof {
                reveal_strlit(", ");
            }
        }
        let ghost mid = r@;
        let d = decimal(dims[i] as u64);
        r.append(d.as_str());
        assert(r@ == mid + decimal_spec(dims@[i as int] as nat));
        proof {
            let t = dims@.take(i + 1);
            assert(t.drop_last() =~= dims@.take(i as int));
            assert(t.last() == dims@[i as int]);
            if i == 0 {
                assert(r@ =~= seq!['['] + dims_list(t));
            } else {
                assert(dims_list(t) == dims_list(dims@.take(i as int)) + seq![',', ' ']
                    + decimal_spec(dims@[i as int] as nat));
                assert(mid == before + seq![',', ' ']);
                assert(r@ =~= seq!['['] + dims_list(t));
            }
        }
        i = i + 1;
    }
    r.append("]");
    assert(dims@.take(dims@.len() as int) =~= dims@);
    r
}

impl OnnxError {
    /// The message that describes this error.
    pub fn message(&self) -> (r: String)
        ensures
            match self {
                OnnxError::ModelLoad(m) => r@ == seq![
                    'm', 'o', 'd', 'e', 'l', ' ', 'l', 'o', 'a', 'd', ' ', 'e', 'r', 'r', 'o', 'r', ':',
                    ' ',
                ] + m@,
                OnnxError::Inference(m) => r@ == seq![
                    'i', 'n', 'f', 'e', 'r', 'e', 'n', 'c', 'e', ' ', 'e', 'r', 'r', 'o', 'r', ':', ' ',
                ] + m@,
                OnnxError::InvalidShape { expected, actual } => r@ == seq![
                    'i', 'n', 'v', 'a', 'l', 'i', 'd', ' ', 's', 'h', 'a', 'p', 'e', ':', ' ', 'e', 'x',
                    'p', 'e', 'c', 't', 'e', 'd', ' ', '[',
                ] + dims_list(expected@) + seq![']', ',', ' ', 'g', 'o', 't', ' ', '['] + dims_list(
                    actual@,
                ) + seq![']'],
                OnnxError::TypeMismatch(m) => r@ == seq![
                    't', 'y', 'p', 'e', ' ', 'm', 'i', 's', 'm', 'a', 't', 'c', 'h', ':', ' ',
                ] + m@,
            },
    {
        proof {
            reveal_strlit("model load error: ");
            reveal_strlit("inference error: ");
            reveal_strlit("invalid shape: expected ");
            reveal_strlit(", got ");
            reveal_strlit("type mismatch: ");
        }
        match self {
            OnnxError::ModelLoad(m) => {
                let mut r = owned("model load error: ");
                r.append(m.as_str());
                r
            },
            OnnxError::Inference(m) => {
                let mut r = owned("inference error: ");
                r.append(m.as_str());
                r
            },
            OnnxError::InvalidShape { expected, actual } => {
                let mut r = owned("invalid shape: expected ");
                r.append(dims_text(expected).as_str());
                r.append(", got ");
                r.append(dims_text(actual).as_str());
                assert(r@ =~= seq![
                    'i', 'n', 'v', 'a', 'l', 'i', 'd', ' ', 's', 'h', 'a', 'p', 'e', ':', ' ', 'e', 'x',
                    'p', 'e', 'c', 't', 'e', 'd', ' ', '[',
                ] + dims_list(expected@) + seq![']', ',', ' ', 'g', 'o', 't', ' ', '['] + dims_list(
                    actual@,
                ) + seq![']']);
                r
            },
            OnnxError::TypeMismatch(m) => {
                let mut r = owned("type mismatch: ");
                r.append(m.as_str());
                r
            },
        }
    }
}

}
