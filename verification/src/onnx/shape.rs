use vstd::prelude::*;

use super::error::OnnxError;
use crate::text::owned;

verus! {

/// The number of elements of a tensor of shape `dims`: the product of the
/// dimensions (1 for no dimension).
pub open spec fn shape_product(dims: Seq<usize>) -> nat
    decreases dims.len(),
{
    if dims.len() == 0 {
        1
    } else {
        shape_product(dims.drop_last()) * dims.last() as nat
    }
}

/// Whether every running product of `dims`, taken from the first dimension
/// on, fits in `usize`.
pub open spec fn shape_products_fit(dims: Seq<usize>) -> bool {
    forall|k: int| 0 <= k <= dims.len() ==> #[trigger] shape_product(dims.take(k)) <= usize::MAX
}

/// A product grows by one factor with each dimension.
pub proof fn lemma_shape_product_push(dims: Seq<usize>, k: int)
    requires
        0 <= k < dims.len(),
    ensures
        shape_product(dims.take(k + 1)) == shape_product(dims.take(k)) * dims[k] as nat,
{
    assert(dims.take(k + 1).drop_last() =~= dims.take(k));
}

/// Checks that `data_len` elements fill a tensor of shape `shape`: on a
/// mismatch the error carries the expected and the actual element count.
pub fn check_tensor_shape(data_len: usize, shape: &Vec<usize>) -> (r: Result<(), OnnxError>)
    requires
        shape_products_fit(shape@),
    ensures
        r is Ok <==> data_len == shape_product(shape@),
        r is Err ==> (r matches Err(OnnxError::InvalidShape { expected, actual }) && expected@
            == seq![shape_product(shape@) as usize] && actual@ == seq![data_len]),
{
    let mut expected: usize = 1;
    let mut i: usize = 0;
    assert(shape@.take(0) =~= Seq::<usize>::empty());
    while i < shape.len()
        invariant
            i <= shape@.len(),
            shape_products_fit(shape@),
            expected == shape_product(shape@.take(i as int)),
        decreases shape.len() - i,
    {
        proof {
            lemma_shape_product_push(shape@, i as int);
            assert(shape_product(shape@.take(i + 1)) <= usize::MAX);
        }
        expected = expected * shape[i];
        i = i + 1;
    }
    assert(shape@.take(shape@.len() as int) =~= shape@);
    if data_len != expected {
        return Err(OnnxError::InvalidShape { expected: vec![expected], actual: vec![data_len] });
    }
    Ok(())
}

/// Checks a model path before loading: it must not be empty.
pub fn check_model_path(path: &str) -> (r: Result<(), OnnxError>)
    ensures
        r is Ok <==> path@.len() > 0,
        r is Err ==> (r matches Err(OnnxError::ModelLoad(m)) && m@ == seq![
            'm', 'o', 'd', 'e', 'l', ' ', 'p', 'a', 't', 'h', ' ', 'c', 'a', 'n', 'n', 'o', 't', ' ',
            'b', 'e', ' ', 'e', 'm', 'p', 't', 'y',
        ]),
{
    if path.is_empty() {
        let m = owned("model path cannot be empty");
        proof {
            reveal_strlit("model path cannot be empty");
        }
        assert(m@ =~= seq![
            'm', 'o', 'd', 'e', 'l', ' ', 'p', 'a', 't', 'h', ' ', 'c', 'a', 'n', 'n', 'o', 't', ' ',
            'b', 'e', ' ', 'e', 'm', 'p', 't', 'y',
        ]);
        return Err(OnnxError::ModelLoad(m));
    }
    Ok(())
}

}
