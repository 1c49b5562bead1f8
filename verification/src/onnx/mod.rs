//! Shape and path checks of the ONNX inference wrappers: a tensor's data
//! must hold exactly as many elements as its shape describes, and a model
//! needs a path.
mod error;
mod shape;

pub use error::{dims_list, dims_text, OnnxError};
pub use shape::{
    check_model_path, check_tensor_shape, lemma_shape_product_push, shape_product, shape_products_fit,
};
