use tpt_ai_agents::onnx::{check_model_path, check_tensor_shape, dims_text, OnnxError};

#[test]
fn test_from_file_empty_path() {
    assert!(check_model_path("").is_err());
    assert!(check_model_path("model.onnx").is_ok());
    match check_model_path("") {
        Err(OnnxError::ModelLoad(m)) => assert_eq!(m, "model path cannot be empty"),
        _ => panic!("expected a model load error"),
    }
}

#[test]
fn test_from_slice_valid() {
    let data: [f32; 3] = [1.0, 2.0, 3.0];
    assert!(check_tensor_shape(data.len(), &vec![1, 3]).is_ok());
}

#[test]
fn test_from_slice_shape_mismatch() {
    let data: [f32; 2] = [1.0, 2.0];
    let result = check_tensor_shape(data.len(), &vec![1, 3]);
    assert!(result.is_err());
    match result {
        Err(OnnxError::InvalidShape { expected, actual }) => {
            assert_eq!(expected, vec![3]);
            assert_eq!(actual, vec![2]);
        }
        _ => panic!("expected an invalid shape error"),
    }
}

#[test]
fn test_empty_tensor() {
    assert!(check_tensor_shape(0, &vec![0]).is_ok());
    assert!(check_tensor_shape(1, &vec![]).is_ok());
    assert!(check_tensor_shape(0, &vec![]).is_err());
}

#[test]
fn onnx_error_messages() {
    let e = OnnxError::InvalidShape { expected: vec![1, 3], actual: vec![2] };
    assert_eq!(e.message(), "invalid shape: expected [1, 3], got [2]");
    assert_eq!(OnnxError::ModelLoad("x".into()).message(), "model load error: x");
    assert_eq!(OnnxError::Inference("x".into()).message(), "inference error: x");
    assert_eq!(OnnxError::TypeMismatch("x".into()).message(), "type mismatch: x");
    assert_eq!(dims_text(&vec![]), "[]");
}
