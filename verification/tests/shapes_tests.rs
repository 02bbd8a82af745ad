use mistralrs_oxide::error::OxideError;
use mistralrs_oxide::ops::shapes::{
    attention_output_dims, check_layer_norm_shapes, check_rms_norm_shapes, check_rotary_shapes, check_softmax_dim,
};

fn message<T>(r: Result<T, OxideError>) -> String {
    match r {
        Err(OxideError::InvalidArgument(m)) => m,
        _ => panic!("expected a refusal"),
    }
}

#[test]
fn attention_result_takes_the_value_width() {
    assert_eq!(attention_output_dims(&[2, 4, 5, 8], &[2, 4, 7, 8], &[2, 4, 7, 16]).unwrap(), vec![2, 4, 5, 16]);
    assert_eq!(
        message(attention_output_dims(&[2, 4, 5, 8], &[2, 7], &[2, 4, 7, 16])),
        "Attention requires 3D+ tensors (batch, seq_len, dim)"
    );
}

#[test]
fn rotary_tables_must_match_half_the_head() {
    assert_eq!(check_rotary_shapes(&[1, 2, 6, 8], &[6, 4], &[6, 4]).unwrap(), (6, 8));
    assert_eq!(message(check_rotary_shapes(&[6, 8], &[6, 4], &[6, 4])), "apply_rotary_emb requires at least 3D tensor");
    assert_eq!(
        message(check_rotary_shapes(&[1, 2, 6, 8], &[6, 8], &[6, 3])),
        "cos shape [6, 8] doesn't match expected [6, 4]"
    );
    assert_eq!(
        message(check_rotary_shapes(&[1, 2, 6, 8], &[6, 4], &[6, 3])),
        "sin shape [6, 3] doesn't match expected [6, 4]"
    );
}

#[test]
fn normalization_parameters_must_match_the_last_dimension() {
    assert_eq!(check_rms_norm_shapes(&[3, 5], &[5]).unwrap(), 5);
    assert_eq!(message(check_rms_norm_shapes(&[], &[5])), "rms_norm requires at least 1D tensor");
    assert_eq!(
        message(check_rms_norm_shapes(&[3, 5], &[1, 5])),
        "rms_norm weight shape [1, 5] doesn't match input last dim 5"
    );
    assert_eq!(check_layer_norm_shapes(&[4], &[4], &[4]).unwrap(), 4);
    assert_eq!(message(check_layer_norm_shapes(&[], &[4], &[4])), "layer_norm requires at least 1D tensor");
    assert_eq!(
        message(check_layer_norm_shapes(&[2, 4], &[3], &[3])),
        "layer_norm weight shape [3] doesn't match input last dim 4"
    );
    assert_eq!(
        message(check_layer_norm_shapes(&[2, 4], &[4], &[])),
        "layer_norm bias shape [] doesn't match input last dim 4"
    );
}

#[test]
fn softmax_dimension_must_be_below_the_rank() {
    assert!(check_softmax_dim(2, 1).is_ok());
    assert_eq!(message(check_softmax_dim(2, 2)), "softmax dim 2 out of range for rank 2");
}
