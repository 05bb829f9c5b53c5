//! What each tensor operation asks of the GPU: the pipeline, its uniform,
//! the output buffer and the dispatch geometry.

pub mod dispatch;
pub mod scalar;
pub mod unary;
pub mod binary;
pub mod unary_code;
pub mod erf_code;
pub mod erf_formulas;
pub mod formulas;
pub mod reduce;
pub mod copy;
pub mod rope;
pub mod matmul;
pub mod affine;
pub mod cast;
pub mod elementwise;
pub mod shader;
pub mod softmax;
pub mod products;
pub mod index_select;
