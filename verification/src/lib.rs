//! DeepSeek2 attention over GGUF tensors: planning which tensors of a manifest go where, and a
//! reference evaluation of one attention layer.

pub mod arithmetic;
pub mod arithmetic_laws;
pub mod attention;
pub mod error;
pub mod tensor;
pub mod text;
pub mod text_laws;
