//! Attention layers of the DeepSeek2 family.

pub mod cuda_resident;
pub mod deepseek2_mla;
pub mod evaluation_laws;
pub mod gguf_manifest;
pub mod kernel_laws;
pub mod kernels;
pub mod mla_laws;
pub mod mla_shape;
pub mod name_laws;
pub mod plan_laws;
pub mod plan_report;
pub mod planning_laws;
pub mod product_laws;
pub mod report_laws;
pub mod residency_laws;
pub mod shape_laws;
pub mod staging_laws;
pub mod tensor_name;
