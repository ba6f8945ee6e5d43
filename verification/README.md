# larql_inference

DeepSeek2/Kimi attention over GGUF tensors, written and proved in Verus.

- `src/attention/gguf_manifest.rs` plans a manifest: which attention tensors belong to which layer,
  and which of them may be staged on a device. `plan_laws.rs` and `residency_laws.rs` state what
  holds of every plan, `plan_report.rs` puts one into two lines of text.
- `src/attention/deepseek2_mla.rs` evaluates one MLA layer on a token that stands alone, with
  `mla_shape.rs` for its geometry and `kernels.rs` for the products; `kernel_laws.rs` and
  `mla_laws.rs` state what holds of every product and of every evaluation. The scalar operations
  are parameters (`src/arithmetic.rs`), so contracts name the operations that lead to a result, in
  order.
- `src/attention/cuda_resident.rs` stages the matrices of a layer.
- `app/` reads manifests from disk and fixes the scalar type to `f32`.
