//! Ownership classification for Rust code generation.
pub mod ownership_infer;

pub use ownership_infer::{infer_ownership_types, FunctionOwnershipMap};

use ownership_infer::OwnershipMapModel;

use vstd::prelude::*;

use crate::name_map::NameMap;

verus! {

/// The generated Rust code, where it was written, and the ownership maps it
/// was generated from.
#[derive(Debug)]
pub struct CodegenResult {
    pub generated_rust_code: String,
    pub output_file_path: String,
    pub ownership_maps: NameMap<FunctionOwnershipMap>,
}

/// The value a `CodegenResult` stands for.
pub ghost struct CodegenModel {
    pub generated_rust_code: Seq<char>,
    pub output_file_path: Seq<char>,
    pub ownership_maps: Seq<(Seq<char>, OwnershipMapModel)>,
}

impl DeepView for CodegenResult {
    type V = CodegenModel;

    open spec fn deep_view(&self) -> CodegenModel {
        CodegenModel {
            generated_rust_code: self.generated_rust_code@,
            output_file_path: self.output_file_path@,
            ownership_maps: self.ownership_maps@,
        }
    }
}

} // verus!
