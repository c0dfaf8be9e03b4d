pub mod interprocedural_summaries;
pub mod semantic_models;
