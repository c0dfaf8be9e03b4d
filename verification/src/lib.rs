pub mod name_map;
pub mod text;
pub mod data_stores;
pub mod module1_validation;
pub mod module2_ast;
pub mod module3_semantic;
pub mod module4_interprocedural;
pub mod module5_codegen;
pub mod module6_repair;
pub mod module7_gui;
