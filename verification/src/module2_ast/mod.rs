pub mod ast_parser;
pub mod preprocessor;

use vstd::prelude::*;

pub use ast_parser::{
    construct_ast, ASTError, CallSiteAST, FunctionAST, ParameterAST, StructAST, TranslationUnitAST,
    UnionAST,
};
pub use preprocessor::{preprocess_c_code, ExpandedCSource, PreprocessorError};

use crate::module1_validation::ValidatedCSource;
use ast_parser::{functions_parse_panics, spec_construct_ast};
use preprocessor::spec_preprocess;

verus! {

/// What preprocessing and parsing produce.
#[derive(Debug)]
pub struct ProcessedModule2Output {
    pub expanded_source: ExpandedCSource,
    pub ast: TranslationUnitAST,
}

/// Preprocessor expansion followed by AST construction, given the
/// standard output of a successful `gcc -E -P` run on the file, if any.
pub fn preprocess_and_parse(validated: &ValidatedCSource, gcc_stdout: Option<String>) -> (res:
    Result<ProcessedModule2Output, String>)
    requires
        !functions_parse_panics(
            spec_preprocess(validated.deep_view(), gcc_stdout.deep_view()).expanded_content,
        ),
    ensures
        res matches Ok(out) && out.expanded_source.deep_view() == spec_preprocess(
            validated.deep_view(),
            gcc_stdout.deep_view(),
        ) && out.ast.deep_view() == spec_construct_ast(
            spec_preprocess(validated.deep_view(), gcc_stdout.deep_view()).expanded_content,
        ),
{
    let expanded = match preprocess_c_code(validated, gcc_stdout) {
        Ok(e) => e,
        Err(err) => {
            let mut msg = String::from_str("Preprocessor Error: ");
            msg.append(err.message().as_str());
            return Err(msg);
        },
    };
    let ast = match construct_ast(&expanded) {
        Ok(a) => a,
        Err(err) => {
            let mut msg = String::from_str("AST Parse Error: ");
            msg.append(err.message().as_str());
            return Err(msg);
        },
    };
    Ok(ProcessedModule2Output { expanded_source: expanded, ast })
}

} // verus!
