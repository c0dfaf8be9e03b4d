use c2saferust::module2_ast::ast_parser::parse_c_functions;
use c2saferust::module2_ast::preprocessor::fallback_internal_preprocessor;

#[test]
fn test_function_and_call_site_parsing() {
    let code = r#"
void swap(int **a, int **b) {
    int *temp = *a;
    *a = *b;
    *b = temp;
}

int main() {
    int x = 10;
    int y = 20;
    int *px = &x;
    int *py = &y;
    swap(&px, &py);
    return 0;
}
"#;
    let functions = parse_c_functions(code);
    assert_eq!(functions.len(), 2);

    let swap_fn = &functions[0];
    assert_eq!(swap_fn.name, "swap");
    assert_eq!(swap_fn.parameters.len(), 2);
    assert_eq!(swap_fn.parameters[0].pointer_depth, 2); // int **a

    let main_fn = &functions[1];
    assert_eq!(main_fn.name, "main");
    assert_eq!(main_fn.call_sites.len(), 1);
    assert_eq!(main_fn.call_sites[0].callee, "swap");
    assert_eq!(main_fn.call_sites[0].arguments, vec!["&px", "&py"]);
}

#[test]
fn test_internal_macro_expansion() {
    let code = r#"
#define BUFFER_SIZE 1024
#define DEBUG_MODE
#ifdef DEBUG_MODE
int size = BUFFER_SIZE;
#else
int size = 0;
#endif
"#;
    let expanded = fallback_internal_preprocessor(code).unwrap();
    assert!(expanded.contains("int size = 1024;"));
    assert!(!expanded.contains("int size = 0;"));
}
