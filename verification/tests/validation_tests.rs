use c2saferust::module1_validation::{
    perform_preflight_lexical_checks, validate_input, SourceRead, ValidationError,
};

fn bytes(s: &str) -> SourceRead {
    SourceRead::Bytes(s.as_bytes().to_vec())
}

#[test]
fn test_valid_c_file() {
    let content = "// Simple C Program\n#include <stdio.h>\nint main() { printf(\"Hello, World!\"); return 0; }\n";
    let result = validate_input("temp_valid.c", bytes(content));
    assert!(result.is_ok());
    let validated = result.unwrap();
    assert_eq!(validated.line_count, 3);
    assert!(validated.byte_size > 0);
    assert_eq!(validated.byte_size, content.len());
    assert_eq!(validated.raw_content, content);
}

#[test]
fn test_non_existent_file() {
    let result = validate_input("does_not_exist.c", SourceRead::Missing);
    assert!(matches!(result, Err(ValidationError::FileNotFound(_))));
}

#[test]
fn test_invalid_extension() {
    let result = validate_input("temp_file.txt", bytes("some text\n"));
    assert!(matches!(result, Err(ValidationError::InvalidExtension(_))));
}

#[test]
fn test_empty_file() {
    let result = validate_input("temp_empty.c", bytes(""));
    assert!(matches!(result, Err(ValidationError::EmptyFile(_))));
}

#[test]
fn test_binary_file() {
    let result =
        validate_input("temp_binary.c", SourceRead::Bytes(vec![0x7f, 0x45, 0x4c, 0x46, 0x00, 0x01]));
    assert!(matches!(result, Err(ValidationError::InvalidEncoding(_))));
}

#[test]
fn test_unmatched_brace() {
    let result = validate_input("temp_unmatched.c", bytes("int main() { return 0;\n"));
    assert!(matches!(result, Err(ValidationError::PreflightLexicalError(_))));
}

#[test]
fn test_unterminated_string() {
    let result = validate_input("temp_string.c", bytes("char *s = \"hello;\n"));
    assert!(matches!(result, Err(ValidationError::PreflightLexicalError(_))));
}

#[test]
fn uppercase_extension_and_header_accepted() {
    assert!(validate_input("X.C", bytes("int x;\n")).is_ok());
    assert!(validate_input("x.h", bytes("int x;\n")).is_ok());
    assert!(matches!(
        validate_input("noext", bytes("int x;\n")),
        Err(ValidationError::InvalidExtension(_))
    ));
}

#[test]
fn unreadable_and_invalid_utf8() {
    assert!(matches!(
        validate_input("a.c", SourceRead::Unreadable("denied".to_string())),
        Err(ValidationError::FileNotReadable(_))
    ));
    assert!(matches!(
        validate_input("a.c", SourceRead::Bytes(vec![0xff, 0xfe, 0x41])),
        Err(ValidationError::InvalidEncoding(_))
    ));
}

#[test]
fn lexical_checks() {
    assert!(perform_preflight_lexical_checks("int f() { return (1); }").is_ok());
    assert!(perform_preflight_lexical_checks("int f() { return 1; }}").is_err());
    assert!(perform_preflight_lexical_checks("int f( { }").is_err());
    assert!(perform_preflight_lexical_checks("/* { */ int x;").is_ok());
    assert!(perform_preflight_lexical_checks("// {\nint x;").is_ok());
    assert!(perform_preflight_lexical_checks("char c = '{';").is_ok());
}

#[test]
fn error_messages() {
    let e = ValidationError::EmptyFile("x".to_string());
    assert_eq!(e.message(), "Empty File Error: x");
    let e = ValidationError::PreflightLexicalError("y".to_string());
    assert_eq!(e.message(), "Lexical Validation Error: y");
}

#[test]
fn missing_file_message_quotes_path() {
    match validate_input("does_not_exist.c", SourceRead::Missing) {
        Err(ValidationError::FileNotFound(m)) => {
            assert_eq!(m, "Input file does not exist: '\"does_not_exist.c\"'")
        }
        _ => panic!("expected FileNotFound"),
    }
}

#[test]
fn unterminated_char_literal_is_refused() {
    assert!(matches!(
        perform_preflight_lexical_checks("char c = 'a;"),
        Err(ValidationError::PreflightLexicalError(_))
    ));
    assert_eq!(
        perform_preflight_lexical_checks("char c = 'a;").unwrap_err().message(),
        "Lexical Validation Error: Unterminated character literal detected."
    );
    assert!(perform_preflight_lexical_checks("char c = 'a';").is_ok());
}

#[test]
fn delimiters_in_literals_and_comments_are_ignored() {
    assert!(perform_preflight_lexical_checks("int c = '}'; /* ) */ f(\"(\\\")\");").is_ok());
    assert!(perform_preflight_lexical_checks(") (").is_err());
    assert!(perform_preflight_lexical_checks("/* never closed").is_err());
}
