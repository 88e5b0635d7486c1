use move_ts::error::GenError;
use move_ts::CodeText;

#[test]
fn new_holds_the_text() {
    assert_eq!(CodeText::new("abc").to_string(), "abc");
    assert_eq!(CodeText::new("abc").as_str(), "abc");
    assert_eq!(CodeText::new("abc"), CodeText::new("abc"));
}

#[test]
fn reexport_statements() {
    assert_eq!(
        CodeText::new_reexport("entry", "./entry.js").to_string(),
        "export * as entry from \"./entry.js\";"
    );
    assert_eq!(
        CodeText::new_named_reexport("errmap as pkg_errmap", "./errmap.js").to_string(),
        "export { errmap as pkg_errmap } from \"./errmap.js\";"
    );
}

#[test]
fn fields_export_declares_a_type() {
    assert_eq!(
        CodeText::new_fields_export("TransferArgs", "  a: string;\n").to_string(),
        "export type TransferArgs = {\n  a: string;\n };"
    );
}

#[test]
fn const_export_declares_a_constant() {
    assert_eq!(
        CodeText::new_const_export("transfer", "\"0x1::Coin::transfer\"").to_string(),
        "export const transfer = \"0x1::Coin::transfer\" as const;"
    );
}

#[test]
fn append_newline_adds_one_line_feed() {
    assert_eq!(CodeText::new("a").append_newline().to_string(), "a\n");
}

#[test]
fn join_skips_empty_texts() {
    let values = vec![CodeText::new("a"), CodeText::new(""), CodeText::new("b")];
    let joined: Result<CodeText, GenError> = CodeText::try_join_with_separator(&values, "\n\n");
    assert_eq!(joined.unwrap().to_string(), "a\n\nb");
    let none: Vec<CodeText> = Vec::new();
    assert_eq!(CodeText::try_join_with_separator(&none, ", ").unwrap().to_string(), "");
}

#[test]
fn docs_put_the_comment_first() {
    assert_eq!(CodeText::new("x").docs("Doc.").to_string(), "/** Doc. */\nx");
    assert_eq!(CodeText::new("x").docs("").to_string(), "x");
}

#[test]
fn module_docs_mark_the_module() {
    assert_eq!(
        CodeText::new("x").module_docs("Names.").to_string(),
        "/**\n * Names.\n * \n * @module\n */\n\nx"
    );
}

#[test]
fn indent_and_trim_of_a_text() {
    assert_eq!(CodeText::new("a\nb").indent().to_string(), "  a\n  b");
    assert_eq!(CodeText::new("\n a \n").trim().to_string(), "a");
}

#[test]
fn error_messages() {
    assert_eq!(GenError::UnsupportedType.message(), "not yet implemented");
    assert_eq!(GenError::UnresolvedStructReference.message(), "unresolved struct reference");
    assert_eq!(GenError::RecursiveStructReference.message(), "recursive struct reference");
    assert_eq!(GenError::SerializationFailure.message(), "serialization failure");
}

#[test]
fn conversions_keep_the_text() {
    let text: CodeText = String::from("abc").into();
    assert_eq!(text.as_str(), "abc");
    let back: String = CodeText::new("xyz").into();
    assert_eq!(back, "xyz");
    assert_eq!(CodeText::default().to_string(), "");
}
