use order_by::error::option_string;
use order_by::{OrderBy, ParseQueryError};

#[test]
fn field_error_shows_the_token_as_it_is() {
    assert_eq!(
        ParseQueryError::invalid_field("Foo").to_string(),
        "failed to parse field_name: Foo"
    );
    assert_eq!(
        ParseQueryError::invalid_field("").to_string(),
        "failed to parse field_name: "
    );
    assert_eq!(
        ParseQueryError::invalid_field("a\"b").to_string(),
        "failed to parse field_name: a\"b"
    );
}

#[test]
fn clause_error_shows_the_pair_and_each_token() {
    assert_eq!(
        ParseQueryError::with_clause_texts("F", "O").to_string(),
        "failed to parse (F, O): field(F, order(O)"
    );
    assert_eq!(
        ParseQueryError::with_clause_texts("", "").to_string(),
        "failed to parse (, ): field(, order()"
    );
    assert_eq!(
        ParseQueryError::with_clause_texts("Some(\"a\")", "None").to_string(),
        "failed to parse (Some(\"a\"), None): field(Some(\"a\"), order(None)"
    );
}

#[test]
fn optional_text_is_wrapped() {
    assert_eq!(option_string(None), "None");
    assert_eq!(option_string(Some("")), "Some()");
    assert_eq!(option_string(Some("\"up\"")), "Some(\"up\")");
}

#[test]
fn clause_error_quotes_the_tokens() {
    assert_eq!(
        ParseQueryError::invalid_clause(None, None).to_string(),
        "failed to parse (None, None): field(None, order(None)"
    );
    assert_eq!(
        ParseQueryError::invalid_clause(Some("name"), Some("up")).to_string(),
        "failed to parse (Some(\"name\"), Some(\"up\")): field(Some(\"name\"), order(Some(\"up\"))"
    );
    assert_eq!(
        ParseQueryError::invalid_clause(Some("a"), Some("q\"\\\n\u{1}")).to_string(),
        "failed to parse (Some(\"a\"), Some(\"q\\\"\\\\\\n\\u{1}\")): field(Some(\"a\"), order(Some(\"q\\\"\\\\\\n\\u{1}\"))"
    );
}

#[test]
fn clause_error_is_what_the_standard_library_formats() {
    for (field, order) in [
        (None, None),
        (Some("a"), Some("up")),
        (Some("it's"), Some("\u{e9}\u{301}\t\u{7f}")),
        (None, Some("\u{feff}")),
    ] {
        let query = (field, order);
        assert_eq!(
            ParseQueryError::invalid_clause(field, order).to_string(),
            format!("failed to parse {query:?}: field({field:?}, order({order:?})")
        );
    }
}

#[test]
fn error_message_is_kept() {
    let e = OrderBy::new("name up").unwrap_err();
    assert_eq!(e.to_string(), e.clone().to_string());
    assert_eq!(
        format!("{:?}", e),
        "ParseQueryError(\"failed to parse (Some(\\\"name\\\"), Some(\\\"up\\\")): field(Some(\\\"name\\\"), order(Some(\\\"up\\\"))\")"
    );
}
