use searchcore::error::Error;
use searchcore::name::valid_name;
use searchcore::query::{kind_of_code, make_term, parse_bool, parse_i64, parse_u64, FieldKind};

#[test]
fn collection_name_validation() {
    assert!(valid_name("docs"));
    assert!(valid_name("docs_2024"));
    assert!(valid_name("A1_b2"));
    assert!(valid_name(""));
    assert!(!valid_name("../etc"));
    assert!(!valid_name("a/b"));
    assert!(!valid_name("a b"));
    assert!(!valid_name("naïve"));
    assert!(!valid_name("dot.dot"));
}

#[test]
fn unsigned_integer_parsing() {
    assert_eq!(parse_u64("0"), Some(0));
    assert_eq!(parse_u64("42"), Some(42));
    assert_eq!(parse_u64("+42"), Some(42));
    assert_eq!(parse_u64("18446744073709551615"), Some(u64::MAX));
    assert_eq!(parse_u64("18446744073709551616"), None);
    assert_eq!(parse_u64(""), None);
    assert_eq!(parse_u64("+"), None);
    assert_eq!(parse_u64("-1"), None);
    assert_eq!(parse_u64("12a"), None);
    assert_eq!(parse_u64(" 12"), None);
}

#[test]
fn signed_integer_parsing() {
    assert_eq!(parse_i64("0"), Some(0));
    assert_eq!(parse_i64("-7"), Some(-7));
    assert_eq!(parse_i64("+7"), Some(7));
    assert_eq!(parse_i64("9223372036854775807"), Some(i64::MAX));
    assert_eq!(parse_i64("9223372036854775808"), None);
    assert_eq!(parse_i64("-9223372036854775808"), Some(i64::MIN));
    assert_eq!(parse_i64("-9223372036854775809"), None);
    assert_eq!(parse_i64("-"), None);
    assert_eq!(parse_i64("--1"), None);
    assert_eq!(parse_i64(""), None);
}

#[test]
fn boolean_parsing() {
    assert_eq!(parse_bool("true"), Some(true));
    assert_eq!(parse_bool("false"), Some(false));
    assert_eq!(parse_bool("True"), None);
    assert_eq!(parse_bool("1"), None);
    assert_eq!(parse_bool(""), None);
}

#[test]
fn type_codes_decode() {
    assert_eq!(kind_of_code(b's'), Some(FieldKind::Text));
    assert_eq!(kind_of_code(b'u'), Some(FieldKind::U64));
    assert_eq!(kind_of_code(b'i'), Some(FieldKind::I64));
    assert_eq!(kind_of_code(b'f'), Some(FieldKind::F64));
    assert_eq!(kind_of_code(b'o'), Some(FieldKind::Bool));
    assert_eq!(kind_of_code(b'd'), Some(FieldKind::Date));
    assert_eq!(kind_of_code(b'h'), Some(FieldKind::Facet));
    assert_eq!(kind_of_code(b'b'), Some(FieldKind::Bytes));
    assert_eq!(kind_of_code(b'j'), Some(FieldKind::Json));
    assert_eq!(kind_of_code(b'p'), Some(FieldKind::IpAddr));
    assert_eq!(kind_of_code(b'x'), None);
}

fn some_field() -> tantivy::schema::Field {
    let mut builder = tantivy::schema::Schema::builder();
    let field = builder.add_u64_field("id", tantivy::schema::INDEXED);
    builder.build();
    field
}

#[test]
fn term_conversion_by_kind() {
    let field = some_field();
    assert!(make_term(field, FieldKind::Text, &"anything".to_string()).is_ok());
    assert!(make_term(field, FieldKind::U64, &"7".to_string()).is_ok());
    assert!(matches!(
        make_term(field, FieldKind::U64, &"-7".to_string()),
        Err(Error::ValueParse { .. })
    ));
    assert!(make_term(field, FieldKind::I64, &"-7".to_string()).is_ok());
    assert!(make_term(field, FieldKind::F64, &"3.5".to_string()).is_ok());
    assert!(matches!(
        make_term(field, FieldKind::F64, &"abc".to_string()),
        Err(Error::ValueParse { .. })
    ));
    assert!(make_term(field, FieldKind::Bool, &"true".to_string()).is_ok());
    assert!(make_term(field, FieldKind::Date, &"2020-05-01T12:00:00Z".to_string()).is_ok());
    assert!(matches!(
        make_term(field, FieldKind::Date, &"yesterday".to_string()),
        Err(Error::ValueParse { .. })
    ));
    // parses as RFC 3339 but does not fit the engine's nanosecond range
    assert!(matches!(
        make_term(field, FieldKind::Date, &"5000-01-01T00:00:00Z".to_string()),
        Err(Error::ValueParse { .. })
    ));
    assert!(make_term(field, FieldKind::Bytes, &"aGVsbG8=".to_string()).is_ok());
    assert!(matches!(
        make_term(field, FieldKind::Bytes, &"@@not-base64@@".to_string()),
        Err(Error::ValueParse { .. })
    ));
    assert!(matches!(
        make_term(field, FieldKind::Facet, &"/a/b".to_string()),
        Err(Error::ValueParse { .. })
    ));
}

#[test]
fn error_messages_name_their_subject() {
    let e = Error::NotFound { name: "docs".to_string() };
    assert!(e.message().contains("docs"));
    let e = Error::InvalidName { name: "../etc".to_string() };
    assert!(e.message().contains("../etc"));
}
