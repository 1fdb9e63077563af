use membrane_macro::model::OutputStyle;
use membrane_macro::numstr::{i128_from_decimal, i128_to_decimal};
use membrane_macro::parse::{extract_options, parse_enum_item, ParseError};
use membrane_macro::pipeline::{async_dart, dart_enum};
use membrane_macro::registry::{Function, Registry, SchemaKind};
use membrane_macro::task::StreamSession;
use membrane_macro::token::Token;

fn w(s: &str) -> Token {
    Token::Word(String::from(s))
}

fn accounts_attrs() -> Vec<Token> {
    vec![w("namespace"), Token::Eq, Token::LitStr(String::from("accounts"))]
}

fn contact_decl() -> Vec<Token> {
    vec![
        w("pub"),
        w("async"),
        w("fn"),
        w("contact"),
        Token::LParen,
        w("user_id"),
        Token::Colon,
        w("String"),
        Token::RParen,
        Token::Arrow,
        w("Result"),
        Token::Lt,
        w("Contact"),
        Token::Comma,
        w("String"),
        Token::Gt,
        Token::LBrace,
        Token::RBrace,
    ]
}

#[test]
fn accounts_contact_scenario() {
    let g = async_dart(&accounts_attrs(), &contact_decl()).unwrap();
    assert_eq!(g.function.extern_c_fn_name, "membrane_accounts_contact");
    assert_eq!(
        g.function.header,
        "int32_t membrane_accounts_contact(int64_t port, const char *user_id);"
    );
    assert_eq!(
        g.function.client_head,
        "Future<Contact> contact({required String userId}) async {"
    );
    assert_eq!(g.function.fn_name, "contact");
    assert_eq!(g.function.namespace, "accounts");
    assert!(!g.function.is_stream);
    assert!(!g.function.disable_logging);
    assert_eq!(g.function.return_type, "Contact");
    assert_eq!(g.function.error_type, "String");
    assert_eq!(g.declaration.name, "contact");
    assert!(matches!(g.declaration.style, OutputStyle::Serialized));
    assert_eq!(g.declaration.inputs.len(), 1);
    assert_eq!(g.declaration.inputs[0].name, "user_id");
}

#[test]
fn registry_refuses_second_declaration_with_same_symbol() {
    let mk = || {
        let g = async_dart(&accounts_attrs(), &contact_decl()).unwrap();
        g.function
    };
    let mut reg = Registry::new();
    assert!(reg.register(mk()).is_ok());
    let again: Result<(), Function> = reg.register(mk());
    assert!(again.is_err());
    assert_eq!(reg.entries.len(), 1);
}

#[test]
fn option_list_rules() {
    let unknown = vec![w("namespaces"), Token::Eq, Token::LitStr(String::from("a"))];
    assert!(matches!(extract_options(&unknown), Err(ParseError::UnknownOption)));
    let empty: Vec<Token> = vec![];
    assert!(matches!(extract_options(&empty), Err(ParseError::MissingNamespace)));
    let dup = vec![
        w("namespace"),
        Token::Eq,
        Token::LitStr(String::from("a")),
        Token::Comma,
        w("namespace"),
        Token::Eq,
        Token::LitStr(String::from("b")),
    ];
    assert!(matches!(extract_options(&dup), Err(ParseError::DuplicateOption)));
    let both = vec![
        w("namespace"),
        Token::Eq,
        Token::LitStr(String::from("accounts")),
        Token::Comma,
        w("disable_logging"),
        Token::Eq,
        w("true"),
    ];
    let o = extract_options(&both).unwrap();
    assert_eq!(o.namespace, "accounts");
    assert!(o.disable_logging);
}

#[test]
fn enum_item_behind_attributes_is_accepted() {
    let item = vec![
        Token::Pound,
        Token::LBracket,
        w("derive"),
        Token::LParen,
        w("Debug"),
        Token::Comma,
        w("Clone"),
        Token::RParen,
        Token::RBracket,
        w("pub"),
        w("enum"),
        w("Color"),
        Token::LBrace,
        w("Red"),
        Token::Comma,
        w("Green"),
        Token::RBrace,
    ];
    let s = parse_enum_item(&item).unwrap();
    assert_eq!(s.name, "Color");
    match s.kind {
        SchemaKind::Enumeration(vs) => assert_eq!(vs, vec!["Red", "Green"]),
        _ => panic!("expected an enumeration schema"),
    }
    let t = dart_enum(&accounts_attrs(), &item).unwrap();
    assert_eq!(t.namespace, "accounts");
    assert_eq!(t.schema.name, "Color");
}

#[test]
fn enum_variants_with_payloads_keep_their_order() {
    let item = vec![
        w("enum"),
        w("Msg"),
        Token::LBrace,
        w("Text"),
        Token::LParen,
        w("String"),
        Token::RParen,
        Token::Comma,
        w("Point"),
        Token::LBrace,
        w("x"),
        Token::Colon,
        w("u8"),
        Token::RBrace,
        Token::Comma,
        w("Done"),
        Token::RBrace,
    ];
    let s = parse_enum_item(&item).unwrap();
    assert_eq!(s.name, "Msg");
    match s.kind {
        SchemaKind::Enumeration(vs) => assert_eq!(vs, vec!["Text", "Point", "Done"]),
        _ => panic!("expected an enumeration schema"),
    }
}

#[test]
fn stream_delivers_in_produced_order_until_cancelled() {
    let mut s = StreamSession::new();
    assert_eq!(s.receive(), None);
    s.produce(vec![1u8]);
    s.produce(vec![2u8]);
    s.produce(vec![3u8]);
    assert_eq!(s.receive(), Some(vec![1u8]));
    assert_eq!(s.receive(), Some(vec![2u8]));
    s.cancel();
    assert_eq!(s.receive(), None);
    assert_eq!(s.received.len(), 2);
}

#[test]
fn i128_decimal_round_trip() {
    let cases: [i128; 6] = [0, -1, -5, 42, i128::MIN, i128::MAX];
    for v in cases {
        let s = i128_to_decimal(v);
        assert_eq!(i128_from_decimal(&s), Some(v));
    }
    assert_eq!(i128_to_decimal(-5), "-5");
    assert_eq!(
        i128_to_decimal(i128::MIN),
        "-170141183460469231731687303715884105728"
    );
    assert_eq!(i128_from_decimal("-0"), Some(0));
    assert_eq!(i128_from_decimal("-"), None);
    assert_eq!(i128_from_decimal(""), None);
    assert_eq!(
        i128_from_decimal("170141183460469231731687303715884105728"),
        None
    );
    assert_eq!(
        i128_from_decimal("-170141183460469231731687303715884105729"),
        None
    );
}
