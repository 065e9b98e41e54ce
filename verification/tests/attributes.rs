use syn::parse::Parser;
use visitor::error::Error;
use visitor::error::ErrorKind;
use visitor::error::Span;
use visitor::meta::parse_tokens;
use visitor::meta::Argument;
use visitor::meta::Attribute;
use visitor::meta::Meta;
use visitor::meta::Path;
use visitor::params::extract_meta;
use visitor::params::path_is;
use visitor::params::same_path;
use visitor::params::Param;
use visitor::params::Params;
use visitor::token::Token;
use visitor::token::TokenKind;

const HERE: Span = Span { start: 10, end: 20 };

fn name(text: &str) -> Path {
    Path { leading_colon: false, segments: vec![text.to_string()] }
}

fn attribute(path: &str, argument: Argument, start: usize) -> Attribute {
    let span = Span { start, end: start + 1 };
    Attribute { meta: Meta { path: name(path), argument, span }, span }
}

fn block(text: &str, start: usize) -> Attribute {
    attribute("traverse", Argument::List(text.to_string()), start)
}

fn entry(path: &str, argument: Argument) -> Meta {
    Meta { path: name(path), argument, span: HERE }
}

fn token(kind: TokenKind, text: &str, joint: bool) -> Token {
    Token { kind, text: text.to_string(), joint }
}

fn ident(text: &str) -> Token {
    token(TokenKind::Ident, text, false)
}

fn punct(text: &str, joint: bool) -> Token {
    token(TokenKind::Punct, text, joint)
}

fn kind_of<T>(result: Result<T, Error>) -> ErrorKind {
    match result {
        Ok(_) => panic!("an error was expected"),
        Err(error) => error.kind,
    }
}

#[test]
fn unit_parameter_is_read_and_taken_once() {
    let mut params = Params::from_meta_list("skip", HERE).unwrap();
    assert_eq!(params.len(), 1);
    assert_eq!(params.param("skip").unwrap(), Some(Param::Unit(HERE)));
    assert_eq!(params.len(), 0);
    assert_eq!(params.param("skip").unwrap(), None);
    assert_eq!(params.param("skip").unwrap(), None);
}

#[test]
fn absent_parameter_leaves_the_set_as_it_is() {
    let mut params = Params::from_meta_list("skip", HERE).unwrap();
    assert_eq!(params.param("with").unwrap(), None);
    assert_eq!(params.len(), 1);
}

#[test]
fn string_parameter_holds_the_value_of_the_literal() {
    let mut params = Params::from_meta_list("with = \"customFn\"", HERE).unwrap();
    assert_eq!(
        params.param("with").unwrap(),
        Some(Param::StringLiteral(HERE, "customFn".to_string()))
    );
}

#[test]
fn string_literal_escapes_are_decoded() {
    let mut params = Params::from_meta_list("with = \"a\\nb\\u{41}\"", HERE).unwrap();
    assert_eq!(
        params.param("with").unwrap(),
        Some(Param::StringLiteral(HERE, "a\nbA".to_string()))
    );
}

#[test]
fn raw_string_literal_is_a_string() {
    let mut params = Params::from_meta_list("with = r#\"a\"b\"#", HERE).unwrap();
    assert_eq!(
        params.param("with").unwrap(),
        Some(Param::StringLiteral(HERE, "a\"b".to_string()))
    );
}

#[test]
fn nested_list_is_accepted() {
    let mut params = Params::from_meta_list("skip(a, b = 1)", HERE).unwrap();
    assert_eq!(params.param("skip").unwrap(), Some(Param::NestedParams(HERE)));
}

#[test]
fn nested_list_takes_any_delimiter() {
    for text in ["x(1)", "x[1]", "x{1}"] {
        let mut params = Params::from_meta_list(text, HERE).unwrap();
        assert_eq!(params.param("x").unwrap(), Some(Param::NestedParams(HERE)));
    }
}

#[test]
fn other_literal_kinds_are_rejected() {
    for text in ["with = 5", "with = 1.5", "with = 'c'", "with = b\"bytes\"", "with = true"] {
        let mut params = Params::from_meta_list(text, HERE).unwrap();
        let error = params.param("with").unwrap_err();
        assert_eq!(error.kind, ErrorKind::InvalidParameter);
        assert_eq!(error.span, HERE);
        assert_eq!(error.message, "invalid parameter");
        assert_eq!(params.len(), 0);
    }
}

#[test]
fn value_that_is_no_literal_is_rejected() {
    for text in ["with = foo", "with = -1", "with = \"a\" \"b\"", "with = (\"a\")"] {
        let mut params = Params::from_meta_list(text, HERE).unwrap();
        assert_eq!(kind_of(params.param("with")), ErrorKind::InvalidParameter);
    }
}

#[test]
fn duplicate_parameter_is_an_error() {
    let error = Params::from_meta_list("skip, skip", HERE).unwrap_err();
    assert_eq!(error.kind, ErrorKind::DuplicateParameter);
    assert_eq!(error.span, HERE);
    assert_eq!(error.message, "duplicate parameter");
}

#[test]
fn duplicate_parameter_is_found_whatever_the_values() {
    assert_eq!(
        kind_of(Params::from_meta_list("with = \"a\", skip, with(b)", HERE)),
        ErrorKind::DuplicateParameter
    );
    assert_eq!(
        kind_of(Params::from_meta_list("a::b, a::b", HERE)),
        ErrorKind::DuplicateParameter
    );
    assert!(Params::from_meta_list("a::b, ::a::b, a, b", HERE).is_ok());
}

#[test]
fn empty_block_and_trailing_comma() {
    assert_eq!(Params::from_meta_list("", HERE).unwrap().len(), 0);
    assert_eq!(Params::from_meta_list("skip,", HERE).unwrap().len(), 1);
    assert_eq!(Params::from_meta_list("skip, with = \"f\",", HERE).unwrap().len(), 2);
}

#[test]
fn what_is_no_list_of_entries_is_a_syntax_error() {
    for text in [
        "skip skip",
        "= 5",
        "skip =",
        "skip = , with",
        ",",
        "skip,,",
        "a::",
        "a:: = 1",
        "\"skip\"",
        "skip == 1",
        "skip => 1",
        "a : : b",
        "(skip)",
    ] {
        let error = Params::from_meta_list(text, HERE).unwrap_err();
        assert_eq!(error.kind, ErrorKind::Syntax, "{text}");
        assert_eq!(error.span, HERE);
        assert_eq!(error.message, "invalid parameter list");
    }
}

#[test]
fn what_is_no_sequence_of_tokens_is_a_syntax_error() {
    for text in ["(", "skip)", "with = \"open", "'"] {
        assert_eq!(kind_of(Params::from_meta_list(text, HERE)), ErrorKind::Syntax, "{text}");
    }
}

#[test]
fn tokens_are_read_into_entries() {
    let tokens = vec![
        punct(":", true),
        punct(":", false),
        ident("a"),
        punct(":", true),
        punct(":", false),
        ident("b"),
        punct(",", false),
        ident("with"),
        punct("=", false),
        token(TokenKind::Literal, "\"f\"", false),
        punct(",", false),
        ident("x"),
        token(TokenKind::Group, "1, 2", false),
        punct(",", false),
        ident("y"),
        punct("=", false),
        ident("z"),
        punct("+", false),
        token(TokenKind::Literal, "1", false),
    ];
    let metas = parse_tokens(&tokens, HERE).unwrap();
    assert_eq!(
        metas,
        vec![
            Meta {
                path: Path {
                    leading_colon: true,
                    segments: vec!["a".to_string(), "b".to_string()]
                },
                argument: Argument::Bare,
                span: HERE,
            },
            entry("with", Argument::Literal("\"f\"".to_string())),
            entry("x", Argument::List("1, 2".to_string())),
            entry("y", Argument::Expression),
        ]
    );
}

#[test]
fn colons_with_a_gap_are_no_path_separator() {
    let tokens = vec![ident("a"), punct(":", false), punct(":", false), ident("b")];
    assert_eq!(kind_of(parse_tokens(&tokens, HERE)), ErrorKind::Syntax);
}

#[test]
fn from_tokens_without_tokens_is_a_syntax_error() {
    assert_eq!(kind_of(Params::from_tokens(None, HERE)), ErrorKind::Syntax);
    assert_eq!(Params::from_tokens(Some(Vec::new()), HERE).unwrap().len(), 0);
}

#[test]
fn from_metas_rejects_the_first_repeated_name() {
    let second = Meta { path: name("a"), argument: Argument::Bare, span: Span { start: 7, end: 8 } };
    let third = Meta { path: name("b"), argument: Argument::Bare, span: Span { start: 9, end: 10 } };
    let metas = vec![
        entry("a", Argument::Bare),
        entry("b", Argument::Bare),
        second,
        third,
    ];
    let error = Params::from_metas(metas).unwrap_err();
    assert_eq!(error.kind, ErrorKind::DuplicateParameter);
    assert_eq!(error.span, Span { start: 7, end: 8 });
}

#[test]
fn validate_accepts_allowed_names() {
    let params = Params::from_meta_list("skip, with = \"f\"", HERE).unwrap();
    assert_eq!(params.validate(&["skip", "with"]), Ok(()));
    assert_eq!(params.validate(&["with", "skip", "more"]), Ok(()));
    assert_eq!(Params::new().validate(&[]), Ok(()));
}

#[test]
fn validate_lists_the_allowed_names() {
    let params = Params::from_meta_list("skip, other", HERE).unwrap();
    let error = params.validate(&["skip", "with"]).unwrap_err();
    assert_eq!(error.kind, ErrorKind::UnknownParameter);
    assert_eq!(error.span, HERE);
    assert_eq!(error.message, "unknown parameter, supported: skip, with");
    assert_eq!(error.to_string(), "unknown parameter, supported: skip, with");

    let error = params.validate(&["skip"]).unwrap_err();
    assert_eq!(error.message, "unknown parameter, supported: skip");

    let error = params.validate(&[]).unwrap_err();
    assert_eq!(error.message, "unknown parameter, supported: ");

    let error = params.validate(&["a", "b", "c"]).unwrap_err();
    assert_eq!(error.message, "unknown parameter, supported: a, b, c");
}

#[test]
fn validate_does_not_take_paths_for_names() {
    let params = Params::from_meta_list("::skip", HERE).unwrap();
    assert_eq!(kind_of(params.validate(&["skip"])), ErrorKind::UnknownParameter);
    let params = Params::from_meta_list("skip::skip", HERE).unwrap();
    assert_eq!(kind_of(params.validate(&["skip"])), ErrorKind::UnknownParameter);
}

#[test]
fn validated_parameter_may_stay_untaken() {
    let mut params = Params::from_meta_list("skip, with = 5", HERE).unwrap();
    assert_eq!(params.validate(&["skip", "with"]), Ok(()));
    assert_eq!(params.flag("skip"), Ok(true));
    assert_eq!(params.len(), 1);
}

#[test]
fn flag_wants_a_unit() {
    let mut params = Params::from_meta_list("skip = \"yes\"", HERE).unwrap();
    assert_eq!(kind_of(params.flag("skip")), ErrorKind::InvalidParameter);
    let mut params = Params::from_meta_list("skip(yes)", HERE).unwrap();
    assert_eq!(kind_of(params.flag("skip")), ErrorKind::InvalidParameter);
    let mut params = Params::from_meta_list("with = \"f\"", HERE).unwrap();
    assert_eq!(params.flag("skip"), Ok(false));
    assert_eq!(params.len(), 1);
}

#[test]
fn next_takes_parameters_in_the_order_written() {
    let mut params = Params::from_meta_list("b = \"1\", a, c(d)", HERE).unwrap();
    assert_eq!(params.next(), Some(Ok(Param::StringLiteral(HERE, "1".to_string()))));
    assert_eq!(params.next(), Some(Ok(Param::Unit(HERE))));
    assert_eq!(params.next(), Some(Ok(Param::NestedParams(HERE))));
    assert_eq!(params.next(), None);
    assert_eq!(params.next(), None);
}

#[test]
fn next_reports_an_invalid_value_and_goes_on() {
    let mut params = Params::from_meta_list("a = 1, b", HERE).unwrap();
    let first = params.next().unwrap();
    assert_eq!(kind_of(first), ErrorKind::InvalidParameter);
    assert_eq!(params.next(), Some(Ok(Param::Unit(HERE))));
    assert_eq!(params.next(), None);
}

#[test]
fn param_conversions() {
    assert_eq!(Param::Unit(HERE).unit(), Ok(()));
    assert_eq!(kind_of(Param::NestedParams(HERE).unit()), ErrorKind::InvalidParameter);
    assert_eq!(
        kind_of(Param::StringLiteral(HERE, "x".to_string()).unit()),
        ErrorKind::InvalidParameter
    );
    assert_eq!(Param::StringLiteral(HERE, "x".to_string()).string_literal(), Ok("x".to_string()));
    let error = Param::Unit(HERE).string_literal().unwrap_err();
    assert_eq!(error, Error::new(ErrorKind::InvalidParameter, HERE));
    assert_eq!(kind_of(Param::NestedParams(HERE).string_literal()), ErrorKind::InvalidParameter);
    assert_eq!(Param::NestedParams(Span { start: 1, end: 2 }).span(), Span { start: 1, end: 2 });
    assert_eq!(Param::Unit(HERE).span(), HERE);
    assert_eq!(Param::StringLiteral(HERE, String::new()).span(), HERE);
}

#[test]
fn param_with_value_follows_the_shape_of_the_entry() {
    assert_eq!(Param::with_value(entry("a", Argument::Bare), None), Ok(Param::Unit(HERE)));
    assert_eq!(
        Param::with_value(entry("a", Argument::Bare), Some("x".to_string())),
        Ok(Param::Unit(HERE))
    );
    assert_eq!(
        Param::with_value(entry("a", Argument::List("b".to_string())), None),
        Ok(Param::NestedParams(HERE))
    );
    assert_eq!(
        Param::with_value(entry("a", Argument::Literal("\"b\"".to_string())), Some("b".to_string())),
        Ok(Param::StringLiteral(HERE, "b".to_string()))
    );
    assert_eq!(
        kind_of(Param::with_value(entry("a", Argument::Literal("5".to_string())), None)),
        ErrorKind::InvalidParameter
    );
    assert_eq!(
        kind_of(Param::with_value(entry("a", Argument::Expression), Some("b".to_string()))),
        ErrorKind::InvalidParameter
    );
}

#[test]
fn from_meta_decodes_the_literal() {
    assert_eq!(
        Param::from_meta(entry("with", Argument::Literal("\"a\\tb\"".to_string()))),
        Ok(Param::StringLiteral(HERE, "a\tb".to_string()))
    );
    assert_eq!(
        kind_of(Param::from_meta(entry("with", Argument::Literal("7".to_string())))),
        ErrorKind::InvalidParameter
    );
    assert_eq!(
        kind_of(Param::from_meta(entry("with", Argument::Literal("not a literal".to_string())))),
        ErrorKind::InvalidParameter
    );
}

#[test]
fn extract_meta_finds_the_block() {
    let attrs = vec![
        attribute("doc", Argument::Literal("\"text\"".to_string()), 0),
        block("skip", 5),
        attribute("derive", Argument::List("Debug".to_string()), 9),
    ];
    let meta = extract_meta(&attrs, "traverse").unwrap().unwrap();
    assert_eq!(meta, attrs[1].meta);
    assert_eq!(extract_meta(&attrs, "other"), Ok(None));
    assert_eq!(extract_meta(&Vec::new(), "traverse"), Ok(None));
}

#[test]
fn second_block_is_a_duplicate() {
    let attrs = vec![block("skip", 1), attribute("doc", Argument::Bare, 3), block("", 5)];
    let error = extract_meta(&attrs, "traverse").unwrap_err();
    assert_eq!(error.kind, ErrorKind::DuplicateAttribute);
    assert_eq!(error.span, Span { start: 5, end: 6 });
    assert_eq!(error.message, "duplicate attribute");
    assert_eq!(Params::from_attrs(&attrs, "traverse").unwrap_err(), error);
}

#[test]
fn third_block_does_not_move_the_error() {
    let attrs = vec![block("skip", 1), block("skip", 5), block("skip", 9)];
    let error = extract_meta(&attrs, "traverse").unwrap_err();
    assert_eq!(error.span, Span { start: 5, end: 6 });
}

#[test]
fn block_name_is_a_single_name() {
    let mut long = block("skip", 0);
    long.meta.path.segments.push("more".to_string());
    let mut rooted = block("skip", 2);
    rooted.meta.path.leading_colon = true;
    assert_eq!(extract_meta(&vec![long, rooted], "traverse"), Ok(None));
}

#[test]
fn from_attrs_wants_a_list() {
    assert_eq!(Params::from_attrs(&Vec::new(), "traverse").unwrap().len(), 0);
    assert_eq!(Params::from_attrs(&vec![block("skip", 0)], "traverse").unwrap().len(), 1);
    let bare = attribute("traverse", Argument::Bare, 4);
    let error = Params::from_attrs(&vec![bare], "traverse").unwrap_err();
    assert_eq!(error.kind, ErrorKind::InvalidAttribute);
    assert_eq!(error.span, Span { start: 4, end: 5 });
    assert_eq!(error.message, "invalid attribute");
    let assigned = attribute("traverse", Argument::Literal("\"skip\"".to_string()), 4);
    assert_eq!(
        kind_of(Params::from_attrs(&vec![assigned], "traverse")),
        ErrorKind::InvalidAttribute
    );
    let assigned = attribute("traverse", Argument::Expression, 4);
    assert_eq!(
        kind_of(Params::from_attrs(&vec![assigned], "traverse")),
        ErrorKind::InvalidAttribute
    );
}

#[test]
fn paths_are_compared_by_their_names() {
    let a = Path { leading_colon: false, segments: vec!["a".to_string(), "b".to_string()] };
    let b = Path { leading_colon: false, segments: vec!["a".to_string(), "b".to_string()] };
    let c = Path { leading_colon: true, segments: vec!["a".to_string(), "b".to_string()] };
    let d = Path { leading_colon: false, segments: vec!["a".to_string()] };
    let e = Path { leading_colon: false, segments: vec!["a".to_string(), "c".to_string()] };
    assert!(same_path(&a, &b));
    assert!(!same_path(&a, &c));
    assert!(!same_path(&a, &d));
    assert!(!same_path(&a, &e));
    assert!(path_is(&d, "a"));
    assert!(!path_is(&d, "b"));
    assert!(!path_is(&a, "a"));
    assert!(!path_is(&Path { leading_colon: true, segments: vec!["a".to_string()] }, "a"));
    assert!(!path_is(&Path { leading_colon: false, segments: Vec::new() }, "a"));
    assert_eq!(a.duplicate(), a);
}

#[test]
fn errors_carry_the_message_of_their_kind() {
    let cases = [
        (ErrorKind::DuplicateAttribute, "duplicate attribute"),
        (ErrorKind::InvalidAttribute, "invalid attribute"),
        (ErrorKind::Syntax, "invalid parameter list"),
        (ErrorKind::DuplicateParameter, "duplicate parameter"),
        (ErrorKind::InvalidParameter, "invalid parameter"),
        (ErrorKind::UnknownParameter, "unknown parameter, supported: "),
        (ErrorKind::UnsupportedShape, "unions are not supported"),
    ];
    for (kind, text) in cases {
        let error = Error::new(kind, HERE);
        assert_eq!(error.kind, kind);
        assert_eq!(error.span, HERE);
        assert_eq!(error.message, text);
        assert_eq!(kind.label(), text);
    }
    assert_eq!(
        Error::unknown_parameter(HERE, &["skip"]),
        Error {
            kind: ErrorKind::UnknownParameter,
            span: HERE,
            message: "unknown parameter, supported: skip".to_string(),
        }
    );
}

/// What the entries of a block are when `syn` reads the block as a list of
/// metas: the name and the value of each entry, or `None` where the block is
/// no such list, an entry has a value that is no string, or a name repeats.
fn read_with_syn(text: &str) -> Option<Vec<(String, Option<String>, bool)>> {
    let parser = syn::punctuated::Punctuated::<syn::Meta, syn::token::Comma>::parse_terminated;
    let metas = parser.parse_str(text).ok()?;
    let mut seen = std::collections::HashSet::new();
    let mut entries: Vec<(String, Option<String>, bool)> = Vec::new();
    for meta in metas {
        let path = meta.path();
        let mut name = String::new();
        if path.leading_colon.is_some() {
            name.push_str("::");
        }
        let segments: Vec<String> = path.segments.iter().map(|s| s.ident.to_string()).collect();
        name.push_str(&segments.join("::"));
        if !seen.insert(name.clone()) {
            return None;
        }
        if name.contains("::") {
            name = "?".to_string();
        }
        match meta {
            syn::Meta::Path(_) => entries.push((name, None, false)),
            syn::Meta::List(_) => entries.push((name, None, true)),
            syn::Meta::NameValue(pair) => match pair.value {
                syn::Expr::Lit(syn::ExprLit { lit: syn::Lit::Str(value), .. }) => {
                    entries.push((name, Some(value.value()), false))
                }
                _ => return None,
            },
        }
    }
    Some(entries)
}

fn reading(name: &str, param: Param) -> (String, Option<String>, bool) {
    match param {
        Param::Unit(_) => (name.to_string(), None, false),
        Param::NestedParams(_) => (name.to_string(), None, true),
        Param::StringLiteral(_, value) => (name.to_string(), Some(value), false),
    }
}

/// The same reading by the library: the entries with the names `names` are
/// taken by name, what is left has a path for its name.
fn read_with_library(text: &str, names: &[&str]) -> Option<Vec<(String, Option<String>, bool)>> {
    let mut params = Params::from_meta_list(text, HERE).ok()?;
    let mut entries: Vec<(String, Option<String>, bool)> = Vec::new();
    for name in names {
        if let Some(param) = params.param(name).ok()? {
            entries.push(reading(name, param));
        }
    }
    while let Some(param) = params.next() {
        entries.push(reading("?", param.ok()?));
    }
    Some(entries)
}

#[test]
fn blocks_are_read_as_syn_reads_them() {
    let names = ["skip", "with", "a", "b", "x", "self"];
    let samples = [
        "",
        "skip",
        "skip,",
        "skip, with = \"f\"",
        "with = \"f\", skip",
        "with = \"a::b::<C>::d\"",
        "with = \"\\u{1F600} and \\\"quotes\\\"\"",
        "with = r\"raw\"",
        "with = r##\"ra\"#w\"##",
        "with = \"suffixed\"suffix",
        "a, b, x",
        "a, a",
        "a, b, a",
        "a::b, ::a, a, b",
        "a::b, a::b",
        "self, crate::y",
        "x(1, 2), a",
        "x[any tokens ; here], a",
        "x{ nested { deeper } }",
        "x(), x",
        "with = 5",
        "with = 'c'",
        "with = b\"bytes\"",
        "with = 1.0",
        "with = true",
        "with = -1",
        "with = f",
        "with = f(1)",
        "with = \"a\" + \"b\"",
        "with =",
        "= \"f\"",
        "skip skip",
        "skip;",
        "skip,,",
        ",",
        ",skip",
        "a::",
        "a::1",
        "a:b",
        "a : : b",
        "a == b",
        "a => b",
        "\"skip\"",
        "1",
        "(skip)",
        "skip(",
        "skip)",
        "a = \"1\", b = \"2\", x = \"3\"",
        "a = \"1\" b = \"2\"",
        "  skip  ,  with  =  \"f\"  ",
        "skip /* comment */, with = \"f\" // end",
    ];
    for text in samples {
        let mut expected = read_with_syn(text);
        if let Some(entries) = &mut expected {
            entries.sort();
        }
        let mut found = read_with_library(text, &names);
        if let Some(entries) = &mut found {
            entries.sort();
        }
        assert_eq!(found, expected, "{text}");
    }
}
