use visitor::error::Error;
use visitor::error::ErrorKind;
use visitor::error::Span;
use visitor::meta::Argument;
use visitor::meta::Attribute;
use visitor::meta::Meta;
use visitor::meta::Path;
use visitor::params::Param;
use visitor::routine::Arm;
use visitor::routine::Body;
use visitor::routine::Pattern;
use visitor::routine::Routine;
use visitor::routine::Step;
use visitor::routine::Style;
use visitor::routine::Via;
use visitor::shape::Declaration;
use visitor::shape::Field;
use visitor::shape::Fields;
use visitor::shape::Shape;
use visitor::shape::Variant;
use visitor::synth::choose_via;
use visitor::synth::destructure_fields;
use visitor::synth::impl_traversable;
use visitor::synth::traverse_enum;
use visitor::synth::traverse_field;
use visitor::synth::traverse_struct;
use visitor::synth::traverse_variant;

fn span(start: usize) -> Span {
    Span { start, end: start + 1 }
}

fn block(text: &str, start: usize) -> Attribute {
    let path = Path { leading_colon: false, segments: vec!["traverse".to_string()] };
    Attribute {
        meta: Meta { path, argument: Argument::List(text.to_string()), span: span(start) },
        span: span(start),
    }
}

fn blocks(texts: &[&str]) -> Vec<Attribute> {
    texts.iter().enumerate().map(|(at, text)| block(text, at)).collect()
}

fn named(name: &str, texts: &[&str]) -> Field {
    Field { attrs: blocks(texts), name: Some(name.to_string()) }
}

fn positional(texts: &[&str]) -> Field {
    Field { attrs: blocks(texts), name: None }
}

fn variant(name: &str, texts: &[&str], fields: Fields) -> Variant {
    Variant { attrs: blocks(texts), name: name.to_string(), fields }
}

fn record(texts: &[&str], fields: Fields) -> Declaration {
    Declaration { attrs: blocks(texts), name: "Subject".to_string(), shape: Shape::Record(fields) }
}

fn sum(texts: &[&str], variants: Vec<Variant>) -> Declaration {
    Declaration { attrs: blocks(texts), name: "Subject".to_string(), shape: Shape::Sum(variants) }
}

fn step(field: usize) -> Step {
    Step { field, via: Via::Default }
}

fn custom(field: usize, path: &str) -> Step {
    Step { field, via: Via::Custom(path.to_string()) }
}

fn kind_of<T>(result: Result<T, Error>) -> ErrorKind {
    match result {
        Ok(_) => panic!("an error was expected"),
        Err(error) => error.kind,
    }
}

#[test]
fn record_with_a_skipped_field() {
    let input = record(&[], Fields::Named(vec![named("a", &[]), named("b", &["skip"])]));
    assert_eq!(
        impl_traversable(&input, false),
        Ok(Routine { mutable: false, visit_self: true, body: Body::Record(vec![step(0)]) })
    );
}

#[test]
fn skipped_field_does_not_shift_the_others() {
    let fields = Fields::Unnamed(vec![
        positional(&["skip"]),
        positional(&[]),
        positional(&["skip"]),
        positional(&["with = \"f\""]),
        positional(&["skip"]),
    ]);
    assert_eq!(traverse_struct(&fields), Ok(vec![step(1), custom(3, "f")]));
    assert_eq!(
        destructure_fields(&fields),
        Ok(Pattern { style: Style::Unnamed, bound: vec![false, true, false, true, false] })
    );
}

#[test]
fn record_without_fields() {
    assert_eq!(
        impl_traversable(&record(&[], Fields::Unit), true),
        Ok(Routine { mutable: true, visit_self: true, body: Body::Record(Vec::new()) })
    );
    assert_eq!(traverse_struct(&Fields::Named(Vec::new())), Ok(Vec::new()));
    assert_eq!(
        destructure_fields(&Fields::Unit),
        Ok(Pattern { style: Style::Unit, bound: Vec::new() })
    );
    assert_eq!(
        destructure_fields(&Fields::Named(Vec::new())),
        Ok(Pattern { style: Style::Named, bound: Vec::new() })
    );
}

#[test]
fn skip_on_the_type_takes_the_self_hooks_out() {
    let input = record(&["skip"], Fields::Named(vec![named("a", &[]), named("b", &[])]));
    assert_eq!(
        impl_traversable(&input, false),
        Ok(Routine { mutable: false, visit_self: false, body: Body::Record(vec![step(0), step(1)]) })
    );
}

#[test]
fn synthesis_is_repeatable_and_the_modes_agree() {
    let input = sum(
        &[],
        vec![
            variant("A", &[], Fields::Named(vec![named("x", &["with = \"f::g\""])])),
            variant("B", &["skip"], Fields::Unit),
        ],
    );
    let first = impl_traversable(&input, false).unwrap();
    let second = impl_traversable(&input, false).unwrap();
    assert_eq!(first, second);
    let mutable = impl_traversable(&input, true).unwrap();
    assert!(mutable.mutable);
    assert!(!first.mutable);
    assert_eq!(mutable.visit_self, first.visit_self);
    assert_eq!(mutable.body, first.body);
}

#[test]
fn sum_type_gets_a_case_for_each_variant() {
    let input = sum(
        &[],
        vec![
            variant("Zero", &[], Fields::Unit),
            variant("One", &[], Fields::Unnamed(vec![positional(&[])])),
        ],
    );
    let zero = Arm {
        variant: 0,
        pattern: Pattern { style: Style::Unit, bound: Vec::new() },
        steps: Vec::new(),
    };
    let one = Arm {
        variant: 1,
        pattern: Pattern { style: Style::Unnamed, bound: vec![true] },
        steps: vec![step(0)],
    };
    assert_eq!(
        impl_traversable(&input, false),
        Ok(Routine { mutable: false, visit_self: true, body: Body::Sum(vec![zero, one]) })
    );
}

#[test]
fn skipped_variant_gets_no_case() {
    let variants = vec![
        variant("A", &["skip"], Fields::Unnamed(vec![positional(&[])])),
        variant("B", &[], Fields::Named(vec![named("x", &["skip"]), named("y", &[])])),
        variant("C", &["skip"], Fields::Unit),
    ];
    let arms = traverse_enum(&variants).unwrap();
    assert_eq!(
        arms,
        vec![Arm {
            variant: 1,
            pattern: Pattern { style: Style::Named, bound: vec![false, true] },
            steps: vec![step(1)],
        }]
    );
    assert_eq!(traverse_variant(&variants[0], 0), Ok(None));
    assert_eq!(traverse_variant(&variants[1], 1).unwrap().unwrap(), arms[0]);
    assert_eq!(traverse_enum(&Vec::new()), Ok(Vec::new()));
}

#[test]
fn skipped_variant_is_not_looked_into() {
    let inside = variant("A", &["skip"], Fields::Unnamed(vec![positional(&["bogus"])]));
    assert_eq!(traverse_variant(&inside, 0), Ok(None));
}

#[test]
fn with_names_the_traversal_function() {
    assert_eq!(traverse_field(&named("a", &["with = \"customFn\""]), 3), Ok(Some(custom(3, "customFn"))));
    assert_eq!(
        traverse_field(&named("a", &["with = \"::outer::inner::<T>::f\""]), 0),
        Ok(Some(custom(0, "::outer::inner::<T>::f")))
    );
    assert_eq!(traverse_field(&named("a", &[]), 7), Ok(Some(step(7))));
    assert_eq!(traverse_field(&named("a", &[""]), 7), Ok(Some(step(7))));
}

#[test]
fn with_wants_a_path_in_a_string() {
    for text in [
        "with = \"not a path!\"",
        "with = \"\"",
        "with = \"a b\"",
        "with = \"1\"",
        "with = 5",
        "with",
        "with(f)",
        "with = f",
    ] {
        let error = traverse_field(&named("a", &[text]), 0).unwrap_err();
        assert_eq!(error.kind, ErrorKind::InvalidParameter, "{text}");
        assert_eq!(error.span, span(0));
    }
}

#[test]
fn skip_wins_over_with() {
    assert_eq!(traverse_field(&named("a", &["skip, with = \"f\""]), 0), Ok(None));
    assert_eq!(traverse_field(&named("a", &["with = \"f\", skip"]), 0), Ok(None));
    assert_eq!(traverse_field(&named("a", &["skip, with = 5"]), 0), Ok(None));
}

#[test]
fn skip_wants_no_value() {
    for text in ["skip = \"yes\"", "skip(all)", "skip = 1"] {
        assert_eq!(
            kind_of(traverse_field(&named("a", &[text]), 0)),
            ErrorKind::InvalidParameter,
            "{text}"
        );
        assert_eq!(
            kind_of(impl_traversable(&record(&[text], Fields::Unit), false)),
            ErrorKind::InvalidParameter
        );
        assert_eq!(
            kind_of(traverse_variant(&variant("A", &[text], Fields::Unit), 0)),
            ErrorKind::InvalidParameter
        );
        assert_eq!(
            kind_of(destructure_fields(&Fields::Named(vec![named("a", &[text])]))),
            ErrorKind::InvalidParameter
        );
    }
}

#[test]
fn unknown_parameter_on_a_field() {
    let error = traverse_field(&named("a", &["other"]), 0).unwrap_err();
    assert_eq!(error.kind, ErrorKind::UnknownParameter);
    assert_eq!(error.span, span(0));
    assert_eq!(error.message, "unknown parameter, supported: skip, with");
    let error = traverse_field(&named("a", &["skip, with = \"f\", rename = \"x\""]), 0).unwrap_err();
    assert_eq!(error.message, "unknown parameter, supported: skip, with");
}

#[test]
fn unknown_parameter_on_a_type_and_on_a_variant() {
    let error = impl_traversable(&record(&["with = \"f\""], Fields::Unit), false).unwrap_err();
    assert_eq!(error.kind, ErrorKind::UnknownParameter);
    assert_eq!(error.message, "unknown parameter, supported: skip");
    let error = traverse_variant(&variant("A", &["with = \"f\""], Fields::Unit), 0).unwrap_err();
    assert_eq!(error.kind, ErrorKind::UnknownParameter);
    assert_eq!(error.message, "unknown parameter, supported: skip");
}

#[test]
fn two_blocks_on_one_point() {
    let twice = ["skip", "skip"];
    let second = span(1);
    let error = impl_traversable(&record(&twice, Fields::Unit), false).unwrap_err();
    assert_eq!((error.kind, error.span), (ErrorKind::DuplicateAttribute, second));
    let error = traverse_field(&named("a", &twice), 0).unwrap_err();
    assert_eq!((error.kind, error.span), (ErrorKind::DuplicateAttribute, second));
    let error = traverse_variant(&variant("A", &twice, Fields::Unit), 0).unwrap_err();
    assert_eq!((error.kind, error.span), (ErrorKind::DuplicateAttribute, second));
    let error = destructure_fields(&Fields::Unnamed(vec![positional(&twice)])).unwrap_err();
    assert_eq!((error.kind, error.span), (ErrorKind::DuplicateAttribute, second));
    let different = ["skip", "with = \"f\""];
    assert_eq!(
        kind_of(traverse_field(&named("a", &different), 0)),
        ErrorKind::DuplicateAttribute
    );
}

#[test]
fn duplicate_parameter_stops_synthesis() {
    let input = record(&[], Fields::Named(vec![named("a", &["skip, skip"])]));
    assert_eq!(kind_of(impl_traversable(&input, false)), ErrorKind::DuplicateParameter);
    assert_eq!(
        kind_of(impl_traversable(&record(&["skip, skip"], Fields::Unit), true)),
        ErrorKind::DuplicateParameter
    );
}

#[test]
fn union_is_not_supported() {
    let input = Declaration {
        attrs: Vec::new(),
        name: "U".to_string(),
        shape: Shape::Opaque(Span { start: 3, end: 8 }),
    };
    let error = impl_traversable(&input, false).unwrap_err();
    assert_eq!(error.kind, ErrorKind::UnsupportedShape);
    assert_eq!(error.span, Span { start: 3, end: 8 });
    assert_eq!(error.message, "unions are not supported");
}

#[test]
fn attributes_of_the_type_are_read_before_its_shape() {
    let input = Declaration {
        attrs: blocks(&["bogus"]),
        name: "U".to_string(),
        shape: Shape::Opaque(span(9)),
    };
    assert_eq!(kind_of(impl_traversable(&input, false)), ErrorKind::UnknownParameter);
}

#[test]
fn first_error_in_declaration_order_is_reported() {
    let fields = Fields::Named(vec![
        named("a", &[]),
        named("b", &["with = 1"]),
        named("c", &["skip, skip"]),
    ]);
    assert_eq!(kind_of(traverse_struct(&fields)), ErrorKind::InvalidParameter);
    let variants = vec![
        variant("A", &[], Fields::Unit),
        variant("B", &["other"], Fields::Unit),
        variant("C", &["skip = 1"], Fields::Unit),
    ];
    assert_eq!(kind_of(traverse_enum(&variants)), ErrorKind::UnknownParameter);
}

#[test]
fn pattern_of_a_variant_is_made_before_its_steps() {
    let fields = Fields::Named(vec![named("a", &["other"]), named("b", &["skip, skip"])]);
    let subject = variant("A", &[], fields);
    assert_eq!(kind_of(traverse_variant(&subject, 0)), ErrorKind::DuplicateParameter);
    assert_eq!(kind_of(traverse_struct(&subject.fields)), ErrorKind::UnknownParameter);
}

#[test]
fn pattern_does_not_check_the_allow_list() {
    let fields = Fields::Named(vec![named("a", &["other"]), named("b", &["skip, other"])]);
    assert_eq!(
        destructure_fields(&fields),
        Ok(Pattern { style: Style::Named, bound: vec![true, false] })
    );
}

#[test]
fn other_attributes_are_passed_over() {
    let doc = Attribute {
        meta: Meta {
            path: Path { leading_colon: false, segments: vec!["doc".to_string()] },
            argument: Argument::Literal("\"skip\"".to_string()),
            span: span(0),
        },
        span: span(0),
    };
    let serde = Attribute {
        meta: Meta {
            path: Path { leading_colon: false, segments: vec!["serde".to_string()] },
            argument: Argument::List("skip".to_string()),
            span: span(1),
        },
        span: span(1),
    };
    let field = Field { attrs: vec![doc, serde], name: Some("a".to_string()) };
    assert_eq!(traverse_field(&field, 0), Ok(Some(step(0))));
}

#[test]
fn choose_via_follows_the_parameter() {
    let here = span(4);
    assert_eq!(choose_via(None, true), Ok(Via::Default));
    assert_eq!(choose_via(None, false), Ok(Via::Default));
    assert_eq!(
        choose_via(Some(Param::StringLiteral(here, "f".to_string())), true),
        Ok(Via::Custom("f".to_string()))
    );
    let error = choose_via(Some(Param::StringLiteral(here, "f".to_string())), false).unwrap_err();
    assert_eq!(error, Error::new(ErrorKind::InvalidParameter, here));
    assert_eq!(kind_of(choose_via(Some(Param::Unit(here)), true)), ErrorKind::InvalidParameter);
    assert_eq!(
        kind_of(choose_via(Some(Param::NestedParams(here)), true)),
        ErrorKind::InvalidParameter
    );
}
