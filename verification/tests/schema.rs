use actix_easy_multipart::group::{Decision, FieldValue, State};
use actix_easy_multipart::schema::{
    parse_limit, FieldAttrs, FieldShape, FormAttrs, FormSchema, ReaderKind, SchemaError,
};
use actix_easy_multipart::{DuplicateAction, Error};

fn field(ident: &str, rename: Option<&str>, limit: Option<&str>, shape: FieldShape) -> FieldAttrs {
    FieldAttrs {
        ident: ident.to_owned(),
        rename: rename.map(str::to_owned),
        limit: limit.map(str::to_owned),
        shape,
        reader: ReaderKind::Text,
    }
}

#[test]
fn limits_are_sizes_with_units() {
    assert_eq!(parse_limit("30B"), Some(30));
    assert_eq!(parse_limit("30"), Some(30));
    assert_eq!(parse_limit("2KiB"), Some(2048));
    assert_eq!(parse_limit("2 KB"), Some(2000));
    assert_eq!(parse_limit("512MiB"), Some(512 * 1024 * 1024));
    assert_eq!(parse_limit("0"), Some(0));
    assert_eq!(parse_limit("0.5 KiB"), Some(512));
    assert_eq!(parse_limit(""), None);
    assert_eq!(parse_limit("many"), None);
    assert_eq!(parse_limit("-1"), None);
    assert_eq!(parse_limit("1 ZB"), None);
    assert_eq!(parse_limit("99999999999999999999999"), None);
}

#[test]
fn limits_of_more_than_twenty_digits_are_no_limits() {
    assert_eq!(parse_limit("18446744073709551615").map(|n| n as u64), Some(u64::MAX));
    assert_eq!(parse_limit("18_446_744_073_709_551_615 B").map(|n| n as u64), Some(u64::MAX));
    assert_eq!(parse_limit("18446744073709551616"), None);
    assert_eq!(parse_limit("184467440737095516155"), None);
    assert_eq!(parse_limit("18446744073709551615.5"), None);
    assert_eq!(parse_limit("12345678901234567.89").map(|n| n as u64), Some(12345678901234568));
    assert_eq!(parse_limit("000000000000000000030"), None);
    assert_eq!(parse_limit("00000000000000000030"), Some(30));
    assert_eq!(parse_limit("1e19").map(|n| n as u64), Some(10_000_000_000_000_000_000));
    let r = FormSchema::new(
        FormAttrs::default(),
        vec![field("a", None, Some("184467440737095516155"), FieldShape::Scalar)],
    );
    assert!(matches!(r, Err(SchemaError::InvalidLimit(text)) if text == "184467440737095516155"));
}

#[test]
fn default_attributes_of_a_form() {
    let attrs = FormAttrs::default();
    assert!(!attrs.deny_unknown_fields);
    assert_eq!(attrs.duplicate_action, DuplicateAction::Ignore);
    assert_eq!(DuplicateAction::default(), DuplicateAction::Ignore);
}

#[test]
fn schema_describes_its_fields() {
    let schema = FormSchema::new(
        FormAttrs { deny_unknown_fields: true, duplicate_action: DuplicateAction::Replace },
        vec![
            field("description", None, Some("2KiB"), FieldShape::Scalar),
            field("files", Some("files[]"), Some("512MiB"), FieldShape::List),
            field("category", None, None, FieldShape::Optional),
        ],
    )
    .unwrap();
    assert_eq!(schema.len(), 3);
    assert!(schema.deny_unknown_fields());
    assert_eq!(schema.duplicate_action(), DuplicateAction::Replace);
    assert_eq!(schema.field(0).name, "description");
    assert_eq!(schema.field(0).limit, Some(2048));
    assert_eq!(schema.field(0).shape, FieldShape::Scalar);
    assert_eq!(schema.field(1).name, "files[]");
    assert_eq!(schema.field(1).limit, Some(536_870_912));
    assert_eq!(schema.field(2).name, "category");
    assert_eq!(schema.field(2).limit, None);
    assert_eq!(schema.field(2).reader, ReaderKind::Text);

    assert_eq!(schema.position("description"), Some(0));
    assert_eq!(schema.position("files[]"), Some(1));
    assert_eq!(schema.position("files"), None);
    assert_eq!(schema.position("category"), Some(2));
    assert_eq!(schema.position(""), None);

    assert_eq!(schema.limit("description"), Some(2048));
    assert_eq!(schema.limit("files[]"), Some(536_870_912));
    assert_eq!(schema.limit("category"), None);
    assert_eq!(schema.limit("unknown"), None);
}

#[test]
fn schema_refuses_a_limit_that_is_no_size() {
    let r = FormSchema::new(
        FormAttrs::default(),
        vec![
            field("a", None, Some("1KiB"), FieldShape::Scalar),
            field("b", None, Some("lots"), FieldShape::Scalar),
            field("c", None, Some("more"), FieldShape::Scalar),
        ],
    );
    assert!(matches!(r, Err(SchemaError::InvalidLimit(text)) if text == "lots"));
}

#[test]
fn schema_refuses_a_repeated_name() {
    let r = FormSchema::new(
        FormAttrs::default(),
        vec![
            field("a", None, None, FieldShape::Scalar),
            field("b", Some("a"), None, FieldShape::Scalar),
            field("c", Some("a"), None, FieldShape::Scalar),
        ],
    );
    assert!(matches!(r, Err(SchemaError::DuplicateName(name)) if name == "a"));
    let r = FormSchema::new(
        FormAttrs::default(),
        vec![
            field("a", Some("x"), None, FieldShape::Scalar),
            field("x", Some("a"), None, FieldShape::Scalar),
        ],
    );
    assert!(r.is_ok());
}

#[test]
fn invalid_limit_is_reported_before_a_repeated_name() {
    let r = FormSchema::new(
        FormAttrs::default(),
        vec![
            field("a", None, None, FieldShape::Scalar),
            field("a", None, None, FieldShape::Scalar),
            field("c", None, Some("?"), FieldShape::Scalar),
        ],
    );
    assert!(matches!(r, Err(SchemaError::InvalidLimit(text)) if text == "?"));
}

#[test]
fn state_stores_by_shape() {
    let schema = FormSchema::new(
        FormAttrs { deny_unknown_fields: false, duplicate_action: DuplicateAction::Replace },
        vec![
            field("one", None, None, FieldShape::Scalar),
            field("maybe", None, None, FieldShape::Optional),
            field("many", None, None, FieldShape::List),
        ],
    )
    .unwrap();
    let mut state: State<u32> = schema.new_state();
    assert_eq!(state.len(), 3);
    assert!(!state.contains(0));
    assert_eq!(schema.handle_field(&state, "one").unwrap(), Decision::Read(0));
    schema.accept(&mut state, 0, 1);
    assert!(state.contains(0));
    assert_eq!(schema.handle_field(&state, "one").unwrap(), Decision::Read(0));
    schema.accept(&mut state, 0, 2);
    assert_eq!(schema.handle_field(&state, "many").unwrap(), Decision::Read(2));
    schema.accept(&mut state, 2, 10);
    schema.accept(&mut state, 2, 11);
    assert_eq!(schema.handle_field(&state, "nobody").unwrap(), Decision::Skip);
    let form = schema.from_state(state).unwrap();
    assert!(matches!(form[0], FieldValue::Scalar(2)));
    assert!(matches!(form[1], FieldValue::Optional(None)));
    assert!(matches!(&form[2], FieldValue::List(items) if items == &vec![10, 11]));
}

#[test]
fn shapes_decide_on_duplicates() {
    let state = {
        let mut state: State<u32> = State::new(2);
        state.insert(0, 5);
        state
    };
    let name = "field";
    for shape in [FieldShape::Scalar, FieldShape::Optional] {
        assert_eq!(shape.handle_field(&state, 1, name, DuplicateAction::Deny).unwrap(), true);
        assert_eq!(shape.handle_field(&state, 0, name, DuplicateAction::Ignore).unwrap(), false);
        assert_eq!(shape.handle_field(&state, 0, name, DuplicateAction::Replace).unwrap(), true);
        let r = shape.handle_field(&state, 0, name, DuplicateAction::Deny);
        assert!(matches!(r, Err(Error::DuplicateField(n)) if n == "field"));
    }
    assert_eq!(FieldShape::List.handle_field(&state, 0, name, DuplicateAction::Deny).unwrap(), true);
}

#[test]
fn shapes_collect_their_values() {
    let mut state: State<u32> = State::new(3);
    state.push(2, 1);
    state.push(2, 2);
    let r = FieldShape::Scalar.from_state("a", &mut state, 0);
    assert!(matches!(r, Err(Error::MissingField(n)) if n == "a"));
    let r = FieldShape::Optional.from_state("b", &mut state, 1);
    assert!(matches!(r, Ok(FieldValue::Optional(None))));
    let r = FieldShape::List.from_state("c", &mut state, 2);
    assert!(matches!(r, Ok(FieldValue::List(items)) if items == vec![1, 2]));
    assert!(!state.contains(2));
    let r = FieldShape::List.from_state("c", &mut state, 2);
    assert!(matches!(r, Ok(FieldValue::List(items)) if items.is_empty()));
    state.insert(0, 9);
    let r = FieldShape::Scalar.from_state("a", &mut state, 0);
    assert!(matches!(r, Ok(FieldValue::Scalar(9))));
    assert_eq!(state.remove(0), Vec::<u32>::new());
    let empty: State<u32> = State::default();
    assert_eq!(empty.len(), 0);
}
