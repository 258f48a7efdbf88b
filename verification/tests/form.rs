use actix_easy_multipart::assembler::{decode_form, FormAction, FormAssembler, FormEvent};
use actix_easy_multipart::bytes::Bytes;
use actix_easy_multipart::error::{FieldError, MultipartError, ParseError, PayloadError};
use actix_easy_multipart::form::{
    check_leaf, leaf_from_body, read_leaf, FormLimits, DEFAULT_MEMORY_LIMIT, DEFAULT_TOTAL_LIMIT,
};
use actix_easy_multipart::group::FieldValue;
use actix_easy_multipart::json::{Json, JsonConfig, JsonFieldError};
use actix_easy_multipart::limits::Limits;
use actix_easy_multipart::part::{DispositionType, PartHead, PartHeaders, RawPart};
use actix_easy_multipart::reader::{FieldReader, ReaderConfig};
use actix_easy_multipart::schema::{
    FieldAttrs, FieldShape, FormAttrs, FormSchema, ReaderKind,
};
use actix_easy_multipart::text::{Text, TextConfig, TextError};
use actix_easy_multipart::{DuplicateAction, Error, MultipartForm, MultipartFormConfig};

type Leaf = actix_easy_multipart::form::Leaf<Vec<u8>>;
type Assembler<'a> = FormAssembler<'a, Vec<u8>>;

fn field(ident: &str, shape: FieldShape, reader: ReaderKind) -> FieldAttrs {
    FieldAttrs { ident: ident.to_owned(), rename: None, limit: None, shape, reader }
}

fn schema_of(attrs: FormAttrs, fields: Vec<FieldAttrs>) -> FormSchema {
    FormSchema::new(attrs, fields).unwrap()
}

fn part(name: &str, content_type: Option<&str>, filename: Option<&str>, body: &str) -> RawPart {
    RawPart {
        headers: PartHeaders {
            disposition: DispositionType::FormData,
            name: Some(name.to_owned()),
            filename: filename.map(str::to_owned),
            content_type: content_type.map(str::to_owned),
        },
        chunks: vec![body.as_bytes().to_vec()],
    }
}

fn text(name: &str, body: &str) -> RawPart {
    part(name, None, None, body)
}

fn generous() -> MultipartFormConfig {
    MultipartFormConfig::default().memory_limit(usize::MAX).total_limit(usize::MAX)
}

fn decode(
    schema: &FormSchema,
    config: &MultipartFormConfig,
    parts: Vec<RawPart>,
) -> Result<Vec<FieldValue<Leaf>>, Error> {
    decode_form(schema, config, &ReaderConfig::default(), &parts)
}

fn scalar_text(value: &FieldValue<Leaf>) -> &str {
    match value {
        FieldValue::Scalar(Leaf::Text(t)) => t.0.as_str(),
        other => panic!("not a scalar text: {:?}", other),
    }
}

fn list_texts(value: &FieldValue<Leaf>) -> Vec<String> {
    match value {
        FieldValue::List(items) => items
            .iter()
            .map(|leaf| match leaf {
                Leaf::Text(t) => t.0.clone(),
                other => panic!("not a text: {:?}", other),
            })
            .collect(),
        other => panic!("not a list: {:?}", other),
    }
}

fn overflow(r: &Result<Vec<FieldValue<Leaf>>, Error>) -> bool {
    matches!(r, Err(Error::Multipart(MultipartError::Payload(PayloadError::Overflow))))
}

#[test]
fn test_options() {
    let schema = schema_of(
        FormAttrs::default(),
        vec![
            field("field1", FieldShape::Optional, ReaderKind::Text),
            field("field2", FieldShape::Optional, ReaderKind::Text),
        ],
    );
    let form = decode(&schema, &MultipartFormConfig::default(), vec![text("field1", "value")])
        .unwrap();
    assert!(matches!(&form[0], FieldValue::Optional(Some(Leaf::Text(t))) if t.0 == "value"));
    assert!(matches!(&form[1], FieldValue::Optional(None)));
}

#[test]
fn test_vec() {
    let schema = schema_of(
        FormAttrs::default(),
        vec![
            field("list1", FieldShape::List, ReaderKind::Text),
            field("list2", FieldShape::List, ReaderKind::Text),
        ],
    );
    let parts = vec![text("list1", "value1"), text("list1", "value2"), text("list1", "value3")];
    let form = decode(&schema, &MultipartFormConfig::default(), parts).unwrap();
    assert_eq!(list_texts(&form[0]), vec!["value1", "value2", "value3"]);
    assert_eq!(list_texts(&form[1]).len(), 0);
}

#[test]
fn test_field_renaming() {
    let mut field1 = field("field1", FieldShape::Scalar, ReaderKind::Text);
    field1.rename = Some("renamed".to_owned());
    let mut field2 = field("field2", FieldShape::Scalar, ReaderKind::Text);
    field2.rename = Some("field1".to_owned());
    let field3 = field("field3", FieldShape::Scalar, ReaderKind::Text);
    let schema = schema_of(FormAttrs::default(), vec![field1, field2, field3]);
    let parts =
        vec![text("renamed", "renamed"), text("field1", "field1"), text("field3", "field3")];
    let form = decode(&schema, &MultipartFormConfig::default(), parts).unwrap();
    assert_eq!(scalar_text(&form[0]), "renamed");
    assert_eq!(scalar_text(&form[1]), "field1");
    assert_eq!(scalar_text(&form[2]), "field3");
}

#[test]
fn test_deny_unknown() {
    let deny = schema_of(
        FormAttrs { deny_unknown_fields: true, duplicate_action: DuplicateAction::Ignore },
        vec![],
    );
    let allow = schema_of(FormAttrs::default(), vec![]);

    let r = decode(&deny, &MultipartFormConfig::default(), vec![text("unknown", "value")]);
    let e = r.err().unwrap();
    assert_eq!(e.status_code(), 400);
    assert!(matches!(e, Error::UnsupportedField(n) if n == "unknown"));

    let r = decode(&allow, &MultipartFormConfig::default(), vec![text("unknown", "value")]);
    assert!(r.unwrap().is_empty());
}

#[test]
fn test_duplicate_action() {
    let make = |name: &str, action: DuplicateAction| {
        schema_of(
            FormAttrs { deny_unknown_fields: false, duplicate_action: action },
            vec![field(name, FieldShape::Scalar, ReaderKind::Text)],
        )
    };
    let config = MultipartFormConfig::default();

    let parts = vec![text("_field", "first_value"), text("_field", "second_value")];
    let r = decode(&make("_field", DuplicateAction::Deny), &config, parts);
    let e = r.err().unwrap();
    assert_eq!(e.status_code(), 400);
    assert!(matches!(e, Error::DuplicateField(n) if n == "_field"));

    let parts = vec![text("field", "first_value"), text("field", "second_value")];
    let form = decode(&make("field", DuplicateAction::Replace), &config, parts).unwrap();
    assert_eq!(scalar_text(&form[0]), "second_value");

    let parts = vec![text("field", "first_value"), text("field", "second_value")];
    let form = decode(&make("field", DuplicateAction::Ignore), &config, parts).unwrap();
    assert_eq!(scalar_text(&form[0]), "first_value");
}

#[test]
fn test_memory_limits() {
    let schema =
        schema_of(FormAttrs::default(), vec![field("field", FieldShape::Scalar, ReaderKind::Bytes)]);
    let config = MultipartFormConfig::default().memory_limit(20).total_limit(usize::MAX);

    // Exceeds the 20 byte memory limit
    let r = decode(&schema, &config, vec![text("field", "this string is 28 bytes long")]);
    assert!(overflow(&r));
    assert_eq!(r.err().unwrap().status_code(), 400);

    // Memory limit should not apply when the data is being streamed to disk
    let files =
        schema_of(FormAttrs::default(), vec![field("field", FieldShape::Scalar, ReaderKind::File)]);
    let form = decode(&files, &config, vec![text("field", "this string is 28 bytes long")]).unwrap();
    match &form[0] {
        FieldValue::Scalar(Leaf::File(file)) => {
            assert!(file.size > 0);
            assert_eq!(file.size, 28);
            assert_eq!(file.file, b"this string is 28 bytes long".to_vec());
        }
        other => panic!("not a file: {:?}", other),
    }
}

#[test]
fn test_total_limit() {
    let schema =
        schema_of(FormAttrs::default(), vec![field("field", FieldShape::Scalar, ReaderKind::Bytes)]);
    let config = MultipartFormConfig::default().memory_limit(usize::MAX).total_limit(20);

    // Within the 20 byte limit
    let form = decode(&schema, &config, vec![text("field", "7 bytes")]).unwrap();
    assert!(matches!(&form[0], FieldValue::Scalar(Leaf::Bytes(b)) if b.data == b"7 bytes"));

    // Exceeds the 20 byte overall limit
    let r = decode(&schema, &config, vec![text("field", "this string is 28 bytes long")]);
    assert!(overflow(&r));

    // Exceeds the 20 byte overall limit
    let files =
        schema_of(FormAttrs::default(), vec![field("field", FieldShape::Scalar, ReaderKind::File)]);
    let r = decode(&files, &config, vec![text("field", "this string is 28 bytes long")]);
    assert!(overflow(&r));
    assert_eq!(r.err().unwrap().status_code(), 400);
}

#[test]
fn test_field_level_limits() {
    let mut limited = field("field", FieldShape::List, ReaderKind::Bytes);
    limited.limit = Some("30B".to_owned());
    let schema = schema_of(FormAttrs::default(), vec![limited]);
    let config = generous();

    // Within the 30 byte limit
    let r = decode(&schema, &config, vec![text("field", "this string is 28 bytes long")]);
    assert!(matches!(&r.unwrap()[0], FieldValue::List(items) if items.len() > 0));

    // Exceeds the the 30 byte limit
    let r = decode(&schema, &config, vec![text("field", "this string is more than 30 bytes long")]);
    assert!(overflow(&r));
    assert_eq!(r.err().unwrap().status_code(), 400);

    // Total of values (14 bytes) is within 30 byte limit for "field"
    let r = decode(&schema, &config, vec![text("field", "7 bytes"), text("field", "7 bytes")]);
    assert!(matches!(&r.unwrap()[0], FieldValue::List(items) if items.len() == 2));

    // Total of values exceeds 30 byte limit for "field"
    let r = decode(
        &schema,
        &config,
        vec![
            text("field", "this string is 28 bytes long"),
            text("field", "this string is 28 bytes long"),
        ],
    );
    assert!(overflow(&r));
}

#[test]
fn field_limit_counts_the_bytes_however_they_are_spread() {
    let mut limited = field("field", FieldShape::List, ReaderKind::Bytes);
    limited.limit = Some("30B".to_owned());
    let other = field("other", FieldShape::List, ReaderKind::Bytes);
    let schema = schema_of(FormAttrs::default(), vec![limited, other]);
    let config = generous();
    let bytes = |n: usize| "x".repeat(n);

    let thirty_ones: Vec<RawPart> = (0..30).map(|_| text("field", "x")).collect();
    assert!(decode(&schema, &config, thirty_ones).is_ok());
    let thirty_one_ones: Vec<RawPart> = (0..31).map(|_| text("field", "x")).collect();
    assert!(overflow(&decode(&schema, &config, thirty_one_ones)));

    for spread in [vec![30], vec![10, 10, 10], vec![0, 29, 1], vec![15, 0, 15], vec![1, 29]] {
        let parts = spread.iter().map(|n| text("field", &bytes(*n))).collect();
        assert!(decode(&schema, &config, parts).is_ok(), "{:?}", spread);
    }
    for spread in [vec![31], vec![10, 10, 11], vec![30, 1], vec![1, 30], vec![16, 15]] {
        let parts = spread.iter().map(|n| text("field", &bytes(*n))).collect();
        assert!(overflow(&decode(&schema, &config, parts)), "{:?}", spread);
    }

    // parts of another name between them take nothing from the limit
    let parts = vec![
        text("field", &bytes(15)),
        text("other", &bytes(100)),
        text("field", &bytes(15)),
    ];
    assert!(decode(&schema, &config, parts).is_ok());
    let parts = vec![
        text("field", &bytes(15)),
        text("other", &bytes(100)),
        text("field", &bytes(16)),
    ];
    assert!(overflow(&decode(&schema, &config, parts)));

    // a part in several chunks counts as a whole
    let mut chunked = text("field", "");
    chunked.chunks = vec![vec![b'x'; 10], vec![b'x'; 10], vec![b'x'; 11]];
    assert!(overflow(&decode(&schema, &config, vec![chunked])));
    let mut chunked = text("field", "");
    chunked.chunks = vec![vec![b'x'; 10], vec![b'x'; 10], vec![b'x'; 10]];
    assert!(decode(&schema, &config, vec![chunked]).is_ok());
}

#[test]
fn duplicate_policy_on_two_text_parts() {
    let make = |action: DuplicateAction| {
        schema_of(
            FormAttrs { deny_unknown_fields: false, duplicate_action: action },
            vec![field("field", FieldShape::Scalar, ReaderKind::Text)],
        )
    };
    let parts = || vec![text("field", "first"), text("field", "second")];
    let config = MultipartFormConfig::default();

    let form = decode(&make(DuplicateAction::Replace), &config, parts()).unwrap();
    assert_eq!(scalar_text(&form[0]), "second");

    let r = decode(&make(DuplicateAction::Deny), &config, parts());
    assert!(matches!(r, Err(Error::DuplicateField(n)) if n == "field"));

    let form = decode(&make(DuplicateAction::Ignore), &config, parts()).unwrap();
    assert_eq!(scalar_text(&form[0]), "first");
}

#[test]
fn ignored_duplicate_is_neither_read_nor_charged() {
    let schema = schema_of(
        FormAttrs::default(),
        vec![field("field", FieldShape::Optional, ReaderKind::Integer)],
    );
    let config = MultipartFormConfig::default().total_limit(2);
    let parts = vec![text("field", "12"), text("field", "not a number and far too long")];
    let form = decode(&schema, &config, parts).unwrap();
    assert!(matches!(&form[0], FieldValue::Optional(Some(Leaf::Integer(n))) if n.0 == 12));
}

#[test]
fn duplicates_do_not_concern_a_list() {
    let schema = schema_of(
        FormAttrs { deny_unknown_fields: false, duplicate_action: DuplicateAction::Deny },
        vec![field("tags", FieldShape::List, ReaderKind::Text)],
    );
    let parts = vec![text("tags", "a"), text("tags", "b"), text("tags", "c")];
    let form = decode(&schema, &MultipartFormConfig::default(), parts).unwrap();
    assert_eq!(list_texts(&form[0]), vec!["a", "b", "c"]);
}

#[test]
fn missing_required_field() {
    let required =
        schema_of(FormAttrs::default(), vec![field("x", FieldShape::Scalar, ReaderKind::Text)]);
    let r = decode(&required, &MultipartFormConfig::default(), vec![]);
    let e = r.err().unwrap();
    assert!(e.is_field_scoped());
    assert_eq!(e.field_name(), Some("x"));
    assert!(matches!(e, Error::MissingField(n) if n == "x"));

    let optional =
        schema_of(FormAttrs::default(), vec![field("x", FieldShape::Optional, ReaderKind::Text)]);
    let form = decode(&optional, &MultipartFormConfig::default(), vec![]).unwrap();
    assert_eq!(form.len(), 1);
    assert!(matches!(&form[0], FieldValue::Optional(None)));
}

#[test]
fn first_missing_field_in_the_order_of_the_form_is_reported() {
    let schema = schema_of(
        FormAttrs::default(),
        vec![
            field("a", FieldShape::Optional, ReaderKind::Text),
            field("b", FieldShape::Scalar, ReaderKind::Text),
            field("c", FieldShape::Scalar, ReaderKind::Text),
        ],
    );
    let r = decode(&schema, &MultipartFormConfig::default(), vec![]);
    assert!(matches!(r, Err(Error::MissingField(n)) if n == "b"));
    let r = decode(&schema, &MultipartFormConfig::default(), vec![text("b", "1")]);
    assert!(matches!(r, Err(Error::MissingField(n)) if n == "c"));
}

#[test]
fn list_field() {
    let schema =
        schema_of(FormAttrs::default(), vec![field("tags", FieldShape::List, ReaderKind::Text)]);
    let parts = vec![text("tags", "a"), text("tags", "b"), text("tags", "c")];
    let form = decode(&schema, &MultipartFormConfig::default(), parts).unwrap();
    assert_eq!(list_texts(&form[0]), vec!["a", "b", "c"]);

    let form = decode(&schema, &MultipartFormConfig::default(), vec![]).unwrap();
    assert_eq!(list_texts(&form[0]), Vec::<String>::new());
}

#[test]
fn decoding_again_gives_the_same_order() {
    let schema = schema_of(
        FormAttrs::default(),
        vec![
            field("tags", FieldShape::List, ReaderKind::Text),
            field("numbers", FieldShape::List, ReaderKind::Integer),
        ],
    );
    let parts = || {
        vec![
            text("tags", "z"),
            text("numbers", "3"),
            text("tags", "a"),
            text("numbers", "1"),
            text("tags", "m"),
            text("numbers", "2"),
        ]
    };
    let once = decode(&schema, &generous(), parts()).unwrap();
    let twice = decode(&schema, &generous(), parts()).unwrap();
    assert_eq!(list_texts(&once[0]), vec!["z", "a", "m"]);
    assert_eq!(list_texts(&once[0]), list_texts(&twice[0]));
    let numbers = |value: &FieldValue<Leaf>| -> Vec<i64> {
        match value {
            FieldValue::List(items) => items
                .iter()
                .map(|leaf| match leaf {
                    Leaf::Integer(n) => n.0,
                    other => panic!("not a number: {:?}", other),
                })
                .collect(),
            other => panic!("not a list: {:?}", other),
        }
    };
    assert_eq!(numbers(&once[1]), vec![3, 1, 2]);
    assert_eq!(numbers(&once[1]), numbers(&twice[1]));
}

#[test]
fn unknown_field() {
    let fields = || vec![field("known", FieldShape::Optional, ReaderKind::Text)];
    let deny = schema_of(
        FormAttrs { deny_unknown_fields: true, duplicate_action: DuplicateAction::Ignore },
        fields(),
    );
    let r = decode(&deny, &MultipartFormConfig::default(), vec![text("extra", "value")]);
    assert!(matches!(r, Err(Error::UnsupportedField(n)) if n == "extra"));

    let allow = schema_of(FormAttrs::default(), fields());
    let with = decode(
        &allow,
        &MultipartFormConfig::default(),
        vec![text("extra", "value"), text("known", "kept"), text("extra", "again")],
    )
    .unwrap();
    let without =
        decode(&allow, &MultipartFormConfig::default(), vec![text("known", "kept")]).unwrap();
    assert_eq!(with.len(), without.len());
    assert!(matches!(&with[0], FieldValue::Optional(Some(Leaf::Text(t))) if t.0 == "kept"));
    assert!(matches!(&without[0], FieldValue::Optional(Some(Leaf::Text(t))) if t.0 == "kept"));
}

#[test]
fn dropped_unknown_part_is_not_charged() {
    let allow = schema_of(FormAttrs::default(), vec![]);
    let config = MultipartFormConfig::default().total_limit(0);
    assert!(decode(&allow, &config, vec![text("extra", "far more than nothing")]).is_ok());
}

#[test]
fn malformed_part_is_fatal_for_the_form() {
    let schema = schema_of(FormAttrs::default(), vec![]);
    let mut nameless = text("a", "1");
    nameless.headers.name = None;
    let r = decode(&schema, &MultipartFormConfig::default(), vec![nameless]);
    let e = r.err().unwrap();
    assert!(!e.is_field_scoped());
    assert!(!e.is_payload_too_large());
    assert_eq!(e.field_name(), None);
    assert!(matches!(e, Error::Multipart(MultipartError::Parse(ParseError::Header))));
}

#[test]
fn failure_of_a_part_comes_before_a_missing_field() {
    let schema = schema_of(
        FormAttrs::default(),
        vec![
            field("first", FieldShape::Scalar, ReaderKind::Text),
            field("number", FieldShape::Scalar, ReaderKind::Integer),
        ],
    );
    let r = decode(&schema, &MultipartFormConfig::default(), vec![text("number", "x")]);
    match r {
        Err(Error::Field { field_name, source }) => {
            assert_eq!(field_name, "number");
            assert!(matches!(source, FieldError::Text(TextError::Deserialize(_))));
        }
        other => panic!("unexpected result {:?}", other),
    }
}

#[test]
fn test_json_without_content_type() {
    let schema =
        schema_of(FormAttrs::default(), vec![field("json", FieldShape::Scalar, ReaderKind::Json)]);
    let readers = ReaderConfig {
        text: TextConfig::default(),
        json: JsonConfig::default().validate_content_type(false),
    };
    let parts = vec![text("json", "{\"key1\": \"value1\", \"key2\": \"value2\"}")];
    let form = decode_form(&schema, &MultipartFormConfig::default(), &readers, &parts).unwrap();
    let mut expected = serde_json::Map::new();
    expected.insert("key1".to_owned(), serde_json::Value::String("value1".to_owned()));
    expected.insert("key2".to_owned(), serde_json::Value::String("value2".to_owned()));
    match &form[0] {
        FieldValue::Scalar(Leaf::Json(json)) => {
            assert_eq!(json.0, serde_json::Value::Object(expected))
        }
        other => panic!("not a JSON document: {:?}", other),
    }
}

#[test]
fn json_test_content_type_validation() {
    let schema =
        schema_of(FormAttrs::default(), vec![field("json", FieldShape::Scalar, ReaderKind::Json)]);
    let readers = ReaderConfig {
        text: TextConfig::default(),
        json: JsonConfig::default().validate_content_type(true),
    };
    let body = "{\"key1\": \"value1\", \"key2\": \"value2\"}";

    // Deny because wrong content type
    let parts = vec![part("json", Some("application/octet-stream"), Some(""), body)];
    let r = decode_form(&schema, &MultipartFormConfig::default(), &readers, &parts);
    match r {
        Err(e) => {
            assert_eq!(e.status_code(), 400);
            assert!(matches!(
                e,
                Error::Field { field_name, source: FieldError::Json(JsonFieldError::ContentType) }
                    if field_name == "json"
            ));
        }
        Ok(_) => panic!("a part that is not JSON was decoded"),
    }

    // Allow because correct content type
    let parts = vec![part("json", Some("application/json"), Some(""), body)];
    let r = decode_form(&schema, &MultipartFormConfig::default(), &readers, &parts);
    assert!(matches!(&r.unwrap()[0], FieldValue::Scalar(Leaf::Json(_))));
}

#[test]
fn json_content_type_rules() {
    let head = |content_type: Option<&str>| PartHead {
        name: "json".to_owned(),
        filename: None,
        content_type: content_type.map(|c| {
            actix_easy_multipart::media::MediaType::parse(c).unwrap()
        }),
    };
    let strict = JsonConfig::default();
    assert!(strict.check_content_type(&head(Some("application/json"))).is_ok());
    assert!(strict.check_content_type(&head(Some("application/ld+json"))).is_ok());
    assert!(strict.check_content_type(&head(Some("text/json; charset=utf-8"))).is_ok());
    assert!(strict.check_content_type(&head(Some("text/plain"))).is_err());
    assert!(strict.check_content_type(&head(None)).is_err());
    let lax = JsonConfig::default().validate_content_type(false);
    assert!(lax.check_content_type(&head(Some("text/plain"))).is_ok());
    assert!(lax.check_content_type(&head(None)).is_ok());
}

#[test]
fn body_that_is_not_json_fails_under_the_name_of_the_field() {
    let r = Json::<serde_json::Value>::from_body("doc", &b"{\"key1\": ".to_vec());
    match r {
        Err(Error::Field { field_name, source }) => {
            assert_eq!(field_name, "doc");
            match source {
                FieldError::Json(JsonFieldError::Deserialize(message)) => {
                    assert!(!message.is_empty())
                }
                other => panic!("unexpected cause {:?}", other),
            }
        }
        other => panic!("unexpected result {:?}", other),
    }
    let ok = Json::<serde_json::Value>::from_body("doc", &b"[1, 2, 3]".to_vec()).unwrap();
    assert_eq!(ok.into_inner().as_array().unwrap().len(), 3);
}

#[test]
fn text_test_content_type_validation() {
    let schema = schema_of(
        FormAttrs::default(),
        vec![field("number", FieldShape::Scalar, ReaderKind::Integer)],
    );
    let readers = ReaderConfig {
        text: TextConfig::default().validate_content_type(true),
        json: JsonConfig::default(),
    };

    // Deny because wrong content type
    let parts = vec![part("number", Some("application/octet-stream"), Some(""), "1025")];
    let r = decode_form(&schema, &MultipartFormConfig::default(), &readers, &parts);
    match r {
        Err(e) => {
            assert_eq!(e.status_code(), 400);
            assert!(matches!(
                e,
                Error::Field { field_name, source: FieldError::Text(TextError::ContentType) }
                    if field_name == "number"
            ));
        }
        Ok(_) => panic!("a part that is not text was decoded"),
    }

    // Allow because correct content type
    let parts = vec![part("number", Some("text/plain"), Some(""), "1025")];
    let form = decode_form(&schema, &MultipartFormConfig::default(), &readers, &parts).unwrap();
    assert!(matches!(&form[0], FieldValue::Scalar(Leaf::Integer(n)) if n.0 == 1025));

    // The same for a field of 32 bits
    let head = |content_type: &str| PartHead {
        name: "number".to_owned(),
        filename: Some("".to_owned()),
        content_type: actix_easy_multipart::media::MediaType::parse(content_type),
    };
    let chunks = vec![b"1025".to_vec()];
    let mut limits = Limits::new(100, 100);
    let r = Text::<i32>::read_field(&readers, head("application/octet-stream"), &chunks, &mut limits);
    assert!(matches!(
        r,
        Err(Error::Field { source: FieldError::Text(TextError::ContentType), .. })
    ));
    assert_eq!(limits.total_limit_remaining, 100);
    let number = Text::<i32>::read_field(&readers, head("text/plain"), &chunks, &mut limits);
    assert_eq!(number.unwrap().into_inner(), 1025);
    assert_eq!(limits.total_limit_remaining, 96);
    let r = Text::<i32>::read_field(
        &readers,
        head("text/plain"),
        &vec![b"2147483648".to_vec()],
        &mut limits,
    );
    assert!(matches!(
        r,
        Err(Error::Field { source: FieldError::Text(TextError::Deserialize(_)), .. })
    ));
}

#[test]
fn text_content_type_rules() {
    let head = |content_type: Option<&str>| PartHead {
        name: "text".to_owned(),
        filename: None,
        content_type: content_type.map(|c| {
            actix_easy_multipart::media::MediaType::parse(c).unwrap()
        }),
    };
    let strict = TextConfig::default();
    assert!(strict.check_content_type(&head(None)).is_ok());
    assert!(strict.check_content_type(&head(Some("text/plain"))).is_ok());
    assert!(strict.check_content_type(&head(Some("text/plain; charset=utf-8"))).is_ok());
    assert!(strict.check_content_type(&head(Some("application/x+plain"))).is_ok());
    assert!(strict.check_content_type(&head(Some("text/html"))).is_err());
    let lax = TextConfig::default().validate_content_type(false);
    assert!(lax.check_content_type(&head(Some("text/html"))).is_ok());
}

#[test]
fn text_that_is_not_utf8_fails_under_the_name_of_the_field() {
    let schema =
        schema_of(FormAttrs::default(), vec![field("t", FieldShape::Scalar, ReaderKind::Text)]);
    let mut broken = text("t", "");
    broken.chunks = vec![vec![b'a', 0xff]];
    let r = decode(&schema, &MultipartFormConfig::default(), vec![broken]);
    assert!(matches!(
        r,
        Err(Error::Field { field_name, source: FieldError::Text(TextError::Utf8Error(_)) })
            if field_name == "t"
    ));
}

#[test]
fn text_field_keeps_the_text_as_it_is() {
    let head = PartHead { name: "t".to_owned(), filename: None, content_type: None };
    let mut limits = Limits::new(100, 100);
    let chunks = vec![" 12 ".as_bytes().to_vec(), "é\n".as_bytes().to_vec()];
    let value =
        Text::<String>::read_field(&ReaderConfig::default(), head, &chunks, &mut limits).unwrap();
    assert_eq!(value.into_inner(), " 12 é\n");
    assert_eq!(limits.total_limit_remaining, 93);
    assert_eq!(limits.memory_limit_remaining, 93);
}

#[test]
fn integer_field_reads_decimal_integers_only() {
    let read = |body: &str| {
        let head = PartHead { name: "n".to_owned(), filename: None, content_type: None };
        let mut limits = Limits::new(100, 100);
        Text::<i64>::read_field(
            &ReaderConfig::default(),
            head,
            &vec![body.as_bytes().to_vec()],
            &mut limits,
        )
        .map(|n| n.into_inner())
    };
    assert_eq!(read("23").unwrap(), 23);
    assert_eq!(read("-23").unwrap(), -23);
    assert_eq!(read("+23").unwrap(), 23);
    assert_eq!(read("0023").unwrap(), 23);
    assert_eq!(read("-9223372036854775808").unwrap(), i64::MIN);
    for body in ["", "+", "-", "23 ", " 23", "2_3", "2.0", "9223372036854775808", "twenty"] {
        assert!(
            matches!(
                read(body),
                Err(Error::Field { source: FieldError::Text(TextError::Deserialize(_)), .. })
            ),
            "{:?}",
            body
        );
    }
}

#[test]
fn bytes_field_keeps_what_the_part_declares() {
    let head = PartHead {
        name: "upload".to_owned(),
        filename: Some("a.png".to_owned()),
        content_type: actix_easy_multipart::media::MediaType::parse("image/png"),
    };
    let mut limits = Limits::new(10, 10);
    let chunks = vec![vec![1u8, 2], vec![], vec![3]];
    let bytes = Bytes::read_field(&ReaderConfig::default(), head, &chunks, &mut limits).unwrap();
    assert_eq!(bytes.data, vec![1, 2, 3]);
    assert_eq!(bytes.file_name.as_deref(), Some("a.png"));
    assert_eq!(bytes.content_type.unwrap().subtype, "png");
    assert_eq!(limits.total_limit_remaining, 7);
    assert_eq!(limits.memory_limit_remaining, 7);
}

#[test]
fn read_leaf_uses_the_reader_of_the_field() {
    let head = || PartHead { name: "f".to_owned(), filename: None, content_type: None };
    let chunks = vec![b"42".to_vec()];
    let config = ReaderConfig::default();
    let mut limits = Limits::new(100, 100);
    let leaf = read_leaf(ReaderKind::Bytes, &config, head(), &chunks, &mut limits).unwrap();
    assert!(matches!(leaf, Leaf::Bytes(b) if b.data == b"42"));
    let leaf = read_leaf(ReaderKind::Text, &config, head(), &chunks, &mut limits).unwrap();
    assert!(matches!(leaf, Leaf::Text(t) if t.0 == "42"));
    let leaf = read_leaf(ReaderKind::Integer, &config, head(), &chunks, &mut limits).unwrap();
    assert!(matches!(leaf, Leaf::Integer(n) if n.0 == 42));
    let r = read_leaf(ReaderKind::Json, &config, head(), &chunks, &mut limits);
    assert!(matches!(
        r,
        Err(Error::Field { source: FieldError::Json(JsonFieldError::ContentType), .. })
    ));
    assert_eq!(limits.total_limit_remaining, 94);
}

#[test]
fn defaults_of_the_form_config() {
    assert_eq!(DEFAULT_TOTAL_LIMIT, 50 * 1024 * 1024);
    assert_eq!(DEFAULT_MEMORY_LIMIT, 2 * 1024 * 1024);
    let limits = MultipartFormConfig::default().limits();
    assert_eq!(limits.total_limit_remaining, 52_428_800);
    assert_eq!(limits.memory_limit_remaining, 2_097_152);
    assert_eq!(limits.field_limit_remaining, None);
    let limits = MultipartFormConfig::default().total_limit(7).memory_limit(3).limits();
    assert_eq!(limits.total_limit_remaining, 7);
    assert_eq!(limits.memory_limit_remaining, 3);
    assert_eq!(MultipartFormConfig::default().parts_allowed(), 1000);
    assert_eq!(MultipartFormConfig::default().max_parts(3).parts_allowed(), 3);
    let _ = FormLimits { total_limit: 7, memory_limit: 3, max_parts: 3 };
}

#[test]
fn form_wrapper_hands_out_its_form() {
    let form = MultipartForm(vec![1, 2, 3]);
    assert_eq!(form.into_inner(), vec![1, 2, 3]);
}

#[test]
fn leaf_is_checked_before_and_decoded_after_its_body_is_read() {
    let head = |content_type: Option<&str>| PartHead {
        name: "f".to_owned(),
        filename: None,
        content_type: content_type.map(|c| {
            actix_easy_multipart::media::MediaType::parse(c).unwrap()
        }),
    };
    let config = ReaderConfig::default();
    assert!(check_leaf(ReaderKind::Bytes, &config, &head(Some("image/png"))).is_ok());
    assert!(check_leaf(ReaderKind::Text, &config, &head(None)).is_ok());
    assert!(check_leaf(ReaderKind::Json, &config, &head(Some("application/json"))).is_ok());
    let r = check_leaf(ReaderKind::Text, &config, &head(Some("image/png")));
    assert!(matches!(
        r,
        Err(Error::Field { source: FieldError::Text(TextError::ContentType), .. })
    ));
    let r = check_leaf(ReaderKind::Integer, &config, &head(Some("image/png")));
    assert!(matches!(
        r,
        Err(Error::Field { source: FieldError::Text(TextError::ContentType), .. })
    ));
    let r = check_leaf(ReaderKind::Json, &config, &head(None));
    assert!(matches!(
        r,
        Err(Error::Field { source: FieldError::Json(JsonFieldError::ContentType), .. })
    ));

    let leaf = leaf_from_body::<Vec<u8>>(ReaderKind::Bytes, head(None), vec![0xff]).unwrap();
    assert!(matches!(leaf, Leaf::Bytes(b) if b.data == vec![0xff]));
    let leaf = leaf_from_body::<Vec<u8>>(ReaderKind::Text, head(None), b"hi".to_vec()).unwrap();
    assert!(matches!(leaf, Leaf::Text(t) if t.0 == "hi"));
    let leaf = leaf_from_body::<Vec<u8>>(ReaderKind::Integer, head(None), b"-7".to_vec()).unwrap();
    assert!(matches!(leaf, Leaf::Integer(n) if n.0 == -7));
    let leaf = leaf_from_body::<Vec<u8>>(ReaderKind::Json, head(None), b"{}".to_vec()).unwrap();
    assert!(matches!(leaf, Leaf::Json(j) if j.0.is_object()));
    let r = leaf_from_body::<Vec<u8>>(ReaderKind::Text, head(None), vec![0xff]);
    assert!(matches!(
        r,
        Err(Error::Field { source: FieldError::Text(TextError::Utf8Error(_)), .. })
    ));
    let r = leaf_from_body::<Vec<u8>>(ReaderKind::Integer, head(None), b"seven".to_vec());
    assert!(matches!(
        r,
        Err(Error::Field { source: FieldError::Text(TextError::Deserialize(_)), .. })
    ));
    let r = leaf_from_body::<Vec<u8>>(ReaderKind::Json, head(None), b"{".to_vec());
    assert!(matches!(
        r,
        Err(Error::Field { source: FieldError::Json(JsonFieldError::Deserialize(_)), .. })
    ));
}

#[test]
fn assembler_walks_a_form() {
    let mut limited = field("tags", FieldShape::List, ReaderKind::Text);
    limited.limit = Some("5B".to_owned());
    let schema = schema_of(
        FormAttrs::default(),
        vec![limited, field("n", FieldShape::Scalar, ReaderKind::Integer)],
    );
    let config = MultipartFormConfig::default();
    let headers = |name: &str| text(name, "").headers;
    let a = Assembler::new(&schema, &config, ReaderConfig::default());
    let (a, action) = a.step(FormEvent::Part(headers("tags")));
    assert!(matches!(action, FormAction::ReadChunk));
    let (a, action) = a.step(FormEvent::Chunk(b"ab".to_vec()));
    assert!(matches!(action, FormAction::ReadChunk));
    let (a, action) = a.step(FormEvent::BodyEnd);
    assert!(matches!(action, FormAction::ReadPart));
    let (a, action) = a.step(FormEvent::Part(headers("unknown")));
    assert!(matches!(action, FormAction::SkipPart));
    let (a, action) = a.step(FormEvent::Part(headers("n")));
    assert!(matches!(action, FormAction::ReadChunk));
    let (a, action) = a.step(FormEvent::Chunk(b"4".to_vec()));
    assert!(matches!(action, FormAction::ReadChunk));
    let (a, action) = a.step(FormEvent::Chunk(b"2".to_vec()));
    assert!(matches!(action, FormAction::ReadChunk));
    let (a, action) = a.step(FormEvent::BodyEnd);
    assert!(matches!(action, FormAction::ReadPart));
    let (a, action) = a.step(FormEvent::Part(headers("n")));
    assert!(matches!(action, FormAction::SkipPart));
    let (a, action) = a.step(FormEvent::Part(headers("tags")));
    assert!(matches!(action, FormAction::ReadChunk));
    let (a, action) = a.step(FormEvent::Chunk(b"cde".to_vec()));
    assert!(matches!(action, FormAction::ReadChunk));
    let (a, action) = a.step(FormEvent::BodyEnd);
    assert!(matches!(action, FormAction::ReadPart));
    let (a, action) = a.step(FormEvent::End);
    assert!(matches!(action, FormAction::Stop));
    let form = a.finish().unwrap();
    assert_eq!(list_texts(&form[0]), vec!["ab", "cde"]);
    assert!(matches!(&form[1], FieldValue::Scalar(Leaf::Integer(n)) if n.0 == 42));
}

#[test]
fn assembler_charges_each_chunk_against_the_limit_of_the_field() {
    let mut limited = field("tags", FieldShape::List, ReaderKind::Text);
    limited.limit = Some("5B".to_owned());
    let schema = schema_of(FormAttrs::default(), vec![limited]);
    let config = MultipartFormConfig::default();
    let headers = |name: &str| text(name, "").headers;
    let a = Assembler::new(&schema, &config, ReaderConfig::default());
    let (a, _) = a.step(FormEvent::Part(headers("tags")));
    let (a, _) = a.step(FormEvent::Chunk(b"abc".to_vec()));
    let (a, _) = a.step(FormEvent::BodyEnd);
    let (a, _) = a.step(FormEvent::Part(headers("tags")));
    let (a, action) = a.step(FormEvent::Chunk(b"de".to_vec()));
    assert!(matches!(action, FormAction::ReadChunk));
    let (a, action) = a.step(FormEvent::Chunk(b"f".to_vec()));
    assert!(matches!(action, FormAction::Stop));
    let (a, action) = a.step(FormEvent::BodyEnd);
    assert!(matches!(action, FormAction::Stop));
    let e = a.finish().err().unwrap();
    assert!(e.is_payload_too_large());
}

#[test]
fn assembler_fails_on_a_broken_stream_and_on_events_out_of_turn() {
    let schema =
        schema_of(FormAttrs::default(), vec![field("a", FieldShape::Optional, ReaderKind::Text)]);
    let config = MultipartFormConfig::default();
    let headers = |name: &str| text(name, "").headers;

    let a = Assembler::new(&schema, &config, ReaderConfig::default());
    let (a, action) = a.step(FormEvent::Failure(MultipartError::Payload(PayloadError::Incomplete)));
    assert!(matches!(action, FormAction::Stop));
    assert!(matches!(
        a.finish(),
        Err(Error::Multipart(MultipartError::Payload(PayloadError::Incomplete)))
    ));

    let a = Assembler::new(&schema, &config, ReaderConfig::default());
    let (a, action) = a.step(FormEvent::BodyEnd);
    assert!(matches!(action, FormAction::Stop));
    assert!(a.finish().is_err());

    let a = Assembler::new(&schema, &config, ReaderConfig::default());
    let (a, _) = a.step(FormEvent::Part(headers("a")));
    let (a, action) = a.step(FormEvent::End);
    assert!(matches!(action, FormAction::Stop));
    assert!(a.finish().is_err());

    let a = Assembler::new(&schema, &config, ReaderConfig::default());
    let (a, _) = a.step(FormEvent::Part(headers("a")));
    assert!(matches!(
        a.finish(),
        Err(Error::Multipart(MultipartError::Payload(PayloadError::Incomplete)))
    ));

    let a = Assembler::new(&schema, &config, ReaderConfig::default());
    let (a, _) = a.step(FormEvent::End);
    let (a, action) = a.step(FormEvent::Part(headers("a")));
    assert!(matches!(action, FormAction::Stop));
    assert!(matches!(&a.finish().unwrap()[0], FieldValue::Optional(None)));
}

#[test]
fn more_parts_than_allowed_fail_the_form() {
    let schema =
        schema_of(FormAttrs::default(), vec![field("tags", FieldShape::List, ReaderKind::Text)]);
    let config = MultipartFormConfig::default().max_parts(2);
    let two = vec![text("tags", "a"), text("unknown", "b")];
    assert!(decode(&schema, &config, two).is_ok());
    let three = vec![text("tags", "a"), text("unknown", "b"), text("tags", "c")];
    let r = decode(&schema, &config, three);
    assert!(overflow(&r));
    assert!(r.err().unwrap().is_payload_too_large());
    let none = MultipartFormConfig::default().max_parts(0);
    assert!(decode(&schema, &none, vec![]).is_ok());
    assert!(overflow(&decode(&schema, &none, vec![text("unknown", "")])));
}

#[test]
fn file_field_is_streamed_to_storage() {
    let schema = schema_of(
        FormAttrs::default(),
        vec![field("upload", FieldShape::List, ReaderKind::File)],
    );
    let config = MultipartFormConfig::default().memory_limit(0).total_limit(10);
    let mut first = part("upload", Some("image/png"), Some("a.png"), "");
    first.chunks = vec![vec![1, 2], vec![], vec![3]];
    let second = part("upload", None, None, "xyz");
    let form = decode(&schema, &config, vec![first, second]).unwrap();
    match &form[0] {
        FieldValue::List(items) => {
            assert_eq!(items.len(), 2);
            match (&items[0], &items[1]) {
                (Leaf::File(a), Leaf::File(b)) => {
                    assert_eq!(a.file, vec![1, 2, 3]);
                    assert_eq!(a.size, 3);
                    assert_eq!(a.name, "upload");
                    assert_eq!(a.filename.as_deref(), Some("a.png"));
                    assert_eq!(a.mime.subtype, "png");
                    assert_eq!(b.file, b"xyz".to_vec());
                    assert_eq!(b.size, 3);
                    assert_eq!(b.filename, None);
                    assert!(b.mime.is_text_plain());
                }
                other => panic!("not files: {:?}", other),
            }
        }
        other => panic!("not a list: {:?}", other),
    }
    let mut large = part("upload", None, None, "");
    large.chunks = vec![vec![0; 6], vec![0; 5]];
    assert!(overflow(&decode(&schema, &config, vec![large])));
}

#[test]
fn assembler_walks_a_file_part() {
    let schema_value =
        schema_of(FormAttrs::default(), vec![field("upload", FieldShape::Scalar, ReaderKind::File)]);
    let config = MultipartFormConfig::default().total_limit(5);
    let a: FormAssembler<'_, u32> =
        FormAssembler::new(&schema_value, &config, ReaderConfig::default());
    let (a, action) = a.step(FormEvent::Part(part("upload", None, Some("f"), "").headers));
    assert!(matches!(action, FormAction::OpenStorage));
    let (a, action) = a.step(FormEvent::Chunk(vec![1, 2, 3]));
    match action {
        FormAction::Write(bytes) => assert_eq!(bytes, vec![1, 2, 3]),
        other => panic!("unexpected action {:?}", other),
    }
    let (a, action) = a.step(FormEvent::Chunk(vec![4, 5]));
    assert!(matches!(action, FormAction::Write(_)));
    let (a, action) = a.step(FormEvent::Stored(77));
    assert!(matches!(action, FormAction::ReadPart));
    let (a, action) = a.step(FormEvent::End);
    assert!(matches!(action, FormAction::Stop));
    let form = a.finish().unwrap();
    match &form[0] {
        FieldValue::Scalar(actix_easy_multipart::form::Leaf::File(file)) => {
            assert_eq!(file.file, 77);
            assert_eq!(file.size, 5);
            assert_eq!(file.filename.as_deref(), Some("f"));
        }
        other => panic!("not a file: {:?}", other),
    }

    let a: FormAssembler<'_, u32> =
        FormAssembler::new(&schema_value, &config, ReaderConfig::default());
    let (a, _) = a.step(FormEvent::Part(part("upload", None, None, "").headers));
    let (a, _) = a.step(FormEvent::Chunk(vec![1, 2, 3]));
    let (a, action) = a.step(FormEvent::Chunk(vec![4, 5, 6]));
    assert!(matches!(action, FormAction::Stop));
    assert!(a.finish().err().unwrap().is_payload_too_large());

    let a: FormAssembler<'_, u32> =
        FormAssembler::new(&schema_value, &config, ReaderConfig::default());
    let (a, _) = a.step(FormEvent::Part(part("upload", None, None, "").headers));
    let (a, action) = a.step(FormEvent::BodyEnd);
    assert!(matches!(action, FormAction::Stop));
    assert!(a.finish().is_err());
}

#[test]
fn file_handed_over_in_memory_fails_as_storage() {
    let head = PartHead { name: "f".to_owned(), filename: None, content_type: None };
    let r = leaf_from_body::<Vec<u8>>(ReaderKind::File, head, vec![1]);
    assert!(matches!(r, Err(Error::Multipart(MultipartError::Payload(PayloadError::Io)))));
}

#[test]
fn files_hold_the_bodies_of_their_own_parts() {
    let list = schema_of(
        FormAttrs::default(),
        vec![
            field("a", FieldShape::List, ReaderKind::File),
            field("b", FieldShape::List, ReaderKind::File),
        ],
    );
    let parts = || vec![text("a", "one"), text("b", "two"), text("a", "six"), text("b", "ten")];
    let form = decode(&list, &generous(), parts()).unwrap();
    let bodies = |value: &FieldValue<Leaf>| -> Vec<Vec<u8>> {
        match value {
            FieldValue::List(items) => items
                .iter()
                .map(|leaf| match leaf {
                    Leaf::File(file) => file.file.clone(),
                    other => panic!("not a file: {:?}", other),
                })
                .collect(),
            FieldValue::Scalar(Leaf::File(file)) => vec![file.file.clone()],
            other => panic!("not files: {:?}", other),
        }
    };
    assert_eq!(bodies(&form[0]), vec![b"one".to_vec(), b"six".to_vec()]);
    assert_eq!(bodies(&form[1]), vec![b"two".to_vec(), b"ten".to_vec()]);

    let single = |action: DuplicateAction| {
        schema_of(
            FormAttrs { deny_unknown_fields: false, duplicate_action: action },
            vec![field("a", FieldShape::Scalar, ReaderKind::File)],
        )
    };
    let form = decode(&single(DuplicateAction::Replace), &generous(), parts()).unwrap();
    assert_eq!(bodies(&form[0]), vec![b"six".to_vec()]);
    let form = decode(&single(DuplicateAction::Ignore), &generous(), parts()).unwrap();
    assert_eq!(bodies(&form[0]), vec![b"one".to_vec()]);
}
