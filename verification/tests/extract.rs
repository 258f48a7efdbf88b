use actix_easy_multipart::deserialize;
use actix_easy_multipart::deserialize::{FromField, FromFieldConfig};
use actix_easy_multipart::error::{MultipartError, PayloadError};
use actix_easy_multipart::extractor;
use actix_easy_multipart::group::FieldValue;
use actix_easy_multipart::grouped::GroupedFields;
use actix_easy_multipart::load::{LoadLimits, DEFAULT_FILE_LIMIT, DEFAULT_MAX_PARTS, DEFAULT_TEXT_LIMIT};
use actix_easy_multipart::part::{DispositionType, PartHeaders, RawPart};
use actix_easy_multipart::reader::ReaderConfig;
use actix_easy_multipart::schema::{FieldAttrs, FieldShape, FormAttrs, FormSchema, ReaderKind};
use actix_easy_multipart::validated;
use actix_easy_multipart::{Error, MultipartForm, MultipartFormConfig, MultipartFormTrait};
use std::convert::TryFrom;

type Leaf = actix_easy_multipart::form::Leaf<Vec<u8>>;

fn text(name: &str, body: &str) -> RawPart {
    RawPart {
        headers: PartHeaders {
            disposition: DispositionType::FormData,
            name: Some(name.to_owned()),
            filename: None,
            content_type: None,
        },
        chunks: vec![body.as_bytes().to_vec()],
    }
}

struct Upload {
    text: String,
    number: i64,
    tags: Vec<String>,
}

impl MultipartFormTrait<Vec<u8>> for Upload {
    fn schema() -> FormSchema {
        let field = |ident: &str, shape: FieldShape, reader: ReaderKind| FieldAttrs {
            ident: ident.to_owned(),
            rename: None,
            limit: None,
            shape,
            reader,
        };
        FormSchema::new(
            FormAttrs::default(),
            vec![
                field("text", FieldShape::Scalar, ReaderKind::Text),
                field("number", FieldShape::Scalar, ReaderKind::Integer),
                field("tags", FieldShape::List, ReaderKind::Text),
            ],
        )
        .unwrap()
    }

    fn from_state(values: Vec<FieldValue<Leaf>>) -> Result<Self, Error> {
        let mut values = values.into_iter();
        let text = match values.next() {
            Some(FieldValue::Scalar(Leaf::Text(t))) => t.into_inner(),
            _ => return Err(Error::MissingField("text".to_owned())),
        };
        let number = match values.next() {
            Some(FieldValue::Scalar(Leaf::Integer(n))) => n.into_inner(),
            _ => return Err(Error::MissingField("number".to_owned())),
        };
        let tags = match values.next() {
            Some(FieldValue::List(items)) => items
                .into_iter()
                .filter_map(|leaf| match leaf {
                    Leaf::Text(t) => Some(t.into_inner()),
                    _ => None,
                })
                .collect(),
            _ => return Err(Error::MissingField("tags".to_owned())),
        };
        Ok(Upload { text, number, tags })
    }
}

#[test]
fn form_is_extracted_from_a_body() {
    let parts = vec![
        text("tags", "x"),
        text("text", "Hello World"),
        text("number", "23"),
        text("tags", "y"),
    ];
    let form: MultipartForm<Upload> =
        MultipartForm::extract(&MultipartFormConfig::default(), &ReaderConfig::default(), &parts)
            .ok()
            .unwrap();
    let upload = form.into_inner();
    assert_eq!(upload.text, "Hello World");
    assert_eq!(upload.number, 23);
    assert_eq!(upload.tags, vec!["x", "y"]);
}

#[test]
fn form_that_cannot_be_decoded_is_not_extracted() {
    let parts = vec![text("text", "Hello World")];
    let r: Result<MultipartForm<Upload>, Error> =
        MultipartForm::extract(&MultipartFormConfig::default(), &ReaderConfig::default(), &parts);
    assert!(matches!(r, Err(Error::MissingField(n)) if n == "number"));

    let parts = vec![text("text", "Hello World"), text("number", "23")];
    let config = MultipartFormConfig::default().total_limit(12);
    let r: Result<MultipartForm<Upload>, Error> =
        MultipartForm::extract(&config, &ReaderConfig::default(), &parts);
    assert!(matches!(
        r,
        Err(Error::Multipart(MultipartError::Payload(PayloadError::Overflow)))
    ));
}

struct Described {
    description: String,
}

impl TryFrom<GroupedFields<Vec<u8>>> for Described {
    type Error = deserialize::Error;

    fn try_from(form: GroupedFields<Vec<u8>>) -> Result<Self, deserialize::Error> {
        let (_, parts) = form.remove("description");
        let description = <String as FromField<Vec<u8>>>::from_fields(
            parts,
            &FromFieldConfig::default(),
            "description",
        )?;
        Ok(Described { description })
    }
}

#[test]
fn extractor_config_sets_the_quotas_of_its_loader() {
    let config = extractor::MultipartFormConfig::default();
    assert_eq!(
        config.loader().limits(),
        LoadLimits {
            text_limit: DEFAULT_TEXT_LIMIT,
            file_limit: DEFAULT_FILE_LIMIT,
            max_parts: DEFAULT_MAX_PARTS,
        }
    );
    let config = config.text_limit(1).file_limit(25 * 1024 * 1024).max_parts(3);
    assert_eq!(
        config.loader().limits(),
        LoadLimits { text_limit: 1, file_limit: 25 * 1024 * 1024, max_parts: 3 }
    );
}

#[test]
fn extractor_loads_and_converts() {
    let config = extractor::MultipartFormConfig::default();
    let form = config.extract::<Described>(&vec![text("description", "a cat")]).ok().unwrap();
    assert_eq!(form.into_inner().description, "a cat");

    let r = config.extract::<Described>(&vec![]);
    assert!(matches!(
        r,
        Err(extractor::MultipartFormError::Deserialization(deserialize::Error::TextNotFound(n)))
            if n == "description"
    ));

    let r = config.text_limit(2).extract::<Described>(&vec![text("description", "a cat")]);
    match r {
        Err(e) => {
            assert_eq!(e.status_code(), 400);
            assert!(matches!(
                e,
                extractor::MultipartFormError::Multipart(MultipartError::Payload(
                    PayloadError::Overflow
                ))
            ));
        }
        Ok(_) => panic!("a body over its quota was extracted"),
    }
}

#[test]
fn validated_config_sets_the_quotas_of_its_loader() {
    let config = validated::MultipartFormConfig::default().file_limit(7).max_parts(2).text_limit(5);
    assert_eq!(
        config.loader().limits(),
        LoadLimits { text_limit: 5, file_limit: 7, max_parts: 2 }
    );
    let config = validated::MultipartFormConfig::default().file_limit(u64::MAX);
    assert_eq!(config.loader().limits().file_limit as u64, u64::MAX.min(usize::MAX as u64));
    let config = validated::MultipartFormConfig::default();
    assert_eq!(config.loader().limits().file_limit, DEFAULT_FILE_LIMIT);
}

#[test]
fn validated_form_takes_the_outcome_of_its_rules() {
    let loaded = extractor::MultipartFormConfig::default()
        .loader()
        .load_grouped(&vec![text("description", "a cat")]);
    let form = validated::convert::<Described, Vec<u8>>(loaded).ok().unwrap();
    let valid = validated::validated(form, Ok(())).ok().unwrap();
    assert_eq!(valid.into_inner().description, "a cat");

    let form = Described { description: "a dog".to_owned() };
    let r = validated::validated(form, Err(validator::ValidationErrors::new()));
    match r {
        Err(e) => {
            assert_eq!(e.status_code(), 400);
            assert!(matches!(e, validated::MultipartFormError::Validation(_)));
        }
        Ok(_) => panic!("a form that is not valid was extracted"),
    }

    let failed: Result<GroupedFields<Vec<u8>>, MultipartError> =
        Err(MultipartError::Payload(PayloadError::Incomplete));
    let r = validated::convert::<Described, Vec<u8>>(failed);
    assert!(matches!(
        r,
        Err(validated::MultipartFormError::Multipart(MultipartError::Payload(
            PayloadError::Incomplete
        )))
    ));
    let r = validated::convert::<Described, Vec<u8>>(Ok(GroupedFields::from_fields(vec![])));
    assert!(matches!(r, Err(validated::MultipartFormError::Deserialization(_))));
}
