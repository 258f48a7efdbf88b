use actix_easy_multipart::group::{FieldGroupReader, State};
use actix_easy_multipart::limits::Limits;
use actix_easy_multipart::part::PartHead;
use actix_easy_multipart::reader::ReaderConfig;
use actix_easy_multipart::text::Text;
use actix_easy_multipart::{DuplicateAction, Error};

type Line = Text<String>;

fn head(name: &str) -> PartHead {
    PartHead { name: name.to_owned(), filename: None, content_type: None }
}

fn put<G: FieldGroupReader<Line>>(
    state: &mut State<Line>,
    limits: &mut Limits,
    index: usize,
    name: &str,
    body: &str,
    action: DuplicateAction,
) -> Result<(), Error> {
    G::handle_field(
        &ReaderConfig::default(),
        head(name),
        &vec![body.as_bytes().to_vec()],
        limits,
        state,
        index,
        action,
    )
}

#[test]
fn typed_optional_fields() {
    let mut state: State<Line> = State::new(2);
    let mut limits = Limits::new(100, 100);
    put::<Option<Line>>(&mut state, &mut limits, 0, "field1", "value", DuplicateAction::Ignore)
        .unwrap();
    let field1 = <Option<Line> as FieldGroupReader<Line>>::from_state("field1", &mut state, 0);
    let field2 = <Option<Line> as FieldGroupReader<Line>>::from_state("field2", &mut state, 1);
    assert_eq!(field1.unwrap().unwrap().into_inner(), "value");
    assert!(field2.unwrap().is_none());
}

#[test]
fn typed_list_field_keeps_arrival_order() {
    let mut state: State<Line> = State::new(1);
    let mut limits = Limits::new(100, 100);
    for value in ["value1", "value2", "value3"] {
        put::<Vec<Line>>(&mut state, &mut limits, 0, "list1", value, DuplicateAction::Deny)
            .unwrap();
    }
    let list = <Vec<Line> as FieldGroupReader<Line>>::from_state("list1", &mut state, 0).unwrap();
    let strings: Vec<String> = list.into_iter().map(|s| s.into_inner()).collect();
    assert_eq!(strings, vec!["value1", "value2", "value3"]);
    let again = <Vec<Line> as FieldGroupReader<Line>>::from_state("list1", &mut state, 0).unwrap();
    assert_eq!(again.len(), 0);
    assert_eq!(limits.total_limit_remaining, 100 - 18);
}

#[test]
fn typed_scalar_field_follows_the_duplicate_policy() {
    let run = |action: DuplicateAction| {
        let mut state: State<Line> = State::new(1);
        let mut limits = Limits::new(100, 100);
        put::<Line>(&mut state, &mut limits, 0, "field", "first", action).unwrap();
        let second = put::<Line>(&mut state, &mut limits, 0, "field", "second", action);
        let value = <Line as FieldGroupReader<Line>>::from_state("field", &mut state, 0);
        (second, value.map(|v| v.into_inner()), limits.total_limit_remaining)
    };
    let (second, value, left) = run(DuplicateAction::Replace);
    assert!(second.is_ok());
    assert_eq!(value.unwrap(), "second");
    assert_eq!(left, 100 - 11);

    let (second, value, left) = run(DuplicateAction::Ignore);
    assert!(second.is_ok());
    assert_eq!(value.unwrap(), "first");
    assert_eq!(left, 100 - 5);

    let (second, value, left) = run(DuplicateAction::Deny);
    assert!(matches!(second, Err(Error::DuplicateField(n)) if n == "field"));
    assert_eq!(value.unwrap(), "first");
    assert_eq!(left, 100 - 5);
}

#[test]
fn typed_scalar_field_without_a_part_is_missing() {
    let mut state: State<Line> = State::new(1);
    let r = <Line as FieldGroupReader<Line>>::from_state("x", &mut state, 0);
    assert!(matches!(r, Err(Error::MissingField(n)) if n == "x"));
}

#[test]
fn typed_field_that_cannot_be_read_keeps_its_values() {
    let mut state: State<Line> = State::new(1);
    let mut limits = Limits::new(8, 100);
    put::<Vec<Line>>(&mut state, &mut limits, 0, "list", "12345", DuplicateAction::Ignore).unwrap();
    let r = put::<Vec<Line>>(&mut state, &mut limits, 0, "list", "6789", DuplicateAction::Ignore);
    assert!(r.err().unwrap().is_payload_too_large());
    let list = <Vec<Line> as FieldGroupReader<Line>>::from_state("list", &mut state, 0).unwrap();
    assert_eq!(list.len(), 1);
}
