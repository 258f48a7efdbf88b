use actix_easy_multipart::grouped::GroupedFields;
use actix_easy_multipart::media::MediaType;
use actix_easy_multipart::part::{Field, File, Text};

fn text(name: &str, text: &str) -> Field<u32> {
    Field::Text(Text { name: name.to_owned(), text: text.to_owned() })
}

fn file(name: &str, handle: u32) -> Field<u32> {
    Field::File(File {
        file: handle,
        size: 1,
        name: name.to_owned(),
        filename: None,
        mime: MediaType::octet_stream(),
    })
}

fn handles(fields: &[Field<u32>]) -> Vec<String> {
    fields
        .iter()
        .map(|f| match f {
            Field::Text(t) => t.text.clone(),
            Field::File(f) => format!("#{}", f.file),
        })
        .collect()
}

#[test]
fn grouping_keeps_arrival_order_under_each_name() {
    let grouped = GroupedFields::from_fields(vec![
        text("a", "1"),
        text("b", "2"),
        file("a", 3),
        text("a", "4"),
        text("b", "5"),
    ]);
    assert!(!grouped.is_empty());
    let (grouped, a) = grouped.remove("a");
    assert_eq!(handles(&a), vec!["1", "#3", "4"]);
    let (grouped, b) = grouped.remove("b");
    assert_eq!(handles(&b), vec!["2", "5"]);
    assert!(grouped.is_empty());
}

#[test]
fn get_gives_the_first_part_of_a_name() {
    let grouped = GroupedFields::from_fields(vec![text("a", "1"), text("b", "2"), text("a", "3")]);
    assert_eq!(grouped.get("a").unwrap().text_ref().unwrap().text, "1");
    assert_eq!(grouped.get("b").unwrap().text_ref().unwrap().text, "2");
    assert!(grouped.get("c").is_none());
}

#[test]
fn removing_a_name_leaves_the_others() {
    let grouped = GroupedFields::from_fields(vec![text("a", "1"), text("b", "2"), text("a", "3")]);
    let (grouped, none) = grouped.remove("missing");
    assert!(none.is_empty());
    let (grouped, b) = grouped.remove("b");
    assert_eq!(handles(&b), vec!["2"]);
    let (grouped, again) = grouped.remove("b");
    assert!(again.is_empty());
    assert!(grouped.get("b").is_none());
    assert_eq!(grouped.get("a").unwrap().text_ref().unwrap().text, "1");
    let (grouped, a) = grouped.remove("a");
    assert_eq!(handles(&a), vec!["1", "3"]);
    assert!(grouped.is_empty());
}

#[test]
fn empty_form_has_no_groups() {
    let grouped: GroupedFields<u32> = GroupedFields::from_fields(vec![]);
    assert!(grouped.is_empty());
    assert!(grouped.get("a").is_none());
    let (grouped, a) = grouped.remove("a");
    assert!(a.is_empty());
    assert!(grouped.is_empty());
}
