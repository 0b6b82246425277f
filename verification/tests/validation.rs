use garde::{Error, Path, Report};
use kanban::validation::FormErrors;

fn report(entries: &[(&str, &str)]) -> Report {
    let mut report = Report::new();
    for (path, message) in entries {
        report.append(Path::new(*path), Error::new(*message));
    }
    report
}

#[test]
fn empty_report_has_no_fields() {
    let errors = FormErrors::from_report(&Report::new());

    assert!(!errors.has("name"));
    assert!(errors.get("name").is_none());
    assert_eq!("", errors.response_body());
}

#[test]
fn from_report_groups_messages_by_field_in_order() {
    let errors = FormErrors::from_report(&report(&[
        ("name", "length is lower than 1"),
        ("id", "not a number"),
        ("name", "contains bad characters"),
    ]));

    assert!(errors.has("name"));
    assert!(errors.has("id"));
    assert!(!errors.has("title"));
    assert_eq!(
        &vec!["length is lower than 1".to_string(), "contains bad characters".to_string()],
        errors.get("name").unwrap()
    );
    assert_eq!(&vec!["not a number".to_string()], errors.get("id").unwrap());
}

#[test]
fn response_body_lists_each_field_once() {
    let errors = FormErrors::from_report(&report(&[
        ("name", "length is lower than 2"),
        ("id", "not a number"),
        ("name", "too plain"),
    ]));

    assert_eq!("name: length is lower than 2,too plain\nid: not a number", errors.response_body());
}

#[test]
fn insert_adds_to_existing_field() {
    let mut errors = FormErrors::default();
    errors.insert("a".to_string(), "one".to_string());
    errors.insert("b".to_string(), "two".to_string());
    errors.insert("a".to_string(), "three".to_string());

    assert_eq!(&vec!["one".to_string(), "three".to_string()], errors.get("a").unwrap());
    assert_eq!("a: one,three\nb: two", errors.response_body());
}

#[test]
fn lookup_is_exact() {
    let errors = FormErrors::from_report(&report(&[("name", "bad")]));

    assert!(!errors.has("nam"));
    assert!(!errors.has("names"));
    assert!(!errors.has("Name"));
    assert!(errors.has("name"));
}

#[test]
fn nested_paths_use_garde_rendering() {
    let mut r = Report::new();
    r.append(Path::new("list").join(0usize), Error::new("bad item"));

    let errors = FormErrors::from_report(&r);

    assert!(errors.has("list[0]"));
    assert_eq!("list[0]: bad item", errors.response_body());
}
