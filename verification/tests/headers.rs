use qvm::headers::Headers;

fn value<'a>(headers: &'a Headers, name: &str) -> Option<&'a str> {
    headers.get(name).map(|text| text.as_str())
}

#[test]
fn new_block_is_empty() {
    let headers = Headers::new();
    assert_eq!(headers.len(), 0);
    assert!(!headers.contains_key("Host"));
    assert_eq!(value(&headers, "Host"), None);
}

#[test]
fn insert_then_get() {
    let mut headers = Headers::new();
    headers.insert(String::from("Host"), String::from("x"));
    assert_eq!(headers.len(), 1);
    assert!(headers.contains_key("Host"));
    assert_eq!(value(&headers, "Host"), Some("x"));
}

#[test]
fn names_are_case_sensitive() {
    let mut headers = Headers::new();
    headers.insert(String::from("Host"), String::from("x"));
    assert!(!headers.contains_key("host"));
    headers.insert(String::from("host"), String::from("y"));
    assert_eq!(headers.len(), 2);
    assert_eq!(value(&headers, "Host"), Some("x"));
    assert_eq!(value(&headers, "host"), Some("y"));
}

#[test]
fn second_insert_of_a_name_wins() {
    let mut headers = Headers::new();
    headers.insert(String::from("A"), String::from("1"));
    headers.insert(String::from("B"), String::from("2"));
    headers.insert(String::from("A"), String::from("3"));
    assert_eq!(headers.len(), 2);
    assert_eq!(value(&headers, "A"), Some("3"));
    assert_eq!(value(&headers, "B"), Some("2"));
}

#[test]
fn a_name_keeps_its_place() {
    let mut headers = Headers::new();
    headers.insert(String::from("A"), String::from("1"));
    headers.insert(String::from("B"), String::from("2"));
    headers.insert(String::from("C"), String::from("3"));
    headers.insert(String::from("B"), String::from("4"));
    assert_eq!(headers.len(), 3);
    assert_eq!(headers.field(0), ("A", "1"));
    assert_eq!(headers.field(1), ("B", "4"));
    assert_eq!(headers.field(2), ("C", "3"));
}

#[test]
fn empty_name_and_value_are_taken() {
    let mut headers = Headers::new();
    headers.insert(String::new(), String::new());
    assert_eq!(headers.len(), 1);
    assert_eq!(value(&headers, ""), Some(""));
}

#[test]
fn len_counts_names_once() {
    let mut headers = Headers::new();
    for (name, value) in [("A", "1"), ("B", "2"), ("A", "3"), ("C", "4"), ("B", "5")] {
        headers.insert(String::from(name), String::from(value));
    }
    assert_eq!(headers.len(), 3);
    assert_eq!(headers.field(0), ("A", "3"));
    assert_eq!(headers.field(1), ("B", "5"));
    assert_eq!(headers.field(2), ("C", "4"));
}
