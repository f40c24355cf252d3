use ghcli::field::{EditRequest, InputField};

fn field(value: &str, cursor: usize) -> InputField {
    InputField { value: value.to_string(), cursor }
}

fn apply(value: &str, cursor: usize, req: EditRequest) -> (String, usize) {
    let mut f = field(value, cursor);
    f.apply(req);
    (f.value, f.cursor)
}

#[test]
fn new_and_empty_fields() {
    let f = InputField::new("¡hé".to_string());
    assert_eq!(f.cursor, 3);
    let e = InputField::empty();
    assert_eq!((e.value.as_str(), e.cursor), ("", 0));
}

#[test]
fn inserting_characters() {
    assert_eq!(apply("abc", 3, EditRequest::InsertChar('d')), ("abcd".to_string(), 4));
    assert_eq!(apply("abc", 1, EditRequest::InsertChar('☆')), ("a☆bc".to_string(), 2));
    assert_eq!(apply("abc", 9, EditRequest::InsertChar('x')), ("abcx".to_string(), 4));
}

#[test]
fn deleting_characters() {
    assert_eq!(apply("abc", 3, EditRequest::DeletePrevChar), ("ab".to_string(), 2));
    assert_eq!(apply("abc", 0, EditRequest::DeletePrevChar), ("abc".to_string(), 0));
    assert_eq!(apply("abc", 0, EditRequest::DeleteNextChar), ("bc".to_string(), 0));
    assert_eq!(apply("abc", 3, EditRequest::DeleteNextChar), ("abc".to_string(), 3));
    assert_eq!(apply("abc", 2, EditRequest::DeleteLine), ("".to_string(), 0));
    assert_eq!(apply("abc", 1, EditRequest::DeleteTillEnd), ("a".to_string(), 1));
}

#[test]
fn moving_the_cursor() {
    assert_eq!(apply("abc", 1, EditRequest::GoToPrevChar), ("abc".to_string(), 0));
    assert_eq!(apply("abc", 0, EditRequest::GoToPrevChar), ("abc".to_string(), 0));
    assert_eq!(apply("abc", 1, EditRequest::GoToNextChar), ("abc".to_string(), 2));
    assert_eq!(apply("abc", 3, EditRequest::GoToNextChar), ("abc".to_string(), 3));
    assert_eq!(apply("abc", 2, EditRequest::GoToStart), ("abc".to_string(), 0));
    assert_eq!(apply("abc", 0, EditRequest::GoToEnd), ("abc".to_string(), 3));
    assert_eq!(apply("abc", 0, EditRequest::SetCursor(2)), ("abc".to_string(), 2));
    assert_eq!(apply("abc", 0, EditRequest::SetCursor(10)), ("abc".to_string(), 3));
}

#[test]
fn word_requests() {
    assert_eq!(apply("first second", 12, EditRequest::GoToPrevWord), ("first second".to_string(), 6));
    assert_eq!(apply("first second", 0, EditRequest::GoToNextWord), ("first second".to_string(), 6));
    assert_eq!(apply("first second", 12, EditRequest::DeletePrevWord), ("first ".to_string(), 6));
    assert_eq!(apply("first second", 0, EditRequest::DeleteNextWord), ("second".to_string(), 0));
}
