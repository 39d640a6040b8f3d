use mmr::content::{line_of, subject_of};

#[test]
fn subject_is_first_line_with_its_newline() {
    let content = b"first line\nsecond line\nthird\n".to_vec();
    assert_eq!(subject_of(&content), b"first line\n".to_vec());
}

#[test]
fn subject_of_content_without_newline_is_everything() {
    let content = b"just one line without ending".to_vec();
    assert_eq!(subject_of(&content), content);
}

#[test]
fn subject_of_empty_content_is_empty() {
    let content: Vec<u8> = vec![];
    assert_eq!(subject_of(&content), vec![]);
}

#[test]
fn subject_of_leading_newline_is_that_newline() {
    let content = b"\nrest".to_vec();
    assert_eq!(subject_of(&content), b"\n".to_vec());
}

#[test]
fn appending_words_yields_space_joined_line() {
    let words = vec![b"buy".to_vec(), b"milk".to_vec()];
    assert_eq!(line_of(&words), b"buy milk\n".to_vec());
}

#[test]
fn appending_one_word_yields_that_word_and_newline() {
    let words = vec![b"remember".to_vec()];
    assert_eq!(line_of(&words), b"remember\n".to_vec());
}

#[test]
fn appending_no_words_yields_bare_newline() {
    let words: Vec<Vec<u8>> = vec![];
    assert_eq!(line_of(&words), b"\n".to_vec());
}
