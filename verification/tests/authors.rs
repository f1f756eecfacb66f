use mail_thread::text::split_authors;
use mail_thread::{Thread, ThreadOwner, ThreadRecord};

struct Query {
    name: String,
}

impl ThreadOwner for Query {}

fn query() -> Query {
    Query { name: String::from("inbox") }
}

fn record_with_authors(authors: &str) -> ThreadRecord {
    ThreadRecord {
        id: "0000000000000001".as_bytes().to_vec(),
        subject: "subject".as_bytes().to_vec(),
        authors: authors.as_bytes().to_vec(),
        total_messages: 0,
        total_files: 0,
        oldest_date: 0,
        newest_date: 0,
        messages: Vec::new(),
        toplevel: Vec::new(),
        tags: Vec::new(),
    }
}

fn commas(text: &str) -> usize {
    text.chars().filter(|c| *c == ',').count()
}

#[test]
fn authors_are_split_at_commas_and_not_trimmed() {
    let owner = query();
    assert_eq!(owner.name, "inbox");
    let thread = Thread::<Query>::from_ptr(0x1000, record_with_authors("Alice, Bob,Carol"), &owner);
    assert_eq!(thread.authors(), vec!["Alice", " Bob", "Carol"]);
}

#[test]
fn split_of_empty_list_is_one_empty_name() {
    assert_eq!(split_authors(""), vec![""]);
}

#[test]
fn split_without_comma_is_the_whole_text() {
    assert_eq!(split_authors("Alice Example"), vec!["Alice Example"]);
}

#[test]
fn split_keeps_empty_names_between_commas() {
    assert_eq!(split_authors(","), vec!["", ""]);
    assert_eq!(split_authors("a,,b"), vec!["a", "", "b"]);
    assert_eq!(split_authors(",a"), vec!["", "a"]);
    assert_eq!(split_authors("a,"), vec!["a", ""]);
    assert_eq!(split_authors(",,,"), vec!["", "", "", ""]);
}

#[test]
fn split_leaves_other_separators_alone() {
    assert_eq!(split_authors("Alice| Bob;Carol"), vec!["Alice| Bob;Carol"]);
    assert_eq!(split_authors("Alice| Bob,Carol"), vec!["Alice| Bob", "Carol"]);
}

#[test]
fn split_counts_characters_not_bytes() {
    assert_eq!(split_authors("Zoë,李 小龍,Ünal"), vec!["Zoë", "李 小龍", "Ünal"]);
}

#[test]
fn split_has_one_name_more_than_commas() {
    for text in ["", ",", "a", "a,b", " a , b ", ",,", "x,y,z,", "Alice, Bob,Carol"] {
        assert_eq!(split_authors(text).len(), commas(text) + 1);
    }
}

#[test]
fn split_agrees_with_the_standard_split() {
    for text in ["", ",", "a", "a,b", " a , b ", ",,", "x,y,z,", "Zoë,李", "Alice, Bob,Carol"] {
        let expected: Vec<String> = text.split(',').map(|s| s.to_string()).collect();
        assert_eq!(split_authors(text), expected);
    }
}

#[test]
fn joining_the_names_gives_the_list_back() {
    for text in ["", ",", "a", "a,b", " a , b ", ",,", "x,y,z,", "Alice, Bob,Carol"] {
        assert_eq!(split_authors(text).join(","), text);
    }
}

#[test]
fn authors_twice_is_the_same() {
    let owner = query();
    let thread = Thread::<Query>::from_ptr(0x1000, record_with_authors("Alice, Bob,Carol"), &owner);
    assert_eq!(thread.authors(), thread.authors());
}
