use tidings::dictionary::Dictionary;
use tidings::tiding::{duplicate_tidings, Tiding};
use tidings::update::{fetch, outcome, FetchError, Model};
use tidings::reference::Reference;

fn tidings(titles: &[&str]) -> Vec<Tiding> {
    titles.iter().map(|t| Tiding::new(t)).collect()
}

#[test]
fn tiding_new_keeps_the_title() {
    assert_eq!(Tiding::new("hello"), Tiding { title: "hello".to_owned() });
    assert_eq!(Tiding::new(""), Tiding { title: String::new() });
}

#[test]
fn update_string_appends_an_exclamation_mark() {
    let mut tiding = Tiding::new("7");
    tiding.update_string();
    assert_eq!(tiding.title, "7!");
    tiding.update_string();
    assert_eq!(tiding.title, "7!!");
    let mut empty = Tiding::new("");
    empty.update_string();
    assert_eq!(empty.title, "!");
}

#[test]
fn duplicates_are_equal() {
    let tiding = Tiding::new("t");
    assert_eq!(tiding.duplicate(), tiding);
    let list = tidings(&["a", "b", "c"]);
    assert_eq!(duplicate_tidings(&list), list);
    assert_eq!(duplicate_tidings(&Vec::new()), Vec::<Tiding>::new());
}

#[test]
fn dictionary_starts_empty() {
    let dictionary = Dictionary::new();
    assert_eq!(dictionary.get("https://a"), None);
    assert_eq!(dictionary.get(""), None);
}

#[test]
fn dictionary_insert_then_get() {
    let mut dictionary = Dictionary::new();
    dictionary.insert("https://a".to_owned(), tidings(&["one", "two"]));
    assert_eq!(dictionary.get("https://a"), Some(&tidings(&["one", "two"])));
    assert_eq!(dictionary.get("https://b"), None);
}

#[test]
fn dictionary_insert_replaces() {
    let mut dictionary = Dictionary::new();
    dictionary.insert("u".to_owned(), tidings(&["one", "two"]));
    dictionary.insert("u".to_owned(), tidings(&["three"]));
    assert_eq!(dictionary.get("u"), Some(&tidings(&["three"])));
    dictionary.insert("u".to_owned(), Vec::new());
    assert_eq!(dictionary.get("u"), Some(&Vec::new()));
}

#[test]
fn dictionary_keeps_other_urls() {
    let mut dictionary = Dictionary::new();
    dictionary.insert("u".to_owned(), tidings(&["one"]));
    dictionary.insert("v".to_owned(), tidings(&["two"]));
    dictionary.insert("".to_owned(), tidings(&["none"]));
    assert_eq!(dictionary.get("u"), Some(&tidings(&["one"])));
    assert_eq!(dictionary.get("v"), Some(&tidings(&["two"])));
    assert_eq!(dictionary.get(""), Some(&tidings(&["none"])));
}

#[test]
fn dictionary_holds_many_urls() {
    let mut dictionary = Dictionary::new();
    for i in 0..500 {
        dictionary.insert(format!("url {}", i), tidings(&[&format!("t {}", i)]));
    }
    for i in 0..500 {
        assert_eq!(dictionary.get(&format!("url {}", i)), Some(&tidings(&[&format!("t {}", i)])));
    }
    assert_eq!(dictionary.get("url 500"), None);
}

#[test]
fn fetch_names_the_url() {
    assert_eq!(fetch("https://a.example/feed"), Ok(tidings(&["URL: https://a.example/feed"])));
    assert_eq!(fetch(""), Ok(tidings(&["URL: "])));
}

#[test]
fn outcome_of_a_failed_fetch_is_empty() {
    assert_eq!(outcome(Err(FetchError)), Vec::<Tiding>::new());
    assert_eq!(outcome(Ok(tidings(&["a", "b"]))), tidings(&["a", "b"]));
    assert_eq!(outcome(fetch("u")), tidings(&["URL: u"]));
}

#[test]
fn handle_tracks_the_urls_that_are_out() {
    let x = Reference::from_raw_parts(1, 0);
    let map = vec![("a".to_owned(), vec![x]), ("b".to_owned(), vec![x]), ("c".to_owned(), vec![])];
    let mut handle = Model::new(4, &map);
    assert_eq!(handle.session, 4);
    assert_eq!(handle.pending, vec!["a".to_owned(), "b".to_owned(), "c".to_owned()]);
    assert!(handle.complete(&"b".to_owned()));
    assert_eq!(handle.pending, vec!["a".to_owned(), "c".to_owned()]);
    assert!(!handle.complete(&"b".to_owned()));
    assert!(!handle.complete(&"z".to_owned()));
    assert_eq!(handle.pending, vec!["a".to_owned(), "c".to_owned()]);
    assert!(handle.complete(&"c".to_owned()));
    assert!(handle.complete(&"a".to_owned()));
    assert!(handle.pending.is_empty());
    assert_eq!(handle.session, 4);
}
