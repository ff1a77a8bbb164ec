use tidings::add_directory_dialog;
use tidings::add_feed_dialog;
use tidings::content::{Model, Msg};

#[test]
fn add_feed_dialog_starts_hidden_and_empty() {
    let model = add_feed_dialog::Model::init();
    assert!(!model.visible);
    assert!(!model.allowed);
    assert!(!model.next_page);
    assert_eq!(model.title, "");
    assert_eq!(model.url, "");
}

#[test]
fn add_feed_dialog_checks_the_text_of_its_page() {
    let mut model = add_feed_dialog::Model::init();
    assert!(model.update(add_feed_dialog::Msg::Show).is_none());
    assert!(model.visible);
    assert!(model.update(add_feed_dialog::Msg::Check).is_none());
    assert!(!model.allowed);
    model.url = "https://a.example/feed".to_owned();
    model.update(add_feed_dialog::Msg::Check);
    assert!(model.allowed);
    assert!(model.update(add_feed_dialog::Msg::Next).is_none());
    assert!(model.next_page);
    assert!(model.allowed);
    model.update(add_feed_dialog::Msg::Check);
    assert!(!model.allowed);
    model.title = "A".to_owned();
    model.update(add_feed_dialog::Msg::Check);
    assert!(model.allowed);
    model.url = String::new();
    model.update(add_feed_dialog::Msg::Check);
    assert!(model.allowed);
}

#[test]
fn add_feed_dialog_hands_out_the_feed_and_hides() {
    let mut model = add_feed_dialog::Model::init();
    model.update(add_feed_dialog::Msg::Show);
    model.url = "https://a.example/feed".to_owned();
    model.update(add_feed_dialog::Msg::Check);
    model.update(add_feed_dialog::Msg::Next);
    model.title = "A".to_owned();
    match model.update(add_feed_dialog::Msg::Add) {
        Some(Msg::AddFeed(title, url)) => {
            assert_eq!(title, "A");
            assert_eq!(url, "https://a.example/feed");
        }
        other => panic!("unexpected {:?}", other),
    }
    assert!(!model.visible);
    assert!(!model.next_page);
    assert_eq!(model.title, "");
    assert_eq!(model.url, "");
    assert!(model.allowed);
}

#[test]
fn add_feed_dialog_hide_resets_the_pages() {
    let mut model = add_feed_dialog::Model::init();
    model.update(add_feed_dialog::Msg::Show);
    model.url = "u".to_owned();
    model.title = "t".to_owned();
    model.update(add_feed_dialog::Msg::Next);
    assert!(model.update(add_feed_dialog::Msg::Hide).is_none());
    assert!(!model.visible);
    assert!(!model.next_page);
    assert_eq!(model.title, "");
    assert_eq!(model.url, "");
}

#[test]
fn add_directory_dialog_runs_through() {
    let mut model = add_directory_dialog::Model::init();
    assert!(!model.visible);
    assert!(!model.allowed);
    assert!(model.update(add_directory_dialog::Msg::Show).is_none());
    assert!(model.visible);
    model.update(add_directory_dialog::Msg::Check);
    assert!(!model.allowed);
    model.title = "News".to_owned();
    model.update(add_directory_dialog::Msg::Check);
    assert!(model.allowed);
    match model.update(add_directory_dialog::Msg::Add) {
        Some(Msg::AddDirectory(title)) => assert_eq!(title, "News"),
        other => panic!("unexpected {:?}", other),
    }
    assert!(!model.visible);
    assert_eq!(model.title, "");
    model.title = "x".to_owned();
    model.update(add_directory_dialog::Msg::Show);
    assert!(model.update(add_directory_dialog::Msg::Hide).is_none());
    assert!(!model.visible);
    assert_eq!(model.title, "");
}

#[test]
fn dialogs_feed_the_model() {
    let mut model = Model::new();
    let mut feed_dialog = add_feed_dialog::Model::init();
    feed_dialog.url = "u1".to_owned();
    feed_dialog.title = "a".to_owned();
    let msg = feed_dialog.update(add_feed_dialog::Msg::Add).unwrap();
    assert!(model.update(msg).is_none());
    let mut directory_dialog = add_directory_dialog::Model::init();
    directory_dialog.title = "d".to_owned();
    let msg = directory_dialog.update(add_directory_dialog::Msg::Add).unwrap();
    assert!(model.update(msg).is_none());
    assert_eq!(model.sources_list.len(), 2);
    assert_eq!(model.sources_list[0].title(), "a");
    assert!(!model.sources_list[0].is_dir());
    assert_eq!(model.sources_list[1].title(), "d");
    assert!(model.sources_list[1].is_dir());
}
