use tidings::content::{collect_tidings, find_position_after, project, Model, Msg};
use tidings::dictionary::Dictionary;
use tidings::reference::Reference;
use tidings::source::{ArenaSource, ListSource};
use tidings::tiding::Tiding;
use tidings::update;

fn tidings(titles: &[&str]) -> Vec<Tiding> {
    titles.iter().map(|t| Tiding::new(t)).collect()
}

fn add_feed(model: &mut Model, title: &str, url: &str) -> Reference {
    let parent = model.current_root_index;
    model.add_source(ArenaSource::new_feed(title.to_owned(), url.to_owned(), parent)).unwrap()
}

fn add_directory(model: &mut Model, title: &str) -> Reference {
    let parent = model.current_root_index;
    model.add_source(ArenaSource::new_directory(title.to_owned(), parent)).unwrap()
}

fn root_children(model: &Model) -> Vec<Reference> {
    model.sources_arena.get(model.current_root_index).unwrap().children().unwrap().clone()
}

fn list_indices(model: &Model) -> Vec<Reference> {
    model.sources_list.iter().map(|entry| entry.index()).collect()
}

fn work(order: Option<update::Msg>) -> (u64, Vec<(String, Vec<Reference>)>) {
    match order {
        Some(update::Msg::UpdateAll(session, urls_map)) => (session, urls_map),
        None => panic!("no work order"),
    }
}

fn is_updating(model: &Model, index: Reference) -> bool {
    match model.sources_arena.get(index) {
        Some(ArenaSource::Feed { updating, .. }) => *updating,
        _ => false,
    }
}

#[test]
fn new_model_holds_the_root_only() {
    let model = Model::new();
    assert_eq!(model.current_root_index, model.main_root_index);
    assert_eq!(model.current_source_index, model.main_root_index);
    assert_eq!(model.sources_arena.get(model.main_root_index), Some(&ArenaSource::new_root()));
    assert!(model.sources_list.is_empty());
    assert!(model.tidings_list.is_empty());
    assert_eq!(model.sources_subtitle, "");
    assert!(!model.folded);
    assert!(!model.show_tidings);
    assert!(!model.updating);
    assert_eq!(model.update_handled, 0);
    assert_eq!(model.update_requested, 1);
    assert!(model.update_worker.is_none());
    assert!(model.is_root());
}

#[test]
fn sources_are_appended_while_the_root_is_selected() {
    let mut model = Model::new();
    let a = add_feed(&mut model, "a", "u1");
    let b = add_directory(&mut model, "b");
    let c = add_feed(&mut model, "c", "u2");
    assert_eq!(root_children(&model), vec![a, b, c]);
    assert_eq!(list_indices(&model), vec![a, b, c]);
    assert_eq!(model.sources_list[0].title(), "a");
    assert!(model.sources_list[1].is_dir());
    assert_eq!(model.current_source_index, model.main_root_index);
}

#[test]
fn insert_after_selected_child_two_of_three() {
    let mut model = Model::new();
    let a = add_feed(&mut model, "a", "u1");
    let b = add_feed(&mut model, "b", "u2");
    let c = add_feed(&mut model, "c", "u3");
    model.show_source(b);
    let d = add_feed(&mut model, "d", "u4");
    assert_eq!(root_children(&model), vec![a, b, d, c]);
    assert_eq!(list_indices(&model), vec![a, b, d, c]);
    assert_eq!(model.current_source_index, b);
    let e = add_feed(&mut model, "e", "u5");
    assert_eq!(root_children(&model), vec![a, b, e, d, c]);
}

#[test]
fn insert_after_the_last_child_appends() {
    let mut model = Model::new();
    let a = add_feed(&mut model, "a", "u1");
    let b = add_feed(&mut model, "b", "u2");
    model.show_source(b);
    let c = add_feed(&mut model, "c", "u3");
    assert_eq!(root_children(&model), vec![a, b, c]);
}

#[test]
fn insert_appends_when_selected_is_no_child_of_the_root() {
    let mut model = Model::new();
    let d = add_directory(&mut model, "d");
    let x = add_feed(&mut model, "x", "u0");
    model.show_source(d);
    let a = add_feed(&mut model, "a", "u1");
    let b = add_feed(&mut model, "b", "u2");
    model.show_source(a);
    model.ascend();
    assert_eq!(model.current_root_index, model.main_root_index);
    assert_eq!(model.current_source_index, a);
    let y = add_feed(&mut model, "y", "u3");
    assert_eq!(root_children(&model), vec![d, x, y]);
    assert_eq!(model.sources_arena.get(d).unwrap().children(), Some(&vec![a, b]));
}

#[test]
fn find_position_after_counts_from_the_first_match() {
    let a = Reference::from_raw_parts(1, 0);
    let b = Reference::from_raw_parts(2, 0);
    let c = Reference::from_raw_parts(3, 0);
    assert_eq!(find_position_after(&vec![a, b, c], a), 1);
    assert_eq!(find_position_after(&vec![a, b, c], c), 3);
    assert_eq!(find_position_after(&vec![a, b, a], a), 1);
    assert_eq!(find_position_after(&vec![a, b], c), 2);
    assert_eq!(find_position_after(&vec![], c), 0);
}

#[test]
fn sources_with_another_parent_or_with_children_are_passed_over() {
    let mut model = Model::new();
    let d = add_directory(&mut model, "d");
    let root = model.main_root_index;
    assert_eq!(model.add_source(ArenaSource::new_feed("f".to_owned(), "u".to_owned(), d)), None);
    assert_eq!(model.add_source(ArenaSource::new_root()), None);
    let mut with_children = ArenaSource::new_directory("x".to_owned(), root);
    with_children.push_to_children(d);
    assert_eq!(model.add_source(with_children), None);
    let stale = Reference { slot: 999, generation: 0 };
    assert_eq!(model.add_source(ArenaSource::new_feed("f".to_owned(), "u".to_owned(), stale)), None);
    assert_eq!(root_children(&model), vec![d]);
    assert_eq!(list_indices(&model), vec![d]);
}

#[test]
fn insert_source_places_at_the_position() {
    let mut model = Model::new();
    let root = model.main_root_index;
    let a = model.insert_source(ArenaSource::new_feed("a".to_owned(), "u".to_owned(), root), 0).unwrap();
    let b = model.insert_source(ArenaSource::new_feed("b".to_owned(), "u".to_owned(), root), 0).unwrap();
    let c = model.insert_source(ArenaSource::new_feed("c".to_owned(), "u".to_owned(), root), 50).unwrap();
    assert_eq!(root_children(&model), vec![b, a, c]);
    assert_eq!(list_indices(&model), vec![b, a, c]);
}

#[test]
fn ascend_at_the_root_changes_nothing() {
    let mut model = Model::new();
    let a = add_feed(&mut model, "a", "u1");
    let root = model.main_root_index;
    model.ascend();
    assert_eq!(model.current_root_index, root);
    assert_eq!(model.current_source_index, root);
    assert_eq!(list_indices(&model), vec![a]);
    model.show_source(a);
    model.ascend();
    assert_eq!(model.current_root_index, root);
    assert_eq!(model.current_source_index, a);
}

#[test]
fn showing_a_directory_enters_it_and_ascend_leaves_it() {
    let mut model = Model::new();
    let root = model.main_root_index;
    let d = add_directory(&mut model, "News");
    add_feed(&mut model, "x", "u0");
    model.show_source(d);
    assert_eq!(model.current_root_index, d);
    assert_eq!(model.current_source_index, d);
    assert_eq!(model.sources_subtitle, "News");
    assert!(model.sources_list.is_empty());
    assert!(!model.is_root());
    let inner = add_feed(&mut model, "inner", "u1");
    assert_eq!(list_indices(&model), vec![inner]);
    assert_eq!(model.sources_arena.get(inner).unwrap().parent_index(), Some(d));
    model.ascend();
    assert_eq!(model.current_root_index, root);
    assert_eq!(model.current_source_index, d);
    assert_eq!(model.sources_subtitle, "");
    assert_eq!(model.sources_list.len(), 2);
}

#[test]
fn showing_an_invalid_reference_is_a_silent_no_op() {
    let mut model = Model::new();
    let a = add_feed(&mut model, "a", "u1");
    model.show_source(a);
    let stale = Reference { slot: a.slot, generation: a.generation + 1 };
    model.show_source(stale);
    model.show_source(Reference { slot: 12345, generation: 0 });
    assert_eq!(model.current_source_index, a);
    assert_eq!(model.current_root_index, model.main_root_index);
    assert!(!model.show_tidings);
    assert_eq!(list_indices(&model), vec![a]);
}

#[test]
fn folded_layout_reveals_the_tidings() {
    let mut model = Model::new();
    let a = add_feed(&mut model, "a", "u1");
    let d = add_directory(&mut model, "d");
    model.set_folded(true);
    model.show_source(d);
    assert!(!model.show_tidings);
    assert_eq!(model.current_root_index, d);
    model.show_source(d);
    assert!(model.show_tidings);
    model.back();
    assert!(!model.show_tidings);
    assert_eq!(model.current_root_index, d);
    model.back();
    assert_eq!(model.current_root_index, model.main_root_index);
    model.show_source(a);
    assert!(model.show_tidings);
    assert_eq!(model.current_source_index, a);
    model.set_folded(false);
    assert!(model.show_tidings);
    assert!(!model.folded);
}

#[test]
fn unfolded_layout_keeps_the_tidings_page_hidden() {
    let mut model = Model::new();
    let a = add_feed(&mut model, "a", "u1");
    model.show_source(a);
    let root = model.main_root_index;
    model.show_source(root);
    assert!(!model.show_tidings);
    assert_eq!(model.current_source_index, root);
}

#[test]
fn show_from_list_maps_positions_to_references() {
    let mut model = Model::new();
    let a = add_feed(&mut model, "a", "u1");
    let d = add_directory(&mut model, "d");
    model.show_from_list(0);
    assert_eq!(model.current_source_index, a);
    model.show_from_list(-1);
    model.show_from_list(2);
    model.show_from_list(i32::MAX);
    model.show_from_list(i32::MIN);
    assert_eq!(model.current_source_index, a);
    assert_eq!(model.current_root_index, model.main_root_index);
    model.show_from_list(1);
    assert_eq!(model.current_source_index, d);
    assert_eq!(model.current_root_index, d);
}

#[test]
fn project_mirrors_the_children_that_resolve() {
    let mut model = Model::new();
    let a = add_feed(&mut model, "a", "u1");
    let d = add_directory(&mut model, "d");
    let root = model.main_root_index;
    let stale = Reference { slot: 4242, generation: 0 };
    let list = project(&model.sources_arena, &vec![d, stale, root, a, a]);
    assert_eq!(
        list,
        vec![
            ListSource::Directory { title: "d".to_owned(), children: vec![], parent_index: root, index: d },
            ListSource::Feed {
                title: "a".to_owned(),
                url: "u1".to_owned(),
                updating: false,
                parent_index: root,
                index: a,
            },
            ListSource::Feed {
                title: "a".to_owned(),
                url: "u1".to_owned(),
                updating: false,
                parent_index: root,
                index: a,
            },
        ]
    );
    assert_eq!(project(&model.sources_arena, &vec![]), vec![]);
}

#[test]
fn collect_tidings_concatenates_in_the_order_of_the_urls() {
    let mut dictionary = Dictionary::new();
    dictionary.insert("a".to_owned(), tidings(&["a1", "a2"]));
    dictionary.insert("b".to_owned(), tidings(&["b1"]));
    let urls = vec!["b".to_owned(), "missing".to_owned(), "a".to_owned()];
    assert_eq!(collect_tidings(&dictionary, &urls), tidings(&["b1", "a1", "a2"]));
    assert_eq!(collect_tidings(&dictionary, &vec![]), Vec::<Tiding>::new());
}

#[test]
fn refreshing_without_feeds_creates_no_session() {
    let mut model = Model::new();
    assert!(model.start_update_all().is_none());
    assert!(!model.updating);
    assert!(model.update_worker.is_none());
    assert_eq!(model.update_requested, 1);
    assert_eq!(model.update_handled, 0);
    assert_eq!(model.update_sessions, 0);
    let d = add_directory(&mut model, "d");
    model.show_source(d);
    add_directory(&mut model, "e");
    assert!(model.update(Msg::StartUpdateAll).is_none());
    assert!(model.update(Msg::ToggleUpdateAll).is_none());
    assert!(!model.updating);
    assert_eq!(model.update_sessions, 0);
}

#[test]
fn starting_a_refresh_requests_every_url_once() {
    let mut model = Model::new();
    let a = add_feed(&mut model, "a", "u1");
    let d = add_directory(&mut model, "d");
    let b = add_feed(&mut model, "b", "u1");
    model.show_source(d);
    let c = add_feed(&mut model, "c", "u2");
    let (session, urls_map) = work(model.start_update_all());
    assert_eq!(session, 1);
    assert_eq!(urls_map, vec![("u1".to_owned(), vec![a, b]), ("u2".to_owned(), vec![c])]);
    assert!(model.updating);
    assert_eq!(model.update_requested, 2);
    assert_eq!(model.update_handled, 0);
    assert_eq!(model.update_sessions, 1);
    let handle = model.update_worker.as_ref().unwrap();
    assert_eq!(handle.session, 1);
    assert_eq!(handle.pending, vec!["u1".to_owned(), "u2".to_owned()]);
}

#[test]
fn units_mark_their_feeds_and_fill_the_dictionary() {
    let mut model = Model::new();
    let a = add_feed(&mut model, "a", "u1");
    let b = add_feed(&mut model, "b", "u1");
    let c = add_feed(&mut model, "c", "u2");
    let (session, _) = work(model.start_update_all());
    model.update_started(session, vec![a, b]);
    assert!(is_updating(&model, a));
    assert!(is_updating(&model, b));
    assert!(!is_updating(&model, c));
    assert!(model.sources_list[0].is_updating());
    assert!(!model.sources_list[2].is_updating());
    model.insert(session, vec![a, b], "u1".to_owned(), tidings(&["one", "two"]));
    assert!(!is_updating(&model, a));
    assert!(!is_updating(&model, b));
    assert!(!model.sources_list[0].is_updating());
    assert_eq!(model.update_handled, 1);
    assert!(model.updating);
    assert_eq!(model.tidings_dictionary.get("u1"), Some(&tidings(&["one", "two"])));
    assert_eq!(model.tidings_list, tidings(&["one", "two"]));
    model.update_started(session, vec![c]);
    assert!(is_updating(&model, c));
    model.insert(session, vec![c], "u2".to_owned(), tidings(&["three"]));
    assert_eq!(model.update_handled, 2);
    assert_eq!(model.update_requested, 2);
    assert!(!model.updating);
    assert!(model.update_worker.is_none());
    assert_eq!(model.tidings_list, tidings(&["one", "two", "three"]));
}

#[test]
fn cancelling_before_any_unit_completes_leaves_no_trace() {
    let mut model = Model::new();
    let a = add_feed(&mut model, "a", "u1");
    let b = add_feed(&mut model, "b", "u2");
    let (session, _) = work(model.start_update_all());
    model.stop_update_all();
    assert!(!model.updating);
    model.update_started(session, vec![a]);
    model.insert(session, vec![a], "u1".to_owned(), tidings(&["late"]));
    model.insert(session, vec![b], "u2".to_owned(), tidings(&["later"]));
    assert_eq!(model.update_handled, 0);
    assert_eq!(model.tidings_dictionary.get("u1"), None);
    assert_eq!(model.tidings_dictionary.get("u2"), None);
    assert!(!is_updating(&model, a));
    assert!(model.tidings_list.is_empty());
    assert!(!model.updating);
}

#[test]
fn completed_units_keep_their_effects_after_cancellation() {
    let mut model = Model::new();
    let a = add_feed(&mut model, "a", "u1");
    let b = add_feed(&mut model, "b", "u2");
    let (session, _) = work(model.start_update_all());
    model.insert(session, vec![a], "u1".to_owned(), tidings(&["kept"]));
    model.update_started(session, vec![b]);
    model.stop_update_all();
    model.insert(session, vec![b], "u2".to_owned(), tidings(&["dropped"]));
    assert_eq!(model.update_handled, 1);
    assert_eq!(model.tidings_dictionary.get("u1"), Some(&tidings(&["kept"])));
    assert_eq!(model.tidings_dictionary.get("u2"), None);
    assert!(is_updating(&model, b));
}

#[test]
fn late_results_of_a_superseded_session_are_discarded() {
    let mut model = Model::new();
    let a = add_feed(&mut model, "a", "u1");
    let (first, _) = work(model.start_update_all());
    let (second, _) = work(model.start_update_all());
    assert_eq!((first, second), (1, 2));
    model.update_started(first, vec![a]);
    model.insert(first, vec![a], "u1".to_owned(), tidings(&["old"]));
    assert_eq!(model.update_handled, 0);
    assert!(!is_updating(&model, a));
    assert_eq!(model.tidings_dictionary.get("u1"), None);
    assert!(model.updating);
    model.insert(second, vec![a], "u1".to_owned(), tidings(&["new"]));
    assert_eq!(model.update_handled, 1);
    assert!(!model.updating);
    assert_eq!(model.tidings_dictionary.get("u1"), Some(&tidings(&["new"])));
}

#[test]
fn every_completion_order_ends_with_all_requests_handled() {
    let orders: [[usize; 4]; 5] = [[0, 1, 2, 3], [3, 2, 1, 0], [1, 3, 0, 2], [2, 0, 3, 1], [3, 0, 1, 2]];
    for order in orders {
        let mut model = Model::new();
        for i in 0..4 {
            add_feed(&mut model, &format!("f{}", i), &format!("u{}", i));
        }
        let (session, urls_map) = work(model.start_update_all());
        assert_eq!(model.update_requested, 4);
        for (done, i) in order.iter().enumerate() {
            assert!(model.updating);
            assert_eq!(model.update_handled, done);
            let (url, indices) = urls_map[*i].clone();
            model.update_started(session, indices.clone());
            model.insert(session, indices, url.clone(), update::outcome(update::fetch(&url)));
        }
        assert!(!model.updating);
        assert_eq!(model.update_handled, model.update_requested);
        let (url, indices) = urls_map[0].clone();
        model.insert(session, indices, url, tidings(&["again"]));
        assert_eq!(model.update_handled, 4);
        assert_eq!(model.tidings_dictionary.get("u0"), Some(&tidings(&["URL: u0"])));
    }
}

#[test]
fn a_unit_that_comes_back_twice_counts_once() {
    let mut model = Model::new();
    let a = add_feed(&mut model, "a", "u1");
    add_feed(&mut model, "b", "u2");
    let (session, _) = work(model.start_update_all());
    model.insert(session, vec![a], "u1".to_owned(), tidings(&["first"]));
    model.insert(session, vec![a], "u1".to_owned(), tidings(&["second"]));
    model.insert(session, vec![a], "unknown".to_owned(), tidings(&["third"]));
    assert_eq!(model.update_handled, 1);
    assert!(model.updating);
    assert_eq!(model.tidings_dictionary.get("u1"), Some(&tidings(&["first"])));
    assert_eq!(model.tidings_dictionary.get("unknown"), None);
}

#[test]
fn a_failed_fetch_counts_as_handled_with_empty_content() {
    let mut model = Model::new();
    let a = add_feed(&mut model, "a", "u1");
    let b = add_feed(&mut model, "b", "u2");
    let (session, _) = work(model.start_update_all());
    model.insert(session, vec![a], "u1".to_owned(), update::outcome(Err(update::FetchError)));
    assert_eq!(model.update_handled, 1);
    assert!(model.updating);
    assert_eq!(model.tidings_dictionary.get("u1"), Some(&Vec::new()));
    model.insert(session, vec![b], "u2".to_owned(), update::outcome(update::fetch("u2")));
    assert_eq!(model.update_handled, 2);
    assert!(!model.updating);
    assert_eq!(model.tidings_list, tidings(&["URL: u2"]));
}

#[test]
fn toggle_starts_and_stops() {
    let mut model = Model::new();
    add_feed(&mut model, "a", "u1");
    let (session, _) = work(model.toggle_update_all());
    assert_eq!(session, 1);
    assert!(model.updating);
    assert!(model.toggle_update_all().is_none());
    assert!(!model.updating);
    assert!(model.update_worker.is_none());
    let (session, _) = work(model.update(Msg::ToggleUpdateAll));
    assert_eq!(session, 2);
    assert!(model.update(Msg::StopUpdateAll).is_none());
    assert!(!model.updating);
}

#[test]
fn session_numbers_wrap_around() {
    let mut model = Model::new();
    add_feed(&mut model, "a", "u1");
    model.update_sessions = u64::MAX;
    let (session, _) = work(model.start_update_all());
    assert_eq!(session, 0);
    assert_eq!(model.update_sessions, 0);
}

#[test]
fn content_of_a_directory_follows_the_walk() {
    let mut model = Model::new();
    let a = add_feed(&mut model, "a", "u1");
    let d = add_directory(&mut model, "d");
    let b = add_feed(&mut model, "b", "u3");
    model.show_source(d);
    let c = add_feed(&mut model, "c", "u2");
    let e = add_feed(&mut model, "e", "u1");
    let (session, _) = work(model.start_update_all());
    model.insert(session, vec![b], "u3".to_owned(), tidings(&["three"]));
    model.insert(session, vec![c], "u2".to_owned(), tidings(&["two"]));
    model.insert(session, vec![a, e], "u1".to_owned(), tidings(&["one", "uno"]));
    assert_eq!(model.tidings_list, tidings(&["two", "one", "uno"]));
    let root = model.main_root_index;
    model.show_source(root);
    assert_eq!(model.tidings_list, tidings(&["one", "uno", "two", "three"]));
    model.show_source(b);
    assert_eq!(model.tidings_list, tidings(&["three"]));
    model.show_source(e);
    assert_eq!(model.tidings_list, tidings(&["one", "uno"]));
}

#[test]
fn new_feed_with_a_cached_url_shows_its_tidings() {
    let mut model = Model::new();
    let a = add_feed(&mut model, "a", "u1");
    let (session, _) = work(model.start_update_all());
    model.insert(session, vec![a], "u1".to_owned(), tidings(&["one"]));
    let d = add_directory(&mut model, "d");
    model.show_source(d);
    assert!(model.tidings_list.is_empty());
    add_feed(&mut model, "b", "u1");
    assert_eq!(model.tidings_list, tidings(&["one"]));
}

#[test]
fn concerns_current_source_decides_by_selection() {
    let mut model = Model::new();
    let a = add_feed(&mut model, "a", "u1");
    let d = add_directory(&mut model, "d");
    model.show_source(d);
    let c = add_feed(&mut model, "c", "u2");
    assert!(model.concerns_current_source(&vec![a, c]));
    assert!(!model.concerns_current_source(&vec![a]));
    assert!(!model.concerns_current_source(&vec![d]));
    assert!(!model.concerns_current_source(&vec![]));
    model.show_source(c);
    assert!(model.concerns_current_source(&vec![a, c]));
    assert!(!model.concerns_current_source(&vec![a, d]));
    let root = model.main_root_index;
    model.show_source(root);
    assert!(model.concerns_current_source(&vec![c]));
    assert!(model.concerns_current_source(&vec![a]));
    assert!(!model.concerns_current_source(&vec![Reference { slot: 900, generation: 0 }]));
}

#[test]
fn messages_are_dispatched() {
    let mut model = Model::new();
    assert!(model.update(Msg::AddFeed("a".to_owned(), "u1".to_owned())).is_none());
    assert!(model.update(Msg::AddDirectory("d".to_owned())).is_none());
    let children = root_children(&model);
    assert_eq!(children.len(), 2);
    let (a, d) = (children[0], children[1]);
    assert_eq!(
        model.sources_arena.get(a),
        Some(&ArenaSource::new_feed("a".to_owned(), "u1".to_owned(), model.main_root_index))
    );
    assert_eq!(
        model.sources_arena.get(d),
        Some(&ArenaSource::new_directory("d".to_owned(), model.main_root_index))
    );
    model.update(Msg::SetFolded(true));
    assert!(model.folded);
    model.update(Msg::ShowFromList(1));
    assert_eq!(model.current_root_index, d);
    model.update(Msg::ShowCurrentRoot);
    assert!(model.show_tidings);
    model.update(Msg::Back);
    assert!(!model.show_tidings);
    model.update(Msg::Back);
    assert_eq!(model.current_root_index, model.main_root_index);
    let (session, urls_map) = work(model.update(Msg::StartUpdateAll));
    assert_eq!(urls_map, vec![("u1".to_owned(), vec![a])]);
    model.update(Msg::UpdateStarted(session, vec![a]));
    assert!(is_updating(&model, a));
    model.update(Msg::Insert(session, vec![a], "u1".to_owned(), tidings(&["t"])));
    assert!(!is_updating(&model, a));
    assert!(!model.updating);
    assert_eq!(model.update_handled, 1);
    assert_eq!(model.update_requested, 1);
}

#[test]
fn urls_map_of_the_model_covers_the_whole_tree() {
    let mut model = Model::new();
    let a = add_feed(&mut model, "a", "same");
    let d = add_directory(&mut model, "d");
    model.show_source(d);
    let b = add_feed(&mut model, "b", "same");
    assert_eq!(model.urls_map(), vec![("same".to_owned(), vec![a, b])]);
}

#[test]
fn update_of_a_subtree_requests_its_urls_only() {
    let mut model = Model::new();
    let a = add_feed(&mut model, "a", "u1");
    let d = add_directory(&mut model, "d");
    model.show_source(d);
    let b = add_feed(&mut model, "b", "u2");
    let c = add_feed(&mut model, "c", "u3");
    let (session, urls_map) = work(model.start_update(d));
    assert_eq!(session, 1);
    assert_eq!(urls_map, vec![("u2".to_owned(), vec![b]), ("u3".to_owned(), vec![c])]);
    assert_eq!(model.update_requested, 2);
    model.insert(session, vec![a], "u1".to_owned(), tidings(&["not asked for"]));
    assert_eq!(model.update_handled, 0);
    assert_eq!(model.tidings_dictionary.get("u1"), None);
    model.insert(session, vec![c], "u3".to_owned(), tidings(&["three"]));
    model.insert(session, vec![b], "u2".to_owned(), tidings(&["two"]));
    assert_eq!(model.update_handled, 2);
    assert!(!model.updating);
    assert_eq!(model.tidings_list, tidings(&["two", "three"]));
    let (session, urls_map) = work(model.start_update(a));
    assert_eq!(session, 2);
    assert_eq!(urls_map, vec![("u1".to_owned(), vec![a])]);
}

#[test]
fn update_of_an_invalid_reference_or_an_empty_directory_starts_nothing() {
    let mut model = Model::new();
    add_feed(&mut model, "a", "u1");
    let d = add_directory(&mut model, "d");
    assert!(model.start_update(d).is_none());
    assert!(model.start_update(Reference { slot: 321, generation: 9 }).is_none());
    assert!(!model.updating);
    assert_eq!(model.update_sessions, 0);
    assert_eq!(model.update_requested, 1);
    let (session, _) = work(model.start_update_all());
    assert!(model.start_update(d).is_none());
    assert!(model.updating);
    assert_eq!(model.update_worker.as_ref().unwrap().session, session);
}

#[test]
fn progress_never_divides_by_zero() {
    let mut model = Model::new();
    assert_eq!(model.progress(), (0, 1));
    let a = add_feed(&mut model, "a", "u1");
    let b = add_feed(&mut model, "b", "u2");
    let (session, _) = work(model.start_update_all());
    assert_eq!(model.progress(), (0, 2));
    model.insert(session, vec![a], "u1".to_owned(), tidings(&["one"]));
    assert_eq!(model.progress(), (1, 2));
    model.stop_update_all();
    assert_eq!(model.progress(), (1, 2));
    let (session, _) = work(model.start_update_all());
    assert_eq!(model.progress(), (0, 2));
    model.insert(session, vec![b], "u2".to_owned(), tidings(&["two"]));
    model.insert(session, vec![a], "u1".to_owned(), tidings(&["one"]));
    assert_eq!(model.progress(), (2, 2));
}
