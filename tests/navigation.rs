use kcom::breadcrumb::{clicked_path, wrap_lines};
use kcom::event::{Input, Step};
use kcom::filter::{filter_names, filter_view, sort_names};
use kcom::nav::{App, DirChange, Listing};
use kcom::path::{is_valid_segment, DirPath};
use kcom::text::{contains_text, is_hidden_name, name_le_exec};

fn s(x: &str) -> String {
    x.to_string()
}

fn strings(v: &[&str]) -> Vec<String> {
    v.iter().map(|x| x.to_string()).collect()
}

fn path(v: &[&str]) -> DirPath {
    DirPath::from_segments(strings(v)).unwrap()
}

fn listing(d: &[&str], f: &[&str]) -> Listing {
    Ok((strings(d), strings(f), vec![]))
}

fn alice() -> App {
    let mut app = App::new(path(&["home", "alice"]));
    app.update_from_filesystem(listing(&["Downloads", "Documents"], &["todo.md", "notes.txt"]));
    app.build_displayed_items();
    app
}

#[test]
fn startup_builds_view_and_selects_first() {
    let app = alice();
    assert_eq!(app.all_subdirs, strings(&["Documents", "Downloads"]));
    assert_eq!(app.subdirs, strings(&["../", "Documents", "Downloads"]));
    assert_eq!(app.files, strings(&[" - notes.txt", " - todo.md"]));
    assert_eq!(app.list_length, 5);
    assert_eq!(app.selected, Some(0));
}

#[test]
fn filter_scenario_down_then_enter() {
    let mut app = alice();
    app.push_filter('D');
    app.push_filter('o');
    assert_eq!(app.filter, Some(s("Do")));
    assert_eq!(app.subdirs, strings(&["../", "Documents", "Downloads"]));
    assert!(app.files.is_empty());
    assert_eq!(app.list_length, 3);
    app.move_down();
    assert_eq!(app.selected, Some(1));
    let mv = app.change_target().unwrap();
    assert_eq!(mv.target.to_text(), s("/home/alice/Documents"));
    assert_eq!(mv.came_from, None);
    app.change_dir(listing(&["b", "a"], &["x"]));
    assert_eq!(app._current_path_as_string(), s("/home/alice/Documents"));
    assert_eq!(app.filter, None);
    assert_eq!(app.subdirs, strings(&["../", "a", "b"]));
    assert_eq!(app.selected, Some(0));
}

#[test]
fn command_round_trip() {
    let app = App::new(path(&["home", "alice", "Projects"]));
    assert_eq!(app.command_text(), s("cd \"/home/alice/Projects\""));
}

#[test]
fn quit_event_gives_command() {
    let mut app = alice();
    match app.handle(Input::Quit) {
        Step::Quit(cmd) => assert_eq!(cmd, s("cd \"/home/alice\"")),
        _ => panic!("expected quit"),
    }
}

#[test]
fn parent_round_trip_restores_selection() {
    let mut app = alice();
    app.move_down();
    app.move_down();
    assert_eq!(app.selected, Some(2));
    app.change_dir(listing(&["inner"], &[]));
    assert_eq!(app._current_path_as_string(), s("/home/alice/Downloads"));
    assert_eq!(app.selected, Some(0));
    let up = app.change_target().unwrap();
    assert_eq!(up.target.to_text(), s("/home/alice"));
    assert_eq!(up.came_from, Some(s("Downloads")));
    app.change_dir(listing(&["Downloads", "Documents"], &["todo.md", "notes.txt"]));
    assert_eq!(app._current_path_as_string(), s("/home/alice"));
    assert_eq!(app.selected, Some(2));
    let again = app.change_target().unwrap();
    assert_eq!(again.target.to_text(), s("/home/alice/Downloads"));
}

#[test]
fn going_up_to_a_vanished_child_selects_first() {
    let mut app = alice();
    app.move_down();
    app.change_dir(listing(&[], &[]));
    app.change_dir(listing(&["Other"], &[]));
    assert_eq!(app.selected, Some(0));
}

#[test]
fn activating_a_file_is_a_no_op() {
    let mut app = alice();
    app.move_end();
    assert_eq!(app.selected, Some(2));
    app.move_end();
    assert_eq!(app.selected, Some(4));
    assert!(app.change_target().is_none());
    app.change_dir(listing(&["zzz"], &[]));
    assert_eq!(app._current_path_as_string(), s("/home/alice"));
    assert_eq!(app.selected, Some(4));
}

#[test]
fn moves_clamp_at_both_ends() {
    let mut app = alice();
    app.move_up();
    assert_eq!(app.selected, Some(0));
    for _ in 0..10 {
        app.move_down();
    }
    assert_eq!(app.selected, Some(4));
}

#[test]
fn home_goes_to_first_file_then_top() {
    let mut app = alice();
    app.move_end();
    app.move_end();
    assert_eq!(app.selected, Some(4));
    app.move_home();
    assert_eq!(app.selected, Some(3));
    app.move_home();
    assert_eq!(app.selected, Some(0));
}

#[test]
fn filter_shrink_clamps_selection() {
    let mut app = alice();
    app.move_end();
    app.move_end();
    app.push_filter('.');
    // Only the two files hold a dot.
    assert_eq!(app.subdirs, strings(&["../"]));
    assert_eq!(app.files, strings(&[" - notes.txt", " - todo.md"]));
    assert_eq!(app.selected, Some(2));
    app.push_filter('t');
    assert_eq!(app.files, strings(&[" - notes.txt"]));
    assert_eq!(app.selected, Some(1));
}

#[test]
fn backspace_and_escape_edit_filter() {
    let mut app = alice();
    app.push_filter('x');
    app.push_filter('y');
    app.pop_filter();
    assert_eq!(app.filter, Some(s("x")));
    app.pop_filter();
    assert_eq!(app.filter, None);
    app.pop_filter();
    assert_eq!(app.filter, None);
    app.push_filter('q');
    app.clear_filter();
    assert_eq!(app.filter, None);
    assert_eq!(app.list_length, 5);
}

#[test]
fn hidden_entries_follow_the_toggle() {
    let mut app = App::new(DirPath::root());
    app.update_from_filesystem(listing(&[".git", "src"], &[".env", "a"]));
    app.build_displayed_items();
    assert_eq!(app.subdirs, strings(&["src"]));
    assert_eq!(app.files, strings(&[" - a"]));
    app.toggle_hidden();
    assert_eq!(app.subdirs, strings(&[".git", "src"]));
    assert_eq!(app.files, strings(&[" - .env", " - a"]));
}

#[test]
fn empty_root_listing_has_no_selection() {
    let mut app = App::new(DirPath::root());
    app.update_from_filesystem(listing(&[], &[]));
    app.build_displayed_items();
    assert_eq!(app.list_length, 0);
    assert_eq!(app.selected, None);
    app.move_down();
    app.move_end();
    app.move_home();
    assert_eq!(app.selected, None);
    assert!(app.change_target().is_none());
}

#[test]
fn root_has_no_parent_entry() {
    let mut app = App::new(DirPath::root());
    app.update_from_filesystem(listing(&["usr"], &[]));
    app.build_displayed_items();
    assert_eq!(app.subdirs, strings(&["usr"]));
}

#[test]
fn listing_error_becomes_placeholder() {
    let mut app = App::new(path(&["root"]));
    app.update_from_filesystem(Err(s("Permission denied")));
    app.build_displayed_items();
    assert_eq!(app.subdirs, strings(&["../", "Permission denied"]));
    assert!(app.files.is_empty());
    assert_eq!(app.selected, Some(0));
}

#[test]
fn links_join_files_sorted() {
    let mut app = App::new(DirPath::root());
    app.update_from_filesystem(Ok((strings(&[]), strings(&["b", "d"]), strings(&["c", "a"]))));
    assert_eq!(app.all_files, strings(&["a", "b", "c", "d"]));
}

#[test]
fn scroll_offset_keeps_selection_visible() {
    let mut app = alice();
    app.set_viewport(80, 1, 2);
    app.refresh_list_offset();
    assert_eq!(app.offset, 0);
    app.move_down();
    app.move_down();
    app.move_down();
    app.refresh_list_offset();
    assert_eq!(app.offset, 2);
    app.set_viewport(80, 1, 10);
    app.refresh_list_offset();
    assert_eq!(app.offset, 0);
}

#[test]
fn breadcrumb_wraps_at_width() {
    let mut app = App::new(path(&["home", "alice", "Projects"]));
    app.set_viewport(8, 0, 0);
    assert_eq!(app.breadcrumb_lines(), strings(&["/home/al", "ice/Proj", "ects"]));
    assert_eq!(app._breadcrumb_length(), 20);
    assert_eq!(wrap_lines(&s(""), 4), strings(&[""]));
    assert_eq!(wrap_lines(&s("abcd"), 4), strings(&["abcd"]));
    assert_eq!(wrap_lines(&s("abcde"), 0), strings(&["abcde"]));
}

#[test]
fn header_shows_filter_while_filtering() {
    let mut app = alice();
    app.set_viewport(80, 1, 5);
    assert_eq!(app.header_lines(), strings(&["/home/alice"]));
    app.push_filter('D');
    assert_eq!(app.header_lines(), strings(&["Filter: D"]));
}

#[test]
fn breadcrumb_click_picks_component() {
    let dir = path(&["home", "alice", "Projects"]);
    // "/home/alice/Projects": offsets 0..=1 give the root, 2..=6 "/home".
    assert_eq!(clicked_path(&dir, 80, 1, 1).to_text(), s("/"));
    assert_eq!(clicked_path(&dir, 80, 3, 1).to_text(), s("/home"));
    assert_eq!(clicked_path(&dir, 80, 7, 1).to_text(), s("/home"));
    assert_eq!(clicked_path(&dir, 80, 8, 1).to_text(), s("/home/alice"));
    assert_eq!(clicked_path(&dir, 80, 14, 1).to_text(), s("/home/alice/Projects"));
    assert_eq!(clicked_path(&dir, 80, 80, 1).to_text(), s("/home/alice/Projects"));
    // Second line of a header wrapped at 8 columns: offset 8.
    assert_eq!(clicked_path(&dir, 8, 1, 2).to_text(), s("/home/alice"));
}

#[test]
fn breadcrumb_chdir_moves_and_resets() {
    let mut app = App::new(path(&["home", "alice", "Projects"]));
    app.set_viewport(80, 1, 5);
    app.push_filter('z');
    app.breadcrumb_chdir(3, 1, listing(&["alice", "bob"], &[]));
    assert_eq!(app._current_path_as_string(), s("/home"));
    assert_eq!(app.filter, None);
    assert_eq!(app.subdirs, strings(&["../", "alice", "bob"]));
    assert_eq!(app.selected, Some(0));
}

#[test]
fn click_in_list_selects_row() {
    let mut app = alice();
    app.set_viewport(80, 1, 5);
    // Row y = 3 below a header ending at row 1 is the second entry.
    let mv = app.click(1, 3);
    assert_eq!(app.selected, Some(1));
    assert_eq!(mv.unwrap().target.to_text(), s("/home/alice/Documents"));
    let none = app.click(1, 5);
    assert_eq!(app.selected, Some(3));
    assert!(none.is_none());
    let beyond = app.click(1, 40);
    assert_eq!(app.selected, Some(3));
    assert!(beyond.is_none());
}

#[test]
fn click_on_header_asks_for_breadcrumb_target() {
    let mut app = alice();
    app.set_viewport(80, 1, 5);
    let mv = app.click(3, 1).unwrap();
    assert_eq!(mv.target.to_text(), s("/home"));
    assert_eq!(mv.came_from, None);
    match app.handle(Input::Click(3, 1)) {
        Step::Scan(DirChange { target, came_from: None }) => assert_eq!(target.to_text(), s("/home")),
        _ => panic!("expected a scan"),
    }
}

#[test]
fn handle_dispatches_keys() {
    let mut app = alice();
    assert!(matches!(app.handle(Input::Down), Step::Stay));
    assert_eq!(app.selected, Some(1));
    assert!(matches!(app.handle(Input::Up), Step::Stay));
    assert_eq!(app.selected, Some(0));
    app.handle(Input::End);
    assert_eq!(app.selected, Some(2));
    app.handle(Input::Char('n'));
    assert_eq!(app.filter, Some(s("n")));
    app.handle(Input::Backspace);
    assert_eq!(app.filter, None);
    app.handle(Input::ToggleHidden);
    assert!(app.show_hidden);
    app.handle(Input::Escape);
    assert!(matches!(app.handle(Input::Tick), Step::Stay));
    match app.handle(Input::Activate) {
        Step::Scan(m) => {
            assert_eq!(m.target.to_text(), s("/home/alice/Downloads"));
            app.enter_dir(m, listing(&[], &[]));
            assert_eq!(app._current_path_as_string(), s("/home/alice/Downloads"));
        }
        _ => panic!("expected a scan"),
    }
}

#[test]
fn parent_entry_goes_up() {
    let mut app = alice();
    match app.handle(Input::Activate) {
        Step::Scan(m) => {
            assert_eq!(m.target.to_text(), s("/home"));
            assert_eq!(m.came_from, Some(s("alice")));
            app.enter_dir(m, listing(&["alice", "bob"], &[]));
            assert_eq!(app.selected, Some(1));
        }
        _ => panic!("expected a scan"),
    }
}

#[test]
fn filter_engine_keeps_order_and_matches() {
    let all = strings(&["apple", "banana", ".hidden_an", "cherry", "mango"]);
    assert_eq!(filter_names(&all, &s("an"), false), strings(&["banana", "mango"]));
    assert_eq!(filter_names(&all, &s("an"), true), strings(&["banana", ".hidden_an", "mango"]));
    assert_eq!(filter_names(&all, &s(""), false), strings(&["apple", "banana", "cherry", "mango"]));
    assert_eq!(filter_names(&all, &s("An"), true), strings(&[]));
    let (d, f) = filter_view(&strings(&["x1", "y"]), &strings(&["x2"]), &Some(s("x")), false, true);
    assert_eq!(d, strings(&["../", "x1"]));
    assert_eq!(f, strings(&[" - x2"]));
}

#[test]
fn sort_orders_names_by_code_point() {
    let v = strings(&["b", "B", "a", "ab", "", "a"]);
    assert_eq!(sort_names(v), strings(&["", "B", "a", "a", "ab", "b"]));
    assert_eq!(sort_names(vec![]), Vec::<String>::new());
}

#[test]
fn text_predicates() {
    assert!(contains_text(&s("Documents"), &s("cum")));
    assert!(!contains_text(&s("Documents"), &s("Cum")));
    assert!(contains_text(&s("x"), &s("")));
    assert!(!contains_text(&s("ab"), &s("abc")));
    assert!(is_hidden_name(&s(".git")));
    assert!(!is_hidden_name(&s("")));
    assert!(name_le_exec(&s("ab"), &s("ab")));
    assert!(name_le_exec(&s("a"), &s("ab")));
    assert!(!name_le_exec(&s("b"), &s("ab")));
    assert!(name_le_exec(&s("Z"), &s("a")));
}

#[test]
fn path_operations() {
    assert!(is_valid_segment(&s("name")));
    assert!(!is_valid_segment(&s("")));
    assert!(!is_valid_segment(&s(".")));
    assert!(!is_valid_segment(&s("..")));
    assert!(!is_valid_segment(&s("a/b")));
    assert!(is_valid_segment(&s("...")));
    assert!(DirPath::from_segments(strings(&["a", ".."])).is_none());
    let p = path(&["a", "b"]);
    assert_eq!(p.to_text(), s("/a/b"));
    assert_eq!(p.parent().to_text(), s("/a"));
    assert_eq!(p.parent().parent().to_text(), s("/"));
    assert_eq!(DirPath::root().parent().to_text(), s("/"));
    assert_eq!(p.file_name(), Some(s("b")));
    assert_eq!(DirPath::root().file_name(), None);
    assert_eq!(p.join(&s("c")).to_text(), s("/a/b/c"));
    assert_eq!(p.prefix(1).to_text(), s("/a"));
    assert!(p.has_parent());
    assert!(!DirPath::root().has_parent());
}

#[test]
fn selection_stays_in_range_over_transitions() {
    let mut app = alice();
    app.set_viewport(80, 1, 3);
    let inputs = vec![
        Input::End,
        Input::End,
        Input::Char('z'),
        Input::Backspace,
        Input::Down,
        Input::Char('.'),
        Input::ToggleHidden,
        Input::Up,
        Input::Escape,
        Input::Home,
        Input::Click(1, 9),
        Input::Click(1, 2),
    ];
    for input in inputs {
        app.handle(input);
        app.refresh_list_offset();
        match app.selected {
            Some(i) => assert!(i < app.list_length),
            None => assert_eq!(app.list_length, 0),
        }
        assert_eq!(app.list_length, app.subdirs.len() + app.files.len());
        if let Some(i) = app.selected {
            assert!(app.offset <= i && i < app.offset + app.chunk_height);
        }
    }
}
