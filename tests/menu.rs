use spacey::{after_menu, menu_top, App, Flow, Key, MenuItem};

fn line(chars: &[char]) -> String {
    chars.iter().collect()
}

#[test]
fn app_test_initial_state() {
    let app = App::new();
    assert!(app.is_running());
    assert_eq!(app.selected_index(), 0);
    assert!(app.selected_action().is_none());
}

#[test]
fn test_navigation() {
    let mut app = App::new();
    let menu_len = MenuItem::all().len();

    // Previous from 0 wraps to end
    app.previous();
    assert_eq!(app.selected_index(), menu_len - 1);

    // Next wraps around
    app.next();
    assert_eq!(app.selected_index(), 0);

    app.next();
    assert_eq!(app.selected_index(), 1);
}

#[test]
fn test_selection_and_quit() {
    let mut app = App::new();
    app.select();
    assert!(!app.is_running());
    assert!(app.selected_action().is_some());
}

#[test]
fn menu_order_and_labels() {
    let items = MenuItem::all();
    assert_eq!(items, &[MenuItem::StartGame, MenuItem::Options, MenuItem::HighScores, MenuItem::Exit]);
    assert_eq!(MenuItem::StartGame.label(), "START GAME");
    assert_eq!(MenuItem::Options.label(), "OPTIONS");
    assert_eq!(MenuItem::HighScores.label(), "HIGH SCORES");
    assert_eq!(MenuItem::Exit.label(), "EXIT");
}

#[test]
fn previous_from_first_of_four_is_last() {
    let mut app = App::new();
    app.previous();
    assert_eq!(app.selected_index(), 3);
    app.previous();
    assert_eq!(app.selected_index(), 2);
}

#[test]
fn navigation_stays_in_range_over_long_runs() {
    let mut app = App::new();
    for step in 0..50usize {
        if step % 3 == 0 {
            app.previous();
        } else {
            app.next();
        }
        assert!(app.selected_index() < 4);
    }
    let mut app = App::new();
    for _ in 0..9 {
        app.next();
    }
    assert_eq!(app.selected_index(), 1);
}

#[test]
fn select_records_each_entry_and_ends_menu() {
    let expected = [MenuItem::StartGame, MenuItem::Options, MenuItem::HighScores, MenuItem::Exit];
    for (i, item) in expected.iter().enumerate() {
        let mut app = App::new();
        for _ in 0..i {
            app.next();
        }
        app.select();
        assert!(!app.is_running());
        assert_eq!(app.selected_action(), Some(*item));
        assert_eq!(app.selected_index(), i);
    }
}

#[test]
fn quit_ends_menu_without_choice() {
    let mut app = App::new();
    app.next();
    app.quit();
    assert!(!app.is_running());
    assert_eq!(app.selected_action(), None);
    assert_eq!(app.selected_index(), 1);
}

#[test]
fn default_app_is_new_app() {
    let app = App::default();
    assert!(app.is_running());
    assert_eq!(app.selected_index(), 0);
    assert_eq!(app.selected_action(), None);
}

#[test]
fn menu_keys() {
    let mut app = App::new();
    app.handle_key(Key::Down);
    app.handle_key(Key::Char('j'));
    assert_eq!(app.selected_index(), 2);
    app.handle_key(Key::Char('k'));
    assert_eq!(app.selected_index(), 1);
    app.handle_key(Key::Up);
    app.handle_key(Key::Up);
    assert_eq!(app.selected_index(), 3);
    app.handle_key(Key::Char('x'));
    app.handle_key(Key::Left);
    assert_eq!(app.selected_index(), 3);
    assert!(app.is_running());
    app.handle_key(Key::Enter);
    assert!(!app.is_running());
    assert_eq!(app.selected_action(), Some(MenuItem::Exit));

    let mut app = App::new();
    app.handle_key(Key::Char('q'));
    assert!(!app.is_running());
    assert_eq!(app.selected_action(), None);
}

#[test]
fn menu_rows_mark_the_highlight() {
    let mut app = App::new();
    app.next();
    let rows: Vec<String> = app.menu_lines().iter().map(|r| line(r)).collect();
    assert_eq!(rows, vec!["  START GAME", "> OPTIONS", "  HIGH SCORES", "  EXIT"]);
}

#[test]
fn menu_list_is_centred() {
    assert_eq!(menu_top(20), 8);
    assert_eq!(menu_top(9), 2);
    assert_eq!(menu_top(4), 0);
    assert_eq!(menu_top(2), 0);
}

#[test]
fn flow_after_menu() {
    assert_eq!(after_menu(Some(MenuItem::StartGame)), Flow::Play);
    assert_eq!(after_menu(Some(MenuItem::Options)), Flow::Finish(Some(MenuItem::Options)));
    assert_eq!(after_menu(Some(MenuItem::HighScores)), Flow::Finish(Some(MenuItem::HighScores)));
    assert_eq!(after_menu(Some(MenuItem::Exit)), Flow::Finish(Some(MenuItem::Exit)));
    assert_eq!(after_menu(None), Flow::Finish(None));
}
