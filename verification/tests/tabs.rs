use grideye_terminal::app::{App, Key, Tab, TabVariant, TabsState};
use grideye_terminal::config::Config;

fn sample_config() -> Config {
    Config {
        app_title: String::from("grideye"),
        datetime_timezone: String::from("Utc"),
        mqtt_broker_url: String::from("localhost"),
        mqtt_user: String::new(),
        mqtt_pass: String::new(),
        mqtt_port: 1883,
        mqtt_topic_base: String::from("/grid_eye"),
        mqtt_topic_error_suffix: String::from("error"),
        mqtt_topic_wildcard: String::from("#"),
        mqtt_client_id: String::from("client"),
        topic_delimiter: String::from("/"),
        topic_parts_count: 4,
        flag_show_bar_index: false,
        flag_show_index: false,
        flag_show_color: false,
        flag_show_map_table_index: false,
        default_empty_topic: String::from("default_empty_topic"),
        default_empty_uuid: String::from("default_empty_uuid"),
        duration_limit_device_remove: 1000,
        duration_limit_device_remove_warn: 500,
        duration_limit_device_unknown: 100,
        log_file: String::from("log.txt"),
    }
}

fn app_with_tabs(n: usize) -> App {
    let mut app = App::new(sample_config());
    for i in 0..n {
        app.push_title(Tab::new(format!("tab{}", i), TabVariant::Dynamic));
    }
    app
}

#[test]
fn tab_variant_labels() {
    assert_eq!(TabVariant::Static.label(), "STATIC");
    assert_eq!(TabVariant::Fixed.label(), "FIXED");
    assert_eq!(TabVariant::Dynamic.label(), "DYNAMIC");
}

#[test]
fn tab_render_shows_variant_and_name() {
    let tab = Tab::new(String::from("heatmap"), TabVariant::Static);
    assert_eq!(tab.name, "heatmap");
    assert_eq!(tab.variant, TabVariant::Static);
    assert_eq!(tab.render(), "STATIC: heatmap");
    assert_eq!(Tab::new(String::from("/grid_eye/queen"), TabVariant::Dynamic).render(), "DYNAMIC: /grid_eye/queen");
    assert_eq!(Tab::new(String::new(), TabVariant::Fixed).render(), "FIXED: ");
}

#[test]
fn tabs_state_starts_at_first() {
    let s = TabsState::new(vec![Tab::new(String::from("a"), TabVariant::Static)]);
    assert_eq!(s.index, 0);
    assert_eq!(s.titles.len(), 1);
}

#[test]
fn next_wraps_after_last() {
    let mut s = TabsState::new(vec![
        Tab::new(String::from("a"), TabVariant::Static),
        Tab::new(String::from("b"), TabVariant::Static),
        Tab::new(String::from("c"), TabVariant::Static),
    ]);
    s.next();
    assert_eq!(s.index, 1);
    s.next();
    assert_eq!(s.index, 2);
    s.next();
    assert_eq!(s.index, 0);
}

#[test]
fn next_from_beyond_the_end_wraps_modulo() {
    let mut s = TabsState::new(vec![
        Tab::new(String::from("a"), TabVariant::Static),
        Tab::new(String::from("b"), TabVariant::Static),
    ]);
    s.index = 4;
    s.next();
    assert_eq!(s.index, 1);
}

#[test]
fn previous_wraps_before_first() {
    let mut s = TabsState::new(vec![
        Tab::new(String::from("a"), TabVariant::Static),
        Tab::new(String::from("b"), TabVariant::Static),
        Tab::new(String::from("c"), TabVariant::Static),
    ]);
    s.previous();
    assert_eq!(s.index, 2);
    s.previous();
    assert_eq!(s.index, 1);
}

#[test]
fn previous_undoes_next_on_values() {
    let mut s = TabsState::new(vec![
        Tab::new(String::from("a"), TabVariant::Static),
        Tab::new(String::from("b"), TabVariant::Static),
        Tab::new(String::from("c"), TabVariant::Static),
    ]);
    for start in 0..3 {
        s.index = start;
        s.next();
        s.previous();
        assert_eq!(s.index, start);
        s.previous();
        s.next();
        assert_eq!(s.index, start);
    }
}

#[test]
fn next_cycles_back_after_len_moves() {
    let mut app = app_with_tabs(5);
    app.tabs.index = 3;
    for _ in 0..5 {
        app.on_right();
    }
    assert_eq!(app.tabs.index, 3);
}

#[test]
fn remove_drops_every_tab_of_that_name() {
    let mut s = TabsState::new(vec![
        Tab::new(String::from("a"), TabVariant::Static),
        Tab::new(String::from("dev"), TabVariant::Dynamic),
        Tab::new(String::from("b"), TabVariant::Fixed),
        Tab::new(String::from("dev"), TabVariant::Fixed),
    ]);
    s.index = 3;
    s.remove(&String::from("dev"));
    let names: Vec<&str> = s.titles.iter().map(|t| t.name.as_str()).collect();
    assert_eq!(names, vec!["a", "b"]);
    assert_eq!(s.index, 3);
    s.remove(&String::from("missing"));
    assert_eq!(s.titles.len(), 2);
}

#[test]
fn app_starts_empty() {
    let app = App::new(sample_config());
    assert!(!app.should_quit);
    assert!(!app.should_pause);
    assert_eq!(app.tabs.titles.len(), 0);
    assert_eq!(app.tabs.index, 0);
    assert_eq!(app.config.mqtt_topic_base, "/grid_eye");
}

#[test]
fn on_key_q_quits() {
    let mut app = app_with_tabs(3);
    app.on_key('q');
    assert!(app.should_quit);
    assert_eq!(app.tabs.index, 0);
}

#[test]
fn on_key_p_toggles_pause() {
    let mut app = app_with_tabs(3);
    app.on_key('p');
    assert!(app.should_pause);
    app.on_key('p');
    assert!(!app.should_pause);
    app.on_pause();
    assert!(app.should_pause);
}

#[test]
fn on_key_space_moves_right() {
    let mut app = app_with_tabs(2);
    app.on_key(' ');
    assert_eq!(app.tabs.index, 1);
    app.on_key(' ');
    assert_eq!(app.tabs.index, 0);
}

#[test]
fn on_key_digit_selects_tab() {
    let mut app = app_with_tabs(4);
    app.on_key('3');
    assert_eq!(app.tabs.index, 2);
    app.on_key('4');
    assert_eq!(app.tabs.index, 3);
    app.on_key('1');
    assert_eq!(app.tabs.index, 0);
}

#[test]
fn on_key_digit_beyond_tabs_selects_first() {
    let mut app = app_with_tabs(4);
    app.tabs.index = 2;
    app.on_key('5');
    assert_eq!(app.tabs.index, 0);
    app.tabs.index = 2;
    app.on_key('9');
    assert_eq!(app.tabs.index, 0);
}

#[test]
fn on_key_other_does_nothing() {
    let mut app = app_with_tabs(4);
    app.tabs.index = 2;
    for c in ['0', 'a', 'x', 'Q', '\n'] {
        app.on_key(c);
    }
    assert_eq!(app.tabs.index, 2);
    assert!(!app.should_quit);
    assert!(!app.should_pause);
}

#[test]
fn on_ctrl_key_commands() {
    let mut app = app_with_tabs(3);
    app.on_ctrl_key('f');
    assert_eq!(app.tabs.index, 1);
    app.on_ctrl_key('b');
    assert_eq!(app.tabs.index, 0);
    app.on_ctrl_key('b');
    assert_eq!(app.tabs.index, 2);
    app.on_ctrl_key('q');
    assert!(!app.should_quit);
    app.on_ctrl_key('x');
    assert!(app.should_quit);
    let mut app = app_with_tabs(3);
    app.on_ctrl_key('c');
    assert!(app.should_quit);
}

#[test]
fn on_left_and_right() {
    let mut app = app_with_tabs(3);
    app.on_left();
    assert_eq!(app.tabs.index, 2);
    app.on_right();
    assert_eq!(app.tabs.index, 0);
}

#[test]
fn push_title_appends() {
    let mut app = app_with_tabs(1);
    app.push_title(Tab::new(String::from("last"), TabVariant::Fixed));
    assert_eq!(app.tabs.titles.len(), 2);
    assert_eq!(app.tabs.titles[1].name, "last");
    assert_eq!(app.tabs.titles[1].variant, TabVariant::Fixed);
}

#[test]
fn on_press_dispatches_keys() {
    let mut app = app_with_tabs(3);
    app.on_press(Key::Right, false);
    assert_eq!(app.tabs.index, 1);
    app.on_press(Key::Left, false);
    assert_eq!(app.tabs.index, 0);
    app.on_press(Key::Backspace, false);
    assert_eq!(app.tabs.index, 2);
    app.on_press(Key::Pause, false);
    assert!(app.should_pause);
    app.on_press(Key::Other, false);
    assert!(app.should_pause);
    assert!(!app.should_quit);
    app.on_press(Key::Esc, false);
    assert!(app.should_quit);
}

#[test]
fn on_press_with_control_applies_both_meanings() {
    let mut app = app_with_tabs(3);
    app.on_press(Key::Char('f'), true);
    assert_eq!(app.tabs.index, 1);
    app.on_press(Key::Char('f'), false);
    assert_eq!(app.tabs.index, 1);
    app.on_press(Key::Char(' '), true);
    assert_eq!(app.tabs.index, 2);
    app.on_press(Key::Char('q'), true);
    assert!(app.should_quit);
    let mut app = app_with_tabs(3);
    app.on_press(Key::Char('c'), false);
    assert!(!app.should_quit);
    app.on_press(Key::Char('c'), true);
    assert!(app.should_quit);
}
