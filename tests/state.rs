use carrier_pigeon::collection::{Collection, Secret};
use carrier_pigeon::logging::RecordBuff;
use carrier_pigeon::model::{Method, Request};
use carrier_pigeon::state::{App, GlobalState, Modal, Mode, Pane, RequestTab, ResponseTab, WindowState};
use carrier_pigeon::update::{
    key_message, load_global_state, start_message, GlobalLoad, GlobalStateError, Key, Message,
};
use carrier_pigeon::widgets::UrlBar;
use std::collections::HashMap;
use std::path::PathBuf;
use std::sync::{Arc, Mutex};

fn new_app() -> App {
    App::builder()
        .logs(Arc::new(Mutex::new(RecordBuff::new())))
        .global_state(GlobalState { secrets: HashMap::new() })
        .work_dir(PathBuf::from("/tmp/work"))
        .build()
}

fn request(name: &str, url: &str) -> Request {
    Request::builder().name(name.to_string()).method(Method::Get).url(url.to_string()).build()
}

#[test]
fn request_tab_cycling_stops_at_both_ends() {
    assert_eq!(RequestTab::Body.prev_tab(), RequestTab::Body);
    assert_eq!(RequestTab::QueryParams.next_tab(), RequestTab::QueryParams);
    assert_eq!(RequestTab::QueryParams.next_tab().next_tab(), RequestTab::QueryParams);
    assert_eq!(RequestTab::Body.next_tab(), RequestTab::Headers);
    assert_eq!(RequestTab::PathParams.prev_tab(), RequestTab::Headers);
    assert_eq!(RequestTab::from_index(99), RequestTab::QueryParams);
    assert_eq!(RequestTab::PathParams.index(), 2);
}

#[test]
fn response_tab_cycling_stops_at_both_ends() {
    assert_eq!(ResponseTab::Body.prev_tab(), ResponseTab::Body);
    assert_eq!(ResponseTab::Headers.next_tab(), ResponseTab::Headers);
    assert_eq!(ResponseTab::Body.next_tab(), ResponseTab::Headers);
    assert_eq!(ResponseTab::to_vec(), vec![ResponseTab::Body, ResponseTab::Headers]);
    assert_eq!(RequestTab::to_vec().len(), 4);
    assert_eq!(RequestTab::QueryParams.name(), "QueryParams");
}

#[test]
fn built_app_starts_running_in_normal_mode() {
    let app = new_app();
    assert!(app.running);
    assert!(matches!(app.mode, Mode::Normal));
    assert!(app.collection.is_none());
    assert_eq!(app.window_state, WindowState::default());
    assert_eq!(app.window_state.modal, Modal::Closed);
    assert_eq!(app.work_dir, PathBuf::from("/tmp/work"));
    assert!(!app.show_debug);
}

#[test]
fn quit_chains_both_saves() {
    let mut app = new_app();
    let next = app.update(Message::Quit);
    assert!(!app.running);
    assert!(matches!(next, Some(Message::SaveCollection)));
    let next = app.update(Message::SaveCollection);
    assert!(matches!(next, Some(Message::SaveGlobal)));
    assert!(app.update(Message::SaveGlobal).is_none());
}

#[test]
fn save_while_running_does_not_chain() {
    let mut app = new_app();
    assert!(app.update(Message::SaveCollection).is_none());
    assert!(app.running);
}

#[test]
fn crash_stops_the_app() {
    let mut app = new_app();
    assert!(app.update(Message::Crash("boom".to_string())).is_none());
    assert!(!app.running);
}

#[test]
fn input_only_in_insert_mode() {
    let mut app = new_app();
    app.update(Message::Input('x'));
    assert_eq!(app.input_buf, "");
    app.update(Message::ModeRequest(Mode::Insert));
    app.update(Message::Input('h'));
    app.update(Message::Input('i'));
    assert_eq!(app.input_buf, "hi");
    app.update(Message::ModeRequest(Mode::Normal));
    app.update(Message::Input('!'));
    assert_eq!(app.input_buf, "hi");
}

#[test]
fn toggle_debug_flips() {
    let mut app = new_app();
    app.update(Message::ToggleDebug);
    assert!(app.show_debug);
    app.update(Message::ToggleDebug);
    assert!(!app.show_debug);
}

#[test]
fn select_moves_cursor_within_list() {
    let mut app = new_app();
    app.collection = Some(Collection {
        requests: vec![request("a", "http://a"), request("b", "http://b")],
        environments: vec![],
        save_location: None,
    });
    app.update(Message::SelectDown);
    assert_eq!(app.window_state.select_list_state.selected(), Some(0));
    app.update(Message::SelectDown);
    app.update(Message::SelectDown);
    assert_eq!(app.window_state.select_list_state.selected(), Some(1));
    app.update(Message::SelectUp);
    app.update(Message::SelectUp);
    assert_eq!(app.window_state.select_list_state.selected(), Some(0));
    let bar = UrlBar::construct(&app);
    assert_eq!(bar.url_text, Some("http://a".to_string()));
    assert!(!bar.is_focused);
}

#[test]
fn left_right_cycle_tabs_of_focused_pane() {
    let mut app = new_app();
    app.update(Message::SelectRight);
    assert_eq!(app.window_state.req_state.selected_tab, RequestTab::Body);
    app.update(Message::RequestPane(Pane::Request));
    for _ in 0..5 {
        app.update(Message::SelectRight);
    }
    assert_eq!(app.window_state.req_state.selected_tab, RequestTab::QueryParams);
    app.update(Message::SelectLeft);
    assert_eq!(app.window_state.req_state.selected_tab, RequestTab::PathParams);
    app.update(Message::RequestPane(Pane::Response));
    app.update(Message::SelectRight);
    assert_eq!(app.window_state.res_tab, ResponseTab::Headers);
    assert_eq!(app.window_state.req_state.selected_tab, RequestTab::PathParams);
}

#[test]
fn url_bar_builders() {
    let bar = UrlBar::_new(false, None)._focused()._url("http://x".to_string());
    assert!(bar.is_focused);
    assert_eq!(bar.url_text, Some("http://x".to_string()));
    let mut app = new_app();
    app.update(Message::RequestPane(Pane::Url));
    let bar = UrlBar::construct(&app);
    assert!(bar.is_focused);
    assert_eq!(bar.url_text, None);
}

#[test]
fn start_creates_when_work_dir_absent() {
    assert!(matches!(start_message(PathBuf::from("/w"), false), Message::NewCollection));
    match start_message(PathBuf::from("/w"), true) {
        Message::LoadCollection(p) => assert_eq!(p, PathBuf::from("/w")),
        other => panic!("unexpected {:?}", other),
    }
}

fn decode_secrets(bytes: &Vec<u8>) -> Option<HashMap<String, Secret>> {
    if bytes.is_empty() {
        return None;
    }
    let mut m = HashMap::new();
    for name in String::from_utf8(bytes.clone()).ok()?.split(',') {
        m.insert(name.to_string(), Secret::RawValue);
    }
    Some(m)
}

#[test]
fn global_state_bootstrap() {
    match load_global_state(false, None, decode_secrets) {
        Ok(GlobalLoad::Created(g)) => assert!(g.secrets.is_empty()),
        _ => panic!("absent directory must give an empty state"),
    }
    assert!(matches!(
        load_global_state(true, None, decode_secrets),
        Err(GlobalStateError::MissingSecrets)
    ));
    assert!(matches!(
        load_global_state(true, Some(vec![]), decode_secrets),
        Err(GlobalStateError::MalformedSecrets)
    ));
    match load_global_state(true, Some(b"api,db".to_vec()), decode_secrets) {
        Ok(GlobalLoad::Loaded(g)) => assert_eq!(g.secrets.len(), 2),
        _ => panic!("readable secrets must load"),
    }
}

#[test]
fn keys_map_to_messages_by_mode() {
    assert!(matches!(key_message(Mode::Normal, Key::Char('q')), Some(Message::Quit)));
    assert!(matches!(key_message(Mode::Normal, Key::Down), Some(Message::SelectDown)));
    assert!(matches!(key_message(Mode::Normal, Key::Char('l')), Some(Message::SelectRight)));
    assert!(matches!(
        key_message(Mode::Normal, Key::Char('3')),
        Some(Message::RequestPane(Pane::Request))
    ));
    assert!(matches!(key_message(Mode::Normal, Key::Char('z')), None));
    assert!(matches!(key_message(Mode::Insert, Key::Char('q')), Some(Message::Input('q'))));
    assert!(matches!(
        key_message(Mode::Insert, Key::Esc),
        Some(Message::ModeRequest(Mode::Normal))
    ));
    assert!(matches!(key_message(Mode::Insert, Key::Up), None));
}
