//! Messages and the update step, with the start-up and loading policies around them.
use crate::collection::{
    Collection, Environment, EnvironmentValue, EnvironmentValues, Secret, SerializedCollection,
    deserialized_by,
};
use crate::model::{Method, Protocol, Request};
use crate::state::{App, GlobalState, Mode, Pane, clamp_index, prev_index};
use std::collections::HashMap;
use std::path::PathBuf;
use vstd::prelude::*;

verus! {

/// Relies on std's `String::push`: it appends the character at the end.
pub assume_specification[ String::push ](s: &mut String, ch: char)
    ensures
        final(s)@ == old(s)@.push(ch),
;

/// What the event loop hands to the update step.
#[derive(Debug)]
pub enum Message {
    Crash(String),
    LoadCollection(PathBuf),
    NewCollection,
    Input(char),
    ModeRequest(Mode),
    RequestPane(Pane),
    SelectDown,
    SelectUp,
    SelectLeft,
    SelectRight,
    SaveCollection,
    SaveGlobal,
    Quit,
    ToggleDebug,
    Start,
}

/// A key press, as far as the key bindings tell keys apart.
#[derive(Clone, Copy, Debug, PartialEq, Eq, Structural)]
pub enum Key {
    Char(char),
    Esc,
    Up,
    Down,
    Left,
    Right,
    Other,
}

/// The message a key stands for in a mode, if any. In normal mode single keys are commands;
/// in insert mode characters are text and Escape returns to normal mode.
pub open spec fn binding(mode: Mode, key: Key) -> Option<Message> {
    match mode {
        Mode::Insert => match key {
            Key::Esc => Some(Message::ModeRequest(Mode::Normal)),
            Key::Char(c) => Some(Message::Input(c)),
            _ => None,
        },
        Mode::Normal => match key {
            Key::Char('q') => Some(Message::Quit),
            Key::Char('i') => Some(Message::ModeRequest(Mode::Insert)),
            Key::Char('d') => Some(Message::ToggleDebug),
            Key::Char('1') => Some(Message::RequestPane(Pane::Select)),
            Key::Char('2') => Some(Message::RequestPane(Pane::Url)),
            Key::Char('3') => Some(Message::RequestPane(Pane::Request)),
            Key::Char('4') => Some(Message::RequestPane(Pane::Response)),
            Key::Char('j') | Key::Down => Some(Message::SelectDown),
            Key::Char('k') | Key::Up => Some(Message::SelectUp),
            Key::Char('h') | Key::Left => Some(Message::SelectLeft),
            Key::Char('l') | Key::Right => Some(Message::SelectRight),
            _ => None,
        },
    }
}

/// Translates a key press into a message according to the mode.
pub fn key_message(mode: Mode, key: Key) -> (r: Option<Message>)
    ensures
        r == binding(mode, key),
{
    match mode {
        Mode::Insert => match key {
            Key::Esc => Some(Message::ModeRequest(Mode::Normal)),
            Key::Char(c) => Some(Message::Input(c)),
            _ => None,
        },
        Mode::Normal => match key {
            Key::Char('q') => Some(Message::Quit),
            Key::Char('i') => Some(Message::ModeRequest(Mode::Insert)),
            Key::Char('d') => Some(Message::ToggleDebug),
            Key::Char('1') => Some(Message::RequestPane(Pane::Select)),
            Key::Char('2') => Some(Message::RequestPane(Pane::Url)),
            Key::Char('3') => Some(Message::RequestPane(Pane::Request)),
            Key::Char('4') => Some(Message::RequestPane(Pane::Response)),
            Key::Char('j') | Key::Down => Some(Message::SelectDown),
            Key::Char('k') | Key::Up => Some(Message::SelectUp),
            Key::Char('h') | Key::Left => Some(Message::SelectLeft),
            Key::Char('l') | Key::Right => Some(Message::SelectRight),
            _ => None,
        },
    }
}

/// The first message: load the work directory where it exists, else create a collection.
pub fn start_message(work_dir: PathBuf, work_dir_exists: bool) -> (r: Message)
    ensures
        work_dir_exists ==> r == Message::LoadCollection(work_dir),
        !work_dir_exists ==> r is NewCollection,
{
    if work_dir_exists {
        Message::LoadCollection(work_dir)
    } else {
        Message::NewCollection
    }
}

/// The collection created on first run: one example request and one example environment.
pub fn default_collection() -> (r: Collection)
    ensures
        r.requests@.len() == 1,
        r.environments@.len() == 1,
        r.save_location is None,
{
    let request = Request::builder().name(String::from_str("example")).method(Method::Get).url(
        String::from_str("https://example.com"),
    ).protocol(Protocol::Http).build();
    let mut values: EnvironmentValues = HashMap::new();
    values.insert(String::from_str("host"), EnvironmentValue::Value(String::from_str("example.com")));
    let environment = Environment { name: String::from_str("default"), values };
    Collection { requests: vec![request], environments: vec![environment], save_location: None }
}

/// Why loading a collection from its directory failed.
#[derive(Clone, Copy, Debug, PartialEq, Eq, Structural)]
pub enum LoadError {
    RequestsUnreadable,
    EnvironmentsUnreadable,
}

/// Builds a collection from the files read under `save_location`: `requests` and
/// `environments` hold each directory's (file name, contents), or `None` where the
/// directory could not be read. An unreadable directory fails the load; a file that does
/// not decode is skipped.
pub fn load_collection<DR, DV>(
    save_location: PathBuf,
    requests: Option<Vec<(String, Vec<u8>)>>,
    environments: Option<Vec<(String, Vec<u8>)>>,
    decode_request: DR,
    decode_values: DV,
) -> (r: Result<Collection, LoadError>) where
    DR: Fn(&Vec<u8>) -> Option<Request>,
    DV: Fn(&Vec<u8>) -> Option<EnvironmentValues>,

    requires
        forall|b: &Vec<u8>| decode_request.requires((b,)),
        forall|b: &Vec<u8>| decode_values.requires((b,)),
    ensures
        requests is None ==> r == Err::<Collection, LoadError>(LoadError::RequestsUnreadable),
        requests is Some && environments is None ==> r == Err::<Collection, LoadError>(
            LoadError::EnvironmentsUnreadable,
        ),
        requests is Some && environments is Some ==> (r matches Ok(c) && deserialized_by(
            save_location,
            SerializedCollection { requests: requests->0, environments: environments->0 },
            decode_request,
            decode_values,
            c,
        )),
{
    match requests {
        None => Err(LoadError::RequestsUnreadable),
        Some(requests) => match environments {
            None => Err(LoadError::EnvironmentsUnreadable),
            Some(environments) => Ok(
                Collection::deserialize(
                    save_location,
                    SerializedCollection { requests, environments },
                    decode_request,
                    decode_values,
                ),
            ),
        },
    }
}

/// The outcome of reading the global state.
#[derive(Clone, Debug)]
pub enum GlobalLoad {
    /// The state directory was absent: it is to be created, and the state starts empty.
    Created(GlobalState),
    /// The state was read from the secrets file.
    Loaded(GlobalState),
}

/// Why the global state could not be read.
#[derive(Clone, Copy, Debug, PartialEq, Eq, Structural)]
pub enum GlobalStateError {
    MissingSecrets,
    MalformedSecrets,
}

/// Decides the global state from what was found on disk: whether the state directory
/// exists, and the contents of its secrets file if that could be read.
pub fn load_global_state<D>(dir_exists: bool, secrets_file: Option<Vec<u8>>, decode: D) -> (r: Result<
    GlobalLoad,
    GlobalStateError,
>) where D: Fn(&Vec<u8>) -> Option<HashMap<String, Secret>>
    requires
        forall|b: &Vec<u8>| decode.requires((b,)),
    ensures
        !dir_exists ==> (r matches Ok(GlobalLoad::Created(g)) && g.secrets@ == Map::<
            String,
            Secret,
        >::empty()),
        dir_exists && secrets_file is None ==> r matches Err(GlobalStateError::MissingSecrets),
        dir_exists && secrets_file is Some ==> exists|d: Option<HashMap<String, Secret>>|
            #[trigger] decode.ensures((&secrets_file->0,), d) && match d {
                Some(s) => (r matches Ok(GlobalLoad::Loaded(g)) && g.secrets == s),
                None => r matches Err(GlobalStateError::MalformedSecrets),
            },
{
    if !dir_exists {
        return Ok(GlobalLoad::Created(GlobalState { secrets: HashMap::new() }));
    }
    match secrets_file {
        None => Err(GlobalStateError::MissingSecrets),
        Some(bytes) => {
            let decoded = decode(&bytes);
            match decoded {
                Some(secrets) => Ok(GlobalLoad::Loaded(GlobalState { secrets })),
                None => Err(GlobalStateError::MalformedSecrets),
            }
        },
    }
}

/// The number of requests in the open collection, if any.
pub open spec fn request_count(app: &App) -> int {
    match app.collection {
        Some(c) => c.requests@.len() as int,
        None => 0,
    }
}

/// The list cursor one step down, kept on the list; an unset cursor goes to the first row.
pub open spec fn cursor_down(sel: Option<usize>, n: int) -> Option<usize> {
    if n == 0 {
        sel
    } else {
        match sel {
            None => Some(0usize),
            Some(i) => Some(clamp_index(i + 1, n) as usize),
        }
    }
}

/// The list cursor one step up, stopping at the first row.
pub open spec fn cursor_up(sel: Option<usize>, n: int) -> Option<usize> {
    if n == 0 {
        sel
    } else {
        match sel {
            None => Some(0usize),
            Some(i) => Some(prev_index(i as int) as usize),
        }
    }
}

/// What follows a collection save: the global save when quitting, nothing otherwise.
pub open spec fn after_save(running: bool) -> Option<Message> {
    if running {
        None
    } else {
        Some(Message::SaveGlobal)
    }
}

/// The input buffer after a typed character: appended in insert mode, ignored otherwise.
pub open spec fn typed(mode: Mode, buf: Seq<char>, c: char) -> Seq<char> {
    match mode {
        Mode::Insert => buf.push(c),
        Mode::Normal => buf,
    }
}

/// The list cursor after a step down (or up), which moves it only in the request list.
pub open spec fn moved_cursor(app: &App, down: bool) -> Option<usize> {
    let sel = app.window_state.select_list_state.selected;
    if app.window_state.focused_pane != Pane::Select {
        sel
    } else if down {
        cursor_down(sel, request_count(app))
    } else {
        cursor_up(sel, request_count(app))
    }
}

/// The tab positions after a step left (or right): only the focused pane's tabs move.
pub open spec fn tabs_moved(before: App, after: App, right: bool) -> bool {
    let rq = before.window_state.req_state.selected_tab.position();
    let rs = before.window_state.res_tab.position();
    let pane = before.window_state.focused_pane;
    &&& after.window_state.req_state.selected_tab.position() == if pane != Pane::Request {
        rq
    } else if right {
        clamp_index(rq + 1, 4)
    } else {
        prev_index(rq)
    }
    &&& after.window_state.res_tab.position() == if pane != Pane::Response {
        rs
    } else if right {
        clamp_index(rs + 1, 2)
    } else {
        prev_index(rs)
    }
}

impl App {
    fn request_count(&self) -> (r: usize)
        ensures
            r == request_count(self),
    {
        match &self.collection {
            Some(c) => c.requests.len(),
            None => 0,
        }
    }

    /// Applies one message and returns the message to handle next, if any. Loading and
    /// saving are performed by the caller; this step records what follows them.
    pub fn update(&mut self, msg: Message) -> (r: Option<Message>)
        ensures
            msg is Crash ==> !final(self).running && r is None,
            msg is Quit ==> !final(self).running && r matches Some(Message::SaveCollection),
            msg is SaveCollection ==> final(self).running == old(self).running && r == after_save(
                old(self).running,
            ),
            msg is NewCollection ==> (r matches Some(Message::SaveCollection)) && (final(self).collection
                matches Some(c) && c.requests@.len() == 1 && c.environments@.len() == 1),
            msg matches Message::Input(c) ==> r is None && final(self).input_buf@ == typed(
                old(self).mode,
                old(self).input_buf@,
                c,
            ),
            msg matches Message::ModeRequest(m) ==> r is None && final(self).mode == m,
            msg matches Message::RequestPane(p) ==> r is None && final(self).window_state.focused_pane
                == p,
            msg is ToggleDebug ==> r is None && final(self).show_debug == !old(self).show_debug,
            msg is SelectDown ==> r is None && final(self).window_state.select_list_state.selected
                == moved_cursor(old(self), true),
            msg is SelectUp ==> r is None && final(self).window_state.select_list_state.selected
                == moved_cursor(old(self), false),
            msg is SelectLeft ==> r is None && tabs_moved(*old(self), *final(self), false),
            msg is SelectRight ==> r is None && tabs_moved(*old(self), *final(self), true),
            msg is Start || msg is LoadCollection || msg is SaveGlobal ==> r is None,
    {
        match msg {
            Message::Crash(_) => {
                self.running = false;
                None
            },
            Message::Quit => {
                self.running = false;
                Some(Message::SaveCollection)
            },
            Message::SaveCollection => {
                if self.running {
                    None
                } else {
                    Some(Message::SaveGlobal)
                }
            },
            Message::NewCollection => {
                self.collection = Some(default_collection());
                Some(Message::SaveCollection)
            },
            Message::Input(c) => {
                if self.mode == Mode::Insert {
                    self.input_buf.push(c);
                }
                None
            },
            Message::ModeRequest(m) => {
                self.mode = m;
                None
            },
            Message::RequestPane(p) => {
                self.window_state.focused_pane = p;
                None
            },
            Message::ToggleDebug => {
                self.show_debug = !self.show_debug;
                None
            },
            Message::SelectDown => {
                if self.window_state.focused_pane == Pane::Select {
                    let n = self.request_count();
                    if n > 0 {
                        let next = match self.window_state.select_list_state.selected() {
                            None => 0,
                            Some(i) => if i >= n - 1 {
                                n - 1
                            } else {
                                i + 1
                            },
                        };
                        self.window_state.select_list_state.select(Some(next));
                    }
                }
                None
            },
            Message::SelectUp => {
                if self.window_state.focused_pane == Pane::Select {
                    let n = self.request_count();
                    if n > 0 {
                        let next = match self.window_state.select_list_state.selected() {
                            None => 0,
                            Some(i) => if i == 0 {
                                0
                            } else {
                                i - 1
                            },
                        };
                        self.window_state.select_list_state.select(Some(next));
                    }
                }
                None
            },
            Message::SelectLeft => {
                if self.window_state.focused_pane == Pane::Request {
                    self.window_state.req_state.selected_tab =
                        self.window_state.req_state.selected_tab.prev_tab();
                } else if self.window_state.focused_pane == Pane::Response {
                    self.window_state.res_tab = self.window_state.res_tab.prev_tab();
                }
                None
            },
            Message::SelectRight => {
                if self.window_state.focused_pane == Pane::Request {
                    self.window_state.req_state.selected_tab =
                        self.window_state.req_state.selected_tab.next_tab();
                } else if self.window_state.focused_pane == Pane::Response {
                    self.window_state.res_tab = self.window_state.res_tab.next_tab();
                }
                None
            },
            _ => None,
        }
    }
}

} // verus!
