//! Window state, global state and the application root.
use crate::collection::{Collection, Secret};
use crate::logging::RecordBuff;
use std::collections::HashMap;
use std::path::PathBuf;
use std::sync::{Arc, Mutex};
use vstd::prelude::*;

verus! {

/// std's `Mutex`, carried through as an opaque value (the shared log handle).
#[verifier::external_type_specification]
#[verifier::external_body]
#[verifier::reject_recursive_types(T)]
pub struct ExMutex<T: ?Sized>(Mutex<T>);

/// The dialog drawn over the panes, if any.
#[derive(Clone, Copy, Debug, PartialEq, Eq, Structural)]
pub enum Modal {
    LoadCollection,
    Environment,
    Closed,
}

/// The pane that receives directional input.
#[derive(Clone, Copy, Debug, PartialEq, Eq, Structural)]
pub enum Pane {
    Select,
    Request,
    Response,
    Url,
}

/// The tabs of the request pane, in display order.
#[derive(Clone, Copy, Debug, PartialEq, Eq, Structural)]
pub enum RequestTab {
    Body,
    Headers,
    PathParams,
    QueryParams,
}

/// The tabs of the response pane, in display order.
#[derive(Clone, Copy, Debug, PartialEq, Eq, Structural)]
pub enum ResponseTab {
    Body,
    Headers,
}

/// `i` clamped to the last position of an ordered list of `n` variants.
pub open spec fn clamp_index(i: int, n: int) -> int {
    if i < n {
        i
    } else {
        n - 1
    }
}

/// One step back, staying at the first position.
pub open spec fn prev_index(i: int) -> int {
    if i == 0 {
        0
    } else {
        i - 1
    }
}

impl RequestTab {
    pub open spec fn position(self) -> int {
        match self {
            RequestTab::Body => 0,
            RequestTab::Headers => 1,
            RequestTab::PathParams => 2,
            RequestTab::QueryParams => 3,
        }
    }

    /// The tab at position `i`; past the end, the last tab.
    pub open spec fn at(i: int) -> RequestTab {
        if i <= 0 {
            RequestTab::Body
        } else if i == 1 {
            RequestTab::Headers
        } else if i == 2 {
            RequestTab::PathParams
        } else {
            RequestTab::QueryParams
        }
    }

    pub fn index(self) -> (r: usize)
        ensures
            r == self.position(),
    {
        match self {
            RequestTab::Body => 0,
            RequestTab::Headers => 1,
            RequestTab::PathParams => 2,
            RequestTab::QueryParams => 3,
        }
    }

    /// The tab at position `i`; an index past the end gives the last tab.
    pub fn from_index(i: usize) -> (r: RequestTab)
        ensures
            r == RequestTab::at(i as int),
            r.position() == clamp_index(i as int, 4),
    {
        match i {
            0 => RequestTab::Body,
            1 => RequestTab::Headers,
            2 => RequestTab::PathParams,
            _ => RequestTab::QueryParams,
        }
    }

    /// Every tab, in order.
    pub fn to_vec() -> (r: Vec<RequestTab>)
        ensures
            r@ == seq![
                RequestTab::Body,
                RequestTab::Headers,
                RequestTab::PathParams,
                RequestTab::QueryParams,
            ],
    {
        vec![RequestTab::Body, RequestTab::Headers, RequestTab::PathParams, RequestTab::QueryParams]
    }

    /// The variant's name, as shown on the tab bar.
    pub fn name(self) -> (r: &'static str)
        ensures
            r@ == match self {
                RequestTab::Body => "Body"@,
                RequestTab::Headers => "Headers"@,
                RequestTab::PathParams => "PathParams"@,
                RequestTab::QueryParams => "QueryParams"@,
            },
    {
        match self {
            RequestTab::Body => "Body",
            RequestTab::Headers => "Headers",
            RequestTab::PathParams => "PathParams",
            RequestTab::QueryParams => "QueryParams",
        }
    }

    /// The tab to the left; the first tab stays where it is.
    pub fn prev_tab(self) -> (r: RequestTab)
        ensures
            r.position() == prev_index(self.position()),
    {
        let idx = self.index();
        if idx == 0 {
            RequestTab::from_index(idx)
        } else {
            RequestTab::from_index(idx - 1)
        }
    }

    /// The tab to the right; the last tab stays where it is.
    pub fn next_tab(self) -> (r: RequestTab)
        ensures
            r.position() == clamp_index(self.position() + 1, 4),
    {
        RequestTab::from_index(self.index() + 1)
    }
}

impl ResponseTab {
    pub open spec fn position(self) -> int {
        match self {
            ResponseTab::Body => 0,
            ResponseTab::Headers => 1,
        }
    }

    /// The tab at position `i`; past the end, the last tab.
    pub open spec fn at(i: int) -> ResponseTab {
        if i <= 0 {
            ResponseTab::Body
        } else {
            ResponseTab::Headers
        }
    }

    pub fn index(self) -> (r: usize)
        ensures
            r == self.position(),
    {
        match self {
            ResponseTab::Body => 0,
            ResponseTab::Headers => 1,
        }
    }

    /// The tab at position `i`; an index past the end gives the last tab.
    pub fn from_index(i: usize) -> (r: ResponseTab)
        ensures
            r == ResponseTab::at(i as int),
            r.position() == clamp_index(i as int, 2),
    {
        match i {
            0 => ResponseTab::Body,
            _ => ResponseTab::Headers,
        }
    }

    /// Every tab, in order.
    pub fn to_vec() -> (r: Vec<ResponseTab>)
        ensures
            r@ == seq![ResponseTab::Body, ResponseTab::Headers],
    {
        vec![ResponseTab::Body, ResponseTab::Headers]
    }

    /// The variant's name, as shown on the tab bar.
    pub fn name(self) -> (r: &'static str)
        ensures
            r@ == match self {
                ResponseTab::Body => "Body"@,
                ResponseTab::Headers => "Headers"@,
            },
    {
        match self {
            ResponseTab::Body => "Body",
            ResponseTab::Headers => "Headers",
        }
    }

    /// The tab to the left; the first tab stays where it is.
    pub fn prev_tab(self) -> (r: ResponseTab)
        ensures
            r.position() == prev_index(self.position()),
    {
        let idx = self.index();
        if idx == 0 {
            ResponseTab::from_index(idx)
        } else {
            ResponseTab::from_index(idx - 1)
        }
    }

    /// The tab to the right; the last tab stays where it is.
    pub fn next_tab(self) -> (r: ResponseTab)
        ensures
            r.position() == clamp_index(self.position() + 1, 2),
    {
        ResponseTab::from_index(self.index() + 1)
    }
}

/// Tab cycling stops at both ends: going left from the first tab and right from the
/// last tab, any number of times, leaves the tab where it is.
pub proof fn lemma_tab_bounds()
    ensures
        forall|t: RequestTab| t.position() == 0 ==> t == RequestTab::Body,
        forall|t: RequestTab| t.position() == 3 ==> t == RequestTab::QueryParams,
        prev_index(RequestTab::Body.position()) == RequestTab::Body.position(),
        clamp_index(RequestTab::QueryParams.position() + 1, 4)
            == RequestTab::QueryParams.position(),
        forall|t: ResponseTab| t.position() == 0 ==> t == ResponseTab::Body,
        forall|t: ResponseTab| t.position() == 1 ==> t == ResponseTab::Headers,
        prev_index(ResponseTab::Body.position()) == ResponseTab::Body.position(),
        clamp_index(ResponseTab::Headers.position() + 1, 2) == ResponseTab::Headers.position(),
{
}

/// Selection state of the request pane.
#[derive(Clone, Copy, Debug, PartialEq, Eq, Structural)]
pub struct RequestDetailsState {
    pub selected_tab: RequestTab,
}

/// The cursor over the request list.
#[derive(Clone, Copy, Debug, PartialEq, Eq, Structural)]
pub struct SelectState {
    pub selected: Option<usize>,
}

impl SelectState {
    pub fn selected(&self) -> (r: Option<usize>)
        ensures
            r == self.selected,
    {
        self.selected
    }

    pub fn select(&mut self, index: Option<usize>)
        ensures
            final(self).selected == index,
    {
        self.selected = index;
    }
}

/// What the panes show and which of them has focus.
#[derive(Clone, Copy, Debug, PartialEq, Eq, Structural)]
pub struct WindowState {
    pub modal: Modal,
    pub focused_pane: Pane,
    pub req_state: RequestDetailsState,
    pub res_tab: ResponseTab,
    pub select_list_state: SelectState,
}

impl Default for WindowState {
    /// No dialog, the request list focused, first tabs, nothing selected.
    fn default() -> (r: WindowState)
        ensures
            r == (WindowState {
                modal: Modal::Closed,
                focused_pane: Pane::Select,
                req_state: RequestDetailsState { selected_tab: RequestTab::Body },
                res_tab: ResponseTab::Body,
                select_list_state: SelectState { selected: None },
            }),
    {
        WindowState {
            modal: Modal::Closed,
            focused_pane: Pane::Select,
            req_state: RequestDetailsState { selected_tab: RequestTab::Body },
            res_tab: ResponseTab::Body,
            select_list_state: SelectState { selected: None },
        }
    }
}

/// How keys are read: as commands, or as text for the input buffer.
#[derive(Clone, Copy, Debug, PartialEq, Eq, Structural)]
pub enum Mode {
    Normal,
    Insert,
}

/// Process-wide secrets, independent of any collection.
#[derive(Clone, Debug)]
pub struct GlobalState {
    pub secrets: HashMap<String, Secret>,
}

/// Marker: a builder field not given yet.
pub struct AbsentValue;

/// Marker: the builder holds the shared log handle.
pub struct Logs(pub Arc<Mutex<RecordBuff>>);

/// Marker: the builder holds the global state.
pub struct State(pub GlobalState);

/// Marker: the builder holds the work directory.
pub struct WorkDir(pub PathBuf);

/// A staged builder: `build` exists only once logs, global state and work directory are set.
pub struct AppBuilder<L, G, W> {
    pub logs: L,
    pub global_state: G,
    pub work_dir: W,
}

impl<L, G, W> AppBuilder<L, G, W> {
    pub fn logs(self, logs: Arc<Mutex<RecordBuff>>) -> (r: AppBuilder<Logs, G, W>)
        ensures
            r.logs == Logs(logs),
            r.global_state == self.global_state,
            r.work_dir == self.work_dir,
    {
        AppBuilder::<Logs, G, W> {
            logs: Logs(logs),
            global_state: self.global_state,
            work_dir: self.work_dir,
        }
    }

    pub fn global_state(self, state: GlobalState) -> (r: AppBuilder<L, State, W>)
        ensures
            r.logs == self.logs,
            r.global_state == State(state),
            r.work_dir == self.work_dir,
    {
        AppBuilder::<L, State, W> {
            logs: self.logs,
            global_state: State(state),
            work_dir: self.work_dir,
        }
    }

    pub fn work_dir(self, work_dir: PathBuf) -> (r: AppBuilder<L, G, WorkDir>)
        ensures
            r.logs == self.logs,
            r.global_state == self.global_state,
            r.work_dir == WorkDir(work_dir),
    {
        AppBuilder::<L, G, WorkDir> {
            logs: self.logs,
            global_state: self.global_state,
            work_dir: WorkDir(work_dir),
        }
    }
}

impl AppBuilder<Logs, State, WorkDir> {
    /// A running application in normal mode with no collection open yet.
    pub fn build(self) -> (r: App)
        ensures
            r.window_state == (WindowState {
                modal: Modal::Closed,
                focused_pane: Pane::Select,
                req_state: RequestDetailsState { selected_tab: RequestTab::Body },
                res_tab: ResponseTab::Body,
                select_list_state: SelectState { selected: None },
            }),
            r.mode == Mode::Normal,
            r.collection is None,
            r.running,
            r.work_dir == self.work_dir.0,
            r.global == self.global_state.0,
            r.input_buf@ == Seq::<char>::empty(),
            r.debug_logs == self.logs.0,
            !r.show_debug,
    {
        App {
            window_state: WindowState::default(),
            mode: Mode::Normal,
            collection: None,
            running: true,
            work_dir: self.work_dir.0,
            global: self.global_state.0,
            input_buf: String::new(),
            debug_logs: self.logs.0,
            show_debug: false,
        }
    }
}

/// The root of all state that the update step changes.
pub struct App {
    pub window_state: WindowState,
    pub mode: Mode,
    pub collection: Option<Collection>,
    pub running: bool,
    pub work_dir: PathBuf,
    pub global: GlobalState,
    pub input_buf: String,
    pub debug_logs: Arc<Mutex<RecordBuff>>,
    pub show_debug: bool,
}

impl App {
    pub fn builder() -> (r: AppBuilder<AbsentValue, AbsentValue, AbsentValue>) {
        AppBuilder::<AbsentValue, AbsentValue, AbsentValue> {
            logs: AbsentValue,
            global_state: AbsentValue,
            work_dir: AbsentValue,
        }
    }
}

} // verus!
