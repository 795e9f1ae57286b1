//! What the panes display, taken from the application state.
use crate::state::{App, Pane};
use vstd::prelude::*;

verus! {

/// The url of the request under the list cursor, if a collection is open and the cursor
/// is on one of its requests.
pub open spec fn selected_url(app: &App) -> Option<String> {
    match app.collection {
        Some(c) => match app.window_state.select_list_state.selected {
            Some(i) => if i < c.requests@.len() {
                Some(c.requests@[i as int].url)
            } else {
                None
            },
            None => None,
        },
        None => None,
    }
}

/// The url bar: the url it shows and whether it has focus.
#[derive(Clone, Debug, Default)]
pub struct UrlBar {
    pub is_focused: bool,
    pub url_text: Option<String>,
}

impl UrlBar {
    pub fn _new(is_focused: bool, url_text: Option<String>) -> (r: UrlBar)
        ensures
            r.is_focused == is_focused,
            r.url_text == url_text,
    {
        UrlBar { is_focused, url_text }
    }

    /// The bar for the current state: the selected request's url, focused when the url
    /// pane is.
    pub fn construct(app: &App) -> (r: UrlBar)
        ensures
            r.is_focused == (app.window_state.focused_pane == Pane::Url),
            r.url_text == selected_url(app),
    {
        let url_text = match &app.collection {
            Some(coll) => match app.window_state.select_list_state.selected {
                Some(i) => if i < coll.requests.len() {
                    Some(coll.requests[i].url.clone())
                } else {
                    None
                },
                None => None,
            },
            None => None,
        };
        UrlBar { url_text, is_focused: app.window_state.focused_pane == Pane::Url }
    }

    pub fn _focused(self) -> (r: UrlBar)
        ensures
            r.is_focused,
            r.url_text == self.url_text,
    {
        UrlBar { is_focused: true, ..self }
    }

    pub fn _url(self, url: String) -> (r: UrlBar)
        ensures
            r.is_focused == self.is_focused,
            r.url_text == Some(url),
    {
        UrlBar { url_text: Some(url), ..self }
    }
}

} // verus!
