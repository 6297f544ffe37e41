//! The status bar shown at the bottom of the terminal client.

use vstd::prelude::*;
use vstd::string::StringExecFns;
use crate::app::App;

verus! {

/// A status bar component.
#[derive(Debug, Clone)]
pub struct StatusBar {
    pub text: String,
    pub connected: bool,
}

impl StatusBar {
    /// Create a new status bar.
    pub fn new(text: String, connected: bool) -> (bar: StatusBar)
        ensures
            bar.text == text,
            bar.connected == connected,
    {
        StatusBar { text, connected }
    }

    /// Create a status bar from the application state.
    pub fn from_state(app: &App) -> (bar: StatusBar)
        ensures
            bar.connected == app.connected,
            app.connected ==> bar.text@ == "Connected to "@ + app.chain_name@,
            !app.connected ==> bar.text@ == "Disconnected"@,
    {
        if app.connected {
            let status = "Connected to ".to_owned().concat(app.chain_name.as_str());
            StatusBar::new(status, true)
        } else {
            StatusBar::new("Disconnected".to_owned(), false)
        }
    }

    /// Set the status text.
    pub fn with_text(self, text: String) -> (bar: StatusBar)
        ensures
            bar.text == text,
            bar.connected == self.connected,
    {
        StatusBar { text, ..self }
    }

    /// Set the connection status.
    pub fn with_connected(self, connected: bool) -> (bar: StatusBar)
        ensures
            bar.text == self.text,
            bar.connected == connected,
    {
        StatusBar { connected, ..self }
    }
}

} // verus!
