//! Plain state of the terminal client's UI components.
//!
//! Only the data each component carries lives here; rendering to a
//! terminal frame is left to the binary around the library.

use vstd::prelude::*;

pub mod block_view;
pub mod status_bar;

verus! {

/// A simple component for exercising the UI layout.
#[derive(Debug, Clone)]
pub struct TestComponent {
    /// The title of the component
    pub title: String,
    /// Optional content to display
    pub content: Option<String>,
}

impl TestComponent {
    /// Create a new test component with the given title.
    pub fn new(title: String) -> (c: TestComponent)
        ensures
            c.title == title,
            c.content is None,
    {
        TestComponent { title, content: None }
    }

    /// Set the content of the component.
    pub fn with_content(self, content: String) -> (c: TestComponent)
        ensures
            c.title == self.title,
            c.content == Some(content),
    {
        TestComponent { content: Some(content), ..self }
    }
}

impl Default for TestComponent {
    fn default() -> (c: TestComponent)
        ensures
            c.title@ == "Test Component"@,
            c.content is Some,
            c.content->0@ == "This is a test component"@,
    {
        TestComponent {
            title: "Test Component".to_owned(),
            content: Some("This is a test component".to_owned()),
        }
    }
}

} // verus!
