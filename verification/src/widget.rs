//! What one render of a block puts on the bar.

use crate::error::{Error, ErrorView};
use vstd::prelude::*;

verus! {

/// The severity with which a widget is shown.
#[derive(Clone, Copy, Debug, PartialEq, Eq, Structural)]
pub enum State {
    Idle,
    Info,
    Good,
    Warning,
    Critical,
    Error,
}

/// One piece of bar text: the block it belongs to, its text, the name of an
/// icon if it has one, and its severity.
#[derive(Debug, PartialEq, Eq)]
pub struct Widget {
    pub id: usize,
    pub text: String,
    pub icon: Option<String>,
    pub state: State,
}

/// The mathematical value of a [`Widget`].
pub struct WidgetView {
    pub id: usize,
    pub text: Seq<char>,
    pub icon: Option<Seq<char>>,
    pub state: State,
}

impl View for Widget {
    type V = WidgetView;

    open spec fn view(&self) -> WidgetView {
        WidgetView {
            id: self.id,
            text: self.text@,
            icon: match self.icon {
                Some(name) => Some(name@),
                None => None,
            },
            state: self.state,
        }
    }
}

impl DeepView for Widget {
    type V = WidgetView;

    open spec fn deep_view(&self) -> WidgetView {
        self@
    }
}

impl Clone for Widget {
    fn clone(&self) -> (w: Widget)
        ensures
            w == *self,
    {
        let icon = match &self.icon {
            Some(name) => Some(name.clone()),
            None => None,
        };
        Widget { id: self.id, text: self.text.clone(), icon, state: self.state }
    }
}

/// The widget that stands for a failed render of block `id`: the error's
/// message, shown as an error.
pub open spec fn error_widget_view(id: usize, error: ErrorView) -> WidgetView {
    WidgetView { id, text: error.message, icon: None, state: State::Error }
}

impl Widget {
    /// A widget of block `id` with the given text, no icon, and severity
    /// [`State::Idle`].
    pub fn new(id: usize, text: String) -> (w: Widget)
        ensures
            w@ == (WidgetView { id, text: text@, icon: None, state: State::Idle }),
    {
        Widget { id, text, icon: None, state: State::Idle }
    }

    /// The widget shown in place of the output of a render that failed.
    pub fn from_error(id: usize, error: Error) -> (w: Widget)
        ensures
            w@ == error_widget_view(id, error@),
    {
        Widget { id, text: error.message, icon: None, state: State::Error }
    }
}

/// What a finished render yields as the block's output: its widgets, or the
/// error widget where it failed.
pub open spec fn output_view(id: usize, result: Result<Vec<Widget>, Error>) -> Seq<WidgetView> {
    match result {
        Ok(widgets) => widgets.deep_view(),
        Err(error) => seq![error_widget_view(id, error@)],
    }
}

/// The output that a finished render leaves for block `id`. A failure is
/// shown as one error widget; it is never passed on.
pub fn output_of(id: usize, result: Result<Vec<Widget>, Error>) -> (output: Vec<Widget>)
    ensures
        output.deep_view() == output_view(id, result),
{
    match result {
        Ok(widgets) => widgets,
        Err(error) => {
            let mut output: Vec<Widget> = Vec::new();
            output.push(Widget::from_error(id, error));
            assert(output.deep_view() =~= seq![error_widget_view(id, error@)]);
            output
        },
    }
}

} // verus!
