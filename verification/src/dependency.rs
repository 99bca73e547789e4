//! The decisions of a window that shows what a resource depends on. The
//! host builds the widgets and performs the actions.

use vstd::prelude::*;
use crate::pool::Handle;

verus! {

/// What a message of the user interface carries.
#[derive(Clone, Copy, Debug, PartialEq, Eq, Structural)]
pub enum MessageData {
    /// A button was clicked.
    ButtonClick,
    /// A window was closed.
    WindowClose,
    /// Anything else.
    Other,
}

/// A message of the user interface: what it carries and the widget it is
/// for.
#[derive(Clone, Copy, Debug, PartialEq, Eq, Structural)]
pub struct UiMessage {
    pub destination: Handle,
    pub data: MessageData,
}

/// What the host is to do for the viewer.
#[derive(Clone, Debug, PartialEq, Eq)]
pub enum ViewerAction {
    /// Nothing.
    Nothing,
    /// Show the given tree under the tree root and open the window.
    OpenWindow { window: Handle, tree_root: Handle },
    /// Close the window.
    CloseWindow(Handle),
    /// Put the text on the clipboard, if there is a clipboard.
    CopyToClipboard(String),
}

/// The viewer: the widgets it consists of and, while it is open, the
/// printed form of the dependency graph on show.
#[derive(Clone, Debug, PartialEq, Eq)]
pub struct DependencyViewer {
    pub window: Handle,
    pub tree_root: Handle,
    pub close: Handle,
    pub copy_to_clipboard: Handle,
    pub resource_graph: Option<String>,
}

impl DependencyViewer {
    /// A closed viewer made of the given widgets.
    pub fn new(window: Handle, tree_root: Handle, close: Handle, copy_to_clipboard: Handle) -> (r:
        Self)
        ensures
            r.window == window,
            r.tree_root == tree_root,
            r.close == close,
            r.copy_to_clipboard == copy_to_clipboard,
            r.resource_graph is None,
    {
        DependencyViewer { window, tree_root, close, copy_to_clipboard, resource_graph: None }
    }

    /// Takes the printed form of a graph to show and asks for the window to
    /// be opened.
    pub fn open(&mut self, resource_graph: String) -> (r: ViewerAction)
        ensures
            *final(self) == (DependencyViewer {
                resource_graph: Some(resource_graph),
                ..*old(self)
            }),
            r == (ViewerAction::OpenWindow {
                window: old(self).window,
                tree_root: old(self).tree_root,
            }),
    {
        self.resource_graph = Some(resource_graph);
        ViewerAction::OpenWindow { window: self.window, tree_root: self.tree_root }
    }

    /// What the viewer does with a message: a click on its close button
    /// asks for the window to be closed; a click on its copy button asks
    /// for the graph on show, if any, to be copied; a window that closes
    /// ends the show.
    pub fn handle_ui_message(&mut self, message: &UiMessage) -> (r: ViewerAction)
        ensures
            final(self).window == old(self).window,
            final(self).tree_root == old(self).tree_root,
            final(self).close == old(self).close,
            final(self).copy_to_clipboard == old(self).copy_to_clipboard,
            final(self).resource_graph == if message.data == MessageData::WindowClose {
                None
            } else {
                old(self).resource_graph
            },
            r == if message.data != MessageData::ButtonClick {
                ViewerAction::Nothing
            } else if message.destination == old(self).close {
                ViewerAction::CloseWindow(old(self).window)
            } else if message.destination == old(self).copy_to_clipboard && old(self).resource_graph is Some {
                ViewerAction::CopyToClipboard(old(self).resource_graph->0)
            } else {
                ViewerAction::Nothing
            },
    {
        match message.data {
            MessageData::ButtonClick => {
                if message.destination == self.close {
                    ViewerAction::CloseWindow(self.window)
                } else if message.destination == self.copy_to_clipboard {
                    match &self.resource_graph {
                        Some(text) => ViewerAction::CopyToClipboard(text.clone()),
                        None => ViewerAction::Nothing,
                    }
                } else {
                    ViewerAction::Nothing
                }
            },
            MessageData::WindowClose => {
                self.resource_graph = None;
                ViewerAction::Nothing
            },
            MessageData::Other => ViewerAction::Nothing,
        }
    }
}

} // verus!
