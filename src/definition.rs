//! Shortcut definitions: a chord text bound to an ordered list of actions.
use vstd::prelude::*;

verus! {

/// What an action does.
#[derive(Clone, Copy, Debug, PartialEq, Eq, Structural)]
pub enum ActionType {
    OpenFolder,
    OpenFile,
    OpenApplication,
    QuitApplication,
    HideApplication,
    FocusApplication,
    MinimizeWindow,
    MaximizeWindow,
    RunShellScript,
}

/// The parameters of an action; each kind reads only the fields it needs.
#[derive(Clone, Debug, PartialEq, Eq)]
pub struct ActionParameters {
    pub path: Option<String>,
    pub source_path: Option<String>,
    pub target_path: Option<String>,
    pub app_name: Option<String>,
    pub key: Option<String>,
    pub modifiers: Option<Vec<String>>,
    pub window_width: Option<i32>,
    pub window_height: Option<i32>,
    pub window_x: Option<i32>,
    pub window_y: Option<i32>,
    pub script: Option<String>,
}

#[derive(Clone, Debug, PartialEq, Eq)]
pub struct ShortcutAction {
    pub action_type: ActionType,
    pub parameters: ActionParameters,
}

/// The application or window that a shortcut is meant for. It is carried
/// along but not consulted.
#[derive(Clone, Debug, PartialEq, Eq)]
pub struct ActionScope {
    pub app_name: Option<String>,
    pub app_bundle_id: Option<String>,
    pub window_title: Option<String>,
}

/// A stored shortcut definition, identified by `id`.
#[derive(Clone, Debug, PartialEq, Eq)]
pub struct Shortcut {
    pub id: String,
    pub key_combination: String,
    pub command_name: String,
    pub description: Option<String>,
    pub enabled: bool,
    pub actions: Vec<ShortcutAction>,
    pub scope: Option<ActionScope>,
}

/// A request to create or replace a definition.
#[derive(Clone, Debug, PartialEq, Eq)]
pub struct ShortcutRequestPayload {
    pub shortcut: String,
    pub name: String,
    pub description: Option<String>,
    pub actions: Vec<ShortcutAction>,
}

impl ActionParameters {
    /// Parameters with every field absent.
    pub fn empty() -> (r: ActionParameters)
        ensures
            r.path is None,
            r.source_path is None,
            r.target_path is None,
            r.app_name is None,
            r.key is None,
            r.modifiers is None,
            r.window_width is None,
            r.window_height is None,
            r.window_x is None,
            r.window_y is None,
            r.script is None,
    {
        ActionParameters {
            path: None,
            source_path: None,
            target_path: None,
            app_name: None,
            key: None,
            modifiers: None,
            window_width: None,
            window_height: None,
            window_x: None,
            window_y: None,
            script: None,
        }
    }
}

} // verus!
