//! What a change in the plugin directory asks of the host.

use vstd::prelude::*;
use crate::plugin::paths::{is_wasm_file, plugin_id_of, spec_is_wasm_file, spec_plugin_id};
use crate::text::texts;

verus! {

/// The kinds of change a directory watcher reports.
#[derive(Clone, Copy, Debug, PartialEq, Eq)]
pub enum WatchKind {
    /// A file came into being.
    Create,
    /// A file's contents or metadata changed.
    Modify,
    /// A file went away.
    Remove,
    /// Anything else, such as a file being read.
    Other,
}

/// What the host is to do about one changed path.
#[derive(Debug)]
pub enum WatchAction {
    /// Load the plugin file at this path, replacing the active record of
    /// the same id.
    Reload(String),
    /// Drop the active record with this id.
    Unload(String),
}

/// A `WatchAction` with its text as plain data.
pub enum WatchActionView {
    Reload(Seq<char>),
    Unload(Seq<char>),
}

impl View for WatchAction {
    type V = WatchActionView;

    open spec fn view(&self) -> WatchActionView {
        match self {
            WatchAction::Reload(path) => WatchActionView::Reload(path@),
            WatchAction::Unload(id) => WatchActionView::Unload(id@),
        }
    }
}

/// The action that a change of `kind` at `path` asks for.  Only
/// WebAssembly module files matter: one that was created or modified is
/// loaded again, one that was removed is unloaded by its id.
pub open spec fn spec_action(kind: WatchKind, path: Seq<char>) -> Option<WatchActionView> {
    if !spec_is_wasm_file(path) {
        None
    } else {
        match kind {
            WatchKind::Create | WatchKind::Modify => Some(WatchActionView::Reload(path)),
            WatchKind::Remove => match spec_plugin_id(path) {
                Some(id) => Some(WatchActionView::Unload(id)),
                None => None,
            },
            WatchKind::Other => None,
        }
    }
}

/// The actions that one watcher event asks for: those of its paths, in
/// the order of the paths.
pub open spec fn spec_actions(kind: WatchKind, paths: Seq<Seq<char>>) -> Seq<WatchActionView>
    decreases paths.len(),
{
    if paths.len() == 0 {
        Seq::empty()
    } else {
        let rest = spec_actions(kind, paths.drop_last());
        match spec_action(kind, paths.last()) {
            Some(action) => rest.push(action),
            None => rest,
        }
    }
}

/// The views of a sequence of actions.
pub open spec fn action_views(actions: Seq<WatchAction>) -> Seq<WatchActionView> {
    actions.map_values(|a: WatchAction| a@)
}

/// The action for one changed path, if it asks for any.
pub fn action_for(kind: WatchKind, path: &str) -> (r: Option<WatchAction>)
    ensures
        match r {
            Some(action) => spec_action(kind, path@) == Some(action@),
            None => spec_action(kind, path@) is None,
        },
{
    if !is_wasm_file(path) {
        return None;
    }
    match kind {
        WatchKind::Create | WatchKind::Modify => Some(WatchAction::Reload(path.to_owned())),
        WatchKind::Remove => match plugin_id_of(path) {
            Some(id) => Some(WatchAction::Unload(id)),
            None => None,
        },
        WatchKind::Other => None,
    }
}

/// Turns one watcher event, a kind of change and the paths it touched,
/// into the actions the host is to take.
pub fn process_watcher_event(kind: WatchKind, paths: &Vec<String>) -> (actions: Vec<WatchAction>)
    ensures
        action_views(actions@) == spec_actions(kind, texts(paths@)),
{
    let mut actions: Vec<WatchAction> = Vec::new();
    let mut i: usize = 0;
    assert(texts(paths@).subrange(0, 0) =~= Seq::<Seq<char>>::empty());
    while i < paths.len()
        invariant
            i <= paths.len(),
            action_views(actions@) == spec_actions(kind, texts(paths@).subrange(0, i as int)),
        decreases paths.len() - i,
    {
        let ghost done = texts(paths@).subrange(0, i as int);
        let ghost next = texts(paths@).subrange(0, i as int + 1);
        assert(next.drop_last() =~= done);
        assert(next.last() == paths@[i as int]@);
        let ghost before = actions@;
        match action_for(kind, paths[i].as_str()) {
            Some(action) => {
                actions.push(action);
                assert(action_views(actions@) =~= action_views(before).push(action@));
            },
            None => {},
        }
        i = i + 1;
    }
    assert(texts(paths@).subrange(0, paths@.len() as int) =~= texts(paths@));
    actions
}

} // verus!
