//! Hook categories and the description a plugin gives of itself.

use vstd::prelude::*;
use crate::text::{equals_ignoring_ascii_case, lower_ascii};

verus! {

/// What a plugin says about itself.
#[derive(Clone, Debug)]
pub struct PluginMetadata {
    pub name: String,
    pub version: String,
    pub author: String,
    pub description: String,
    /// The hooks the plugin declares.
    pub hooks: Vec<String>,
}

/// The extension points the runtime knows by name, and any other name.
#[derive(Clone, Debug, PartialEq)]
pub enum HookType {
    /// Runs before a command is processed.
    PreCommand,
    /// Runs after a command was processed.
    PostCommand,
    /// Runs before an entity is validated.
    PreValidation,
    /// Runs after an entity was validated.
    PostValidation,
    /// Runs during simulations.
    Simulation,
    /// Any other hook, by its name as given.
    Custom(String),
}

impl HookType {
    /// The hook that a name stands for.  The five known names are matched
    /// without regard to ASCII case; any other name is a custom hook and
    /// keeps its spelling.
    pub open spec fn spec_from_str(s: Seq<char>) -> HookTypeView {
        let l = lower_ascii(s);
        if l == "precommand"@ {
            HookTypeView::PreCommand
        } else if l == "postcommand"@ {
            HookTypeView::PostCommand
        } else if l == "prevalidation"@ {
            HookTypeView::PreValidation
        } else if l == "postvalidation"@ {
            HookTypeView::PostValidation
        } else if l == "simulation"@ {
            HookTypeView::Simulation
        } else {
            HookTypeView::Custom(s)
        }
    }

    pub fn from_str(s: &str) -> (h: HookType)
        ensures
            h@ == Self::spec_from_str(s@),
    {
        if equals_ignoring_ascii_case(s, "precommand") {
            HookType::PreCommand
        } else if equals_ignoring_ascii_case(s, "postcommand") {
            HookType::PostCommand
        } else if equals_ignoring_ascii_case(s, "prevalidation") {
            HookType::PreValidation
        } else if equals_ignoring_ascii_case(s, "postvalidation") {
            HookType::PostValidation
        } else if equals_ignoring_ascii_case(s, "simulation") {
            HookType::Simulation
        } else {
            HookType::Custom(s.to_owned())
        }
    }

    /// The name under which plugins declare the hook.
    pub fn as_str(&self) -> (s: String)
        ensures
            s@ == self@.name(),
    {
        match self {
            HookType::PreCommand => "precommand".to_owned(),
            HookType::PostCommand => "postcommand".to_owned(),
            HookType::PreValidation => "prevalidation".to_owned(),
            HookType::PostValidation => "postvalidation".to_owned(),
            HookType::Simulation => "simulation".to_owned(),
            HookType::Custom(s) => s.clone(),
        }
    }
}

/// A hook category with its custom name as plain text.
pub enum HookTypeView {
    PreCommand,
    PostCommand,
    PreValidation,
    PostValidation,
    Simulation,
    Custom(Seq<char>),
}

impl HookTypeView {
    pub open spec fn name(self) -> Seq<char> {
        match self {
            HookTypeView::PreCommand => "precommand"@,
            HookTypeView::PostCommand => "postcommand"@,
            HookTypeView::PreValidation => "prevalidation"@,
            HookTypeView::PostValidation => "postvalidation"@,
            HookTypeView::Simulation => "simulation"@,
            HookTypeView::Custom(s) => s,
        }
    }
}

impl View for HookType {
    type V = HookTypeView;

    open spec fn view(&self) -> HookTypeView {
        match self {
            HookType::PreCommand => HookTypeView::PreCommand,
            HookType::PostCommand => HookTypeView::PostCommand,
            HookType::PreValidation => HookTypeView::PreValidation,
            HookType::PostValidation => HookTypeView::PostValidation,
            HookType::Simulation => HookTypeView::Simulation,
            HookType::Custom(s) => HookTypeView::Custom(s@),
        }
    }
}

} // verus!
