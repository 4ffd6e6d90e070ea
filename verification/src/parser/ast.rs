//! The abstract syntax of the command language, and its canonical
//! surface form.

use vstd::prelude::*;
use crate::decimal::{decimal_digits, render_decimal};
use crate::text::texts;

verus! {

/// One complete command.
#[derive(Debug, PartialEq, Clone)]
pub enum Command {
    /// A command that carries out an action.
    Imperative(Imperative),
}

/// An imperative command.
#[derive(Debug, PartialEq, Clone)]
pub struct Imperative {
    pub kind: ImperativeKind,
}

/// The five imperative forms.
#[derive(Debug, PartialEq, Clone)]
pub enum ImperativeKind {
    /// `DEFINE CONTRACT id clause, clause, ...`
    DefineContract { id: String, clauses: Vec<String> },
    /// `DEFINE IDEA id "text"`
    DefineIdea { id: String, text: String },
    /// `SIMULATE ENTITY id rounds`
    SimulateEntity { id: String, rounds: usize },
    /// `ORCHESTRATE mode`
    Orchestrate { mode: String },
    /// `INVOKE RULESET ruleset_id ON entity_id`
    InvokeRuleset { entity_id: String, ruleset_id: String },
}

/// A command as plain data.
pub enum KindView {
    DefineContract { id: Seq<char>, clauses: Seq<Seq<char>> },
    DefineIdea { id: Seq<char>, text: Seq<char> },
    SimulateEntity { id: Seq<char>, rounds: nat },
    Orchestrate { mode: Seq<char> },
    InvokeRuleset { entity_id: Seq<char>, ruleset_id: Seq<char> },
}

impl View for ImperativeKind {
    type V = KindView;

    open spec fn view(&self) -> KindView {
        match self {
            ImperativeKind::DefineContract { id, clauses } => KindView::DefineContract {
                id: id@,
                clauses: texts(clauses@),
            },
            ImperativeKind::DefineIdea { id, text } => KindView::DefineIdea { id: id@, text: text@ },
            ImperativeKind::SimulateEntity { id, rounds } => KindView::SimulateEntity {
                id: id@,
                rounds: *rounds as nat,
            },
            ImperativeKind::Orchestrate { mode } => KindView::Orchestrate { mode: mode@ },
            ImperativeKind::InvokeRuleset { entity_id, ruleset_id } => KindView::InvokeRuleset {
                entity_id: entity_id@,
                ruleset_id: ruleset_id@,
            },
        }
    }
}

impl View for Imperative {
    type V = KindView;

    open spec fn view(&self) -> KindView {
        self.kind@
    }
}

impl View for Command {
    type V = KindView;

    open spec fn view(&self) -> KindView {
        match self {
            Command::Imperative(imperative) => imperative@,
        }
    }
}

/// Clauses written one after the other, separated by a comma and a
/// space.
pub open spec fn joined(clauses: Seq<Seq<char>>) -> Seq<char>
    decreases clauses.len(),
{
    if clauses.len() == 0 {
        Seq::empty()
    } else if clauses.len() == 1 {
        clauses[0]
    } else {
        joined(clauses.drop_last()) + ", "@ + clauses.last()
    }
}

/// The canonical surface form of a command.
pub open spec fn spec_render(kind: KindView) -> Seq<char> {
    match kind {
        KindView::DefineContract { id, clauses } => "DEFINE CONTRACT "@ + id + " "@ + joined(
            clauses,
        ),
        KindView::DefineIdea { id, text } => "DEFINE IDEA "@ + id + " \""@ + text + "\""@,
        KindView::SimulateEntity { id, rounds } => "SIMULATE ENTITY "@ + id + " "@
            + decimal_digits(rounds),
        KindView::Orchestrate { mode } => "ORCHESTRATE "@ + mode,
        KindView::InvokeRuleset { entity_id, ruleset_id } => "INVOKE RULESET "@ + ruleset_id
            + " ON "@ + entity_id,
    }
}

/// The name of a command's form, as events report it.
pub open spec fn spec_kind_name(kind: KindView) -> Seq<char> {
    match kind {
        KindView::DefineContract { .. } => "DefineContract"@,
        KindView::DefineIdea { .. } => "DefineIdea"@,
        KindView::SimulateEntity { .. } => "SimulateEntity"@,
        KindView::Orchestrate { .. } => "Orchestrate"@,
        KindView::InvokeRuleset { .. } => "InvokeRuleset"@,
    }
}

/// The given texts, separated by a comma and a space.
pub fn join_texts(clauses: &Vec<String>) -> (s: String)
    ensures
        s@ == joined(texts(clauses@)),
{
    let mut s = String::new();
    let mut i: usize = 0;
    assert(texts(clauses@).subrange(0, 0) =~= Seq::<Seq<char>>::empty());
    while i < clauses.len()
        invariant
            i <= clauses.len(),
            s@ == joined(texts(clauses@).subrange(0, i as int)),
        decreases clauses.len() - i,
    {
        let ghost done = texts(clauses@).subrange(0, i as int);
        let ghost next = texts(clauses@).subrange(0, i as int + 1);
        assert(next.drop_last() =~= done);
        assert(next.last() == clauses@[i as int]@);
        if i > 0 {
            s.append(", ");
        } else {
            assert(s@ + clauses@[i as int]@ =~= clauses@[i as int]@);
        }
        s.append(clauses[i].as_str());
        i = i + 1;
    }
    assert(texts(clauses@).subrange(0, clauses@.len() as int) =~= texts(clauses@));
    s
}

impl ImperativeKind {
    /// The name of the form.
    pub fn name(&self) -> (s: String)
        ensures
            s@ == spec_kind_name(self@),
    {
        match self {
            ImperativeKind::DefineContract { .. } => "DefineContract".to_owned(),
            ImperativeKind::DefineIdea { .. } => "DefineIdea".to_owned(),
            ImperativeKind::SimulateEntity { .. } => "SimulateEntity".to_owned(),
            ImperativeKind::Orchestrate { .. } => "Orchestrate".to_owned(),
            ImperativeKind::InvokeRuleset { .. } => "InvokeRuleset".to_owned(),
        }
    }
}

impl Imperative {
    /// The command in its canonical surface form.
    pub fn render(&self) -> (s: String)
        ensures
            s@ == spec_render(self@),
    {
        match &self.kind {
            ImperativeKind::DefineContract { id, clauses } => {
                let mut s = "DEFINE CONTRACT ".to_owned();
                s.append(id.as_str());
                s.append(" ");
                s.append(join_texts(clauses).as_str());
                s
            },
            ImperativeKind::DefineIdea { id, text } => {
                let mut s = "DEFINE IDEA ".to_owned();
                s.append(id.as_str());
                s.append(" \"");
                s.append(text.as_str());
                s.append("\"");
                s
            },
            ImperativeKind::SimulateEntity { id, rounds } => {
                let mut s = "SIMULATE ENTITY ".to_owned();
                s.append(id.as_str());
                s.append(" ");
                s.append(render_decimal(*rounds).as_str());
                s
            },
            ImperativeKind::Orchestrate { mode } => {
                let mut s = "ORCHESTRATE ".to_owned();
                s.append(mode.as_str());
                s
            },
            ImperativeKind::InvokeRuleset { entity_id, ruleset_id } => {
                let mut s = "INVOKE RULESET ".to_owned();
                s.append(ruleset_id.as_str());
                s.append(" ON ");
                s.append(entity_id.as_str());
                s
            },
        }
    }
}

impl Command {
    /// The command in its canonical surface form.
    pub fn render(&self) -> (s: String)
        ensures
            s@ == spec_render(self@),
    {
        match self {
            Command::Imperative(imperative) => imperative.render(),
        }
    }
}

} // verus!
