//! The ruleset evaluator: a named rule, applied to an entity's content,
//! yields a verdict.

use vstd::prelude::*;
use crate::parser::command::starts_at;
use crate::parser::grammar::has_at;
use crate::text::{chars_of, same_text};

verus! {

/// The outcome of applying a rule.
#[derive(Debug, Clone, Copy, PartialEq, Eq, Structural)]
pub enum Verdict {
    /// The entity conforms to the rule.
    Accepted,
    /// The entity does not conform to the rule.
    Rejected,
}

/// The rules that can be applied.
#[derive(Debug, Clone)]
pub enum Rule {
    /// Accepts every entity.
    AlwaysAccept,
    /// Rejects every entity.
    AlwaysReject,
    /// Accepts the entities whose content holds a pattern.
    ContentCheck {
        /// The field of the content that is examined.
        field: String,
        /// The text that must occur.
        pattern: String,
    },
}

/// A rule as plain data.
pub enum RuleView {
    AlwaysAccept,
    AlwaysReject,
    ContentCheck { field: Seq<char>, pattern: Seq<char> },
}

impl View for Rule {
    type V = RuleView;

    open spec fn view(&self) -> RuleView {
        match self {
            Rule::AlwaysAccept => RuleView::AlwaysAccept,
            Rule::AlwaysReject => RuleView::AlwaysReject,
            Rule::ContentCheck { field, pattern } => RuleView::ContentCheck {
                field: field@,
                pattern: pattern@,
            },
        }
    }
}

/// Whether `pattern` occurs in `content`, as a run of consecutive
/// characters.  The empty pattern occurs in every content.
pub open spec fn occurs_in(pattern: Seq<char>, content: Seq<char>) -> bool {
    exists|i: int| #[trigger] has_at(content, i, pattern)
}

/// What a rule says of a content.
pub open spec fn spec_evaluate(rule: RuleView, content: Seq<char>) -> Verdict {
    match rule {
        RuleView::AlwaysAccept => Verdict::Accepted,
        RuleView::AlwaysReject => Verdict::Rejected,
        RuleView::ContentCheck { field, pattern } => if occurs_in(pattern, content) {
            Verdict::Accepted
        } else {
            Verdict::Rejected
        },
    }
}

/// The rule that a ruleset name stands for.  A name that the catalogue
/// does not know stands for `always-accept`.
pub open spec fn spec_rule_for(ruleset_id: Seq<char>) -> RuleView {
    if ruleset_id == "always-reject"@ {
        RuleView::AlwaysReject
    } else if ruleset_id == "basic-check"@ {
        RuleView::ContentCheck { field: "text"@, pattern: "important"@ }
    } else {
        RuleView::AlwaysAccept
    }
}

/// Whether `pattern` occurs in `content`.
pub fn contains_text(content: &str, pattern: &str) -> (r: bool)
    ensures
        r == occurs_in(pattern@, content@),
{
    let c = chars_of(content);
    let p = chars_of(pattern);
    let mut i: usize = 0;
    while i < c.len()
        invariant
            i <= c.len(),
            c@ == content@,
            p@ == pattern@,
            forall|j: int| 0 <= j < i ==> !#[trigger] has_at(c@, j, p@),
        decreases c.len() - i,
    {
        if starts_at(&c, i, &p) {
            return true;
        }
        i = i + 1;
    }
    if starts_at(&c, c.len(), &p) {
        return true;
    }
    assert forall|j: int| !#[trigger] has_at(c@, j, p@) by {}
    false
}

impl Rule {
    /// Applies the rule to a content.
    pub fn evaluate(&self, content: &str) -> (verdict: Verdict)
        ensures
            verdict == spec_evaluate(self@, content@),
    {
        match self {
            Rule::AlwaysAccept => Verdict::Accepted,
            Rule::AlwaysReject => Verdict::Rejected,
            Rule::ContentCheck { field: _, pattern } => {
                if contains_text(content, pattern.as_str()) {
                    Verdict::Accepted
                } else {
                    Verdict::Rejected
                }
            },
        }
    }
}

impl Verdict {
    /// The verdict's name.
    pub open spec fn spec_name(self) -> Seq<char> {
        match self {
            Verdict::Accepted => "Accepted"@,
            Verdict::Rejected => "Rejected"@,
        }
    }

    /// The verdict's name.
    pub fn name(&self) -> (s: String)
        ensures
            s@ == self.spec_name(),
    {
        match self {
            Verdict::Accepted => "Accepted".to_owned(),
            Verdict::Rejected => "Rejected".to_owned(),
        }
    }
}

/// The rule of the built-in catalogue that `ruleset_id` names.
pub fn rule_for(ruleset_id: &str) -> (rule: Rule)
    ensures
        rule@ == spec_rule_for(ruleset_id@),
{
    if same_text(ruleset_id, "always-reject") {
        Rule::AlwaysReject
    } else if same_text(ruleset_id, "basic-check") {
        Rule::ContentCheck { field: "text".to_owned(), pattern: "important".to_owned() }
    } else {
        Rule::AlwaysAccept
    }
}

/// Applies the ruleset named `ruleset_id` to an entity's content.
pub fn apply_ruleset(ruleset_id: &str, content: &str) -> (verdict: Verdict)
    ensures
        verdict == spec_evaluate(spec_rule_for(ruleset_id@), content@),
{
    rule_for(ruleset_id).evaluate(content)
}

} // verus!
