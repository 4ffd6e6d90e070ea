//! The grammar of the command language, as functions on text.
//!
//! ```text
//! command         := define_contract | define_idea | simulate | orchestrate | invoke
//! define_contract := "DEFINE" ws "CONTRACT" ws ident ws clauses
//! define_idea     := "DEFINE" ws "IDEA" ws ident ws quoted
//! simulate        := "SIMULATE" ws "ENTITY" ws ident ws uint
//! orchestrate     := "ORCHESTRATE" ws ident
//! invoke          := "INVOKE" ws "RULESET" ws ident ws "ON" ws ident
//! ```
//!
//! Every token is the longest run of characters of its class, so a text
//! has at most one reading.

use vstd::prelude::*;
use crate::decimal::decimal_value;
use crate::parser::ast::KindView;

verus! {

/// The classes of characters that tokens are made of.
#[derive(Clone, Copy)]
pub enum CharClass {
    /// Blank, tab, line feed, carriage return.
    Space,
    /// Letters, digits and `_ . @ -`.
    Ident,
    /// Letters, digits, the blank and `_ . : @ $ % ( ) [ ] -`.
    Clause,
    /// Decimal digits.
    Digit,
    /// Anything but the double quote.
    Unquoted,
}

pub open spec fn is_space(c: char) -> bool {
    c == ' ' || c == '\t' || c == '\n' || c == '\r'
}

pub open spec fn is_alnum(c: char) -> bool {
    ('a' <= c && c <= 'z') || ('A' <= c && c <= 'Z') || ('0' <= c && c <= '9')
}

pub open spec fn is_ident_char(c: char) -> bool {
    is_alnum(c) || c == '_' || c == '.' || c == '@' || c == '-'
}

pub open spec fn is_clause_char(c: char) -> bool {
    is_alnum(c) || c == ' ' || c == '_' || c == '.' || c == ':' || c == '@' || c == '$' || c == '%'
        || c == '(' || c == ')' || c == '[' || c == ']' || c == '-'
}

pub open spec fn in_class(class: CharClass, c: char) -> bool {
    match class {
        CharClass::Space => is_space(c),
        CharClass::Ident => is_ident_char(c),
        CharClass::Clause => is_clause_char(c),
        CharClass::Digit => '0' <= c && c <= '9',
        CharClass::Unquoted => c != '"',
    }
}

/// Where the longest run of `class` characters that starts at `pos` ends.
pub open spec fn span_end(s: Seq<char>, pos: int, class: CharClass) -> int
    decreases s.len() - pos,
{
    if 0 <= pos < s.len() && in_class(class, s[pos]) {
        span_end(s, pos + 1, class)
    } else {
        pos
    }
}

/// Where the longest run of blanks that ends at `end` starts.
pub open spec fn back_span(s: Seq<char>, end: int) -> int
    decreases end,
{
    if 0 < end <= s.len() && is_space(s[end - 1]) {
        back_span(s, end - 1)
    } else {
        end
    }
}

/// A text without the blanks around it.
pub open spec fn trimmed(s: Seq<char>) -> Seq<char> {
    let from = span_end(s, 0, CharClass::Space);
    let to = back_span(s, s.len() as int);
    if from <= to {
        s.subrange(from, to)
    } else {
        Seq::empty()
    }
}

/// Whether `word` stands in `s` at `pos`.
pub open spec fn has_at(s: Seq<char>, pos: int, word: Seq<char>) -> bool {
    0 <= pos && pos + word.len() <= s.len() && s.subrange(pos, pos + word.len()) == word
}

/// The end of the non-empty run of `class` characters at `pos`, if there
/// is one.
pub open spec fn token(s: Seq<char>, pos: int, class: CharClass) -> Option<int> {
    let end = span_end(s, pos, class);
    if end > pos {
        Some(end)
    } else {
        None
    }
}

/// The position after `word` and the blanks that must follow it.
pub open spec fn keyword(s: Seq<char>, pos: int, word: Seq<char>) -> Option<int> {
    if has_at(s, pos, word) {
        token(s, pos + word.len(), CharClass::Space)
    } else {
        None
    }
}

/// The clauses that start at `pos`, and where the last one ends.  A
/// clause is a possibly empty run of clause characters; clauses are
/// separated by a comma with optional blanks on either side.
pub open spec fn clause_list(s: Seq<char>, pos: int) -> (Seq<Seq<char>>, int)
    decreases s.len() - pos,
{
    let end = span_end(s, pos, CharClass::Clause);
    let first = s.subrange(pos, end);
    let comma = span_end(s, end, CharClass::Space);
    let next = span_end(s, comma + 1, CharClass::Space);
    if 0 <= pos < next <= s.len() && 0 <= comma < s.len() && s[comma] == ',' {
        let (rest, stop) = clause_list(s, next);
        (seq![first] + rest, stop)
    } else {
        (seq![first], end)
    }
}

/// `ws ident ws clauses`, from just after `CONTRACT`.
pub open spec fn contract_at(s: Seq<char>, pos: int) -> Option<(KindView, int)> {
    match token(s, pos, CharClass::Space) {
        Some(at1) => match token(s, at1, CharClass::Ident) {
            Some(at2) => match token(s, at2, CharClass::Space) {
                Some(at3) => {
                    let (clauses, end) = clause_list(s, at3);
                    Some((KindView::DefineContract { id: s.subrange(at1, at2), clauses }, end))
                },
                None => None,
            },
            None => None,
        },
        None => None,
    }
}

/// `ws ident ws quoted`, from just after `IDEA`.
pub open spec fn idea_at(s: Seq<char>, pos: int) -> Option<(KindView, int)> {
    match token(s, pos, CharClass::Space) {
        Some(at1) => match token(s, at1, CharClass::Ident) {
            Some(at2) => match token(s, at2, CharClass::Space) {
                Some(at3) => {
                    let close = span_end(s, at3 + 1, CharClass::Unquoted);
                    if at3 < s.len() && s[at3] == '"' && close < s.len() {
                        Some(
                            (
                                KindView::DefineIdea {
                                    id: s.subrange(at1, at2),
                                    text: s.subrange(at3 + 1, close),
                                },
                                close + 1,
                            ),
                        )
                    } else {
                        None
                    }
                },
                None => None,
            },
            None => None,
        },
        None => None,
    }
}

/// `ws ident ws uint`, from just after `ENTITY`.  A number too large for
/// the machine's word is no number.
pub open spec fn simulate_at(s: Seq<char>, pos: int) -> Option<(KindView, int)> {
    match token(s, pos, CharClass::Space) {
        Some(at1) => match token(s, at1, CharClass::Ident) {
            Some(at2) => match token(s, at2, CharClass::Space) {
                Some(at3) => match token(s, at3, CharClass::Digit) {
                    Some(at4) => {
                        let rounds = decimal_value(s.subrange(at3, at4));
                        if rounds <= usize::MAX {
                            Some((KindView::SimulateEntity { id: s.subrange(at1, at2), rounds }, at4))
                        } else {
                            None
                        }
                    },
                    None => None,
                },
                None => None,
            },
            None => None,
        },
        None => None,
    }
}

/// `ws ident`, from just after `ORCHESTRATE`.
pub open spec fn orchestrate_at(s: Seq<char>, pos: int) -> Option<(KindView, int)> {
    match token(s, pos, CharClass::Space) {
        Some(at1) => match token(s, at1, CharClass::Ident) {
            Some(at2) => Some((KindView::Orchestrate { mode: s.subrange(at1, at2) }, at2)),
            None => None,
        },
        None => None,
    }
}

/// `ws ident ws "ON" ws ident`, from just after `RULESET`.
pub open spec fn invoke_at(s: Seq<char>, pos: int) -> Option<(KindView, int)> {
    match token(s, pos, CharClass::Space) {
        Some(at1) => match token(s, at1, CharClass::Ident) {
            Some(at2) => match token(s, at2, CharClass::Space) {
                Some(at3) => match keyword(s, at3, "ON"@) {
                    Some(at4) => match token(s, at4, CharClass::Ident) {
                        Some(at5) => Some(
                            (
                                KindView::InvokeRuleset {
                                    entity_id: s.subrange(at4, at5),
                                    ruleset_id: s.subrange(at1, at2),
                                },
                                at5,
                            ),
                        ),
                        None => None,
                    },
                    None => None,
                },
                None => None,
            },
            None => None,
        },
        None => None,
    }
}

/// The command that `s` starts with, and where it ends.
pub open spec fn imperative_at(s: Seq<char>) -> Option<(KindView, int)> {
    if has_at(s, 0, "DEFINE"@) {
        match keyword(s, 0, "DEFINE"@) {
            Some(p) => if has_at(s, p, "CONTRACT"@) {
                contract_at(s, p + "CONTRACT"@.len())
            } else if has_at(s, p, "IDEA"@) {
                idea_at(s, p + "IDEA"@.len())
            } else {
                None
            },
            None => None,
        }
    } else if has_at(s, 0, "SIMULATE"@) {
        match keyword(s, 0, "SIMULATE"@) {
            Some(p) => if has_at(s, p, "ENTITY"@) {
                simulate_at(s, p + "ENTITY"@.len())
            } else {
                None
            },
            None => None,
        }
    } else if has_at(s, 0, "ORCHESTRATE"@) {
        orchestrate_at(s, "ORCHESTRATE"@.len() as int)
    } else if has_at(s, 0, "INVOKE"@) {
        match keyword(s, 0, "INVOKE"@) {
            Some(p) => if has_at(s, p, "RULESET"@) {
                invoke_at(s, p + "RULESET"@.len())
            } else {
                None
            },
            None => None,
        }
    } else {
        None
    }
}

/// What to say of text that is no command.
pub open spec fn unrecognized() -> Seq<char> {
    "Comando não reconhecido"@
}

/// What to say of text that goes on after a command.
pub open spec fn leftover(rest: Seq<char>) -> Seq<char> {
    "Entrada não foi totalmente consumida. Restante: '"@ + rest + "'"@
}

/// The reading of a whole input: the command that its trimmed text is,
/// or what is wrong with it.
pub open spec fn spec_parse_command(input: Seq<char>) -> Result<KindView, Seq<char>> {
    let t = trimmed(input);
    match imperative_at(t) {
        Some((kind, end)) => if end == t.len() {
            Ok(kind)
        } else {
            Err(leftover(t.subrange(end, t.len() as int)))
        },
        None => Err(unrecognized()),
    }
}

/// The reading of a whole input, with failures marked as syntax errors.
pub open spec fn spec_parse(input: Seq<char>) -> Result<KindView, Seq<char>> {
    match spec_parse_command(input) {
        Ok(kind) => Ok(kind),
        Err(reason) => Err("Erro de sintaxe: "@ + reason),
    }
}

} // verus!
