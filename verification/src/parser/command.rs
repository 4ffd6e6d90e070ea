//! Reading a command from text, token by token.

use vstd::prelude::*;
use crate::decimal::{all_digits, parse_decimal};
use crate::parser::ast::{Command, Imperative, ImperativeKind, KindView};
use crate::parser::grammar::{
    back_span,
    clause_list,
    contract_at,
    has_at,
    idea_at,
    imperative_at,
    in_class,
    invoke_at,
    is_space,
    keyword,
    leftover,
    orchestrate_at,
    simulate_at,
    span_end,
    spec_parse_command,
    token,
    trimmed,
    unrecognized,
    CharClass,
};
use crate::text::{chars_of, concat3, string_of, texts};

verus! {

/// Whether a character belongs to a class.
pub fn char_in_class(class: CharClass, c: char) -> (r: bool)
    ensures
        r == in_class(class, c),
{
    let alnum = ('a' <= c && c <= 'z') || ('A' <= c && c <= 'Z') || ('0' <= c && c <= '9');
    match class {
        CharClass::Space => c == ' ' || c == '\t' || c == '\n' || c == '\r',
        CharClass::Ident => alnum || c == '_' || c == '.' || c == '@' || c == '-',
        CharClass::Clause => alnum || c == ' ' || c == '_' || c == '.' || c == ':' || c == '@'
            || c == '$' || c == '%' || c == '(' || c == ')' || c == '[' || c == ']' || c == '-',
        CharClass::Digit => '0' <= c && c <= '9',
        CharClass::Unquoted => c != '"',
    }
}

/// A run ends inside the text, holds only characters of its class, and
/// cannot be extended.
pub proof fn lemma_span(s: Seq<char>, pos: int, class: CharClass)
    requires
        0 <= pos <= s.len(),
    ensures
        pos <= span_end(s, pos, class) <= s.len(),
        forall|i: int| pos <= i < span_end(s, pos, class) ==> in_class(class, #[trigger] s[i]),
        span_end(s, pos, class) < s.len() ==> !in_class(class, s[span_end(s, pos, class)]),
    decreases s.len() - pos,
{
    if pos < s.len() && in_class(class, s[pos]) {
        lemma_span(s, pos + 1, class);
    }
}

/// The end of the longest run of `class` characters at `pos`.
pub fn scan(v: &Vec<char>, pos: usize, class: CharClass) -> (end: usize)
    requires
        pos <= v.len(),
    ensures
        end == span_end(v@, pos as int, class),
        pos <= end <= v.len(),
{
    let mut i: usize = pos;
    while i < v.len() && char_in_class(class, v[i])
        invariant
            pos <= i <= v.len(),
            span_end(v@, pos as int, class) == span_end(v@, i as int, class),
        decreases v.len() - i,
    {
        i = i + 1;
    }
    i
}

/// Whether `word` stands in `v` at `pos`.
pub fn starts_at(v: &Vec<char>, pos: usize, word: &Vec<char>) -> (r: bool)
    requires
        pos <= v.len(),
    ensures
        r == has_at(v@, pos as int, word@),
{
    if word.len() > v.len() - pos {
        return false;
    }
    let mut i: usize = 0;
    while i < word.len()
        invariant
            i <= word.len(),
            pos + word.len() <= v.len(),
            v@.subrange(pos as int, pos + i) == word@.subrange(0, i as int),
        decreases word.len() - i,
    {
        if v[pos + i] != word[i] {
            assert(v@.subrange(pos as int, pos + word.len())[i as int] != word@[i as int]);
            return false;
        }
        assert(v@.subrange(pos as int, pos + i + 1) =~= v@.subrange(pos as int, pos + i).push(
            v@[pos + i],
        ));
        assert(word@.subrange(0, i as int + 1) =~= word@.subrange(0, i as int).push(
            word@[i as int],
        ));
        i = i + 1;
    }
    assert(word@.subrange(0, word@.len() as int) =~= word@);
    true
}

/// The end of the non-empty run of `class` characters at `pos`.
fn skip_token(v: &Vec<char>, pos: usize, class: CharClass) -> (r: Option<usize>)
    requires
        pos <= v.len(),
    ensures
        match r {
            Some(end) => token(v@, pos as int, class) == Some(end as int) && pos < end <= v.len(),
            None => token(v@, pos as int, class) is None,
        },
{
    let end = scan(v, pos, class);
    if end > pos {
        Some(end)
    } else {
        None
    }
}

/// The position after `word` and the blanks that follow it.
fn skip_keyword(v: &Vec<char>, pos: usize, word: &str) -> (r: Option<usize>)
    requires
        pos <= v.len(),
    ensures
        match r {
            Some(end) => keyword(v@, pos as int, word@) == Some(end as int) && pos < end
                <= v.len(),
            None => keyword(v@, pos as int, word@) is None,
        },
{
    let w = chars_of(word);
    if starts_at(v, pos, &w) {
        skip_token(v, pos + w.len(), CharClass::Space)
    } else {
        None
    }
}

/// Whether `word` stands at `pos`, and the position after it.
fn skip_word(v: &Vec<char>, pos: usize, word: &str) -> (r: Option<usize>)
    requires
        pos <= v.len(),
    ensures
        match r {
            Some(end) => has_at(v@, pos as int, word@) && end == pos + word@.len() && end
                <= v.len(),
            None => !has_at(v@, pos as int, word@),
        },
{
    let w = chars_of(word);
    if starts_at(v, pos, &w) {
        Some(pos + w.len())
    } else {
        None
    }
}

fn parse_clauses(v: &Vec<char>, pos: usize) -> (r: (Vec<String>, usize))
    requires
        pos <= v.len(),
    ensures
        (texts(r.0@), r.1 as int) == clause_list(v@, pos as int),
        r.1 <= v.len(),
    decreases v.len() - pos,
{
    let end = scan(v, pos, CharClass::Clause);
    let first = string_of(v, pos, end);
    let comma = scan(v, end, CharClass::Space);
    if comma < v.len() && v[comma] == ',' {
        let next = scan(v, comma + 1, CharClass::Space);
        let (mut rest, stop) = parse_clauses(v, next);
        let ghost tail = texts(rest@);
        rest.insert(0, first);
        assert(texts(rest@) =~= seq![first@] + tail);
        (rest, stop)
    } else {
        let mut only: Vec<String> = Vec::new();
        only.push(first);
        assert(texts(only@) =~= seq![first@]);
        (only, end)
    }
}

fn parse_contract(v: &Vec<char>, pos: usize) -> (r: Option<(ImperativeKind, usize)>)
    requires
        pos <= v.len(),
    ensures
        match r {
            Some((kind, end)) => contract_at(v@, pos as int) == Some((kind@, end as int)) && end
                <= v.len(),
            None => contract_at(v@, pos as int) is None,
        },
{
    let at1 = match skip_token(v, pos, CharClass::Space) {
        Some(p) => p,
        None => {
            return None;
        },
    };
    let at2 = match skip_token(v, at1, CharClass::Ident) {
        Some(p) => p,
        None => {
            return None;
        },
    };
    let at3 = match skip_token(v, at2, CharClass::Space) {
        Some(p) => p,
        None => {
            return None;
        },
    };
    let (clauses, end) = parse_clauses(v, at3);
    Some((ImperativeKind::DefineContract { id: string_of(v, at1, at2), clauses }, end))
}

fn parse_idea(v: &Vec<char>, pos: usize) -> (r: Option<(ImperativeKind, usize)>)
    requires
        pos <= v.len(),
    ensures
        match r {
            Some((kind, end)) => idea_at(v@, pos as int) == Some((kind@, end as int)) && end
                <= v.len(),
            None => idea_at(v@, pos as int) is None,
        },
{
    let at1 = match skip_token(v, pos, CharClass::Space) {
        Some(p) => p,
        None => {
            return None;
        },
    };
    let at2 = match skip_token(v, at1, CharClass::Ident) {
        Some(p) => p,
        None => {
            return None;
        },
    };
    let at3 = match skip_token(v, at2, CharClass::Space) {
        Some(p) => p,
        None => {
            return None;
        },
    };
    if at3 >= v.len() || v[at3] != '"' {
        return None;
    }
    let close = scan(v, at3 + 1, CharClass::Unquoted);
    if close >= v.len() {
        return None;
    }
    Some(
        (
            ImperativeKind::DefineIdea {
                id: string_of(v, at1, at2),
                text: string_of(v, at3 + 1, close),
            },
            close + 1,
        ),
    )
}

fn parse_simulate(v: &Vec<char>, pos: usize) -> (r: Option<(ImperativeKind, usize)>)
    requires
        pos <= v.len(),
    ensures
        match r {
            Some((kind, end)) => simulate_at(v@, pos as int) == Some((kind@, end as int)) && end
                <= v.len(),
            None => simulate_at(v@, pos as int) is None,
        },
{
    let at1 = match skip_token(v, pos, CharClass::Space) {
        Some(p) => p,
        None => {
            return None;
        },
    };
    let at2 = match skip_token(v, at1, CharClass::Ident) {
        Some(p) => p,
        None => {
            return None;
        },
    };
    let at3 = match skip_token(v, at2, CharClass::Space) {
        Some(p) => p,
        None => {
            return None;
        },
    };
    let at4 = match skip_token(v, at3, CharClass::Digit) {
        Some(p) => p,
        None => {
            return None;
        },
    };
    proof {
        lemma_span(v@, at3 as int, CharClass::Digit);
        let ds = v@.subrange(at3 as int, at4 as int);
        assert forall|i: int| 0 <= i < ds.len() implies crate::decimal::is_digit(
            #[trigger] ds[i],
        ) by {
            assert(ds[i] == v@[at3 + i]);
        }
    }
    match parse_decimal(v, at3, at4) {
        Some(rounds) => Some(
            (ImperativeKind::SimulateEntity { id: string_of(v, at1, at2), rounds }, at4),
        ),
        None => None,
    }
}

fn parse_orchestrate(v: &Vec<char>, pos: usize) -> (r: Option<(ImperativeKind, usize)>)
    requires
        pos <= v.len(),
    ensures
        match r {
            Some((kind, end)) => orchestrate_at(v@, pos as int) == Some((kind@, end as int))
                && end <= v.len(),
            None => orchestrate_at(v@, pos as int) is None,
        },
{
    let at1 = match skip_token(v, pos, CharClass::Space) {
        Some(p) => p,
        None => {
            return None;
        },
    };
    let at2 = match skip_token(v, at1, CharClass::Ident) {
        Some(p) => p,
        None => {
            return None;
        },
    };
    Some((ImperativeKind::Orchestrate { mode: string_of(v, at1, at2) }, at2))
}

fn parse_invoke(v: &Vec<char>, pos: usize) -> (r: Option<(ImperativeKind, usize)>)
    requires
        pos <= v.len(),
    ensures
        match r {
            Some((kind, end)) => invoke_at(v@, pos as int) == Some((kind@, end as int)) && end
                <= v.len(),
            None => invoke_at(v@, pos as int) is None,
        },
{
    let at1 = match skip_token(v, pos, CharClass::Space) {
        Some(p) => p,
        None => {
            return None;
        },
    };
    let at2 = match skip_token(v, at1, CharClass::Ident) {
        Some(p) => p,
        None => {
            return None;
        },
    };
    let at3 = match skip_token(v, at2, CharClass::Space) {
        Some(p) => p,
        None => {
            return None;
        },
    };
    let at4 = match skip_keyword(v, at3, "ON") {
        Some(p) => p,
        None => {
            return None;
        },
    };
    let at5 = match skip_token(v, at4, CharClass::Ident) {
        Some(p) => p,
        None => {
            return None;
        },
    };
    Some(
        (
            ImperativeKind::InvokeRuleset {
                entity_id: string_of(v, at4, at5),
                ruleset_id: string_of(v, at1, at2),
            },
            at5,
        ),
    )
}

fn parse_imperative(v: &Vec<char>) -> (r: Option<(ImperativeKind, usize)>)
    ensures
        match r {
            Some((kind, end)) => imperative_at(v@) == Some((kind@, end as int)) && end <= v.len(),
            None => imperative_at(v@) is None,
        },
{
    if skip_word(v, 0, "DEFINE").is_some() {
        let p = match skip_keyword(v, 0, "DEFINE") {
            Some(p) => p,
            None => {
                return None;
            },
        };
        match skip_word(v, p, "CONTRACT") {
            Some(q) => parse_contract(v, q),
            None => match skip_word(v, p, "IDEA") {
                Some(q) => parse_idea(v, q),
                None => None,
            },
        }
    } else if skip_word(v, 0, "SIMULATE").is_some() {
        let p = match skip_keyword(v, 0, "SIMULATE") {
            Some(p) => p,
            None => {
                return None;
            },
        };
        match skip_word(v, p, "ENTITY") {
            Some(q) => parse_simulate(v, q),
            None => None,
        }
    } else if let Some(q) = skip_word(v, 0, "ORCHESTRATE") {
        parse_orchestrate(v, q)
    } else if skip_word(v, 0, "INVOKE").is_some() {
        let p = match skip_keyword(v, 0, "INVOKE") {
            Some(p) => p,
            None => {
                return None;
            },
        };
        match skip_word(v, p, "RULESET") {
            Some(q) => parse_invoke(v, q),
            None => None,
        }
    } else {
        None
    }
}

/// The characters of `v` without the blanks around them.
fn trim(v: &Vec<char>) -> (t: Vec<char>)
    ensures
        t@ == trimmed(v@),
{
    let from = scan(v, 0, CharClass::Space);
    let mut to: usize = v.len();
    while to > 0 && char_in_class(CharClass::Space, v[to - 1])
        invariant
            to <= v.len(),
            back_span(v@, v@.len() as int) == back_span(v@, to as int),
        decreases to,
    {
        to = to - 1;
    }
    let mut t: Vec<char> = Vec::new();
    if from <= to {
        let mut i: usize = from;
        while i < to
            invariant
                from <= i <= to <= v.len(),
                t@ == v@.subrange(from as int, i as int),
            decreases to - i,
        {
            t.push(v[i]);
            assert(t@ =~= v@.subrange(from as int, i as int + 1));
            i = i + 1;
        }
    }
    t
}

/// Reads one command from `input`.
///
/// The blanks around the input are ignored; the rest must be exactly one
/// command.  Text that starts with no command is refused as not
/// recognized; text that goes on after a command is refused with the
/// part that was left over.
pub fn parse_command(input: &str) -> (r: Result<Command, String>)
    ensures
        match r {
            Ok(command) => spec_parse_command(input@) == Ok::<KindView, Seq<char>>(command@),
            Err(reason) => spec_parse_command(input@) == Err::<KindView, Seq<char>>(reason@),
        },
{
    let v = chars_of(input);
    let t = trim(&v);
    match parse_imperative(&t) {
        Some((kind, end)) => {
            if end == t.len() {
                Ok(Command::Imperative(Imperative { kind }))
            } else {
                let rest = string_of(&t, end, t.len());
                Err(
                    concat3(
                        "Entrada não foi totalmente consumida. Restante: '",
                        rest.as_str(),
                        "'",
                    ),
                )
            }
        },
        None => Err("Comando não reconhecido".to_owned()),
    }
}

} // verus!
