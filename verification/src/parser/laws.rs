//! What holds of the parser and the renderer together.

use vstd::prelude::*;
use crate::decimal::{all_digits, decimal_digits, decimal_value, lemma_decimal_round_trip};
use crate::parser::ast::{joined, spec_render, KindView};
use crate::parser::command::lemma_span;
use crate::parser::grammar::{
    back_span,
    clause_list,
    contract_at,
    has_at,
    idea_at,
    imperative_at,
    in_class,
    invoke_at,
    is_clause_char,
    is_ident_char,
    is_space,
    keyword,
    orchestrate_at,
    simulate_at,
    span_end,
    spec_parse,
    spec_parse_command,
    token,
    trimmed,
    CharClass,
};

verus! {

/// An identifier: one or more identifier characters.
pub open spec fn ident_ok(id: Seq<char>) -> bool {
    id.len() > 0 && forall|i: int| 0 <= i < id.len() ==> is_ident_char(#[trigger] id[i])
}

/// Clauses as the parser yields them: at least one; clause characters
/// only; none starts with a blank.
pub open spec fn clauses_ok(cs: Seq<Seq<char>>) -> bool {
    &&& cs.len() >= 1
    &&& forall|i: int, j: int|
        0 <= i < cs.len() && 0 <= j < cs[i].len() ==> is_clause_char(#[trigger] cs[i][j])
    &&& forall|i: int| 0 <= i < cs.len() && (#[trigger] cs[i]).len() > 0 ==> cs[i][0] != ' '
}

/// The commands that some input reads as.
pub open spec fn canonical(kind: KindView) -> bool {
    match kind {
        KindView::DefineContract { id, clauses } => {
            &&& ident_ok(id)
            &&& clauses_ok(clauses)
            &&& clauses.last().len() > 0 ==> clauses.last().last() != ' '
            &&& !(clauses.len() == 1 && clauses[0].len() == 0)
        },
        KindView::DefineIdea { id, text } => ident_ok(id) && forall|i: int|
            0 <= i < text.len() ==> #[trigger] text[i] != '"',
        KindView::SimulateEntity { id, rounds } => ident_ok(id) && rounds <= usize::MAX,
        KindView::Orchestrate { mode } => ident_ok(mode),
        KindView::InvokeRuleset { entity_id, ruleset_id } => ident_ok(entity_id) && ident_ok(
            ruleset_id,
        ),
    }
}

/// A run that is known character by character.
pub proof fn lemma_span_exact(s: Seq<char>, from: int, to: int, class: CharClass)
    requires
        0 <= from <= to <= s.len(),
        forall|i: int| from <= i < to ==> in_class(class, #[trigger] s[i]),
        to == s.len() || !in_class(class, s[to]),
    ensures
        span_end(s, from, class) == to,
    decreases to - from,
{
    if from < to {
        lemma_span_exact(s, from + 1, to, class);
    }
}

/// A token that is known to be a given word.
pub proof fn lemma_token_word(s: Seq<char>, pos: int, word: Seq<char>, class: CharClass)
    requires
        has_at(s, pos, word),
        word.len() > 0,
        forall|i: int| 0 <= i < word.len() ==> in_class(class, #[trigger] word[i]),
        pos + word.len() == s.len() || !in_class(class, s[pos + word.len()]),
    ensures
        token(s, pos, class) == Some(pos + word.len()),
{
    assert forall|i: int| pos <= i < pos + word.len() implies in_class(class, #[trigger] s[i]) by {
        assert(s.subrange(pos, pos + word.len())[i - pos] == s[i]);
        assert(in_class(class, word[i - pos]));
    }
    lemma_span_exact(s, pos, pos + word.len(), class);
}

proof fn lemma_back_span(s: Seq<char>, end: int)
    requires
        0 <= end <= s.len(),
    ensures
        0 <= back_span(s, end) <= end,
        back_span(s, end) > 0 ==> !is_space(s[back_span(s, end) - 1]),
    decreases end,
{
    if 0 < end && is_space(s[end - 1]) {
        lemma_back_span(s, end - 1);
    }
}

/// A trimmed text neither starts nor ends with a blank.
pub proof fn lemma_trimmed_edges(s: Seq<char>)
    ensures
        trimmed(s).len() > 0 ==> !is_space(trimmed(s)[0]) && !is_space(trimmed(s).last()),
{
    lemma_span(s, 0, CharClass::Space);
    lemma_back_span(s, s.len() as int);
}

/// A text that neither starts nor ends with a blank is its own trimmed
/// text.
pub proof fn lemma_trimmed_same(s: Seq<char>)
    requires
        s.len() > 0,
        !is_space(s[0]),
        !is_space(s.last()),
    ensures
        trimmed(s) == s,
{
    assert(s.subrange(0, s.len() as int) =~= s);
}

/// Rendering an `ORCHESTRATE` command and reading it back.
proof fn lemma_render_orchestrate(mode: Seq<char>)
    requires
        ident_ok(mode),
    ensures
        spec_parse_command(spec_render(KindView::Orchestrate { mode })) == Ok::<
            KindView,
            Seq<char>,
        >(KindView::Orchestrate { mode }),
{
    reveal_strlit("ORCHESTRATE ");
    reveal_strlit("ORCHESTRATE");
    reveal_strlit("DEFINE");
    reveal_strlit("SIMULATE");
    let r = "ORCHESTRATE "@ + mode;
    assert(r == spec_render(KindView::Orchestrate { mode }));
    assert(r[0] == 'O');
    assert(r.last() == mode.last());
    assert(is_ident_char(mode[mode.len() - 1]));
    lemma_trimmed_same(r);
    assert(!has_at(r, 0, "DEFINE"@)) by {
        if has_at(r, 0, "DEFINE"@) {
            assert(r.subrange(0, 6)[0] == r[0]);
        }
    }
    assert(!has_at(r, 0, "SIMULATE"@)) by {
        if has_at(r, 0, "SIMULATE"@) {
            assert(r.subrange(0, 8)[0] == r[0]);
        }
    }
    assert(r.subrange(0, 11) =~= "ORCHESTRATE"@);
    assert(r[11] == ' ');
    assert(r[12] == mode[0]);
    assert(is_ident_char(mode[0]));
    lemma_span_exact(r, 11, 12, CharClass::Space);
    assert forall|i: int| 12 <= i < r.len() implies in_class(CharClass::Ident, #[trigger] r[i]) by {
        assert(r[i] == mode[i - 12]);
    }
    lemma_span_exact(r, 12, r.len() as int, CharClass::Ident);
    assert(r.subrange(12, r.len() as int) =~= mode);
}

/// A single blank between two tokens.
proof fn lemma_gap(s: Seq<char>, pos: int)
    requires
        0 <= pos < s.len(),
        s[pos] == ' ',
        pos + 1 == s.len() || !is_space(s[pos + 1]),
    ensures
        token(s, pos, CharClass::Space) == Some(pos + 1),
{
    lemma_span_exact(s, pos, pos + 1, CharClass::Space);
}

/// An identifier that is known to stand at `pos`.
proof fn lemma_ident(s: Seq<char>, pos: int, id: Seq<char>)
    requires
        has_at(s, pos, id),
        ident_ok(id),
        pos + id.len() == s.len() || !is_ident_char(s[pos + id.len()]),
    ensures
        token(s, pos, CharClass::Ident) == Some(pos + id.len()),
{
    lemma_token_word(s, pos, id, CharClass::Ident);
}

/// The head of a rendered `INVOKE RULESET` command.
proof fn lemma_head_invoke(rest: Seq<char>)
    requires
        rest.len() > 0,
        !is_space(rest[0]),
    ensures
        "INVOKE RULESET "@.len() == 15,
        imperative_at("INVOKE RULESET "@ + rest) == invoke_at("INVOKE RULESET "@ + rest, 14),
        token("INVOKE RULESET "@ + rest, 14, CharClass::Space) == Some(15int),
        !is_space(("INVOKE RULESET "@ + rest)[0]),
{
    reveal_strlit("INVOKE RULESET ");
    reveal_strlit("INVOKE");
    reveal_strlit("RULESET");
    reveal_strlit("ORCHESTRATE");
    reveal_strlit("DEFINE");
    reveal_strlit("SIMULATE");
    let r = "INVOKE RULESET "@ + rest;
    assert(r[0] == 'I');
    assert(!has_at(r, 0, "DEFINE"@)) by {
        if has_at(r, 0, "DEFINE"@) {
            assert(r.subrange(0, 6)[0] == r[0]);
        }
    }
    assert(!has_at(r, 0, "SIMULATE"@)) by {
        if has_at(r, 0, "SIMULATE"@) {
            assert(r.subrange(0, 8)[0] == r[0]);
        }
    }
    assert(!has_at(r, 0, "ORCHESTRATE"@)) by {
        if has_at(r, 0, "ORCHESTRATE"@) {
            assert(r.subrange(0, 11)[0] == r[0]);
        }
    }
    assert(r.subrange(0, 6) =~= "INVOKE"@);
    assert(r[6] == ' ');
    assert(r[7] == 'R');
    lemma_gap(r, 6);
    assert(r.subrange(7, 14) =~= "RULESET"@);
    assert(r[14] == ' ');
    assert(r[15] == rest[0]);
    lemma_gap(r, 14);
}

/// The head of a rendered `SIMULATE ENTITY` command.
proof fn lemma_head_simulate(rest: Seq<char>)
    requires
        rest.len() > 0,
        !is_space(rest[0]),
    ensures
        "SIMULATE ENTITY "@.len() == 16,
        imperative_at("SIMULATE ENTITY "@ + rest) == simulate_at("SIMULATE ENTITY "@ + rest, 15),
        token("SIMULATE ENTITY "@ + rest, 15, CharClass::Space) == Some(16int),
        !is_space(("SIMULATE ENTITY "@ + rest)[0]),
{
    reveal_strlit("SIMULATE ENTITY ");
    reveal_strlit("SIMULATE");
    reveal_strlit("ENTITY");
    reveal_strlit("DEFINE");
    let r = "SIMULATE ENTITY "@ + rest;
    assert(r[0] == 'S');
    assert(!has_at(r, 0, "DEFINE"@)) by {
        if has_at(r, 0, "DEFINE"@) {
            assert(r.subrange(0, 6)[0] == r[0]);
        }
    }
    assert(r.subrange(0, 8) =~= "SIMULATE"@);
    assert(r[8] == ' ');
    assert(r[9] == 'E');
    lemma_gap(r, 8);
    assert(r.subrange(9, 15) =~= "ENTITY"@);
    assert(r[15] == ' ');
    assert(r[16] == rest[0]);
    lemma_gap(r, 15);
}

/// The head of a rendered `DEFINE CONTRACT` command.
proof fn lemma_head_contract(rest: Seq<char>)
    requires
        rest.len() > 0,
        !is_space(rest[0]),
    ensures
        "DEFINE CONTRACT "@.len() == 16,
        imperative_at("DEFINE CONTRACT "@ + rest) == contract_at("DEFINE CONTRACT "@ + rest, 15),
        token("DEFINE CONTRACT "@ + rest, 15, CharClass::Space) == Some(16int),
        !is_space(("DEFINE CONTRACT "@ + rest)[0]),
{
    reveal_strlit("DEFINE CONTRACT ");
    reveal_strlit("DEFINE");
    reveal_strlit("CONTRACT");
    let r = "DEFINE CONTRACT "@ + rest;
    assert(r[0] == 'D');
    assert(r.subrange(0, 6) =~= "DEFINE"@);
    assert(r[6] == ' ');
    assert(r[7] == 'C');
    lemma_gap(r, 6);
    assert(r.subrange(7, 15) =~= "CONTRACT"@);
    assert(r[15] == ' ');
    assert(r[16] == rest[0]);
    lemma_gap(r, 15);
}

/// Rendering an `INVOKE RULESET` command and reading it back.
proof fn lemma_render_invoke(entity_id: Seq<char>, ruleset_id: Seq<char>)
    requires
        ident_ok(entity_id),
        ident_ok(ruleset_id),
    ensures
        spec_parse_command(spec_render(KindView::InvokeRuleset { entity_id, ruleset_id })) == Ok::<
            KindView,
            Seq<char>,
        >(KindView::InvokeRuleset { entity_id, ruleset_id }),
{
    let on = " ON "@;
    let rest = ruleset_id + on + entity_id;
    let r = "INVOKE RULESET "@ + rest;
    let n = ruleset_id.len() as int;
    let m = entity_id.len() as int;
    assert(on.len() == 4 && on[0] == ' ' && on[1] == 'O' && on[2] == 'N' && on[3] == ' ' && "ON"@
        =~= on.subrange(1, 3)) by {
        reveal_strlit(" ON ");
        reveal_strlit("ON");
    }
    assert(r =~= spec_render(KindView::InvokeRuleset { entity_id, ruleset_id }));
    assert(rest[0] == ruleset_id[0]);
    assert(is_ident_char(ruleset_id[0]));
    lemma_head_invoke(rest);
    assert(r.last() == entity_id[m - 1]);
    assert(is_ident_char(entity_id[m - 1]));
    lemma_trimmed_same(r);
    assert(r.subrange(15, 15 + n) =~= ruleset_id);
    assert(r[15 + n] == on[0]);
    lemma_ident(r, 15, ruleset_id);
    assert(r[15 + n + 1] == on[1]);
    lemma_gap(r, 15 + n);
    assert(r.subrange(15 + n + 1, 15 + n + 3) =~= on.subrange(1, 3));
    assert(r[15 + n + 3] == on[3]);
    assert(r[15 + n + 4] == entity_id[0]);
    assert(is_ident_char(entity_id[0]));
    lemma_gap(r, 15 + n + 3);
    assert(r.subrange(15 + n + 4, 15 + n + 4 + m) =~= entity_id);
    lemma_ident(r, 15 + n + 4, entity_id);
}

/// Rendering a `SIMULATE ENTITY` command and reading it back.
proof fn lemma_render_simulate(id: Seq<char>, rounds: nat)
    requires
        ident_ok(id),
        rounds <= usize::MAX,
    ensures
        spec_parse_command(spec_render(KindView::SimulateEntity { id, rounds })) == Ok::<
            KindView,
            Seq<char>,
        >(KindView::SimulateEntity { id, rounds }),
{
    lemma_decimal_round_trip(rounds);
    let ds = decimal_digits(rounds);
    let blank = " "@;
    let rest = id + blank + ds;
    let r = "SIMULATE ENTITY "@ + rest;
    let n = id.len() as int;
    let d = ds.len() as int;
    assert(blank.len() == 1 && blank[0] == ' ') by {
        reveal_strlit(" ");
    }
    assert(r =~= spec_render(KindView::SimulateEntity { id, rounds }));
    assert(rest[0] == id[0]);
    assert(is_ident_char(id[0]));
    lemma_head_simulate(rest);
    assert(r.last() == ds[d - 1]);
    assert(crate::decimal::is_digit(ds[d - 1]));
    lemma_trimmed_same(r);
    assert(r.subrange(16, 16 + n) =~= id);
    assert(r[16 + n] == blank[0]);
    lemma_ident(r, 16, id);
    assert(r[16 + n + 1] == ds[0]);
    assert(crate::decimal::is_digit(ds[0]));
    lemma_gap(r, 16 + n);
    assert(r.subrange(16 + n + 1, 16 + n + 1 + d) =~= ds);
    assert forall|i: int| 0 <= i < d implies in_class(CharClass::Digit, #[trigger] ds[i]) by {
        assert(crate::decimal::is_digit(ds[i]));
    }
    lemma_token_word(r, 16 + n + 1, ds, CharClass::Digit);
}

/// Rendering a `DEFINE IDEA` command and reading it back.
proof fn lemma_render_idea(id: Seq<char>, text: Seq<char>)
    requires
        ident_ok(id),
        forall|i: int| 0 <= i < text.len() ==> #[trigger] text[i] != '"',
    ensures
        spec_parse_command(spec_render(KindView::DefineIdea { id, text })) == Ok::<
            KindView,
            Seq<char>,
        >(KindView::DefineIdea { id, text }),
{
    reveal_strlit("DEFINE IDEA ");
    reveal_strlit(" \"");
    reveal_strlit("\"");
    reveal_strlit("DEFINE");
    reveal_strlit("IDEA");
    reveal_strlit("CONTRACT");
    let r = "DEFINE IDEA "@ + id + " \""@ + text + "\""@;
    let n = id.len() as int;
    let m = text.len() as int;
    assert(r == spec_render(KindView::DefineIdea { id, text }));
    assert(r.len() == 12 + n + 2 + m + 1);
    assert(r[0] == 'D');
    assert(r.last() == '"');
    lemma_trimmed_same(r);
    assert(r.subrange(0, 6) =~= "DEFINE"@);
    assert(r[6] == ' ');
    assert(r[7] == 'I');
    lemma_span_exact(r, 6, 7, CharClass::Space);
    assert(!has_at(r, 7, "CONTRACT"@)) by {
        if has_at(r, 7, "CONTRACT"@) {
            assert(r.subrange(7, 15)[0] == r[7]);
        }
    }
    assert(r.subrange(7, 11) =~= "IDEA"@);
    assert(r[11] == ' ');
    assert(r[12] == id[0]);
    assert(is_ident_char(id[0]));
    lemma_span_exact(r, 11, 12, CharClass::Space);
    assert forall|i: int| 12 <= i < 12 + n implies in_class(CharClass::Ident, #[trigger] r[i]) by {
        assert(r[i] == id[i - 12]);
    }
    assert(r[12 + n] == ' ');
    lemma_span_exact(r, 12, 12 + n, CharClass::Ident);
    assert(r[12 + n + 1] == '"');
    lemma_span_exact(r, 12 + n, 12 + n + 1, CharClass::Space);
    assert forall|i: int| 12 + n + 2 <= i < 12 + n + 2 + m implies in_class(
        CharClass::Unquoted,
        #[trigger] r[i],
    ) by {
        assert(r[i] == text[i - 12 - n - 2]);
    }
    assert(r[12 + n + 2 + m] == '"');
    lemma_span_exact(r, 12 + n + 2, 12 + n + 2 + m, CharClass::Unquoted);
    assert(r.subrange(12, 12 + n) =~= id);
    assert(r.subrange(12 + n + 2, 12 + n + 2 + m) =~= text);
}

/// The joined clauses as the parser meets them: without the blank that a
/// trailing empty clause leaves at the end.
pub open spec fn body(cs: Seq<Seq<char>>) -> Seq<char> {
    if cs.len() >= 2 && cs.last().len() == 0 {
        joined(cs).drop_last()
    } else {
        joined(cs)
    }
}

/// The joined clauses, seen from the first clause.
proof fn lemma_joined_cons(cs: Seq<Seq<char>>)
    requires
        cs.len() >= 2,
    ensures
        joined(cs) == cs[0] + ", "@ + joined(cs.drop_first()),
    decreases cs.len(),
{
    let init = cs.drop_last();
    let rest = cs.drop_first();
    if cs.len() == 2 {
        assert(init =~= seq![cs[0]]);
        assert(rest =~= seq![cs[1]]);
        assert(joined(init) == cs[0]);
        assert(joined(rest) == cs[1]);
    } else {
        lemma_joined_cons(init);
        assert(init.drop_first() =~= rest.drop_last());
        assert(init[0] == cs[0]);
        assert(rest.last() == cs.last());
        assert(joined(rest) == joined(rest.drop_last()) + ", "@ + rest.last());
        assert(joined(cs) =~= cs[0] + ", "@ + joined(rest));
    }
}

/// The joined clauses end as the last clause ends, or with the separator
/// where the last clause is empty.
proof fn lemma_joined_end(cs: Seq<Seq<char>>)
    requires
        cs.len() >= 1,
    ensures
        cs.last().len() > 0 ==> joined(cs).len() > 0 && joined(cs).last() == cs.last().last(),
        cs.len() >= 2 && cs.last().len() == 0 ==> joined(cs).len() >= 2 && joined(cs).last() == ' '
            && joined(cs)[joined(cs).len() - 2] == ',',
{
    reveal_strlit(", ");
    if cs.len() >= 2 {
        let j = joined(cs.drop_last()) + ", "@ + cs.last();
        assert(joined(cs) == j);
        if cs.last().len() == 0 {
            assert(j =~= joined(cs.drop_last()) + ", "@);
        }
    }
}

/// The body of a clause list, seen from the first clause.
proof fn lemma_body_cons(cs: Seq<Seq<char>>)
    requires
        cs.len() >= 2,
    ensures
        body(cs) == if cs.len() == 2 && cs[1].len() == 0 {
            cs[0] + ","@
        } else {
            cs[0] + ", "@ + body(cs.drop_first())
        },
{
    reveal_strlit(", ");
    reveal_strlit(",");
    let rest = cs.drop_first();
    lemma_joined_cons(cs);
    assert(rest.last() == cs.last());
    if cs.last().len() == 0 {
        if cs.len() == 2 {
            assert(rest =~= seq![cs[1]]);
            assert(joined(rest) == cs[1]);
            assert(joined(cs) =~= cs[0] + ", "@);
            assert(joined(cs).drop_last() =~= cs[0] + ","@);
        } else {
            lemma_joined_end(rest);
            assert(joined(cs).drop_last() =~= cs[0] + ", "@ + joined(rest).drop_last());
        }
    }
}

/// The body of a clause list other than the single empty clause starts
/// with a character that is no blank.
proof fn lemma_body_first(cs: Seq<Seq<char>>)
    requires
        clauses_ok(cs),
        !(cs.len() == 1 && cs[0].len() == 0),
    ensures
        body(cs).len() > 0,
        !is_space(body(cs)[0]),
{
    reveal_strlit(", ");
    reveal_strlit(",");
    if cs.len() == 1 {
        assert(is_clause_char(cs[0][0]));
    } else {
        lemma_body_cons(cs);
        if cs[0].len() > 0 {
            assert(is_clause_char(cs[0][0]));
            assert(body(cs)[0] == cs[0][0]);
        } else {
            assert(body(cs)[0] == ',');
        }
    }
}

/// Reading the body of a clause list gives the clause list back.
proof fn lemma_clause_list_of_body(t: Seq<char>, pos: int, cs: Seq<Seq<char>>)
    requires
        clauses_ok(cs),
        0 <= pos <= t.len(),
        t.subrange(pos, t.len() as int) == body(cs),
    ensures
        clause_list(t, pos) == (cs, t.len() as int),
    decreases cs.len(),
{
    let c0 = cs[0];
    let b = body(cs);
    let n = c0.len() as int;
    assert forall|i: int| 0 <= i < b.len() implies t[pos + i] == #[trigger] b[i] by {
        assert(t.subrange(pos, t.len() as int)[i] == t[pos + i]);
    }
    assert forall|j: int| 0 <= j < n implies is_clause_char(#[trigger] c0[j]) by {
        assert(is_clause_char(cs[0][j]));
    }
    if cs.len() == 1 {
        assert(b == c0);
        assert forall|i: int| pos <= i < t.len() implies in_class(
            CharClass::Clause,
            #[trigger] t[i],
        ) by {
            assert(t[i] == b[i - pos]);
            assert(is_clause_char(c0[i - pos]));
        }
        lemma_span_exact(t, pos, t.len() as int, CharClass::Clause);
        assert(span_end(t, t.len() as int, CharClass::Space) == t.len());
        assert(t.subrange(pos, t.len() as int) =~= c0);
        assert(cs =~= seq![c0]);
    } else {
        let rest = cs.drop_first();
        lemma_body_cons(cs);
        assert(clauses_ok(rest)) by {
            assert forall|i: int, j: int|
                0 <= i < rest.len() && 0 <= j < rest[i].len() implies is_clause_char(
                #[trigger] rest[i][j],
            ) by {
                assert(rest[i] == cs[i + 1]);
                assert(is_clause_char(cs[i + 1][j]));
            }
            assert forall|i: int| 0 <= i < rest.len() && (#[trigger] rest[i]).len() > 0 implies rest[i][0]
                != ' ' by {
                assert(rest[i] == cs[i + 1]);
            }
        }
        assert(b.len() > n && b[n] == ',' && forall|j: int| 0 <= j < n ==> b[j] == c0[j]) by {
            reveal_strlit(", ");
            reveal_strlit(",");
        }
        assert forall|i: int| pos <= i < pos + n implies in_class(
            CharClass::Clause,
            #[trigger] t[i],
        ) by {
            assert(t[i] == b[i - pos]);
            assert(is_clause_char(c0[i - pos]));
        }
        assert(t[pos + n] == b[n]);
        lemma_span_exact(t, pos, pos + n, CharClass::Clause);
        assert(span_end(t, pos + n, CharClass::Space) == pos + n);
        assert(t.subrange(pos, pos + n) =~= c0);
        if cs.len() == 2 && cs[1].len() == 0 {
            assert(b.len() == n + 1) by {
                reveal_strlit(",");
            }
            assert(pos + n + 1 == t.len());
            assert(span_end(t, pos + n + 1, CharClass::Space) == pos + n + 1);
            assert(rest =~= seq![cs[1]]);
            assert(body(rest) =~= Seq::<char>::empty());
            assert(t.subrange(t.len() as int, t.len() as int) =~= body(rest));
            lemma_clause_list_of_body(t, t.len() as int, rest);
            assert(seq![c0] + rest =~= cs);
        } else {
            let br = body(rest);
            assert(!(rest.len() == 1 && rest[0].len() == 0)) by {
                if rest.len() == 1 {
                    assert(rest[0] == cs[1]);
                }
            }
            lemma_body_first(rest);
            assert(b.len() == n + 2 + br.len() && b[n + 1] == ' ' && forall|j: int|
                0 <= j < br.len() ==> b[n + 2 + j] == br[j]) by {
                reveal_strlit(", ");
            }
            assert(t[pos + n + 1] == b[n + 1]);
            assert(t[pos + n + 2] == b[n + 2]);
            assert(b[n + 2] == br[0]);
            lemma_span_exact(t, pos + n + 1, pos + n + 2, CharClass::Space);
            assert(t.subrange(pos + n + 2, t.len() as int) =~= br) by {
                assert forall|j: int| 0 <= j < br.len() implies t.subrange(
                    pos + n + 2,
                    t.len() as int,
                )[j] == br[j] by {
                    assert(t[pos + n + 2 + j] == b[n + 2 + j]);
                }
            }
            lemma_clause_list_of_body(t, pos + n + 2, rest);
            assert(seq![c0] + rest =~= cs);
        }
    }
}

/// Rendering a `DEFINE CONTRACT` command and reading it back.
proof fn lemma_render_contract(id: Seq<char>, clauses: Seq<Seq<char>>)
    requires
        canonical(KindView::DefineContract { id, clauses }),
    ensures
        spec_parse_command(spec_render(KindView::DefineContract { id, clauses })) == Ok::<
            KindView,
            Seq<char>,
        >(KindView::DefineContract { id, clauses }),
{
    let blank = " "@;
    let j = joined(clauses);
    let b = body(clauses);
    let n = id.len() as int;
    let r = "DEFINE CONTRACT "@ + (id + blank + j);
    let rest = id + blank + b;
    let t = "DEFINE CONTRACT "@ + rest;
    assert(blank.len() == 1 && blank[0] == ' ') by {
        reveal_strlit(" ");
    }
    assert(r =~= spec_render(KindView::DefineContract { id, clauses }));
    assert(rest[0] == id[0]);
    assert(is_ident_char(id[0]));
    lemma_head_contract(rest);
    lemma_head_contract(id + blank + j);
    lemma_body_first(clauses);
    lemma_joined_end(clauses);
    assert(trimmed(r) == t) by {
        if clauses.last().len() > 0 {
            assert(b == j);
            assert(r.last() == j.last());
            assert(is_clause_char(clauses[clauses.len() - 1][clauses.last().len() - 1]));
            lemma_trimmed_same(r);
        } else {
            assert(r.last() == ' ');
            assert(r[r.len() - 2] == ',');
            assert(back_span(r, r.len() - 1) == r.len() - 1);
            assert(back_span(r, r.len() as int) == r.len() - 1);
            assert(span_end(r, 0, CharClass::Space) == 0);
            assert(r.subrange(0, r.len() - 1) =~= t);
        }
    }
    assert(t.subrange(16, 16 + n) =~= id);
    assert(t[16 + n] == blank[0]);
    lemma_ident(t, 16, id);
    assert(t[16 + n + 1] == b[0]);
    lemma_gap(t, 16 + n);
    assert(t.subrange(16 + n + 1, t.len() as int) =~= b);
    lemma_clause_list_of_body(t, 16 + n + 1, clauses);
}

/// Rendering a command that some input reads as, and reading it back,
/// gives the same command.
pub proof fn lemma_render_parses(kind: KindView)
    requires
        canonical(kind),
    ensures
        spec_parse_command(spec_render(kind)) == Ok::<KindView, Seq<char>>(kind),
{
    match kind {
        KindView::DefineContract { id, clauses } => lemma_render_contract(id, clauses),
        KindView::DefineIdea { id, text } => lemma_render_idea(id, text),
        KindView::SimulateEntity { id, rounds } => lemma_render_simulate(id, rounds),
        KindView::Orchestrate { mode } => lemma_render_orchestrate(mode),
        KindView::InvokeRuleset { entity_id, ruleset_id } => lemma_render_invoke(
            entity_id,
            ruleset_id,
        ),
    }
}

/// A non-empty token is an identifier where its class is `Ident`.
proof fn lemma_token_ident(t: Seq<char>, pos: int)
    requires
        0 <= pos <= t.len(),
        token(t, pos, CharClass::Ident) is Some,
    ensures
        ident_ok(t.subrange(pos, token(t, pos, CharClass::Ident)->0)),
        pos < token(t, pos, CharClass::Ident)->0 <= t.len(),
{
    lemma_span(t, pos, CharClass::Ident);
    let end = span_end(t, pos, CharClass::Ident);
    let id = t.subrange(pos, end);
    assert forall|i: int| 0 <= i < id.len() implies is_ident_char(#[trigger] id[i]) by {
        assert(id[i] == t[pos + i]);
        assert(in_class(CharClass::Ident, t[pos + i]));
    }
}

/// A run of blanks ends inside the text, before a character that is no
/// blank.
proof fn lemma_token_space(t: Seq<char>, pos: int)
    requires
        0 <= pos <= t.len(),
        token(t, pos, CharClass::Space) is Some,
    ensures
        pos < token(t, pos, CharClass::Space)->0 <= t.len(),
        token(t, pos, CharClass::Space)->0 < t.len() ==> !is_space(
            t[token(t, pos, CharClass::Space)->0],
        ),
        is_space(t[token(t, pos, CharClass::Space)->0 - 1]),
{
    lemma_span(t, pos, CharClass::Space);
    let end = span_end(t, pos, CharClass::Space);
    assert(in_class(CharClass::Space, t[end - 1]));
}

/// What the clauses read from a text are like.
proof fn lemma_clause_list_props(t: Seq<char>, pos: int)
    requires
        0 <= pos <= t.len(),
        pos < t.len() ==> !is_space(t[pos]),
    ensures
        clauses_ok(clause_list(t, pos).0),
        pos <= clause_list(t, pos).1 <= t.len(),
        clause_list(t, pos).0.last().len() > 0 ==> clause_list(t, pos).1 > 0 && clause_list(
            t,
            pos,
        ).0.last().last() == t[clause_list(t, pos).1 - 1],
        clause_list(t, pos).0.len() == 1 && clause_list(t, pos).0[0].len() == 0 ==> clause_list(
            t,
            pos,
        ).1 == pos,
    decreases t.len() - pos,
{
    lemma_span(t, pos, CharClass::Clause);
    let end = span_end(t, pos, CharClass::Clause);
    let first = t.subrange(pos, end);
    lemma_span(t, end, CharClass::Space);
    let comma = span_end(t, end, CharClass::Space);
    let next = span_end(t, comma + 1, CharClass::Space);
    assert forall|j: int| 0 <= j < first.len() implies is_clause_char(#[trigger] first[j]) by {
        assert(first[j] == t[pos + j]);
        assert(in_class(CharClass::Clause, t[pos + j]));
    }
    if first.len() > 0 {
        assert(first[0] == t[pos]);
        assert(first.last() == t[end - 1]);
    }
    if 0 <= pos < next <= t.len() && 0 <= comma < t.len() && t[comma] == ',' {
        lemma_span(t, comma + 1, CharClass::Space);
        lemma_clause_list_props(t, next);
        let (rest, stop) = clause_list(t, next);
        let cs = seq![first] + rest;
        assert(clause_list(t, pos) == (cs, stop));
        assert(cs.last() == rest.last());
        assert forall|i: int, j: int|
            0 <= i < cs.len() && 0 <= j < cs[i].len() implies is_clause_char(
            #[trigger] cs[i][j],
        ) by {
            if i > 0 {
                assert(cs[i] == rest[i - 1]);
                assert(is_clause_char(rest[i - 1][j]));
            } else {
                assert(is_clause_char(first[j]));
            }
        }
        assert forall|i: int| 0 <= i < cs.len() && (#[trigger] cs[i]).len() > 0 implies cs[i][0]
            != ' ' by {
            if i > 0 {
                assert(cs[i] == rest[i - 1]);
            }
        }
    } else {
        let cs = seq![first];
        assert(clause_list(t, pos) == (cs, end));
        assert forall|i: int, j: int|
            0 <= i < cs.len() && 0 <= j < cs[i].len() implies is_clause_char(
            #[trigger] cs[i][j],
        ) by {
            assert(is_clause_char(first[j]));
        }
    }
}

proof fn lemma_contract_canonical(t: Seq<char>, pos: int)
    requires
        0 <= pos <= t.len(),
        contract_at(t, pos) matches Some(found) && found.1 == t.len(),
        t.len() > 0 ==> !is_space(t.last()),
    ensures
        contract_at(t, pos) matches Some(found) && canonical(found.0),
{
    lemma_token_space(t, pos);
    let at1 = token(t, pos, CharClass::Space)->0;
    lemma_token_ident(t, at1);
    let at2 = token(t, at1, CharClass::Ident)->0;
    lemma_token_space(t, at2);
    let at3 = token(t, at2, CharClass::Space)->0;
    lemma_clause_list_props(t, at3);
}

proof fn lemma_idea_canonical(t: Seq<char>, pos: int)
    requires
        0 <= pos <= t.len(),
        idea_at(t, pos) is Some,
    ensures
        idea_at(t, pos) matches Some(found) && canonical(found.0),
{
    lemma_token_space(t, pos);
    let at1 = token(t, pos, CharClass::Space)->0;
    lemma_token_ident(t, at1);
    let at2 = token(t, at1, CharClass::Ident)->0;
    lemma_token_space(t, at2);
    let at3 = token(t, at2, CharClass::Space)->0;
    lemma_span(t, at3 + 1, CharClass::Unquoted);
    let close = span_end(t, at3 + 1, CharClass::Unquoted);
    let text = t.subrange(at3 + 1, close);
    assert forall|i: int| 0 <= i < text.len() implies #[trigger] text[i] != '"' by {
        assert(text[i] == t[at3 + 1 + i]);
        assert(in_class(CharClass::Unquoted, t[at3 + 1 + i]));
    }
}

proof fn lemma_simulate_canonical(t: Seq<char>, pos: int)
    requires
        0 <= pos <= t.len(),
        simulate_at(t, pos) is Some,
    ensures
        simulate_at(t, pos) matches Some(found) && canonical(found.0),
{
    lemma_token_space(t, pos);
    let at1 = token(t, pos, CharClass::Space)->0;
    lemma_token_ident(t, at1);
}

proof fn lemma_orchestrate_canonical(t: Seq<char>, pos: int)
    requires
        0 <= pos <= t.len(),
        orchestrate_at(t, pos) is Some,
    ensures
        orchestrate_at(t, pos) matches Some(found) && canonical(found.0),
{
    lemma_token_space(t, pos);
    let at1 = token(t, pos, CharClass::Space)->0;
    lemma_token_ident(t, at1);
}

proof fn lemma_invoke_canonical(t: Seq<char>, pos: int)
    requires
        0 <= pos <= t.len(),
        invoke_at(t, pos) is Some,
    ensures
        invoke_at(t, pos) matches Some(found) && canonical(found.0),
{
    lemma_token_space(t, pos);
    let at1 = token(t, pos, CharClass::Space)->0;
    lemma_token_ident(t, at1);
    let at2 = token(t, at1, CharClass::Ident)->0;
    lemma_token_space(t, at2);
    let at3 = token(t, at2, CharClass::Space)->0;
    lemma_token_space(t, at3 + "ON"@.len());
    let at4 = keyword(t, at3, "ON"@)->0;
    lemma_token_ident(t, at4);
}

/// Whatever an input reads as is a canonical command.
pub proof fn lemma_parse_is_canonical(input: Seq<char>)
    requires
        spec_parse_command(input) is Ok,
    ensures
        canonical(spec_parse_command(input)->Ok_0),
{
    let t = trimmed(input);
    lemma_trimmed_edges(input);
    if has_at(t, 0, "DEFINE"@) {
        lemma_token_space(t, "DEFINE"@.len() as int);
        let p = keyword(t, 0, "DEFINE"@)->0;
        if has_at(t, p, "CONTRACT"@) {
            lemma_contract_canonical(t, p + "CONTRACT"@.len());
        } else {
            lemma_idea_canonical(t, p + "IDEA"@.len());
        }
    } else if has_at(t, 0, "SIMULATE"@) {
        lemma_token_space(t, "SIMULATE"@.len() as int);
        let p = keyword(t, 0, "SIMULATE"@)->0;
        lemma_simulate_canonical(t, p + "ENTITY"@.len());
    } else if has_at(t, 0, "ORCHESTRATE"@) {
        lemma_orchestrate_canonical(t, "ORCHESTRATE"@.len() as int);
    } else {
        lemma_token_space(t, "INVOKE"@.len() as int);
        let p = keyword(t, 0, "INVOKE"@)->0;
        lemma_invoke_canonical(t, p + "RULESET"@.len());
    }
}

/// Rendering a command to its canonical surface form and reading that
/// back yields the same command: for every command that some input reads
/// as, `parse(render(command)) == command`.
pub proof fn lemma_parse_round_trip(input: Seq<char>)
    requires
        spec_parse(input) is Ok,
    ensures
        spec_parse(spec_render(spec_parse(input)->Ok_0)) == spec_parse(input),
{
    lemma_parse_is_canonical(input);
    lemma_render_parses(spec_parse_command(input)->Ok_0);
}

} // verus!
