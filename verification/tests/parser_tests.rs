use logline::parser::ast::{Command, Imperative, ImperativeKind};
use logline::parser::command::parse_command;
use logline::parser::{parse, Error};

#[test]
fn test_parse_define_contract() {
    let input = "DEFINE CONTRACT contract-123 clause1, clause2";
    let result = parse(input);

    assert!(result.is_ok(), "Parsing falhou para input válido");

    if let Ok(Command::Imperative(Imperative { kind: ImperativeKind::DefineContract { id, clauses } })) = result {
        assert_eq!(id, "contract-123", "ID do contrato incorreto");
        assert_eq!(clauses.len(), 2, "Número incorreto de cláusulas");
        assert_eq!(clauses[0], "clause1", "Primeira cláusula incorreta");
        assert_eq!(clauses[1], "clause2", "Segunda cláusula incorreta");
    } else {
        panic!("Tipo de comando incorreto após parsing");
    }
}

#[test]
fn test_parse_define_idea() {
    let input = "DEFINE IDEA idea-456 \"Esta é uma ideia de teste\"";
    let result = parse(input);

    assert!(result.is_ok(), "Parsing falhou para input válido");

    if let Ok(Command::Imperative(Imperative { kind: ImperativeKind::DefineIdea { id, text } })) = result {
        assert_eq!(id, "idea-456", "ID da ideia incorreto");
        assert_eq!(text, "Esta é uma ideia de teste", "Texto da ideia incorreto");
    } else {
        panic!("Tipo de comando incorreto após parsing");
    }
}

#[test]
fn test_parse_simulate_entity() {
    let input = "SIMULATE ENTITY entity-789 10";
    let result = parse(input);

    assert!(result.is_ok(), "Parsing falhou para input válido");

    if let Ok(Command::Imperative(Imperative { kind: ImperativeKind::SimulateEntity { id, rounds } })) = result {
        assert_eq!(id, "entity-789", "ID da entidade incorreto");
        assert_eq!(rounds, 10, "Número de rodadas incorreto");
    } else {
        panic!("Tipo de comando incorreto após parsing");
    }
}

#[test]
fn test_parse_orchestrate() {
    let input = "ORCHESTRATE parallel";
    let result = parse(input);

    assert!(result.is_ok(), "Parsing falhou para input válido");

    if let Ok(Command::Imperative(Imperative { kind: ImperativeKind::Orchestrate { mode } })) = result {
        assert_eq!(mode, "parallel", "Modo de orquestração incorreto");
    } else {
        panic!("Tipo de comando incorreto após parsing");
    }
}

#[test]
fn test_parse_invoke_ruleset() {
    let input = "INVOKE RULESET basic-check ON entity-123";
    let result = parse(input);

    assert!(result.is_ok(), "Parsing falhou para input válido");

    if let Ok(Command::Imperative(Imperative { kind: ImperativeKind::InvokeRuleset { entity_id, ruleset_id } })) = result {
        assert_eq!(entity_id, "entity-123", "ID da entidade incorreto");
        assert_eq!(ruleset_id, "basic-check", "ID do ruleset incorreto");
    } else {
        panic!("Tipo de comando incorreto após parsing");
    }
}

#[test]
fn test_parse_error_for_invalid_input() {
    let input = "INVALID COMMAND";
    let result = parse(input);

    assert!(result.is_err(), "Parsing deveria falhar para input inválido");
}

#[test]
fn test_parse_with_whitespace() {
    let input = "  DEFINE  IDEA   my-idea    \"Com espaços\"  ";
    let result = parse(input);

    assert!(result.is_ok(), "Parsing falhou para input com espaços extras");

    if let Ok(Command::Imperative(Imperative { kind: ImperativeKind::DefineIdea { id, text } })) = result {
        assert_eq!(id, "my-idea", "ID da ideia incorreto");
        assert_eq!(text, "Com espaços", "Texto da ideia incorreto");
    } else {
        panic!("Tipo de comando incorreto após parsing");
    }
}

fn kind_of(input: &str) -> ImperativeKind {
    match parse(input) {
        Ok(Command::Imperative(imperative)) => imperative.kind,
        Err(Error::Syntax(message)) => panic!("{} is no command: {}", input, message),
    }
}

fn reparsed(kind: ImperativeKind) {
    let command = Command::Imperative(Imperative { kind });
    let text = command.render();
    match parse(&text) {
        Ok(again) => assert_eq!(again, command, "rendered as {:?}", text),
        Err(Error::Syntax(message)) => panic!("{:?} does not parse: {}", text, message),
    }
}

#[test]
fn test_syntax_error_message_is_marked() {
    match parse("INVALID COMMAND") {
        Err(Error::Syntax(message)) => {
            assert_eq!(message, "Erro de sintaxe: Comando não reconhecido");
        }
        Ok(_) => panic!("parsed"),
    }
}

#[test]
fn test_trailing_garbage_is_an_error() {
    match parse_command("ORCHESTRATE parallel now") {
        Err(reason) => {
            assert_eq!(reason, "Entrada não foi totalmente consumida. Restante: ' now'");
        }
        Ok(_) => panic!("parsed"),
    }
    assert!(parse("DEFINE IDEA a \"x\" y").is_err());
    assert!(parse("SIMULATE ENTITY e 5x").is_err());
}

#[test]
fn test_keywords_are_case_sensitive() {
    assert!(parse("define idea a \"x\"").is_err());
    assert!(parse("Orchestrate parallel").is_err());
    assert!(parse("DEFINE idea a \"x\"").is_err());
    assert!(parse("INVOKE RULESET r on e").is_err());
}

#[test]
fn test_identifiers_keep_their_case_and_need_a_character() {
    assert_eq!(
        kind_of("ORCHESTRATE Mixed.Case_9@x-y"),
        ImperativeKind::Orchestrate { mode: "Mixed.Case_9@x-y".to_string() }
    );
    assert!(parse("ORCHESTRATE").is_err());
    assert!(parse("ORCHESTRATE ").is_err());
    assert!(parse("ORCHESTRATE !").is_err());
    assert!(parse("ORCHESTRATEparallel").is_err());
}

#[test]
fn test_whitespace_between_tokens_may_be_any_blank() {
    assert_eq!(
        kind_of("INVOKE\tRULESET\n r1 \r\n ON\t\te1"),
        ImperativeKind::InvokeRuleset { entity_id: "e1".to_string(), ruleset_id: "r1".to_string() }
    );
}

#[test]
fn test_clauses_with_padding_and_empty_clauses() {
    assert_eq!(
        kind_of("DEFINE CONTRACT c1 pay $10 (net) , ship [fast]:now,"),
        ImperativeKind::DefineContract {
            id: "c1".to_string(),
            clauses: vec!["pay $10 (net) ".to_string(), "ship [fast]:now".to_string(), "".to_string()],
        }
    );
    assert_eq!(
        kind_of("DEFINE CONTRACT c1 ,"),
        ImperativeKind::DefineContract { id: "c1".to_string(), clauses: vec!["".to_string(), "".to_string()] }
    );
    assert!(parse("DEFINE CONTRACT c1").is_err());
    assert!(parse("DEFINE CONTRACT c1 a; b").is_err());
}

#[test]
fn test_quoted_text_has_no_escapes() {
    assert_eq!(
        kind_of("DEFINE IDEA i1 \"\""),
        ImperativeKind::DefineIdea { id: "i1".to_string(), text: "".to_string() }
    );
    assert_eq!(
        kind_of("DEFINE IDEA i1 \"a\\b, c\td\""),
        ImperativeKind::DefineIdea { id: "i1".to_string(), text: "a\\b, c\td".to_string() }
    );
    assert!(parse("DEFINE IDEA i1 \"open").is_err());
    assert!(parse("DEFINE IDEA i1 \"a\"b\"").is_err());
    assert!(parse("DEFINE IDEA i1 text").is_err());
}

#[test]
fn test_rounds_are_decimal_numbers_that_fit() {
    assert_eq!(
        kind_of("SIMULATE ENTITY e 007"),
        ImperativeKind::SimulateEntity { id: "e".to_string(), rounds: 7 }
    );
    assert_eq!(
        kind_of("SIMULATE ENTITY e 0"),
        ImperativeKind::SimulateEntity { id: "e".to_string(), rounds: 0 }
    );
    assert_eq!(
        kind_of(&format!("SIMULATE ENTITY e {}", usize::MAX)),
        ImperativeKind::SimulateEntity { id: "e".to_string(), rounds: usize::MAX }
    );
    assert!(parse("SIMULATE ENTITY e 340282366920938463463374607431768211456").is_err());
    assert!(parse("SIMULATE ENTITY e -1").is_err());
    assert!(parse("SIMULATE ENTITY e").is_err());
}

#[test]
fn test_render_gives_the_canonical_form() {
    let contract = Imperative {
        kind: ImperativeKind::DefineContract {
            id: "c1".to_string(),
            clauses: vec!["a".to_string(), "b c".to_string()],
        },
    };
    assert_eq!(contract.render(), "DEFINE CONTRACT c1 a, b c");
    let idea = Imperative {
        kind: ImperativeKind::DefineIdea { id: "i1".to_string(), text: "uma ideia".to_string() },
    };
    assert_eq!(idea.render(), "DEFINE IDEA i1 \"uma ideia\"");
    let simulate = Imperative { kind: ImperativeKind::SimulateEntity { id: "e".to_string(), rounds: 120 } };
    assert_eq!(simulate.render(), "SIMULATE ENTITY e 120");
    let orchestrate = Imperative { kind: ImperativeKind::Orchestrate { mode: "parallel".to_string() } };
    assert_eq!(orchestrate.render(), "ORCHESTRATE parallel");
    let invoke = Imperative {
        kind: ImperativeKind::InvokeRuleset { entity_id: "e1".to_string(), ruleset_id: "r1".to_string() },
    };
    assert_eq!(invoke.render(), "INVOKE RULESET r1 ON e1");
}

#[test]
fn test_parse_round_trip() {
    reparsed(kind_of("DEFINE CONTRACT contract-123 clause1, clause2"));
    reparsed(kind_of("DEFINE CONTRACT c a ,b,  , d e ,"));
    reparsed(kind_of("DEFINE CONTRACT c ,"));
    reparsed(kind_of("  DEFINE  IDEA   my-idea    \"Com espaços\"  "));
    reparsed(kind_of("DEFINE IDEA i \"\""));
    reparsed(kind_of("SIMULATE ENTITY entity-789 0010"));
    reparsed(kind_of(&format!("SIMULATE ENTITY e {}", usize::MAX)));
    reparsed(kind_of("ORCHESTRATE sequential"));
    reparsed(kind_of("INVOKE RULESET basic-check ON entity-123"));
}

#[test]
fn test_kind_names() {
    assert_eq!(kind_of("ORCHESTRATE x").name(), "Orchestrate");
    assert_eq!(kind_of("DEFINE IDEA a \"b\"").name(), "DefineIdea");
    assert_eq!(kind_of("DEFINE CONTRACT a b").name(), "DefineContract");
    assert_eq!(kind_of("SIMULATE ENTITY a 1").name(), "SimulateEntity");
    assert_eq!(kind_of("INVOKE RULESET a ON b").name(), "InvokeRuleset");
}
