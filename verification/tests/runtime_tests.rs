use logline::events::EventKind;
use logline::registry::register_entity;
use logline::rules::Verdict;
use logline::runtime::{command_json, hook_payload, veto_decision, Runtime, RuntimeError};

fn fresh() -> Runtime {
    Runtime::new("./plugins", 4)
}

#[test]
fn test_runtime_initialization() {
    let mut runtime = fresh();
    runtime.timeline.clear_timeline();

    runtime.init();

    let events = runtime.timeline.list_events();
    assert!(!events.is_empty(), "A timeline deve conter pelo menos um evento");

    let lifecycle_events = runtime.timeline.find_events_by_kind("RuntimeLifecycle");
    assert_eq!(lifecycle_events.len(), 1, "Deve haver exatamente um evento de ciclo de vida");

    if let EventKind::RuntimeLifecycle { status } = &lifecycle_events[0].kind {
        assert_eq!(status, "initialized", "O status deve ser 'initialized'");
    } else {
        panic!("Evento de tipo incorreto");
    }
}

#[test]
fn test_process_command_idea() {
    let mut runtime = fresh();
    runtime.timeline.clear_timeline();

    let cmd = "DEFINE IDEA id001 \"Minha ideia de teste\"";
    let result = runtime.process_command(cmd).unwrap();

    assert!(result.contains("Ideia registrada"), "A resposta deve indicar que a ideia foi registrada");

    let events = runtime.timeline.find_events_by_kind("IdeaRegistered");
    assert_eq!(events.len(), 1, "Deve haver exatamente um evento de ideia registrada");

    if let EventKind::IdeaRegistered { id } = &events[0].kind {
        assert_eq!(id, "id001", "O ID da ideia deve ser 'id001'");
    } else {
        panic!("Evento de tipo incorreto");
    }
}

#[test]
fn test_process_command_simulation() {
    let mut runtime = fresh();
    runtime.timeline.clear_timeline();

    let cmd = "SIMULATE ENTITY test_entity 5";
    let result = runtime.process_command(cmd).unwrap();

    assert!(result.contains("Simulação"), "A resposta deve indicar que a simulação foi concluída");
    assert!(result.contains("5 rodadas"), "A resposta deve mencionar 5 rodadas");

    let events = runtime.timeline.find_events_by_kind("SimulationCompleted");
    assert_eq!(events.len(), 1, "Deve haver exatamente um evento de simulação concluída");

    if let EventKind::SimulationCompleted { id, rounds } = &events[0].kind {
        assert_eq!(id, "test_entity", "O ID da entidade deve ser 'test_entity'");
        assert_eq!(*rounds, 5, "O número de rodadas deve ser 5");
    } else {
        panic!("Evento de tipo incorreto");
    }
}

#[test]
fn test_process_command_syntax_error() {
    let mut runtime = fresh();
    runtime.timeline.clear_timeline();

    let cmd = "INVALID COMMAND";
    let result = runtime.process_command(cmd);

    assert!(result.is_err(), "O processamento deve falhar com erro de sintaxe");

    let events = runtime.timeline.find_events_by_kind("ErrorOccurred");
    assert_eq!(events.len(), 1, "Deve haver exatamente um evento de erro");

    if let EventKind::ErrorOccurred { context, .. } = &events[0].kind {
        assert_eq!(context, "parsing", "O contexto do erro deve ser 'parsing'");
    } else {
        panic!("Evento de tipo incorreto");
    }
}

fn kinds(runtime: &Runtime) -> Vec<String> {
    runtime.timeline.list_events().iter().map(|e| e.kind.to_json()).collect()
}

#[test]
fn test_define_idea_result_and_events() {
    let mut runtime = fresh();
    assert_eq!(
        runtime.process_command("DEFINE IDEA id001 \"Minha ideia de teste\"").unwrap(),
        "Ideia registrada: id001"
    );
    assert_eq!(
        kinds(&runtime),
        vec![
            "{\"kind\":\"IdeaRegistered\",\"id\":\"id001\"}".to_string(),
            "{\"kind\":\"ImperativeExecuted\",\"imperative\":\"DefineIdea\"}".to_string(),
        ]
    );
    assert_eq!(runtime.ideas.ideas.get("id001").unwrap().text, "Minha ideia de teste");
}

#[test]
fn test_define_contract_twice() {
    let mut runtime = fresh();
    assert_eq!(
        runtime.process_command("DEFINE CONTRACT c1 clause1, clause2").unwrap(),
        "Contrato registrado: c1"
    );
    match runtime.process_command("DEFINE CONTRACT c1 clause1, clause2") {
        Err(RuntimeError::Validation(message)) => {
            assert_eq!(message, "Contrato com ID 'c1' já existe");
        }
        other => panic!("{:?}", other),
    }
    assert_eq!(runtime.timeline.find_events_by_kind("ContractRegistered").len(), 1);
    let errors = runtime.timeline.find_events_by_kind("ErrorOccurred");
    assert_eq!(errors.len(), 1);
    match &errors[0].kind {
        EventKind::ErrorOccurred { context, message } => {
            assert_eq!(context, "validation");
            assert_eq!(message, "Contrato com ID 'c1' já existe");
        }
        _ => panic!("wrong kind"),
    }
    assert_eq!(runtime.timeline.find_events_by_kind("ImperativeExecuted").len(), 1);
    assert_eq!(
        runtime.contracts.contracts.get("c1").unwrap().clauses,
        vec!["clause1".to_string(), "clause2".to_string()]
    );
    match runtime.process_command("DEFINE IDEA i1 \"x\"").and(runtime.process_command("DEFINE IDEA i1 \"y\"")) {
        Err(RuntimeError::Validation(message)) => assert_eq!(message, "Ideia com ID 'i1' já existe"),
        other => panic!("{:?}", other),
    }
}

#[test]
fn test_orchestrate_concurrency() {
    let mut runtime = fresh();
    assert_eq!(runtime.concurrency("parallel"), 4);
    assert_eq!(runtime.concurrency("sequential"), 1);
    assert_eq!(runtime.concurrency("other"), 1);
    assert_eq!(Runtime::new("p", 0).concurrency("parallel"), 1);
    assert_eq!(
        runtime.process_command("ORCHESTRATE parallel").unwrap(),
        "Orquestração concluída: parallel"
    );
    let events = runtime.timeline.list_events();
    assert_eq!(events.len(), 3);
    match &events[0].kind {
        EventKind::OrchestrationStarted { mode, concurrency } => {
            assert_eq!(mode, "parallel");
            assert_eq!(*concurrency, 4);
        }
        _ => panic!("wrong kind"),
    }
    match &events[1].kind {
        EventKind::OrchestrationCompleted { mode, concurrency, .. } => {
            assert_eq!(mode, "parallel");
            assert_eq!(*concurrency, 4);
        }
        _ => panic!("wrong kind"),
    }
    assert_eq!(events[2].kind.to_json(), "{\"kind\":\"ImperativeExecuted\",\"imperative\":\"Orchestrate\"}");
}

#[test]
fn test_invoke_ruleset_on_known_and_unknown_entities() {
    let mut runtime = fresh();
    runtime.process_command("DEFINE IDEA i1 \"an important idea\"").unwrap();
    runtime.process_command("DEFINE IDEA i2 \"a dull idea\"").unwrap();
    runtime.process_command("DEFINE CONTRACT c1 pay, important clause").unwrap();
    register_entity(&mut runtime.registry, "e1", "TEST").unwrap();
    assert_eq!(
        runtime.process_command("INVOKE RULESET basic-check ON i1").unwrap(),
        "Veredito de basic-check: Accepted"
    );
    assert_eq!(
        runtime.process_command("INVOKE RULESET basic-check ON i2").unwrap(),
        "Veredito de basic-check: Rejected"
    );
    assert_eq!(
        runtime.process_command("INVOKE RULESET basic-check ON c1").unwrap(),
        "Veredito de basic-check: Accepted"
    );
    assert_eq!(
        runtime.process_command("INVOKE RULESET basic-check ON e1").unwrap(),
        "Veredito de basic-check: Rejected"
    );
    assert_eq!(
        runtime.process_command("INVOKE RULESET unknown-rules ON e1").unwrap(),
        "Veredito de unknown-rules: Accepted"
    );
    match runtime.process_command("INVOKE RULESET always-accept ON nobody") {
        Err(RuntimeError::Validation(message)) => assert_eq!(message, "Entidade não encontrada: nobody"),
        other => panic!("{:?}", other),
    }
    let verdicts = runtime.timeline.find_events_by_kind("RuleVerdict");
    assert_eq!(verdicts.len(), 5);
    match &verdicts[1].kind {
        EventKind::RuleVerdict { rule, verdict } => {
            assert_eq!(rule, "basic-check");
            assert_eq!(*verdict, Verdict::Rejected);
        }
        _ => panic!("wrong kind"),
    }
    assert_eq!(runtime.entity_content("c1").unwrap(), "pay, important clause");
    assert_eq!(runtime.entity_content("e1").unwrap(), "");
    assert!(runtime.entity_content("nobody").is_none());
}

#[test]
fn test_simulation_uses_the_scenario_of_the_type() {
    let mut runtime = fresh();
    runtime.process_command("DEFINE CONTRACT c1 a").unwrap();
    register_entity(&mut runtime.registry, "e1", "idea").unwrap();
    assert_eq!(runtime.entity_type("c1"), "CONTRACT");
    assert_eq!(runtime.entity_type("e1"), "idea");
    assert_eq!(runtime.entity_type("nobody"), "");
    assert_eq!(
        runtime.process_command("SIMULATE ENTITY c1 3").unwrap(),
        "Simulação concluída para c1: 3 rodadas"
    );
    assert_eq!(runtime.simulations.results.len(), 3);
    for (i, result) in runtime.simulations.results.iter().enumerate() {
        assert_eq!(result.round, i + 1);
        assert_eq!(result.entity_id, "c1");
        let rate = *result.metrics.get("success_rate").unwrap();
        assert!(rate >= 500000 && rate < 1000000);
    }
    assert_eq!(runtime.process_command("SIMULATE ENTITY c1 0").unwrap(), "Simulação concluída para c1: 0 rodadas");
}

#[test]
fn test_lifecycle() {
    let mut runtime = fresh();
    runtime.init();
    runtime.shutdown();
    assert_eq!(
        kinds(&runtime),
        vec![
            "{\"kind\":\"RuntimeLifecycle\",\"status\":\"initialized\"}".to_string(),
            "{\"kind\":\"RuntimeLifecycle\",\"status\":\"shutting_down\"}".to_string(),
        ]
    );
}

#[test]
fn test_error_contexts() {
    assert_eq!(RuntimeError::Syntax("m".to_string()).context(), "parsing");
    assert_eq!(RuntimeError::Validation("m".to_string()).context(), "validation");
    assert_eq!(RuntimeError::Veto("m".to_string()).context(), "plugin_veto");
    assert_eq!(RuntimeError::Veto("because".to_string()).message(), "because");
}

#[test]
fn test_hook_payload() {
    let command = logline::parser::parse("DEFINE CONTRACT c1 a \"b, c").err();
    assert!(command.is_some());
    let command = logline::parser::parse("DEFINE CONTRACT c1 a, b").unwrap();
    assert_eq!(
        command_json(&command),
        "{\"kind\":\"DefineContract\",\"id\":\"c1\",\"clauses\":[\"a\",\"b\"]}"
    );
    assert_eq!(
        hook_payload(&command),
        "{\"command\":{\"kind\":\"DefineContract\",\"id\":\"c1\",\"clauses\":[\"a\",\"b\"]}}"
    );
    let simulate = logline::parser::parse("SIMULATE ENTITY e 12").unwrap();
    assert_eq!(command_json(&simulate), "{\"kind\":\"SimulateEntity\",\"id\":\"e\",\"rounds\":12}");
    let invoke = logline::parser::parse("INVOKE RULESET r ON e").unwrap();
    assert_eq!(
        command_json(&invoke),
        "{\"kind\":\"InvokeRuleset\",\"ruleset_id\":\"r\",\"entity_id\":\"e\"}"
    );
    let idea = logline::parser::parse("DEFINE IDEA i \"dito \\ e feito\"").unwrap();
    assert_eq!(
        command_json(&idea),
        "{\"kind\":\"DefineIdea\",\"id\":\"i\",\"text\":\"dito \\\\ e feito\"}"
    );
    let orchestrate = logline::parser::parse("ORCHESTRATE m").unwrap();
    assert_eq!(command_json(&orchestrate), "{\"kind\":\"Orchestrate\",\"mode\":\"m\"}");
}

#[test]
fn test_veto_decision() {
    assert_eq!(veto_decision(Some(true), Some("no".to_string())), Some("no".to_string()));
    assert_eq!(veto_decision(Some(true), None), Some("".to_string()));
    assert_eq!(veto_decision(Some(false), Some("no".to_string())), None);
    assert_eq!(veto_decision(None, Some("no".to_string())), None);
}
