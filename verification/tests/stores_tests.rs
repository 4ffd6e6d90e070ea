use logline::contracts::{create_contract, get_contract, list_contracts, update_contract, ContractStore};
use logline::ideas::{add_tags, create_idea, get_idea, list_ideas, remove_idea, update_idea, IdeaStore};
use logline::registry::{
    fetch_entity, list_entities_by_type, register_entity, remove_entity, Registry, RegistryError,
};

#[test]
fn test_create_and_get_contract() {
    let mut store = ContractStore::new();
    let id = format!("contract-test-{}", uuid::Uuid::new_v4());
    let clauses = vec![
        "Cláusula 1: Termos gerais".to_string(),
        "Cláusula 2: Condições específicas".to_string(),
    ];

    let create_result = create_contract(&mut store, &id, &clauses);
    assert!(create_result.is_ok(), "Falha ao criar contrato");

    let get_result = get_contract(&store, &id);
    assert!(get_result.is_ok(), "Falha ao buscar contrato");

    if let Ok((contract_id, contract_clauses, _created_at)) = get_result {
        assert_eq!(contract_id, id, "ID do contrato não corresponde");
        assert_eq!(contract_clauses.len(), 2, "Número incorreto de cláusulas");
        assert_eq!(contract_clauses[0], clauses[0], "Cláusula 1 não corresponde");
        assert_eq!(contract_clauses[1], clauses[1], "Cláusula 2 não corresponde");
    }
}

#[test]
fn test_create_duplicate_contract() {
    let mut store = ContractStore::new();
    let id = format!("contract-duplicate-{}", uuid::Uuid::new_v4());
    let clauses = vec!["Teste de duplicação".to_string()];

    let result1 = create_contract(&mut store, &id, &clauses);
    assert!(result1.is_ok(), "Primeira criação deveria ter sucesso");

    let result2 = create_contract(&mut store, &id, &clauses);
    assert!(result2.is_err(), "Segunda criação com mesmo ID deveria falhar");

    if let Err(e) = result2 {
        assert!(e.message().contains("já existe"), "Mensagem de erro não indica duplicação");
    }
}

#[test]
fn test_list_contracts() {
    let mut store = ContractStore::new();
    let id = format!("contract-list-{}", uuid::Uuid::new_v4());
    let clauses = vec!["Teste de listagem".to_string()];

    create_contract(&mut store, &id, &clauses).unwrap();

    let list_result = list_contracts(&store);
    assert!(list_result.is_ok(), "Falha ao listar contratos");

    if let Ok(contracts) = list_result {
        assert!(contracts.contains(&id), "Contrato criado não está na lista");
    }
}

#[test]
fn test_update_contract() {
    let mut store = ContractStore::new();
    let id = format!("contract-update-{}", uuid::Uuid::new_v4());
    let clauses_original = vec!["Cláusula original".to_string()];

    create_contract(&mut store, &id, &clauses_original).unwrap();

    let clauses_updated = vec![
        "Cláusula atualizada 1".to_string(),
        "Cláusula atualizada 2".to_string(),
    ];

    let update_result = update_contract(&mut store, &id, &clauses_updated);
    assert!(update_result.is_ok(), "Falha ao atualizar contrato");

    let get_result = get_contract(&store, &id);
    assert!(get_result.is_ok(), "Falha ao buscar contrato atualizado");

    if let Ok((_, contract_clauses, _)) = get_result {
        assert_eq!(contract_clauses.len(), 2, "Número incorreto de cláusulas após atualização");
        assert_eq!(contract_clauses[0], clauses_updated[0], "Cláusula 1 não foi atualizada");
        assert_eq!(contract_clauses[1], clauses_updated[1], "Cláusula 2 não foi atualizada");
    }
}

#[test]
fn test_contract_errors_and_order() {
    let mut store = ContractStore::new();
    let clauses = vec!["a".to_string()];
    assert_eq!(
        update_contract(&mut store, "missing", &clauses).unwrap_err().message(),
        "Contrato com ID 'missing' não encontrado"
    );
    assert_eq!(
        get_contract(&store, "missing").unwrap_err().message(),
        "Contrato com ID 'missing' não encontrado"
    );
    create_contract(&mut store, "b", &clauses).unwrap();
    create_contract(&mut store, "a", &clauses).unwrap();
    assert_eq!(
        create_contract(&mut store, "b", &clauses).unwrap_err().message(),
        "Contrato com ID 'b' já existe"
    );
    assert_eq!(list_contracts(&store).unwrap(), vec!["b".to_string(), "a".to_string()]);
    let created = get_contract(&store, "b").unwrap().2;
    update_contract(&mut store, "b", &vec!["x".to_string()]).unwrap();
    assert_eq!(get_contract(&store, "b").unwrap().2, created);
    assert_eq!(list_contracts(&store).unwrap(), vec!["b".to_string(), "a".to_string()]);
}

#[test]
fn test_create_and_get_idea() {
    let mut store = IdeaStore::new();
    let id = format!("idea-test-{}", uuid::Uuid::new_v4());
    let text = "Esta é uma ideia de teste";

    let create_result = create_idea(&mut store, &id, text);
    assert!(create_result.is_ok(), "Falha ao criar ideia");

    let get_result = get_idea(&store, &id);
    assert!(get_result.is_ok(), "Falha ao buscar ideia");

    if let Ok((idea_id, idea_text, _created_at)) = get_result {
        assert_eq!(idea_id, id, "ID da ideia não corresponde");
        assert_eq!(idea_text, text, "Texto da ideia não corresponde");
    }
}

#[test]
fn test_create_duplicate_idea() {
    let mut store = IdeaStore::new();
    let id = format!("idea-duplicate-{}", uuid::Uuid::new_v4());
    let text = "Teste de duplicação";

    let result1 = create_idea(&mut store, &id, text);
    assert!(result1.is_ok(), "Primeira criação deveria ter sucesso");

    let result2 = create_idea(&mut store, &id, text);
    assert!(result2.is_err(), "Segunda criação com mesmo ID deveria falhar");

    if let Err(e) = result2 {
        assert!(e.message().contains("já existe"), "Mensagem de erro não indica duplicação");
    }
}

#[test]
fn test_list_ideas() {
    let mut store = IdeaStore::new();
    let id = format!("idea-list-{}", uuid::Uuid::new_v4());
    let text = "Teste de listagem";

    create_idea(&mut store, &id, text).unwrap();

    let list_result = list_ideas(&store);
    assert!(list_result.is_ok(), "Falha ao listar ideias");

    if let Ok(ideas) = list_result {
        assert!(ideas.contains(&id), "Ideia criada não está na lista");
    }
}

#[test]
fn test_update_idea() {
    let mut store = IdeaStore::new();
    let id = format!("idea-update-{}", uuid::Uuid::new_v4());
    let original_text = "Texto original";
    let updated_text = "Texto atualizado";

    create_idea(&mut store, &id, original_text).unwrap();

    let update_result = update_idea(&mut store, &id, updated_text);
    assert!(update_result.is_ok(), "Falha ao atualizar ideia");

    let get_result = get_idea(&store, &id);

    if let Ok((_, idea_text, _)) = get_result {
        assert_eq!(idea_text, updated_text, "Texto da ideia não foi atualizado");
    }
}

#[test]
fn test_remove_idea() {
    let mut store = IdeaStore::new();
    let id = format!("idea-remove-{}", uuid::Uuid::new_v4());
    let text = "Ideia para remoção";

    create_idea(&mut store, &id, text).unwrap();

    let remove_result = remove_idea(&mut store, &id);
    assert!(remove_result.is_ok(), "Falha ao remover ideia");

    let get_result = get_idea(&store, &id);
    assert!(get_result.is_err(), "A ideia deveria ter sido removida");
}

#[test]
fn test_idea_tags_and_errors() {
    let mut store = IdeaStore::new();
    create_idea(&mut store, "i", "texto").unwrap();
    add_tags(&mut store, "i", &vec!["a".to_string(), "b".to_string(), "a".to_string()]).unwrap();
    add_tags(&mut store, "i", &vec!["b".to_string(), "c".to_string()]).unwrap();
    let idea = store.ideas.get("i").unwrap();
    assert_eq!(idea.tags, vec!["a".to_string(), "b".to_string(), "c".to_string()]);
    assert_eq!(idea.text, "texto");
    update_idea(&mut store, "i", "outro").unwrap();
    assert_eq!(store.ideas.get("i").unwrap().tags.len(), 3);
    assert_eq!(
        add_tags(&mut store, "x", &vec![]).unwrap_err().message(),
        "Ideia com ID 'x' não encontrada"
    );
    assert_eq!(remove_idea(&mut store, "x").unwrap_err().message(), "Ideia com ID 'x' não encontrada");
    assert_eq!(update_idea(&mut store, "x", "t").unwrap_err().message(), "Ideia com ID 'x' não encontrada");
    assert_eq!(create_idea(&mut store, "i", "t").unwrap_err().message(), "Ideia com ID 'i' já existe");
    assert_eq!(list_ideas(&store).unwrap(), vec!["i".to_string()]);
}

#[test]
fn test_register_and_fetch_entity() {
    let mut registry = Registry::new();
    let id = "test-entity-1";
    let entity_type = "TEST";

    let result = register_entity(&mut registry, id, entity_type);
    assert!(result.is_ok());
    assert_eq!(result.unwrap(), id);

    let entity = fetch_entity(&registry, id);
    assert!(entity.is_ok());

    let (fetched_id, fetched_type) = entity.unwrap();
    assert_eq!(fetched_id, id);
    assert_eq!(fetched_type, entity_type);
}

#[test]
fn test_list_entities_by_type() {
    let mut registry = Registry::new();
    register_entity(&mut registry, "list-test-1", "TYPE_A").unwrap();
    register_entity(&mut registry, "list-test-2", "TYPE_B").unwrap();
    register_entity(&mut registry, "list-test-3", "TYPE_A").unwrap();

    let type_a_entities = list_entities_by_type(&registry, "TYPE_A").unwrap();

    assert!(type_a_entities.contains(&"list-test-1".to_string()));
    assert!(type_a_entities.contains(&"list-test-3".to_string()));
    assert_eq!(type_a_entities.len(), 2);

    let type_b_entities = list_entities_by_type(&registry, "TYPE_B").unwrap();

    assert!(type_b_entities.contains(&"list-test-2".to_string()));
    assert_eq!(type_b_entities.len(), 1);
}

#[test]
fn test_remove_entity() {
    let mut registry = Registry::new();
    let id = "remove-test";
    register_entity(&mut registry, id, "TEMPORARY").unwrap();

    let exists = fetch_entity(&registry, id).is_ok();
    assert!(exists, "A entidade deveria existir antes da remoção");

    let removed = remove_entity(&mut registry, id).unwrap();
    assert!(removed, "A remoção deveria ser bem-sucedida");

    let not_exists = fetch_entity(&registry, id).is_err();
    assert!(not_exists, "A entidade não deveria existir após a remoção");

    let not_removed = !remove_entity(&mut registry, id).unwrap();
    assert!(not_removed, "A segunda tentativa de remoção deveria falhar");
}

#[test]
fn test_registry_uniqueness() {
    let mut registry = Registry::new();
    register_entity(&mut registry, "a", "X").unwrap();
    register_entity(&mut registry, "b", "X").unwrap();
    register_entity(&mut registry, "a", "Y").unwrap();
    remove_entity(&mut registry, "b").unwrap();
    register_entity(&mut registry, "b", "Y").unwrap();
    register_entity(&mut registry, "c", "x").unwrap();
    assert_eq!(registry.entities.len(), 3);
    assert_eq!(fetch_entity(&registry, "a").unwrap(), ("a".to_string(), "Y".to_string()));
    assert_eq!(list_entities_by_type(&registry, "X").unwrap(), Vec::<String>::new());
    assert_eq!(
        list_entities_by_type(&registry, "Y").unwrap(),
        vec!["a".to_string(), "b".to_string()]
    );
    assert_eq!(list_entities_by_type(&registry, "x").unwrap(), vec!["c".to_string()]);
    match fetch_entity(&registry, "zz") {
        Err(RegistryError::NotFound(id)) => assert_eq!(id, "zz"),
        Ok(_) => panic!("found"),
    }
    assert_eq!(
        fetch_entity(&registry, "zz").unwrap_err().message(),
        "Entidade não encontrada: zz"
    );
}
