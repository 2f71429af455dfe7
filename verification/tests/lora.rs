use vllm_server::lora::EngineCall;
use vllm_server::lora::EngineFailure;
use vllm_server::lora::LoadLoraError;
use vllm_server::lora::LoadStep;
use vllm_server::lora::LoraManager;
use vllm_server::lora::UnloadLoraError;
use vllm_server::lora::UnloadStep;
use vllm_server::protocol::lora::LoraRequest;

fn base() -> Vec<String> {
    vec!["base".to_string()]
}

fn load(manager: &mut LoraManager, name: &str, path: &str, inplace: bool) -> LoadStep {
    let pending = manager
        .load_lora(&base(), name.to_string(), path.to_string(), inplace, false)
        .ok()
        .expect("load may begin");
    manager.apply_load(pending, Ok(vec![true, true]))
}

fn names(manager: &LoraManager) -> Vec<String> {
    manager.served_lora_requests().into_iter().map(|request| request.lora_name).collect()
}

fn failed() -> EngineFailure {
    EngineFailure::Failed { report: "engine gone".to_string() }
}

fn timed_out() -> EngineFailure {
    EngineFailure::TimedOut { report: "timeout".to_string() }
}

#[test]
fn loaded_adapters_are_served_in_load_order() {
    let mut manager = LoraManager::new();
    for name in ["b", "a", "c"] {
        assert!(matches!(load(&mut manager, name, "/p", false), LoadStep::Loaded(_)));
    }
    assert_eq!(names(&manager), ["b", "a", "c"]);
    let ids: Vec<u64> =
        manager.served_lora_requests().iter().map(|request| request.lora_int_id).collect();
    assert_eq!(ids, [1, 2, 3]);
    let resolution = manager.resolve_model(&base(), Some("a"));
    assert_eq!(resolution.model_names, ["base", "b", "a", "c"]);
    assert_eq!(resolution.lora_request.unwrap().lora_int_id, 2);
    assert!(manager.resolve_model(&base(), Some("base")).lora_request.is_none());
    assert!(manager.resolve_model(&base(), None).lora_request.is_none());
}

#[test]
fn replacement_keeps_place_and_id() {
    let mut manager = LoraManager::new();
    load(&mut manager, "a", "/one", false);
    load(&mut manager, "b", "/two", false);
    assert!(matches!(load(&mut manager, "a", "/three", true), LoadStep::Loaded(_)));
    assert_eq!(names(&manager), ["a", "b"]);
    let served = manager.served_lora_requests();
    assert_eq!(served[0].lora_path, "/three");
    assert_eq!(served[0].lora_int_id, 1);
    load(&mut manager, "c", "/four", false);
    assert_eq!(manager.served_lora_requests()[2].lora_int_id, 3);
}

#[test]
fn names_that_are_taken_are_refused() {
    let mut manager = LoraManager::new();
    load(&mut manager, "a", "/one", false);
    assert!(matches!(
        manager.load_lora(&base(), "a".to_string(), "/x".to_string(), false, false),
        Err(LoadLoraError::AlreadyLoaded { lora_name }) if lora_name == "a"
    ));
    assert!(matches!(
        manager.load_lora(&base(), "base".to_string(), "/x".to_string(), true, false),
        Err(LoadLoraError::BaseModelName { lora_name }) if lora_name == "base"
    ));
}

#[test]
fn rejected_load_is_rolled_back() {
    let mut manager = LoraManager::new();
    let pending = manager
        .load_lora(&base(), "a".to_string(), "/a".to_string(), false, false)
        .ok()
        .unwrap();
    let LoadStep::Rollback(rollback) = manager.apply_load(pending, Ok(vec![true, false])) else {
        panic!("expected a rollback")
    };
    assert!(matches!(rollback.call, EngineCall::RemoveLora(1)));
    let error = manager.finish_load_rollback(rollback, Ok(vec![true, false]));
    assert!(matches!(error, LoadLoraError::NotLoaded { lora_name } if lora_name == "a"));
    assert!(manager.is_consistent());
    assert!(names(&manager).is_empty());
}

#[test]
fn rejected_replacement_restores_the_old_adapter() {
    let mut manager = LoraManager::new();
    load(&mut manager, "a", "/old", false);
    let pending = manager
        .load_lora(&base(), "a".to_string(), "/new".to_string(), true, false)
        .ok()
        .unwrap();
    let LoadStep::Rollback(rollback) = manager.apply_load(pending, Err(failed())) else {
        panic!("expected a rollback")
    };
    match &rollback.call {
        EngineCall::AddLora(request) => {
            assert_eq!(request.lora_path, "/old");
            assert!(request.load_inplace);
        }
        _ => panic!("expected the old adapter"),
    }
    let error = manager.finish_load_rollback(rollback, Ok(vec![true, false]));
    assert!(matches!(error, LoadLoraError::Engine(_)));
    assert!(!manager.is_consistent());
    assert_eq!(manager.served_lora_requests()[0].lora_path, "/old");
}

#[test]
fn late_load_leaves_the_registry_inconsistent() {
    let mut manager = LoraManager::new();
    let pending = manager
        .load_lora(&base(), "a".to_string(), "/a".to_string(), false, false)
        .ok()
        .unwrap();
    let LoadStep::Rollback(rollback) = manager.apply_load(pending, Err(timed_out())) else {
        panic!("expected a rollback")
    };
    assert!(rollback.late);
    manager.finish_load_rollback(rollback, Ok(vec![true, true]));
    assert!(!manager.is_consistent());
    assert!(matches!(
        manager.load_lora(&base(), "b".to_string(), "/b".to_string(), false, false),
        Err(LoadLoraError::Inconsistent)
    ));
    assert!(matches!(manager.unload_lora("a", None), Err(UnloadLoraError::Inconsistent)));
}

#[test]
fn abandoned_change_leaves_the_registry_inconsistent() {
    let mut manager = LoraManager::new();
    let pending = manager
        .load_lora(&base(), "a".to_string(), "/a".to_string(), false, false)
        .ok()
        .unwrap();
    manager.settle(pending.mutation);
    assert!(!manager.is_consistent());
}

#[test]
fn unload_takes_the_adapter_out() {
    let mut manager = LoraManager::new();
    load(&mut manager, "a", "/a", false);
    load(&mut manager, "b", "/b", false);
    load(&mut manager, "c", "/c", false);
    assert!(matches!(
        manager.unload_lora("x", None),
        Err(UnloadLoraError::NotFound { lora_name }) if lora_name == "x"
    ));
    assert!(matches!(
        manager.unload_lora("b", Some(9)),
        Err(UnloadLoraError::IntIdMismatch { expected: 2, actual: 9, .. })
    ));
    let pending = manager.unload_lora("b", Some(2)).ok().unwrap();
    let UnloadStep::Unloaded(request) = manager.apply_unload(pending, Ok(vec![true, false])) else {
        panic!("expected the adapter")
    };
    assert_eq!(request.lora_name, "b");
    assert_eq!(names(&manager), ["a", "c"]);
    assert!(manager.is_consistent());
}

#[test]
fn failed_unload_is_rolled_back() {
    let mut manager = LoraManager::new();
    load(&mut manager, "a", "/a", false);
    let pending = manager.unload_lora("a", None).ok().unwrap();
    let UnloadStep::Rollback(rollback) = manager.apply_unload(pending, Err(failed())) else {
        panic!("expected a rollback")
    };
    assert_eq!(rollback.request.lora_name, "a");
    let error = manager.finish_unload_rollback(rollback, Ok(vec![true, true]));
    assert!(matches!(error, UnloadLoraError::Engine(_)));
    assert!(manager.is_consistent());
    assert_eq!(names(&manager), ["a"]);
}

#[test]
fn descriptors_are_checked() {
    let request = LoraRequest {
        lora_name: "a".to_string(),
        lora_int_id: 1,
        lora_path: "/a".to_string(),
        base_model_name: None,
        tensorizer_config_dict: None,
        load_inplace: false,
        is_3d_lora_weight: false,
    };
    assert!(request.validate().is_ok());
    assert!(request.equals(&request.clone()));
    let unnamed = LoraRequest { lora_name: String::new(), ..request.clone() };
    assert_eq!(unnamed.validate(), Err("lora_name is required"));
    let unnumbered = LoraRequest { lora_int_id: 0, ..request.clone() };
    assert!(unnumbered.validate().is_err());
    let nowhere = LoraRequest { lora_path: String::new(), ..request.clone() };
    assert_eq!(nowhere.validate(), Err("lora_path is required"));
    assert!(!nowhere.equals(&request));
}
