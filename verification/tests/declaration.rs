use rtic_scope_recovery::declaration::{software_tasks, Declaration, TaskIdGenerator};
use rtic_scope_recovery::RecoveryError;

fn function(name: &str, traced: bool, items: Vec<Declaration>) -> Declaration {
    Declaration::Function {
        name: name.to_string(),
        attributes: if traced { vec!["inline".to_string(), "trace".to_string()] } else { vec![] },
        items,
    }
}

fn module(name: &str, items: Vec<Declaration>) -> Declaration {
    Declaration::Module { name: name.to_string(), items }
}

fn path(parts: &[&str]) -> Vec<String> {
    parts.iter().map(|p| p.to_string()).collect()
}

fn sample() -> Declaration {
    module(
        "app",
        vec![
            function(
                "foo",
                true,
                vec![
                    Declaration::Other,
                    function("inner", true, vec![]),
                    function("helper", false, vec![function("deep", true, vec![])]),
                ],
            ),
            Declaration::Other,
            module("scope", vec![function("bar", true, vec![]), module("empty", vec![])]),
            function("plain", false, vec![]),
            function("last", true, vec![]),
        ],
    )
}

#[test]
fn traced_functions_are_numbered_in_the_order_of_the_walk() {
    let tasks = software_tasks(&sample()).unwrap();
    assert_eq!(tasks.len(), 5);
    assert_eq!(tasks.get(0), Some(&path(&["app", "foo"])));
    assert_eq!(tasks.get(1), Some(&path(&["app", "foo", "inner"])));
    assert_eq!(tasks.get(2), Some(&path(&["app", "foo", "helper", "deep"])));
    assert_eq!(tasks.get(3), Some(&path(&["app", "scope", "bar"])));
    assert_eq!(tasks.get(4), Some(&path(&["app", "last"])));
    assert_eq!(tasks.get(5), None);
}

#[test]
fn traversal_is_deterministic() {
    let first = software_tasks(&sample()).unwrap();
    let second = software_tasks(&sample()).unwrap();
    assert_eq!(first.len(), second.len());
    for id in 0..first.len() {
        assert_eq!(first.get(id), second.get(id));
    }
}

#[test]
fn only_the_trace_attribute_marks_a_task() {
    let app = module(
        "app",
        vec![
            Declaration::Function {
                name: "near".to_string(),
                attributes: vec!["traced".to_string(), "rtic :: trace".to_string()],
                items: vec![],
            },
            Declaration::Function {
                name: "hit".to_string(),
                attributes: vec!["trace".to_string()],
                items: vec![],
            },
        ],
    );
    let tasks = software_tasks(&app).unwrap();
    assert_eq!(tasks.len(), 1);
    assert_eq!(tasks.get(0), Some(&path(&["app", "hit"])));
}

#[test]
fn a_tree_without_traced_functions_has_no_tasks() {
    assert_eq!(software_tasks(&Declaration::Other).unwrap().len(), 0);
    assert_eq!(software_tasks(&module("app", vec![])).unwrap().len(), 0);
    assert_eq!(software_tasks(&function("main", false, vec![])).unwrap().len(), 0);
}

#[test]
fn identifiers_are_dense_up_to_256_tasks() {
    let mut items = Vec::new();
    for i in 0..256 {
        items.push(function(&format!("task{}", i), true, vec![]));
    }
    let tasks = software_tasks(&module("app", items)).unwrap();
    assert_eq!(tasks.len(), 256);
    for i in 0..256 {
        assert_eq!(tasks.get(i), Some(&vec!["app".to_string(), format!("task{}", i)]));
    }
    assert_eq!(tasks.get(256), None);
}

#[test]
fn a_257th_traced_function_is_rejected() {
    let mut items = Vec::new();
    for i in 0..257 {
        items.push(function(&format!("task{}", i), true, vec![]));
    }
    assert!(matches!(
        software_tasks(&module("app", items)),
        Err(RecoveryError::TooManySoftwareTasks)
    ));
}

#[test]
fn generator_counts_from_zero_and_stops_after_256() {
    let mut id_gen = TaskIdGenerator::new();
    for i in 0..256 {
        assert_eq!(id_gen.generate(), Ok(i));
    }
    assert_eq!(id_gen.generate(), Err(RecoveryError::TooManySoftwareTasks));
    assert_eq!(id_gen.generate(), Err(RecoveryError::TooManySoftwareTasks));
}
