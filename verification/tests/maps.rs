use rtic_scope_recovery::maps::{ExceptionMap, InterruptMap, SoftwareTaskMap, MAX_SOFTWARE_TASKS};

fn path(parts: &[&str]) -> Vec<String> {
    parts.iter().map(|p| p.to_string()).collect()
}

#[test]
fn exception_map_holds_what_was_inserted() {
    let mut map = ExceptionMap::new();
    assert_eq!(map.len(), 0);
    assert_eq!(map.get("SysTick"), None);
    map.insert("SysTick".to_string(), path(&["app", "tick"]));
    map.insert("PendSV".to_string(), path(&["app", "pend"]));
    assert_eq!(map.len(), 2);
    assert_eq!(map.get("SysTick"), Some(&path(&["app", "tick"])));
    assert_eq!(map.get("PendSV"), Some(&path(&["app", "pend"])));
    assert_eq!(map.get("HardFault"), None);
}

#[test]
fn exception_map_replaces_an_earlier_binding() {
    let mut map = ExceptionMap::new();
    map.insert("SysTick".to_string(), path(&["app", "first"]));
    map.insert("PendSV".to_string(), path(&["app", "pend"]));
    map.insert("SysTick".to_string(), path(&["app", "second"]));
    assert_eq!(map.len(), 2);
    assert_eq!(map.get("SysTick"), Some(&path(&["app", "second"])));
    assert_eq!(map.get("PendSV"), Some(&path(&["app", "pend"])));
}

#[test]
fn exception_map_takes_core_exceptions_only() {
    let mut map = ExceptionMap::new();
    assert!(map.insert("HardFault".to_string(), path(&["app", "fault"])));
    assert!(!map.insert("EXTI0".to_string(), path(&["app", "button"])));
    assert!(!map.insert("NonMaskableInt".to_string(), path(&["app", "nmi"])));
    assert_eq!(map.len(), 1);
    assert_eq!(map.get("EXTI0"), None);
    for name in [
        "Reset",
        "NMI",
        "HardFault",
        "MemManage",
        "BusFault",
        "UsageFault",
        "SVCall",
        "DebugMonitor",
        "PendSV",
        "SysTick",
    ] {
        assert!(map.insert(name.to_string(), path(&["app", name])));
    }
    assert_eq!(map.len(), 10);
    assert_eq!(map.get("HardFault"), Some(&path(&["app", "HardFault"])));
}

#[test]
fn interrupt_map_holds_what_was_inserted() {
    let mut map = InterruptMap::new();
    assert_eq!(map.len(), 0);
    assert!(map.get(6).is_none());
    map.insert(6, path(&["app", "button"]), "EXTI0".to_string());
    map.insert(28, path(&["app", "timer"]), "TIM2".to_string());
    assert_eq!(map.len(), 2);
    let entry = map.get(6).unwrap();
    assert_eq!(entry.number, 6);
    assert_eq!(entry.path, path(&["app", "button"]));
    assert_eq!(entry.bind, "EXTI0");
    assert_eq!(map.get(28).unwrap().bind, "TIM2");
    assert!(map.get(7).is_none());
}

#[test]
fn interrupt_map_replaces_an_earlier_binding() {
    let mut map = InterruptMap::new();
    map.insert(6, path(&["app", "first"]), "EXTI0".to_string());
    map.insert(6, path(&["app", "second"]), "EXTI0".to_string());
    assert_eq!(map.len(), 1);
    assert_eq!(map.get(6).unwrap().path, path(&["app", "second"]));
}

#[test]
fn software_task_identifiers_are_dense() {
    let mut map = SoftwareTaskMap::new();
    assert_eq!(map.len(), 0);
    assert_eq!(map.push(path(&["app", "a"])), Some(0));
    assert_eq!(map.push(path(&["app", "b"])), Some(1));
    assert_eq!(map.push(path(&["app", "c"])), Some(2));
    assert_eq!(map.len(), 3);
    assert_eq!(map.get(0), Some(&path(&["app", "a"])));
    assert_eq!(map.get(1), Some(&path(&["app", "b"])));
    assert_eq!(map.get(2), Some(&path(&["app", "c"])));
    assert_eq!(map.get(3), None);
}

#[test]
fn software_task_map_refuses_a_257th_task() {
    let mut map = SoftwareTaskMap::new();
    for i in 0..MAX_SOFTWARE_TASKS {
        assert_eq!(map.push(path(&["app", "task"])), Some(i));
    }
    assert_eq!(MAX_SOFTWARE_TASKS, 256);
    assert_eq!(map.len(), 256);
    assert_eq!(map.push(path(&["app", "late"])), None);
    assert_eq!(map.len(), 256);
    assert_eq!(map.get(255), Some(&path(&["app", "task"])));
    assert_eq!(map.get(256), None);
}
