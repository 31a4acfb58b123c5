use rtic_scope_recovery::binding::{
    device_hardware_tasks, partition_bindings, HardwareBinding, InterruptNumber,
};
use rtic_scope_recovery::maps::is_known_exception;
use rtic_scope_recovery::RecoveryError;

fn binding(task: &str, bind: &str) -> HardwareBinding {
    HardwareBinding { task: task.to_string(), bind: bind.to_string() }
}

fn number(bind: &str, number: u16) -> InterruptNumber {
    InterruptNumber { bind: bind.to_string(), number }
}

fn path(parts: &[&str]) -> Vec<String> {
    parts.iter().map(|p| p.to_string()).collect()
}

fn sample() -> Vec<HardwareBinding> {
    vec![
        binding("button", "EXTI0"),
        binding("tick", "SysTick"),
        binding("timer", "TIM2"),
        binding("fault", "HardFault"),
    ]
}

#[test]
fn the_ten_core_exceptions_are_known() {
    for name in [
        "Reset",
        "NMI",
        "HardFault",
        "MemManage",
        "BusFault",
        "UsageFault",
        "SVCall",
        "DebugMonitor",
        "PendSV",
        "SysTick",
    ] {
        assert!(is_known_exception(&name.to_string()), "{}", name);
    }
    for name in ["EXTI0", "TIM2", "systick", "SysTick ", "", "NonMaskableInt"] {
        assert!(!is_known_exception(&name.to_string()), "{}", name);
    }
}

#[test]
fn every_binding_is_in_exactly_one_part() {
    let bindings = sample();
    let (core, device) = partition_bindings(&bindings);
    assert_eq!(core.len(), 2);
    assert_eq!(device, vec!["EXTI0".to_string(), "TIM2".to_string()]);
    for b in bindings.iter() {
        let in_core = core.get(&b.bind).is_some();
        let in_device = device.contains(&b.bind);
        assert!(in_core != in_device, "{}", b.bind);
    }
    assert_eq!(core.get("SysTick"), Some(&path(&["app", "tick"])));
    assert_eq!(core.get("HardFault"), Some(&path(&["app", "fault"])));
}

#[test]
fn partition_of_nothing_is_empty() {
    let (core, device) = partition_bindings(&vec![]);
    assert_eq!(core.len(), 0);
    assert!(device.is_empty());
}

#[test]
fn device_tasks_are_keyed_by_number() {
    let numbers = vec![number("TIM2", 28), number("EXTI0", 6)];
    let interrupts = device_hardware_tasks(&sample(), &numbers).unwrap();
    assert_eq!(interrupts.len(), 2);
    let button = interrupts.get(6).unwrap();
    assert_eq!(button.path, path(&["app", "button"]));
    assert_eq!(button.bind, "EXTI0");
    let timer = interrupts.get(28).unwrap();
    assert_eq!(timer.path, path(&["app", "timer"]));
    assert_eq!(timer.bind, "TIM2");
}

#[test]
fn a_device_interrupt_without_a_number_is_reported() {
    let numbers = vec![number("EXTI0", 6)];
    assert_eq!(
        device_hardware_tasks(&sample(), &numbers).err(),
        Some(RecoveryError::MissingInterruptNumber("TIM2".to_string()))
    );
    assert_eq!(
        device_hardware_tasks(&sample(), &vec![]).err(),
        Some(RecoveryError::MissingInterruptNumber("EXTI0".to_string()))
    );
}

#[test]
fn core_exceptions_need_no_number() {
    let bindings = vec![binding("tick", "SysTick")];
    let interrupts = device_hardware_tasks(&bindings, &vec![number("SysTick", 15)]).unwrap();
    assert_eq!(interrupts.len(), 0);
}

#[test]
fn the_last_number_of_a_name_stands() {
    let bindings = vec![binding("button", "EXTI0")];
    let numbers = vec![number("EXTI0", 6), number("EXTI0", 7)];
    let interrupts = device_hardware_tasks(&bindings, &numbers).unwrap();
    assert!(interrupts.get(6).is_none());
    assert_eq!(interrupts.get(7).unwrap().bind, "EXTI0");
}
