use std::collections::BTreeMap;

use rtic_scope_recovery::manifest::ManifestProperties;
use rtic_scope_recovery::maps::{ExceptionMap, InterruptMap, SoftwareTaskMap};
use rtic_scope_recovery::packet::DateTime;
use rtic_scope_recovery::text::text_list_string;
use rtic_scope_recovery::{Metadata, TaskResolveMaps};

fn path(parts: &[&str]) -> Vec<String> {
    parts.iter().map(|p| p.to_string()).collect()
}

fn maps() -> TaskResolveMaps {
    let mut exceptions = ExceptionMap::new();
    exceptions.insert("PendSV".to_string(), path(&["app", "pend"]));
    exceptions.insert("SysTick".to_string(), path(&["app", "tick"]));
    let mut interrupts = InterruptMap::new();
    interrupts.insert(6, path(&["app", "button"]), "EXTI0".to_string());
    interrupts.insert(28, path(&["app", "timer"]), "TIM2".to_string());
    let mut sw_assocs = SoftwareTaskMap::new();
    sw_assocs.push(path(&["app", "foo"]));
    sw_assocs.push(path(&["app", "scope", "bar"]));
    TaskResolveMaps { exceptions, interrupts, sw_assocs }
}

#[test]
fn text_list_is_written_as_debug_writes_it() {
    assert_eq!(text_list_string(&vec![]), "[]");
    assert_eq!(text_list_string(&path(&["app", "foo"])), "[\"app\", \"foo\"]");
    let odd = path(&["a\"b", "back\\slash", "new\nline", "tab\t"]);
    assert_eq!(text_list_string(&odd), format!("{:?}", odd));
    assert_eq!(text_list_string(&odd), "[\"a\\\"b\", \"back\\\\slash\", \"new\\nline\", \"tab\\t\"]");
}

#[test]
fn maps_are_shown_line_by_line() {
    assert_eq!(
        maps().describe(),
        "exceptions:\n        PendSV -> [\"app\", \"pend\"]\n        SysTick -> [\"app\", \"tick\"]\ninterrupts:\n        6 -> ([\"app\", \"button\"], \"EXTI0\")\n        28 -> ([\"app\", \"timer\"], \"TIM2\")\nsoftware tasks:\n        0 -> [\"app\", \"foo\"]\n        1 -> [\"app\", \"scope\", \"bar\"]\n"
    );
}

#[test]
fn maps_are_shown_as_maps_of_std_are() {
    let mut exceptions: BTreeMap<String, [String; 2]> = BTreeMap::new();
    exceptions.insert("PendSV".to_string(), ["app".to_string(), "pend".to_string()]);
    exceptions.insert("SysTick".to_string(), ["app".to_string(), "tick".to_string()]);
    let mut interrupts: BTreeMap<u16, ([String; 2], String)> = BTreeMap::new();
    interrupts.insert(6, (["app".to_string(), "button".to_string()], "EXTI0".to_string()));
    interrupts.insert(28, (["app".to_string(), "timer".to_string()], "TIM2".to_string()));
    let mut sw_assocs: BTreeMap<usize, Vec<String>> = BTreeMap::new();
    sw_assocs.insert(0, path(&["app", "foo"]));
    sw_assocs.insert(1, path(&["app", "scope", "bar"]));
    let mut expected = String::from("exceptions:\n");
    for (k, v) in exceptions.iter() {
        expected.push_str(&format!("        {} -> {:?}\n", k, v));
    }
    expected.push_str("interrupts:\n");
    for (k, v) in interrupts.iter() {
        expected.push_str(&format!("        {} -> {:?}\n", k, v));
    }
    expected.push_str("software tasks:\n");
    for (k, v) in sw_assocs.iter() {
        expected.push_str(&format!("        {} -> {:?}\n", k, v));
    }
    assert_eq!(maps().describe(), expected);
}

#[test]
fn empty_maps_show_their_headings() {
    let empty = TaskResolveMaps {
        exceptions: ExceptionMap::new(),
        interrupts: InterruptMap::new(),
        sw_assocs: SoftwareTaskMap::new(),
    };
    assert_eq!(empty.describe(), "exceptions:\ninterrupts:\nsoftware tasks:\n");
}

#[test]
fn context_is_shown_with_time_and_frequency() {
    let shown = maps().describe();
    let ctx = Metadata::new(
        "blinky".to_string(),
        maps(),
        ManifestProperties {
            pac_name: "stm32f4".to_string(),
            pac_version: "0.13".to_string(),
            pac_features: vec![],
            interrupt_path: "stm32f4::stm32f401::Interrupt".to_string(),
            dwt_enter_id: 1,
            dwt_exit_id: 2,
        },
        DateTime { secs: 1_704_067_200, nanos: 0 },
        16_000_000,
        None,
    );
    assert_eq!(
        ctx.describe("2024-01-01 00:00:00 +00:00"),
        format!(
            "{}\nreset timestamp: 2024-01-01 00:00:00 +00:00\ntrace clock frequency: 16000000 Hz\n",
            shown
        )
    );
}
