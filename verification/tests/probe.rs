use proc_macro2::TokenStream;
use rtic_scope_recovery::binding::InterruptNumber;
use rtic_scope_recovery::manifest::ManifestProperties;
use rtic_scope_recovery::probe::{
    dependency_line, import_line, plan_probe, probe_function, probe_symbol, ProbeAction,
    ProbeEvent, Prober,
};
use rtic_scope_recovery::RecoveryError;

fn properties(features: &[&str], interrupt_path: &str) -> ManifestProperties {
    ManifestProperties {
        pac_name: "stm32f4".to_string(),
        pac_version: "0.13".to_string(),
        pac_features: features.iter().map(|f| f.to_string()).collect(),
        interrupt_path: interrupt_path.to_string(),
        dwt_enter_id: 1,
        dwt_exit_id: 2,
    }
}

fn sample() -> ManifestProperties {
    properties(&["stm32f401"], "stm32f4::stm32f401::Interrupt")
}

fn binds() -> Vec<String> {
    vec!["EXTI0".to_string(), "TIM2".to_string()]
}

#[test]
fn symbol_and_function_of_an_interrupt() {
    let bind = "EXTI0".to_string();
    assert_eq!(probe_symbol(&bind), "rtic_scope_func_EXTI0");
    assert_eq!(
        probe_function(&bind),
        "\n# [no_mangle] pub extern fn rtic_scope_func_EXTI0 () -> u16 { Interrupt :: EXTI0 . number () }\n"
    );
    let tokens = "#[no_mangle] pub extern fn rtic_scope_func_EXTI0() -> u16 { Interrupt::EXTI0.number() }"
        .parse::<TokenStream>()
        .unwrap();
    assert_eq!(probe_function(&bind), format!("\n{}\n", tokens));
}

#[test]
fn dependency_line_lists_the_features() {
    assert_eq!(
        dependency_line(&sample()),
        "\nstm32f4 = { version = \"0.13\", features = [\"stm32f401\"]}\n"
    );
    assert_eq!(
        dependency_line(&properties(&["rt", "stm32f401"], "x")),
        "\nstm32f4 = { version = \"0.13\", features = [\"rt\",\"stm32f401\"]}\n"
    );
    assert_eq!(
        dependency_line(&properties(&[], "x")),
        "\nstm32f4 = { version = \"0.13\", features = []}\n"
    );
}

#[test]
fn import_line_imports_the_interrupts() {
    assert_eq!(import_line(&sample()), Ok("\nuse stm32f4 :: stm32f401 :: Interrupt ;\n".to_string()));
    let tokens = "use stm32f4::stm32f401::Interrupt;".parse::<TokenStream>().unwrap();
    assert_eq!(import_line(&sample()), Ok(format!("\n{}\n", tokens)));
    assert_eq!(import_line(&properties(&[], "Interrupt")), Ok("\nuse Interrupt ;\n".to_string()));
}

#[test]
fn import_line_needs_a_path_of_tokens() {
    assert!(matches!(
        import_line(&properties(&[], "pac::(Interrupt")),
        Err(RecoveryError::TokenizeFail(_))
    ));
    assert!(matches!(
        plan_probe(&properties(&[], "pac::(Interrupt"), &binds()),
        Err(RecoveryError::TokenizeFail(_))
    ));
    assert!(matches!(
        Prober::new(&properties(&[], "pac::(Interrupt"), binds()),
        Err(RecoveryError::TokenizeFail(_))
    ));
}

#[test]
fn plan_holds_one_function_for_each_interrupt() {
    let plan = plan_probe(&sample(), &binds()).unwrap();
    assert_eq!(plan.manifest, dependency_line(&sample()));
    assert_eq!(plan.import, "\nuse stm32f4 :: stm32f401 :: Interrupt ;\n");
    assert_eq!(
        plan.functions,
        vec![probe_function(&"EXTI0".to_string()), probe_function(&"TIM2".to_string())]
    );
    assert_eq!(
        plan.symbols,
        vec!["rtic_scope_func_EXTI0".to_string(), "rtic_scope_func_TIM2".to_string()]
    );
}

#[test]
fn probe_goes_through_its_steps() {
    let plan = plan_probe(&sample(), &binds()).unwrap();
    let mut prober = Prober::new(&sample(), binds()).unwrap();
    assert_eq!(prober.action(), ProbeAction::ExtractSkeleton);
    assert_eq!(prober.advance(ProbeEvent::Done), Ok(()));
    assert_eq!(prober.action(), ProbeAction::RenameManifest);
    assert_eq!(prober.advance(ProbeEvent::Done), Ok(()));
    assert_eq!(prober.action(), ProbeAction::AppendManifest(plan.manifest.clone()));
    assert_eq!(prober.advance(ProbeEvent::Done), Ok(()));
    assert_eq!(prober.action(), ProbeAction::AppendSource(plan.import.clone()));
    assert_eq!(prober.advance(ProbeEvent::Done), Ok(()));
    assert_eq!(prober.action(), ProbeAction::AppendSource(plan.functions[0].clone()));
    assert_eq!(prober.advance(ProbeEvent::Done), Ok(()));
    assert_eq!(prober.action(), ProbeAction::AppendSource(plan.functions[1].clone()));
    assert_eq!(prober.advance(ProbeEvent::Done), Ok(()));
    assert_eq!(prober.action(), ProbeAction::Build);
    assert_eq!(prober.advance(ProbeEvent::Done), Ok(()));
    assert_eq!(prober.action(), ProbeAction::Load);
    assert_eq!(prober.advance(ProbeEvent::Done), Ok(()));
    assert_eq!(prober.action(), ProbeAction::Lookup("rtic_scope_func_EXTI0".to_string()));
    assert_eq!(prober.advance(ProbeEvent::Number(6)), Ok(()));
    assert_eq!(prober.action(), ProbeAction::Lookup("rtic_scope_func_TIM2".to_string()));
    assert_eq!(prober.advance(ProbeEvent::Number(28)), Ok(()));
    assert_eq!(prober.action(), ProbeAction::Stop);
    assert_eq!(
        prober.numbers(),
        vec![
            InterruptNumber { bind: "EXTI0".to_string(), number: 6 },
            InterruptNumber { bind: "TIM2".to_string(), number: 28 },
        ]
    );
}

#[test]
fn probe_without_interrupts_looks_nothing_up() {
    let mut prober = Prober::new(&sample(), vec![]).unwrap();
    let mut actions = Vec::new();
    while prober.action() != ProbeAction::Stop {
        actions.push(prober.action());
        assert_eq!(prober.advance(ProbeEvent::Done), Ok(()));
    }
    assert_eq!(actions.len(), 6);
    assert_eq!(actions[4], ProbeAction::Build);
    assert_eq!(actions[5], ProbeAction::Load);
    assert!(prober.numbers().is_empty());
}

fn failure_after(steps: usize) -> RecoveryError {
    let mut prober = Prober::new(&sample(), vec!["EXTI0".to_string()]).unwrap();
    for _ in 0..steps {
        assert_eq!(prober.advance(ProbeEvent::Done), Ok(()));
    }
    let e = prober.advance(ProbeEvent::Failed("cause".to_string())).unwrap_err();
    assert_eq!(prober.action(), ProbeAction::Stop);
    assert_eq!(prober.advance(ProbeEvent::Done), Ok(()));
    assert_eq!(prober.advance(ProbeEvent::Failed("again".to_string())), Ok(()));
    assert_eq!(prober.action(), ProbeAction::Stop);
    e
}

#[test]
fn failure_of_each_step() {
    for steps in 0..5 {
        assert_eq!(failure_after(steps), RecoveryError::LibExtractFail("cause".to_string()));
    }
    assert_eq!(failure_after(5), RecoveryError::LibBuildFail("cause".to_string()));
    assert_eq!(failure_after(6), RecoveryError::LibLoadFail("cause".to_string()));
    assert_eq!(failure_after(7), RecoveryError::LibLookupFail("cause".to_string()));
}

#[test]
fn an_event_that_does_not_answer_changes_nothing() {
    let mut prober = Prober::new(&sample(), vec!["EXTI0".to_string()]).unwrap();
    assert_eq!(prober.advance(ProbeEvent::Number(3)), Ok(()));
    assert_eq!(prober.action(), ProbeAction::ExtractSkeleton);
    for _ in 0..7 {
        assert_eq!(prober.advance(ProbeEvent::Done), Ok(()));
    }
    assert_eq!(prober.action(), ProbeAction::Lookup("rtic_scope_func_EXTI0".to_string()));
    assert_eq!(prober.advance(ProbeEvent::Done), Ok(()));
    assert_eq!(prober.action(), ProbeAction::Lookup("rtic_scope_func_EXTI0".to_string()));
    assert_eq!(prober.advance(ProbeEvent::Number(6)), Ok(()));
    assert_eq!(prober.action(), ProbeAction::Stop);
    assert_eq!(prober.advance(ProbeEvent::Number(7)), Ok(()));
    assert_eq!(prober.numbers(), vec![InterruptNumber { bind: "EXTI0".to_string(), number: 6 }]);
}
