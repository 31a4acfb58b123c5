use rtic_scope_recovery::declaration::TaskIdGenerator;
use rtic_scope_recovery::{trace, RecoveryError};

#[test]
fn trace_wraps_the_body_in_the_two_reports() {
    let mut id_gen = TaskIdGenerator::new();
    let body = trace(&mut id_gen, vec!["let x = 1;".to_string(), "work(x);".to_string()]);
    assert_eq!(
        body,
        Ok(vec![
            "::cortex_m_rtic_trace::__write_enter_id(0);".to_string(),
            "let x = 1;".to_string(),
            "work(x);".to_string(),
            "::cortex_m_rtic_trace::__write_exit_id(0);".to_string(),
        ])
    );
    let body = trace(&mut id_gen, vec![]);
    assert_eq!(
        body,
        Ok(vec![
            "::cortex_m_rtic_trace::__write_enter_id(1);".to_string(),
            "::cortex_m_rtic_trace::__write_exit_id(1);".to_string(),
        ])
    );
}

#[test]
fn trace_gives_out_256_identifiers() {
    let mut id_gen = TaskIdGenerator::new();
    for i in 0..256 {
        let body = trace(&mut id_gen, vec![]).unwrap();
        assert_eq!(body[0], format!("::cortex_m_rtic_trace::__write_enter_id({});", i));
        assert_eq!(body[1], format!("::cortex_m_rtic_trace::__write_exit_id({});", i));
    }
    assert_eq!(
        trace(&mut id_gen, vec!["late();".to_string()]),
        Err(RecoveryError::TooManySoftwareTasks)
    );
}
