//! The instrumentation of a traced function: the statements that report the
//! entry and the exit of the function, with the identifier of its task.

use vstd::prelude::*;
use crate::declaration::TaskIdGenerator;
use crate::error::{RecoveryError, RecoveryErrorView};
use crate::maps::MAX_SOFTWARE_TASKS;
use crate::text::{decimal_string, decimal_text, texts};

verus! {

/// The statement that reports the entry of the task with an identifier.
pub open spec fn enter_statement(id: nat) -> Seq<char> {
    "::cortex_m_rtic_trace::__write_enter_id("@ + decimal_text(id) + ");"@
}

/// The statement that reports the exit of the task with an identifier.
pub open spec fn exit_statement(id: nat) -> Seq<char> {
    "::cortex_m_rtic_trace::__write_exit_id("@ + decimal_text(id) + ");"@
}

fn statement(head: &str, id: usize) -> (s: String)
    ensures
        s@ == head@ + decimal_text(id as nat) + ");"@,
{
    let mut s = String::from_str(head);
    s.append(decimal_string(id as u64).as_str());
    s.append(");");
    s
}

/// Instruments the body of a traced function: the function is given the next
/// task identifier, and its statements are put between one that reports the
/// entry of the task and one that reports its exit.
///
/// The identifiers are given out in the order of the calls, from 0 on: this
/// is the order that the resolution of software tasks counts on. Once
/// `MAX_SOFTWARE_TASKS` functions are instrumented, a further one is refused.
pub fn trace(id_gen: &mut TaskIdGenerator, stmts: Vec<String>) -> (r: Result<
    Vec<String>,
    RecoveryError,
>)
    ensures
        final(id_gen).wf(),
        match r {
            Ok(body) => {
                &&& old(id_gen).next_id() < MAX_SOFTWARE_TASKS
                &&& final(id_gen).next_id() == old(id_gen).next_id() + 1
                &&& texts(body@) == seq![enter_statement(old(id_gen).next_id())] + texts(stmts@)
                    + seq![exit_statement(old(id_gen).next_id())]
            },
            Err(e) => {
                &&& e@ == RecoveryErrorView::TooManySoftwareTasks
                &&& old(id_gen).next_id() == MAX_SOFTWARE_TASKS
                &&& final(id_gen).next_id() == old(id_gen).next_id()
            },
        },
{
    match id_gen.generate() {
        Err(e) => Err(e),
        Ok(id) => {
            let ghost inner = texts(stmts@);
            let mut body: Vec<String> = Vec::new();
            body.push(statement("::cortex_m_rtic_trace::__write_enter_id(", id));
            let mut stmts = stmts;
            body.append(&mut stmts);
            body.push(statement("::cortex_m_rtic_trace::__write_exit_id(", id));
            proof {
                let expected = seq![enter_statement(id as nat)] + inner + seq![
                    exit_statement(id as nat),
                ];
                assert(texts(body@).len() == expected.len());
                assert forall|i: int| 0 <= i < expected.len() implies texts(body@)[i]
                    == expected[i] by {
                    if 0 < i < expected.len() - 1 {
                        assert(body@[i]@ == inner[i - 1]);
                    }
                }
                assert(texts(body@) =~= expected);
            }
            Ok(body)
        },
    }
}

} // verus!
