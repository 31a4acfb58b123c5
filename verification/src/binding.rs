//! The hardware tasks of an application: which exception or interrupt each is
//! bound to, which of these the processor core defines, and the numbers of
//! those that the device defines.

use vstd::prelude::*;
use crate::assoc::{assoc_map, assoc_put};
use crate::error::{RecoveryError, RecoveryErrorView};
use crate::maps::{is_core_exception, is_known_exception, ExceptionMap, InterruptMap};
use crate::text::texts;

verus! {

/// A hardware task and the exception or interrupt that it is bound to, both
/// by name.
#[derive(PartialEq, Eq, Debug)]
pub struct HardwareBinding {
    pub task: String,
    pub bind: String,
}

/// A `HardwareBinding` over mathematical values.
pub struct HardwareBindingView {
    pub task: Seq<char>,
    pub bind: Seq<char>,
}

impl View for HardwareBinding {
    type V = HardwareBindingView;

    open spec fn view(&self) -> HardwareBindingView {
        HardwareBindingView { task: self.task@, bind: self.bind@ }
    }
}

/// The views of a sequence of bindings, one for one.
pub open spec fn binding_views(bindings: Seq<HardwareBinding>) -> Seq<HardwareBindingView> {
    Seq::new(bindings.len(), |i: int| bindings[i]@)
}

/// The number that the device gives to one of its interrupts.
#[derive(PartialEq, Eq, Debug)]
pub struct InterruptNumber {
    pub bind: String,
    pub number: u16,
}

/// A sequence of interrupt numbers as pairs of a name and a number.
pub open spec fn number_pairs(numbers: Seq<InterruptNumber>) -> Seq<(Seq<char>, u16)> {
    Seq::new(numbers.len(), |i: int| (numbers[i].bind@, numbers[i].number))
}

/// The path of a hardware task: the application module and the task.
pub open spec fn hardware_path(task: Seq<char>) -> Seq<Seq<char>> {
    seq!["app"@, task]
}

/// The tasks that are bound to core exceptions, by the name of the exception.
/// Where several tasks are bound to one exception, the last one stands.
pub open spec fn core_map(bindings: Seq<HardwareBindingView>) -> Map<Seq<char>, Seq<Seq<char>>>
    decreases bindings.len(),
{
    if bindings.len() == 0 {
        Map::empty()
    } else if is_core_exception(bindings.last().bind) {
        core_map(bindings.drop_last()).insert(
            bindings.last().bind,
            hardware_path(bindings.last().task),
        )
    } else {
        core_map(bindings.drop_last())
    }
}

/// The entries of the map of core hardware tasks, in the order in which the
/// exceptions are first bound.
pub open spec fn core_pairs(bindings: Seq<HardwareBindingView>) -> Seq<
    (Seq<char>, Seq<Seq<char>>),
>
    decreases bindings.len(),
{
    if bindings.len() == 0 {
        Seq::empty()
    } else if is_core_exception(bindings.last().bind) {
        assoc_put(
            core_pairs(bindings.drop_last()),
            bindings.last().bind,
            hardware_path(bindings.last().task),
        )
    } else {
        core_pairs(bindings.drop_last())
    }
}

/// The names of the interrupts that are left to the device, in the order of
/// their bindings.
pub open spec fn device_binds(bindings: Seq<HardwareBindingView>) -> Seq<Seq<char>>
    decreases bindings.len(),
{
    if bindings.len() == 0 {
        Seq::empty()
    } else if is_core_exception(bindings.last().bind) {
        device_binds(bindings.drop_last())
    } else {
        device_binds(bindings.drop_last()).push(bindings.last().bind)
    }
}

/// The entries of the map of device hardware tasks, in the order in which
/// the numbers are first bound.
pub open spec fn device_pairs(
    bindings: Seq<HardwareBindingView>,
    numbers: Map<Seq<char>, u16>,
) -> Seq<(u16, (Seq<Seq<char>>, Seq<char>))>
    decreases bindings.len(),
{
    if bindings.len() == 0 {
        Seq::empty()
    } else if is_core_exception(bindings.last().bind) {
        device_pairs(bindings.drop_last(), numbers)
    } else {
        assoc_put(
            device_pairs(bindings.drop_last(), numbers),
            numbers[bindings.last().bind],
            (hardware_path(bindings.last().task), bindings.last().bind),
        )
    }
}

/// The first binding to a device interrupt that has no number, if there is
/// one.
pub open spec fn first_unresolved(
    bindings: Seq<HardwareBindingView>,
    numbers: Map<Seq<char>, u16>,
) -> Option<Seq<char>>
    decreases bindings.len(),
{
    if bindings.len() == 0 {
        None
    } else {
        match first_unresolved(bindings.drop_last(), numbers) {
            Some(bind) => Some(bind),
            None => if !is_core_exception(bindings.last().bind) && !numbers.contains_key(
                bindings.last().bind,
            ) {
                Some(bindings.last().bind)
            } else {
                None
            },
        }
    }
}

/// The tasks that are bound to device interrupts, by the number of the
/// interrupt, where every such interrupt has a number. Where several tasks
/// come under one number, the last one stands.
pub open spec fn device_map(
    bindings: Seq<HardwareBindingView>,
    numbers: Map<Seq<char>, u16>,
) -> Map<u16, (Seq<Seq<char>>, Seq<char>)>
    decreases bindings.len(),
{
    if bindings.len() == 0 {
        Map::empty()
    } else if is_core_exception(bindings.last().bind) {
        device_map(bindings.drop_last(), numbers)
    } else {
        device_map(bindings.drop_last(), numbers).insert(
            numbers[bindings.last().bind],
            (hardware_path(bindings.last().task), bindings.last().bind),
        )
    }
}

fn hardware_task_path(task: &String) -> (path: Vec<String>)
    ensures
        texts(path@) == hardware_path(task@),
{
    let mut path: Vec<String> = Vec::new();
    path.push(String::from_str("app"));
    path.push(task.clone());
    assert(texts(path@) =~= hardware_path(task@));
    path
}

/// Parts the bindings of the hardware tasks: those to core exceptions become
/// the map of core hardware tasks, the names of the others are left for the
/// device to number.
pub fn partition_bindings(bindings: &Vec<HardwareBinding>) -> (r: (ExceptionMap, Vec<String>))
    ensures
        r.0@ == core_map(binding_views(bindings@)),
        r.0.pairs() == core_pairs(binding_views(bindings@)),
        texts(r.1@) == device_binds(binding_views(bindings@)),
{
    let ghost all = binding_views(bindings@);
    let mut exceptions = ExceptionMap::new();
    let mut unresolved: Vec<String> = Vec::new();
    assert(texts(unresolved@) =~= Seq::empty());
    let mut i: usize = 0;
    while i < bindings.len()
        invariant
            i <= bindings.len(),
            all == binding_views(bindings@),
            exceptions@ == core_map(all.take(i as int)),
            exceptions.pairs() == core_pairs(all.take(i as int)),
            texts(unresolved@) == device_binds(all.take(i as int)),
        decreases bindings.len() - i,
    {
        assert(all.take(i + 1).drop_last() =~= all.take(i as int));
        assert(all.take(i + 1).last() == bindings@[i as int]@);
        let binding = &bindings[i];
        if is_known_exception(&binding.bind) {
            let added = exceptions.insert(binding.bind.clone(), hardware_task_path(&binding.task));
            assert(added);
        } else {
            let ghost before = texts(unresolved@);
            unresolved.push(binding.bind.clone());
            assert(texts(unresolved@) =~= before.push(binding.bind@));
        }
        i += 1;
    }
    assert(all.take(bindings.len() as int) =~= all);
    (exceptions, unresolved)
}

fn number_of(numbers: &Vec<InterruptNumber>, bind: &String) -> (r: Option<u16>)
    ensures
        match r {
            Some(number) => assoc_map(number_pairs(numbers@)).contains_key(bind@) && assoc_map(
                number_pairs(numbers@),
            )[bind@] == number,
            None => !assoc_map(number_pairs(numbers@)).contains_key(bind@),
        },
{
    let ghost pairs = number_pairs(numbers@);
    let mut i: usize = numbers.len();
    assert(pairs.take(i as int) =~= pairs);
    while i > 0
        invariant
            i <= numbers.len(),
            pairs == number_pairs(numbers@),
            assoc_map(pairs).contains_key(bind@) == assoc_map(pairs.take(i as int)).contains_key(
                bind@,
            ),
            assoc_map(pairs).contains_key(bind@) ==> assoc_map(pairs)[bind@] == assoc_map(
                pairs.take(i as int),
            )[bind@],
        decreases i,
    {
        assert(pairs.take(i as int).drop_last() =~= pairs.take(i - 1));
        assert(pairs.take(i as int).last() == pairs[i - 1]);
        if numbers[i - 1].bind == *bind {
            return Some(numbers[i - 1].number);
        }
        i -= 1;
    }
    None
}

/// Brings the bindings of the hardware tasks to device interrupts together
/// with the numbers of these interrupts. Every such interrupt has to have a
/// number: the first one without is reported.
pub fn device_hardware_tasks(
    bindings: &Vec<HardwareBinding>,
    numbers: &Vec<InterruptNumber>,
) -> (r: Result<InterruptMap, RecoveryError>)
    ensures
        match first_unresolved(binding_views(bindings@), assoc_map(number_pairs(numbers@))) {
            Some(bind) => r matches Err(e) && e@ == RecoveryErrorView::MissingInterruptNumber(bind),
            None => r matches Ok(interrupts) && interrupts@ == device_map(
                binding_views(bindings@),
                assoc_map(number_pairs(numbers@)),
            ) && interrupts.pairs() == device_pairs(
                binding_views(bindings@),
                assoc_map(number_pairs(numbers@)),
            ),
        },
{
    let ghost all = binding_views(bindings@);
    let ghost known = assoc_map(number_pairs(numbers@));
    let mut interrupts = InterruptMap::new();
    let mut i: usize = 0;
    while i < bindings.len()
        invariant
            i <= bindings.len(),
            all == binding_views(bindings@),
            known == assoc_map(number_pairs(numbers@)),
            first_unresolved(all.take(i as int), known) is None,
            interrupts@ == device_map(all.take(i as int), known),
            interrupts.pairs() == device_pairs(all.take(i as int), known),
        decreases bindings.len() - i,
    {
        assert(all.take(i + 1).drop_last() =~= all.take(i as int));
        assert(all.take(i + 1).last() == bindings@[i as int]@);
        let binding = &bindings[i];
        if !is_known_exception(&binding.bind) {
            match number_of(numbers, &binding.bind) {
                Some(number) => {
                    interrupts.insert(
                        number,
                        hardware_task_path(&binding.task),
                        binding.bind.clone(),
                    );
                },
                None => {
                    proof {
                        lemma_first_unresolved_stays(all, known, i + 1);
                    }
                    return Err(RecoveryError::MissingInterruptNumber(binding.bind.clone()));
                },
            }
        }
        i += 1;
    }
    assert(all.take(bindings.len() as int) =~= all);
    Ok(interrupts)
}

/// A binding without a number that is first in a front part of the bindings
/// is first in all of them.
pub proof fn lemma_first_unresolved_stays(
    bindings: Seq<HardwareBindingView>,
    numbers: Map<Seq<char>, u16>,
    n: int,
)
    requires
        0 <= n <= bindings.len(),
        first_unresolved(bindings.take(n), numbers) is Some,
    ensures
        first_unresolved(bindings, numbers) == first_unresolved(bindings.take(n), numbers),
    decreases bindings.len(),
{
    if n == bindings.len() {
        assert(bindings.take(n) =~= bindings);
    } else {
        assert(bindings.drop_last().take(n) =~= bindings.take(n));
        lemma_first_unresolved_stays(bindings.drop_last(), numbers, n);
    }
}

/// What the map of core hardware tasks and the names left to the device hold:
/// the bindings to core exceptions and the others, none of them both.
pub proof fn lemma_partition_contents(bindings: Seq<HardwareBindingView>)
    ensures
        forall|name: Seq<char>| #[trigger]
            core_map(bindings).contains_key(name) <==> is_core_exception(name) && exists|i: int|
                0 <= i < bindings.len() && (#[trigger] bindings[i]).bind == name,
        forall|name: Seq<char>| #[trigger]
            device_binds(bindings).contains(name) <==> !is_core_exception(name) && exists|i: int|
                0 <= i < bindings.len() && (#[trigger] bindings[i]).bind == name,
    decreases bindings.len(),
{
    if bindings.len() > 0 {
        let front = bindings.drop_last();
        let last = bindings.last();
        lemma_partition_contents(front);
        assert forall|name: Seq<char>| #[trigger]
            core_map(bindings).contains_key(name) <==> is_core_exception(name) && exists|i: int|
                0 <= i < bindings.len() && (#[trigger] bindings[i]).bind == name by {
            if core_map(bindings).contains_key(name) {
                if core_map(front).contains_key(name) {
                    let i = choose|i: int|
                        0 <= i < front.len() && (#[trigger] front[i]).bind == name;
                    assert(bindings[i].bind == name);
                } else {
                    assert(bindings[bindings.len() - 1].bind == name);
                }
            }
            if is_core_exception(name) && exists|i: int|
                0 <= i < bindings.len() && (#[trigger] bindings[i]).bind == name {
                let i = choose|i: int|
                    0 <= i < bindings.len() && (#[trigger] bindings[i]).bind == name;
                if i < front.len() {
                    assert(front[i].bind == name);
                    assert(core_map(front).contains_key(name));
                }
            }
        }
        assert forall|name: Seq<char>| #[trigger]
            device_binds(bindings).contains(name) <==> !is_core_exception(name) && exists|i: int|
                0 <= i < bindings.len() && (#[trigger] bindings[i]).bind == name by {
            let whole = device_binds(bindings);
            let part = device_binds(front);
            if whole.contains(name) {
                let k = choose|k: int| 0 <= k < whole.len() && whole[k] == name;
                if k < part.len() {
                    assert(part[k] == name);
                    assert(part.contains(name));
                    let i = choose|i: int|
                        0 <= i < front.len() && (#[trigger] front[i]).bind == name;
                    assert(bindings[i].bind == name);
                } else {
                    assert(bindings[bindings.len() - 1].bind == name);
                }
            }
            if !is_core_exception(name) && exists|i: int|
                0 <= i < bindings.len() && (#[trigger] bindings[i]).bind == name {
                let i = choose|i: int|
                    0 <= i < bindings.len() && (#[trigger] bindings[i]).bind == name;
                if i < front.len() {
                    assert(front[i].bind == name);
                    assert(part.contains(name));
                    let k = choose|k: int| 0 <= k < part.len() && part[k] == name;
                    assert(whole[k] == name);
                } else {
                    assert(whole[whole.len() - 1] == name);
                }
            }
        }
    }
}

/// Every binding of a hardware task is in exactly one of the two parts: its
/// exception is a key of the map of core hardware tasks, or its interrupt is
/// among the names left to the device, and never both.
pub proof fn lemma_partition_total(bindings: Seq<HardwareBindingView>, i: int)
    requires
        0 <= i < bindings.len(),
    ensures
        core_map(bindings).contains_key(bindings[i].bind) != device_binds(bindings).contains(
            bindings[i].bind,
        ),
        core_map(bindings).contains_key(bindings[i].bind) == is_core_exception(bindings[i].bind),
{
    lemma_partition_contents(bindings);
    let name = bindings[i].bind;
    assert(exists|j: int| 0 <= j < bindings.len() && (#[trigger] bindings[j]).bind == name);
}

} // verus!
