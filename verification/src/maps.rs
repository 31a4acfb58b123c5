//! The three maps by which trace identifiers are resolved to tasks.

use vstd::prelude::*;
use crate::assoc::{
    assoc_keys, assoc_map, assoc_put, lemma_assoc_distinct, lemma_assoc_domain, lemma_assoc_push,
    lemma_assoc_put_at, lemma_assoc_put_fresh, lemma_assoc_update, lemma_distinct_in_range,
};
use crate::text::{
    concatenated, debug_string, debug_text, decimal_string, decimal_text, text_list_string,
    text_list_text, texts,
};

verus! {

/// The largest number of software tasks that can be told apart: a task's
/// identifier travels in one byte.
pub const MAX_SOFTWARE_TASKS: usize = 256;

/// The number of exceptions that the processor core defines.
pub const CORE_EXCEPTIONS: usize = 10;

/// Whether a name is that of an exception of the processor core: one of the
/// ten of the ARMv7-M architecture.
pub open spec fn is_core_exception(name: Seq<char>) -> bool {
    ||| name == "Reset"@
    ||| name == "NMI"@
    ||| name == "HardFault"@
    ||| name == "MemManage"@
    ||| name == "BusFault"@
    ||| name == "UsageFault"@
    ||| name == "SVCall"@
    ||| name == "DebugMonitor"@
    ||| name == "PendSV"@
    ||| name == "SysTick"@
}

/// The place of a core exception among the ten.
pub open spec fn core_exception_index(name: Seq<char>) -> int {
    if name == "Reset"@ {
        0
    } else if name == "NMI"@ {
        1
    } else if name == "HardFault"@ {
        2
    } else if name == "MemManage"@ {
        3
    } else if name == "BusFault"@ {
        4
    } else if name == "UsageFault"@ {
        5
    } else if name == "SVCall"@ {
        6
    } else if name == "DebugMonitor"@ {
        7
    } else if name == "PendSV"@ {
        8
    } else {
        9
    }
}

/// Whether a name is that of an exception of the processor core.
pub fn is_known_exception(name: &String) -> (r: bool)
    ensures
        r == is_core_exception(name@),
{
    *name == String::from_str("Reset") || *name == String::from_str("NMI") || *name
        == String::from_str("HardFault") || *name == String::from_str("MemManage") || *name
        == String::from_str("BusFault") || *name == String::from_str("UsageFault") || *name
        == String::from_str("SVCall") || *name == String::from_str("DebugMonitor") || *name
        == String::from_str("PendSV") || *name == String::from_str("SysTick")
}

/// A core exception bound to a task.
#[derive(PartialEq, Eq, Debug)]
pub struct ExceptionEntry {
    pub name: String,
    pub path: Vec<String>,
}

/// A sequence of entries as pairs of a name and a path.
pub open spec fn exception_pairs(entries: Seq<ExceptionEntry>) -> Seq<
    (Seq<char>, Seq<Seq<char>>),
> {
    Seq::new(entries.len(), |i: int| (entries[i].name@, texts(entries[i].path@)))
}

/// The tasks bound to core exceptions, by the name of the exception. Only
/// the exceptions that the processor core defines have a place in it.
pub struct ExceptionMap {
    entries: Vec<ExceptionEntry>,
}

impl View for ExceptionMap {
    type V = Map<Seq<char>, Seq<Seq<char>>>;

    open spec fn view(&self) -> Map<Seq<char>, Seq<Seq<char>>> {
        assoc_map(self.pairs())
    }
}

impl ExceptionMap {
    /// The entries as pairs of a name and a path, in the order in which the
    /// exceptions were first bound.
    pub closed spec fn pairs(&self) -> Seq<(Seq<char>, Seq<Seq<char>>)> {
        Seq::new(
            self.entries@.len(),
            |i: int| (self.entries@[i].name@, texts(self.entries@[i].path@)),
        )
    }

    /// Every entry is for a core exception, and none of them occurs twice.
    pub closed spec fn wf(&self) -> bool {
        &&& assoc_keys(self.pairs()).no_duplicates()
        &&& forall|i: int|
            0 <= i < self.pairs().len() ==> is_core_exception(
                #[trigger] assoc_keys(self.pairs())[i],
            )
    }

    #[verifier::type_invariant]
    spec fn inv(self) -> bool {
        self.wf()
    }

    /// A map holds core exceptions only, so no more than there are.
    pub proof fn lemma_bounded(&self)
        requires
            self.wf(),
        ensures
            self@.dom().finite(),
            self@.dom().len() == self.pairs().len(),
            self@.dom().len() <= CORE_EXCEPTIONS,
            forall|name: Seq<char>| self@.contains_key(name) ==> is_core_exception(name),
    {
        let keys = assoc_keys(self.pairs());
        lemma_assoc_domain(self.pairs());
        lemma_assoc_distinct(self.pairs());
        let places = Seq::new(keys.len(), |i: int| core_exception_index(keys[i]));
        assert forall|i: int, j: int| 0 <= i < j < places.len() implies places[i]
            != places[j] by {
            assert(is_core_exception(keys[i]) && is_core_exception(keys[j]));
            assert(keys[i] != keys[j]);
        }
        assert forall|i: int| 0 <= i < places.len() implies 0 <= #[trigger] places[i] < 10 by {
            assert(is_core_exception(keys[i]));
        }
        lemma_distinct_in_range(places, 10);
        assert forall|name: Seq<char>| self@.contains_key(name) implies is_core_exception(
            name,
        ) by {
            let i = choose|i: int| 0 <= i < keys.len() && keys[i] == name;
            assert(is_core_exception(keys[i]));
        }
    }

    /// The empty map.
    pub fn new() -> (m: Self)
        ensures
            m.wf(),
            m.pairs() == Seq::<(Seq<char>, Seq<Seq<char>>)>::empty(),
            m@ == Map::<Seq<char>, Seq<Seq<char>>>::empty(),
    {
        let m = ExceptionMap { entries: Vec::new() };
        assert(m.pairs() =~= Seq::empty());
        m
    }

    fn position(&self, name: &str) -> (r: Option<usize>)
        ensures
            match r {
                Some(i) => i < self.entries@.len() && self.entries@[i as int].name@ == name@
                    && forall|j: int| 0 <= j < i ==> self.entries@[j].name@ != name@,
                None => forall|j: int|
                    0 <= j < self.entries@.len() ==> self.entries@[j].name@ != name@,
            },
    {
        let key = String::from_str(name);
        let mut i: usize = 0;
        while i < self.entries.len()
            invariant
                i <= self.entries@.len(),
                key@ == name@,
                forall|j: int| 0 <= j < i ==> self.entries@[j].name@ != name@,
            decreases self.entries@.len() - i,
        {
            if self.entries[i].name == key {
                return Some(i);
            }
            i += 1;
        }
        None
    }

    /// Binds a core exception to a task; an earlier binding of the same
    /// exception is replaced. A name that is not that of a core exception is
    /// not taken in.
    pub fn insert(&mut self, name: String, path: Vec<String>) -> (added: bool)
        ensures
            final(self).wf(),
            added == is_core_exception(name@),
            final(self)@ == if added {
                old(self)@.insert(name@, texts(path@))
            } else {
                old(self)@
            },
            final(self).pairs() == if added {
                assoc_put(old(self).pairs(), name@, texts(path@))
            } else {
                old(self).pairs()
            },
    {
        proof {
            use_type_invariant(&*self);
        }
        if !is_known_exception(&name) {
            return false;
        }
        let ghost before = self.pairs();
        let found = self.position(name.as_str());
        let mut entries: Vec<ExceptionEntry> = Vec::new();
        core::mem::swap(&mut self.entries, &mut entries);
        assert(exception_pairs(entries@) =~= before);
        match found {
            Some(i) => {
                entries.set(i, ExceptionEntry { name, path });
                proof {
                    let after = exception_pairs(entries@);
                    assert(after =~= before.update(i as int, (name@, texts(path@))));
                    assert forall|a: int, b: int| 0 <= a < b < after.len() implies assoc_keys(
                        after,
                    )[a] != assoc_keys(after)[b] by {
                        assert(assoc_keys(before)[a] != assoc_keys(before)[b]);
                    }
                    assert forall|a: int| 0 <= a < after.len() implies is_core_exception(
                        #[trigger] assoc_keys(after)[a],
                    ) by {
                        assert(is_core_exception(assoc_keys(before)[a]));
                    }
                    assert forall|j: int| i < j < before.len() implies before[j].0
                        != before[i as int].0 by {
                        assert(assoc_keys(before)[i as int] != assoc_keys(before)[j]);
                    }
                    lemma_assoc_update(before, i as int, texts(path@));
                    lemma_assoc_put_at(before, i as int, name@, texts(path@));
                }
            },
            None => {
                entries.push(ExceptionEntry { name, path });
                proof {
                    let after = exception_pairs(entries@);
                    assert(after =~= before.push((name@, texts(path@))));
                    lemma_assoc_push(before, name@, texts(path@));
                    lemma_assoc_put_fresh(before, name@, texts(path@));
                    assert forall|a: int, b: int| 0 <= a < b < after.len() implies assoc_keys(
                        after,
                    )[a] != assoc_keys(after)[b] by {
                        if b < before.len() {
                            assert(assoc_keys(before)[a] != assoc_keys(before)[b]);
                        } else {
                            assert(before[a].0 != name@);
                        }
                    }
                    assert forall|a: int| 0 <= a < after.len() implies is_core_exception(
                        #[trigger] assoc_keys(after)[a],
                    ) by {
                        if a < before.len() {
                            assert(is_core_exception(assoc_keys(before)[a]));
                        }
                    }
                }
            },
        }
        self.entries = entries;
        assert(self.pairs() =~= exception_pairs(entries@));
        true
    }

    /// The task bound to an exception, if there is one.
    pub fn get(&self, name: &str) -> (r: Option<&Vec<String>>)
        ensures
            match r {
                Some(path) => self@.contains_key(name@) && self@[name@] == texts(path@),
                None => !self@.contains_key(name@),
            },
    {
        proof {
            use_type_invariant(self);
            lemma_assoc_domain(self.pairs());
            lemma_assoc_distinct(self.pairs());
        }
        match self.position(name) {
            Some(i) => {
                assert(self.pairs()[i as int].0 == name@);
                Some(&self.entries[i].path)
            },
            None => {
                proof {
                    if assoc_keys(self.pairs()).contains(name@) {
                        let j = choose|j: int|
                            0 <= j < self.pairs().len() && assoc_keys(self.pairs())[j] == name@;
                        assert(self.entries@[j].name@ == name@);
                    }
                }
                None
            },
        }
    }

    /// The entries of the map, in the order in which their exceptions were
    /// first bound.
    pub fn entries(&self) -> (entries: &Vec<ExceptionEntry>)
        ensures
            exception_pairs(entries@) == self.pairs(),
            assoc_map(exception_pairs(entries@)) == self@,
    {
        assert(exception_pairs(self.entries@) =~= self.pairs());
        &self.entries
    }

    /// The number of exceptions that are bound.
    pub fn len(&self) -> (n: usize)
        ensures
            self@.dom().finite(),
            n == self@.dom().len(),
            n <= CORE_EXCEPTIONS,
    {
        proof {
            use_type_invariant(self);
            self.lemma_bounded();
        }
        self.entries.len()
    }
}

/// A device interrupt bound to a task.
#[derive(PartialEq, Eq, Debug)]
pub struct InterruptEntry {
    pub number: u16,
    pub path: Vec<String>,
    pub bind: String,
}

/// A sequence of entries as pairs of a number and what is bound to it.
pub open spec fn interrupt_pairs(entries: Seq<InterruptEntry>) -> Seq<
    (u16, (Seq<Seq<char>>, Seq<char>)),
> {
    Seq::new(entries.len(), |i: int| (entries[i].number, (texts(entries[i].path@), entries[i].bind@)))
}

/// The tasks bound to device interrupts, by the number of the interrupt. Each
/// holds the task's path and the name of the interrupt.
pub struct InterruptMap {
    entries: Vec<InterruptEntry>,
}

impl View for InterruptMap {
    type V = Map<u16, (Seq<Seq<char>>, Seq<char>)>;

    open spec fn view(&self) -> Map<u16, (Seq<Seq<char>>, Seq<char>)> {
        assoc_map(self.pairs())
    }
}

impl InterruptMap {
    /// The entries as pairs of a number and what is bound to it, in the
    /// order in which the interrupts were first bound.
    pub closed spec fn pairs(&self) -> Seq<(u16, (Seq<Seq<char>>, Seq<char>))> {
        Seq::new(
            self.entries@.len(),
            |i: int|
                (self.entries@[i].number, (texts(self.entries@[i].path@), self.entries@[i].bind@)),
        )
    }

    /// No number occurs twice among the entries.
    pub closed spec fn wf(&self) -> bool {
        assoc_keys(self.pairs()).no_duplicates()
    }

    #[verifier::type_invariant]
    spec fn inv(self) -> bool {
        self.wf()
    }

    /// The empty map.
    pub fn new() -> (m: Self)
        ensures
            m.wf(),
            m.pairs() == Seq::<(u16, (Seq<Seq<char>>, Seq<char>))>::empty(),
            m@ == Map::<u16, (Seq<Seq<char>>, Seq<char>)>::empty(),
    {
        let m = InterruptMap { entries: Vec::new() };
        assert(m.pairs() =~= Seq::empty());
        m
    }

    fn position(&self, number: u16) -> (r: Option<usize>)
        ensures
            match r {
                Some(i) => i < self.entries@.len() && self.entries@[i as int].number == number
                    && forall|j: int| 0 <= j < i ==> self.entries@[j].number != number,
                None => forall|j: int|
                    0 <= j < self.entries@.len() ==> self.entries@[j].number != number,
            },
    {
        let mut i: usize = 0;
        while i < self.entries.len()
            invariant
                i <= self.entries@.len(),
                forall|j: int| 0 <= j < i ==> self.entries@[j].number != number,
            decreases self.entries@.len() - i,
        {
            if self.entries[i].number == number {
                return Some(i);
            }
            i += 1;
        }
        None
    }

    /// Binds an interrupt to a task; an earlier binding of the same number
    /// is replaced.
    pub fn insert(&mut self, number: u16, path: Vec<String>, bind: String)
        ensures
            final(self).wf(),
            final(self)@ == old(self)@.insert(number, (texts(path@), bind@)),
            final(self).pairs() == assoc_put(old(self).pairs(), number, (texts(path@), bind@)),
    {
        proof {
            use_type_invariant(&*self);
        }
        let ghost before = self.pairs();
        let ghost value = (texts(path@), bind@);
        let found = self.position(number);
        let mut entries: Vec<InterruptEntry> = Vec::new();
        core::mem::swap(&mut self.entries, &mut entries);
        let ghost pairs = |v: Seq<InterruptEntry>|
            Seq::new(v.len(), |i: int| (v[i].number, (texts(v[i].path@), v[i].bind@)));
        assert(pairs(entries@) =~= before);
        match found {
            Some(i) => {
                entries.set(i, InterruptEntry { number, path, bind });
                proof {
                    let after = pairs(entries@);
                    assert(after =~= before.update(i as int, (number, value)));
                    assert forall|a: int, b: int| 0 <= a < b < after.len() implies assoc_keys(
                        after,
                    )[a] != assoc_keys(after)[b] by {
                        assert(assoc_keys(before)[a] != assoc_keys(before)[b]);
                    }
                    assert forall|j: int| i < j < before.len() implies before[j].0
                        != before[i as int].0 by {
                        assert(assoc_keys(before)[i as int] != assoc_keys(before)[j]);
                    }
                    lemma_assoc_update(before, i as int, value);
                    lemma_assoc_put_at(before, i as int, number, value);
                }
            },
            None => {
                entries.push(InterruptEntry { number, path, bind });
                proof {
                    let after = pairs(entries@);
                    assert(after =~= before.push((number, value)));
                    lemma_assoc_push(before, number, value);
                    lemma_assoc_put_fresh(before, number, value);
                    assert forall|a: int, b: int| 0 <= a < b < after.len() implies assoc_keys(
                        after,
                    )[a] != assoc_keys(after)[b] by {
                        if b < before.len() {
                            assert(assoc_keys(before)[a] != assoc_keys(before)[b]);
                        } else {
                            assert(before[a].0 != number);
                        }
                    }
                }
            },
        }
        self.entries = entries;
        assert(self.pairs() =~= pairs(entries@));
    }

    /// What is bound to an interrupt, if anything is.
    pub fn get(&self, number: u16) -> (r: Option<&InterruptEntry>)
        ensures
            match r {
                Some(entry) => self@.contains_key(number) && self@[number] == (
                    texts(entry.path@),
                    entry.bind@,
                ) && entry.number == number,
                None => !self@.contains_key(number),
            },
    {
        proof {
            use_type_invariant(self);
            lemma_assoc_domain(self.pairs());
            lemma_assoc_distinct(self.pairs());
        }
        match self.position(number) {
            Some(i) => {
                assert(self.pairs()[i as int].0 == number);
                Some(&self.entries[i])
            },
            None => {
                proof {
                    if assoc_keys(self.pairs()).contains(number) {
                        let j = choose|j: int|
                            0 <= j < self.pairs().len() && assoc_keys(self.pairs())[j] == number;
                        assert(self.entries@[j].number == number);
                    }
                }
                None
            },
        }
    }

    /// The entries of the map, in the order in which their interrupts were
    /// first bound.
    pub fn entries(&self) -> (entries: &Vec<InterruptEntry>)
        ensures
            interrupt_pairs(entries@) == self.pairs(),
            assoc_map(interrupt_pairs(entries@)) == self@,
    {
        assert(interrupt_pairs(self.entries@) =~= self.pairs());
        &self.entries
    }

    /// A map holds each number once, so no more than there are numbers.
    pub proof fn lemma_bounded(&self)
        requires
            self.wf(),
        ensures
            self@.dom().finite(),
            self@.dom().len() == self.pairs().len(),
            self@.dom().len() <= 0x1_0000,
    {
        let keys = assoc_keys(self.pairs());
        lemma_assoc_domain(self.pairs());
        lemma_assoc_distinct(self.pairs());
        let numbers = Seq::new(keys.len(), |i: int| keys[i] as int);
        assert forall|i: int, j: int| 0 <= i < j < numbers.len() implies numbers[i]
            != numbers[j] by {
            assert(keys[i] != keys[j]);
        }
        lemma_distinct_in_range(numbers, 0x1_0000);
    }

    /// The number of interrupts that are bound.
    pub fn len(&self) -> (n: usize)
        ensures
            self@.dom().finite(),
            n == self@.dom().len(),
            n <= 0x1_0000,
    {
        proof {
            use_type_invariant(self);
            self.lemma_bounded();
        }
        self.entries.len()
    }
}

/// The software tasks by identifier: the task with identifier `i` is the
/// `i`-th that was added, counted from 0.
pub struct SoftwareTaskMap {
    paths: Vec<Vec<String>>,
}

impl View for SoftwareTaskMap {
    type V = Seq<Seq<Seq<char>>>;

    closed spec fn view(&self) -> Seq<Seq<Seq<char>>> {
        Seq::new(self.paths@.len(), |i: int| texts(self.paths@[i]@))
    }
}

impl SoftwareTaskMap {
    /// At most `MAX_SOFTWARE_TASKS` tasks are held.
    pub closed spec fn wf(&self) -> bool {
        self.paths@.len() <= MAX_SOFTWARE_TASKS
    }

    #[verifier::type_invariant]
    spec fn inv(self) -> bool {
        self.wf()
    }

    /// The map from each identifier in use to the path of its task.
    pub open spec fn as_map(&self) -> Map<nat, Seq<Seq<char>>> {
        Map::new(|id: nat| id < self@.len(), |id: nat| self@[id as int])
    }

    /// The empty map.
    pub fn new() -> (m: Self)
        ensures
            m.wf(),
            m@ == Seq::<Seq<Seq<char>>>::empty(),
    {
        let m = SoftwareTaskMap { paths: Vec::new() };
        assert(m@ =~= Seq::empty());
        m
    }

    /// Gives the next free identifier to a task. Nothing is added once all
    /// identifiers are in use.
    pub fn push(&mut self, path: Vec<String>) -> (id: Option<usize>)
        ensures
            final(self).wf(),
            old(self)@.len() <= MAX_SOFTWARE_TASKS,
            match id {
                Some(id) => id == old(self)@.len() && id < MAX_SOFTWARE_TASKS && final(self)@
                    == old(self)@.push(texts(path@)),
                None => old(self)@.len() == MAX_SOFTWARE_TASKS && final(self)@ == old(self)@,
            },
    {
        proof {
            use_type_invariant(&*self);
        }
        let id = self.paths.len();
        if id >= MAX_SOFTWARE_TASKS {
            return None;
        }
        let ghost before = self@;
        let mut paths: Vec<Vec<String>> = Vec::new();
        core::mem::swap(&mut self.paths, &mut paths);
        paths.push(path);
        self.paths = paths;
        assert(self@ =~= before.push(texts(path@)));
        Some(id)
    }

    /// The path of the task with an identifier, if the identifier is in use.
    pub fn get(&self, id: usize) -> (r: Option<&Vec<String>>)
        ensures
            match r {
                Some(path) => id < self@.len() && self@[id as int] == texts(path@),
                None => id >= self@.len(),
            },
    {
        if id < self.paths.len() {
            Some(&self.paths[id])
        } else {
            None
        }
    }

    /// The paths of the tasks, in the order of their identifiers.
    pub fn paths(&self) -> (paths: &Vec<Vec<String>>)
        ensures
            paths@.len() == self@.len(),
            forall|id: int| 0 <= id < paths@.len() ==> texts((#[trigger] paths@[id])@) == self@[id],
    {
        &self.paths
    }

    /// The number of software tasks.
    pub fn len(&self) -> (n: usize)
        ensures
            n == self@.len(),
            n <= MAX_SOFTWARE_TASKS,
    {
        proof {
            use_type_invariant(self);
        }
        self.paths.len()
    }
}

/// The identifiers in use are exactly those below the number of tasks, and
/// there are at most `MAX_SOFTWARE_TASKS` of them.
pub proof fn lemma_identifiers_dense(tasks: SoftwareTaskMap)
    requires
        tasks.wf(),
    ensures
        tasks@.len() <= MAX_SOFTWARE_TASKS,
        forall|id: nat| tasks.as_map().contains_key(id) <==> id < tasks@.len(),
        tasks.as_map().dom() =~= Set::new(|id: nat| id < tasks@.len()),
{
}

/// The maps of one application: core exceptions, device interrupts and
/// software tasks.
pub struct TaskResolveMaps {
    pub exceptions: ExceptionMap,
    pub interrupts: InterruptMap,
    pub sw_assocs: SoftwareTaskMap,
}

/// The line that shows a core exception and its task.
pub open spec fn exception_line(entry: (Seq<char>, Seq<Seq<char>>)) -> Seq<char> {
    "        "@ + entry.0 + " -> "@ + text_list_text(entry.1) + "\n"@
}

/// The line that shows a device interrupt, its task and its name.
pub open spec fn interrupt_line(entry: (u16, (Seq<Seq<char>>, Seq<char>))) -> Seq<char> {
    "        "@ + decimal_text(entry.0 as nat) + " -> ("@ + text_list_text(entry.1.0) + ", "@
        + debug_text(entry.1.1) + ")\n"@
}

/// The line that shows a software task under its identifier.
pub open spec fn task_line(id: nat, path: Seq<Seq<char>>) -> Seq<char> {
    "        "@ + decimal_text(id) + " -> "@ + text_list_text(path) + "\n"@
}

/// The text that shows the three maps: under a heading for each, one line
/// for each entry, in the order of the entries.
pub open spec fn maps_text(
    exceptions: Seq<(Seq<char>, Seq<Seq<char>>)>,
    interrupts: Seq<(u16, (Seq<Seq<char>>, Seq<char>))>,
    tasks: Seq<Seq<Seq<char>>>,
) -> Seq<char> {
    "exceptions:\n"@ + concatenated(
        Seq::new(exceptions.len(), |i: int| exception_line(exceptions[i])),
    ) + "interrupts:\n"@ + concatenated(
        Seq::new(interrupts.len(), |i: int| interrupt_line(interrupts[i])),
    ) + "software tasks:\n"@ + concatenated(
        Seq::new(tasks.len(), |i: int| task_line(i as nat, tasks[i])),
    )
}

impl ExceptionMap {
    fn describe_into(&self, s: &mut String)
        ensures
            final(s)@ == old(s)@ + concatenated(
                Seq::new(self.pairs().len(), |i: int| exception_line(self.pairs()[i])),
            ),
    {
        let ghost start = s@;
        let ghost lines = Seq::new(self.pairs().len(), |i: int| exception_line(self.pairs()[i]));
        let mut i: usize = 0;
        assert(start + concatenated(lines.take(0)) =~= start);
        while i < self.entries.len()
            invariant
                i <= self.entries.len(),
                lines == Seq::new(self.pairs().len(), |i: int| exception_line(self.pairs()[i])),
                lines.len() == self.entries@.len(),
                s@ == start + concatenated(lines.take(i as int)),
            decreases self.entries.len() - i,
        {
            assert(lines.take(i + 1).drop_last() =~= lines.take(i as int));
            assert(lines.take(i + 1).last() == exception_line(self.pairs()[i as int]));
            let ghost before = s@;
            s.append("        ");
            s.append(self.entries[i].name.as_str());
            s.append(" -> ");
            s.append(text_list_string(&self.entries[i].path).as_str());
            s.append("\n");
            assert(s@ =~= before + exception_line(self.pairs()[i as int]));
            assert(s@ =~= start + concatenated(lines.take(i + 1)));
            i += 1;
        }
        assert(lines.take(self.entries.len() as int) =~= lines);
    }
}

impl InterruptMap {
    fn describe_into(&self, s: &mut String)
        ensures
            final(s)@ == old(s)@ + concatenated(
                Seq::new(self.pairs().len(), |i: int| interrupt_line(self.pairs()[i])),
            ),
    {
        let ghost start = s@;
        let ghost lines = Seq::new(self.pairs().len(), |i: int| interrupt_line(self.pairs()[i]));
        let mut i: usize = 0;
        assert(start + concatenated(lines.take(0)) =~= start);
        while i < self.entries.len()
            invariant
                i <= self.entries.len(),
                lines == Seq::new(self.pairs().len(), |i: int| interrupt_line(self.pairs()[i])),
                lines.len() == self.entries@.len(),
                s@ == start + concatenated(lines.take(i as int)),
            decreases self.entries.len() - i,
        {
            assert(lines.take(i + 1).drop_last() =~= lines.take(i as int));
            assert(lines.take(i + 1).last() == interrupt_line(self.pairs()[i as int]));
            let ghost before = s@;
            s.append("        ");
            s.append(decimal_string(self.entries[i].number as u64).as_str());
            s.append(" -> (");
            s.append(text_list_string(&self.entries[i].path).as_str());
            s.append(", ");
            s.append(debug_string(self.entries[i].bind.as_str()).as_str());
            s.append(")\n");
            assert(s@ =~= before + interrupt_line(self.pairs()[i as int]));
            assert(s@ =~= start + concatenated(lines.take(i + 1)));
            i += 1;
        }
        assert(lines.take(self.entries.len() as int) =~= lines);
    }
}

impl SoftwareTaskMap {
    fn describe_into(&self, s: &mut String)
        ensures
            final(s)@ == old(s)@ + concatenated(
                Seq::new(self@.len(), |i: int| task_line(i as nat, self@[i])),
            ),
    {
        let ghost start = s@;
        let ghost lines = Seq::new(self@.len(), |i: int| task_line(i as nat, self@[i]));
        let mut i: usize = 0;
        assert(start + concatenated(lines.take(0)) =~= start);
        while i < self.paths.len()
            invariant
                i <= self.paths.len(),
                lines == Seq::new(self@.len(), |i: int| task_line(i as nat, self@[i])),
                lines.len() == self.paths@.len(),
                s@ == start + concatenated(lines.take(i as int)),
            decreases self.paths.len() - i,
        {
            assert(lines.take(i + 1).drop_last() =~= lines.take(i as int));
            assert(lines.take(i + 1).last() == task_line(i as nat, self@[i as int]));
            let ghost before = s@;
            s.append("        ");
            s.append(decimal_string(i as u64).as_str());
            s.append(" -> ");
            s.append(text_list_string(&self.paths[i]).as_str());
            s.append("\n");
            assert(s@ =~= before + task_line(i as nat, self@[i as int]));
            assert(s@ =~= start + concatenated(lines.take(i + 1)));
            i += 1;
        }
        assert(lines.take(self.paths.len() as int) =~= lines);
    }
}

impl TaskResolveMaps {
    /// Shows the three maps as text: under a heading for each, one line for
    /// each entry. The entries of the two hardware maps come in the order in
    /// which they were first bound, the software tasks by identifier.
    pub fn describe(&self) -> (s: String)
        ensures
            s@ == maps_text(self.exceptions.pairs(), self.interrupts.pairs(), self.sw_assocs@),
    {
        let mut s = String::from_str("exceptions:\n");
        self.exceptions.describe_into(&mut s);
        s.append("interrupts:\n");
        self.interrupts.describe_into(&mut s);
        s.append("software tasks:\n");
        self.sw_assocs.describe_into(&mut s);
        s
    }
}

} // verus!
