//! The declarations of an application as a tree, and the software tasks that
//! are traced in it.

use vstd::prelude::*;
use crate::error::{RecoveryError, RecoveryErrorView};
use crate::maps::{SoftwareTaskMap, MAX_SOFTWARE_TASKS};
use crate::text::{clone_strings, texts};

verus! {

/// One declaration of the application: a function, which may be traced; a
/// module; or anything else. The `items` of a function are the statements of
/// its body, of a module its content; those that declare neither a function
/// nor a module are `Other`.
#[derive(PartialEq, Eq, Debug)]
pub enum Declaration {
    Function { name: String, attributes: Vec<String>, items: Vec<Declaration> },
    Module { name: String, items: Vec<Declaration> },
    Other,
}

/// A `Declaration` over mathematical values.
pub enum DeclarationView {
    Function { name: Seq<char>, attributes: Seq<Seq<char>>, items: Seq<DeclarationView> },
    Module { name: Seq<char>, items: Seq<DeclarationView> },
    Other,
}

impl View for Declaration {
    type V = DeclarationView;

    open spec fn view(&self) -> DeclarationView
        decreases self,
    {
        match self {
            Declaration::Function { name, attributes, items } => DeclarationView::Function {
                name: name@,
                attributes: texts(attributes@),
                items: Seq::new(
                    items@.len(),
                    |i: int|
                        if 0 <= i < items@.len() {
                            items@[i]@
                        } else {
                            DeclarationView::Other
                        },
                ),
            },
            Declaration::Module { name, items } => DeclarationView::Module {
                name: name@,
                items: Seq::new(
                    items@.len(),
                    |i: int|
                        if 0 <= i < items@.len() {
                            items@[i]@
                        } else {
                            DeclarationView::Other
                        },
                ),
            },
            Declaration::Other => DeclarationView::Other,
        }
    }
}

/// The views of a sequence of declarations, one for one.
pub open spec fn declaration_views(items: Seq<Declaration>) -> Seq<DeclarationView> {
    Seq::new(items.len(), |i: int| items[i]@)
}

/// Whether a function with these attributes is traced: one of them is
/// `trace`.
pub open spec fn is_traced(attributes: Seq<Seq<char>>) -> bool {
    attributes.contains("trace"@)
}

/// The paths of the traced functions in a declaration, in the order in which
/// the declaration is walked: a function before the items in it, the items in
/// the order in which they stand. The path of a function is the names of the
/// modules and functions around it, from the outermost on, and its own.
pub open spec fn traced_paths(d: DeclarationView, scope: Seq<Seq<char>>) -> Seq<Seq<Seq<char>>>
    decreases d,
{
    match d {
        DeclarationView::Function { name, attributes, items } => {
            let here = scope.push(name);
            let own = if is_traced(attributes) {
                seq![here]
            } else {
                Seq::empty()
            };
            own + traced_paths_among(items, here)
        },
        DeclarationView::Module { name, items } => traced_paths_among(items, scope.push(name)),
        DeclarationView::Other => Seq::empty(),
    }
}

/// The paths of the traced functions in a sequence of declarations that stand
/// in one scope.
pub open spec fn traced_paths_among(items: Seq<DeclarationView>, scope: Seq<Seq<char>>) -> Seq<
    Seq<Seq<char>>,
>
    decreases items,
{
    if items.len() == 0 {
        Seq::empty()
    } else {
        traced_paths_among(items.drop_last(), scope) + traced_paths(items.last(), scope)
    }
}

/// The software tasks of an application: the paths of its traced functions by
/// identifier, where there are no more than `MAX_SOFTWARE_TASKS`.
pub open spec fn extraction(app: DeclarationView) -> Option<Seq<Seq<Seq<char>>>> {
    if traced_paths(app, Seq::empty()).len() <= MAX_SOFTWARE_TASKS {
        Some(traced_paths(app, Seq::empty()))
    } else {
        None
    }
}

/// Two walks of one application find the same software tasks: the same paths
/// under the same identifiers, in the same order.
pub proof fn lemma_traversal_deterministic(
    app: DeclarationView,
    first: SoftwareTaskMap,
    second: SoftwareTaskMap,
)
    requires
        extraction(app) == Some(first@),
        extraction(app) == Some(second@),
    ensures
        first@ == second@,
        first.as_map() == second.as_map(),
{
}

/// The source of task identifiers: 0, 1, 2 and so on, one for each traced
/// function in the order in which they are met.
pub struct TaskIdGenerator {
    next: usize,
}

impl TaskIdGenerator {
    /// The identifier that is given out next.
    pub closed spec fn next_id(&self) -> nat {
        self.next as nat
    }

    /// No identifier beyond the last one has been given out.
    pub closed spec fn wf(&self) -> bool {
        self.next <= MAX_SOFTWARE_TASKS
    }

    #[verifier::type_invariant]
    spec fn inv(self) -> bool {
        self.wf()
    }

    /// A generator that starts at 0.
    pub fn new() -> (g: Self)
        ensures
            g.wf(),
            g.next_id() == 0,
    {
        TaskIdGenerator { next: 0 }
    }

    /// Gives out the next identifier; none is left after
    /// `MAX_SOFTWARE_TASKS`.
    pub fn generate(&mut self) -> (r: Result<usize, RecoveryError>)
        ensures
            final(self).wf(),
            match r {
                Ok(id) => id == old(self).next_id() && id < MAX_SOFTWARE_TASKS
                    && final(self).next_id() == id + 1,
                Err(e) => e@ == RecoveryErrorView::TooManySoftwareTasks && old(self).next_id()
                    == MAX_SOFTWARE_TASKS && final(self).next_id() == old(self).next_id(),
            },
    {
        proof {
            use_type_invariant(&*self);
        }
        let id = self.next;
        if id >= MAX_SOFTWARE_TASKS {
            return Err(RecoveryError::TooManySoftwareTasks);
        }
        self.next = id + 1;
        Ok(id)
    }
}

fn has_trace_attribute(attributes: &Vec<String>) -> (r: bool)
    ensures
        r == is_traced(texts(attributes@)),
{
    let marker = String::from_str("trace");
    let mut i: usize = 0;
    while i < attributes.len()
        invariant
            i <= attributes.len(),
            marker@ == "trace"@,
            forall|j: int| 0 <= j < i ==> (#[trigger] attributes@[j])@ != "trace"@,
        decreases attributes.len() - i,
    {
        if attributes[i] == marker {
            assert(texts(attributes@)[i as int] == "trace"@);
            return true;
        }
        i += 1;
    }
    assert forall|j: int| 0 <= j < texts(attributes@).len() implies texts(attributes@)[j]
        != "trace"@ by {
        assert(attributes@[j]@ != "trace"@);
    }
    false
}

/// The paths in a front part of a sequence of declarations are among those of
/// the whole sequence.
pub proof fn lemma_paths_among_grow(items: Seq<DeclarationView>, scope: Seq<Seq<char>>, n: int)
    requires
        0 <= n <= items.len(),
    ensures
        traced_paths_among(items.take(n), scope).len() <= traced_paths_among(items, scope).len(),
    decreases items.len(),
{
    if n == items.len() {
        assert(items.take(n) =~= items);
    } else {
        assert(items.drop_last().take(n) =~= items.take(n));
        lemma_paths_among_grow(items.drop_last(), scope, n);
    }
}

/// Walks one declaration and what is declared in it, and gives each traced
/// function the next identifier.
#[verifier::loop_isolation(false)]
fn traverse_item(
    item: &Declaration,
    ctx: &mut Vec<String>,
    assocs: &mut SoftwareTaskMap,
    id_gen: &mut TaskIdGenerator,
) -> (r: Result<(), RecoveryError>)
    requires
        old(id_gen).next_id() == old(assocs)@.len(),
    ensures
        match r {
            Ok(()) => {
                &&& texts(final(ctx)@) == texts(old(ctx)@)
                &&& final(assocs)@ == old(assocs)@ + traced_paths(item@, texts(old(ctx)@))
                &&& final(id_gen).next_id() == final(assocs)@.len()
            },
            Err(e) => {
                &&& e@ == RecoveryErrorView::TooManySoftwareTasks
                &&& old(assocs)@.len() + traced_paths(item@, texts(old(ctx)@)).len()
                    > MAX_SOFTWARE_TASKS
            },
        },
    decreases item,
{
    let ghost scope = texts(ctx@);
    let ghost start = assocs@;
    match item {
        Declaration::Function { name, attributes, items } => {
            ctx.push(name.clone());
            let ghost here = scope.push(name@);
            assert(texts(ctx@) =~= here);
            let ghost own = if is_traced(texts(attributes@)) {
                seq![here]
            } else {
                Seq::empty()
            };
            let ghost views = declaration_views(items@);
            assert(item@ matches DeclarationView::Function { items: inner, .. } && inner
                =~= views);
            if has_trace_attribute(attributes) {
                match id_gen.generate() {
                    Ok(id) => {
                        let path = clone_strings(ctx);
                        let given = assocs.push(path);
                        assert(given == Some(id));
                    },
                    Err(e) => {
                        return Err(e);
                    },
                }
            }
            assert(assocs@ =~= start + own);
            let mut i: usize = 0;
            while i < items.len()
                invariant
                    i <= items.len(),
                    texts(ctx@) == here,
                    views == declaration_views(items@),
                    assocs@ == start + own + traced_paths_among(views.take(i as int), here),
                    id_gen.next_id() == assocs@.len(),
                decreases items.len() - i,
            {
                assert(views.take(i + 1).drop_last() =~= views.take(i as int));
                assert(views.take(i + 1).last() == items@[i as int]@);
                match traverse_item(&items[i], ctx, assocs, id_gen) {
                    Ok(()) => {
                        assert(assocs@ =~= start + own + traced_paths_among(
                            views.take(i + 1),
                            here,
                        ));
                    },
                    Err(e) => {
                        proof {
                            lemma_paths_among_grow(views, here, i + 1);
                        }
                        return Err(e);
                    },
                }
                i += 1;
            }
            assert(views.take(items.len() as int) =~= views);
            let ghost full = ctx@;
            ctx.pop();
            assert(texts(full.drop_last()) =~= texts(full).drop_last());
            assert(here.drop_last() =~= scope);
            Ok(())
        },
        Declaration::Module { name, items } => {
            ctx.push(name.clone());
            let ghost here = scope.push(name@);
            assert(texts(ctx@) =~= here);
            assert(assocs@ =~= start + Seq::<Seq<Seq<char>>>::empty());
            let ghost views = declaration_views(items@);
            assert(item@ matches DeclarationView::Module { items: inner, .. } && inner =~= views);
            let mut i: usize = 0;
            while i < items.len()
                invariant
                    i <= items.len(),
                    texts(ctx@) == here,
                    views == declaration_views(items@),
                    assocs@ == start + traced_paths_among(views.take(i as int), here),
                    id_gen.next_id() == assocs@.len(),
                decreases items.len() - i,
            {
                assert(views.take(i + 1).drop_last() =~= views.take(i as int));
                assert(views.take(i + 1).last() == items@[i as int]@);
                match traverse_item(&items[i], ctx, assocs, id_gen) {
                    Ok(()) => {
                        assert(assocs@ =~= start + traced_paths_among(views.take(i + 1), here));
                    },
                    Err(e) => {
                        proof {
                            lemma_paths_among_grow(views, here, i + 1);
                        }
                        return Err(e);
                    },
                }
                i += 1;
            }
            assert(views.take(items.len() as int) =~= views);
            let ghost full = ctx@;
            ctx.pop();
            assert(texts(full.drop_last()) =~= texts(full).drop_last());
            assert(here.drop_last() =~= scope);
            Ok(())
        },
        Declaration::Other => {
            assert(assocs@ =~= start + Seq::<Seq<Seq<char>>>::empty());
            Ok(())
        },
    }
}

/// Finds the software tasks of an application: its traced functions, each
/// under the identifier that the order of the walk gives it, starting at 0.
/// An application with more than `MAX_SOFTWARE_TASKS` traced functions is
/// refused.
pub fn software_tasks(app: &Declaration) -> (r: Result<SoftwareTaskMap, RecoveryError>)
    ensures
        match r {
            Ok(tasks) => extraction(app@) == Some(tasks@),
            Err(e) => extraction(app@) is None && e@ == RecoveryErrorView::TooManySoftwareTasks,
        },
{
    let mut ctx: Vec<String> = Vec::new();
    let mut assocs = SoftwareTaskMap::new();
    let mut id_gen = TaskIdGenerator::new();
    assert(texts(ctx@) =~= Seq::empty());
    match traverse_item(app, &mut ctx, &mut assocs, &mut id_gen) {
        Ok(()) => {
            assert(assocs@ =~= traced_paths(app@, Seq::empty()));
            // A map of software tasks never holds more than `MAX_SOFTWARE_TASKS`.
            let count = assocs.len();
            assert(count <= MAX_SOFTWARE_TASKS);
            Ok(assocs)
        },
        Err(e) => Err(e),
    }
}

} // verus!
