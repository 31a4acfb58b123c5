//! The probe that asks the hardware description of the target for the numbers
//! of its interrupts.
//!
//! The numbers are defined in the crate that describes the target's hardware.
//! To read them, a small crate is written to disk that depends on that crate
//! and holds one function for each interrupt, which returns the interrupt's
//! number. It is built for the host as a library that can be loaded, and each
//! function is looked up in it and called. This module decides what is
//! written, in which order the steps are taken, and what a failure of each
//! step means. The steps themselves are taken by the caller.

use vstd::prelude::*;
use crate::binding::{number_pairs, InterruptNumber};
use crate::error::{RecoveryError, RecoveryErrorView};
use crate::manifest::ManifestProperties;
use crate::syntax::{
    error_text, render, rendered, token_outline, token_views, tokenize, Token, TokenView,
};
use crate::text::{join, joined, texts};

verus! {

/// The name of the function that returns the number of an interrupt.
pub open spec fn symbol_text(bind: Seq<char>) -> Seq<char> {
    "rtic_scope_func_"@ + bind
}

/// The source of the function that returns the number of an interrupt.
pub open spec fn function_text(bind: Seq<char>) -> Seq<char> {
    "\n# [no_mangle] pub extern fn "@ + symbol_text(bind) + " () -> u16 { Interrupt :: "@ + bind
        + " . number () }\n"@
}

/// Each text between double quotes.
pub open spec fn quoted(items: Seq<Seq<char>>) -> Seq<Seq<char>> {
    Seq::new(items.len(), |i: int| "\""@ + items[i] + "\""@)
}

/// The line of the manifest by which the probe crate depends on the hardware
/// description crate.
pub open spec fn dependency_text(
    name: Seq<char>,
    version: Seq<char>,
    features: Seq<Seq<char>>,
) -> Seq<char> {
    "\n"@ + name + " = { version = \""@ + version + "\", features = ["@ + joined(
        quoted(features),
        ","@,
    ) + "]}\n"@
}

/// The token of a word or of a punctuation character that stands alone.
pub open spec fn plain_token(text: Seq<char>) -> TokenView {
    TokenView { text, joint: false, inner: None }
}

/// The line that imports the enumeration of the interrupts, given the tokens
/// of the path to it.
pub open spec fn import_text(path: Seq<TokenView>) -> Seq<char> {
    "\n"@ + rendered(seq![plain_token("use"@)] + path + seq![plain_token(";"@)]) + "\n"@
}

/// What is written into the probe crate, and the functions to look up.
#[derive(PartialEq, Eq, Debug)]
pub struct ProbePlan {
    /// The line to append to the manifest.
    pub manifest: String,
    /// The import to append to the source.
    pub import: String,
    /// The functions to append to the source, one for each interrupt.
    pub functions: Vec<String>,
    /// The names of these functions.
    pub symbols: Vec<String>,
}

/// The name of the function that returns the number of an interrupt.
pub fn probe_symbol(bind: &String) -> (s: String)
    ensures
        s@ == symbol_text(bind@),
{
    let mut s = String::from_str("rtic_scope_func_");
    s.append(bind.as_str());
    s
}

/// The source of the function that returns the number of an interrupt.
pub fn probe_function(bind: &String) -> (s: String)
    ensures
        s@ == function_text(bind@),
{
    let mut s = String::from_str("\n# [no_mangle] pub extern fn ");
    s.append(probe_symbol(bind).as_str());
    s.append(" () -> u16 { Interrupt :: ");
    s.append(bind.as_str());
    s.append(" . number () }\n");
    s
}

/// The line of the manifest by which the probe crate depends on the hardware
/// description crate.
pub fn dependency_line(pacp: &ManifestProperties) -> (s: String)
    ensures
        s@ == dependency_text(pacp.pac_name@, pacp.pac_version@, texts(pacp.pac_features@)),
{
    let mut items: Vec<String> = Vec::new();
    let mut i: usize = 0;
    while i < pacp.pac_features.len()
        invariant
            i <= pacp.pac_features.len(),
            items.len() == i,
            forall|j: int|
                0 <= j < i ==> (#[trigger] items@[j])@ == "\""@ + pacp.pac_features@[j]@ + "\""@,
        decreases pacp.pac_features.len() - i,
    {
        let mut item = String::from_str("\"");
        item.append(pacp.pac_features[i].as_str());
        item.append("\"");
        items.push(item);
        i += 1;
    }
    assert(texts(items@) =~= quoted(texts(pacp.pac_features@)));
    let mut s = String::from_str("\n");
    s.append(pacp.pac_name.as_str());
    s.append(" = { version = \"");
    s.append(pacp.pac_version.as_str());
    s.append("\", features = [");
    s.append(join(&items, ",").as_str());
    s.append("]}\n");
    s
}

/// The line that imports the enumeration of the interrupts. The path to the
/// enumeration has to be a sequence of tokens.
pub fn import_line(pacp: &ManifestProperties) -> (r: Result<String, RecoveryError>)
    ensures
        match token_outline(pacp.interrupt_path@) {
            None => r matches Err(RecoveryError::TokenizeFail(_)),
            Some(path) => r matches Ok(s) && s@ == import_text(path),
        },
{
    match tokenize(pacp.interrupt_path.as_str()) {
        Err(e) => Err(RecoveryError::TokenizeFail(error_text(&e))),
        Ok(path) => {
            let ghost path_views = token_views(path@);
            let mut tokens: Vec<Token> = Vec::new();
            tokens.push(Token { text: String::from_str("use"), joint: false, inner: None });
            let mut path = path;
            tokens.append(&mut path);
            tokens.push(Token { text: String::from_str(";"), joint: false, inner: None });
            proof {
                let expected = seq![plain_token("use"@)] + path_views + seq![plain_token(";"@)];
                assert(token_views(tokens@).len() == expected.len());
                assert forall|i: int| 0 <= i < expected.len() implies token_views(tokens@)[i]
                    == expected[i] by {
                    if 0 < i < expected.len() - 1 {
                        assert(tokens@[i]@ == path_views[i - 1]);
                    }
                }
                assert(token_views(tokens@) =~= expected);
                assert(token_views(tokens@).skip(0) =~= token_views(tokens@));
            }
            let mut s = String::from_str("\n");
            s.append(render(&tokens, 0).as_str());
            s.append("\n");
            Ok(s)
        },
    }
}

/// Plans the probe for some interrupts: what is written into the probe crate,
/// and the functions to look up, one for each interrupt and in their order.
pub fn plan_probe(pacp: &ManifestProperties, binds: &Vec<String>) -> (r: Result<
    ProbePlan,
    RecoveryError,
>)
    ensures
        match token_outline(pacp.interrupt_path@) {
            None => r matches Err(RecoveryError::TokenizeFail(_)),
            Some(path) => r matches Ok(plan) && plan_matches(plan, *pacp, path, texts(binds@)),
        },
{
    match import_line(pacp) {
        Err(e) => Err(e),
        Ok(import) => {
            let mut functions: Vec<String> = Vec::new();
            let mut symbols: Vec<String> = Vec::new();
            let mut i: usize = 0;
            while i < binds.len()
                invariant
                    i <= binds.len(),
                    functions.len() == i,
                    symbols.len() == i,
                    forall|j: int|
                        0 <= j < i ==> (#[trigger] functions@[j])@ == function_text(binds@[j]@),
                    forall|j: int|
                        0 <= j < i ==> (#[trigger] symbols@[j])@ == symbol_text(binds@[j]@),
                decreases binds.len() - i,
            {
                functions.push(probe_function(&binds[i]));
                symbols.push(probe_symbol(&binds[i]));
                i += 1;
            }
            let plan = ProbePlan { manifest: dependency_line(pacp), import, functions, symbols };
            assert(texts(plan.functions@) =~= Seq::new(
                binds@.len(),
                |i: int| function_text(texts(binds@)[i]),
            ));
            assert(texts(plan.symbols@) =~= Seq::new(
                binds@.len(),
                |i: int| symbol_text(texts(binds@)[i]),
            ));
            Ok(plan)
        },
    }
}

/// Whether a plan is the one for these manifest properties and interrupts,
/// given the tokens of the path to the enumeration of the interrupts.
pub open spec fn plan_matches(
    plan: ProbePlan,
    pacp: ManifestProperties,
    path: Seq<TokenView>,
    binds: Seq<Seq<char>>,
) -> bool {
    &&& plan.manifest@ == dependency_text(
        pacp.pac_name@,
        pacp.pac_version@,
        texts(pacp.pac_features@),
    )
    &&& plan.import@ == import_text(path)
    &&& texts(plan.functions@) == Seq::new(binds.len(), |i: int| function_text(binds[i]))
    &&& texts(plan.symbols@) == Seq::new(binds.len(), |i: int| symbol_text(binds[i]))
}

/// A step of the probe.
#[derive(Clone, Copy, PartialEq, Eq, Structural, Debug)]
pub enum ProbeStage {
    /// The skeleton of the probe crate is written to disk.
    Extract,
    /// The manifest of the skeleton is given its name.
    Rename,
    /// The dependency is appended to the manifest.
    Manifest,
    /// The import is appended to the source.
    Import,
    /// The function of the interrupt at this position is appended to the
    /// source.
    Function(usize),
    /// The probe crate is built.
    Build,
    /// The library that was built is loaded.
    Load,
    /// The function of the interrupt at this position is looked up and
    /// called.
    Lookup(usize),
    /// All interrupts have their numbers.
    Finished,
    /// A step has failed.
    Failed,
}

/// What the caller is asked to do.
#[derive(PartialEq, Eq, Debug)]
pub enum ProbeAction {
    /// Write the skeleton of the probe crate to disk.
    ExtractSkeleton,
    /// Give the manifest of the skeleton its name.
    RenameManifest,
    /// Append this text to the manifest.
    AppendManifest(String),
    /// Append this text to the source.
    AppendSource(String),
    /// Build the probe crate for the host, as a library that can be loaded.
    Build,
    /// Load the library.
    Load,
    /// Look up the function of this name in the library and call it.
    Lookup(String),
    /// Nothing is left to do.
    Stop,
}

/// A `ProbeAction` over mathematical values.
pub enum ProbeActionView {
    ExtractSkeleton,
    RenameManifest,
    AppendManifest(Seq<char>),
    AppendSource(Seq<char>),
    Build,
    Load,
    Lookup(Seq<char>),
    Stop,
}

impl View for ProbeAction {
    type V = ProbeActionView;

    open spec fn view(&self) -> ProbeActionView {
        match self {
            ProbeAction::ExtractSkeleton => ProbeActionView::ExtractSkeleton,
            ProbeAction::RenameManifest => ProbeActionView::RenameManifest,
            ProbeAction::AppendManifest(text) => ProbeActionView::AppendManifest(text@),
            ProbeAction::AppendSource(text) => ProbeActionView::AppendSource(text@),
            ProbeAction::Build => ProbeActionView::Build,
            ProbeAction::Load => ProbeActionView::Load,
            ProbeAction::Lookup(symbol) => ProbeActionView::Lookup(symbol@),
            ProbeAction::Stop => ProbeActionView::Stop,
        }
    }
}

/// What came of the action that was asked for.
#[derive(PartialEq, Eq, Debug)]
pub enum ProbeEvent {
    /// The action was taken.
    Done,
    /// The function was called and returned this number.
    Number(u16),
    /// The action failed, for this reason.
    Failed(String),
}

/// The step that follows a step that was taken, for a number of interrupts.
pub open spec fn stage_after(stage: ProbeStage, count: nat) -> ProbeStage {
    match stage {
        ProbeStage::Extract => ProbeStage::Rename,
        ProbeStage::Rename => ProbeStage::Manifest,
        ProbeStage::Manifest => ProbeStage::Import,
        ProbeStage::Import => if count > 0 {
            ProbeStage::Function(0)
        } else {
            ProbeStage::Build
        },
        ProbeStage::Function(i) => if i + 1 < count {
            ProbeStage::Function((i + 1) as usize)
        } else {
            ProbeStage::Build
        },
        ProbeStage::Build => ProbeStage::Load,
        ProbeStage::Load => if count > 0 {
            ProbeStage::Lookup(0)
        } else {
            ProbeStage::Finished
        },
        ProbeStage::Lookup(i) => if i + 1 < count {
            ProbeStage::Lookup((i + 1) as usize)
        } else {
            ProbeStage::Finished
        },
        ProbeStage::Finished => ProbeStage::Finished,
        ProbeStage::Failed => ProbeStage::Failed,
    }
}

/// What the failure of a step means: the probe crate could not be written,
/// built or loaded, or a function could not be looked up.
pub open spec fn failure(stage: ProbeStage, cause: Seq<char>) -> RecoveryErrorView {
    match stage {
        ProbeStage::Build => RecoveryErrorView::LibBuildFail(cause),
        ProbeStage::Load => RecoveryErrorView::LibLoadFail(cause),
        ProbeStage::Lookup(_) => RecoveryErrorView::LibLookupFail(cause),
        _ => RecoveryErrorView::LibExtractFail(cause),
    }
}

/// Whether a step is still to be taken.
pub open spec fn is_pending(stage: ProbeStage) -> bool {
    stage != ProbeStage::Finished && stage != ProbeStage::Failed
}

/// Whether an event answers the action of a step: a number answers a lookup,
/// `Done` any other step, and a failure any step.
pub open spec fn answers(stage: ProbeStage, event: ProbeEvent) -> bool {
    is_pending(stage) && match event {
        ProbeEvent::Done => !(stage is Lookup),
        ProbeEvent::Number(_) => stage is Lookup,
        ProbeEvent::Failed(_) => true,
    }
}

/// The probe for some interrupts, step by step.
pub struct Prober {
    plan: ProbePlan,
    binds: Vec<String>,
    stage: ProbeStage,
    numbers: Vec<InterruptNumber>,
}

impl Prober {
    /// The plan that the probe follows.
    pub closed spec fn plan(&self) -> ProbePlan {
        self.plan
    }

    /// The names of the interrupts.
    pub closed spec fn binds(&self) -> Seq<Seq<char>> {
        texts(self.binds@)
    }

    /// The step that is to be taken next.
    pub closed spec fn stage(&self) -> ProbeStage {
        self.stage
    }

    /// The numbers that were found so far, each with the name of its
    /// interrupt.
    pub closed spec fn found(&self) -> Seq<(Seq<char>, u16)> {
        number_pairs(self.numbers@)
    }

    /// The plan holds one function for each interrupt, the step is one of the
    /// plan, and the interrupts before the one that is looked up have their
    /// numbers.
    pub closed spec fn wf(&self) -> bool {
        &&& self.plan.functions@.len() == self.binds@.len()
        &&& self.plan.symbols@.len() == self.binds@.len()
        &&& match self.stage {
            ProbeStage::Function(i) => i < self.binds@.len() && self.numbers@.len() == 0,
            ProbeStage::Lookup(i) => i < self.binds@.len() && self.numbers@.len() == i,
            ProbeStage::Finished => self.numbers@.len() == self.binds@.len(),
            ProbeStage::Failed => self.numbers@.len() <= self.binds@.len(),
            _ => self.numbers@.len() == 0,
        }
        &&& forall|j: int|
            0 <= j < self.numbers@.len() ==> (#[trigger] self.numbers@[j]).bind@ == self.binds@[j]@
    }

    #[verifier::type_invariant]
    spec fn inv(self) -> bool {
        self.wf()
    }

    /// The action of a step.
    pub open spec fn action_of(&self, stage: ProbeStage) -> ProbeActionView {
        match stage {
            ProbeStage::Extract => ProbeActionView::ExtractSkeleton,
            ProbeStage::Rename => ProbeActionView::RenameManifest,
            ProbeStage::Manifest => ProbeActionView::AppendManifest(self.plan().manifest@),
            ProbeStage::Import => ProbeActionView::AppendSource(self.plan().import@),
            ProbeStage::Function(i) => ProbeActionView::AppendSource(
                self.plan().functions@[i as int]@,
            ),
            ProbeStage::Build => ProbeActionView::Build,
            ProbeStage::Load => ProbeActionView::Load,
            ProbeStage::Lookup(i) => ProbeActionView::Lookup(self.plan().symbols@[i as int]@),
            ProbeStage::Finished => ProbeActionView::Stop,
            ProbeStage::Failed => ProbeActionView::Stop,
        }
    }

    /// Starts the probe for some interrupts, at its first step.
    pub fn new(pacp: &ManifestProperties, binds: Vec<String>) -> (r: Result<Prober, RecoveryError>)
        ensures
            match token_outline(pacp.interrupt_path@) {
                None => r matches Err(RecoveryError::TokenizeFail(_)),
                Some(path) => r matches Ok(prober) && prober.wf() && plan_matches(
                    prober.plan(),
                    *pacp,
                    path,
                    texts(binds@),
                ) && prober.binds() == texts(binds@) && prober.stage() == ProbeStage::Extract
                    && prober.found() == Seq::<(Seq<char>, u16)>::empty(),
            },
    {
        match plan_probe(pacp, &binds) {
            Err(e) => Err(e),
            Ok(plan) => {
                assert(texts(plan.functions@).len() == texts(binds@).len());
                assert(texts(plan.symbols@).len() == texts(binds@).len());
                let prober = Prober {
                    plan,
                    binds,
                    stage: ProbeStage::Extract,
                    numbers: Vec::new(),
                };
                assert(prober.found() =~= Seq::empty());
                Ok(prober)
            },
        }
    }

    /// What the caller is asked to do next.
    pub fn action(&self) -> (a: ProbeAction)
        ensures
            a@ == self.action_of(self.stage()),
    {
        proof {
            use_type_invariant(self);
        }
        match self.stage {
            ProbeStage::Extract => ProbeAction::ExtractSkeleton,
            ProbeStage::Rename => ProbeAction::RenameManifest,
            ProbeStage::Manifest => ProbeAction::AppendManifest(self.plan.manifest.clone()),
            ProbeStage::Import => ProbeAction::AppendSource(self.plan.import.clone()),
            ProbeStage::Function(i) => ProbeAction::AppendSource(self.plan.functions[i].clone()),
            ProbeStage::Build => ProbeAction::Build,
            ProbeStage::Load => ProbeAction::Load,
            ProbeStage::Lookup(i) => ProbeAction::Lookup(self.plan.symbols[i].clone()),
            ProbeStage::Finished => ProbeAction::Stop,
            ProbeStage::Failed => ProbeAction::Stop,
        }
    }

    /// Takes in what came of the action that was asked for.
    ///
    /// A failure ends the probe with the error that the step stands for.
    /// Otherwise the probe goes on to its next step, and a number is kept
    /// with the name of its interrupt. An event that does not answer the
    /// action changes nothing.
    pub fn advance(&mut self, event: ProbeEvent) -> (r: Result<(), RecoveryError>)
        ensures
            final(self).wf(),
            final(self).plan() == old(self).plan(),
            final(self).binds() == old(self).binds(),
            match event {
                ProbeEvent::Failed(cause) => if is_pending(old(self).stage()) {
                    &&& r matches Err(e) && e@ == failure(old(self).stage(), cause@)
                    &&& final(self).stage() == ProbeStage::Failed
                    &&& final(self).found() == old(self).found()
                } else {
                    r is Ok && final(self).stage() == old(self).stage() && final(self).found()
                        == old(self).found()
                },
                ProbeEvent::Done => {
                    &&& r is Ok
                    &&& final(self).found() == old(self).found()
                    &&& final(self).stage() == if answers(old(self).stage(), event) {
                        stage_after(old(self).stage(), old(self).binds().len())
                    } else {
                        old(self).stage()
                    }
                },
                ProbeEvent::Number(number) => {
                    &&& r is Ok
                    &&& if let ProbeStage::Lookup(i) = old(self).stage() {
                        &&& final(self).stage() == stage_after(
                            old(self).stage(),
                            old(self).binds().len(),
                        )
                        &&& final(self).found() == old(self).found().push(
                            (old(self).binds()[i as int], number),
                        )
                    } else {
                        final(self).stage() == old(self).stage() && final(self).found() == old(
                            self,
                        ).found()
                    }
                },
            },
    {
        proof {
            use_type_invariant(&*self);
        }
        let count = self.binds.len();
        match event {
            ProbeEvent::Failed(cause) => {
                let e = match self.stage {
                    ProbeStage::Finished => {
                        return Ok(());
                    },
                    ProbeStage::Failed => {
                        return Ok(());
                    },
                    ProbeStage::Build => RecoveryError::LibBuildFail(cause),
                    ProbeStage::Load => RecoveryError::LibLoadFail(cause),
                    ProbeStage::Lookup(_) => RecoveryError::LibLookupFail(cause),
                    _ => RecoveryError::LibExtractFail(cause),
                };
                self.stage = ProbeStage::Failed;
                Err(e)
            },
            ProbeEvent::Done => {
                self.stage = match self.stage {
                    ProbeStage::Extract => ProbeStage::Rename,
                    ProbeStage::Rename => ProbeStage::Manifest,
                    ProbeStage::Manifest => ProbeStage::Import,
                    ProbeStage::Import => if count > 0 {
                        ProbeStage::Function(0)
                    } else {
                        ProbeStage::Build
                    },
                    ProbeStage::Function(i) => if i + 1 < count {
                        ProbeStage::Function(i + 1)
                    } else {
                        ProbeStage::Build
                    },
                    ProbeStage::Build => ProbeStage::Load,
                    ProbeStage::Load => if count > 0 {
                        ProbeStage::Lookup(0)
                    } else {
                        ProbeStage::Finished
                    },
                    ProbeStage::Lookup(i) => ProbeStage::Lookup(i),
                    ProbeStage::Finished => ProbeStage::Finished,
                    ProbeStage::Failed => ProbeStage::Failed,
                };
                Ok(())
            },
            ProbeEvent::Number(number) => {
                match self.stage {
                    ProbeStage::Lookup(i) => {
                        let ghost before = self.found();
                        let found = InterruptNumber { bind: self.binds[i].clone(), number };
                        // While the number is put with the others, the probe is
                        // at no step.
                        self.stage = ProbeStage::Failed;
                        let mut numbers: Vec<InterruptNumber> = Vec::new();
                        core::mem::swap(&mut self.numbers, &mut numbers);
                        numbers.push(found);
                        self.numbers = numbers;
                        self.stage = if i + 1 < count {
                            ProbeStage::Lookup(i + 1)
                        } else {
                            ProbeStage::Finished
                        };
                        assert(self.found() =~= before.push((self.binds()[i as int], number)));
                    },
                    _ => {},
                }
                Ok(())
            },
        }
    }

    /// The numbers of the interrupts, once all steps are taken: one for each
    /// interrupt, in their order.
    pub fn numbers(self) -> (numbers: Vec<InterruptNumber>)
        ensures
            number_pairs(numbers@) == self.found(),
            self.stage() == ProbeStage::Finished ==> numbers@.len() == self.binds().len(),
            numbers@.len() <= self.binds().len(),
            forall|j: int|
                0 <= j < numbers@.len() ==> (#[trigger] numbers@[j]).bind@ == self.binds()[j],
    {
        proof {
            use_type_invariant(&self);
        }
        self.numbers
    }
}

} // verus!
