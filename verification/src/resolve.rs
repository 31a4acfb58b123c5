//! Task resolution: from the source text of an application to the maps that
//! resolve its tasks.

use vstd::prelude::*;
use crate::assoc::assoc_map;
use crate::binding::{
    binding_views, core_map, core_pairs, device_hardware_tasks, device_map, device_pairs,
    first_unresolved, number_pairs, partition_bindings, HardwareBinding, InterruptNumber,
};
use crate::declaration::{extraction, software_tasks};
use crate::error::{RecoveryError, RecoveryErrorView};
use crate::manifest::ManifestProperties;
use crate::maps::{ExceptionMap, InterruptMap, SoftwareTaskMap, TaskResolveMaps};
use crate::syntax::{
    declared, error_text, parse_declaration, render, rendered, token_outline, token_views,
    tokenize, Token, TokenView,
};

verus! {

/// Whether a token is the attribute that declares an application: a group
/// whose first token is `app`.
pub open spec fn is_app_attribute(token: TokenView) -> bool {
    token.inner matches Some(inner) && inner.len() > 0 && inner[0].text == "app"@
}

/// The position of the first token that declares an application, if there is
/// one.
pub open spec fn first_app_attribute(tokens: Seq<TokenView>) -> Option<int>
    decreases tokens.len(),
{
    if tokens.len() == 0 {
        None
    } else {
        match first_app_attribute(tokens.drop_last()) {
            Some(i) => Some(i),
            None => if is_app_attribute(tokens.last()) {
                Some(tokens.len() - 1)
            } else {
                None
            },
        }
    }
}

/// The arguments of the application that a token declares: what its second
/// token encloses, where that is a group.
pub open spec fn app_arguments(token: TokenView) -> Option<Seq<char>> {
    match token.inner {
        Some(inner) => if inner.len() > 1 {
            inner[1].stream
        } else {
            None
        },
        None => None,
    }
}

/// Where the application stands among the tokens of a source text: the
/// position of the first token that declares an application, and the
/// arguments that it gives. There is no such place where no token declares an
/// application, or where the first one that does gives no arguments.
pub open spec fn app_location(tokens: Seq<TokenView>) -> Option<(int, Seq<char>)> {
    match first_app_attribute(tokens) {
        Some(i) => match app_arguments(tokens[i]) {
            Some(args) => Some((i, args)),
            None => None,
        },
        None => None,
    }
}

/// The place of an application among the tokens of a source text.
#[derive(PartialEq, Eq, Debug)]
pub struct AppLocation {
    /// The position of the token that declares the application. The
    /// application itself is what follows that token.
    pub index: usize,
    /// The arguments of the application.
    pub args: String,
}

fn declares_app(token: &Token) -> (r: bool)
    ensures
        r == is_app_attribute(token@),
{
    match &token.inner {
        Some(inner) => inner.len() > 0 && inner[0].text == String::from_str("app"),
        None => false,
    }
}

/// Finds the application among the tokens of a source text.
pub fn locate_app(tokens: &Vec<Token>) -> (r: Result<AppLocation, RecoveryError>)
    ensures
        match app_location(token_views(tokens@)) {
            Some((i, args)) => r matches Ok(location) && location.index == i && location.args@
                == args,
            None => r matches Err(e) && e@ == RecoveryErrorView::RTICArgumentsMissing,
        },
        r matches Ok(location) ==> location.index < tokens.len(),
{
    let ghost all = token_views(tokens@);
    let mut i: usize = 0;
    while i < tokens.len()
        invariant
            i <= tokens.len(),
            all == token_views(tokens@),
            first_app_attribute(all.take(i as int)) is None,
        decreases tokens.len() - i,
    {
        assert(all.take(i + 1).drop_last() =~= all.take(i as int));
        assert(all.take(i + 1).last() == tokens@[i as int]@);
        if declares_app(&tokens[i]) {
            proof {
                lemma_first_app_attribute_stays(all, i + 1);
            }
            return match &tokens[i].inner {
                Some(inner) => {
                    if inner.len() > 1 {
                        match &inner[1].stream {
                            Some(args) => Ok(AppLocation { index: i, args: args.clone() }),
                            None => Err(RecoveryError::RTICArgumentsMissing),
                        }
                    } else {
                        Err(RecoveryError::RTICArgumentsMissing)
                    }
                },
                None => Err(RecoveryError::RTICArgumentsMissing),
            };
        }
        i += 1;
    }
    assert(all.take(tokens.len() as int) =~= all);
    Err(RecoveryError::RTICArgumentsMissing)
}

/// The first token that declares an application in a front part of the
/// tokens is the first in all of them.
pub proof fn lemma_first_app_attribute_stays(tokens: Seq<TokenView>, n: int)
    requires
        0 <= n <= tokens.len(),
        first_app_attribute(tokens.take(n)) is Some,
    ensures
        first_app_attribute(tokens) == first_app_attribute(tokens.take(n)),
    decreases tokens.len(),
{
    if n == tokens.len() {
        assert(tokens.take(n) =~= tokens);
    } else {
        assert(tokens.drop_last().take(n) =~= tokens.take(n));
        lemma_first_app_attribute_stays(tokens.drop_last(), n);
    }
}

/// The resolver of the tasks of one application: the text of the application
/// and of its arguments, and what the manifest declares for tracing.
pub struct TaskResolver {
    app: String,
    app_args: String,
    pacp: ManifestProperties,
}

impl TaskResolver {
    /// The text of the application: of the module that follows the `app`
    /// attribute.
    pub closed spec fn app_text(&self) -> Seq<char> {
        self.app@
    }

    /// The text of the arguments of the application.
    pub closed spec fn args_text(&self) -> Seq<char> {
        self.app_args@
    }

    /// What the manifest declares for tracing.
    pub closed spec fn properties(&self) -> ManifestProperties {
        self.pacp
    }

    /// Finds the application in a source text.
    ///
    /// The text has to be a sequence of tokens, one of which declares an
    /// application, and the first such has to give arguments. The application
    /// is all that follows that token.
    pub fn new(src: &str, pacp: ManifestProperties) -> (r: Result<TaskResolver, RecoveryError>)
        ensures
            match token_outline(src@) {
                None => r matches Err(RecoveryError::TokenizeFail(_)),
                Some(tokens) => match app_location(tokens) {
                    None => r matches Err(e) && e@ == RecoveryErrorView::RTICArgumentsMissing,
                    Some((i, args)) => r matches Ok(resolver) && resolver.app_text() == rendered(
                        tokens.skip(i + 1),
                    ) && resolver.args_text() == args && resolver.properties() == pacp,
                },
            },
    {
        match tokenize(src) {
            Err(e) => Err(RecoveryError::TokenizeFail(error_text(&e))),
            Ok(tokens) => match locate_app(&tokens) {
                Err(e) => Err(e),
                Ok(location) => Ok(
                    TaskResolver {
                        app: render(&tokens, location.index + 1),
                        app_args: location.args,
                        pacp,
                    },
                ),
            },
        }
    }

    /// The text of the application.
    pub fn app(&self) -> (s: &String)
        ensures
            s@ == self.app_text(),
    {
        &self.app
    }

    /// The text of the arguments of the application.
    pub fn app_args(&self) -> (s: &String)
        ensures
            s@ == self.args_text(),
    {
        &self.app_args
    }

    /// What the manifest declares for tracing.
    pub fn pacp(&self) -> (p: &ManifestProperties)
        ensures
            *p == self.properties(),
    {
        &self.pacp
    }

    /// Finds the software tasks of the application: its traced functions by
    /// identifier. The text of the application has to be one item of the
    /// language.
    pub fn software_tasks(&self) -> (r: Result<SoftwareTaskMap, RecoveryError>)
        ensures
            match declared(self.app_text()) {
                None => r matches Err(RecoveryError::RTICParseFail(_)),
                Some(app) => match extraction(app) {
                    None => r matches Err(e) && e@ == RecoveryErrorView::TooManySoftwareTasks,
                    Some(paths) => r matches Ok(tasks) && tasks@ == paths,
                },
            },
    {
        match parse_declaration(self.app.as_str()) {
            Err(e) => Err(RecoveryError::RTICParseFail(error_text(&e))),
            Ok(app) => software_tasks(&app),
        }
    }

    /// Brings together the hardware tasks of the application: from the
    /// bindings that the application declares and the numbers that the device
    /// gives to its interrupts, the map of the tasks bound to core exceptions
    /// and the map of the tasks bound to device interrupts.
    pub fn hardware_tasks(
        &self,
        bindings: &Vec<HardwareBinding>,
        numbers: &Vec<InterruptNumber>,
    ) -> (r: Result<(ExceptionMap, InterruptMap), RecoveryError>)
        ensures
            match first_unresolved(binding_views(bindings@), assoc_map(number_pairs(numbers@))) {
                Some(bind) => r matches Err(e) && e@ == RecoveryErrorView::MissingInterruptNumber(
                    bind,
                ),
                None => r matches Ok(maps) && maps.0@ == core_map(binding_views(bindings@))
                    && maps.0.pairs() == core_pairs(binding_views(bindings@)) && maps.1@
                    == device_map(binding_views(bindings@), assoc_map(number_pairs(numbers@)))
                    && maps.1.pairs() == device_pairs(
                    binding_views(bindings@),
                    assoc_map(number_pairs(numbers@)),
                ),
            },
    {
        let (exceptions, _) = partition_bindings(bindings);
        match device_hardware_tasks(bindings, numbers) {
            Ok(interrupts) => Ok((exceptions, interrupts)),
            Err(e) => Err(e),
        }
    }

    /// Resolves the tasks of the application: the hardware tasks as
    /// `hardware_tasks` does, then the software tasks as `software_tasks`
    /// does.
    pub fn resolve(&self, bindings: &Vec<HardwareBinding>, numbers: &Vec<InterruptNumber>) -> (r:
        Result<TaskResolveMaps, RecoveryError>)
        ensures
            match first_unresolved(binding_views(bindings@), assoc_map(number_pairs(numbers@))) {
                Some(bind) => r matches Err(e) && e@ == RecoveryErrorView::MissingInterruptNumber(
                    bind,
                ),
                None => match declared(self.app_text()) {
                    None => r matches Err(RecoveryError::RTICParseFail(_)),
                    Some(app) => match extraction(app) {
                        None => r matches Err(e) && e@
                            == RecoveryErrorView::TooManySoftwareTasks,
                        Some(paths) => r matches Ok(maps) && maps.exceptions@ == core_map(
                            binding_views(bindings@),
                        ) && maps.exceptions.pairs() == core_pairs(binding_views(bindings@))
                            && maps.interrupts@ == device_map(
                            binding_views(bindings@),
                            assoc_map(number_pairs(numbers@)),
                        ) && maps.interrupts.pairs() == device_pairs(
                            binding_views(bindings@),
                            assoc_map(number_pairs(numbers@)),
                        ) && maps.sw_assocs@ == paths,
                    },
                },
            },
    {
        match self.hardware_tasks(bindings, numbers) {
            Err(e) => Err(e),
            Ok((exceptions, interrupts)) => match self.software_tasks() {
                Err(e) => Err(e),
                Ok(sw_assocs) => Ok(TaskResolveMaps { exceptions, interrupts, sw_assocs }),
            },
        }
    }
}

} // verus!
