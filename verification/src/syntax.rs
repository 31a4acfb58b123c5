//! The library's reading of Rust source text. The text is tokenised and parsed
//! by `syn` and `proc_macro2`; here their results are turned into values of the
//! library, on which the rest of the library works.

use vstd::prelude::*;
use proc_macro2::{Spacing, TokenStream, TokenTree};
use quote::ToTokens;
use crate::declaration::{Declaration, DeclarationView};

verus! {

/// `syn::Error`: why a text could not be tokenised or parsed. The library
/// carries it from the call that failed to `error_text`.
#[verifier::external_type_specification]
#[verifier::external_body]
pub struct ExSynError(syn::Error);

/// `syn::Item`: an item of the language as `syn` parses it. The library hands
/// it to `declaration_of` and reads nothing of it itself.
#[verifier::external_type_specification]
#[verifier::external_body]
pub struct ExSynItem(syn::Item);

/// A token that stands directly inside a group: its text, and for a group the
/// text of what it encloses.
#[derive(PartialEq, Eq, Debug)]
pub struct InnerToken {
    pub text: String,
    pub stream: Option<String>,
}

/// An `InnerToken` over mathematical values.
pub struct InnerTokenView {
    pub text: Seq<char>,
    pub stream: Option<Seq<char>>,
}

impl View for InnerToken {
    type V = InnerTokenView;

    open spec fn view(&self) -> InnerTokenView {
        InnerTokenView {
            text: self.text@,
            stream: match self.stream {
                Some(stream) => Some(stream@),
                None => None,
            },
        }
    }
}

/// A token at the top level of a source text: its text; whether it is a
/// punctuation character that is joined to the token after it, as the first
/// `:` of `::` is; and for a group the tokens that it encloses.
#[derive(PartialEq, Eq, Debug)]
pub struct Token {
    pub text: String,
    pub joint: bool,
    pub inner: Option<Vec<InnerToken>>,
}

/// A `Token` over mathematical values.
pub struct TokenView {
    pub text: Seq<char>,
    pub joint: bool,
    pub inner: Option<Seq<InnerTokenView>>,
}

impl View for Token {
    type V = TokenView;

    open spec fn view(&self) -> TokenView {
        TokenView {
            text: self.text@,
            joint: self.joint,
            inner: match self.inner {
                Some(inner) => Some(Seq::new(inner@.len(), |i: int| inner@[i]@)),
                None => None,
            },
        }
    }
}

/// The views of a sequence of tokens, one for one.
pub open spec fn token_views(tokens: Seq<Token>) -> Seq<TokenView> {
    Seq::new(tokens.len(), |i: int| tokens[i]@)
}

/// The tokens of a source text, or `None` where the text is not a sequence of
/// tokens.
pub uninterp spec fn token_outline(src: Seq<char>) -> Option<Seq<TokenView>>;

/// The declaration that a source text holds, or `None` where the text is not
/// exactly one item of the language.
pub uninterp spec fn declared(src: Seq<char>) -> Option<DeclarationView>;

/// Tokenises a source text with `syn::parse_str`, at the type
/// `proc_macro2::TokenStream`. The contract claims that the tokens are a
/// function of the text, which it names `token_outline`, and that the call
/// fails exactly where that function has no value. Each token tree of the
/// stream is copied into a `Token`: its `Display` text, its spacing if it is a
/// punctuation character, and for a group the token trees of its stream.
#[verifier::external_body]
pub(crate) fn tokenize(src: &str) -> (r: Result<Vec<Token>, syn::Error>)
    ensures
        match r {
            Ok(tokens) => token_outline(src@) == Some(token_views(tokens@)),
            Err(_) => token_outline(src@) is None,
        },
{
    let copy = |t: TokenTree| InnerToken {
        text: t.to_string(),
        stream: match &t { TokenTree::Group(g) => Some(g.stream().to_string()), _ => None },
    };
    let stream = syn::parse_str::<TokenStream>(src)?;
    Ok(stream.into_iter().map(|t| Token {
        text: t.to_string(),
        joint: match &t { TokenTree::Punct(p) => match p.spacing() { Spacing::Joint => true, Spacing::Alone => false }, _ => false },
        inner: match &t { TokenTree::Group(g) => Some(g.stream().into_iter().map(copy).collect()), _ => None },
    }).collect())
}

/// The text of a `syn::Error`, by its `Display`. Nothing is claimed of the
/// text.
#[verifier::external_body]
pub(crate) fn error_text(e: &syn::Error) -> (s: String) {
    e.to_string()
}

/// Copies a `syn::Item` into a `Declaration`: a function with its name, the
/// paths of its attributes and the statements of its body; a module with its
/// name and its content; anything else as `Other`. Nothing is claimed of the
/// result here: `parse_declaration` names it.
#[verifier::external_body]
fn declaration_of(item: &syn::Item) -> (d: Declaration) {
    match item {
        syn::Item::Fn(f) => Declaration::Function {
            name: f.sig.ident.to_string(),
            attributes: f.attrs.iter().map(|a| a.path.to_token_stream().to_string()).collect(),
            items: f.block.stmts.iter().map(|s| match s { syn::Stmt::Item(i) => declaration_of(i), _ => Declaration::Other }).collect(),
        },
        syn::Item::Mod(m) => Declaration::Module {
            name: m.ident.to_string(),
            items: m.content.iter().flat_map(|c| c.1.iter()).map(declaration_of).collect(),
        },
        _ => Declaration::Other,
    }
}

/// Parses a source text as one item with `syn::parse_str`, at the type
/// `syn::Item`, and copies the item into a `Declaration`. The contract claims
/// that the declaration is a function of the text, which it names `declared`,
/// and that the call fails exactly where that function has no value.
#[verifier::external_body]
pub(crate) fn parse_declaration(src: &str) -> (r: Result<Declaration, syn::Error>)
    ensures
        match r {
            Ok(d) => declared(src@) == Some(d@),
            Err(_) => declared(src@) is None,
        },
{
    syn::parse_str::<syn::Item>(src).map(|item| declaration_of(&item))
}

/// The text of a sequence of tokens: the texts of the tokens with a space
/// between each two neighbours, but none after a punctuation character that
/// is joined to the token after it.
pub open spec fn rendered(tokens: Seq<TokenView>) -> Seq<char>
    decreases tokens.len(),
{
    if tokens.len() == 0 {
        Seq::empty()
    } else if tokens.len() == 1 {
        tokens[0].text
    } else if tokens[tokens.len() - 2].joint {
        rendered(tokens.drop_last()) + tokens.last().text
    } else {
        rendered(tokens.drop_last()) + " "@ + tokens.last().text
    }
}

/// Writes the tokens from a position on as text; nothing, where the position
/// is behind the last token.
pub fn render(tokens: &Vec<Token>, from: usize) -> (s: String)
    ensures
        s@ == if from <= tokens.len() {
            rendered(token_views(tokens@).skip(from as int))
        } else {
            Seq::empty()
        },
{
    if from > tokens.len() {
        return String::new();
    }
    let ghost all = token_views(tokens@).skip(from as int);
    let mut s = String::new();
    let mut i: usize = from;
    while i < tokens.len()
        invariant
            from <= i <= tokens.len(),
            all == token_views(tokens@).skip(from as int),
            s@ == rendered(all.take(i - from)),
        decreases tokens.len() - i,
    {
        let ghost part = all.take(i + 1 - from);
        assert(part.drop_last() =~= all.take(i - from));
        assert(part.last() == tokens@[i as int]@);
        if i > from {
            assert(part[part.len() - 2] == tokens@[i - 1]@);
            if !tokens[i - 1].joint {
                s.append(" ");
            }
        } else {
            assert(s@ + tokens@[i as int].text@ =~= tokens@[i as int].text@);
        }
        s.append(tokens[i].text.as_str());
        i += 1;
    }
    assert(all.take(tokens.len() - from) =~= all);
    s
}

} // verus!
