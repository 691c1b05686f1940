use vstd::prelude::*;

use crate::tokens::Delim;
use crate::tokens::Tok;
use crate::tokens::Token;
use crate::tokens::grp_tok;
use crate::tokens::push_group;
use crate::tokens::push_ident;
use crate::tokens::push_punct;
use crate::tokens::push_token;
use crate::tokens::toks_of;
use crate::model::tree_model;
use crate::parser::FailV;
use crate::parser::Failure;
use crate::parser::failure_model;
use crate::parser::spec_parse_tree;
use crate::flatten::flat_of;

verus! {

/// What the whole transformer gives for an input: the flat declarations its
/// parsed tree lowers to, or the first localized failure.
pub open spec fn spec_transform(s: Seq<Tok>) -> Result<Seq<Tok>, FailV> {
    match spec_parse_tree(s) {
        Ok(tv) => Ok(flat_of(tv)),
        Err(f) => Err(f),
    }
}

/// Runs the whole transformer: parses the input into a chain tree and
/// flattens it into ordinary declarations, or reports the first localized
/// failure, in which case nothing at all is emitted.
pub fn transform(input: &Vec<Token>) -> (r: Result<Vec<Token>, Failure>)
    ensures
        match r {
            Ok(v) => spec_transform(toks_of(input@)) == Ok::<_, FailV>(toks_of(v@)),
            Err(f) => spec_transform(toks_of(input@)) == Err::<Seq<Tok>, _>(failure_model(f)),
        },
{
    match crate::parser::parse_tree(input) {
        Ok(tree) => Ok(crate::flatten::flatten(&tree)),
        Err(f) => Err(f),
    }
}

/// The diagnostic a failure becomes: one `compile_error ! ("…") ;`
/// invocation, every token anchored at the failure's span.
pub open spec fn failure_toks(f: FailV) -> Seq<Tok> {
    seq![
        Tok::Ident { text: "compile_error"@, span: f.span },
        Tok::Punct { ch: '!', joint: false, span: f.span },
        Tok::Group {
            delim: Delim::Paren,
            inner: seq![Tok::Lit { text: seq!['"'] + f.message + seq!['"'], span: f.span }],
            span: f.span,
        },
        Tok::Punct { ch: ';', joint: false, span: f.span },
    ]
}

/// Turns a failure into its diagnostic tokens.
pub fn failure_to_tokens(f: &Failure) -> (r: Vec<Token>)
    ensures
        toks_of(r@) == failure_toks(failure_model(*f)),
{
    let mut out: Vec<Token> = Vec::new();
    push_token(&mut out, Token::Ident { text: "compile_error".to_string(), span: f.span });
    push_token(&mut out, Token::Punct { ch: '!', joint: false, span: f.span });
    let mut quoted = String::new();
    quoted.append("\"");
    quoted.append(f.message.as_str());
    quoted.append("\"");
    let mut inner: Vec<Token> = Vec::new();
    push_token(&mut inner, Token::Lit { text: quoted, span: f.span });
    proof {
        assert("\""@ =~= seq!['"']) by {
            reveal_strlit("\"");
        }
        assert(toks_of(inner@) =~= seq![
            Tok::Lit {
                text: seq!['"'] + failure_model(*f).message + seq!['"'],
                span: failure_model(*f).span,
            },
        ]);
    }
    push_token(
        &mut out,
        Token::Group { delim: Delim::Paren, inner, span: f.span },
    );
    push_token(&mut out, Token::Punct { ch: ';', joint: false, span: f.span });
    proof {
        assert(toks_of(out@) =~= failure_toks(failure_model(*f)));
    }
    out
}

/// Runs the whole transformer and, on failure, emits the diagnostic tokens
/// as the sole output, as the expansion of a failed invocation does.
pub fn transform_or_error(input: &Vec<Token>) -> (r: Vec<Token>)
    ensures
        match spec_transform(toks_of(input@)) {
            Ok(v) => toks_of(r@) == v,
            Err(f) => toks_of(r@) == failure_toks(f),
        },
{
    match transform(input) {
        Ok(v) => v,
        Err(f) => failure_to_tokens(&f),
    }
}

} // verus!
