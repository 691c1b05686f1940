use vstd::prelude::*;

use crate::tokens::Delim;
use crate::tokens::Tok;
use crate::tokens::Token;
use crate::tokens::tok_of;
use crate::tokens::toks_of;

verus! {

broadcast use vstd::seq::axiom_seq_index_decreases, vstd::seq::axiom_seq_subrange_decreases, vstd::std_specs::vec::axiom_vec_decreases_to_view, vstd::std_specs::vec::axiom_vec_index_decreases;

#[verifier::external_type_specification]
#[verifier::external_body]
pub struct ExTokenStream(proc_macro2::TokenStream);

#[verifier::external_type_specification]
#[verifier::external_body]
pub struct ExDelimiter(proc_macro2::Delimiter);

/// What breaking a string into tokens yields: the token tree of the string
/// when it lexes, with every span zero, or nothing when it does not. The
/// name stands for proc-macro2's own fallback lexer, whose result depends on
/// the characters of the string alone; the wrapper below takes that lexer on
/// every call, by construction, never the compiler's.
pub uninterp spec fn lexed(s: Seq<char>) -> Option<Seq<Tok>>;

/// Relies on `Group::delimiter` of `proc_macro2`: the four delimiters are
/// read out one for one.
#[verifier::external_body]
fn delim_of(d: proc_macro2::Delimiter) -> Delim {
    match d {
        proc_macro2::Delimiter::Parenthesis => Delim::Paren,
        proc_macro2::Delimiter::Brace => Delim::Brace,
        proc_macro2::Delimiter::Bracket => Delim::Bracket,
        proc_macro2::Delimiter::None => Delim::Invisible,
    }
}

/// Relies on the conversion methods of `proc_macro2` token values: each
/// `TokenTree` is an identifier, a punctuation character with its spacing, a
/// literal, or a delimited group, read out here one for one with `to_string`
/// for the texts, `as_char` and `spacing` for punctuation, and `delimiter`
/// and `stream` for groups. Spans are set to zero.
#[verifier::external_body]
fn tokens_from_stream(ts: proc_macro2::TokenStream) -> Vec<Token> {
    ts.into_iter().map(|tt| match tt {
        proc_macro2::TokenTree::Ident(i) => Token::Ident { text: i.to_string(), span: 0 },
        proc_macro2::TokenTree::Punct(p) => Token::Punct { ch: p.as_char(), joint: p.spacing() == proc_macro2::Spacing::Joint, span: 0 },
        proc_macro2::TokenTree::Literal(l) => Token::Lit { text: l.to_string(), span: 0 },
        proc_macro2::TokenTree::Group(g) => Token::Group { delim: delim_of(g.delimiter()), inner: tokens_from_stream(g.stream()), span: 0 },
    }).collect()
}

/// Relies on `TokenStream::from_str` of `proc_macro2`, pinned to its
/// fallback lexer: the library builds proc-macro2 without its `proc-macro`
/// feature, so the fallback is the only lexer compiled in, and the body
/// additionally brackets the call in `fallback::force`/`unforce` — the knob
/// proc-macro2 provides — so that even where another crate in the build
/// re-enables the feature, the deterministic fallback answers, never the
/// compiler's lexer. The fallback breaks the string into the tokens of the
/// language, or returns its lexing error, as a function of the characters
/// alone.
#[verifier::external_body]
pub fn lex(text: &str) -> (r: Option<Vec<Token>>)
    ensures
        match r {
            Option::Some(v) => lexed(text@) == Option::Some(toks_of(v@)),
            Option::None => lexed(text@) is None,
        },
{
    proc_macro2::fallback::force();
    let parsed = <proc_macro2::TokenStream as core::str::FromStr>::from_str(text);
    proc_macro2::fallback::unforce();
    match parsed {
        Ok(ts) => Option::Some(tokens_from_stream(ts)),
        Err(_) => Option::None,
    }
}

/// The next span number: one more, until the largest number, which then
/// stands still.
pub open spec fn next_span(n: nat) -> nat {
    if n < usize::MAX as nat {
        n + 1
    } else {
        n
    }
}

/// One token renumbered in pre-order: the token takes the number `next`, and
/// the contents of a group take the numbers after it.
pub open spec fn spec_number_tok(t: Tok, next: nat) -> (Tok, nat)
    decreases t,
{
    match t {
        Tok::Ident { text, .. } => (Tok::Ident { text, span: next }, next_span(next)),
        Tok::Punct { ch, joint, .. } => (Tok::Punct { ch, joint, span: next }, next_span(next)),
        Tok::Lit { text, .. } => (Tok::Lit { text, span: next }, next_span(next)),
        Tok::Group { delim, inner, .. } => {
            let (inner2, n2) = spec_number_toks(inner, next_span(next));
            (Tok::Group { delim, inner: inner2, span: next }, n2)
        },
    }
}

/// A token sequence renumbered in pre-order from `next` on.
pub open spec fn spec_number_toks(s: Seq<Tok>, next: nat) -> (Seq<Tok>, nat)
    decreases s,
{
    if s.len() == 0 {
        (Seq::empty(), next)
    } else {
        let (t2, n1) = spec_number_tok(s.first(), next);
        let (rest, n2) = spec_number_toks(s.drop_first(), n1);
        (seq![t2] + rest, n2)
    }
}

/// Renumbers one token in pre-order.
fn number_tok_ref(t: &Token, next: usize) -> (r: (Token, usize))
    ensures
        spec_number_tok(tok_of(*t), next as nat) == (tok_of(r.0), r.1 as nat),
    decreases t, 0int,
{
    let n2 = if next < usize::MAX {
        next + 1
    } else {
        next
    };
    match t {
        Token::Ident { text, .. } => (Token::Ident { text: text.clone(), span: next }, n2),
        Token::Punct { ch, joint, .. } => (
            Token::Punct { ch: *ch, joint: *joint, span: next },
            n2,
        ),
        Token::Lit { text, .. } => (Token::Lit { text: text.clone(), span: next }, n2),
        Token::Group { delim, inner, .. } => {
            let mut inner2: Vec<Token> = Vec::new();
            proof {
                assert(toks_of(inner2@) =~= Seq::<Tok>::empty());
                assert(toks_of(inner@).skip(0) =~= toks_of(inner@));
            }
            let n3 = number_into(inner, 0, n2, &mut inner2);
            (Token::Group { delim: *delim, inner: inner2, span: next }, n3)
        },
    }
}

/// Renumbers the tokens from `i` on in pre-order, pushing the renumbered
/// tokens onto `out`.
fn number_into(v: &Vec<Token>, i: usize, next: usize, out: &mut Vec<Token>) -> (r: usize)
    requires
        i <= v.len(),
    ensures
        toks_of(final(out)@) == toks_of(old(out)@) + spec_number_toks(
            toks_of(v@).skip(i as int),
            next as nat,
        ).0,
        r as nat == spec_number_toks(toks_of(v@).skip(i as int), next as nat).1,
    decreases v, v.len() - i,
{
    let ghost vm = toks_of(v@);
    proof {
        crate::tokens::lemma_toks_of_len(v@);
    }
    if i >= v.len() {
        proof {
            assert(vm.skip(i as int).len() == 0);
            assert(toks_of(out@) =~= toks_of(old(out)@) + spec_number_toks(
                vm.skip(i as int),
                next as nat,
            ).0);
        }
        return next;
    }
    let (t2, n1) = number_tok_ref(&v[i], next);
    proof {
        crate::tokens::lemma_toks_of_push(out@, t2);
    }
    out.push(t2);
    let r = number_into(v, i + 1, n1, out);
    proof {
        assert(vm.skip(i as int).first() == vm[i as int]);
        assert(vm.skip(i as int).drop_first() =~= vm.skip(i + 1));
        assert(toks_of(out@) =~= toks_of(old(out)@) + spec_number_toks(
            vm.skip(i as int),
            next as nat,
        ).0);
    }
    r
}

/// Breaks a string into tokens and numbers each token with its place in a
/// pre-order walk, so that failures can be anchored at a token.
pub fn tokenize(text: &str) -> (r: Option<Vec<Token>>)
    ensures
        match r {
            Option::Some(v) => {
                &&& lexed(text@) is Some
                &&& toks_of(v@) == spec_number_toks(lexed(text@).unwrap(), 0).0
            },
            Option::None => lexed(text@) is None,
        },
{
    match lex(text) {
        Option::Some(v) => {
            let mut v2: Vec<Token> = Vec::new();
            proof {
                assert(toks_of(v2@) =~= Seq::<Tok>::empty());
                assert(toks_of(v@).skip(0) =~= toks_of(v@));
            }
            let _ = number_into(&v, 0, 0, &mut v2);
            Option::Some(v2)
        },
        Option::None => Option::None,
    }
}

} // verus!
