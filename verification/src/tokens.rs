use vstd::prelude::*;

verus! {

broadcast use vstd::seq::axiom_seq_index_decreases, vstd::seq::axiom_seq_subrange_decreases, vstd::std_specs::vec::axiom_vec_decreases_to_view;

/// The delimiter of a token group: parentheses, braces, brackets, or the
/// invisible delimiter that macro expansion can introduce.
#[derive(Clone, Copy, PartialEq, Eq, Structural, Debug)]
pub enum Delim {
    Paren,
    Brace,
    Bracket,
    Invisible,
}

/// One token of the source language: an identifier, a punctuation character
/// (with its spacing: `joint` means the next token follows with no gap, as in
/// the two colons of `::`), a literal kept as its raw text, or a delimited
/// group of tokens. Each token carries a span: the index of the token in a
/// pre-order walk of the input it came from, used to anchor failures; tokens
/// made by the transformer itself carry span zero.
pub enum Token {
    Ident { text: String, span: usize },
    Punct { ch: char, joint: bool, span: usize },
    Lit { text: String, span: usize },
    Group { delim: Delim, inner: Vec<Token>, span: usize },
}

/// The mathematical model of a token: text becomes a sequence of characters,
/// group contents become a sequence of token models.
pub enum Tok {
    Ident { text: Seq<char>, span: nat },
    Punct { ch: char, joint: bool, span: nat },
    Lit { text: Seq<char>, span: nat },
    Group { delim: Delim, inner: Seq<Tok>, span: nat },
}

/// The model of one token.
pub open spec fn tok_of(t: Token) -> Tok
    decreases t,
{
    match t {
        Token::Ident { text, span } => Tok::Ident { text: text@, span: span as nat },
        Token::Punct { ch, joint, span } => Tok::Punct { ch, joint, span: span as nat },
        Token::Lit { text, span } => Tok::Lit { text: text@, span: span as nat },
        Token::Group { delim, inner, span } => Tok::Group {
            delim,
            inner: toks_of(inner@),
            span: span as nat,
        },
    }
}

/// The model of a sequence of tokens: each token replaced by its model.
pub open spec fn toks_of(s: Seq<Token>) -> Seq<Tok>
    decreases s,
{
    if s.len() == 0 {
        Seq::empty()
    } else {
        toks_of(s.drop_last()).push(tok_of(s.last()))
    }
}

/// The model of a sequence of tokens has one entry per token, each the model
/// of the token at the same place.
pub proof fn lemma_toks_of_len(s: Seq<Token>)
    ensures
        toks_of(s).len() == s.len(),
        forall|i: int| 0 <= i < s.len() ==> toks_of(s)[i] == tok_of(#[trigger] s[i]),
    decreases s,
{
    if s.len() > 0 {
        lemma_toks_of_len(s.drop_last());
        assert forall|i: int| 0 <= i < s.len() implies toks_of(s)[i] == tok_of(#[trigger] s[i]) by {
            if i < s.len() - 1 {
                assert(s.drop_last()[i] == s[i]);
            }
        }
    }
}

/// Taking the model distributes over concatenation of token sequences.
pub proof fn lemma_toks_of_concat(a: Seq<Token>, b: Seq<Token>)
    ensures
        toks_of(a + b) == toks_of(a) + toks_of(b),
    decreases b,
{
    if b.len() == 0 {
        assert(a + b == a);
        assert(toks_of(a) + toks_of(b) =~= toks_of(a));
    } else {
        lemma_toks_of_concat(a, b.drop_last());
        assert((a + b).drop_last() == a + b.drop_last());
        assert((a + b).last() == b.last());
        assert(toks_of(a + b) =~= toks_of(a) + toks_of(b));
    }
}

/// Taking the model commutes with pushing one more token.
pub proof fn lemma_toks_of_push(s: Seq<Token>, t: Token)
    ensures
        toks_of(s.push(t)) == toks_of(s).push(tok_of(t)),
{
    assert(s.push(t).drop_last() == s);
    assert(s.push(t).last() == t);
}

impl Token {
    /// An exact copy of this token.
    pub fn clone_token(&self) -> (r: Token)
        ensures
            tok_of(r) == tok_of(*self),
        decreases self,
    {
        match self {
            Token::Ident { text, span } => Token::Ident { text: text.clone(), span: *span },
            Token::Punct { ch, joint, span } => Token::Punct {
                ch: *ch,
                joint: *joint,
                span: *span,
            },
            Token::Lit { text, span } => Token::Lit { text: text.clone(), span: *span },
            Token::Group { delim, inner, span } => Token::Group {
                delim: *delim,
                inner: clone_tokens(inner),
                span: *span,
            },
        }
    }
}

/// An exact copy of a sequence of tokens.
pub fn clone_tokens(v: &Vec<Token>) -> (r: Vec<Token>)
    ensures
        toks_of(r@) == toks_of(v@),
    decreases v,
{
    let mut r: Vec<Token> = Vec::new();
    let n = v.len();
    for i in 0..n
        invariant
            n == v.len(),
            toks_of(r@) == toks_of(v@.subrange(0, i as int)),
    {
        let t = v[i].clone_token();
        proof {
            lemma_toks_of_push(r@, t);
            assert(v@.subrange(0, i + 1).drop_last() == v@.subrange(0, i as int));
            assert(v@.subrange(0, i + 1).last() == v@[i as int]);
        }
        r.push(t);
    }
    proof {
        assert(v@.subrange(0, n as int) == v@);
    }
    r
}

/// A synthesized identifier token.
pub open spec fn id_tok(text: Seq<char>) -> Tok {
    Tok::Ident { text, span: 0 }
}

/// A synthesized punctuation token with a gap after it.
pub open spec fn p_tok(ch: char) -> Tok {
    Tok::Punct { ch, joint: false, span: 0 }
}

/// A synthesized punctuation token with no gap after it.
pub open spec fn pj_tok(ch: char) -> Tok {
    Tok::Punct { ch, joint: true, span: 0 }
}

/// A synthesized literal token.
pub open spec fn lit_tok(text: Seq<char>) -> Tok {
    Tok::Lit { text, span: 0 }
}

/// A synthesized group token.
pub open spec fn grp_tok(delim: Delim, inner: Seq<Tok>) -> Tok {
    Tok::Group { delim, inner, span: 0 }
}

/// Pushes a synthesized identifier.
pub fn push_ident(out: &mut Vec<Token>, text: &str)
    ensures
        toks_of(final(out)@) == toks_of(old(out)@).push(id_tok(text@)),
{
    let t = Token::Ident { text: text.to_string(), span: 0 };
    proof {
        lemma_toks_of_push(out@, t);
    }
    out.push(t);
}

/// Pushes a synthesized punctuation token with a gap after it.
pub fn push_punct(out: &mut Vec<Token>, ch: char)
    ensures
        toks_of(final(out)@) == toks_of(old(out)@).push(p_tok(ch)),
{
    let t = Token::Punct { ch, joint: false, span: 0 };
    proof {
        lemma_toks_of_push(out@, t);
    }
    out.push(t);
}

/// Pushes a synthesized punctuation token with no gap after it.
pub fn push_joint(out: &mut Vec<Token>, ch: char)
    ensures
        toks_of(final(out)@) == toks_of(old(out)@).push(pj_tok(ch)),
{
    let t = Token::Punct { ch, joint: true, span: 0 };
    proof {
        lemma_toks_of_push(out@, t);
    }
    out.push(t);
}

/// Pushes a synthesized literal token.
pub fn push_lit(out: &mut Vec<Token>, text: String)
    ensures
        toks_of(final(out)@) == toks_of(old(out)@).push(lit_tok(text@)),
{
    let t = Token::Lit { text, span: 0 };
    proof {
        lemma_toks_of_push(out@, t);
    }
    out.push(t);
}

/// Pushes a synthesized group holding the given tokens.
pub fn push_group(out: &mut Vec<Token>, delim: Delim, inner: Vec<Token>)
    ensures
        toks_of(final(out)@) == toks_of(old(out)@).push(grp_tok(delim, toks_of(inner@))),
{
    let t = Token::Group { delim, inner, span: 0 };
    proof {
        lemma_toks_of_push(out@, t);
    }
    out.push(t);
}

/// Pushes one token.
pub fn push_token(out: &mut Vec<Token>, t: Token)
    ensures
        toks_of(final(out)@) == toks_of(old(out)@).push(tok_of(t)),
{
    proof {
        lemma_toks_of_push(out@, t);
    }
    out.push(t);
}

/// Whether two token models carry the same program text: the same
/// identifiers, punctuation, literals and nesting, with spans and spacing
/// hints left out of the comparison.
pub open spec fn tok_equiv(a: Tok, b: Tok) -> bool
    decreases a,
{
    match (a, b) {
        (Tok::Ident { text: ta, .. }, Tok::Ident { text: tb, .. }) => ta == tb,
        (Tok::Punct { ch: ca, .. }, Tok::Punct { ch: cb, .. }) => ca == cb,
        (Tok::Lit { text: ta, .. }, Tok::Lit { text: tb, .. }) => ta == tb,
        (Tok::Group { delim: da, inner: ia, .. }, Tok::Group { delim: db, inner: ib, .. }) => da
            == db && toks_equiv(ia, ib),
        _ => false,
    }
}

pub open spec fn toks_equiv(a: Seq<Tok>, b: Seq<Tok>) -> bool
    decreases a,
{
    if a.len() != b.len() {
        false
    } else if a.len() == 0 {
        true
    } else {
        tok_equiv(a.last(), b.last()) && toks_equiv(a.drop_last(), b.drop_last())
    }
}

/// Whether two tokens carry the same program text.
pub fn token_matches(a: &Token, b: &Token) -> (r: bool)
    ensures
        r == tok_equiv(tok_of(*a), tok_of(*b)),
    decreases a,
{
    match (a, b) {
        (Token::Ident { text: ta, .. }, Token::Ident { text: tb, .. }) => crate::parser::str_eq(
            ta.as_str(),
            tb.as_str(),
        ),
        (Token::Punct { ch: ca, .. }, Token::Punct { ch: cb, .. }) => *ca == *cb,
        (Token::Lit { text: ta, .. }, Token::Lit { text: tb, .. }) => crate::parser::str_eq(
            ta.as_str(),
            tb.as_str(),
        ),
        (
            Token::Group { delim: da, inner: ia, .. },
            Token::Group { delim: db, inner: ib, .. },
        ) => *da == *db && tokens_match(ia, ib),
        _ => false,
    }
}

/// Whether two token streams carry the same program text, spans and spacing
/// hints left out of the comparison.
pub fn tokens_match(a: &Vec<Token>, b: &Vec<Token>) -> (r: bool)
    ensures
        r == toks_equiv(toks_of(a@), toks_of(b@)),
    decreases a,
{
    proof {
        lemma_toks_of_len(a@);
        lemma_toks_of_len(b@);
    }
    if a.len() != b.len() {
        return false;
    }
    let n = a.len();
    for i in 0..n
        invariant
            n == a.len() == b.len(),
            toks_of(a@).len() == n,
            toks_of(b@).len() == n,
            forall|j: int| 0 <= j < n ==> toks_of(a@)[j] == tok_of(#[trigger] a@[j]),
            forall|j: int| 0 <= j < n ==> toks_of(b@)[j] == tok_of(#[trigger] b@[j]),
            forall|j: int| 0 <= j < i ==> tok_equiv(
                toks_of(a@)[j],
                #[trigger] toks_of(b@)[j],
            ),
        decreases n - i,
    {
        if !token_matches(&a[i], &b[i]) {
            proof {
                lemma_toks_equiv_pointwise(toks_of(a@), toks_of(b@));
            }
            return false;
        }
    }
    proof {
        lemma_toks_equiv_pointwise(toks_of(a@), toks_of(b@));
    }
    true
}

/// Two token sequences carry the same text exactly when they have the same
/// length and match at every place.
pub proof fn lemma_toks_equiv_pointwise(a: Seq<Tok>, b: Seq<Tok>)
    ensures
        toks_equiv(a, b) <==> (a.len() == b.len() && forall|j: int|
            0 <= j < a.len() ==> tok_equiv(a[j], #[trigger] b[j])),
    decreases a,
{
    if a.len() == b.len() && a.len() > 0 {
        lemma_toks_equiv_pointwise(a.drop_last(), b.drop_last());
        assert(forall|j: int| 0 <= j < a.len() - 1 ==> a.drop_last()[j] == #[trigger] a[j]);
        assert(forall|j: int| 0 <= j < b.len() - 1 ==> b.drop_last()[j] == #[trigger] b[j]);
        assert(a.last() == a[a.len() - 1]);
        assert(b.last() == b[b.len() - 1]);
    }
}

/// Pushes an exact copy of every token of `v` onto `out`.
pub fn extend_tokens(out: &mut Vec<Token>, v: &Vec<Token>)
    ensures
        toks_of(final(out)@) == toks_of(old(out)@) + toks_of(v@),
{
    let n = v.len();
    for i in 0..n
        invariant
            n == v.len(),
            toks_of(out@) == toks_of(old(out)@) + toks_of(v@.subrange(0, i as int)),
    {
        let t = v[i].clone_token();
        proof {
            lemma_toks_of_push(out@, t);
            assert(v@.subrange(0, i + 1).drop_last() == v@.subrange(0, i as int));
            assert(v@.subrange(0, i + 1).last() == v@[i as int]);
            assert((toks_of(old(out)@) + toks_of(v@.subrange(0, i as int))).push(
                tok_of(v@[i as int]),
            ) =~= toks_of(old(out)@) + toks_of(v@.subrange(0, i as int)).push(
                tok_of(v@[i as int]),
            ));
        }
        out.push(t);
    }
    proof {
        assert(v@.subrange(0, n as int) == v@);
    }
}

} // verus!
