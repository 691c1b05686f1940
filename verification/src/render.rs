use vstd::prelude::*;

use crate::tokens::Delim;
use crate::tokens::Tok;
use crate::tokens::Token;
use crate::tokens::tok_of;
use crate::tokens::toks_of;

verus! {

broadcast use vstd::seq::axiom_seq_index_decreases, vstd::seq::axiom_seq_subrange_decreases, vstd::std_specs::vec::axiom_vec_decreases_to_view, vstd::std_specs::vec::axiom_vec_index_decreases;

/// The characters that open a group of the given delimiter.
pub open spec fn open_text(d: Delim) -> Seq<char> {
    match d {
        Delim::Paren => seq!['('],
        Delim::Brace => seq!['{', ' '],
        Delim::Bracket => seq!['['],
        Delim::Invisible => Seq::empty(),
    }
}

/// The characters that close a group of the given delimiter.
pub open spec fn close_text(d: Delim) -> Seq<char> {
    match d {
        Delim::Paren => seq![')'],
        Delim::Brace => seq!['}'],
        Delim::Bracket => seq![']'],
        Delim::Invisible => Seq::empty(),
    }
}

/// Whether a token is a punctuation mark followed by no gap.
pub open spec fn is_joint(t: Tok) -> bool {
    match t {
        Tok::Punct { joint, .. } => joint,
        _ => false,
    }
}

/// The text of one token: its own characters; a group shows its delimiters
/// around the text of its contents, a braced group with a gap inside each
/// delimiter when it is not empty.
pub open spec fn text_of_tok(t: Tok) -> Seq<char>
    decreases t,
{
    match t {
        Tok::Ident { text, .. } => text,
        Tok::Punct { ch, .. } => seq![ch],
        Tok::Lit { text, .. } => text,
        Tok::Group { delim, inner, .. } => open_text(delim) + text_of_toks(inner) + (
        if delim == Delim::Brace && inner.len() > 0 {
            seq![' ']
        } else {
            Seq::<char>::empty()
        }) + close_text(delim),
    }
}

/// The text of a sequence of tokens: the texts of the tokens, with one space
/// between neighbours except after a punctuation mark marked as followed by
/// no gap.
pub open spec fn text_of_toks(s: Seq<Tok>) -> Seq<char>
    decreases s,
{
    if s.len() == 0 {
        Seq::empty()
    } else if s.len() == 1 {
        text_of_tok(s[0])
    } else {
        text_of_toks(s.drop_last()) + (if is_joint(s[s.len() - 2]) {
            Seq::<char>::empty()
        } else {
            seq![' ']
        }) + text_of_tok(s.last())
    }
}

/// Whether an executable token is a punctuation mark followed by no gap.
fn exec_is_joint(t: &Token) -> (r: bool)
    ensures
        r == is_joint(tok_of(*t)),
{
    match t {
        Token::Punct { joint, .. } => *joint,
        _ => false,
    }
}

/// Appends the text of one token to `out`.
fn render_tok(t: &Token, out: &mut Vec<char>)
    ensures
        final(out)@ == old(out)@ + text_of_tok(tok_of(*t)),
    decreases t,
{
    match t {
        Token::Ident { text, .. } => {
            push_str_chars(out, text.as_str());
        },
        Token::Punct { ch, .. } => {
            out.push(*ch);
            proof {
                assert(final(out)@ =~= old(out)@ + text_of_tok(tok_of(*t)));
            }
        },
        Token::Lit { text, .. } => {
            push_str_chars(out, text.as_str());
        },
        Token::Group { delim, inner, .. } => {
            match delim {
                Delim::Paren => out.push('('),
                Delim::Brace => {
                    out.push('{');
                    out.push(' ');
                },
                Delim::Bracket => out.push('['),
                Delim::Invisible => {},
            }
            render_toks(inner, out);
            if matches!(delim, Delim::Brace) && inner.len() > 0 {
                out.push(' ');
            }
            match delim {
                Delim::Paren => out.push(')'),
                Delim::Brace => out.push('}'),
                Delim::Bracket => out.push(']'),
                Delim::Invisible => {},
            }
            proof {
                crate::tokens::lemma_toks_of_len(inner@);
                assert(final(out)@ =~= old(out)@ + text_of_tok(tok_of(*t)));
            }
        },
    }
}

/// Appends the text of a sequence of tokens to `out`.
fn render_toks(v: &Vec<Token>, out: &mut Vec<char>)
    ensures
        final(out)@ == old(out)@ + text_of_toks(toks_of(v@)),
    decreases v,
{
    let n = v.len();
    proof {
        crate::tokens::lemma_toks_of_len(v@);
    }
    for i in 0..n
        invariant
            n == v.len(),
            toks_of(v@).len() == n,
            forall|j: int| 0 <= j < n ==> toks_of(v@)[j] == tok_of(#[trigger] v@[j]),
            out@ == old(out)@ + text_of_toks(toks_of(v@).subrange(0, i as int)),
        decreases n - i,
    {
        if i > 0 && !exec_is_joint(&v[i - 1]) {
            out.push(' ');
        }
        render_tok(&v[i], out);
        proof {
            let s = toks_of(v@);
            assert(s.subrange(0, i + 1).drop_last() =~= s.subrange(0, i as int));
            assert(s.subrange(0, i + 1).last() == s[i as int]);
            if i > 0 {
                assert(s.subrange(0, i + 1)[i - 1] == s[i - 1]);
            }
            assert(out@ =~= old(out)@ + text_of_toks(s.subrange(0, i + 1)));
        }
    }
    proof {
        assert(toks_of(v@).subrange(0, n as int) =~= toks_of(v@));
    }
}

/// Appends every character of a string to `out`.
fn push_str_chars(out: &mut Vec<char>, s: &str)
    ensures
        final(out)@ == old(out)@ + s@,
{
    let n = s.unicode_len();
    for i in 0..n
        invariant
            n == s@.len(),
            out@ == old(out)@ + s@.subrange(0, i as int),
    {
        let c = s.get_char(i);
        out.push(c);
        proof {
            assert(old(out)@ + s@.subrange(0, i + 1) =~= (old(out)@ + s@.subrange(0, i as int)).push(
                s@[i as int],
            ));
        }
    }
    proof {
        assert(s@.subrange(0, n as int) =~= s@);
    }
}

/// Relies on the standard `FromIterator` implementation of `String` over an
/// iterator of characters: collecting characters yields the string made of
/// exactly those characters in order.
#[verifier::external_body]
pub(crate) fn chars_to_string(v: &Vec<char>) -> (s: String)
    ensures
        s@ == v@,
{
    v.iter().collect()
}

/// The canonical text of a sequence of tokens, used to compare emitted token
/// streams: token texts separated by single spaces, except after a
/// punctuation mark followed by no gap, with groups showing their delimiters.
pub fn tokens_to_text(v: &Vec<Token>) -> (s: String)
    ensures
        s@ == text_of_toks(toks_of(v@)),
{
    let mut out: Vec<char> = Vec::new();
    render_toks(v, &mut out);
    chars_to_string(&out)
}

} // verus!
