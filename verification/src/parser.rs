use vstd::prelude::*;

use crate::tokens::Delim;
use crate::tokens::Tok;
use crate::tokens::Token;
use crate::tokens::tok_of;
use crate::tokens::toks_of;
use crate::model::AssemblistGenericKind;
use crate::model::GenericParam;
use crate::model::GenericParamV;
use crate::model::UsualArg;
use crate::model::UsualArgKind;
use crate::model::UsualArgKindV;
use crate::model::UsualArgV;
use crate::model::generic_param_model;
use crate::model::generic_params_model;
use crate::model::usual_arg_model;
use crate::model::usual_args_model;
use crate::model::DocBlockV;
use crate::model::DocLine;
use crate::model::DocLineV;
use crate::model::DocSection;
use crate::model::DocSectionV;
use crate::model::DocumentationBlock;
use crate::model::Prelude;
use crate::model::PreludeV;
use crate::model::Visibility;
use crate::model::VisibilityV;
use crate::model::doc_block_model;
use crate::model::doc_line_model;
use crate::model::doc_section_model;
use crate::model::prelude_model;
use crate::model::visibility_model;
use crate::model::Branch;
use crate::model::BranchTail;
use crate::model::BranchTailV;
use crate::model::BranchV;
use crate::model::DocumentedBranch;
use crate::model::DocumentedBranchV;
use crate::model::Section;
use crate::model::SectionV;
use crate::model::branch_model;
use crate::model::documented_branch_model;
use crate::model::documented_branches_model;
use crate::model::lemma_documented_branches_push;
use crate::model::section_model;
use crate::model::FnTrunk;
use crate::model::FnTrunkV;
use crate::model::ImplHeader;
use crate::model::ImplHeaderV;
use crate::model::Tree;
use crate::model::TreeV;
use crate::model::Trunk;
use crate::model::TrunkAlternative;
use crate::model::TrunkAlternativeV;
use crate::model::TrunkV;
use crate::model::fn_trunk_model;
use crate::model::impl_header_model;
use crate::model::tree_model;
use crate::model::trunk_model;

verus! {

broadcast use vstd::seq::axiom_seq_index_decreases, vstd::seq::axiom_seq_subrange_decreases, vstd::std_specs::vec::axiom_vec_decreases_to_view, vstd::std_specs::vec::axiom_vec_index_decreases;

/// A localized failure: a fixed message and the span of the offending token.
#[derive(Debug)]
pub struct Failure {
    pub message: String,
    pub span: usize,
}

/// The model of a failure.
pub struct FailV {
    pub message: Seq<char>,
    pub span: nat,
}

pub open spec fn failure_model(f: Failure) -> FailV {
    FailV { message: f.message@, span: f.span as nat }
}

/// The span a token carries.
pub open spec fn span_of(t: Tok) -> nat {
    match t {
        Tok::Ident { span, .. } => span,
        Tok::Punct { span, .. } => span,
        Tok::Lit { span, .. } => span,
        Tok::Group { span, .. } => span,
    }
}

/// The span to report at position `i`: the span of the token there, or of the
/// last token when the input ends before `i`.
pub open spec fn span_at(s: Seq<Tok>, i: int) -> nat {
    if 0 <= i < s.len() {
        span_of(s[i])
    } else if s.len() > 0 {
        span_of(s.last())
    } else {
        0
    }
}

/// Whether the token at `i` is the punctuation character `c`.
pub open spec fn is_p(s: Seq<Tok>, i: int, c: char) -> bool {
    0 <= i < s.len() && match s[i] {
        Tok::Punct { ch, .. } => ch == c,
        _ => false,
    }
}

/// Whether the token at `i` is a punctuation character marked as followed by
/// no gap.
pub open spec fn is_joint_at(s: Seq<Tok>, i: int) -> bool {
    0 <= i < s.len() && match s[i] {
        Tok::Punct { joint, .. } => joint,
        _ => false,
    }
}

/// Whether the token at `i` is an identifier.
pub open spec fn is_ident(s: Seq<Tok>, i: int) -> bool {
    0 <= i < s.len() && (s[i] matches Tok::Ident { .. })
}

/// Whether the token at `i` is the identifier `w`.
pub open spec fn is_word(s: Seq<Tok>, i: int, w: Seq<char>) -> bool {
    0 <= i < s.len() && match s[i] {
        Tok::Ident { text, .. } => text == w,
        _ => false,
    }
}

/// Whether the token at `i` is a group with delimiter `d`.
pub open spec fn is_grp(s: Seq<Tok>, i: int, d: Delim) -> bool {
    0 <= i < s.len() && match s[i] {
        Tok::Group { delim, .. } => delim == d,
        _ => false,
    }
}

/// The text of the identifier at `i`.
pub open spec fn ident_text(s: Seq<Tok>, i: int) -> Seq<char>
    recommends
        is_ident(s, i),
{
    match s[i] {
        Tok::Ident { text, .. } => text,
        _ => Seq::empty(),
    }
}

/// The contents of the group at `i`.
pub open spec fn grp_inner(s: Seq<Tok>, i: int) -> Seq<Tok> {
    match s[i] {
        Tok::Group { inner, .. } => inner,
        _ => Seq::empty(),
    }
}

impl Token {
    /// The span this token carries.
    pub fn span(&self) -> (r: usize)
        ensures
            r as nat == span_of(tok_of(*self)),
    {
        match self {
            Token::Ident { span, .. } => *span,
            Token::Punct { span, .. } => *span,
            Token::Lit { span, .. } => *span,
            Token::Group { span, .. } => *span,
        }
    }
}

/// The span to report at position `i` of `toks`.
pub fn exec_span_at(toks: &Vec<Token>, i: usize) -> (r: usize)
    ensures
        r as nat == span_at(toks_of(toks@), i as int),
{
    proof {
        crate::tokens::lemma_toks_of_len(toks@);
    }
    if i < toks.len() {
        toks[i].span()
    } else if toks.len() > 0 {
        toks[toks.len() - 1].span()
    } else {
        0
    }
}

/// Whether the token at `i` is the punctuation character `c`.
pub fn exec_is_p(toks: &Vec<Token>, i: usize, c: char) -> (r: bool)
    ensures
        r == is_p(toks_of(toks@), i as int, c),
{
    proof {
        crate::tokens::lemma_toks_of_len(toks@);
    }
    i < toks.len() && match &toks[i] {
        Token::Punct { ch, .. } => *ch == c,
        _ => false,
    }
}

/// Whether the token at `i` is a punctuation character marked as followed by
/// no gap.
pub fn exec_is_joint_at(toks: &Vec<Token>, i: usize) -> (r: bool)
    ensures
        r == is_joint_at(toks_of(toks@), i as int),
{
    proof {
        crate::tokens::lemma_toks_of_len(toks@);
    }
    i < toks.len() && match &toks[i] {
        Token::Punct { joint, .. } => *joint,
        _ => false,
    }
}

/// Whether the token at `i` is an identifier.
pub fn exec_is_ident(toks: &Vec<Token>, i: usize) -> (r: bool)
    ensures
        r == is_ident(toks_of(toks@), i as int),
{
    proof {
        crate::tokens::lemma_toks_of_len(toks@);
    }
    i < toks.len() && matches!(&toks[i], Token::Ident { .. })
}

/// Whether two string slices hold the same characters.
pub fn str_eq(a: &str, b: &str) -> (r: bool)
    ensures
        r == (a@ == b@),
{
    let n = a.unicode_len();
    if n != b.unicode_len() {
        return false;
    }
    for i in 0..n
        invariant
            n == a@.len(),
            n == b@.len(),
            forall|j: int| 0 <= j < i ==> a@[j] == b@[j],
    {
        if a.get_char(i) != b.get_char(i) {
            return false;
        }
    }
    proof {
        assert(a@ =~= b@);
    }
    true
}

/// Whether the token at `i` is the identifier `w`.
pub fn exec_is_word(toks: &Vec<Token>, i: usize, w: &str) -> (r: bool)
    ensures
        r == is_word(toks_of(toks@), i as int, w@),
{
    proof {
        crate::tokens::lemma_toks_of_len(toks@);
    }
    i < toks.len() && match &toks[i] {
        Token::Ident { text, .. } => str_eq(text.as_str(), w),
        _ => false,
    }
}

/// Whether the token at `i` is a group with delimiter `d`.
pub fn exec_is_grp(toks: &Vec<Token>, i: usize, d: Delim) -> (r: bool)
    ensures
        r == is_grp(toks_of(toks@), i as int, d),
{
    proof {
        crate::tokens::lemma_toks_of_len(toks@);
    }
    i < toks.len() && match &toks[i] {
        Token::Group { delim, .. } => *delim == d,
        _ => false,
    }
}

/// A failure with the given fixed message, anchored at position `i`.
pub fn fail_at(toks: &Vec<Token>, i: usize, message: &str) -> (r: Failure)
    ensures
        failure_model(r) == (FailV { message: message@, span: span_at(toks_of(toks@), i as int) }),
{
    Failure { message: message.to_string(), span: exec_span_at(toks, i) }
}

/// Whether the token directly before `i` is a punctuation mark that glues to
/// a following `>` to form an arrow (`->` or `=>`), in which case that `>`
/// closes no angle bracket.
pub open spec fn arrow_before(s: Seq<Tok>, i: int) -> bool {
    i > 0 && i <= s.len() && match s[i - 1] {
        Tok::Punct { ch, joint, .. } => joint && (ch == '-' || ch == '='),
        _ => false,
    }
}

/// Whether the token directly before `i` glues to a following `>`.
pub fn exec_arrow_before(toks: &Vec<Token>, i: usize) -> (r: bool)
    ensures
        r == arrow_before(toks_of(toks@), i as int),
{
    proof {
        crate::tokens::lemma_toks_of_len(toks@);
    }
    i > 0 && i <= toks.len() && match &toks[i - 1] {
        Token::Punct { ch, joint, .. } => *joint && (*ch == '-' || *ch == '='),
        _ => false,
    }
}

/// Parses the generic parameters after the opening `<` of a parameter list:
/// an apostrophe begins a lifetime-like parameter, the word `const` a
/// const-value parameter, any other identifier a type parameter; a `:`
/// introduces the bound of the parameter; parameters are separated by commas
/// and the list ends at the matching `>`.
pub open spec fn spec_parse_generics(s: Seq<Tok>, i: int, acc: Seq<GenericParamV>) -> Result<
    (Seq<GenericParamV>, int),
    FailV,
>
    decreases s.len() - i,
{
    if i >= s.len() {
        Err(
            FailV {
                message: "unexpected end of input in generic parameters"@,
                span: span_at(s, i),
            },
        )
    } else if is_p(s, i, '>') {
        Ok((acc, i + 1))
    } else if is_p(s, i, '\'') {
        if is_ident(s, i + 1) {
            spec_parse_generic_tail(
                s,
                i + 2,
                acc,
                AssemblistGenericKind::Lifetime,
                ident_text(s, i + 1),
                span_at(s, i + 1),
            )
        } else {
            Err(
                FailV {
                    message: "unexpected token in generic parameters"@,
                    span: span_at(s, i + 1),
                },
            )
        }
    } else if is_word(s, i, "const"@) {
        if is_ident(s, i + 1) {
            spec_parse_generic_tail(
                s,
                i + 2,
                acc,
                AssemblistGenericKind::Const,
                ident_text(s, i + 1),
                span_at(s, i + 1),
            )
        } else {
            Err(
                FailV {
                    message: "unexpected token in generic parameters"@,
                    span: span_at(s, i + 1),
                },
            )
        }
    } else if is_ident(s, i) {
        spec_parse_generic_tail(
            s,
            i + 1,
            acc,
            AssemblistGenericKind::Type,
            ident_text(s, i),
            span_at(s, i),
        )
    } else {
        Err(FailV { message: "unexpected token in generic parameters"@, span: span_at(s, i) })
    }
}

/// Parses what follows the name of one generic parameter: a comma or the
/// closing `>` ends it without a bound, a `:` introduces its bound.
pub open spec fn spec_parse_generic_tail(
    s: Seq<Tok>,
    i: int,
    acc: Seq<GenericParamV>,
    kind: AssemblistGenericKind,
    name: Seq<char>,
    name_span: nat,
) -> Result<(Seq<GenericParamV>, int), FailV>
    decreases s.len() - i,
{
    let param = GenericParamV { kind, name, name_span, bound: Seq::empty() };
    if is_p(s, i, ',') {
        spec_parse_generics(s, i + 1, acc.push(param))
    } else if is_p(s, i, '>') {
        Ok((acc.push(param), i + 1))
    } else if is_p(s, i, ':') {
        spec_parse_generic_bound(s, i + 1, acc, kind, name, name_span, Seq::empty(), 1)
    } else if i >= s.len() {
        Err(
            FailV {
                message: "unexpected end of input in generic parameters"@,
                span: span_at(s, i),
            },
        )
    } else {
        Err(FailV { message: "unexpected token in generic parameters"@, span: span_at(s, i) })
    }
}

/// Collects the tokens of the bound of one generic parameter: everything up
/// to a comma at angle depth one or to the `>` that closes the parameter
/// list, counting `<`/`>` nesting and not counting the `>` of an arrow; an
/// empty bound is refused.
pub open spec fn spec_parse_generic_bound(
    s: Seq<Tok>,
    i: int,
    acc: Seq<GenericParamV>,
    kind: AssemblistGenericKind,
    name: Seq<char>,
    name_span: nat,
    bound: Seq<Tok>,
    nesting: int,
) -> Result<(Seq<GenericParamV>, int), FailV>
    decreases s.len() - i,
{
    let param = GenericParamV { kind, name, name_span, bound };
    if i >= s.len() {
        Err(
            FailV {
                message: "unexpected end of input in generic parameters"@,
                span: span_at(s, i),
            },
        )
    } else if is_p(s, i, ',') && nesting <= 1 {
        if bound.len() == 0 {
            Err(FailV { message: "empty generic constraint"@, span: span_at(s, i) })
        } else {
            spec_parse_generics(s, i + 1, acc.push(param))
        }
    } else if is_p(s, i, '<') {
        spec_parse_generic_bound(s, i + 1, acc, kind, name, name_span, bound.push(s[i]), nesting + 1)
    } else if is_p(s, i, '>') && !arrow_before(s, i) {
        if nesting <= 1 {
            if bound.len() == 0 {
                Err(FailV { message: "empty generic constraint"@, span: span_at(s, i) })
            } else {
                Ok((acc.push(param), i + 1))
            }
        } else {
            spec_parse_generic_bound(
                s,
                i + 1,
                acc,
                kind,
                name,
                name_span,
                bound.push(s[i]),
                nesting - 1,
            )
        }
    } else {
        spec_parse_generic_bound(s, i + 1, acc, kind, name, name_span, bound.push(s[i]), nesting)
    }
}

/// Parses the generic parameters after the opening `<` of a parameter list.
pub fn parse_generics(toks: &Vec<Token>, i: usize, acc: Vec<GenericParam>) -> (r: Result<
    (Vec<GenericParam>, usize),
    Failure,
>)
    ensures
        match r {
            Ok((v, next)) => {
                &&& spec_parse_generics(toks_of(toks@), i as int, generic_params_model(acc@))
                    == Ok::<_, FailV>((generic_params_model(v@), next as int))
                &&& i < next <= toks.len()
            },
            Err(f) => spec_parse_generics(toks_of(toks@), i as int, generic_params_model(acc@))
                == Err::<(Seq<GenericParamV>, int), _>(failure_model(f)),
        },
    decreases toks.len() - i,
{
    proof {
        crate::tokens::lemma_toks_of_len(toks@);
    }
    if i >= toks.len() {
        Err(fail_at(toks, i, "unexpected end of input in generic parameters"))
    } else if exec_is_p(toks, i, '>') {
        Ok((acc, i + 1))
    } else if exec_is_p(toks, i, '\'') {
        if exec_is_ident(toks, i + 1) {
            let (name, name_span) = match &toks[i + 1] {
                Token::Ident { text, span } => (text.clone(), *span),
                _ => (String::new(), 0),
            };
            parse_generic_tail(toks, i + 2, acc, AssemblistGenericKind::Lifetime, name, name_span)
        } else {
            Err(fail_at(toks, i + 1, "unexpected token in generic parameters"))
        }
    } else if exec_is_word(toks, i, "const") {
        if exec_is_ident(toks, i + 1) {
            let (name, name_span) = match &toks[i + 1] {
                Token::Ident { text, span } => (text.clone(), *span),
                _ => (String::new(), 0),
            };
            parse_generic_tail(toks, i + 2, acc, AssemblistGenericKind::Const, name, name_span)
        } else {
            Err(fail_at(toks, i + 1, "unexpected token in generic parameters"))
        }
    } else if exec_is_ident(toks, i) {
        let (name, name_span) = match &toks[i] {
            Token::Ident { text, span } => (text.clone(), *span),
            _ => (String::new(), 0),
        };
        parse_generic_tail(toks, i + 1, acc, AssemblistGenericKind::Type, name, name_span)
    } else {
        Err(fail_at(toks, i, "unexpected token in generic parameters"))
    }
}

/// Parses what follows the name of one generic parameter.
fn parse_generic_tail(
    toks: &Vec<Token>,
    i: usize,
    acc: Vec<GenericParam>,
    kind: AssemblistGenericKind,
    name: String,
    name_span: usize,
) -> (r: Result<(Vec<GenericParam>, usize), Failure>)
    ensures
        match r {
            Ok((v, next)) => {
                &&& spec_parse_generic_tail(
                    toks_of(toks@),
                    i as int,
                    generic_params_model(acc@),
                    kind,
                    name@,
                    name_span as nat,
                ) == Ok::<_, FailV>((generic_params_model(v@), next as int))
                &&& i < next <= toks.len()
            },
            Err(f) => spec_parse_generic_tail(
                toks_of(toks@),
                i as int,
                generic_params_model(acc@),
                kind,
                name@,
                name_span as nat,
            ) == Err::<(Seq<GenericParamV>, int), _>(failure_model(f)),
        },
    decreases toks.len() - i,
{
    proof {
        crate::tokens::lemma_toks_of_len(toks@);
    }
    if exec_is_p(toks, i, ',') {
        let mut acc = acc;
        let param = GenericParam { kind, name, name_span, bound: Vec::new() };
        proof {
            assert(toks_of(param.bound@) =~= Seq::<Tok>::empty());
            assert(generic_params_model(acc@.push(param)) =~= generic_params_model(acc@).push(
                generic_param_model(param),
            ));
        }
        acc.push(param);
        parse_generics(toks, i + 1, acc)
    } else if exec_is_p(toks, i, '>') {
        let mut acc = acc;
        let param = GenericParam { kind, name, name_span, bound: Vec::new() };
        proof {
            assert(toks_of(param.bound@) =~= Seq::<Tok>::empty());
            assert(generic_params_model(acc@.push(param)) =~= generic_params_model(acc@).push(
                generic_param_model(param),
            ));
        }
        acc.push(param);
        Ok((acc, i + 1))
    } else if exec_is_p(toks, i, ':') {
        let empty_bound: Vec<Token> = Vec::new();
        proof {
            assert(toks_of(empty_bound@) =~= Seq::<Tok>::empty());
        }
        parse_generic_bound(toks, i + 1, acc, kind, name, name_span, empty_bound, 1)
    } else if i >= toks.len() {
        Err(fail_at(toks, i, "unexpected end of input in generic parameters"))
    } else {
        Err(fail_at(toks, i, "unexpected token in generic parameters"))
    }
}

/// Collects the tokens of the bound of one generic parameter.
fn parse_generic_bound(
    toks: &Vec<Token>,
    i: usize,
    acc: Vec<GenericParam>,
    kind: AssemblistGenericKind,
    name: String,
    name_span: usize,
    bound: Vec<Token>,
    nesting: usize,
) -> (r: Result<(Vec<GenericParam>, usize), Failure>)
    requires
        nesting <= i,
    ensures
        match r {
            Ok((v, next)) => {
                &&& spec_parse_generic_bound(
                    toks_of(toks@),
                    i as int,
                    generic_params_model(acc@),
                    kind,
                    name@,
                    name_span as nat,
                    toks_of(bound@),
                    nesting as int,
                ) == Ok::<_, FailV>((generic_params_model(v@), next as int))
                &&& i < next <= toks.len()
            },
            Err(f) => spec_parse_generic_bound(
                toks_of(toks@),
                i as int,
                generic_params_model(acc@),
                kind,
                name@,
                name_span as nat,
                toks_of(bound@),
                nesting as int,
            ) == Err::<(Seq<GenericParamV>, int), _>(failure_model(f)),
        },
    decreases toks.len() - i,
{
    proof {
        crate::tokens::lemma_toks_of_len(toks@);
        crate::tokens::lemma_toks_of_len(bound@);
    }
    if i >= toks.len() {
        Err(fail_at(toks, i, "unexpected end of input in generic parameters"))
    } else if exec_is_p(toks, i, ',') && nesting <= 1 {
        if bound.len() == 0 {
            Err(fail_at(toks, i, "empty generic constraint"))
        } else {
            let mut acc = acc;
            let param = GenericParam { kind, name, name_span, bound };
            proof {
                assert(generic_params_model(acc@.push(param)) =~= generic_params_model(acc@).push(
                    generic_param_model(param),
                ));
            }
            acc.push(param);
            parse_generics(toks, i + 1, acc)
        }
    } else if exec_is_p(toks, i, '<') {
        let mut bound = bound;
        let t = toks[i].clone_token();
        proof {
            crate::tokens::lemma_toks_of_push(bound@, t);
        }
        bound.push(t);
        parse_generic_bound(toks, i + 1, acc, kind, name, name_span, bound, nesting + 1)
    } else if exec_is_p(toks, i, '>') && !exec_arrow_before(toks, i) {
        if nesting <= 1 {
            if bound.len() == 0 {
                Err(fail_at(toks, i, "empty generic constraint"))
            } else {
                let mut acc = acc;
                let param = GenericParam { kind, name, name_span, bound };
                proof {
                    assert(generic_params_model(acc@.push(param)) =~= generic_params_model(
                        acc@,
                    ).push(generic_param_model(param)));
                }
                acc.push(param);
                Ok((acc, i + 1))
            }
        } else {
            let mut bound = bound;
            let t = toks[i].clone_token();
            proof {
                crate::tokens::lemma_toks_of_push(bound@, t);
            }
            bound.push(t);
            parse_generic_bound(toks, i + 1, acc, kind, name, name_span, bound, nesting - 1)
        }
    } else {
        let mut bound = bound;
        let t = toks[i].clone_token();
        proof {
            crate::tokens::lemma_toks_of_push(bound@, t);
        }
        bound.push(t);
        parse_generic_bound(toks, i + 1, acc, kind, name, name_span, bound, nesting)
    }
}

/// Collects attribute tokens: every `#` directly followed by a bracketed
/// group, both tokens kept verbatim.
pub open spec fn spec_parse_plain_attrs(s: Seq<Tok>, i: int, acc: Seq<Tok>) -> (Seq<Tok>, int)
    decreases s.len() - i,
{
    if is_p(s, i, '#') && is_grp(s, i + 1, Delim::Bracket) {
        spec_parse_plain_attrs(s, i + 2, acc.push(s[i]).push(s[i + 1]))
    } else {
        (acc, i)
    }
}

/// Collecting attributes never moves backwards and never runs past the end.
pub proof fn lemma_plain_attrs_bounds(s: Seq<Tok>, i: int, acc: Seq<Tok>)
    ensures
        i <= spec_parse_plain_attrs(s, i, acc).1,
        i <= s.len() ==> spec_parse_plain_attrs(s, i, acc).1 <= s.len(),
    decreases s.len() - i,
{
    if is_p(s, i, '#') && is_grp(s, i + 1, Delim::Bracket) {
        lemma_plain_attrs_bounds(s, i + 2, acc.push(s[i]).push(s[i + 1]));
    }
}

/// Collects attribute tokens.
pub fn parse_plain_attrs(toks: &Vec<Token>, i: usize, acc: Vec<Token>) -> (r: (Vec<Token>, usize))
    requires
        i <= toks.len(),
    ensures
        spec_parse_plain_attrs(toks_of(toks@), i as int, toks_of(acc@)) == (
        toks_of(r.0@),
        r.1 as int,
        ),
        i <= r.1 <= toks.len(),
    decreases toks.len() - i,
{
    proof {
        crate::tokens::lemma_toks_of_len(toks@);
    }
    if exec_is_p(toks, i, '#') && exec_is_grp(toks, i + 1, Delim::Bracket) {
        let mut acc = acc;
        let t0 = toks[i].clone_token();
        proof {
            crate::tokens::lemma_toks_of_push(acc@, t0);
        }
        acc.push(t0);
        let t1 = toks[i + 1].clone_token();
        proof {
            crate::tokens::lemma_toks_of_push(acc@, t1);
        }
        acc.push(t1);
        parse_plain_attrs(toks, i + 2, acc)
    } else {
        (acc, i)
    }
}

/// The documentation line carried by an attribute token, where the token is a
/// bracketed group of exactly `doc = "..."`.
pub open spec fn doc_attr_line(t: Tok) -> Option<DocLineV> {
    match t {
        Tok::Group { delim: Delim::Bracket, inner, .. } => {
            if inner.len() == 3 && is_word(inner, 0, "doc"@) && is_p(inner, 1, '=') {
                match inner[2] {
                    Tok::Lit { text, span } => Option::Some(DocLineV { text, span }),
                    _ => Option::None,
                }
            } else {
                Option::None
            }
        },
        _ => Option::None,
    }
}

/// Whether a documentation line is the separator `---` that splits a block
/// into its per-depth sections.
pub open spec fn is_doc_sep(l: DocLineV) -> bool {
    l.text == "\"---\""@
}

/// The documentation line carried by an attribute token.
fn exec_doc_attr_line(t: &Token) -> (r: Option<DocLine>)
    ensures
        match r {
            Option::Some(l) => doc_attr_line(tok_of(*t)) == Option::Some(doc_line_model(l)),
            Option::None => doc_attr_line(tok_of(*t)) is None,
        },
{
    match t {
        Token::Group { delim: Delim::Bracket, inner, .. } => {
            proof {
                crate::tokens::lemma_toks_of_len(inner@);
            }
            if inner.len() == 3 && exec_is_word(inner, 0, "doc") && exec_is_p(inner, 1, '=') {
                match &inner[2] {
                    Token::Lit { text, span } => Option::Some(
                        DocLine { text: text.clone(), span: *span },
                    ),
                    _ => Option::None,
                }
            } else {
                Option::None
            }
        },
        _ => Option::None,
    }
}

/// Whether a documentation line is the separator `---`.
fn exec_is_doc_sep(l: &DocLine) -> (r: bool)
    ensures
        r == is_doc_sep(doc_line_model(*l)),
{
    str_eq(l.text.as_str(), "\"---\"")
}

/// Collects the attributes before a declaration, splitting them into the
/// documentation lines (grouped into sections at each `---` separator) and
/// the remaining attribute tokens, kept verbatim in order.
pub open spec fn spec_parse_intro_attrs(
    s: Seq<Tok>,
    i: int,
    attrs: Seq<Tok>,
    sections: Seq<DocSectionV>,
    lines: Seq<DocLineV>,
) -> (Seq<Tok>, Seq<DocSectionV>, Seq<DocLineV>, int)
    decreases s.len() - i,
{
    if is_p(s, i, '#') && is_grp(s, i + 1, Delim::Bracket) {
        match doc_attr_line(s[i + 1]) {
            Option::Some(l) => {
                if is_doc_sep(l) {
                    spec_parse_intro_attrs(
                        s,
                        i + 2,
                        attrs,
                        sections.push(DocSectionV { lines }),
                        Seq::empty(),
                    )
                } else {
                    spec_parse_intro_attrs(s, i + 2, attrs, sections, lines.push(l))
                }
            },
            Option::None => spec_parse_intro_attrs(
                s,
                i + 2,
                attrs.push(s[i]).push(s[i + 1]),
                sections,
                lines,
            ),
        }
    } else {
        (attrs, sections, lines, i)
    }
}

/// Collecting intro attributes never moves backwards and never runs past the
/// end.
pub proof fn lemma_intro_attrs_bounds(
    s: Seq<Tok>,
    i: int,
    attrs: Seq<Tok>,
    sections: Seq<DocSectionV>,
    lines: Seq<DocLineV>,
)
    ensures
        i <= spec_parse_intro_attrs(s, i, attrs, sections, lines).3,
        i <= s.len() ==> spec_parse_intro_attrs(s, i, attrs, sections, lines).3 <= s.len(),
    decreases s.len() - i,
{
    if is_p(s, i, '#') && is_grp(s, i + 1, Delim::Bracket) {
        match doc_attr_line(s[i + 1]) {
            Option::Some(l) => {
                if is_doc_sep(l) {
                    lemma_intro_attrs_bounds(
                        s,
                        i + 2,
                        attrs,
                        sections.push(DocSectionV { lines }),
                        Seq::empty(),
                    );
                } else {
                    lemma_intro_attrs_bounds(s, i + 2, attrs, sections, lines.push(l));
                }
            },
            Option::None => {
                lemma_intro_attrs_bounds(s, i + 2, attrs.push(s[i]).push(s[i + 1]), sections, lines);
            },
        }
    }
}

/// The qualifiers and documentation read before a declaration.
pub struct Intro {
    pub attrs: Vec<Token>,
    pub doc: DocumentationBlock,
    pub vis: Visibility,
    pub is_async: bool,
}

pub struct IntroV {
    pub attrs: Seq<Tok>,
    pub doc: DocBlockV,
    pub vis: VisibilityV,
    pub is_async: bool,
}

pub open spec fn intro_model(x: Intro) -> IntroV {
    IntroV {
        attrs: toks_of(x.attrs@),
        doc: doc_block_model(x.doc),
        vis: visibility_model(x.vis),
        is_async: x.is_async,
    }
}

impl Intro {
    /// The prelude part of this intro: everything but the documentation.
    pub fn into_prelude(self) -> (r: (Prelude, DocumentationBlock))
        ensures
            prelude_model(r.0) == (PreludeV {
                attrs: intro_model(self).attrs,
                vis: intro_model(self).vis,
                is_async: self.is_async,
            }),
            doc_block_model(r.1) == intro_model(self).doc,
    {
        (Prelude { attrs: self.attrs, vis: self.vis, is_async: self.is_async }, self.doc)
    }
}

/// Parses the qualifiers before a declaration: its attributes with their
/// documentation block, a visibility (`pub`, alone or restricted by a
/// parenthesized scope), and an optional `async` marker.
pub open spec fn spec_parse_intro(s: Seq<Tok>, i: int) -> (IntroV, int) {
    let (attrs, sections0, lines, j) = spec_parse_intro_attrs(
        s,
        i,
        Seq::empty(),
        Seq::empty(),
        Seq::empty(),
    );
    let sections = if lines.len() > 0 {
        sections0.push(DocSectionV { lines })
    } else {
        sections0
    };
    let (vis, k) = if is_word(s, j, "pub"@) {
        if is_grp(s, j + 1, Delim::Paren) {
            (
                VisibilityV::Restricted { scope: grp_inner(s, j + 1), span: span_at(s, j) },
                j + 2,
            )
        } else {
            (VisibilityV::Public { span: span_at(s, j) }, j + 1)
        }
    } else {
        (VisibilityV::Private, j)
    };
    let (is_async, m) = if is_word(s, k, "async"@) {
        (true, k + 1)
    } else {
        (false, k)
    };
    (IntroV { attrs, doc: DocBlockV { sections }, vis, is_async }, m)
}

/// The next position after the intro never lies before `i` nor past the end.
pub proof fn lemma_intro_bounds(s: Seq<Tok>, i: int)
    ensures
        i <= spec_parse_intro(s, i).1,
        i <= s.len() ==> spec_parse_intro(s, i).1 <= s.len(),
{
    lemma_intro_attrs_bounds(s, i, Seq::empty(), Seq::empty(), Seq::empty());
}

/// Collects the attributes before a declaration, splitting them into the
/// documentation block and the remaining attribute tokens.
pub fn parse_doc_attrs(toks: &Vec<Token>, i: usize) -> (r: (Vec<Token>, DocumentationBlock, usize))
    requires
        i <= toks.len(),
    ensures
        ({
            let (attrs, sections0, lines, j) = spec_parse_intro_attrs(
                toks_of(toks@),
                i as int,
                Seq::empty(),
                Seq::empty(),
                Seq::empty(),
            );
            let sections = if lines.len() > 0 {
                sections0.push(DocSectionV { lines })
            } else {
                sections0
            };
            &&& toks_of(r.0@) == attrs
            &&& doc_block_model(r.1) == (DocBlockV { sections })
            &&& r.2 == j
            &&& i <= r.2 <= toks.len()
        }),
{
    proof {
        crate::tokens::lemma_toks_of_len(toks@);
    }
    let mut attrs: Vec<Token> = Vec::new();
    let mut sections: Vec<DocSection> = Vec::new();
    let mut lines: Vec<DocLine> = Vec::new();
    let mut j = i;
    proof {
        assert(toks_of(attrs@) =~= Seq::<Tok>::empty());
        assert(sections@.map(|x: int, q: DocSection| doc_section_model(q)) =~= Seq::<
            DocSectionV,
        >::empty());
        assert(lines@.map(|x: int, l: DocLine| doc_line_model(l)) =~= Seq::<DocLineV>::empty());
    }
    while j < toks.len() && exec_is_p(toks, j, '#') && exec_is_grp(toks, j + 1, Delim::Bracket)
        invariant
            i <= j <= toks.len(),
            spec_parse_intro_attrs(
                toks_of(toks@),
                i as int,
                Seq::empty(),
                Seq::empty(),
                Seq::empty(),
            ) == spec_parse_intro_attrs(
                toks_of(toks@),
                j as int,
                toks_of(attrs@),
                sections@.map(|x: int, q: DocSection| doc_section_model(q)),
                lines@.map(|x: int, l: DocLine| doc_line_model(l)),
            ),
        decreases toks.len() - j,
    {
        proof {
            crate::tokens::lemma_toks_of_len(toks@);
        }
        match exec_doc_attr_line(&toks[j + 1]) {
            Option::Some(l) => {
                if exec_is_doc_sep(&l) {
                    let sec = DocSection { lines };
                    proof {
                        assert(sections@.push(sec).map(|x: int, q: DocSection| doc_section_model(q))
                            =~= sections@.map(|x: int, q: DocSection| doc_section_model(q)).push(
                            doc_section_model(sec),
                        ));
                        assert(doc_section_model(sec).lines =~= lines@.map(
                            |x: int, q: DocLine| doc_line_model(q),
                        ));
                    }
                    sections.push(sec);
                    lines = Vec::new();
                    proof {
                        assert(lines@.map(|x: int, l2: DocLine| doc_line_model(l2)) =~= Seq::<
                            DocLineV,
                        >::empty());
                    }
                } else {
                    proof {
                        assert(lines@.push(l).map(|x: int, l2: DocLine| doc_line_model(l2)) =~=
                            lines@.map(|x: int, l2: DocLine| doc_line_model(l2)).push(
                            doc_line_model(l),
                        ));
                    }
                    lines.push(l);
                }
            },
            Option::None => {
                let t0 = toks[j].clone_token();
                proof {
                    crate::tokens::lemma_toks_of_push(attrs@, t0);
                }
                attrs.push(t0);
                let t1 = toks[j + 1].clone_token();
                proof {
                    crate::tokens::lemma_toks_of_push(attrs@, t1);
                }
                attrs.push(t1);
            },
        }
        j = j + 2;
    }
    if lines.len() > 0 {
        let sec = DocSection { lines };
        proof {
            assert(sections@.push(sec).map(|x: int, q: DocSection| doc_section_model(q)) =~=
                sections@.map(|x: int, q: DocSection| doc_section_model(q)).push(
                doc_section_model(sec),
            ));
            assert(doc_section_model(sec).lines =~= lines@.map(
                |x: int, q: DocLine| doc_line_model(q),
            ));
        }
        sections.push(sec);
    }
    (attrs, DocumentationBlock { sections }, j)
}

/// Parses the qualifiers before a declaration.
pub fn parse_intro(toks: &Vec<Token>, i: usize) -> (r: (Intro, usize))
    requires
        i <= toks.len(),
    ensures
        spec_parse_intro(toks_of(toks@), i as int) == (intro_model(r.0), r.1 as int),
        i <= r.1 <= toks.len(),
{
    proof {
        crate::tokens::lemma_toks_of_len(toks@);
    }
    let (attrs, doc, j) = parse_doc_attrs(toks, i);
    let (vis, k) = if exec_is_word(toks, j, "pub") {
        let vspan = exec_span_at(toks, j);
        if exec_is_grp(toks, j + 1, Delim::Paren) {
            let scope = match &toks[j + 1] {
                Token::Group { inner, .. } => clone_tokens_ref(inner),
                _ => Vec::new(),
            };
            (Visibility::Restricted { scope, span: vspan }, j + 2)
        } else {
            (Visibility::Public { span: vspan }, j + 1)
        }
    } else {
        (Visibility::Private, j)
    };
    let (is_async, m) = if exec_is_word(toks, k, "async") {
        (true, k + 1)
    } else {
        (false, k)
    };
    let intro = Intro { attrs, doc, vis, is_async };
    (intro, m)
}

/// An exact copy of a sequence of tokens.
fn clone_tokens_ref(v: &Vec<Token>) -> (r: Vec<Token>)
    ensures
        toks_of(r@) == toks_of(v@),
{
    crate::tokens::clone_tokens(v)
}

/// Parses the arguments inside the parentheses of a segment: named arguments
/// `name: type`, or the self receiver in its simple forms, which is refused
/// after any other argument or after another receiver. Patterns other than a
/// plain name are refused with a fixed message.
pub open spec fn spec_parse_args(s: Seq<Tok>, i: int, acc: Seq<UsualArgV>, has_rec: bool) -> Result<
    (Seq<UsualArgV>, int),
    FailV,
>
    decreases s.len() - i, 2int,
    via spec_parse_args_dec
{
    if i >= s.len() {
        Ok((acc, i))
    } else {
        let (attrs, j) = spec_parse_plain_attrs(s, i, Seq::empty());
        spec_parse_arg(s, j, acc, has_rec, attrs)
    }
}

#[via_fn]
proof fn spec_parse_args_dec(s: Seq<Tok>, i: int, acc: Seq<UsualArgV>, has_rec: bool) {
    lemma_plain_attrs_bounds(s, i, Seq::empty());
}

/// The checks every parsed receiver goes through: it must be the only
/// receiver, stand first, and carry no `:`-annotated type; after it the list
/// continues at a comma or ends.
pub open spec fn spec_receiver_tail(
    s: Seq<Tok>,
    next: int,
    acc: Seq<UsualArgV>,
    arg: UsualArgV,
    has_rec: bool,
    self_span: nat,
) -> Result<(Seq<UsualArgV>, int), FailV>
    decreases s.len() - next, 0int,
{
    if has_rec {
        Err(FailV { message: "unexpected second method receiver"@, span: self_span })
    } else if acc.len() > 0 {
        Err(FailV { message: "unexpected method receiver"@, span: self_span })
    } else if is_p(s, next, ':') {
        Err(FailV { message: "Complex receivers type are not supported"@, span: span_at(s, next) })
    } else if next >= s.len() {
        Ok((acc.push(arg), next))
    } else if is_p(s, next, ',') {
        spec_parse_args(s, next + 1, acc.push(arg), true)
    } else {
        Err(FailV { message: "unexpected token"@, span: span_at(s, next) })
    }
}

/// Parses one argument, its attributes already collected.
pub open spec fn spec_parse_arg(
    s: Seq<Tok>,
    i: int,
    acc: Seq<UsualArgV>,
    has_rec: bool,
    attrs: Seq<Tok>,
) -> Result<(Seq<UsualArgV>, int), FailV>
    decreases s.len() - i, 1int,
{
    if is_p(s, i, '&') {
        let (lifetime, lifetime_span, j) = if is_p(s, i + 1, '\'') && is_ident(s, i + 2) {
            (Option::Some(ident_text(s, i + 2)), span_at(s, i + 2), i + 3)
        } else {
            (Option::None, 0nat, i + 1)
        };
        let (mutable, k) = if is_word(s, j, "mut"@) {
            (true, j + 1)
        } else {
            (false, j)
        };
        if is_word(s, k, "self"@) {
            let arg = UsualArgV {
                attrs,
                kind: UsualArgKindV::Receiver {
                    by_ref: true,
                    lifetime,
                    lifetime_span,
                    mutable,
                    self_span: span_at(s, k),
                },
            };
            spec_receiver_tail(s, k + 1, acc, arg, has_rec, span_at(s, k))
        } else {
            Err(
                FailV {
                    message: "Only basic identifier pattern is supported"@,
                    span: span_at(s, i),
                },
            )
        }
    } else if is_word(s, i, "mut"@) {
        if is_word(s, i + 1, "self"@) {
            let arg = UsualArgV {
                attrs,
                kind: UsualArgKindV::Receiver {
                    by_ref: false,
                    lifetime: Option::None,
                    lifetime_span: 0,
                    mutable: true,
                    self_span: span_at(s, i + 1),
                },
            };
            spec_receiver_tail(s, i + 2, acc, arg, has_rec, span_at(s, i + 1))
        } else {
            Err(FailV { message: "Mutability is not supported"@, span: span_at(s, i) })
        }
    } else if is_word(s, i, "ref"@) {
        if is_word(s, i + 1, "mut"@) {
            Err(FailV { message: "Mutability is not supported"@, span: span_at(s, i + 1) })
        } else {
            Err(FailV { message: "By ref parameter are not supported"@, span: span_at(s, i) })
        }
    } else if is_word(s, i, "self"@) {
        let arg = UsualArgV {
            attrs,
            kind: UsualArgKindV::Receiver {
                by_ref: false,
                lifetime: Option::None,
                lifetime_span: 0,
                mutable: false,
                self_span: span_at(s, i),
            },
        };
        spec_receiver_tail(s, i + 1, acc, arg, has_rec, span_at(s, i))
    } else if is_ident(s, i) {
        if is_p(s, i + 1, '@') {
            Err(FailV { message: "Subpatterns are not supported"@, span: span_at(s, i + 1) })
        } else if is_p(s, i + 1, ':') {
            spec_parse_arg_type(
                s,
                i + 2,
                acc,
                has_rec,
                attrs,
                ident_text(s, i),
                span_at(s, i),
                Seq::empty(),
                0,
            )
        } else {
            Err(FailV { message: "expected `:`"@, span: span_at(s, i + 1) })
        }
    } else if i >= s.len() {
        Err(
            FailV {
                message: "Only basic identifier pattern is supported"@,
                span: span_at(s, i),
            },
        )
    } else {
        Err(FailV { message: "Only basic identifier pattern is supported"@, span: span_at(s, i) })
    }
}

/// Collects the type of a named argument: everything up to a comma outside
/// angle brackets or to the end of the list; a semicolon there is refused.
pub open spec fn spec_parse_arg_type(
    s: Seq<Tok>,
    i: int,
    acc: Seq<UsualArgV>,
    has_rec: bool,
    attrs: Seq<Tok>,
    name: Seq<char>,
    name_span: nat,
    ty: Seq<Tok>,
    angle: int,
) -> Result<(Seq<UsualArgV>, int), FailV>
    decreases s.len() - i, 0int,
{
    let arg = UsualArgV { attrs, kind: UsualArgKindV::Identified { name, name_span, ty } };
    if i >= s.len() {
        if ty.len() == 0 {
            Err(FailV { message: "expected a type"@, span: span_at(s, i) })
        } else {
            Ok((acc.push(arg), i))
        }
    } else if is_p(s, i, ',') && angle <= 0 {
        if ty.len() == 0 {
            Err(FailV { message: "expected a type"@, span: span_at(s, i) })
        } else {
            spec_parse_args(s, i + 1, acc.push(arg), has_rec)
        }
    } else if is_p(s, i, ';') && angle <= 0 {
        Err(FailV { message: "unexpected token"@, span: span_at(s, i) })
    } else if is_p(s, i, '<') {
        spec_parse_arg_type(s, i + 1, acc, has_rec, attrs, name, name_span, ty.push(s[i]), angle + 1)
    } else if is_p(s, i, '>') && !arrow_before(s, i) && angle > 0 {
        spec_parse_arg_type(s, i + 1, acc, has_rec, attrs, name, name_span, ty.push(s[i]), angle - 1)
    } else {
        spec_parse_arg_type(s, i + 1, acc, has_rec, attrs, name, name_span, ty.push(s[i]), angle)
    }
}

/// Parses the arguments inside the parentheses of a segment.
pub fn parse_args(toks: &Vec<Token>, i: usize, acc: Vec<UsualArg>, has_rec: bool) -> (r: Result<
    (Vec<UsualArg>, usize),
    Failure,
>)
    requires
        i <= toks.len(),
    ensures
        match r {
            Ok((v, next)) => {
                &&& spec_parse_args(toks_of(toks@), i as int, usual_args_model(acc@), has_rec)
                    == Ok::<_, FailV>((usual_args_model(v@), next as int))
                &&& i <= next <= toks.len()
            },
            Err(f) => spec_parse_args(toks_of(toks@), i as int, usual_args_model(acc@), has_rec)
                == Err::<(Seq<UsualArgV>, int), _>(failure_model(f)),
        },
    decreases toks.len() - i, 2int,
{
    proof {
        crate::tokens::lemma_toks_of_len(toks@);
    }
    if i >= toks.len() {
        Ok((acc, i))
    } else {
        let empty_attrs: Vec<Token> = Vec::new();
        proof {
            assert(toks_of(empty_attrs@) =~= Seq::<Tok>::empty());
        }
        let (attrs, j) = parse_plain_attrs(toks, i, empty_attrs);
        parse_arg(toks, j, acc, has_rec, attrs, Ghost(i as int))
    }
}

/// The checks every parsed receiver goes through.
fn receiver_tail(
    toks: &Vec<Token>,
    next: usize,
    acc: Vec<UsualArg>,
    arg: UsualArg,
    has_rec: bool,
    self_span: usize,
) -> (r: Result<(Vec<UsualArg>, usize), Failure>)
    requires
        next <= toks.len(),
    ensures
        match r {
            Ok((v, n2)) => {
                &&& spec_receiver_tail(
                    toks_of(toks@),
                    next as int,
                    usual_args_model(acc@),
                    usual_arg_model(arg),
                    has_rec,
                    self_span as nat,
                ) == Ok::<_, FailV>((usual_args_model(v@), n2 as int))
                &&& next <= n2 <= toks.len()
            },
            Err(f) => spec_receiver_tail(
                toks_of(toks@),
                next as int,
                usual_args_model(acc@),
                usual_arg_model(arg),
                has_rec,
                self_span as nat,
            ) == Err::<(Seq<UsualArgV>, int), _>(failure_model(f)),
        },
    decreases toks.len() - next, 0int,
{
    proof {
        crate::tokens::lemma_toks_of_len(toks@);
    }
    if has_rec {
        Err(
            Failure {
                message: "unexpected second method receiver".to_string(),
                span: self_span,
            },
        )
    } else if acc.len() > 0 {
        Err(Failure { message: "unexpected method receiver".to_string(), span: self_span })
    } else if exec_is_p(toks, next, ':') {
        Err(fail_at(toks, next, "Complex receivers type are not supported"))
    } else if next >= toks.len() {
        let mut acc = acc;
        proof {
            assert(usual_args_model(acc@.push(arg)) =~= usual_args_model(acc@).push(
                usual_arg_model(arg),
            ));
        }
        acc.push(arg);
        Ok((acc, next))
    } else if exec_is_p(toks, next, ',') {
        let mut acc = acc;
        proof {
            assert(usual_args_model(acc@.push(arg)) =~= usual_args_model(acc@).push(
                usual_arg_model(arg),
            ));
        }
        acc.push(arg);
        parse_args(toks, next + 1, acc, true)
    } else {
        Err(fail_at(toks, next, "unexpected token"))
    }
}

/// Parses one argument, its attributes already collected.
fn parse_arg(
    toks: &Vec<Token>,
    i: usize,
    acc: Vec<UsualArg>,
    has_rec: bool,
    attrs: Vec<Token>,
    from: Ghost<int>,
) -> (r: Result<(Vec<UsualArg>, usize), Failure>)
    requires
        from@ <= i <= toks.len(),
    ensures
        match r {
            Ok((v, next)) => {
                &&& spec_parse_arg(
                    toks_of(toks@),
                    i as int,
                    usual_args_model(acc@),
                    has_rec,
                    toks_of(attrs@),
                ) == Ok::<_, FailV>((usual_args_model(v@), next as int))
                &&& i <= next <= toks.len()
            },
            Err(f) => spec_parse_arg(
                toks_of(toks@),
                i as int,
                usual_args_model(acc@),
                has_rec,
                toks_of(attrs@),
            ) == Err::<(Seq<UsualArgV>, int), _>(failure_model(f)),
        },
    decreases toks.len() - i, 1int,
{
    proof {
        crate::tokens::lemma_toks_of_len(toks@);
    }
    if exec_is_p(toks, i, '&') {
        let has_lt = exec_is_p(toks, i + 1, '\'') && exec_is_ident(toks, i + 2);
        let (lifetime, lifetime_span, j) = if has_lt {
            match &toks[i + 2] {
                Token::Ident { text, span } => (Option::Some(text.clone()), *span, i + 3),
                _ => (Option::None, 0, i + 1),
            }
        } else {
            (Option::None, 0, i + 1)
        };
        let (mutable, k) = if exec_is_word(toks, j, "mut") {
            (true, j + 1)
        } else {
            (false, j)
        };
        if exec_is_word(toks, k, "self") {
            let self_span = exec_span_at(toks, k);
            let arg = UsualArg {
                attrs,
                kind: UsualArgKind::Receiver {
                    by_ref: true,
                    lifetime,
                    lifetime_span,
                    mutable,
                    self_span,
                },
            };
            receiver_tail(toks, k + 1, acc, arg, has_rec, self_span)
        } else {
            Err(fail_at(toks, i, "Only basic identifier pattern is supported"))
        }
    } else if exec_is_word(toks, i, "mut") {
        if exec_is_word(toks, i + 1, "self") {
            let self_span = exec_span_at(toks, i + 1);
            let arg = UsualArg {
                attrs,
                kind: UsualArgKind::Receiver {
                    by_ref: false,
                    lifetime: Option::None,
                    lifetime_span: 0,
                    mutable: true,
                    self_span,
                },
            };
            receiver_tail(toks, i + 2, acc, arg, has_rec, self_span)
        } else {
            Err(fail_at(toks, i, "Mutability is not supported"))
        }
    } else if exec_is_word(toks, i, "ref") {
        if exec_is_word(toks, i + 1, "mut") {
            Err(fail_at(toks, i + 1, "Mutability is not supported"))
        } else {
            Err(fail_at(toks, i, "By ref parameter are not supported"))
        }
    } else if exec_is_word(toks, i, "self") {
        let self_span = exec_span_at(toks, i);
        let arg = UsualArg {
            attrs,
            kind: UsualArgKind::Receiver {
                by_ref: false,
                lifetime: Option::None,
                lifetime_span: 0,
                mutable: false,
                self_span,
            },
        };
        receiver_tail(toks, i + 1, acc, arg, has_rec, self_span)
    } else if exec_is_ident(toks, i) {
        if exec_is_p(toks, i + 1, '@') {
            Err(fail_at(toks, i + 1, "Subpatterns are not supported"))
        } else if exec_is_p(toks, i + 1, ':') {
            let (name, name_span) = match &toks[i] {
                Token::Ident { text, span } => (text.clone(), *span),
                _ => (String::new(), 0),
            };
            let empty_ty: Vec<Token> = Vec::new();
            proof {
                assert(toks_of(empty_ty@) =~= Seq::<Tok>::empty());
            }
            parse_arg_type(toks, i + 2, acc, has_rec, attrs, name, name_span, empty_ty, 0)
        } else {
            Err(fail_at(toks, i + 1, "expected `:`"))
        }
    } else {
        Err(fail_at(toks, i, "Only basic identifier pattern is supported"))
    }
}

/// Collects the type of a named argument.
fn parse_arg_type(
    toks: &Vec<Token>,
    i: usize,
    acc: Vec<UsualArg>,
    has_rec: bool,
    attrs: Vec<Token>,
    name: String,
    name_span: usize,
    ty: Vec<Token>,
    angle: usize,
) -> (r: Result<(Vec<UsualArg>, usize), Failure>)
    requires
        i <= toks.len(),
        angle <= i,
    ensures
        match r {
            Ok((v, next)) => {
                &&& spec_parse_arg_type(
                    toks_of(toks@),
                    i as int,
                    usual_args_model(acc@),
                    has_rec,
                    toks_of(attrs@),
                    name@,
                    name_span as nat,
                    toks_of(ty@),
                    angle as int,
                ) == Ok::<_, FailV>((usual_args_model(v@), next as int))
                &&& i <= next <= toks.len()
            },
            Err(f) => spec_parse_arg_type(
                toks_of(toks@),
                i as int,
                usual_args_model(acc@),
                has_rec,
                toks_of(attrs@),
                name@,
                name_span as nat,
                toks_of(ty@),
                angle as int,
            ) == Err::<(Seq<UsualArgV>, int), _>(failure_model(f)),
        },
    decreases toks.len() - i, 0int,
{
    proof {
        crate::tokens::lemma_toks_of_len(toks@);
        crate::tokens::lemma_toks_of_len(ty@);
    }
    if i >= toks.len() {
        if ty.len() == 0 {
            Err(fail_at(toks, i, "expected a type"))
        } else {
            let mut acc = acc;
            let arg = UsualArg { attrs, kind: UsualArgKind::Identified { name, name_span, ty } };
            proof {
                assert(usual_args_model(acc@.push(arg)) =~= usual_args_model(acc@).push(
                    usual_arg_model(arg),
                ));
            }
            acc.push(arg);
            Ok((acc, i))
        }
    } else if exec_is_p(toks, i, ',') && angle == 0 {
        if ty.len() == 0 {
            Err(fail_at(toks, i, "expected a type"))
        } else {
            let mut acc = acc;
            let arg = UsualArg { attrs, kind: UsualArgKind::Identified { name, name_span, ty } };
            proof {
                assert(usual_args_model(acc@.push(arg)) =~= usual_args_model(acc@).push(
                    usual_arg_model(arg),
                ));
            }
            acc.push(arg);
            parse_args(toks, i + 1, acc, has_rec)
        }
    } else if exec_is_p(toks, i, ';') && angle == 0 {
        Err(fail_at(toks, i, "unexpected token"))
    } else if exec_is_p(toks, i, '<') {
        let mut ty = ty;
        let t = toks[i].clone_token();
        proof {
            crate::tokens::lemma_toks_of_push(ty@, t);
        }
        ty.push(t);
        parse_arg_type(toks, i + 1, acc, has_rec, attrs, name, name_span, ty, angle + 1)
    } else if exec_is_p(toks, i, '>') && !exec_arrow_before(toks, i) && angle > 0 {
        let mut ty = ty;
        let t = toks[i].clone_token();
        proof {
            crate::tokens::lemma_toks_of_push(ty@, t);
        }
        ty.push(t);
        parse_arg_type(toks, i + 1, acc, has_rec, attrs, name, name_span, ty, angle - 1)
    } else {
        let mut ty = ty;
        let t = toks[i].clone_token();
        proof {
            crate::tokens::lemma_toks_of_push(ty@, t);
        }
        ty.push(t);
        parse_arg_type(toks, i + 1, acc, has_rec, attrs, name, name_span, ty, angle)
    }
}

/// Clamps a parser position that must have moved strictly past `i` into
/// range. Positions the parser produces are always in range already, as the
/// contracts of the executable functions show, so the clamp changes nothing;
/// it only makes the recursion of the defining functions visibly well
/// founded.
pub open spec fn adv_strict(i: int, j: int, n: int) -> int {
    let r = if j <= i {
        i + 1
    } else {
        j
    };
    if r > n {
        n
    } else {
        r
    }
}

/// Clamps a parser position that must not have moved backwards into range.
pub open spec fn adv_ge(i: int, j: int, n: int) -> int {
    let r = if j < i {
        i
    } else {
        j
    };
    if r > n {
        n
    } else {
        r
    }
}

/// Parses one segment: a name, an optional `<...>` group of generic
/// parameters, and a parenthesized argument list.
pub open spec fn spec_parse_section(s: Seq<Tok>, i: int) -> Result<(SectionV, int), FailV> {
    if !is_ident(s, i) {
        Err(FailV { message: "expected identifier"@, span: span_at(s, i) })
    } else {
        let name = ident_text(s, i);
        let name_span = span_at(s, i);
        let gens_result: Result<(Seq<GenericParamV>, int), FailV> = if is_p(s, i + 1, '<') {
            spec_parse_generics(s, i + 2, Seq::empty())
        } else {
            Ok((Seq::empty(), i + 1))
        };
        match gens_result {
            Err(f) => Err(f),
            Ok((generics, j)) => {
                if !is_grp(s, j, Delim::Paren) {
                    Err(FailV { message: "expected parentheses"@, span: span_at(s, j) })
                } else {
                    match spec_parse_args(grp_inner(s, j), 0, Seq::empty(), false) {
                        Err(f) => Err(f),
                        Ok((args, _)) => Ok(
                            (
                                SectionV {
                                    name,
                                    name_span,
                                    generics,
                                    args,
                                    where_clause: Seq::empty(),
                                },
                                j + 1,
                            ),
                        ),
                    }
                }
            },
        }
    }
}

/// Parses one segment.
pub fn parse_section(toks: &Vec<Token>, i: usize) -> (r: Result<(Section, usize), Failure>)
    ensures
        match r {
            Ok((sec, next)) => {
                &&& spec_parse_section(toks_of(toks@), i as int) == Ok::<_, FailV>(
                    (section_model(sec), next as int),
                )
                &&& i < next <= toks.len()
            },
            Err(f) => spec_parse_section(toks_of(toks@), i as int) == Err::<(SectionV, int), _>(
                failure_model(f),
            ),
        },
{
    let _n = toks.len();
    proof {
        crate::tokens::lemma_toks_of_len(toks@);
    }
    if !exec_is_ident(toks, i) {
        return Err(fail_at(toks, i, "expected identifier"));
    }
    let (name, name_span) = match &toks[i] {
        Token::Ident { text, span } => (text.clone(), *span),
        _ => (String::new(), 0),
    };
    let empty_gens: Vec<GenericParam> = Vec::new();
    proof {
        assert(generic_params_model(empty_gens@) =~= Seq::<GenericParamV>::empty());
    }
    let (generics, j) = if exec_is_p(toks, i + 1, '<') {
        match parse_generics(toks, i + 2, empty_gens) {
            Ok(p) => p,
            Err(f) => {
                return Err(f);
            },
        }
    } else {
        (empty_gens, i + 1)
    };
    if !exec_is_grp(toks, j, Delim::Paren) {
        return Err(fail_at(toks, j, "expected parentheses"));
    }
    let inner = match &toks[j] {
        Token::Group { inner, .. } => inner,
        _ => unreached(),
    };
    proof {
        assert(toks_of(inner@) == grp_inner(toks_of(toks@), j as int));
    }
    let empty_args: Vec<UsualArg> = Vec::new();
    proof {
        assert(usual_args_model(empty_args@) =~= Seq::<UsualArgV>::empty());
    }
    match parse_args(inner, 0, empty_args, false) {
        Ok((args, _)) => {
            let empty_wc: Vec<Token> = Vec::new();
            proof {
                assert(toks_of(empty_wc@) =~= Seq::<Tok>::empty());
            }
            let sec = Section { name, name_span, generics, args, where_clause: empty_wc };
            Ok((sec, j + 1))
        },
        Err(f) => Err(f),
    }
}

/// Collects the tokens of a declared return type: everything up to a `where`
/// or a braced body outside angle brackets.
pub open spec fn spec_collect_ret(s: Seq<Tok>, i: int, acc: Seq<Tok>, angle: int) -> (Seq<Tok>, int)
    decreases s.len() - i,
{
    if i >= s.len() {
        (acc, i)
    } else if angle <= 0 && (is_word(s, i, "where"@) || is_grp(s, i, Delim::Brace)) {
        (acc, i)
    } else if is_p(s, i, '<') {
        spec_collect_ret(s, i + 1, acc.push(s[i]), angle + 1)
    } else if is_p(s, i, '>') && !arrow_before(s, i) && angle > 0 {
        spec_collect_ret(s, i + 1, acc.push(s[i]), angle - 1)
    } else {
        spec_collect_ret(s, i + 1, acc.push(s[i]), angle)
    }
}

/// Collects the tokens of a declared return type.
pub fn collect_ret(toks: &Vec<Token>, i: usize, acc: Vec<Token>, angle: usize) -> (r: (
    Vec<Token>,
    usize,
))
    requires
        i <= toks.len(),
        angle <= i,
    ensures
        spec_collect_ret(toks_of(toks@), i as int, toks_of(acc@), angle as int) == (
        toks_of(r.0@),
        r.1 as int,
        ),
        i <= r.1 <= toks.len(),
    decreases toks.len() - i,
{
    proof {
        crate::tokens::lemma_toks_of_len(toks@);
    }
    if i >= toks.len() {
        (acc, i)
    } else if angle == 0 && (exec_is_word(toks, i, "where") || exec_is_grp(toks, i, Delim::Brace)) {
        (acc, i)
    } else if exec_is_p(toks, i, '<') {
        let mut acc = acc;
        let t = toks[i].clone_token();
        proof {
            crate::tokens::lemma_toks_of_push(acc@, t);
        }
        acc.push(t);
        collect_ret(toks, i + 1, acc, angle + 1)
    } else if exec_is_p(toks, i, '>') && !exec_arrow_before(toks, i) && angle > 0 {
        let mut acc = acc;
        let t = toks[i].clone_token();
        proof {
            crate::tokens::lemma_toks_of_push(acc@, t);
        }
        acc.push(t);
        collect_ret(toks, i + 1, acc, angle - 1)
    } else {
        let mut acc = acc;
        let t = toks[i].clone_token();
        proof {
            crate::tokens::lemma_toks_of_push(acc@, t);
        }
        acc.push(t);
        collect_ret(toks, i + 1, acc, angle)
    }
}

/// Collects the tokens of a where clause: everything up to the braced body.
pub open spec fn spec_collect_where(s: Seq<Tok>, i: int, acc: Seq<Tok>) -> (Seq<Tok>, int)
    decreases s.len() - i,
{
    if i >= s.len() {
        (acc, i)
    } else if is_grp(s, i, Delim::Brace) {
        (acc, i)
    } else {
        spec_collect_where(s, i + 1, acc.push(s[i]))
    }
}

/// Collects the tokens of a where clause.
pub fn collect_where(toks: &Vec<Token>, i: usize, acc: Vec<Token>) -> (r: (Vec<Token>, usize))
    requires
        i <= toks.len(),
    ensures
        spec_collect_where(toks_of(toks@), i as int, toks_of(acc@)) == (toks_of(r.0@), r.1 as int),
        i <= r.1 <= toks.len(),
    decreases toks.len() - i,
{
    proof {
        crate::tokens::lemma_toks_of_len(toks@);
    }
    if i >= toks.len() {
        (acc, i)
    } else if exec_is_grp(toks, i, Delim::Brace) {
        (acc, i)
    } else {
        let mut acc = acc;
        let t = toks[i].clone_token();
        proof {
            crate::tokens::lemma_toks_of_push(acc@, t);
        }
        acc.push(t);
        collect_where(toks, i + 1, acc)
    }
}

/// Parses one branch: a segment, then either a continuation after a dot (a
/// further segment, or a braced block of `fn` alternatives), or a terminal
/// tail: an optional return type after an arrow, an optional where clause,
/// and a braced body.
pub open spec fn spec_parse_branch(s: Seq<Tok>, i: int) -> Result<(BranchV, int), FailV>
    decreases s, s.len() - i, 1int,
{
    match spec_parse_section(s, i) {
        Err(f) => Err(f),
        Ok((sec, j0)) => {
            let j = adv_strict(i, j0, s.len() as int);
            if is_p(s, j, '.') {
                if is_grp(s, j + 1, Delim::Brace) {
                    match spec_parse_alternatives(
                        grp_inner(s, j + 1),
                        0,
                        span_at(s, j + 1),
                        Seq::empty(),
                    ) {
                        Err(f) => Err(f),
                        Ok(children) => Ok(
                            (
                                BranchV { section: sec, tail: BranchTailV::Alternative { children } },
                                j + 2,
                            ),
                        ),
                    }
                } else {
                    match spec_parse_branch(s, j + 1) {
                        Err(f) => Err(f),
                        Ok((child, k)) => {
                            let documented = DocumentedBranchV {
                                doc: DocBlockV { sections: Seq::empty() },
                                branch: child,
                            };
                            Ok(
                                (
                                    BranchV {
                                        section: sec,
                                        tail: BranchTailV::Alternative {
                                            children: Seq::empty().push(documented),
                                        },
                                    },
                                    k,
                                ),
                            )
                        },
                    }
                }
            } else {
                let (ret, m0) = if is_p(s, j, '-') && is_p(s, j + 1, '>') {
                    spec_collect_ret(s, j + 2, Seq::empty(), 0)
                } else {
                    (Seq::empty(), j)
                };
                let m = adv_ge(j, m0, s.len() as int);
                let (wc, p0) = if is_word(s, m, "where"@) {
                    spec_collect_where(s, m + 1, Seq::empty().push(s[m]))
                } else {
                    (Seq::empty(), m)
                };
                let p = adv_ge(m, p0, s.len() as int);
                if is_grp(s, p, Delim::Brace) {
                    let sec2 = SectionV {
                        name: sec.name,
                        name_span: sec.name_span,
                        generics: sec.generics,
                        args: sec.args,
                        where_clause: wc,
                    };
                    Ok(
                        (
                            BranchV {
                                section: sec2,
                                tail: BranchTailV::Leaf {
                                    ret,
                                    body: grp_inner(s, p),
                                    body_span: span_at(s, p),
                                },
                            },
                            p + 1,
                        ),
                    )
                } else {
                    Err(FailV { message: "expected curly braces"@, span: span_at(s, p) })
                }
            }
        },
    }
}

/// Parses the alternatives inside a `.{ ... }` block: one or more `fn`
/// continuations, each with its own documentation and nothing else before
/// the `fn`.
pub open spec fn spec_parse_alternatives(
    s: Seq<Tok>,
    i: int,
    gspan: nat,
    acc: Seq<DocumentedBranchV>,
) -> Result<Seq<DocumentedBranchV>, FailV>
    decreases s, s.len() - i, 0int,
    via spec_parse_alternatives_dec
{
    if i >= s.len() {
        if acc.len() == 0 {
            Err(FailV { message: "expected `fn`"@, span: gspan })
        } else {
            Ok(acc)
        }
    } else {
        let (attrs, sections0, lines, j0) = spec_parse_intro_attrs(
            s,
            i,
            Seq::empty(),
            Seq::empty(),
            Seq::empty(),
        );
        let sections = if lines.len() > 0 {
            sections0.push(DocSectionV { lines })
        } else {
            sections0
        };
        let j = adv_ge(i, j0, s.len() as int);
        if attrs.len() > 0 {
            Err(FailV { message: "only document attributes are allowed here"@, span: span_at(s, j) })
        } else if !is_word(s, j, "fn"@) {
            Err(FailV { message: "expected `fn`"@, span: span_at(s, j) })
        } else {
            match spec_parse_branch(s, j + 1) {
                Err(f) => Err(f),
                Ok((branch, k)) => {
                    let documented = DocumentedBranchV {
                        doc: DocBlockV { sections },
                        branch,
                    };
                    spec_parse_alternatives(
                        s,
                        adv_strict(j + 1, k, s.len() as int),
                        gspan,
                        acc.push(documented),
                    )
                },
            }
        }
    }
}

#[via_fn]
proof fn spec_parse_alternatives_dec(s: Seq<Tok>, i: int, gspan: nat, acc: Seq<DocumentedBranchV>) {
    lemma_intro_attrs_bounds(s, i, Seq::empty(), Seq::empty(), Seq::empty());
}

/// Parses one branch.
pub fn parse_branch(toks: &Vec<Token>, i: usize) -> (r: Result<(Branch, usize), Failure>)
    ensures
        match r {
            Ok((b, next)) => {
                &&& spec_parse_branch(toks_of(toks@), i as int) == Ok::<_, FailV>(
                    (branch_model(b), next as int),
                )
                &&& i < next <= toks.len()
            },
            Err(f) => spec_parse_branch(toks_of(toks@), i as int) == Err::<(BranchV, int), _>(
                failure_model(f),
            ),
        },
    decreases toks, toks.len() - i, 1int,
{
    proof {
        crate::tokens::lemma_toks_of_len(toks@);
    }
    let (sec, j) = match parse_section(toks, i) {
        Ok(p) => p,
        Err(f) => {
            return Err(f);
        },
    };
    proof {
        assert(adv_strict(i as int, j as int, toks_of(toks@).len() as int) == j as int);
    }
    if exec_is_p(toks, j, '.') {
        if exec_is_grp(toks, j + 1, Delim::Brace) {
            let gspan = exec_span_at(toks, j + 1);
            let inner = match &toks[j + 1] {
                Token::Group { inner, .. } => inner,
                _ => unreached(),
            };
            proof {
                assert(toks_of(inner@) == grp_inner(toks_of(toks@), j + 1));
                assert(decreases_to!(toks => inner));
            }
            let empty_children: Vec<DocumentedBranch> = Vec::new();
            proof {
                assert(documented_branches_model(empty_children@) =~= Seq::<
                    DocumentedBranchV,
                >::empty());
            }
            match parse_alternatives(inner, 0, gspan, empty_children) {
                Err(f) => Err(f),
                Ok(children) => {
                    let b = Branch { section: sec, tail: BranchTail::Alternative { children } };
                    Ok((b, j + 2))
                },
            }
        } else {
            match parse_branch(toks, j + 1) {
                Err(f) => Err(f),
                Ok((child, k)) => {
                    let documented = DocumentedBranch {
                        doc: DocumentationBlock { sections: Vec::new() },
                        branch: child,
                    };
                    let mut children: Vec<DocumentedBranch> = Vec::new();
                    proof {
                        assert(documented_branches_model(children@) =~= Seq::<
                            DocumentedBranchV,
                        >::empty());
                        lemma_documented_branches_push(children@, documented);
                        assert(doc_block_model(documented.doc).sections =~= Seq::<
                            DocSectionV,
                        >::empty());
                    }
                    children.push(documented);
                    let b = Branch { section: sec, tail: BranchTail::Alternative { children } };
                    Ok((b, k))
                },
            }
        }
    } else {
        let empty_ret: Vec<Token> = Vec::new();
        proof {
            assert(toks_of(empty_ret@) =~= Seq::<Tok>::empty());
        }
        let (ret, m) = if exec_is_p(toks, j, '-') && exec_is_p(toks, j + 1, '>') {
            collect_ret(toks, j + 2, empty_ret, 0)
        } else {
            (empty_ret, j)
        };
        proof {
            assert(adv_ge(j as int, m as int, toks_of(toks@).len() as int) == m as int);
        }
        let (wc, p) = if exec_is_word(toks, m, "where") {
            let mut wc0: Vec<Token> = Vec::new();
            let t = toks[m].clone_token();
            proof {
                assert(toks_of(wc0@) =~= Seq::<Tok>::empty());
                crate::tokens::lemma_toks_of_push(wc0@, t);
            }
            wc0.push(t);
            collect_where(toks, m + 1, wc0)
        } else {
            let empty_wc: Vec<Token> = Vec::new();
            proof {
                assert(toks_of(empty_wc@) =~= Seq::<Tok>::empty());
            }
            (empty_wc, m)
        };
        proof {
            assert(adv_ge(m as int, p as int, toks_of(toks@).len() as int) == p as int);
        }
        if exec_is_grp(toks, p, Delim::Brace) {
            let body_span = exec_span_at(toks, p);
            let inner = match &toks[p] {
                Token::Group { inner, .. } => inner,
                _ => unreached(),
            };
            proof {
                assert(toks_of(inner@) == grp_inner(toks_of(toks@), p as int));
            }
            let body = clone_tokens_ref(inner);
            let sec2 = Section {
                name: sec.name,
                name_span: sec.name_span,
                generics: sec.generics,
                args: sec.args,
                where_clause: wc,
            };
            let b = Branch { section: sec2, tail: BranchTail::Leaf { ret, body, body_span } };
            Ok((b, p + 1))
        } else {
            Err(fail_at(toks, p, "expected curly braces"))
        }
    }
}

/// Parses the alternatives inside a `.{ ... }` block.
pub fn parse_alternatives(
    toks: &Vec<Token>,
    i: usize,
    gspan: usize,
    acc: Vec<DocumentedBranch>,
) -> (r: Result<Vec<DocumentedBranch>, Failure>)
    requires
        i <= toks.len(),
    ensures
        match r {
            Ok(v) => spec_parse_alternatives(
                toks_of(toks@),
                i as int,
                gspan as nat,
                documented_branches_model(acc@),
            ) == Ok::<_, FailV>(documented_branches_model(v@)),
            Err(f) => spec_parse_alternatives(
                toks_of(toks@),
                i as int,
                gspan as nat,
                documented_branches_model(acc@),
            ) == Err::<Seq<DocumentedBranchV>, _>(failure_model(f)),
        },
    decreases toks, toks.len() - i, 0int,
{
    proof {
        crate::tokens::lemma_toks_of_len(toks@);
    }
    if i >= toks.len() {
        if acc.len() == 0 {
            proof {
                crate::tokens::lemma_toks_of_len(toks@);
            }
            return Err(
                Failure { message: "expected `fn`".to_string(), span: gspan },
            );
        } else {
            return Ok(acc);
        }
    }
    let (attrs, doc, j) = parse_doc_attrs(toks, i);
    proof {
        crate::tokens::lemma_toks_of_len(attrs@);
        assert(adv_ge(i as int, j as int, toks_of(toks@).len() as int) == j as int);
    }
    if attrs.len() > 0 {
        return Err(fail_at(toks, j, "only document attributes are allowed here"));
    }
    if !exec_is_word(toks, j, "fn") {
        return Err(fail_at(toks, j, "expected `fn`"));
    }
    match parse_branch(toks, j + 1) {
        Err(f) => Err(f),
        Ok((branch, k)) => {
            let documented = DocumentedBranch { doc, branch };
            let mut acc = acc;
            proof {
                lemma_documented_branches_push(acc@, documented);
                assert(adv_strict(j + 1, k as int, toks_of(toks@).len() as int) == k as int);
            }
            acc.push(documented);
            parse_alternatives(toks, k, gspan, acc)
        },
    }
}

/// Collects the tokens of the type an implementation is for: everything up
/// to its `where` clause or its braced body outside angle brackets. A `for`
/// there means a trait implementation, which is refused, and a `;` an
/// implementation without a body.
pub open spec fn spec_collect_selfty(s: Seq<Tok>, i: int, acc: Seq<Tok>, angle: int) -> Result<
    (Seq<Tok>, int),
    FailV,
>
    decreases s.len() - i,
{
    if i >= s.len() {
        Ok((acc, i))
    } else if angle <= 0 && (is_grp(s, i, Delim::Brace) || is_word(s, i, "where"@)) {
        Ok((acc, i))
    } else if angle <= 0 && is_word(s, i, "for"@) {
        Err(FailV { message: "Only inherent implementations are allowed."@, span: span_at(s, i) })
    } else if angle <= 0 && is_p(s, i, ';') {
        Err(FailV { message: "Implementation should have a body."@, span: span_at(s, i) })
    } else if is_p(s, i, '<') {
        spec_collect_selfty(s, i + 1, acc.push(s[i]), angle + 1)
    } else if is_p(s, i, '>') && !arrow_before(s, i) && angle > 0 {
        spec_collect_selfty(s, i + 1, acc.push(s[i]), angle - 1)
    } else {
        spec_collect_selfty(s, i + 1, acc.push(s[i]), angle)
    }
}

/// Collects the tokens of the type an implementation is for.
pub fn collect_selfty(toks: &Vec<Token>, i: usize, acc: Vec<Token>, angle: usize) -> (r: Result<
    (Vec<Token>, usize),
    Failure,
>)
    requires
        i <= toks.len(),
        angle <= i,
    ensures
        match r {
            Ok((v, next)) => {
                &&& spec_collect_selfty(toks_of(toks@), i as int, toks_of(acc@), angle as int)
                    == Ok::<_, FailV>((toks_of(v@), next as int))
                &&& i <= next <= toks.len()
            },
            Err(f) => spec_collect_selfty(toks_of(toks@), i as int, toks_of(acc@), angle as int)
                == Err::<(Seq<Tok>, int), _>(failure_model(f)),
        },
    decreases toks.len() - i,
{
    proof {
        crate::tokens::lemma_toks_of_len(toks@);
    }
    if i >= toks.len() {
        Ok((acc, i))
    } else if angle == 0 && (exec_is_grp(toks, i, Delim::Brace) || exec_is_word(toks, i, "where")) {
        Ok((acc, i))
    } else if angle == 0 && exec_is_word(toks, i, "for") {
        Err(fail_at(toks, i, "Only inherent implementations are allowed."))
    } else if angle == 0 && exec_is_p(toks, i, ';') {
        Err(fail_at(toks, i, "Implementation should have a body."))
    } else if exec_is_p(toks, i, '<') {
        let mut acc = acc;
        let t = toks[i].clone_token();
        proof {
            crate::tokens::lemma_toks_of_push(acc@, t);
        }
        acc.push(t);
        collect_selfty(toks, i + 1, acc, angle + 1)
    } else if exec_is_p(toks, i, '>') && !exec_arrow_before(toks, i) && angle > 0 {
        let mut acc = acc;
        let t = toks[i].clone_token();
        proof {
            crate::tokens::lemma_toks_of_push(acc@, t);
        }
        acc.push(t);
        collect_selfty(toks, i + 1, acc, angle - 1)
    } else {
        let mut acc = acc;
        let t = toks[i].clone_token();
        proof {
            crate::tokens::lemma_toks_of_push(acc@, t);
        }
        acc.push(t);
        collect_selfty(toks, i + 1, acc, angle)
    }
}

/// Whether the token after `impl` at `j` opens a generic parameter list
/// rather than beginning the implemented type itself.
pub open spec fn impl_has_generics(s: Seq<Tok>, j: int) -> bool {
    is_p(s, j + 1, '<') && (is_p(s, j + 2, '>') || is_p(s, j + 2, '#') || is_word(s, j + 2, "const"@)
        || (is_ident(s, j + 2) && (is_p(s, j + 3, ':') || is_p(s, j + 3, ',') || is_p(s, j + 3, '>')
        || is_p(s, j + 3, '='))) || (is_p(s, j + 2, '\'') && is_ident(s, j + 3) && (is_p(s, j + 4, ':')
        || is_p(s, j + 4, ',') || is_p(s, j + 4, '>') || is_p(s, j + 4, '='))))
}

/// Whether the token after `impl` at `j` opens a generic parameter list.
pub fn exec_impl_has_generics(toks: &Vec<Token>, j: usize) -> (r: bool)
    requires
        j < toks.len(),
    ensures
        r == impl_has_generics(toks_of(toks@), j as int),
{
    proof {
        crate::tokens::lemma_toks_of_len(toks@);
    }
    if !exec_is_p(toks, j + 1, '<') {
        return false;
    }
    if exec_is_p(toks, j + 2, '>') || exec_is_p(toks, j + 2, '#') || exec_is_word(
        toks,
        j + 2,
        "const",
    ) {
        return true;
    }
    if exec_is_ident(toks, j + 2) {
        return exec_is_p(toks, j + 3, ':') || exec_is_p(toks, j + 3, ',') || exec_is_p(
            toks,
            j + 3,
            '>',
        ) || exec_is_p(toks, j + 3, '=');
    }
    if exec_is_p(toks, j + 2, '\'') && exec_is_ident(toks, j + 3) {
        return exec_is_p(toks, j + 4, ':') || exec_is_p(toks, j + 4, ',') || exec_is_p(
            toks,
            j + 4,
            '>',
        ) || exec_is_p(toks, j + 4, '=');
    }
    false
}

/// Parses the chains declared inside the braced body of an implementation,
/// each with its own prelude and documentation.
pub open spec fn spec_parse_fn_trunks(s: Seq<Tok>, i: int, acc: Seq<FnTrunkV>) -> Result<
    Seq<FnTrunkV>,
    FailV,
>
    decreases s.len() - i,
    via spec_parse_fn_trunks_dec
{
    if i >= s.len() {
        Ok(acc)
    } else {
        let (intro, j0) = spec_parse_intro(s, i);
        let j = adv_ge(i, j0, s.len() as int);
        if !is_word(s, j, "fn"@) {
            Err(FailV { message: "expected `fn`"@, span: span_at(s, j) })
        } else {
            match spec_parse_branch(s, j + 1) {
                Err(f) => Err(f),
                Ok((branch, k)) => {
                    let ft = FnTrunkV {
                        prelude: PreludeV {
                            attrs: intro.attrs,
                            vis: intro.vis,
                            is_async: intro.is_async,
                        },
                        documented: DocumentedBranchV { doc: intro.doc, branch },
                    };
                    spec_parse_fn_trunks(s, adv_strict(j + 1, k, s.len() as int), acc.push(ft))
                },
            }
        }
    }
}

#[via_fn]
proof fn spec_parse_fn_trunks_dec(s: Seq<Tok>, i: int, acc: Seq<FnTrunkV>) {
    lemma_intro_bounds(s, i);
}

/// Parses one top-level declaration: a chain introduced by `fn`, or an
/// inherent implementation introduced by `impl` holding a list of chains.
pub open spec fn spec_parse_trunk(s: Seq<Tok>, i: int) -> Result<(TrunkV, int), FailV> {
    let (intro, j) = spec_parse_intro(s, i);
    let prelude = PreludeV { attrs: intro.attrs, vis: intro.vis, is_async: intro.is_async };
    if is_word(s, j, "fn"@) {
        match spec_parse_branch(s, j + 1) {
            Err(f) => Err(f),
            Ok((branch, k)) => Ok(
                (
                    TrunkV {
                        prelude,
                        alternative: TrunkAlternativeV::Fn {
                            documented: DocumentedBranchV { doc: intro.doc, branch },
                        },
                    },
                    k,
                ),
            ),
        }
    } else if is_word(s, j, "impl"@) {
        let gens_result: Result<(Seq<GenericParamV>, int), FailV> = if impl_has_generics(s, j) {
            spec_parse_generics(s, j + 2, Seq::empty())
        } else {
            Ok((Seq::empty(), j + 1))
        };
        match gens_result {
            Err(f) => Err(f),
            Ok((generics, k)) => {
                match spec_collect_selfty(s, k, Seq::empty(), 0) {
                    Err(f) => Err(f),
                    Ok((self_ty, m0)) => {
                        let m = adv_ge(k, m0, s.len() as int);
                        if self_ty.len() == 0 {
                            Err(
                                FailV {
                                    message: "Implementation should have a name."@,
                                    span: span_at(s, m),
                                },
                            )
                        } else {
                            let (wc, p0) = if is_word(s, m, "where"@) {
                                spec_collect_where(s, m + 1, Seq::empty().push(s[m]))
                            } else {
                                (Seq::empty(), m)
                            };
                            let p = adv_ge(m, p0, s.len() as int);
                            if is_grp(s, p, Delim::Brace) {
                                match spec_parse_fn_trunks(grp_inner(s, p), 0, Seq::empty()) {
                                    Err(f) => Err(f),
                                    Ok(fn_trunks) => Ok(
                                        (
                                            TrunkV {
                                                prelude,
                                                alternative: TrunkAlternativeV::Impl {
                                                    header: ImplHeaderV {
                                                        generics,
                                                        self_ty,
                                                        where_clause: wc,
                                                    },
                                                    fn_trunks,
                                                },
                                            },
                                            p + 1,
                                        ),
                                    ),
                                }
                            } else {
                                Err(
                                    FailV {
                                        message: "expected curly braces"@,
                                        span: span_at(s, p),
                                    },
                                )
                            }
                        }
                    },
                }
            },
        }
    } else {
        Err(FailV { message: "expected one of: `fn`, `impl`"@, span: span_at(s, j) })
    }
}

/// Parses every top-level declaration of the input.
pub open spec fn spec_parse_trunks(s: Seq<Tok>, i: int, acc: Seq<TrunkV>) -> Result<TreeV, FailV>
    decreases s.len() - i,
{
    if i >= s.len() {
        Ok(TreeV { roots: acc })
    } else {
        match spec_parse_trunk(s, i) {
            Err(f) => Err(f),
            Ok((t, j)) => spec_parse_trunks(s, adv_strict(i, j, s.len() as int), acc.push(t)),
        }
    }
}

/// Parses a whole input: a list of top-level declarations, or the first
/// localized failure.
pub open spec fn spec_parse_tree(s: Seq<Tok>) -> Result<TreeV, FailV> {
    spec_parse_trunks(s, 0, Seq::empty())
}

/// Parses the chains declared inside the braced body of an implementation.
pub fn parse_fn_trunks(toks: &Vec<Token>, i: usize, acc: Vec<FnTrunk>) -> (r: Result<
    Vec<FnTrunk>,
    Failure,
>)
    requires
        i <= toks.len(),
    ensures
        match r {
            Ok(v) => spec_parse_fn_trunks(
                toks_of(toks@),
                i as int,
                acc@.map(|x: int, f: FnTrunk| fn_trunk_model(f)),
            ) == Ok::<_, FailV>(v@.map(|x: int, f: FnTrunk| fn_trunk_model(f))),
            Err(f) => spec_parse_fn_trunks(
                toks_of(toks@),
                i as int,
                acc@.map(|x: int, f: FnTrunk| fn_trunk_model(f)),
            ) == Err::<Seq<FnTrunkV>, _>(failure_model(f)),
        },
    decreases toks.len() - i,
{
    proof {
        crate::tokens::lemma_toks_of_len(toks@);
    }
    if i >= toks.len() {
        return Ok(acc);
    }
    let (intro, j) = parse_intro(toks, i);
    proof {
        assert(adv_ge(i as int, j as int, toks_of(toks@).len() as int) == j as int);
    }
    if !exec_is_word(toks, j, "fn") {
        return Err(fail_at(toks, j, "expected `fn`"));
    }
    match parse_branch(toks, j + 1) {
        Err(f) => Err(f),
        Ok((branch, k)) => {
            let (prelude, doc) = intro.into_prelude();
            let ft = FnTrunk { prelude, documented: DocumentedBranch { doc, branch } };
            let mut acc = acc;
            proof {
                assert(acc@.push(ft).map(|x: int, f: FnTrunk| fn_trunk_model(f)) =~= acc@.map(
                    |x: int, f: FnTrunk| fn_trunk_model(f),
                ).push(fn_trunk_model(ft)));
                assert(adv_strict(j + 1, k as int, toks_of(toks@).len() as int) == k as int);
            }
            acc.push(ft);
            parse_fn_trunks(toks, k, acc)
        },
    }
}

/// Parses one top-level declaration.
pub fn parse_trunk(toks: &Vec<Token>, i: usize) -> (r: Result<(Trunk, usize), Failure>)
    requires
        i <= toks.len(),
    ensures
        match r {
            Ok((t, next)) => {
                &&& spec_parse_trunk(toks_of(toks@), i as int) == Ok::<_, FailV>(
                    (trunk_model(t), next as int),
                )
                &&& i < next <= toks.len()
            },
            Err(f) => spec_parse_trunk(toks_of(toks@), i as int) == Err::<(TrunkV, int), _>(
                failure_model(f),
            ),
        },
{
    proof {
        crate::tokens::lemma_toks_of_len(toks@);
    }
    let (intro, j) = parse_intro(toks, i);
    if exec_is_word(toks, j, "fn") {
        match parse_branch(toks, j + 1) {
            Err(f) => Err(f),
            Ok((branch, k)) => {
                let (prelude, doc) = intro.into_prelude();
                let t = Trunk {
                    prelude,
                    alternative: TrunkAlternative::Fn {
                        documented: DocumentedBranch { doc, branch },
                    },
                };
                Ok((t, k))
            },
        }
    } else if exec_is_word(toks, j, "impl") {
        let empty_gens: Vec<GenericParam> = Vec::new();
        proof {
            assert(generic_params_model(empty_gens@) =~= Seq::<GenericParamV>::empty());
        }
        let (generics, k) = if exec_impl_has_generics(toks, j) {
            match parse_generics(toks, j + 2, empty_gens) {
                Ok(p) => p,
                Err(f) => {
                    return Err(f);
                },
            }
        } else {
            (empty_gens, j + 1)
        };
        let empty_ty: Vec<Token> = Vec::new();
        proof {
            assert(toks_of(empty_ty@) =~= Seq::<Tok>::empty());
        }
        let (self_ty, m) = match collect_selfty(toks, k, empty_ty, 0) {
            Ok(p) => p,
            Err(f) => {
                return Err(f);
            },
        };
        proof {
            assert(adv_ge(k as int, m as int, toks_of(toks@).len() as int) == m as int);
            crate::tokens::lemma_toks_of_len(self_ty@);
        }
        if self_ty.len() == 0 {
            return Err(fail_at(toks, m, "Implementation should have a name."));
        }
        let (wc, p) = if exec_is_word(toks, m, "where") {
            let mut wc0: Vec<Token> = Vec::new();
            let t = toks[m].clone_token();
            proof {
                assert(toks_of(wc0@) =~= Seq::<Tok>::empty());
                crate::tokens::lemma_toks_of_push(wc0@, t);
            }
            wc0.push(t);
            collect_where(toks, m + 1, wc0)
        } else {
            let empty_wc: Vec<Token> = Vec::new();
            proof {
                assert(toks_of(empty_wc@) =~= Seq::<Tok>::empty());
            }
            (empty_wc, m)
        };
        proof {
            assert(adv_ge(m as int, p as int, toks_of(toks@).len() as int) == p as int);
        }
        if !exec_is_grp(toks, p, Delim::Brace) {
            return Err(fail_at(toks, p, "expected curly braces"));
        }
        let inner = match &toks[p] {
            Token::Group { inner, .. } => inner,
            _ => unreached(),
        };
        proof {
            assert(toks_of(inner@) == grp_inner(toks_of(toks@), p as int));
        }
        let empty_fts: Vec<FnTrunk> = Vec::new();
        proof {
            assert(empty_fts@.map(|x: int, f: FnTrunk| fn_trunk_model(f)) =~= Seq::<
                FnTrunkV,
            >::empty());
        }
        match parse_fn_trunks(inner, 0, empty_fts) {
            Err(f) => Err(f),
            Ok(fn_trunks) => {
                let (prelude, _doc) = intro.into_prelude();
                let t = Trunk {
                    prelude,
                    alternative: TrunkAlternative::Impl {
                        header: ImplHeader { generics, self_ty, where_clause: wc },
                        fn_trunks,
                    },
                };
                Ok((t, p + 1))
            },
        }
    } else {
        Err(fail_at(toks, j, "expected one of: `fn`, `impl`"))
    }
}

/// Parses every top-level declaration of the input.
fn parse_trunks(toks: &Vec<Token>, i: usize, acc: Vec<Trunk>) -> (r: Result<Tree, Failure>)
    requires
        i <= toks.len(),
    ensures
        match r {
            Ok(t) => spec_parse_trunks(
                toks_of(toks@),
                i as int,
                acc@.map(|x: int, q: Trunk| trunk_model(q)),
            ) == Ok::<_, FailV>(tree_model(t)),
            Err(f) => spec_parse_trunks(
                toks_of(toks@),
                i as int,
                acc@.map(|x: int, q: Trunk| trunk_model(q)),
            ) == Err::<TreeV, _>(failure_model(f)),
        },
    decreases toks.len() - i,
{
    proof {
        crate::tokens::lemma_toks_of_len(toks@);
    }
    if i >= toks.len() {
        return Ok(Tree { roots: acc });
    }
    match parse_trunk(toks, i) {
        Err(f) => Err(f),
        Ok((t, j)) => {
            let mut acc = acc;
            proof {
                assert(acc@.push(t).map(|x: int, q: Trunk| trunk_model(q)) =~= acc@.map(
                    |x: int, q: Trunk| trunk_model(q),
                ).push(trunk_model(t)));
                assert(adv_strict(i as int, j as int, toks_of(toks@).len() as int) == j as int);
            }
            acc.push(t);
            parse_trunks(toks, j, acc)
        },
    }
}

/// Parses a whole input: a list of top-level declarations, or the first
/// localized failure.
pub fn parse_tree(toks: &Vec<Token>) -> (r: Result<Tree, Failure>)
    ensures
        match r {
            Ok(t) => spec_parse_tree(toks_of(toks@)) == Ok::<_, FailV>(tree_model(t)),
            Err(f) => spec_parse_tree(toks_of(toks@)) == Err::<TreeV, _>(failure_model(f)),
        },
{
    let empty_acc: Vec<Trunk> = Vec::new();
    proof {
        assert(empty_acc@.map(|x: int, q: Trunk| trunk_model(q)) =~= Seq::<TrunkV>::empty());
    }
    parse_trunks(toks, 0, empty_acc)
}

} // verus!
