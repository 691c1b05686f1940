use vstd::prelude::*;

use crate::tokens::Delim;
use crate::tokens::Tok;
use crate::tokens::Token;
use crate::tokens::id_tok;
use crate::tokens::p_tok;
use crate::tokens::pj_tok;
use crate::tokens::push_ident;
use crate::tokens::push_joint;
use crate::tokens::push_punct;
use crate::tokens::push_token;
use crate::tokens::tok_of;
use crate::tokens::toks_of;
use crate::model::AssemblistGenericKind;
use crate::model::GenericParam;
use crate::model::GenericParamV;
use crate::model::ImplHeader;
use crate::model::ImplHeaderV;
use crate::model::Section;
use crate::model::SectionV;
use crate::model::generic_param_model;
use crate::model::generic_params_model;
use crate::model::impl_header_model;
use crate::model::section_model;
use crate::model::UsualArg;
use crate::model::UsualArgKind;
use crate::model::UsualArgKindV;
use crate::model::UsualArgV;
use crate::model::usual_arg_model;
use crate::model::usual_args_model;
use crate::tokens::grp_tok;
use crate::tokens::push_group;
use crate::model::Branch;
use crate::model::BranchTail;
use crate::model::BranchTailV;
use crate::model::BranchV;
use crate::model::DocumentationBlock;
use crate::model::DocumentedBranch;
use crate::model::DocumentedBranchV;
use crate::model::FnTrunk;
use crate::model::FnTrunkV;
use crate::model::Prelude;
use crate::model::PreludeV;
use crate::model::Tree;
use crate::model::TreeV;
use crate::model::Trunk;
use crate::model::TrunkAlternative;
use crate::model::TrunkAlternativeV;
use crate::model::TrunkV;
use crate::model::Visibility;
use crate::model::VisibilityV;
use crate::model::branch_model;
use crate::model::branch_tail_model;
use crate::model::doc_block_model;
use crate::model::documented_branch_model;
use crate::model::documented_branches_model;
use crate::model::fn_trunk_model;
use crate::model::lemma_documented_branches_len;
use crate::model::prelude_model;
use crate::model::tree_model;
use crate::model::trunk_model;
use crate::model::visibility_model;
use crate::doc::DocView;
use crate::doc::ViewV;
use crate::doc::doc_view_model;
use crate::doc::module_doc_toks;
use crate::doc::produce_module_doc;
use crate::doc::produce_type_doc;
use crate::doc::produce_view_at;
use crate::doc::type_doc_toks;
use crate::doc::view_toks_at;

verus! {

broadcast use vstd::seq::axiom_seq_index_decreases, vstd::seq::axiom_seq_subrange_decreases, vstd::std_specs::vec::axiom_vec_decreases_to_view, vstd::std_specs::vec::axiom_vec_index_decreases;

/// The model of a whole chain prefix: the header of the enclosing
/// implementation, if the chain is anchored to one, and the segments from the
/// root down to the current one.
pub struct ChainV {
    pub root_impl: Option<ImplHeaderV>,
    pub sections: Seq<SectionV>,
}

pub open spec fn chain_model(ri: Option<&ImplHeader>, secs: Seq<Section>) -> ChainV {
    ChainV {
        root_impl: match ri {
            Option::Some(h) => Option::Some(impl_header_model(*h)),
            Option::None => Option::None,
        },
        sections: secs.map(|i: int, s: Section| section_model(s)),
    }
}

/// The generic parameters of the enclosing implementation, or none.
pub open spec fn impl_gens_of(c: ChainV) -> Seq<GenericParamV> {
    match c.root_impl {
        Option::Some(h) => h.generics,
        Option::None => Seq::empty(),
    }
}

/// The generic parameters declared by the first `d` segments, in declaration
/// order, after those of the enclosing implementation.
pub open spec fn params_upto(c: ChainV, d: int) -> Seq<GenericParamV>
    decreases d + 1,
{
    if d < 0 {
        impl_gens_of(c)
    } else if d >= c.sections.len() {
        params_upto(c, c.sections.len() - 1)
    } else {
        params_upto(c, d - 1) + c.sections[d].generics
    }
}

/// Every generic parameter visible at the deepest segment of the chain.
pub open spec fn params_all(c: ChainV) -> Seq<GenericParamV> {
    params_upto(c, c.sections.len() - 1)
}

/// The parameters of one kind, in order.
pub open spec fn params_of_kind(ps: Seq<GenericParamV>, kind: AssemblistGenericKind) -> Seq<
    GenericParamV,
>
    decreases ps,
{
    if ps.len() == 0 {
        Seq::empty()
    } else {
        params_of_kind(ps.drop_last(), kind) + (if ps.last().kind == kind {
            seq![ps.last()]
        } else {
            Seq::empty()
        })
    }
}

/// The canonical order of an accumulated parameter list: lifetime-like
/// parameters first, then const-value parameters, then type parameters, each
/// group in declaration order.
pub open spec fn ordered_params(ps: Seq<GenericParamV>) -> Seq<GenericParamV> {
    params_of_kind(ps, AssemblistGenericKind::Lifetime) + params_of_kind(
        ps,
        AssemblistGenericKind::Const,
    ) + params_of_kind(ps, AssemblistGenericKind::Type)
}

/// The tokens of one generic parameter with its bound: `'name`, or
/// `const name : type`, or `name` with `: bound` appended when a bound was
/// declared.
pub open spec fn gp_constrained_toks(g: GenericParamV) -> Seq<Tok> {
    let base = match g.kind {
        AssemblistGenericKind::Lifetime => seq![
            pj_tok('\''),
            Tok::Ident { text: g.name, span: g.name_span },
        ],
        AssemblistGenericKind::Const => seq![
            id_tok("const"@),
            Tok::Ident { text: g.name, span: g.name_span },
        ],
        AssemblistGenericKind::Type => seq![Tok::Ident { text: g.name, span: g.name_span }],
    };
    if g.bound.len() > 0 {
        base + seq![p_tok(':')] + g.bound
    } else {
        base
    }
}

/// The tokens of the bare name of one generic parameter.
pub open spec fn gp_name_toks(g: GenericParamV) -> Seq<Tok> {
    match g.kind {
        AssemblistGenericKind::Lifetime => seq![
            pj_tok('\''),
            Tok::Ident { text: g.name, span: g.name_span },
        ],
        _ => seq![Tok::Ident { text: g.name, span: g.name_span }],
    }
}

/// A comma-separated rendering of parameters with their bounds.
pub open spec fn gp_list_constrained_toks(ps: Seq<GenericParamV>, first: bool) -> Seq<Tok>
    decreases ps,
{
    if ps.len() == 0 {
        Seq::empty()
    } else {
        (if first {
            Seq::empty()
        } else {
            seq![p_tok(',')]
        }) + gp_constrained_toks(ps.first()) + gp_list_constrained_toks(ps.drop_first(), false)
    }
}

/// A comma-separated rendering of bare parameter names.
pub open spec fn gp_list_name_toks(ps: Seq<GenericParamV>, first: bool) -> Seq<Tok>
    decreases ps,
{
    if ps.len() == 0 {
        Seq::empty()
    } else {
        (if first {
            Seq::empty()
        } else {
            seq![p_tok(',')]
        }) + gp_name_toks(ps.first()) + gp_list_name_toks(ps.drop_first(), false)
    }
}

/// The complete parameter list of a carrier type, bounds included:
/// `< p1, …, pN >` in canonical order, or nothing when there is none.
pub open spec fn complete_constrained_toks(c: ChainV) -> Seq<Tok> {
    let ps = ordered_params(params_all(c));
    if ps.len() == 0 {
        Seq::empty()
    } else {
        seq![p_tok('<')] + gp_list_constrained_toks(ps, true) + seq![p_tok('>')]
    }
}

/// The complete parameter names of a carrier type: `:: < n1, …, nN >`, the
/// leading path separator only when asked for, or nothing when there is none.
pub open spec fn complete_names_toks(c: ChainV, must_prefix: bool) -> Seq<Tok> {
    let ps = ordered_params(params_all(c));
    if ps.len() == 0 {
        Seq::empty()
    } else {
        (if must_prefix {
            seq![pj_tok(':'), p_tok(':')]
        } else {
            Seq::empty()
        }) + seq![p_tok('<')] + gp_list_name_toks(ps, true) + seq![p_tok('>')]
    }
}

/// The parameter list declared by one segment alone, bounds included, in
/// declaration order.
pub open spec fn last_constrained_toks(sec: SectionV) -> Seq<Tok> {
    if sec.generics.len() == 0 {
        Seq::empty()
    } else {
        seq![p_tok('<')] + gp_list_constrained_toks(sec.generics, true) + seq![p_tok('>')]
    }
}

/// The where clause in force at the deepest segment: the clause of the
/// deepest segment that declared one, or the clause of the enclosing
/// implementation, or nothing.
pub open spec fn where_from(c: ChainV, d: int) -> Seq<Tok>
    decreases d + 1,
{
    if d < 0 {
        match c.root_impl {
            Option::Some(h) => h.where_clause,
            Option::None => Seq::empty(),
        }
    } else if d >= c.sections.len() {
        where_from(c, c.sections.len() - 1)
    } else if c.sections[d].where_clause.len() > 0 {
        c.sections[d].where_clause
    } else {
        where_from(c, d - 1)
    }
}

pub open spec fn where_toks(c: ChainV) -> Seq<Tok> {
    where_from(c, c.sections.len() - 1)
}

/// Collects every generic parameter visible at the deepest segment, in
/// declaration order.
fn collect_all_params(ri: Option<&ImplHeader>, secs: &Vec<Section>) -> (r: Vec<GenericParam>)
    ensures
        generic_params_model(r@) == params_all(chain_model(ri, secs@)),
{
    let ghost c = chain_model(ri, secs@);
    let mut r: Vec<GenericParam> = Vec::new();
    match ri {
        Option::Some(h) => {
            let n = h.generics.len();
            for i in 0..n
                invariant
                    n == h.generics.len(),
                    r@.len() == i,
                    forall|j: int| 0 <= j < i ==> generic_param_model(#[trigger] r@[j])
                        == generic_param_model(h.generics@[j]),
            {
                r.push(h.generics[i].clone_param());
            }
            proof {
                assert(generic_params_model(r@) =~= impl_gens_of(c));
            }
        },
        Option::None => {
            proof {
                assert(generic_params_model(r@) =~= impl_gens_of(c));
            }
        },
    }
    let m = secs.len();
    for d in 0..m
        invariant
            m == secs.len(),
            c == chain_model(ri, secs@),
            generic_params_model(r@) == params_upto(c, d - 1),
        decreases m - d,
    {
        let k = secs[d].generics.len();
        proof {
            assert(c.sections[d as int] == section_model(secs@[d as int]));
        }
        let ghost r_before = generic_params_model(r@);
        let mut t: usize = 0;
        while t < k
            invariant
                t <= k,
                k == secs@[d as int].generics.len(),
                d < secs.len() == m,
                c == chain_model(ri, secs@),
                generic_params_model(r@) == r_before + generic_params_model(
                    secs@[d as int].generics@,
                ).take(t as int),
            decreases k - t,
        {
            let g = secs[d].generics[t].clone_param();
            proof {
                assert(generic_params_model(r@.push(g)) =~= generic_params_model(r@).push(
                    generic_param_model(g),
                ));
                assert((r_before + generic_params_model(secs@[d as int].generics@).take(t as int))
                    .push(generic_param_model(secs@[d as int].generics@[t as int])) =~= r_before
                    + generic_params_model(secs@[d as int].generics@).take(t + 1));
            }
            r.push(g);
            t = t + 1;
        }
        proof {
            assert(generic_params_model(secs@[d as int].generics@).take(k as int)
                =~= generic_params_model(secs@[d as int].generics@));
            assert(c.sections[d as int].generics == generic_params_model(
                secs@[d as int].generics@,
            ));
            assert(generic_params_model(r@) =~= params_upto(c, d as int));
        }
    }
    proof {
        if m == 0 {
            assert(params_upto(c, -1) == params_all(c));
        }
        assert(generic_params_model(r@) == params_all(c));
    }
    r
}

/// Collects the parameters of one kind, in order.
fn collect_of_kind(ps: &Vec<GenericParam>, kind: AssemblistGenericKind) -> (r: Vec<GenericParam>)
    ensures
        generic_params_model(r@) == params_of_kind(generic_params_model(ps@), kind),
{
    let mut r: Vec<GenericParam> = Vec::new();
    let n = ps.len();
    proof {
        assert(generic_params_model(r@) =~= params_of_kind(
            generic_params_model(ps@).take(0),
            kind,
        ));
    }
    for i in 0..n
        invariant
            n == ps.len(),
            generic_params_model(r@) == params_of_kind(
                generic_params_model(ps@).take(i as int),
                kind,
            ),
    {
        let ghost psm = generic_params_model(ps@);
        proof {
            assert(psm.take(i + 1).drop_last() =~= psm.take(i as int));
            assert(psm.take(i + 1).last() == psm[i as int]);
            assert(psm[i as int] == generic_param_model(ps@[i as int]));
        }
        if matches!(ps[i].kind, AssemblistGenericKind::Lifetime) && matches!(
            kind,
            AssemblistGenericKind::Lifetime,
        ) || matches!(ps[i].kind, AssemblistGenericKind::Const) && matches!(
            kind,
            AssemblistGenericKind::Const,
        ) || matches!(ps[i].kind, AssemblistGenericKind::Type) && matches!(
            kind,
            AssemblistGenericKind::Type,
        ) {
            let g = ps[i].clone_param();
            proof {
                assert(generic_params_model(r@.push(g)) =~= generic_params_model(r@).push(
                    generic_param_model(g),
                ));
                assert(params_of_kind(psm.take(i + 1), kind) =~= params_of_kind(
                    psm.take(i as int),
                    kind,
                ).push(psm[i as int]));
            }
            r.push(g);
        } else {
            proof {
                assert(params_of_kind(psm.take(i + 1), kind) =~= params_of_kind(
                    psm.take(i as int),
                    kind,
                ));
            }
        }
    }
    proof {
        assert(generic_params_model(ps@).take(n as int) =~= generic_params_model(ps@));
    }
    r
}

/// Collects every visible generic parameter in canonical order.
fn collect_ordered_params(ri: Option<&ImplHeader>, secs: &Vec<Section>) -> (r: Vec<GenericParam>)
    ensures
        generic_params_model(r@) == ordered_params(params_all(chain_model(ri, secs@))),
{
    let all = collect_all_params(ri, secs);
    let mut r = collect_of_kind(&all, AssemblistGenericKind::Lifetime);
    let consts = collect_of_kind(&all, AssemblistGenericKind::Const);
    let types = collect_of_kind(&all, AssemblistGenericKind::Type);
    append_params(&mut r, consts);
    append_params(&mut r, types);
    proof {
        assert(generic_params_model(r@) =~= ordered_params(params_all(chain_model(ri, secs@))));
    }
    r
}

/// Appends every parameter of `src` to `dst`.
fn append_params(dst: &mut Vec<GenericParam>, src: Vec<GenericParam>)
    ensures
        generic_params_model(final(dst)@) == generic_params_model(old(dst)@)
            + generic_params_model(src@),
{
    let n = src.len();
    let mut i: usize = 0;
    proof {
        assert(generic_params_model(dst@) =~= generic_params_model(old(dst)@)
            + generic_params_model(src@).take(0));
    }
    while i < n
        invariant
            i <= n,
            n == src.len(),
            generic_params_model(dst@) == generic_params_model(old(dst)@) + generic_params_model(
                src@,
            ).take(i as int),
        decreases n - i,
    {
        let g = src[i].clone_param();
        proof {
            let sm = generic_params_model(src@);
            assert(generic_params_model(dst@.push(g)) =~= generic_params_model(dst@).push(
                generic_param_model(g),
            ));
            assert(sm.take(i + 1).drop_last() =~= sm.take(i as int));
            assert(sm.take(i + 1).last() == sm[i as int]);
            assert((generic_params_model(old(dst)@) + sm.take(i as int)).push(sm[i as int]) =~=
                generic_params_model(old(dst)@) + sm.take(i + 1));
        }
        dst.push(g);
        i = i + 1;
    }
    proof {
        assert(generic_params_model(src@).take(n as int) =~= generic_params_model(src@));
    }
}

/// Emits one generic parameter with its bound.
fn emit_gp_constrained(out: &mut Vec<Token>, g: &GenericParam)
    ensures
        toks_of(final(out)@) == toks_of(old(out)@) + gp_constrained_toks(generic_param_model(*g)),
{
    match g.kind {
        AssemblistGenericKind::Lifetime => {
            push_joint(out, '\'');
            push_token(out, Token::Ident { text: g.name.clone(), span: g.name_span });
        },
        AssemblistGenericKind::Const => {
            push_ident(out, "const");
            push_token(out, Token::Ident { text: g.name.clone(), span: g.name_span });
        },
        AssemblistGenericKind::Type => {
            push_token(out, Token::Ident { text: g.name.clone(), span: g.name_span });
        },
    }
    if g.bound.len() > 0 {
        push_punct(out, ':');
        crate::tokens::extend_tokens(out, &g.bound);
        proof {
            crate::tokens::lemma_toks_of_len(g.bound@);
        }
    }
    proof {
        assert(toks_of(out@) =~= toks_of(old(out)@) + gp_constrained_toks(
            generic_param_model(*g),
        ));
    }
}

/// Emits the bare name of one generic parameter.
fn emit_gp_name(out: &mut Vec<Token>, g: &GenericParam)
    ensures
        toks_of(final(out)@) == toks_of(old(out)@) + gp_name_toks(generic_param_model(*g)),
{
    match g.kind {
        AssemblistGenericKind::Lifetime => {
            push_joint(out, '\'');
            push_token(out, Token::Ident { text: g.name.clone(), span: g.name_span });
        },
        _ => {
            push_token(out, Token::Ident { text: g.name.clone(), span: g.name_span });
        },
    }
    proof {
        assert(toks_of(out@) =~= toks_of(old(out)@) + gp_name_toks(generic_param_model(*g)));
    }
}

/// Emits a comma-separated list of parameters with their bounds.
fn emit_gp_list_constrained(out: &mut Vec<Token>, ps: &Vec<GenericParam>, i: usize, first: bool)
    requires
        i <= ps.len(),
    ensures
        toks_of(final(out)@) == toks_of(old(out)@) + gp_list_constrained_toks(
            generic_params_model(ps@).skip(i as int),
            first,
        ),
    decreases ps.len() - i,
{
    let ghost psm = generic_params_model(ps@);
    if i >= ps.len() {
        proof {
            assert(psm.skip(i as int).len() == 0);
            assert(toks_of(out@) =~= toks_of(old(out)@) + gp_list_constrained_toks(
                psm.skip(i as int),
                first,
            ));
        }
        return ;
    }
    if !first {
        push_punct(out, ',');
    }
    emit_gp_constrained(out, &ps[i]);
    emit_gp_list_constrained(out, ps, i + 1, false);
    proof {
        assert(psm.skip(i as int).first() == psm[i as int]);
        assert(psm.skip(i as int).drop_first() =~= psm.skip(i + 1));
        assert(psm[i as int] == generic_param_model(ps@[i as int]));
        assert(toks_of(out@) =~= toks_of(old(out)@) + gp_list_constrained_toks(
            psm.skip(i as int),
            first,
        ));
    }
}

/// Emits a comma-separated list of bare parameter names.
fn emit_gp_list_names(out: &mut Vec<Token>, ps: &Vec<GenericParam>, i: usize, first: bool)
    requires
        i <= ps.len(),
    ensures
        toks_of(final(out)@) == toks_of(old(out)@) + gp_list_name_toks(
            generic_params_model(ps@).skip(i as int),
            first,
        ),
    decreases ps.len() - i,
{
    let ghost psm = generic_params_model(ps@);
    if i >= ps.len() {
        proof {
            assert(psm.skip(i as int).len() == 0);
            assert(toks_of(out@) =~= toks_of(old(out)@) + gp_list_name_toks(
                psm.skip(i as int),
                first,
            ));
        }
        return ;
    }
    if !first {
        push_punct(out, ',');
    }
    emit_gp_name(out, &ps[i]);
    emit_gp_list_names(out, ps, i + 1, false);
    proof {
        assert(psm.skip(i as int).first() == psm[i as int]);
        assert(psm.skip(i as int).drop_first() =~= psm.skip(i + 1));
        assert(psm[i as int] == generic_param_model(ps@[i as int]));
        assert(toks_of(out@) =~= toks_of(old(out)@) + gp_list_name_toks(
            psm.skip(i as int),
            first,
        ));
    }
}

/// Emits the complete parameter list of a carrier type, bounds included.
pub fn produce_complete_constrained_generics(
    out: &mut Vec<Token>,
    ri: Option<&ImplHeader>,
    secs: &Vec<Section>,
)
    ensures
        toks_of(final(out)@) == toks_of(old(out)@) + complete_constrained_toks(
            chain_model(ri, secs@),
        ),
{
    let ps = collect_ordered_params(ri, secs);
    if ps.len() == 0 {
        proof {
            assert(toks_of(out@) =~= toks_of(old(out)@) + complete_constrained_toks(
                chain_model(ri, secs@),
            ));
        }
        return ;
    }
    push_punct(out, '<');
    emit_gp_list_constrained(out, &ps, 0, true);
    push_punct(out, '>');
    proof {
        assert(generic_params_model(ps@).skip(0) =~= generic_params_model(ps@));
        assert(toks_of(out@) =~= toks_of(old(out)@) + complete_constrained_toks(
            chain_model(ri, secs@),
        ));
    }
}

/// Emits the complete parameter names of a carrier type.
pub fn produce_complete_generic_names(
    out: &mut Vec<Token>,
    ri: Option<&ImplHeader>,
    secs: &Vec<Section>,
    must_prefix: bool,
)
    ensures
        toks_of(final(out)@) == toks_of(old(out)@) + complete_names_toks(
            chain_model(ri, secs@),
            must_prefix,
        ),
{
    let ps = collect_ordered_params(ri, secs);
    if ps.len() == 0 {
        proof {
            assert(toks_of(out@) =~= toks_of(old(out)@) + complete_names_toks(
                chain_model(ri, secs@),
                must_prefix,
            ));
        }
        return ;
    }
    if must_prefix {
        push_joint(out, ':');
        push_punct(out, ':');
    }
    push_punct(out, '<');
    emit_gp_list_names(out, &ps, 0, true);
    push_punct(out, '>');
    proof {
        assert(generic_params_model(ps@).skip(0) =~= generic_params_model(ps@));
        assert(toks_of(out@) =~= toks_of(old(out)@) + complete_names_toks(
            chain_model(ri, secs@),
            must_prefix,
        ));
    }
}

/// Emits the parameter list declared by one segment alone.
pub fn produce_last_constrained_generics(out: &mut Vec<Token>, sec: &Section)
    ensures
        toks_of(final(out)@) == toks_of(old(out)@) + last_constrained_toks(section_model(*sec)),
{
    if sec.generics.len() == 0 {
        proof {
            assert(toks_of(out@) =~= toks_of(old(out)@) + last_constrained_toks(
                section_model(*sec),
            ));
        }
        return ;
    }
    push_punct(out, '<');
    emit_gp_list_constrained(out, &sec.generics, 0, true);
    push_punct(out, '>');
    proof {
        assert(generic_params_model(sec.generics@).skip(0) =~= generic_params_model(
            sec.generics@,
        ));
        assert(toks_of(out@) =~= toks_of(old(out)@) + last_constrained_toks(section_model(*sec)));
    }
}

/// Emits the where clause in force at the deepest segment.
pub fn produce_where_clause(out: &mut Vec<Token>, ri: Option<&ImplHeader>, secs: &Vec<Section>)
    ensures
        toks_of(final(out)@) == toks_of(old(out)@) + where_toks(chain_model(ri, secs@)),
{
    let ghost c = chain_model(ri, secs@);
    let mut d = secs.len();
    while d > 0
        invariant
            d <= secs.len(),
            c == chain_model(ri, secs@),
            where_from(c, c.sections.len() - 1) == where_from(c, d - 1),
            out@ == old(out)@,
        decreases d,
    {
        proof {
            assert(c.sections[d - 1] == section_model(secs@[d - 1]));
            crate::tokens::lemma_toks_of_len(secs@[d - 1].where_clause@);
        }
        if secs[d - 1].where_clause.len() > 0 {
            crate::tokens::extend_tokens(out, &secs[d - 1].where_clause);
            proof {
                assert(where_from(c, d - 1) == c.sections[d - 1].where_clause);
                assert(where_toks(c) == toks_of(secs@[d - 1].where_clause@));
                assert(toks_of(out@) =~= toks_of(old(out)@) + where_toks(c));
            }
            return ;
        }
        proof {
            assert(where_from(c, d - 1) == where_from(c, d - 2));
        }
        d = d - 1;
    }
    match ri {
        Option::Some(h) => {
            crate::tokens::extend_tokens(out, &h.where_clause);
            proof {
                assert(where_from(c, -1) == impl_header_model(*h).where_clause);
                assert(where_toks(c) == toks_of(h.where_clause@));
                assert(toks_of(out@) =~= toks_of(old(out)@) + where_toks(c));
            }
        },
        Option::None => {
            proof {
                assert(where_from(c, -1) == Seq::<Tok>::empty());
                assert(toks_of(out@) =~= toks_of(old(out)@) + where_toks(c));
            }
        },
    }
}

/// The tokens of one argument as it stands in a signature: its attributes,
/// then `name : type`, or the receiver with its marks.
pub open spec fn arg_sig_toks(a: UsualArgV) -> Seq<Tok> {
    a.attrs + match a.kind {
        UsualArgKindV::Identified { name, name_span, ty } => seq![
            Tok::Ident { text: name, span: name_span },
            p_tok(':'),
        ] + ty,
        UsualArgKindV::Receiver { by_ref, lifetime, lifetime_span, mutable, self_span } => (
        if by_ref {
            seq![p_tok('&')]
        } else {
            Seq::empty()
        }) + (match lifetime {
            Option::Some(l) => seq![pj_tok('\''), Tok::Ident { text: l, span: lifetime_span }],
            Option::None => Seq::empty(),
        }) + (if mutable {
            seq![id_tok("mut"@)]
        } else {
            Seq::empty()
        }) + seq![Tok::Ident { text: "self"@, span: self_span }],
    }
}

/// The comma-separated arguments of a signature.
pub open spec fn args_sig_toks(args: Seq<UsualArgV>, first: bool) -> Seq<Tok>
    decreases args,
{
    if args.len() == 0 {
        Seq::empty()
    } else {
        (if first {
            Seq::empty()
        } else {
            seq![p_tok(',')]
        }) + arg_sig_toks(args.first()) + args_sig_toks(args.drop_first(), false)
    }
}

/// The name an argument is bound to: its own name, or `self_` for the
/// receiver.
pub open spec fn arg_ident_tok(a: UsualArgV) -> Tok {
    match a.kind {
        UsualArgKindV::Identified { name, name_span, .. } => Tok::Ident {
            text: name,
            span: name_span,
        },
        UsualArgKindV::Receiver { .. } => id_tok("self_"@),
    }
}

/// The type of the carrier field holding an argument: its own type, or for
/// the receiver a reference to the implemented type (a unit type when there
/// is no enclosing implementation).
pub open spec fn field_ty_toks(a: UsualArgV, ri: Option<ImplHeaderV>) -> Seq<Tok> {
    match a.kind {
        UsualArgKindV::Identified { ty, .. } => ty,
        UsualArgKindV::Receiver { by_ref, lifetime, lifetime_span, mutable, .. } => (
        if by_ref {
            seq![p_tok('&')]
        } else {
            Seq::empty()
        }) + (match lifetime {
            Option::Some(l) => seq![pj_tok('\''), Tok::Ident { text: l, span: lifetime_span }],
            Option::None => Seq::empty(),
        }) + (if mutable {
            seq![id_tok("mut"@)]
        } else {
            Seq::empty()
        }) + (match ri {
            Option::Some(h) => h.self_ty,
            Option::None => seq![grp_tok(Delim::Paren, Seq::empty())],
        }),
    }
}

/// One carrier field: `pub (super) name : type ,`.
pub open spec fn field_toks(a: UsualArgV, ri: Option<ImplHeaderV>) -> Seq<Tok> {
    seq![
        id_tok("pub"@),
        grp_tok(Delim::Paren, seq![id_tok("super"@)]),
        arg_ident_tok(a),
        p_tok(':'),
    ] + field_ty_toks(a, ri) + seq![p_tok(',')]
}

/// The carrier fields for the arguments of one segment.
pub open spec fn frame_fields_toks(args: Seq<UsualArgV>, ri: Option<ImplHeaderV>) -> Seq<Tok>
    decreases args,
{
    if args.len() == 0 {
        Seq::empty()
    } else {
        field_toks(args.first(), ri) + frame_fields_toks(args.drop_first(), ri)
    }
}

/// The carrier fields of the whole chain, in declaration order: the root
/// segment's arguments first, then each deeper segment's down to `d`, so the
/// receiver, which can only stand first in the root segment, is always the
/// first field.
pub open spec fn fields_toks(c: ChainV, d: int) -> Seq<Tok>
    decreases d + 1,
{
    if d < 0 || d >= c.sections.len() {
        Seq::empty()
    } else {
        fields_toks(c, d - 1) + frame_fields_toks(c.sections[d].args, c.root_impl)
    }
}

/// One field of a carrier instance: the bound name, or `self_ : self` for
/// the receiver while it is still bound to `self`.
pub open spec fn instance_item_toks(a: UsualArgV, self_value: bool) -> Seq<Tok> {
    match a.kind {
        UsualArgKindV::Receiver { .. } => {
            if self_value {
                seq![id_tok("self_"@), p_tok(':'), id_tok("self"@), p_tok(',')]
            } else {
                seq![id_tok("self_"@), p_tok(',')]
            }
        },
        _ => seq![arg_ident_tok(a), p_tok(',')],
    }
}

pub open spec fn frame_instance_toks(args: Seq<UsualArgV>, self_value: bool) -> Seq<Tok>
    decreases args,
{
    if args.len() == 0 {
        Seq::empty()
    } else {
        instance_item_toks(args.first(), self_value) + frame_instance_toks(
            args.drop_first(),
            self_value,
        )
    }
}

/// The fields of a carrier instance, in the same declaration order as the
/// carrier's own fields.
pub open spec fn instance_fields_toks(c: ChainV, d: int, self_value: bool) -> Seq<Tok>
    decreases d + 1,
{
    if d < 0 || d >= c.sections.len() {
        Seq::empty()
    } else {
        instance_fields_toks(c, d - 1, self_value) + frame_instance_toks(
            c.sections[d].args,
            self_value,
        )
    }
}

/// The name of the carrier type of the current segment, qualified by the
/// segment's module: `name :: Output :: < … >`.
pub open spec fn output_name_toks(c: ChainV) -> Seq<Tok>
    recommends
        c.sections.len() > 0,
{
    let sec = c.sections.last();
    seq![
        Tok::Ident { text: sec.name, span: sec.name_span },
        pj_tok(':'),
        p_tok(':'),
        id_tok("Output"@),
    ] + complete_names_toks(c, true)
}

/// The definition of the carrier type of the current segment.
pub open spec fn output_def_toks(c: ChainV) -> Seq<Tok> {
    seq![id_tok("pub"@), id_tok("struct"@), id_tok("Output"@)] + complete_constrained_toks(c)
        + where_toks(c) + seq![
        grp_tok(Delim::Brace, fields_toks(c, c.sections.len() - 1)),
    ]
}

/// The header of the inherent implementation of the carrier type.
pub open spec fn impl_output_header_toks(c: ChainV) -> Seq<Tok> {
    seq![id_tok("impl"@)] + complete_constrained_toks(c) + seq![id_tok("Output"@)]
        + complete_names_toks(c, false) + where_toks(c)
}

/// A full carrier instance: its qualified name and its fields.
pub open spec fn output_instance_toks(c: ChainV) -> Seq<Tok> {
    output_name_toks(c) + seq![
        grp_tok(
            Delim::Brace,
            instance_fields_toks(c, c.sections.len() - 1, c.sections.len() == 1),
        ),
    ]
}

/// One binding that moves a carrier field into a local:
/// `let name = self . name ;`.
pub open spec fn decon_item_toks(a: UsualArgV) -> Seq<Tok> {
    seq![
        id_tok("let"@),
        arg_ident_tok(a),
        p_tok('='),
        id_tok("self"@),
        p_tok('.'),
        arg_ident_tok(a),
        p_tok(';'),
    ]
}

pub open spec fn frame_decon_toks(args: Seq<UsualArgV>) -> Seq<Tok>
    decreases args,
{
    if args.len() == 0 {
        Seq::empty()
    } else {
        decon_item_toks(args.first()) + frame_decon_toks(args.drop_first())
    }
}

/// The bindings that move every ancestor field out of `self`, newest segment
/// first; the current segment's own arguments are not among them.
pub open spec fn decon_upto_toks(c: ChainV, d: int) -> Seq<Tok>
    decreases d + 1,
{
    if d < 0 || d >= c.sections.len() {
        Seq::empty()
    } else {
        frame_decon_toks(c.sections[d].args) + decon_upto_toks(c, d - 1)
    }
}

pub open spec fn decon_toks(c: ChainV) -> Seq<Tok> {
    decon_upto_toks(c, c.sections.len() - 2)
}

/// Emits one argument as it stands in a signature.
fn emit_arg_sig(out: &mut Vec<Token>, a: &UsualArg)
    ensures
        toks_of(final(out)@) == toks_of(old(out)@) + arg_sig_toks(usual_arg_model(*a)),
{
    crate::tokens::extend_tokens(out, &a.attrs);
    match &a.kind {
        UsualArgKind::Identified { name, name_span, ty } => {
            push_token(out, Token::Ident { text: name.clone(), span: *name_span });
            push_punct(out, ':');
            crate::tokens::extend_tokens(out, ty);
        },
        UsualArgKind::Receiver { by_ref, lifetime, lifetime_span, mutable, self_span } => {
            if *by_ref {
                push_punct(out, '&');
            }
            match lifetime {
                Option::Some(l) => {
                    push_joint(out, '\'');
                    push_token(out, Token::Ident { text: l.clone(), span: *lifetime_span });
                },
                Option::None => {},
            }
            if *mutable {
                push_ident(out, "mut");
            }
            push_token(out, Token::Ident { text: "self".to_string(), span: *self_span });
        },
    }
    proof {
        assert(toks_of(out@) =~= toks_of(old(out)@) + arg_sig_toks(usual_arg_model(*a)));
    }
}

/// Emits the comma-separated arguments of a signature, from index `i` on.
fn emit_args_sig(out: &mut Vec<Token>, args: &Vec<UsualArg>, i: usize, first: bool)
    requires
        i <= args.len(),
    ensures
        toks_of(final(out)@) == toks_of(old(out)@) + args_sig_toks(
            usual_args_model(args@).skip(i as int),
            first,
        ),
    decreases args.len() - i,
{
    let ghost am = usual_args_model(args@);
    if i >= args.len() {
        proof {
            assert(am.skip(i as int).len() == 0);
            assert(toks_of(out@) =~= toks_of(old(out)@) + args_sig_toks(
                am.skip(i as int),
                first,
            ));
        }
        return ;
    }
    if !first {
        push_punct(out, ',');
    }
    emit_arg_sig(out, &args[i]);
    emit_args_sig(out, args, i + 1, false);
    proof {
        assert(am.skip(i as int).first() == am[i as int]);
        assert(am.skip(i as int).drop_first() =~= am.skip(i + 1));
        assert(am[i as int] == usual_arg_model(args@[i as int]));
        assert(toks_of(out@) =~= toks_of(old(out)@) + args_sig_toks(am.skip(i as int), first));
    }
}

/// Emits the name an argument is bound to.
fn emit_arg_ident(out: &mut Vec<Token>, a: &UsualArg)
    ensures
        toks_of(final(out)@) == toks_of(old(out)@).push(arg_ident_tok(usual_arg_model(*a))),
{
    match &a.kind {
        UsualArgKind::Identified { name, name_span, .. } => {
            push_token(out, Token::Ident { text: name.clone(), span: *name_span });
        },
        UsualArgKind::Receiver { .. } => {
            push_ident(out, "self_");
        },
    }
}

/// Emits one carrier field.
#[verifier::rlimit(100)]
fn emit_field(out: &mut Vec<Token>, a: &UsualArg, ri: Option<&ImplHeader>)
    ensures
        toks_of(final(out)@) == toks_of(old(out)@) + field_toks(
            usual_arg_model(*a),
            match ri {
                Option::Some(h) => Option::Some(impl_header_model(*h)),
                Option::None => Option::None,
            },
        ),
{
    push_ident(out, "pub");
    let mut sup: Vec<Token> = Vec::new();
    push_ident(&mut sup, "super");
    proof {
        assert(toks_of(sup@) =~= seq![id_tok("super"@)]);
    }
    push_group(out, Delim::Paren, sup);
    emit_arg_ident(out, a);
    push_punct(out, ':');
    match &a.kind {
        UsualArgKind::Identified { ty, .. } => {
            crate::tokens::extend_tokens(out, ty);
        },
        UsualArgKind::Receiver { by_ref, lifetime, lifetime_span, mutable, .. } => {
            if *by_ref {
                push_punct(out, '&');
            }
            match lifetime {
                Option::Some(l) => {
                    push_joint(out, '\'');
                    push_token(out, Token::Ident { text: l.clone(), span: *lifetime_span });
                },
                Option::None => {},
            }
            if *mutable {
                push_ident(out, "mut");
            }
            match ri {
                Option::Some(h) => {
                    crate::tokens::extend_tokens(out, &h.self_ty);
                },
                Option::None => {
                    let unit: Vec<Token> = Vec::new();
                    proof {
                        assert(toks_of(unit@) =~= Seq::<Tok>::empty());
                    }
                    push_group(out, Delim::Paren, unit);
                },
            }
        },
    }
    push_punct(out, ',');
    proof {
        assert(toks_of(out@) =~= toks_of(old(out)@) + field_toks(
            usual_arg_model(*a),
            match ri {
                Option::Some(h) => Option::Some(impl_header_model(*h)),
                Option::None => Option::None,
            },
        ));
    }
}

/// Emits the carrier fields for the arguments of one segment, from `i` on.
fn emit_frame_fields(out: &mut Vec<Token>, args: &Vec<UsualArg>, i: usize, ri: Option<&ImplHeader>)
    requires
        i <= args.len(),
    ensures
        toks_of(final(out)@) == toks_of(old(out)@) + frame_fields_toks(
            usual_args_model(args@).skip(i as int),
            match ri {
                Option::Some(h) => Option::Some(impl_header_model(*h)),
                Option::None => Option::None,
            },
        ),
    decreases args.len() - i,
{
    let ghost am = usual_args_model(args@);
    let ghost riv = match ri {
        Option::Some(h) => Option::Some(impl_header_model(*h)),
        Option::None => Option::None::<ImplHeaderV>,
    };
    if i >= args.len() {
        proof {
            assert(am.skip(i as int).len() == 0);
            assert(toks_of(out@) =~= toks_of(old(out)@) + frame_fields_toks(
                am.skip(i as int),
                riv,
            ));
        }
        return ;
    }
    emit_field(out, &args[i], ri);
    emit_frame_fields(out, args, i + 1, ri);
    proof {
        assert(am.skip(i as int).first() == am[i as int]);
        assert(am.skip(i as int).drop_first() =~= am.skip(i + 1));
        assert(am[i as int] == usual_arg_model(args@[i as int]));
        assert(toks_of(out@) =~= toks_of(old(out)@) + frame_fields_toks(am.skip(i as int), riv));
    }
}

/// Emits the carrier fields of the chain's first `d` segments, root first.
fn emit_fields(out: &mut Vec<Token>, ri: Option<&ImplHeader>, secs: &Vec<Section>, d: usize)
    requires
        d <= secs.len(),
    ensures
        toks_of(final(out)@) == toks_of(old(out)@) + fields_toks(
            chain_model(ri, secs@),
            d - 1,
        ),
    decreases d,
{
    let ghost c = chain_model(ri, secs@);
    if d == 0 {
        proof {
            assert(toks_of(out@) =~= toks_of(old(out)@) + fields_toks(c, -1));
        }
        return ;
    }
    proof {
        assert(c.sections[d - 1] == section_model(secs@[d - 1]));
    }
    emit_fields(out, ri, secs, d - 1);
    emit_frame_fields(out, &secs[d - 1].args, 0, ri);
    proof {
        assert(usual_args_model(secs@[d - 1].args@).skip(0) =~= usual_args_model(
            secs@[d - 1].args@,
        ));
        assert(toks_of(out@) =~= toks_of(old(out)@) + fields_toks(c, d - 1));
    }
}

/// Emits one field of a carrier instance.
fn emit_instance_item(out: &mut Vec<Token>, a: &UsualArg, self_value: bool)
    ensures
        toks_of(final(out)@) == toks_of(old(out)@) + instance_item_toks(
            usual_arg_model(*a),
            self_value,
        ),
{
    match &a.kind {
        UsualArgKind::Receiver { .. } => {
            push_ident(out, "self_");
            if self_value {
                push_punct(out, ':');
                push_ident(out, "self");
            }
            push_punct(out, ',');
        },
        _ => {
            emit_arg_ident(out, a);
            push_punct(out, ',');
        },
    }
    proof {
        assert(toks_of(out@) =~= toks_of(old(out)@) + instance_item_toks(
            usual_arg_model(*a),
            self_value,
        ));
    }
}

/// Emits the instance fields for the arguments of one segment, from `i` on.
fn emit_frame_instance(out: &mut Vec<Token>, args: &Vec<UsualArg>, i: usize, self_value: bool)
    requires
        i <= args.len(),
    ensures
        toks_of(final(out)@) == toks_of(old(out)@) + frame_instance_toks(
            usual_args_model(args@).skip(i as int),
            self_value,
        ),
    decreases args.len() - i,
{
    let ghost am = usual_args_model(args@);
    if i >= args.len() {
        proof {
            assert(am.skip(i as int).len() == 0);
            assert(toks_of(out@) =~= toks_of(old(out)@) + frame_instance_toks(
                am.skip(i as int),
                self_value,
            ));
        }
        return ;
    }
    emit_instance_item(out, &args[i], self_value);
    emit_frame_instance(out, args, i + 1, self_value);
    proof {
        assert(am.skip(i as int).first() == am[i as int]);
        assert(am.skip(i as int).drop_first() =~= am.skip(i + 1));
        assert(am[i as int] == usual_arg_model(args@[i as int]));
        assert(toks_of(out@) =~= toks_of(old(out)@) + frame_instance_toks(
            am.skip(i as int),
            self_value,
        ));
    }
}

/// Emits the instance fields of the chain's first `d` segments, root first.
fn emit_instance_fields(
    out: &mut Vec<Token>,
    ri: Option<&ImplHeader>,
    secs: &Vec<Section>,
    d: usize,
    self_value: bool,
)
    requires
        d <= secs.len(),
    ensures
        toks_of(final(out)@) == toks_of(old(out)@) + instance_fields_toks(
            chain_model(ri, secs@),
            d - 1,
            self_value,
        ),
    decreases d,
{
    let ghost c = chain_model(ri, secs@);
    if d == 0 {
        proof {
            assert(toks_of(out@) =~= toks_of(old(out)@) + instance_fields_toks(
                c,
                -1,
                self_value,
            ));
        }
        return ;
    }
    proof {
        assert(c.sections[d - 1] == section_model(secs@[d - 1]));
    }
    emit_instance_fields(out, ri, secs, d - 1, self_value);
    emit_frame_instance(out, &secs[d - 1].args, 0, self_value);
    proof {
        assert(usual_args_model(secs@[d - 1].args@).skip(0) =~= usual_args_model(
            secs@[d - 1].args@,
        ));
        assert(toks_of(out@) =~= toks_of(old(out)@) + instance_fields_toks(
            c,
            d - 1,
            self_value,
        ));
    }
}

/// Emits the qualified name of the carrier type of the current segment.
pub fn produce_output_name(out: &mut Vec<Token>, ri: Option<&ImplHeader>, secs: &Vec<Section>)
    requires
        secs.len() > 0,
    ensures
        toks_of(final(out)@) == toks_of(old(out)@) + output_name_toks(chain_model(ri, secs@)),
{
    let ghost c = chain_model(ri, secs@);
    let sec = &secs[secs.len() - 1];
    proof {
        assert(c.sections.last() == section_model(secs@[secs@.len() - 1]));
    }
    push_token(out, Token::Ident { text: sec.name.clone(), span: sec.name_span });
    push_joint(out, ':');
    push_punct(out, ':');
    push_ident(out, "Output");
    produce_complete_generic_names(out, ri, secs, true);
    proof {
        assert(toks_of(out@) =~= toks_of(old(out)@) + output_name_toks(c));
    }
}

/// Emits the definition of the carrier type of the current segment.
pub fn produce_output_definition(out: &mut Vec<Token>, ri: Option<&ImplHeader>, secs: &Vec<Section>)
    ensures
        toks_of(final(out)@) == toks_of(old(out)@) + output_def_toks(chain_model(ri, secs@)),
{
    let ghost c = chain_model(ri, secs@);
    push_ident(out, "pub");
    push_ident(out, "struct");
    push_ident(out, "Output");
    produce_complete_constrained_generics(out, ri, secs);
    produce_where_clause(out, ri, secs);
    let mut fields: Vec<Token> = Vec::new();
    emit_fields(&mut fields, ri, secs, secs.len());
    proof {
        assert(toks_of(fields@) =~= fields_toks(c, c.sections.len() - 1));
    }
    push_group(out, Delim::Brace, fields);
    proof {
        assert(toks_of(out@) =~= toks_of(old(out)@) + output_def_toks(c));
    }
}

/// Emits the header of the inherent implementation of the carrier type.
pub fn produce_impl_output_header(
    out: &mut Vec<Token>,
    ri: Option<&ImplHeader>,
    secs: &Vec<Section>,
)
    ensures
        toks_of(final(out)@) == toks_of(old(out)@) + impl_output_header_toks(
            chain_model(ri, secs@),
        ),
{
    let ghost c = chain_model(ri, secs@);
    push_ident(out, "impl");
    produce_complete_constrained_generics(out, ri, secs);
    push_ident(out, "Output");
    produce_complete_generic_names(out, ri, secs, false);
    produce_where_clause(out, ri, secs);
    proof {
        assert(toks_of(out@) =~= toks_of(old(out)@) + impl_output_header_toks(c));
    }
}

/// Emits a full carrier instance.
pub fn produce_output_instance(out: &mut Vec<Token>, ri: Option<&ImplHeader>, secs: &Vec<Section>)
    requires
        secs.len() > 0,
    ensures
        toks_of(final(out)@) == toks_of(old(out)@) + output_instance_toks(chain_model(ri, secs@)),
{
    let ghost c = chain_model(ri, secs@);
    produce_output_name(out, ri, secs);
    let mut items: Vec<Token> = Vec::new();
    emit_instance_fields(&mut items, ri, secs, secs.len(), secs.len() == 1);
    proof {
        assert(toks_of(items@) =~= instance_fields_toks(
            c,
            c.sections.len() - 1,
            c.sections.len() == 1,
        ));
    }
    push_group(out, Delim::Brace, items);
    proof {
        assert(toks_of(out@) =~= toks_of(old(out)@) + output_instance_toks(c));
    }
}

/// Emits one binding that moves a carrier field into a local.
fn emit_decon_item(out: &mut Vec<Token>, a: &UsualArg)
    ensures
        toks_of(final(out)@) == toks_of(old(out)@) + decon_item_toks(usual_arg_model(*a)),
{
    push_ident(out, "let");
    emit_arg_ident(out, a);
    push_punct(out, '=');
    push_ident(out, "self");
    push_punct(out, '.');
    emit_arg_ident(out, a);
    push_punct(out, ';');
    proof {
        assert(toks_of(out@) =~= toks_of(old(out)@) + decon_item_toks(usual_arg_model(*a)));
    }
}

/// Emits the bindings for the arguments of one segment, from `i` on.
fn emit_frame_decon(out: &mut Vec<Token>, args: &Vec<UsualArg>, i: usize)
    requires
        i <= args.len(),
    ensures
        toks_of(final(out)@) == toks_of(old(out)@) + frame_decon_toks(
            usual_args_model(args@).skip(i as int),
        ),
    decreases args.len() - i,
{
    let ghost am = usual_args_model(args@);
    if i >= args.len() {
        proof {
            assert(am.skip(i as int).len() == 0);
            assert(toks_of(out@) =~= toks_of(old(out)@) + frame_decon_toks(am.skip(i as int)));
        }
        return ;
    }
    emit_decon_item(out, &args[i]);
    emit_frame_decon(out, args, i + 1);
    proof {
        assert(am.skip(i as int).first() == am[i as int]);
        assert(am.skip(i as int).drop_first() =~= am.skip(i + 1));
        assert(am[i as int] == usual_arg_model(args@[i as int]));
        assert(toks_of(out@) =~= toks_of(old(out)@) + frame_decon_toks(am.skip(i as int)));
    }
}

/// Emits the bindings for frames `d` down to the root.
fn emit_decon_upto(out: &mut Vec<Token>, ri: Option<&ImplHeader>, secs: &Vec<Section>, d: usize)
    requires
        d <= secs.len(),
    ensures
        toks_of(final(out)@) == toks_of(old(out)@) + decon_upto_toks(
            chain_model(ri, secs@),
            d - 1,
        ),
    decreases d,
{
    let ghost c = chain_model(ri, secs@);
    if d == 0 {
        proof {
            assert(toks_of(out@) =~= toks_of(old(out)@) + decon_upto_toks(c, -1));
        }
        return ;
    }
    proof {
        assert(c.sections[d - 1] == section_model(secs@[d - 1]));
    }
    emit_frame_decon(out, &secs[d - 1].args, 0);
    emit_decon_upto(out, ri, secs, d - 1);
    proof {
        assert(usual_args_model(secs@[d - 1].args@).skip(0) =~= usual_args_model(
            secs@[d - 1].args@,
        ));
        assert(toks_of(out@) =~= toks_of(old(out)@) + decon_upto_toks(c, d - 1));
    }
}

/// Emits the bindings that move every ancestor field out of `self`.
pub fn produce_output_deconstruction(
    out: &mut Vec<Token>,
    ri: Option<&ImplHeader>,
    secs: &Vec<Section>,
)
    requires
        secs.len() > 0,
    ensures
        toks_of(final(out)@) == toks_of(old(out)@) + decon_toks(chain_model(ri, secs@)),
{
    emit_decon_upto(out, ri, secs, secs.len() - 1);
}

/// The tokens of a declared visibility.
pub open spec fn vis_toks(v: VisibilityV) -> Seq<Tok> {
    match v {
        VisibilityV::Private => Seq::empty(),
        VisibilityV::Public { span } => seq![Tok::Ident { text: "pub"@, span }],
        VisibilityV::Restricted { scope, span } => seq![
            Tok::Ident { text: "pub"@, span },
            Tok::Group { delim: Delim::Paren, inner: scope, span },
        ],
    }
}

/// The full prelude of a declaration: attributes, visibility, and the
/// asynchronous marker.
pub open spec fn prelude_toks(p: PreludeV) -> Seq<Tok> {
    p.attrs + vis_toks(p.vis) + (if p.is_async {
        seq![id_tok("async"@)]
    } else {
        Seq::empty()
    })
}

/// The attribute `#[inline]`.
pub open spec fn inline_attr_toks() -> Seq<Tok> {
    seq![p_tok('#'), grp_tok(Delim::Bracket, seq![id_tok("inline"@)])]
}

/// What stands before an emitted callable: `#[inline]` on every
/// non-terminal step; at the root the user's full qualifiers, deeper only
/// `pub`; the asynchronous marker only on the terminal step.
pub open spec fn method_prelude_toks(p: PreludeV, depth0: bool, is_deepest: bool) -> Seq<Tok> {
    (if !is_deepest {
        inline_attr_toks()
    } else {
        Seq::empty()
    }) + (if depth0 {
        p.attrs + vis_toks(p.vis)
    } else {
        seq![id_tok("pub"@)]
    }) + (if is_deepest && p.is_async {
        seq![id_tok("async"@)]
    } else {
        Seq::empty()
    })
}

/// One emitted callable: for a continuing segment, a function that moves the
/// accumulated fields and the new arguments into the next carrier; for a
/// terminal segment, a function with the declared return type and where
/// clause whose body first moves every accumulated field out of `self` and
/// then runs the original body unchanged.
pub open spec fn method_head_toks(p: PreludeV, v: ViewV, c: ChainV, is_deepest: bool) -> Seq<
    Tok,
>
    recommends
        c.sections.len() > 0,
{
    let depth = (c.sections.len() - 1) as nat;
    let sec = c.sections.last();
    let sig_inner = (if depth > 0 {
        seq![id_tok("self"@), p_tok(',')]
    } else {
        Seq::empty()
    }) + args_sig_toks(sec.args, true);
    view_toks_at(v, depth) + method_prelude_toks(p, depth == 0, is_deepest) + seq![
        id_tok("fn"@),
        Tok::Ident { text: sec.name, span: sec.name_span },
    ] + last_constrained_toks(sec) + seq![grp_tok(Delim::Paren, sig_inner)]
}

/// What follows the signature of an emitted callable.
pub open spec fn method_tail_toks(c: ChainV, tail: BranchTailV) -> Seq<Tok> {
    match tail {
        BranchTailV::Alternative { .. } => seq![pj_tok('-'), p_tok('>')] + output_name_toks(c)
            + seq![grp_tok(Delim::Brace, decon_toks(c) + output_instance_toks(c))],
        BranchTailV::Leaf { ret, body, .. } => (if ret.len() > 0 {
            seq![pj_tok('-'), p_tok('>')] + ret
        } else {
            Seq::empty()
        }) + where_toks(c) + seq![grp_tok(Delim::Brace, decon_toks(c) + body)],
    }
}

pub open spec fn method_toks(p: PreludeV, v: ViewV, c: ChainV, tail: BranchTailV) -> Seq<Tok>
    recommends
        c.sections.len() > 0,
{
    method_head_toks(p, v, c, tail is Leaf) + method_tail_toks(c, tail)
}

/// The view a continuation is documented by: its own documentation when it
/// has any, read from the next depth on; the first continuation may instead
/// inherit the view of its parent.
pub open spec fn child_view(v: ViewV, db: DocumentedBranchV, depth1: nat, is_first: bool) -> ViewV {
    let own = ViewV { sections: db.doc.sections, start: depth1 };
    if is_first && db.doc.sections.len() == 0 {
        v
    } else {
        own
    }
}

/// The emitted callables of every continuation of a scope.
pub open spec fn methods_toks(
    p: PreludeV,
    v: ViewV,
    c: ChainV,
    children: Seq<DocumentedBranchV>,
    i: int,
    is_first: bool,
) -> Seq<Tok>
    decreases children.len() - i,
{
    if i < 0 || i >= children.len() {
        Seq::empty()
    } else {
        let db = children[i];
        let c2 = ChainV { root_impl: c.root_impl, sections: c.sections.push(db.branch.section) };
        let v2 = child_view(v, db, c.sections.len() as nat, is_first);
        method_toks(p, v2, c2, db.branch.tail) + methods_toks(p, v, c, children, i + 1, false)
    }
}

/// The nested scope emitted for a branching segment: its synthesized
/// documentation, a module named after the segment, and inside it the
/// carrier type with its callables and the scopes of its continuations.
pub open spec fn module_toks(
    p: PreludeV,
    v: ViewV,
    c: ChainV,
    children: Seq<DocumentedBranchV>,
) -> Seq<Tok>
    recommends
        c.sections.len() > 0,
    decreases children, children.len() + 1,
{
    let depth = (c.sections.len() - 1) as nat;
    let sec = c.sections.last();
    module_doc_toks(c, children) + (if depth == 0 {
        p.attrs + vis_toks(p.vis)
    } else {
        seq![id_tok("pub"@)]
    }) + seq![id_tok("mod"@), Tok::Ident { text: sec.name, span: sec.name_span }] + seq![
        grp_tok(
            Delim::Brace,
            imports_toks() + type_doc_toks(c) + output_def_toks(c) + impl_output_header_toks(c)
                + seq![
                grp_tok(Delim::Brace, methods_toks(p, v, c, children, 0, true)),
            ] + submodules_toks(p, v, c, children, 0, true),
        ),
    ]
}

/// The common imports at the top of every generated module.
pub open spec fn imports_toks() -> Seq<Tok> {
    seq![
        p_tok('#'),
        p_tok('!'),
        grp_tok(
            Delim::Bracket,
            seq![id_tok("allow"@), grp_tok(Delim::Paren, seq![id_tok("unused_imports"@)])],
        ),
        id_tok("use"@),
        id_tok("super"@),
        pj_tok(':'),
        p_tok(':'),
        p_tok('*'),
        p_tok(';'),
    ]
}

/// The nested scopes emitted for the continuations of a scope, in order; a
/// continuation that ends in a body adds none.
pub open spec fn submodules_toks(
    p: PreludeV,
    v: ViewV,
    c: ChainV,
    children: Seq<DocumentedBranchV>,
    i: int,
    is_first: bool,
) -> Seq<Tok>
    decreases children, children.len() - i,
{
    if i < 0 || i >= children.len() {
        Seq::empty()
    } else {
        let db = children[i];
        let c2 = ChainV { root_impl: c.root_impl, sections: c.sections.push(db.branch.section) };
        let v2 = child_view(v, db, c.sections.len() as nat, is_first);
        (match db.branch.tail {
            BranchTailV::Alternative { children: gc } => module_toks(p, v2, c2, gc),
            BranchTailV::Leaf { .. } => Seq::empty(),
        }) + submodules_toks(p, v, c, children, i + 1, false)
    }
}

/// What one chain contributes outside the enclosing implementation: nothing
/// for a plain function, or the nested scope of its first branching segment.
pub open spec fn maybe_module_toks(p: PreludeV, v: ViewV, c: ChainV, tail: BranchTailV) -> Seq<
    Tok,
> {
    match tail {
        BranchTailV::Alternative { children } => module_toks(p, v, c, children),
        BranchTailV::Leaf { .. } => Seq::empty(),
    }
}

/// The generic parameters of an implementation header, as declared.
pub open spec fn impl_generics_toks(h: ImplHeaderV) -> Seq<Tok> {
    if h.generics.len() == 0 {
        Seq::empty()
    } else {
        seq![p_tok('<')] + gp_list_constrained_toks(h.generics, true) + seq![p_tok('>')]
    }
}

/// The emitted callables of the chains of an implementation, in order.
pub open spec fn impl_methods_toks(h: ImplHeaderV, fts: Seq<FnTrunkV>, i: int) -> Seq<Tok>
    decreases fts.len() - i,
{
    if i < 0 || i >= fts.len() {
        Seq::empty()
    } else {
        let ft = fts[i];
        let c = ChainV {
            root_impl: Option::Some(h),
            sections: seq![ft.documented.branch.section],
        };
        let v = ViewV { sections: ft.documented.doc.sections, start: 0 };
        method_toks(ft.prelude, v, c, ft.documented.branch.tail) + impl_methods_toks(
            h,
            fts,
            i + 1,
        )
    }
}

/// The nested scopes of the chains of an implementation, in order.
pub open spec fn impl_modules_toks(h: ImplHeaderV, fts: Seq<FnTrunkV>, i: int) -> Seq<Tok>
    decreases fts.len() - i,
{
    if i < 0 || i >= fts.len() {
        Seq::empty()
    } else {
        let ft = fts[i];
        let c = ChainV {
            root_impl: Option::Some(h),
            sections: seq![ft.documented.branch.section],
        };
        let v = ViewV { sections: ft.documented.doc.sections, start: 0 };
        maybe_module_toks(ft.prelude, v, c, ft.documented.branch.tail) + impl_modules_toks(
            h,
            fts,
            i + 1,
        )
    }
}

/// Everything one top-level declaration flattens to: for a chain, its root
/// callable followed by its nested scope; for an implementation, first the
/// nested scopes of its chains, then the implementation block holding their
/// root callables.
pub open spec fn trunk_toks(t: TrunkV) -> Seq<Tok> {
    match t.alternative {
        TrunkAlternativeV::Fn { documented } => {
            let c = ChainV {
                root_impl: Option::None,
                sections: seq![documented.branch.section],
            };
            let v = ViewV { sections: documented.doc.sections, start: 0 };
            method_toks(t.prelude, v, c, documented.branch.tail) + maybe_module_toks(
                t.prelude,
                v,
                c,
                documented.branch.tail,
            )
        },
        TrunkAlternativeV::Impl { header, fn_trunks } => impl_modules_toks(header, fn_trunks, 0)
            + prelude_toks(t.prelude) + seq![id_tok("impl"@)] + impl_generics_toks(header)
            + header.self_ty + header.where_clause + seq![
            grp_tok(Delim::Brace, impl_methods_toks(header, fn_trunks, 0)),
        ],
    }
}

/// Everything a whole input flattens to, declaration by declaration, in a
/// single deterministic left-to-right walk.
pub open spec fn flat_of_trunks(roots: Seq<TrunkV>, i: int) -> Seq<Tok>
    decreases roots.len() - i,
{
    if i < 0 || i >= roots.len() {
        Seq::empty()
    } else {
        trunk_toks(roots[i]) + flat_of_trunks(roots, i + 1)
    }
}

pub open spec fn flat_of(t: TreeV) -> Seq<Tok> {
    flat_of_trunks(t.roots, 0)
}

/// Emits a declared visibility.
fn emit_vis(out: &mut Vec<Token>, v: &Visibility)
    ensures
        toks_of(final(out)@) == toks_of(old(out)@) + vis_toks(visibility_model(*v)),
{
    match v {
        Visibility::Private => {},
        Visibility::Public { span } => {
            push_token(out, Token::Ident { text: "pub".to_string(), span: *span });
        },
        Visibility::Restricted { scope, span } => {
            push_token(out, Token::Ident { text: "pub".to_string(), span: *span });
            let inner = crate::tokens::clone_tokens(scope);
            push_token(out, Token::Group { delim: Delim::Paren, inner, span: *span });
        },
    }
    proof {
        assert(toks_of(out@) =~= toks_of(old(out)@) + vis_toks(visibility_model(*v)));
    }
}

/// Emits the full prelude of a declaration.
fn emit_prelude_full(out: &mut Vec<Token>, p: &Prelude)
    ensures
        toks_of(final(out)@) == toks_of(old(out)@) + prelude_toks(prelude_model(*p)),
{
    crate::tokens::extend_tokens(out, &p.attrs);
    emit_vis(out, &p.vis);
    if p.is_async {
        push_ident(out, "async");
    }
    proof {
        assert(toks_of(out@) =~= toks_of(old(out)@) + prelude_toks(prelude_model(*p)));
    }
}

/// Emits what stands before an emitted callable.
fn emit_method_prelude(out: &mut Vec<Token>, p: &Prelude, depth0: bool, is_deepest: bool)
    ensures
        toks_of(final(out)@) == toks_of(old(out)@) + method_prelude_toks(
            prelude_model(*p),
            depth0,
            is_deepest,
        ),
{
    if !is_deepest {
        push_punct(out, '#');
        let mut inner: Vec<Token> = Vec::new();
        push_ident(&mut inner, "inline");
        proof {
            assert(toks_of(inner@) =~= seq![id_tok("inline"@)]);
        }
        push_group(out, Delim::Bracket, inner);
    }
    if depth0 {
        crate::tokens::extend_tokens(out, &p.attrs);
        emit_vis(out, &p.vis);
    } else {
        push_ident(out, "pub");
    }
    if is_deepest && p.is_async {
        push_ident(out, "async");
    }
    proof {
        assert(toks_of(out@) =~= toks_of(old(out)@) + method_prelude_toks(
            prelude_model(*p),
            depth0,
            is_deepest,
        ));
    }
}

/// Emits everything up to and including the signature of one callable.
#[verifier::rlimit(100)]
fn produce_method_head(
    out: &mut Vec<Token>,
    p: &Prelude,
    v: &DocView,
    ri: Option<&ImplHeader>,
    secs: &Vec<Section>,
    is_deepest: bool,
)
    requires
        secs.len() > 0,
    ensures
        toks_of(final(out)@) == toks_of(old(out)@) + method_head_toks(
            prelude_model(*p),
            doc_view_model(*v),
            chain_model(ri, secs@),
            is_deepest,
        ),
{
    let ghost c = chain_model(ri, secs@);
    let depth = secs.len() - 1;
    let sec = &secs[depth];
    proof {
        assert(c.sections.last() == section_model(secs@[depth as int]));
    }
    produce_view_at(out, v, depth);
    emit_method_prelude(out, p, depth == 0, is_deepest);
    push_ident(out, "fn");
    push_token(out, Token::Ident { text: sec.name.clone(), span: sec.name_span });
    produce_last_constrained_generics(out, sec);
    let mut sig: Vec<Token> = Vec::new();
    if depth > 0 {
        push_ident(&mut sig, "self");
        push_punct(&mut sig, ',');
    }
    emit_args_sig(&mut sig, &sec.args, 0, true);
    proof {
        assert(usual_args_model(sec.args@).skip(0) =~= usual_args_model(sec.args@));
        assert(toks_of(sig@) =~= (if depth > 0 {
            seq![id_tok("self"@), p_tok(',')]
        } else {
            Seq::<Tok>::empty()
        }) + args_sig_toks(c.sections.last().args, true));
    }
    push_group(out, Delim::Paren, sig);
    proof {
        assert(toks_of(out@) =~= toks_of(old(out)@) + method_head_toks(
            prelude_model(*p),
            doc_view_model(*v),
            c,
            is_deepest,
        ));
    }
}

/// Emits one callable.
#[verifier::rlimit(100)]
pub fn produce_method(
    out: &mut Vec<Token>,
    p: &Prelude,
    v: &DocView,
    ri: Option<&ImplHeader>,
    secs: &Vec<Section>,
    tail: &BranchTail,
)
    requires
        secs.len() > 0,
    ensures
        toks_of(final(out)@) == toks_of(old(out)@) + method_toks(
            prelude_model(*p),
            doc_view_model(*v),
            chain_model(ri, secs@),
            branch_tail_model(*tail),
        ),
{
    let ghost c = chain_model(ri, secs@);
    let is_deepest = matches!(tail, BranchTail::Leaf { .. });
    produce_method_head(out, p, v, ri, secs, is_deepest);
    let ghost after_head = toks_of(out@);
    match tail {
        BranchTail::Alternative { .. } => {
            push_joint(out, '-');
            push_punct(out, '>');
            produce_output_name(out, ri, secs);
            let mut body: Vec<Token> = Vec::new();
            produce_output_deconstruction(&mut body, ri, secs);
            produce_output_instance(&mut body, ri, secs);
            proof {
                assert(toks_of(body@) =~= decon_toks(c) + output_instance_toks(c));
            }
            push_group(out, Delim::Brace, body);
            proof {
                assert(toks_of(out@) =~= after_head + method_tail_toks(
                    c,
                    branch_tail_model(*tail),
                ));
            }
        },
        BranchTail::Leaf { ret, body, .. } => {
            proof {
                crate::tokens::lemma_toks_of_len(ret@);
            }
            if ret.len() > 0 {
                push_joint(out, '-');
                push_punct(out, '>');
                crate::tokens::extend_tokens(out, ret);
            }
            produce_where_clause(out, ri, secs);
            let mut b: Vec<Token> = Vec::new();
            produce_output_deconstruction(&mut b, ri, secs);
            crate::tokens::extend_tokens(&mut b, body);
            proof {
                assert(toks_of(b@) =~= decon_toks(c) + toks_of(body@));
            }
            push_group(out, Delim::Brace, b);
            proof {
                assert(toks_of(out@) =~= after_head + method_tail_toks(
                    c,
                    branch_tail_model(*tail),
                ));
            }
        },
    }
    proof {
        assert(toks_of(out@) =~= toks_of(old(out)@) + method_toks(
            prelude_model(*p),
            doc_view_model(*v),
            c,
            branch_tail_model(*tail),
        ));
    }
}

/// A copy of the chain with one more segment appended.
fn chain_plus(secs: &Vec<Section>, extra: &Section) -> (r: Vec<Section>)
    ensures
        r@.map(|i: int, s: Section| section_model(s)) == secs@.map(
            |i: int, s: Section| section_model(s),
        ).push(section_model(*extra)),
        r@.len() == secs@.len() + 1,
{
    let mut r: Vec<Section> = Vec::new();
    let n = secs.len();
    for i in 0..n
        invariant
            n == secs.len(),
            r@.len() == i,
            forall|j: int| 0 <= j < i ==> section_model(#[trigger] r@[j]) == section_model(
                secs@[j],
            ),
    {
        r.push(secs[i].clone_section());
    }
    r.push(extra.clone_section());
    proof {
        assert(r@.map(|i: int, s: Section| section_model(s)) =~= secs@.map(
            |i: int, s: Section| section_model(s),
        ).push(section_model(*extra)));
    }
    r
}

/// The view read from a documentation block, starting at the given depth.
fn block_view(doc: &DocumentationBlock, start: usize) -> (r: DocView)
    ensures
        doc_view_model(r) == (ViewV { sections: doc_block_model(*doc).sections, start: start as nat }),
{
    let tmp = DocView { sections: crate::doc::clone_doc_sections(&doc.sections), start };
    proof {
        assert(doc_view_model(tmp).sections =~= doc_block_model(*doc).sections);
    }
    tmp
}

/// The view a continuation is documented by.
fn exec_child_view(v: &DocView, db: &DocumentedBranch, depth1: usize, is_first: bool) -> (r:
    DocView)
    ensures
        doc_view_model(r) == child_view(
            doc_view_model(*v),
            documented_branch_model(*db),
            depth1 as nat,
            is_first,
        ),
{
    if is_first && db.doc.sections.len() == 0 {
        let r = v.clone_view();
        proof {
            assert(doc_block_model(db.doc).sections.len() == 0);
        }
        r
    } else {
        block_view(&db.doc, depth1)
    }
}

/// Emits the callables of the continuations of a scope, from `i` on.
fn emit_methods(
    out: &mut Vec<Token>,
    p: &Prelude,
    v: &DocView,
    ri: Option<&ImplHeader>,
    secs: &Vec<Section>,
    children: &Vec<DocumentedBranch>,
    i: usize,
    is_first: bool,
)
    requires
        i <= children.len(),
    ensures
        toks_of(final(out)@) == toks_of(old(out)@) + methods_toks(
            prelude_model(*p),
            doc_view_model(*v),
            chain_model(ri, secs@),
            documented_branches_model(children@),
            i as int,
            is_first,
        ),
    decreases children.len() - i,
{
    let ghost c = chain_model(ri, secs@);
    let ghost cm = documented_branches_model(children@);
    proof {
        lemma_documented_branches_len(children@);
    }
    if i >= children.len() {
        proof {
            assert(toks_of(out@) =~= toks_of(old(out)@) + methods_toks(
                prelude_model(*p),
                doc_view_model(*v),
                c,
                cm,
                i as int,
                is_first,
            ));
        }
        return ;
    }
    let db = &children[i];
    let secs2 = chain_plus(secs, &db.branch.section);
    let v2 = exec_child_view(v, db, secs.len(), is_first);
    proof {
        assert(cm[i as int] == documented_branch_model(children@[i as int]));
        assert(chain_model(ri, secs2@).sections =~= c.sections.push(
            section_model(db.branch.section),
        ));
    }
    produce_method(out, p, &v2, ri, &secs2, &db.branch.tail);
    emit_methods(out, p, v, ri, secs, children, i + 1, false);
    proof {
        assert(toks_of(out@) =~= toks_of(old(out)@) + methods_toks(
            prelude_model(*p),
            doc_view_model(*v),
            c,
            cm,
            i as int,
            is_first,
        ));
    }
}

/// Emits the nested scope of a branching segment.
#[verifier::rlimit(100)]
pub fn produce_module(
    out: &mut Vec<Token>,
    p: &Prelude,
    v: &DocView,
    ri: Option<&ImplHeader>,
    secs: &Vec<Section>,
    children: &Vec<DocumentedBranch>,
)
    requires
        secs.len() > 0,
    ensures
        toks_of(final(out)@) == toks_of(old(out)@) + module_toks(
            prelude_model(*p),
            doc_view_model(*v),
            chain_model(ri, secs@),
            documented_branches_model(children@),
        ),
    decreases children, 1int,
{
    let ghost c = chain_model(ri, secs@);
    let ghost cm = documented_branches_model(children@);
    produce_module_doc(out, ri, secs, children);
    let depth = secs.len() - 1;
    let sec = &secs[depth];
    proof {
        assert(c.sections.last() == section_model(secs@[depth as int]));
    }
    if depth == 0 {
        crate::tokens::extend_tokens(out, &p.attrs);
        emit_vis(out, &p.vis);
    } else {
        push_ident(out, "pub");
    }
    push_ident(out, "mod");
    push_token(out, Token::Ident { text: sec.name.clone(), span: sec.name_span });
    let ghost after_header = toks_of(out@);
    proof {
        assert(after_header =~= toks_of(old(out)@) + module_doc_toks(c, cm) + (
        if secs@.len() == 1 {
            prelude_model(*p).attrs + vis_toks(prelude_model(*p).vis)
        } else {
            seq![id_tok("pub"@)]
        }) + seq![id_tok("mod"@), Tok::Ident { text: c.sections.last().name, span: c.sections.last().name_span }]);
    }
    let mut body: Vec<Token> = Vec::new();
    push_punct(&mut body, '#');
    push_punct(&mut body, '!');
    let mut attr_inner: Vec<Token> = Vec::new();
    push_ident(&mut attr_inner, "allow");
    let mut allow_inner: Vec<Token> = Vec::new();
    push_ident(&mut allow_inner, "unused_imports");
    proof {
        assert(toks_of(allow_inner@) =~= seq![id_tok("unused_imports"@)]);
    }
    push_group(&mut attr_inner, Delim::Paren, allow_inner);
    proof {
        assert(toks_of(attr_inner@) =~= seq![
            id_tok("allow"@),
            grp_tok(Delim::Paren, seq![id_tok("unused_imports"@)]),
        ]);
    }
    push_group(&mut body, Delim::Bracket, attr_inner);
    push_ident(&mut body, "use");
    push_ident(&mut body, "super");
    push_joint(&mut body, ':');
    push_punct(&mut body, ':');
    push_punct(&mut body, '*');
    push_punct(&mut body, ';');
    proof {
        assert(toks_of(body@) =~= imports_toks());
    }
    produce_type_doc(&mut body, ri, secs);
    produce_output_definition(&mut body, ri, secs);
    produce_impl_output_header(&mut body, ri, secs);
    let mut methods: Vec<Token> = Vec::new();
    emit_methods(&mut methods, p, v, ri, secs, children, 0, true);
    proof {
        assert(toks_of(methods@) =~= methods_toks(
            prelude_model(*p),
            doc_view_model(*v),
            c,
            cm,
            0,
            true,
        ));
    }
    push_group(&mut body, Delim::Brace, methods);
    emit_submodules(&mut body, p, v, ri, secs, children, 0, true);
    proof {
        assert(toks_of(body@) =~= imports_toks() + type_doc_toks(c) + output_def_toks(c)
            + impl_output_header_toks(c) + seq![
            grp_tok(
                Delim::Brace,
                methods_toks(prelude_model(*p), doc_view_model(*v), c, cm, 0, true),
            ),
        ] + submodules_toks(prelude_model(*p), doc_view_model(*v), c, cm, 0, true));
    }
    push_group(out, Delim::Brace, body);
    proof {
        assert(toks_of(out@) =~= toks_of(old(out)@) + module_toks(
            prelude_model(*p),
            doc_view_model(*v),
            c,
            cm,
        ));
    }
}

/// Emits the nested scopes of the continuations of a scope, from `i` on.
fn emit_submodules(
    out: &mut Vec<Token>,
    p: &Prelude,
    v: &DocView,
    ri: Option<&ImplHeader>,
    secs: &Vec<Section>,
    children: &Vec<DocumentedBranch>,
    i: usize,
    is_first: bool,
)
    requires
        secs.len() > 0,
        i <= children.len(),
    ensures
        toks_of(final(out)@) == toks_of(old(out)@) + submodules_toks(
            prelude_model(*p),
            doc_view_model(*v),
            chain_model(ri, secs@),
            documented_branches_model(children@),
            i as int,
            is_first,
        ),
    decreases children, 0int, children.len() - i,
{
    let ghost c = chain_model(ri, secs@);
    let ghost cm = documented_branches_model(children@);
    proof {
        lemma_documented_branches_len(children@);
    }
    if i >= children.len() {
        proof {
            assert(toks_of(out@) =~= toks_of(old(out)@) + submodules_toks(
                prelude_model(*p),
                doc_view_model(*v),
                c,
                cm,
                i as int,
                is_first,
            ));
        }
        return ;
    }
    let db = &children[i];
    proof {
        assert(cm[i as int] == documented_branch_model(children@[i as int]));
    }
    match &db.branch.tail {
        BranchTail::Alternative { children: gc } => {
            let secs2 = chain_plus(secs, &db.branch.section);
            let v2 = exec_child_view(v, db, secs.len(), is_first);
            proof {
                assert(chain_model(ri, secs2@).sections =~= c.sections.push(
                    section_model(db.branch.section),
                ));
                assert(decreases_to!(children => gc));
            }
            produce_module(out, p, &v2, ri, &secs2, gc);
        },
        BranchTail::Leaf { .. } => {},
    }
    emit_submodules(out, p, v, ri, secs, children, i + 1, false);
    proof {
        assert(toks_of(out@) =~= toks_of(old(out)@) + submodules_toks(
            prelude_model(*p),
            doc_view_model(*v),
            c,
            cm,
            i as int,
            is_first,
        ));
    }
}

/// Emits the nested scopes of the chains of an implementation, from `i` on.
fn emit_impl_modules(out: &mut Vec<Token>, header: &ImplHeader, fts: &Vec<FnTrunk>, i: usize)
    requires
        i <= fts.len(),
    ensures
        toks_of(final(out)@) == toks_of(old(out)@) + impl_modules_toks(
            impl_header_model(*header),
            fts@.map(|x: int, f: FnTrunk| fn_trunk_model(f)),
            i as int,
        ),
    decreases fts.len() - i,
{
    let ghost hm = impl_header_model(*header);
    let ghost fm = fts@.map(|x: int, f: FnTrunk| fn_trunk_model(f));
    if i >= fts.len() {
        proof {
            assert(toks_of(out@) =~= toks_of(old(out)@) + impl_modules_toks(hm, fm, i as int));
        }
        return ;
    }
    let ft = &fts[i];
    let mut secs: Vec<Section> = Vec::new();
    secs.push(ft.documented.branch.section.clone_section());
    let v = block_view(&ft.documented.doc, 0);
    proof {
        assert(fm[i as int] == fn_trunk_model(fts@[i as int]));
        assert(chain_model(Option::Some(header), secs@).sections =~= seq![
            section_model(ft.documented.branch.section),
        ]);
    }
    match &ft.documented.branch.tail {
        BranchTail::Alternative { children } => {
            produce_module(out, &ft.prelude, &v, Option::Some(header), &secs, children);
        },
        BranchTail::Leaf { .. } => {},
    }
    emit_impl_modules(out, header, fts, i + 1);
    proof {
        assert(toks_of(out@) =~= toks_of(old(out)@) + impl_modules_toks(hm, fm, i as int));
    }
}

/// Emits the callables of the chains of an implementation, from `i` on.
fn emit_impl_methods(out: &mut Vec<Token>, header: &ImplHeader, fts: &Vec<FnTrunk>, i: usize)
    requires
        i <= fts.len(),
    ensures
        toks_of(final(out)@) == toks_of(old(out)@) + impl_methods_toks(
            impl_header_model(*header),
            fts@.map(|x: int, f: FnTrunk| fn_trunk_model(f)),
            i as int,
        ),
    decreases fts.len() - i,
{
    let ghost hm = impl_header_model(*header);
    let ghost fm = fts@.map(|x: int, f: FnTrunk| fn_trunk_model(f));
    if i >= fts.len() {
        proof {
            assert(toks_of(out@) =~= toks_of(old(out)@) + impl_methods_toks(hm, fm, i as int));
        }
        return ;
    }
    let ft = &fts[i];
    let mut secs: Vec<Section> = Vec::new();
    secs.push(ft.documented.branch.section.clone_section());
    let v = block_view(&ft.documented.doc, 0);
    proof {
        assert(fm[i as int] == fn_trunk_model(fts@[i as int]));
        assert(chain_model(Option::Some(header), secs@).sections =~= seq![
            section_model(ft.documented.branch.section),
        ]);
    }
    produce_method(out, &ft.prelude, &v, Option::Some(header), &secs, &ft.documented.branch.tail);
    emit_impl_methods(out, header, fts, i + 1);
    proof {
        assert(toks_of(out@) =~= toks_of(old(out)@) + impl_methods_toks(hm, fm, i as int));
    }
}

/// Emits everything one top-level declaration flattens to.
#[verifier::rlimit(100)]
pub fn flatten_trunk(out: &mut Vec<Token>, t: &Trunk)
    ensures
        toks_of(final(out)@) == toks_of(old(out)@) + trunk_toks(trunk_model(*t)),
{
    match &t.alternative {
        TrunkAlternative::Fn { documented } => {
            let mut secs: Vec<Section> = Vec::new();
            secs.push(documented.branch.section.clone_section());
            let v = block_view(&documented.doc, 0);
            proof {
                assert(chain_model(Option::None, secs@).sections =~= seq![
                    section_model(documented.branch.section),
                ]);
            }
            produce_method(
                out,
                &t.prelude,
                &v,
                Option::None,
                &secs,
                &documented.branch.tail,
            );
            let ghost after_method = toks_of(out@);
            proof {
                assert(after_method =~= toks_of(old(out)@) + method_toks(
                    prelude_model(t.prelude),
                    doc_view_model(v),
                    chain_model(Option::None, secs@),
                    branch_tail_model(documented.branch.tail),
                ));
            }
            match &documented.branch.tail {
                BranchTail::Alternative { children } => {
                    produce_module(out, &t.prelude, &v, Option::None, &secs, children);
                },
                BranchTail::Leaf { .. } => {},
            }
            proof {
                assert(toks_of(out@) =~= after_method + maybe_module_toks(
                    prelude_model(t.prelude),
                    doc_view_model(v),
                    chain_model(Option::None, secs@),
                    branch_tail_model(documented.branch.tail),
                ));
                assert(toks_of(out@) =~= toks_of(old(out)@) + trunk_toks(trunk_model(*t)));
            }
        },
        TrunkAlternative::Impl { header, fn_trunks } => {
            let ghost hm = impl_header_model(*header);
            let ghost fm = fn_trunks@.map(|x: int, f: FnTrunk| fn_trunk_model(f));
            emit_impl_modules(out, header, fn_trunks, 0);
            emit_prelude_full(out, &t.prelude);
            push_ident(out, "impl");
            if header.generics.len() > 0 {
                push_punct(out, '<');
                emit_gp_list_constrained(out, &header.generics, 0, true);
                push_punct(out, '>');
            }
            proof {
                assert(generic_params_model(header.generics@).skip(0) =~= generic_params_model(
                    header.generics@,
                ));
                assert(toks_of(out@) =~= toks_of(old(out)@) + impl_modules_toks(hm, fm, 0)
                    + prelude_toks(prelude_model(t.prelude)) + seq![id_tok("impl"@)]
                    + impl_generics_toks(hm));
            }
            let ghost mid = toks_of(out@);
            crate::tokens::extend_tokens(out, &header.self_ty);
            crate::tokens::extend_tokens(out, &header.where_clause);
            let mut body: Vec<Token> = Vec::new();
            emit_impl_methods(&mut body, header, fn_trunks, 0);
            proof {
                assert(toks_of(body@) =~= impl_methods_toks(hm, fm, 0));
            }
            push_group(out, Delim::Brace, body);
            proof {
                assert(toks_of(out@) =~= mid + hm.self_ty + hm.where_clause + seq![
                    grp_tok(Delim::Brace, impl_methods_toks(hm, fm, 0)),
                ]);
                assert(toks_of(out@) =~= toks_of(old(out)@) + trunk_toks(trunk_model(*t)));
            }
        },
    }
}

/// Emits everything the declarations from `i` on flatten to.
fn emit_trunks(out: &mut Vec<Token>, roots: &Vec<Trunk>, i: usize)
    requires
        i <= roots.len(),
    ensures
        toks_of(final(out)@) == toks_of(old(out)@) + flat_of_trunks(
            roots@.map(|x: int, q: Trunk| trunk_model(q)),
            i as int,
        ),
    decreases roots.len() - i,
{
    let ghost rm = roots@.map(|x: int, q: Trunk| trunk_model(q));
    if i >= roots.len() {
        proof {
            assert(toks_of(out@) =~= toks_of(old(out)@) + flat_of_trunks(rm, i as int));
        }
        return ;
    }
    flatten_trunk(out, &roots[i]);
    emit_trunks(out, roots, i + 1);
    proof {
        assert(rm[i as int] == trunk_model(roots@[i as int]));
        assert(toks_of(out@) =~= toks_of(old(out)@) + flat_of_trunks(rm, i as int));
    }
}

/// Flattens a whole parsed input into the emitted declarations.
pub fn flatten(tree: &Tree) -> (r: Vec<Token>)
    ensures
        toks_of(r@) == flat_of(tree_model(*tree)),
{
    let mut out: Vec<Token> = Vec::new();
    emit_trunks(&mut out, &tree.roots, 0);
    proof {
        assert(toks_of(out@) =~= flat_of(tree_model(*tree)));
    }
    out
}

} // verus!
