use vstd::prelude::*;

use crate::tokens::Delim;
use crate::tokens::Tok;
use crate::tokens::grp_tok;
use crate::tokens::id_tok;
use crate::model::BranchTailV;
use crate::model::DocumentedBranchV;
use crate::model::ImplHeaderV;
use crate::model::PreludeV;
use crate::model::TreeV;
use crate::model::UsualArgV;
use crate::render::text_of_toks;
use crate::flatten::ChainV;
use crate::flatten::decon_toks;
use crate::flatten::field_toks;
use crate::flatten::fields_toks;
use crate::flatten::flat_of;
use crate::flatten::frame_fields_toks;
use crate::flatten::method_head_toks;
use crate::flatten::method_prelude_toks;
use crate::flatten::method_tail_toks;
use crate::flatten::method_toks;
use crate::flatten::methods_toks;
use crate::flatten::module_toks;
use crate::flatten::submodules_toks;
use crate::flatten::inline_attr_toks;
use crate::flatten::vis_toks;
use crate::parser::FailV;
use crate::parser::is_word;
use crate::parser::span_at;
use crate::parser::spec_parse_arg;
use crate::transformation::failure_toks;
use crate::doc::ViewV;
use crate::doc::bullets_for_child;
use crate::doc::bullets_for_children;
use crate::doc::leaf_count_of_child;
use crate::doc::leaf_count_of_children;

verus! {

/// Flattening is deterministic: any two outputs of the flattener on the
/// same tree, as its contract describes them, render to byte-identical
/// text.
pub proof fn lemma_flattening_deterministic(t: TreeV, o1: Seq<Tok>, o2: Seq<Tok>)
    requires
        o1 == flat_of(t),
        o2 == flat_of(t),
    ensures
        o1 == o2,
        text_of_toks(o1) == text_of_toks(o2),
{
}

/// The arguments accumulated by a chain down to depth `d`, in declaration
/// order: the root segment's arguments first, then each deeper segment's,
/// the receiver — declared first in the root segment — leading them all.
pub open spec fn accumulated_args(c: ChainV, d: int) -> Seq<UsualArgV>
    decreases d + 1,
{
    if d < 0 || d >= c.sections.len() {
        Seq::empty()
    } else {
        accumulated_args(c, d - 1) + c.sections[d].args
    }
}

/// The carrier fields for a flat list of arguments, one field per argument,
/// in order.
pub open spec fn fields_of_args(args: Seq<UsualArgV>, ri: Option<ImplHeaderV>) -> Seq<Tok>
    decreases args,
{
    if args.len() == 0 {
        Seq::empty()
    } else {
        field_toks(args.first(), ri) + fields_of_args(args.drop_first(), ri)
    }
}

proof fn lemma_fields_of_args_concat(a: Seq<UsualArgV>, b: Seq<UsualArgV>, ri: Option<ImplHeaderV>)
    ensures
        fields_of_args(a + b, ri) == fields_of_args(a, ri) + fields_of_args(b, ri),
    decreases a,
{
    if a.len() == 0 {
        assert(a + b =~= b);
        assert(fields_of_args(a, ri) + fields_of_args(b, ri) =~= fields_of_args(b, ri));
    } else {
        lemma_fields_of_args_concat(a.drop_first(), b, ri);
        assert((a + b).first() == a.first());
        assert((a + b).drop_first() =~= a.drop_first() + b);
        assert(fields_of_args(a + b, ri) =~= fields_of_args(a, ri) + fields_of_args(b, ri));
    }
}

proof fn lemma_frame_fields_are_fields_of_args(args: Seq<UsualArgV>, ri: Option<ImplHeaderV>)
    ensures
        frame_fields_toks(args, ri) == fields_of_args(args, ri),
    decreases args,
{
    if args.len() > 0 {
        lemma_frame_fields_are_fields_of_args(args.drop_first(), ri);
    }
}

/// The field-set invariant: the fields of the carrier type emitted at depth
/// `d` are exactly one field per accumulated argument, in declaration order
/// — the root segment's arguments first, then each deeper segment's, the
/// receiver where it was declared.
pub proof fn lemma_carrier_field_set(c: ChainV, d: int)
    ensures
        fields_toks(c, d) == fields_of_args(accumulated_args(c, d), c.root_impl),
    decreases d + 1,
{
    if d < 0 || d >= c.sections.len() {
    } else {
        lemma_carrier_field_set(c, d - 1);
        lemma_frame_fields_are_fields_of_args(c.sections[d].args, c.root_impl);
        lemma_fields_of_args_concat(accumulated_args(c, d - 1), c.sections[d].args, c.root_impl);
    }
}

/// The visibility invariant, first half: every carrier field is scoped
/// `pub (super)`: visible to the immediately enclosing generated scope and
/// no more broadly.
pub proof fn lemma_field_visibility(a: UsualArgV, ri: Option<ImplHeaderV>)
    ensures
        field_toks(a, ri).len() >= 2,
        field_toks(a, ri)[0] == id_tok("pub"@),
        field_toks(a, ri)[1] == grp_tok(Delim::Paren, seq![id_tok("super"@)]),
{
}

/// The visibility invariant, second half: below the root, an emitted
/// callable carries a fixed prelude that does not depend on the user's
/// attributes or visibility at all — only the root callable retains them.
pub proof fn lemma_non_root_prelude(p1: PreludeV, p2: PreludeV, is_deepest: bool)
    requires
        p1.is_async == p2.is_async,
    ensures
        method_prelude_toks(p1, false, is_deepest) == method_prelude_toks(p2, false, is_deepest),
{
}

/// The round trip on terminal segments: the emitted terminal callable ends
/// in a braced body holding the destructuring bindings of every accumulated
/// ancestor field followed, token for token, by the user's original body.
pub proof fn lemma_leaf_round_trip(
    p: PreludeV,
    v: ViewV,
    c: ChainV,
    ret: Seq<Tok>,
    body: Seq<Tok>,
    body_span: nat,
)
    ensures
        ({
            let tail = BranchTailV::Leaf { ret, body, body_span };
            let emitted = method_toks(p, v, c, tail);
            &&& emitted.len() > 0
            &&& emitted.last() == grp_tok(Delim::Brace, decon_toks(c) + body)
        }),
{
    let tail = BranchTailV::Leaf { ret, body, body_span };
    assert(method_tail_toks(c, tail).last() == grp_tok(Delim::Brace, decon_toks(c) + body));
    assert(method_tail_toks(c, tail).len() > 0);
    assert(method_toks(p, v, c, tail) == method_head_toks(p, v, c, true) + method_tail_toks(
        c,
        tail,
    ));
}

/// The emissions of the continuation callables of a scope, one entry per
/// continuation.
pub open spec fn method_emissions(
    p: PreludeV,
    v: ViewV,
    c: ChainV,
    children: Seq<DocumentedBranchV>,
    i: int,
    is_first: bool,
) -> Seq<Seq<Tok>>
    decreases children.len() - i,
{
    if i < 0 || i >= children.len() {
        Seq::empty()
    } else {
        let db = children[i];
        let c2 = ChainV { root_impl: c.root_impl, sections: c.sections.push(db.branch.section) };
        let v2 = crate::flatten::child_view(v, db, c.sections.len() as nat, is_first);
        seq![method_toks(p, v2, c2, db.branch.tail)] + method_emissions(
            p,
            v,
            c,
            children,
            i + 1,
            false,
        )
    }
}

pub open spec fn concat_all(s: Seq<Seq<Tok>>) -> Seq<Tok>
    decreases s,
{
    if s.len() == 0 {
        Seq::empty()
    } else {
        s.first() + concat_all(s.drop_first())
    }
}

/// The arity of an alternative, first half: for `k` sibling continuations,
/// the enclosing scope emits exactly `k` continuation callables, one per
/// sibling, in declaration order.
pub proof fn lemma_alternative_arity(
    p: PreludeV,
    v: ViewV,
    c: ChainV,
    children: Seq<DocumentedBranchV>,
    i: int,
    is_first: bool,
)
    requires
        0 <= i <= children.len(),
    ensures
        method_emissions(p, v, c, children, i, is_first).len() == children.len() - i,
        methods_toks(p, v, c, children, i, is_first) == concat_all(
            method_emissions(p, v, c, children, i, is_first),
        ),
    decreases children.len() - i,
{
    if i < children.len() {
        lemma_alternative_arity(p, v, c, children, i + 1, false);
        let db = children[i];
        let c2 = ChainV { root_impl: c.root_impl, sections: c.sections.push(db.branch.section) };
        let v2 = crate::flatten::child_view(v, db, c.sections.len() as nat, is_first);
        let rest = method_emissions(p, v, c, children, i + 1, false);
        assert((seq![method_toks(p, v2, c2, db.branch.tail)] + rest).first() == method_toks(
            p,
            v2,
            c2,
            db.branch.tail,
        ));
        assert((seq![method_toks(p, v2, c2, db.branch.tail)] + rest).drop_first() =~= rest);
    }
}

/// The arity of an alternative, second half: the synthesized documentation
/// of a branching scope lists one bullet line — two tokens, the `#` and the
/// bracketed `doc` attribute — for each distinct terminal chain reachable
/// from it, and nothing else.
pub proof fn lemma_bullet_count(
    children: Seq<DocumentedBranchV>,
    root: Option<Seq<char>>,
    has_root: bool,
    names: Seq<Seq<char>>,
    loc: int,
)
    ensures
        bullets_for_children(children, root, has_root, names, loc).len() == 2
            * leaf_count_of_children(children),
    decreases children,
{
    if children.len() > 0 {
        lemma_bullet_count_child(children.first(), root, has_root, names, loc);
        lemma_bullet_count(children.drop_first(), root, has_root, names, loc);
    }
}

pub proof fn lemma_bullet_count_child(
    db: DocumentedBranchV,
    root: Option<Seq<char>>,
    has_root: bool,
    names: Seq<Seq<char>>,
    loc: int,
)
    ensures
        bullets_for_child(db, root, has_root, names, loc).len() == 2 * leaf_count_of_child(db),
    decreases db,
{
    let names2 = names.push(db.branch.section.name);
    match db.branch.tail {
        BranchTailV::Leaf { .. } => {},
        BranchTailV::Alternative { children } => {
            lemma_bullet_count(children, root, has_root, names2, loc);
        },
    }
}

/// The scope emitted for one continuation: its own nested module when the
/// continuation branches again, and nothing when it ends in a body — the
/// emitted output attaches a scope to each branch point, and a terminal
/// continuation is no branch point, so it opens no scope of its own.
pub open spec fn scope_emissions(
    p: PreludeV,
    v: ViewV,
    c: ChainV,
    children: Seq<DocumentedBranchV>,
    i: int,
    is_first: bool,
) -> Seq<Seq<Tok>>
    decreases children.len() - i,
{
    if i < 0 || i >= children.len() {
        Seq::empty()
    } else {
        let db = children[i];
        let c2 = ChainV { root_impl: c.root_impl, sections: c.sections.push(db.branch.section) };
        let v2 = crate::flatten::child_view(v, db, c.sections.len() as nat, is_first);
        seq![
            match db.branch.tail {
                BranchTailV::Alternative { children: gc } => module_toks(p, v2, c2, gc),
                BranchTailV::Leaf { .. } => Seq::empty(),
            },
        ] + scope_emissions(p, v, c, children, i + 1, false)
    }
}

/// The arity of an alternative, third part: the nested scopes of a branch
/// point are one entry per sibling continuation, in declaration order; the
/// entry of a continuation that branches again is exactly its own distinct
/// scope, and the entry of a continuation that ends in a body is empty.
pub proof fn lemma_scope_per_branching_continuation(
    p: PreludeV,
    v: ViewV,
    c: ChainV,
    children: Seq<DocumentedBranchV>,
    i: int,
    is_first: bool,
)
    requires
        0 <= i <= children.len(),
    ensures
        scope_emissions(p, v, c, children, i, is_first).len() == children.len() - i,
        submodules_toks(p, v, c, children, i, is_first) == concat_all(
            scope_emissions(p, v, c, children, i, is_first),
        ),
    decreases children.len() - i,
{
    if i < children.len() {
        lemma_scope_per_branching_continuation(p, v, c, children, i + 1, false);
        let db = children[i];
        let c2 = ChainV { root_impl: c.root_impl, sections: c.sections.push(db.branch.section) };
        let v2 = crate::flatten::child_view(v, db, c.sections.len() as nat, is_first);
        let head: Seq<Tok> = match db.branch.tail {
            BranchTailV::Alternative { children: gc } => module_toks(p, v2, c2, gc),
            BranchTailV::Leaf { .. } => Seq::empty(),
        };
        let rest = scope_emissions(p, v, c, children, i + 1, false);
        assert((seq![head] + rest).first() == head);
        assert((seq![head] + rest).drop_first() =~= rest);
        assert(submodules_toks(p, v, c, children, i, is_first) =~= concat_all(
            seq![head] + rest,
        ));
    }
}

/// What stands before an emitted callable, in full: at the root the user's
/// whole attribute block and declared visibility are kept; below the root
/// they are replaced by exactly `pub`; `#[inline]` stands on every
/// non-terminal step and the asynchronous marker only on the terminal one.
pub proof fn lemma_method_prelude_shape(p: PreludeV, is_deepest: bool)
    ensures
        method_prelude_toks(p, true, is_deepest) == (if !is_deepest {
            inline_attr_toks()
        } else {
            Seq::<Tok>::empty()
        }) + p.attrs + vis_toks(p.vis) + (if is_deepest && p.is_async {
            seq![id_tok("async"@)]
        } else {
            Seq::<Tok>::empty()
        }),
        method_prelude_toks(p, false, is_deepest) == (if !is_deepest {
            inline_attr_toks()
        } else {
            Seq::<Tok>::empty()
        }) + seq![id_tok("pub"@)] + (if is_deepest && p.is_async {
            seq![id_tok("async"@)]
        } else {
            Seq::<Tok>::empty()
        }),
{
}

/// A failure halts the whole expansion: its diagnostic is one
/// `compile_error ! ("…") ;` invocation of exactly four tokens, every one
/// anchored at the failure's span, and — by the contract of
/// `transform_or_error` — that invocation is the sole output, with no
/// declaration before or after it.
pub proof fn lemma_sole_diagnostic(f: FailV)
    ensures
        failure_toks(f).len() == 4,
        failure_toks(f)[0] == (Tok::Ident { text: "compile_error"@, span: f.span }),
        failure_toks(f)[1] == (Tok::Punct { ch: '!', joint: false, span: f.span }),
        failure_toks(f)[2] == (Tok::Group {
            delim: Delim::Paren,
            inner: seq![Tok::Lit { text: seq!['"'] + f.message + seq!['"'], span: f.span }],
            span: f.span,
        }),
        failure_toks(f)[3] == (Tok::Punct { ch: ';', joint: false, span: f.span }),
{
}

/// Unsupported parameter patterns are refused wherever an argument begins,
/// in any argument list: a name marked `mut` — alone or after `ref` — fails
/// with the fixed message anchored at the `mut` token, and a name marked
/// `ref` alone fails with the by-reference message anchored at the `ref`
/// token. No declarations follow: the failure aborts the whole expansion.
pub proof fn lemma_pattern_marks_refused(
    s: Seq<Tok>,
    i: int,
    acc: Seq<UsualArgV>,
    has_rec: bool,
    attrs: Seq<Tok>,
)
    ensures
        is_word(s, i, "ref"@) && is_word(s, i + 1, "mut"@) ==> spec_parse_arg(
            s,
            i,
            acc,
            has_rec,
            attrs,
        ) == Err::<(Seq<UsualArgV>, int), FailV>(
            FailV { message: "Mutability is not supported"@, span: span_at(s, i + 1) },
        ),
        is_word(s, i, "mut"@) && !is_word(s, i + 1, "self"@) ==> spec_parse_arg(
            s,
            i,
            acc,
            has_rec,
            attrs,
        ) == Err::<(Seq<UsualArgV>, int), FailV>(
            FailV { message: "Mutability is not supported"@, span: span_at(s, i) },
        ),
        is_word(s, i, "ref"@) && !is_word(s, i + 1, "mut"@) ==> spec_parse_arg(
            s,
            i,
            acc,
            has_rec,
            attrs,
        ) == Err::<(Seq<UsualArgV>, int), FailV>(
            FailV { message: "By ref parameter are not supported"@, span: span_at(s, i) },
        ),
{
    reveal_strlit("ref");
    reveal_strlit("mut");
    reveal_strlit("self");
    assert("ref"@[0] == 'r' && "mut"@[0] == 'm');
    assert("ref"@ != "mut"@);
    assert("mut"@.len() == 3 && "self"@.len() == 4 && "ref"@.len() == 3);
    assert("mut"@ != "self"@);
    assert("ref"@ != "self"@);
}

} // verus!
