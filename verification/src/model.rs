use vstd::prelude::*;

use crate::tokens::Tok;
use crate::tokens::Token;
use crate::tokens::clone_tokens;
use crate::tokens::tok_of;
use crate::tokens::toks_of;

verus! {

broadcast use vstd::seq::axiom_seq_index_decreases, vstd::seq::axiom_seq_subrange_decreases, vstd::std_specs::vec::axiom_vec_decreases_to_view;

/// The kind of one generic parameter: an ordinary type parameter, a
/// lifetime-like parameter, or a const-value parameter.
#[derive(Clone, Copy, PartialEq, Eq, Structural, Debug)]
pub enum AssemblistGenericKind {
    Type,
    Lifetime,
    Const,
}

/// One generic parameter of a segment: its kind, its name, and its trailing
/// tokens: for a type or lifetime parameter the bound that followed `:` (empty
/// when there was none), for a const parameter the type that followed `:`.
pub struct GenericParam {
    pub kind: AssemblistGenericKind,
    pub name: String,
    pub name_span: usize,
    pub bound: Vec<Token>,
}

/// The model of a generic parameter.
pub struct GenericParamV {
    pub kind: AssemblistGenericKind,
    pub name: Seq<char>,
    pub name_span: nat,
    pub bound: Seq<Tok>,
}

pub open spec fn generic_param_model(g: GenericParam) -> GenericParamV {
    GenericParamV {
        kind: g.kind,
        name: g.name@,
        name_span: g.name_span as nat,
        bound: toks_of(g.bound@),
    }
}

pub open spec fn generic_params_model(s: Seq<GenericParam>) -> Seq<GenericParamV> {
    s.map(|i: int, g: GenericParam| generic_param_model(g))
}

/// What one argument of a segment is: a named argument with its type, or the
/// distinguished self receiver with its reference, lifetime and mutability
/// marks.
pub enum UsualArgKind {
    Identified { name: String, name_span: usize, ty: Vec<Token> },
    Receiver {
        by_ref: bool,
        lifetime: Option<String>,
        lifetime_span: usize,
        mutable: bool,
        self_span: usize,
    },
}

/// One argument of a segment, together with the attribute tokens that stood
/// before it.
pub struct UsualArg {
    pub attrs: Vec<Token>,
    pub kind: UsualArgKind,
}

pub enum UsualArgKindV {
    Identified { name: Seq<char>, name_span: nat, ty: Seq<Tok> },
    Receiver {
        by_ref: bool,
        lifetime: Option<Seq<char>>,
        lifetime_span: nat,
        mutable: bool,
        self_span: nat,
    },
}

pub struct UsualArgV {
    pub attrs: Seq<Tok>,
    pub kind: UsualArgKindV,
}

pub open spec fn usual_arg_model(a: UsualArg) -> UsualArgV {
    UsualArgV {
        attrs: toks_of(a.attrs@),
        kind: match a.kind {
            UsualArgKind::Identified { name, name_span, ty } => UsualArgKindV::Identified {
                name: name@,
                name_span: name_span as nat,
                ty: toks_of(ty@),
            },
            UsualArgKind::Receiver { by_ref, lifetime, lifetime_span, mutable, self_span } => {
                UsualArgKindV::Receiver {
                    by_ref,
                    lifetime: match lifetime {
                        Option::Some(l) => Option::Some(l@),
                        Option::None => Option::None,
                    },
                    lifetime_span: lifetime_span as nat,
                    mutable,
                    self_span: self_span as nat,
                }
            },
        },
    }
}

pub open spec fn usual_args_model(s: Seq<UsualArg>) -> Seq<UsualArgV> {
    s.map(|i: int, a: UsualArg| usual_arg_model(a))
}

/// One dotted unit of a chain: its name, its own generic parameters, its
/// argument list, and the where clause that followed it (only a terminal
/// segment or an enclosing implementation header carries one).
pub struct Section {
    pub name: String,
    pub name_span: usize,
    pub generics: Vec<GenericParam>,
    pub args: Vec<UsualArg>,
    pub where_clause: Vec<Token>,
}

pub struct SectionV {
    pub name: Seq<char>,
    pub name_span: nat,
    pub generics: Seq<GenericParamV>,
    pub args: Seq<UsualArgV>,
    pub where_clause: Seq<Tok>,
}

pub open spec fn section_model(s: Section) -> SectionV {
    SectionV {
        name: s.name@,
        name_span: s.name_span as nat,
        generics: generic_params_model(s.generics@),
        args: usual_args_model(s.args@),
        where_clause: toks_of(s.where_clause@),
    }
}

/// One line of documentation: the text of the string literal of a `doc`
/// attribute, quotes included, with the span of the literal.
pub struct DocLine {
    pub text: String,
    pub span: usize,
}

pub struct DocLineV {
    pub text: Seq<char>,
    pub span: nat,
}

pub open spec fn doc_line_model(l: DocLine) -> DocLineV {
    DocLineV { text: l.text@, span: l.span as nat }
}

/// One section of a documentation block: the consecutive documentation lines
/// between two separator lines.
pub struct DocSection {
    pub lines: Vec<DocLine>,
}

pub struct DocSectionV {
    pub lines: Seq<DocLineV>,
}

pub open spec fn doc_section_model(s: DocSection) -> DocSectionV {
    DocSectionV { lines: s.lines@.map(|i: int, l: DocLine| doc_line_model(l)) }
}

/// A documentation block: the sections obtained by splitting a run of
/// documentation lines on the separator line `---`; section i belongs to
/// chain depth i.
pub struct DocumentationBlock {
    pub sections: Vec<DocSection>,
}

pub struct DocBlockV {
    pub sections: Seq<DocSectionV>,
}

pub open spec fn doc_block_model(b: DocumentationBlock) -> DocBlockV {
    DocBlockV { sections: b.sections@.map(|i: int, s: DocSection| doc_section_model(s)) }
}

/// The declared visibility of an item: private, `pub`, or `pub` restricted by
/// a parenthesized scope such as `pub(crate)`.
pub enum Visibility {
    Private,
    Public { span: usize },
    Restricted { scope: Vec<Token>, span: usize },
}

pub enum VisibilityV {
    Private,
    Public { span: nat },
    Restricted { scope: Seq<Tok>, span: nat },
}

pub open spec fn visibility_model(v: Visibility) -> VisibilityV {
    match v {
        Visibility::Private => VisibilityV::Private,
        Visibility::Public { span } => VisibilityV::Public { span: span as nat },
        Visibility::Restricted { scope, span } => VisibilityV::Restricted {
            scope: toks_of(scope@),
            span: span as nat,
        },
    }
}

/// The qualifiers that stood before a declaration: its attributes other than
/// documentation, its visibility, and whether it was declared asynchronous.
pub struct Prelude {
    pub attrs: Vec<Token>,
    pub vis: Visibility,
    pub is_async: bool,
}

pub struct PreludeV {
    pub attrs: Seq<Tok>,
    pub vis: VisibilityV,
    pub is_async: bool,
}

pub open spec fn prelude_model(p: Prelude) -> PreludeV {
    PreludeV { attrs: toks_of(p.attrs@), vis: visibility_model(p.vis), is_async: p.is_async }
}

/// What follows a segment: either the chain continues into one or more named
/// alternatives, or the segment is terminal and carries the declared return
/// type (empty when none was written) and the body.
pub enum BranchTail {
    Alternative { children: Vec<DocumentedBranch> },
    Leaf { ret: Vec<Token>, body: Vec<Token>, body_span: usize },
}

/// A segment together with what follows it.
pub struct Branch {
    pub section: Section,
    pub tail: BranchTail,
}

/// A branch together with the documentation block written before it.
pub struct DocumentedBranch {
    pub doc: DocumentationBlock,
    pub branch: Branch,
}

pub enum BranchTailV {
    Alternative { children: Seq<DocumentedBranchV> },
    Leaf { ret: Seq<Tok>, body: Seq<Tok>, body_span: nat },
}

pub struct BranchV {
    pub section: SectionV,
    pub tail: BranchTailV,
}

pub struct DocumentedBranchV {
    pub doc: DocBlockV,
    pub branch: BranchV,
}

pub open spec fn branch_tail_model(t: BranchTail) -> BranchTailV
    decreases t,
{
    match t {
        BranchTail::Alternative { children } => BranchTailV::Alternative {
            children: documented_branches_model(children@),
        },
        BranchTail::Leaf { ret, body, body_span } => BranchTailV::Leaf {
            ret: toks_of(ret@),
            body: toks_of(body@),
            body_span: body_span as nat,
        },
    }
}

pub open spec fn branch_model(b: Branch) -> BranchV
    decreases b,
{
    BranchV { section: section_model(b.section), tail: branch_tail_model(b.tail) }
}

pub open spec fn documented_branch_model(b: DocumentedBranch) -> DocumentedBranchV
    decreases b,
{
    DocumentedBranchV { doc: doc_block_model(b.doc), branch: branch_model(b.branch) }
}

pub open spec fn documented_branches_model(s: Seq<DocumentedBranch>) -> Seq<DocumentedBranchV>
    decreases s,
{
    if s.len() == 0 {
        Seq::empty()
    } else {
        documented_branches_model(s.drop_last()).push(documented_branch_model(s.last()))
    }
}

/// The model of a branch list has one entry per branch.
pub proof fn lemma_documented_branches_len(s: Seq<DocumentedBranch>)
    ensures
        documented_branches_model(s).len() == s.len(),
        forall|i: int| 0 <= i < s.len() ==> documented_branches_model(s)[i]
            == documented_branch_model(#[trigger] s[i]),
    decreases s,
{
    if s.len() > 0 {
        lemma_documented_branches_len(s.drop_last());
        assert forall|i: int| 0 <= i < s.len() implies documented_branches_model(s)[i]
            == documented_branch_model(#[trigger] s[i]) by {
            if i < s.len() - 1 {
                assert(s.drop_last()[i] == s[i]);
            }
        }
    }
}

/// Taking the model commutes with pushing one more documented branch.
pub proof fn lemma_documented_branches_push(s: Seq<DocumentedBranch>, b: DocumentedBranch)
    ensures
        documented_branches_model(s.push(b)) == documented_branches_model(s).push(
            documented_branch_model(b),
        ),
{
    assert(s.push(b).drop_last() == s);
    assert(s.push(b).last() == b);
}

/// The header of an enclosing inherent implementation: its generic
/// parameters, the tokens of the implemented type, and its where clause.
pub struct ImplHeader {
    pub generics: Vec<GenericParam>,
    pub self_ty: Vec<Token>,
    pub where_clause: Vec<Token>,
}

pub struct ImplHeaderV {
    pub generics: Seq<GenericParamV>,
    pub self_ty: Seq<Tok>,
    pub where_clause: Seq<Tok>,
}

pub open spec fn impl_header_model(h: ImplHeader) -> ImplHeaderV {
    ImplHeaderV {
        generics: generic_params_model(h.generics@),
        self_ty: toks_of(h.self_ty@),
        where_clause: toks_of(h.where_clause@),
    }
}

/// One chain declared inside an implementation scope, with its own prelude.
pub struct FnTrunk {
    pub prelude: Prelude,
    pub documented: DocumentedBranch,
}

pub struct FnTrunkV {
    pub prelude: PreludeV,
    pub documented: DocumentedBranchV,
}

pub open spec fn fn_trunk_model(t: FnTrunk) -> FnTrunkV {
    FnTrunkV {
        prelude: prelude_model(t.prelude),
        documented: documented_branch_model(t.documented),
    }
}

/// A top-level declaration: either one chain, or an inherent implementation
/// holding a list of chains.
pub enum TrunkAlternative {
    Fn { documented: DocumentedBranch },
    Impl { header: ImplHeader, fn_trunks: Vec<FnTrunk> },
}

/// A top-level declaration with its prelude.
pub struct Trunk {
    pub prelude: Prelude,
    pub alternative: TrunkAlternative,
}

pub enum TrunkAlternativeV {
    Fn { documented: DocumentedBranchV },
    Impl { header: ImplHeaderV, fn_trunks: Seq<FnTrunkV> },
}

pub struct TrunkV {
    pub prelude: PreludeV,
    pub alternative: TrunkAlternativeV,
}

pub open spec fn trunk_model(t: Trunk) -> TrunkV {
    TrunkV {
        prelude: prelude_model(t.prelude),
        alternative: match t.alternative {
            TrunkAlternative::Fn { documented } => TrunkAlternativeV::Fn {
                documented: documented_branch_model(documented),
            },
            TrunkAlternative::Impl { header, fn_trunks } => TrunkAlternativeV::Impl {
                header: impl_header_model(header),
                fn_trunks: fn_trunks@.map(|i: int, f: FnTrunk| fn_trunk_model(f)),
            },
        },
    }
}

/// A whole parsed input: the list of its top-level declarations.
pub struct Tree {
    pub roots: Vec<Trunk>,
}

pub struct TreeV {
    pub roots: Seq<TrunkV>,
}

pub open spec fn tree_model(t: Tree) -> TreeV {
    TreeV { roots: t.roots@.map(|i: int, r: Trunk| trunk_model(r)) }
}

impl GenericParam {
    /// An exact copy of this generic parameter.
    pub fn clone_param(&self) -> (r: GenericParam)
        ensures
            generic_param_model(r) == generic_param_model(*self),
    {
        GenericParam {
            kind: self.kind,
            name: self.name.clone(),
            name_span: self.name_span,
            bound: clone_tokens(&self.bound),
        }
    }
}

impl Section {
    /// An exact copy of this section.
    pub fn clone_section(&self) -> (r: Section)
        ensures
            section_model(r) == section_model(*self),
    {
        let mut generics: Vec<GenericParam> = Vec::new();
        let n = self.generics.len();
        for i in 0..n
            invariant
                n == self.generics.len(),
                generics@.len() == i,
                forall|j: int| 0 <= j < i ==> generic_param_model(#[trigger] generics@[j])
                    == generic_param_model(self.generics@[j]),
        {
            generics.push(self.generics[i].clone_param());
        }
        let mut args: Vec<UsualArg> = Vec::new();
        let m = self.args.len();
        for i in 0..m
            invariant
                m == self.args.len(),
                args@.len() == i,
                forall|j: int| 0 <= j < i ==> usual_arg_model(#[trigger] args@[j])
                    == usual_arg_model(self.args@[j]),
        {
            args.push(self.args[i].clone_arg());
        }
        let r = Section {
            name: self.name.clone(),
            name_span: self.name_span,
            generics,
            args,
            where_clause: clone_tokens(&self.where_clause),
        };
        proof {
            assert(generic_params_model(r.generics@) =~= generic_params_model(self.generics@));
            assert(usual_args_model(r.args@) =~= usual_args_model(self.args@));
        }
        r
    }
}

impl UsualArg {
    /// An exact copy of this argument.
    pub fn clone_arg(&self) -> (r: UsualArg)
        ensures
            usual_arg_model(r) == usual_arg_model(*self),
    {
        UsualArg {
            attrs: clone_tokens(&self.attrs),
            kind: match &self.kind {
                UsualArgKind::Identified { name, name_span, ty } => UsualArgKind::Identified {
                    name: name.clone(),
                    name_span: *name_span,
                    ty: clone_tokens(ty),
                },
                UsualArgKind::Receiver { by_ref, lifetime, lifetime_span, mutable, self_span } => {
                    UsualArgKind::Receiver {
                        by_ref: *by_ref,
                        lifetime: match lifetime {
                            Option::Some(l) => Option::Some(l.clone()),
                            Option::None => Option::None,
                        },
                        lifetime_span: *lifetime_span,
                        mutable: *mutable,
                        self_span: *self_span,
                    }
                },
            },
        }
    }
}

} // verus!
