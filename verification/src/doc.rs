use vstd::prelude::*;

use crate::tokens::Delim;
use crate::tokens::Tok;
use crate::tokens::Token;
use crate::tokens::grp_tok;
use crate::tokens::id_tok;
use crate::tokens::p_tok;
use crate::tokens::push_group;
use crate::tokens::push_ident;
use crate::tokens::push_punct;
use crate::tokens::push_token;
use crate::tokens::toks_of;
use crate::model::DocLine;
use crate::model::DocLineV;
use crate::model::DocSection;
use crate::model::DocSectionV;
use crate::model::DocumentedBranch;
use crate::model::DocumentedBranchV;
use crate::model::BranchTail;
use crate::model::BranchTailV;
use crate::model::Section;
use crate::model::SectionV;
use crate::model::doc_line_model;
use crate::model::doc_section_model;
use crate::model::documented_branch_model;
use crate::model::documented_branches_model;
use crate::model::ImplHeader;
use crate::model::ImplHeaderV;
use crate::model::impl_header_model;
use crate::flatten::ChainV;
use crate::flatten::chain_model;

verus! {

broadcast use vstd::seq::axiom_seq_index_decreases, vstd::seq::axiom_seq_subrange_decreases, vstd::std_specs::vec::axiom_vec_decreases_to_view, vstd::std_specs::vec::axiom_vec_index_decreases;

/// The two tokens of one documentation attribute holding the given literal
/// text.
pub open spec fn doc_attr_toks(text: Seq<char>, span: nat) -> Seq<Tok> {
    seq![
        p_tok('#'),
        grp_tok(
            Delim::Bracket,
            seq![id_tok("doc"@), p_tok('='), Tok::Lit { text, span }],
        ),
    ]
}

/// A documentation attribute made by the synthesizer: its literal is the
/// given content between quotes.
pub open spec fn synth_doc_attr_toks(content: Seq<char>) -> Seq<Tok> {
    doc_attr_toks(seq!['"'] + content + seq!['"'], 0)
}

/// The tokens of one documentation section: its lines re-emitted verbatim.
pub open spec fn doc_section_toks(sec: DocSectionV) -> Seq<Tok>
    decreases sec.lines.len(),
{
    if sec.lines.len() == 0 {
        Seq::empty()
    } else {
        doc_section_toks(DocSectionV { lines: sec.lines.drop_last() }) + doc_attr_toks(
            sec.lines.last().text,
            sec.lines.last().span,
        )
    }
}

/// A window into a documentation block: the sections of the block, read as
/// belonging to depths `start`, `start + 1`, and so on.
pub struct ViewV {
    pub sections: Seq<DocSectionV>,
    pub start: nat,
}

/// The documentation section a view holds for a depth, if any.
pub open spec fn view_section_at(v: ViewV, d: nat) -> Option<DocSectionV> {
    if v.start <= d < v.start + v.sections.len() {
        Option::Some(v.sections[d - v.start])
    } else {
        Option::None
    }
}

/// The tokens a view contributes at a depth.
pub open spec fn view_toks_at(v: ViewV, d: nat) -> Seq<Tok> {
    match view_section_at(v, d) {
        Option::Some(sec) => doc_section_toks(sec),
        Option::None => Seq::empty(),
    }
}

/// The executable form of a documentation view.
pub struct DocView {
    pub sections: Vec<DocSection>,
    pub start: usize,
}

pub open spec fn doc_view_model(v: DocView) -> ViewV {
    ViewV {
        sections: v.sections@.map(|i: int, s: DocSection| doc_section_model(s)),
        start: v.start as nat,
    }
}

/// An exact copy of a list of documentation sections.
pub fn clone_doc_sections(src: &Vec<DocSection>) -> (r: Vec<DocSection>)
    ensures
        r@.map(|i: int, s: DocSection| doc_section_model(s)) == src@.map(
            |i: int, s: DocSection| doc_section_model(s),
        ),
{
    let mut sections: Vec<DocSection> = Vec::new();
    let n = src.len();
    for i in 0..n
        invariant
            n == src.len(),
            sections@.len() == i,
            forall|j: int| 0 <= j < i ==> doc_section_model(#[trigger] sections@[j])
                == doc_section_model(src@[j]),
    {
        let sec = &src[i];
        let mut lines: Vec<DocLine> = Vec::new();
        let m = sec.lines.len();
        for k in 0..m
            invariant
                m == sec.lines.len(),
                lines@.len() == k,
                forall|j: int| 0 <= j < k ==> doc_line_model(#[trigger] lines@[j])
                    == doc_line_model(sec.lines@[j]),
        {
            lines.push(DocLine { text: sec.lines[k].text.clone(), span: sec.lines[k].span });
        }
        let copy = DocSection { lines };
        proof {
            assert(doc_section_model(copy).lines =~= doc_section_model(src@[i as int]).lines);
        }
        sections.push(copy);
    }
    proof {
        assert(sections@.map(|i: int, s: DocSection| doc_section_model(s)) =~= src@.map(
            |i: int, s: DocSection| doc_section_model(s),
        ));
    }
    sections
}

impl DocView {
    /// An exact copy of this view.
    pub fn clone_view(&self) -> (r: DocView)
        ensures
            doc_view_model(r) == doc_view_model(*self),
    {
        let r = DocView { sections: clone_doc_sections(&self.sections), start: self.start };
        proof {
            assert(doc_view_model(r).sections =~= doc_view_model(*self).sections);
        }
        r
    }

    /// Whether this view holds no section at all.
    pub fn is_empty(&self) -> (r: bool)
        ensures
            r == (doc_view_model(*self).sections.len() == 0),
    {
        self.sections.len() == 0
    }
}

/// Emits the documentation section a view holds for a depth, if any.
pub fn produce_view_at(out: &mut Vec<Token>, v: &DocView, d: usize)
    ensures
        toks_of(final(out)@) == toks_of(old(out)@) + view_toks_at(doc_view_model(*v), d as nat),
{
    let ghost vm = doc_view_model(*v);
    if v.start <= d && d - v.start < v.sections.len() {
        let sec = &v.sections[d - v.start];
        proof {
            assert(view_section_at(vm, d as nat) == Option::Some(
                doc_section_model(v.sections@[d - v.start]),
            ));
        }
        let n = sec.lines.len();
        let ghost secm = doc_section_model(*sec);
        let mut i: usize = 0;
        proof {
            assert(secm.lines.take(0) =~= Seq::<DocLineV>::empty());
            assert(doc_section_toks(DocSectionV { lines: secm.lines.take(0) }) =~= Seq::<
                Tok,
            >::empty());
        }
        while i < n
            invariant
                i <= n,
                n == sec.lines.len(),
                secm == doc_section_model(*sec),
                toks_of(out@) == toks_of(old(out)@) + doc_section_toks(
                    DocSectionV { lines: secm.lines.take(i as int) },
                ),
            decreases n - i,
        {
            push_punct(out, '#');
            let mut inner: Vec<Token> = Vec::new();
            push_ident(&mut inner, "doc");
            push_punct(&mut inner, '=');
            push_token(
                &mut inner,
                Token::Lit { text: sec.lines[i].text.clone(), span: sec.lines[i].span },
            );
            proof {
                assert(toks_of(inner@) =~= seq![
                    id_tok("doc"@),
                    p_tok('='),
                    Tok::Lit { text: secm.lines[i as int].text, span: secm.lines[i as int].span },
                ]);
            }
            push_group(out, Delim::Bracket, inner);
            proof {
                assert(secm.lines.take(i + 1).drop_last() =~= secm.lines.take(i as int));
                assert(secm.lines.take(i + 1).last() == secm.lines[i as int]);
                assert(toks_of(out@) =~= toks_of(old(out)@) + doc_section_toks(
                    DocSectionV { lines: secm.lines.take(i + 1) },
                ));
            }
            i = i + 1;
        }
        proof {
            assert(secm.lines.take(n as int) =~= secm.lines);
            assert(toks_of(out@) =~= toks_of(old(out)@) + view_toks_at(vm, d as nat));
        }
    } else {
        proof {
            assert(view_toks_at(vm, d as nat) =~= Seq::<Tok>::empty());
            assert(toks_of(out@) =~= toks_of(old(out)@) + view_toks_at(vm, d as nat));
        }
    }
}

/// Emits one documentation attribute made by the synthesizer.
pub fn push_synth_doc(out: &mut Vec<Token>, content: String)
    ensures
        toks_of(final(out)@) == toks_of(old(out)@) + synth_doc_attr_toks(content@),
{
    let mut quoted = String::new();
    quoted.append("\"");
    quoted.append(content.as_str());
    quoted.append("\"");
    push_punct(out, '#');
    let mut inner: Vec<Token> = Vec::new();
    push_ident(&mut inner, "doc");
    push_punct(&mut inner, '=');
    push_token(&mut inner, Token::Lit { text: quoted, span: 0 });
    proof {
        assert("\""@ =~= seq!['"']) by {
            reveal_strlit("\"");
        }
        assert(toks_of(inner@) =~= seq![
            id_tok("doc"@),
            p_tok('='),
            Tok::Lit { text: seq!['"'] + content@ + seq!['"'], span: 0 },
        ]);
    }
    push_group(out, Delim::Bracket, inner);
    proof {
        assert(toks_of(out@) =~= toks_of(old(out)@) + synth_doc_attr_toks(content@));
    }
}

/// The repeated `super::` prefixes that climb `k` scopes.
pub open spec fn supers_chars(k: int) -> Seq<char>
    decreases k,
{
    if k <= 0 {
        Seq::empty()
    } else {
        supers_chars(k - 1) + "super::"@
    }
}

/// The module qualifiers `name ::` for the names between `loc` and `n`.
pub open spec fn mids_chars(names: Seq<Seq<char>>, loc: int, n: int) -> Seq<char>
    decreases n - loc,
{
    if loc >= n {
        Seq::empty()
    } else {
        names[loc] + "::"@ + mids_chars(names, loc + 1, n)
    }
}

/// The text of one link of a chain summary: the link for the segment at
/// position `n` of the dotted sequence, located relative to the scope at
/// position `loc`. `has_root` says whether the chain is anchored to an
/// implementation header: its root link is then a method link even where the
/// implemented type shows no name to display.
pub open spec fn seg_chars(
    root: Option<Seq<char>>,
    has_root: bool,
    names: Seq<Seq<char>>,
    loc: int,
    n: int,
) -> Seq<char> {
    let lead: Seq<char> = if n > 0 {
        ".`"@
    } else {
        match root {
            Option::Some(rn) => "[`"@ + rn + "`]`::`"@,
            Option::None => Seq::empty(),
        }
    };
    let marker: Seq<char> = if n == 0 && !has_root {
        "fn@"@
    } else {
        "method@"@
    };
    let path: Seq<char> = if n <= loc {
        supers_chars(loc - n)
    } else {
        mids_chars(names, loc, n)
    };
    let owner: Seq<char> = if n > 0 {
        "Output::"@
    } else {
        match root {
            Option::Some(rn) => rn + "::"@,
            Option::None => Seq::empty(),
        }
    };
    lead + "[`"@ + names[n] + "`]("@ + marker + path + owner + names[n] + ")`(…)"@
}

/// The concatenated links for the first `n` segments of a dotted sequence.
pub open spec fn seq_upto_chars(
    root: Option<Seq<char>>,
    has_root: bool,
    names: Seq<Seq<char>>,
    loc: int,
    n: int,
) -> Seq<char>
    decreases n,
{
    if n <= 0 {
        Seq::empty()
    } else {
        seq_upto_chars(root, has_root, names, loc, n - 1) + seg_chars(
            root,
            has_root,
            names,
            loc,
            n - 1,
        )
    }
}

/// The text summarizing one dotted call sequence, located relative to the
/// scope at position `loc`: each segment as a link, and a trailing marker
/// showing whether the sequence continues past the located scope.
pub open spec fn doc_sequence_chars(
    root: Option<Seq<char>>,
    has_root: bool,
    names: Seq<Seq<char>>,
    loc: int,
) -> Seq<char> {
    seq_upto_chars(root, has_root, names, loc, names.len() as int) + (if loc + 1 < names.len() {
        "`"@
    } else {
        ".…`"@
    })
}

/// Appends the repeated `super::` prefixes that climb `k` scopes.
fn append_supers(s: &mut String, k: usize)
    ensures
        final(s)@ == old(s)@ + supers_chars(k as int),
    decreases k,
{
    if k == 0 {
        proof {
            assert(s@ =~= old(s)@ + supers_chars(0));
        }
        return ;
    }
    append_supers(s, k - 1);
    s.append("super::");
    proof {
        assert(s@ =~= old(s)@ + supers_chars(k as int));
    }
}

/// Appends the module qualifiers for the names between `loc` and `n`.
fn append_mids(s: &mut String, names: &Vec<String>, loc: usize, n: usize)
    requires
        loc <= n <= names.len(),
    ensures
        final(s)@ == old(s)@ + mids_chars(
            names@.map(|i: int, q: String| q@),
            loc as int,
            n as int,
        ),
    decreases n - loc,
{
    let ghost nm = names@.map(|i: int, q: String| q@);
    if loc >= n {
        proof {
            assert(s@ =~= old(s)@ + mids_chars(nm, loc as int, n as int));
        }
        return ;
    }
    s.append(names[loc].as_str());
    s.append("::");
    append_mids(s, names, loc + 1, n);
    proof {
        assert(nm[loc as int] == names@[loc as int]@);
        assert(s@ =~= old(s)@ + mids_chars(nm, loc as int, n as int));
    }
}

/// Appends the text of one link of a chain summary.
#[verifier::rlimit(100)]
fn append_seg(
    s: &mut String,
    root: Option<&String>,
    has_root: bool,
    names: &Vec<String>,
    loc: usize,
    n: usize,
)
    requires
        n < names.len(),
    ensures
        final(s)@ == old(s)@ + seg_chars(
            match root {
                Option::Some(r) => Option::Some(r@),
                Option::None => Option::None,
            },
            has_root,
            names@.map(|i: int, q: String| q@),
            loc as int,
            n as int,
        ),
{
    let ghost nm = names@.map(|i: int, q: String| q@);
    let ghost rootv = match root {
        Option::Some(r) => Option::Some(r@),
        Option::None => Option::None::<Seq<char>>,
    };
    if n > 0 {
        s.append(".`");
    } else {
        match root {
            Option::Some(rn) => {
                s.append("[`");
                s.append(rn.as_str());
                s.append("`]`::`");
            },
            Option::None => {},
        }
    }
    s.append("[`");
    s.append(names[n].as_str());
    s.append("`](");
    if n == 0 && !has_root {
        s.append("fn@");
    } else {
        s.append("method@");
    }
    if n <= loc {
        append_supers(s, loc - n);
    } else {
        append_mids(s, names, loc, n);
    }
    if n > 0 {
        s.append("Output::");
    } else {
        match root {
            Option::Some(rn) => {
                s.append(rn.as_str());
                s.append("::");
            },
            Option::None => {},
        }
    }
    s.append(names[n].as_str());
    s.append(")`(…)");
    proof {
        assert(nm[n as int] == names@[n as int]@);
        assert(s@ =~= old(s)@ + seg_chars(rootv, has_root, nm, loc as int, n as int));
    }
}

/// Appends the concatenated links for the first `n` segments.
fn append_seq_upto(
    s: &mut String,
    root: Option<&String>,
    has_root: bool,
    names: &Vec<String>,
    loc: usize,
    n: usize,
)
    requires
        n <= names.len(),
    ensures
        final(s)@ == old(s)@ + seq_upto_chars(
            match root {
                Option::Some(r) => Option::Some(r@),
                Option::None => Option::None,
            },
            has_root,
            names@.map(|i: int, q: String| q@),
            loc as int,
            n as int,
        ),
    decreases n,
{
    let ghost nm = names@.map(|i: int, q: String| q@);
    let ghost rootv = match root {
        Option::Some(r) => Option::Some(r@),
        Option::None => Option::None::<Seq<char>>,
    };
    if n == 0 {
        proof {
            assert(s@ =~= old(s)@ + seq_upto_chars(rootv, has_root, nm, loc as int, 0));
        }
        return ;
    }
    append_seq_upto(s, root, has_root, names, loc, n - 1);
    append_seg(s, root, has_root, names, loc, n - 1);
    proof {
        assert(s@ =~= old(s)@ + seq_upto_chars(rootv, has_root, nm, loc as int, n as int));
    }
}

/// Appends the text summarizing one dotted call sequence.
pub fn append_doc_sequence(
    s: &mut String,
    root: Option<&String>,
    has_root: bool,
    names: &Vec<String>,
    loc: usize,
)
    requires
        names.len() > 0,
    ensures
        final(s)@ == old(s)@ + doc_sequence_chars(
            match root {
                Option::Some(r) => Option::Some(r@),
                Option::None => Option::None,
            },
            has_root,
            names@.map(|i: int, q: String| q@),
            loc as int,
        ),
{
    let ghost nm = names@.map(|i: int, q: String| q@);
    let ghost rootv = match root {
        Option::Some(r) => Option::Some(r@),
        Option::None => Option::None::<Seq<char>>,
    };
    append_seq_upto(s, root, has_root, names, loc, names.len());
    if loc < names.len() - 1 {
        s.append("`");
    } else {
        s.append(".…`");
    }
    proof {
        assert(s@ =~= old(s)@ + doc_sequence_chars(rootv, has_root, nm, loc as int));
    }
}

/// The names of the chain's segments, root first.
pub open spec fn chain_names(c: ChainV) -> Seq<Seq<char>> {
    c.sections.map(|i: int, s: SectionV| s.name)
}

/// The last identifier standing outside angle brackets in a token sequence:
/// the display name of an implemented type.
pub open spec fn last_outer_ident(toks: Seq<Tok>, i: int, angle: int, cur: Option<Seq<char>>)
    -> Option<Seq<char>>
    decreases toks.len() - i,
{
    if i >= toks.len() {
        cur
    } else {
        match toks[i] {
            Tok::Ident { text, .. } => {
                if angle <= 0 {
                    last_outer_ident(toks, i + 1, angle, Option::Some(text))
                } else {
                    last_outer_ident(toks, i + 1, angle, cur)
                }
            },
            Tok::Punct { ch, .. } => {
                if ch == '<' {
                    last_outer_ident(toks, i + 1, angle + 1, cur)
                } else if ch == '>' && !crate::parser::arrow_before(toks, i) && angle > 0 {
                    last_outer_ident(toks, i + 1, angle - 1, cur)
                } else {
                    last_outer_ident(toks, i + 1, angle, cur)
                }
            },
            _ => last_outer_ident(toks, i + 1, angle, cur),
        }
    }
}

/// The display name of the implemented type a chain is anchored to, if any.
pub open spec fn root_display_name(c: ChainV) -> Option<Seq<char>> {
    match c.root_impl {
        Option::Some(h) => last_outer_ident(h.self_ty, 0, 0, Option::None),
        Option::None => Option::None,
    }
}

/// Collects the names of the chain's segments.
pub fn collect_names(secs: &Vec<Section>) -> (r: Vec<String>)
    ensures
        r@.map(|i: int, q: String| q@) == chain_names(chain_model(Option::None, secs@)),
        r@.len() == secs@.len(),
{
    let mut r: Vec<String> = Vec::new();
    let n = secs.len();
    for i in 0..n
        invariant
            n == secs.len(),
            r@.len() == i,
            forall|j: int| 0 <= j < i ==> (#[trigger] r@[j])@ == secs@[j].name@,
    {
        r.push(secs[i].name.clone());
    }
    proof {
        assert(r@.map(|i: int, q: String| q@) =~= chain_names(chain_model(Option::None, secs@)));
    }
    r
}

/// The display name of the implemented type, read from its tokens.
fn exec_last_outer_ident(toks: &Vec<Token>, i: usize, angle: usize, cur: Option<String>) -> (r:
    Option<String>)
    requires
        i <= toks.len(),
        angle <= i,
    ensures
        ({
            let sr = last_outer_ident(
                toks_of(toks@),
                i as int,
                angle as int,
                match cur {
                    Option::Some(q) => Option::Some(q@),
                    Option::None => Option::None,
                },
            );
            match r {
                Option::Some(q) => sr == Option::Some(q@),
                Option::None => sr is None,
            }
        }),
    decreases toks.len() - i,
{
    proof {
        crate::tokens::lemma_toks_of_len(toks@);
    }
    if i >= toks.len() {
        return cur;
    }
    match &toks[i] {
        Token::Ident { text, .. } => {
            if angle == 0 {
                exec_last_outer_ident(toks, i + 1, angle, Option::Some(text.clone()))
            } else {
                exec_last_outer_ident(toks, i + 1, angle, cur)
            }
        },
        Token::Punct { ch, .. } => {
            if *ch == '<' {
                exec_last_outer_ident(toks, i + 1, angle + 1, cur)
            } else if *ch == '>' && !crate::parser::exec_arrow_before(toks, i) && angle > 0 {
                exec_last_outer_ident(toks, i + 1, angle - 1, cur)
            } else {
                exec_last_outer_ident(toks, i + 1, angle, cur)
            }
        },
        _ => exec_last_outer_ident(toks, i + 1, angle, cur),
    }
}

/// The display name of the implemented type a chain is anchored to, if any.
pub fn exec_root_display_name(ri: Option<&ImplHeader>) -> (r: Option<String>)
    ensures
        ({
            let sr = root_display_name(
                ChainV {
                    root_impl: match ri {
                        Option::Some(h) => Option::Some(impl_header_model(*h)),
                        Option::None => Option::None,
                    },
                    sections: Seq::empty(),
                },
            );
            match r {
                Option::Some(q) => sr == Option::Some(q@),
                Option::None => sr is None,
            }
        }),
{
    match ri {
        Option::Some(h) => exec_last_outer_ident(&h.self_ty, 0, 0, Option::None),
        Option::None => Option::None,
    }
}

/// The synthesized bullet lines for every full chain reachable from one
/// continuation: a branch that ends in a body gives one bullet, a branch
/// that splits gives the bullets of each of its continuations, in
/// declaration order.
pub open spec fn bullets_for_child(
    db: DocumentedBranchV,
    root: Option<Seq<char>>,
    has_root: bool,
    names: Seq<Seq<char>>,
    loc: int,
) -> Seq<Tok>
    decreases db,
{
    let names2 = names.push(db.branch.section.name);
    match db.branch.tail {
        BranchTailV::Leaf { .. } => synth_doc_attr_toks(
            "- "@ + doc_sequence_chars(root, has_root, names2, loc),
        ),
        BranchTailV::Alternative { children } => bullets_for_children(
            children,
            root,
            has_root,
            names2,
            loc,
        ),
    }
}

pub open spec fn bullets_for_children(
    children: Seq<DocumentedBranchV>,
    root: Option<Seq<char>>,
    has_root: bool,
    names: Seq<Seq<char>>,
    loc: int,
) -> Seq<Tok>
    decreases children,
{
    if children.len() == 0 {
        Seq::empty()
    } else {
        bullets_for_child(children.first(), root, has_root, names, loc) + bullets_for_children(
            children.drop_first(),
            root,
            has_root,
            names,
            loc,
        )
    }
}

/// The number of full chains reachable from one continuation: one per
/// terminal body.
pub open spec fn leaf_count_of_child(db: DocumentedBranchV) -> nat
    decreases db,
{
    match db.branch.tail {
        BranchTailV::Leaf { .. } => 1,
        BranchTailV::Alternative { children } => leaf_count_of_children(children),
    }
}

pub open spec fn leaf_count_of_children(children: Seq<DocumentedBranchV>) -> nat
    decreases children,
{
    if children.len() == 0 {
        0
    } else {
        leaf_count_of_child(children.first()) + leaf_count_of_children(children.drop_first())
    }
}

/// Clones a list of names with one more name appended.
fn names_plus(names: &Vec<String>, extra: &String) -> (r: Vec<String>)
    ensures
        r@.map(|i: int, q: String| q@) == names@.map(|i: int, q: String| q@).push(extra@),
        r@.len() == names@.len() + 1,
{
    let mut r: Vec<String> = Vec::new();
    let n = names.len();
    for i in 0..n
        invariant
            n == names.len(),
            r@.len() == i,
            forall|j: int| 0 <= j < i ==> (#[trigger] r@[j])@ == names@[j]@,
    {
        r.push(names[i].clone());
    }
    r.push(extra.clone());
    proof {
        assert(r@.map(|i: int, q: String| q@) =~= names@.map(|i: int, q: String| q@).push(
            extra@,
        ));
    }
    r
}

/// Emits the synthesized bullet lines for one continuation.
fn emit_bullets_for_child(
    out: &mut Vec<Token>,
    db: &DocumentedBranch,
    root: Option<&String>,
    has_root: bool,
    names: &Vec<String>,
    loc: usize,
)
    ensures
        toks_of(final(out)@) == toks_of(old(out)@) + bullets_for_child(
            documented_branch_model(*db),
            match root {
                Option::Some(q) => Option::Some(q@),
                Option::None => Option::None,
            },
            has_root,
            names@.map(|i: int, q: String| q@),
            loc as int,
        ),
    decreases db,
{
    let ghost rootv = match root {
        Option::Some(q) => Option::Some(q@),
        Option::None => Option::None::<Seq<char>>,
    };
    let names2 = names_plus(names, &db.branch.section.name);
    match &db.branch.tail {
        BranchTail::Leaf { .. } => {
            let mut content = String::new();
            content.append("- ");
            append_doc_sequence(&mut content, root, has_root, &names2, loc);
            proof {
                assert("- "@ =~= seq!['-', ' ']) by {
                    reveal_strlit("- ");
                }
                assert(content@ =~= "- "@ + doc_sequence_chars(
                    rootv,
                    has_root,
                    names@.map(|i: int, q: String| q@).push(db.branch.section.name@),
                    loc as int,
                ));
            }
            push_synth_doc(out, content);
            proof {
                assert(toks_of(out@) =~= toks_of(old(out)@) + bullets_for_child(
                    documented_branch_model(*db),
                    rootv,
                    has_root,
                    names@.map(|i: int, q: String| q@),
                    loc as int,
                ));
            }
        },
        BranchTail::Alternative { children } => {
            emit_bullets_for_children(out, children, 0, root, has_root, &names2, loc);
            proof {
                assert(documented_branches_model(children@).skip(0) =~= documented_branches_model(
                    children@,
                ));
                assert(toks_of(out@) =~= toks_of(old(out)@) + bullets_for_child(
                    documented_branch_model(*db),
                    rootv,
                    has_root,
                    names@.map(|i: int, q: String| q@),
                    loc as int,
                ));
            }
        },
    }
}

/// Emits the synthesized bullet lines for the continuations from `i` on.
fn emit_bullets_for_children(
    out: &mut Vec<Token>,
    children: &Vec<DocumentedBranch>,
    i: usize,
    root: Option<&String>,
    has_root: bool,
    names: &Vec<String>,
    loc: usize,
)
    requires
        i <= children.len(),
    ensures
        toks_of(final(out)@) == toks_of(old(out)@) + bullets_for_children(
            documented_branches_model(children@).skip(i as int),
            match root {
                Option::Some(q) => Option::Some(q@),
                Option::None => Option::None,
            },
            has_root,
            names@.map(|i2: int, q: String| q@),
            loc as int,
        ),
    decreases children, children.len() - i,
{
    let ghost cm = documented_branches_model(children@);
    let ghost rootv = match root {
        Option::Some(q) => Option::Some(q@),
        Option::None => Option::None::<Seq<char>>,
    };
    if i >= children.len() {
        proof {
            crate::model::lemma_documented_branches_len(children@);
            assert(cm.skip(i as int).len() == 0);
            assert(toks_of(out@) =~= toks_of(old(out)@) + bullets_for_children(
                cm.skip(i as int),
                rootv,
                has_root,
                names@.map(|i2: int, q: String| q@),
                loc as int,
            ));
        }
        return ;
    }
    proof {
        crate::model::lemma_documented_branches_len(children@);
        assert(cm[i as int] == documented_branch_model(children@[i as int]));
    }
    emit_bullets_for_child(out, &children[i], root, has_root, names, loc);
    emit_bullets_for_children(out, children, i + 1, root, has_root, names, loc);
    proof {
        assert(cm.skip(i as int).first() == cm[i as int]);
        assert(cm.skip(i as int).drop_first() =~= cm.skip(i + 1));
        assert(toks_of(out@) =~= toks_of(old(out)@) + bullets_for_children(
            cm.skip(i as int),
            rootv,
            has_root,
            names@.map(|i2: int, q: String| q@),
            loc as int,
        ));
    }
}

/// The documentation synthesized for a generated scope: a summary naming the
/// chain prefix, a blank line, a heading, and one bullet per reachable full
/// chain.
pub open spec fn module_doc_toks(c: ChainV, children: Seq<DocumentedBranchV>) -> Seq<Tok> {
    let names = chain_names(c);
    let root = root_display_name(c);
    let has_root = c.root_impl is Some;
    let loc = names.len() - 1;
    synth_doc_attr_toks(
        "Intermediary module for partial method chain "@ + doc_sequence_chars(
            root,
            has_root,
            names,
            loc,
        ),
    ) + synth_doc_attr_toks(Seq::empty()) + synth_doc_attr_toks(
        "Following method chains are supported:"@,
    ) + bullets_for_children(children, root, has_root, names, loc)
}

/// The documentation synthesized for a carrier type.
pub open spec fn type_doc_toks(c: ChainV) -> Seq<Tok> {
    let names = chain_names(c);
    let root = root_display_name(c);
    let has_root = c.root_impl is Some;
    synth_doc_attr_toks(
        "Intermediary type returned by partial method chain "@ + doc_sequence_chars(
            root,
            has_root,
            names,
            names.len() as int,
        ),
    )
}

/// Emits the documentation synthesized for a generated scope.
pub fn produce_module_doc(
    out: &mut Vec<Token>,
    ri: Option<&ImplHeader>,
    secs: &Vec<Section>,
    children: &Vec<DocumentedBranch>,
)
    requires
        secs.len() > 0,
    ensures
        toks_of(final(out)@) == toks_of(old(out)@) + module_doc_toks(
            chain_model(ri, secs@),
            documented_branches_model(children@),
        ),
{
    let ghost c = chain_model(ri, secs@);
    let names = collect_names(secs);
    let root = exec_root_display_name(ri);
    let root_ref = match &root {
        Option::Some(q) => Option::Some(q),
        Option::None => Option::None,
    };
    let has_root = matches!(ri, Option::Some(_));
    let loc = names.len() - 1;
    let mut intro = String::new();
    intro.append("Intermediary module for partial method chain ");
    append_doc_sequence(&mut intro, root_ref, has_root, &names, loc);
    proof {
        assert(has_root == (c.root_impl is Some));
        assert(root_display_name(c) == root_display_name(
            ChainV { root_impl: c.root_impl, sections: Seq::empty() },
        ));
        assert(intro@ =~= "Intermediary module for partial method chain "@ + doc_sequence_chars(
            root_display_name(c),
            has_root,
            chain_names(c),
            loc as int,
        ));
    }
    push_synth_doc(out, intro);
    let empty_line = String::new();
    push_synth_doc(out, empty_line);
    let mut heading = String::new();
    heading.append("Following method chains are supported:");
    push_synth_doc(out, heading);
    emit_bullets_for_children(out, children, 0, root_ref, has_root, &names, loc);
    proof {
        assert(documented_branches_model(children@).skip(0) =~= documented_branches_model(
            children@,
        ));
        assert(toks_of(out@) =~= toks_of(old(out)@) + module_doc_toks(
            c,
            documented_branches_model(children@),
        ));
    }
}

/// Emits the documentation synthesized for a carrier type.
pub fn produce_type_doc(out: &mut Vec<Token>, ri: Option<&ImplHeader>, secs: &Vec<Section>)
    requires
        secs.len() > 0,
    ensures
        toks_of(final(out)@) == toks_of(old(out)@) + type_doc_toks(chain_model(ri, secs@)),
{
    let ghost c = chain_model(ri, secs@);
    let names = collect_names(secs);
    let root = exec_root_display_name(ri);
    let root_ref = match &root {
        Option::Some(q) => Option::Some(q),
        Option::None => Option::None,
    };
    let has_root = matches!(ri, Option::Some(_));
    let mut intro = String::new();
    intro.append("Intermediary type returned by partial method chain ");
    append_doc_sequence(&mut intro, root_ref, has_root, &names, names.len());
    proof {
        assert(has_root == (c.root_impl is Some));
        assert(root_display_name(c) == root_display_name(
            ChainV { root_impl: c.root_impl, sections: Seq::empty() },
        ));
        assert(intro@ =~= "Intermediary type returned by partial method chain "@
            + doc_sequence_chars(
            root_display_name(c),
            has_root,
            chain_names(c),
            chain_names(c).len() as int,
        ));
    }
    push_synth_doc(out, intro);
    proof {
        assert(toks_of(out@) =~= toks_of(old(out)@) + type_doc_toks(c));
    }
}

} // verus!
