use assemblist::lexer::lex;
use assemblist::model::AssemblistGenericKind;
use assemblist::model::BranchTail;
use assemblist::model::TrunkAlternative;
use assemblist::model::UsualArgKind;
use assemblist::parser::parse_args;
use assemblist::parser::parse_branch;
use assemblist::parser::parse_section;
use assemblist::parser::parse_trunk;
use assemblist::render::tokens_to_text;

fn arg_name(kind: &UsualArgKind) -> String {
    match kind {
        UsualArgKind::Identified { name, .. } => name.clone(),
        UsualArgKind::Receiver { .. } => "self_".to_string(),
    }
}

fn arg_type_text(kind: &UsualArgKind) -> String {
    match kind {
        UsualArgKind::Identified { ty, .. } => tokens_to_text(ty),
        UsualArgKind::Receiver { .. } => panic!("expected a named argument"),
    }
}

#[test]
fn section_parse_section() {
    let toks = lex("naked()").unwrap();
    let (sec, next) = parse_section(&toks, 0).expect("Should not have failed");
    assert_eq!("naked", sec.name.as_str());
    assert_eq!(0, sec.generics.len());
    assert_eq!(0, sec.args.len());
    assert_eq!(2, next);

    let toks = lex("get_first<T: Debug>(vec: Vec<T>)").unwrap();
    let (sec, _) = parse_section(&toks, 0).expect("Should not have failed");
    assert_eq!("get_first", sec.name.as_str());
    assert_eq!(1, sec.generics.len());
    assert_eq!("T", sec.generics[0].name.as_str());
    assert!(matches!(sec.generics[0].kind, AssemblistGenericKind::Type));
    assert_eq!("Debug", tokens_to_text(&sec.generics[0].bound).as_str());
    assert_eq!(1, sec.args.len());
    assert_eq!("vec", arg_name(&sec.args[0].kind).as_str());
    assert_eq!("Vec < T >", arg_type_text(&sec.args[0].kind).as_str());

    let toks = lex("find<'a>(collection: &'a Collection)").unwrap();
    let (sec, _) = parse_section(&toks, 0).expect("Should not have failed");
    assert_eq!("find", sec.name.as_str());
    assert_eq!(1, sec.generics.len());
    assert_eq!("a", sec.generics[0].name.as_str());
    assert!(matches!(sec.generics[0].kind, AssemblistGenericKind::Lifetime));
    assert_eq!(0, sec.generics[0].bound.len());
    assert_eq!("collection", arg_name(&sec.args[0].kind).as_str());
    assert_eq!("&'a Collection", arg_type_text(&sec.args[0].kind).as_str());

    let toks = lex("f(,)").unwrap();
    let err = parse_section(&toks, 0).err().expect("Should not parse");
    assert_eq!("Only basic identifier pattern is supported", err.message.as_str());

    let toks = lex("f(x:)").unwrap();
    let err = parse_section(&toks, 0).err().expect("Should not parse");
    assert_eq!("expected a type", err.message.as_str());
}

#[test]
fn parse_chained_section() {
    let toks = lex("naked().").unwrap();
    let err = parse_branch(&toks, 0).err().expect("a lone dot has no continuation");
    assert_eq!("expected identifier", err.message.as_str());

    let toks = lex("get_first<T: Debug>(vec: Vec<T>) -> &T { 5 }").unwrap();
    let (b, _) = parse_branch(&toks, 0).expect("Should not have failed");
    assert_eq!("get_first", b.section.name.as_str());
    match &b.tail {
        BranchTail::Leaf { ret, body, .. } => {
            assert_eq!(2, ret.len());
            assert_eq!(1, body.len());
        },
        _ => panic!("expected a terminal segment"),
    }

    let toks = lex("find<'a>(collection: &'a Collection) { explode() }").unwrap();
    let (b, _) = parse_branch(&toks, 0).expect("Should not have failed");
    match &b.tail {
        BranchTail::Leaf { ret, .. } => assert_eq!(0, ret.len()),
        _ => panic!("expected a terminal segment"),
    }

    let toks = lex("find<'a, T>(vec: &'a Vec::<T>) where T: Sync { explode() }").unwrap();
    let (b, _) = parse_branch(&toks, 0).expect("Should not have failed");
    assert_eq!(2, b.section.generics.len());
    assert!(b.section.where_clause.len() > 0);

    let toks = lex("naked()!").unwrap();
    let err = parse_branch(&toks, 0).err().expect("Should not parse");
    assert_eq!("expected curly braces", err.message.as_str());
}

#[test]
fn parse_tree() {
    let toks = lex("fn first().second() { } fn third().fourth() { }").unwrap();
    let tree = assemblist::parser::parse_tree(&toks).expect("Should not have failed");
    assert_eq!(2, tree.roots.len());
}

#[test]
fn parse_trunks() {
    let toks = lex("fn first().second() {}").unwrap();
    let (trunk, _) = parse_trunk(&toks, 0).expect("Should not have failed");
    match &trunk.alternative {
        TrunkAlternative::Fn { documented } => {
            assert_eq!("first", documented.branch.section.name.as_str());
            match &documented.branch.tail {
                BranchTail::Alternative { children } => {
                    assert_eq!(1, children.len());
                    assert_eq!("second", children[0].branch.section.name.as_str());
                },
                _ => panic!("expected a continuation"),
            }
        },
        _ => panic!("expected a chain"),
    }

    let toks = lex("fn first.second() {}").unwrap();
    let err = parse_trunk(&toks, 0).err().expect("Should not parse");
    assert_eq!("expected parentheses", err.message.as_str());
}

#[test]
fn parse_tree_with_trivial_branch_alternative() {
    let toks = lex("fn first().{ fn second() { } }").unwrap();
    let (trunk, _) = parse_trunk(&toks, 0).expect("Should not have failed");
    match &trunk.alternative {
        TrunkAlternative::Fn { documented } => match &documented.branch.tail {
            BranchTail::Alternative { children } => {
                assert_eq!(1, children.len());
                assert_eq!("second", children[0].branch.section.name.as_str());
            },
            _ => panic!("expected a continuation"),
        },
        _ => panic!("expected a chain"),
    }
}

#[test]
fn parse_trunk_with_real_branch_alternative() {
    let toks = lex("fn first().{ fn second() { } fn second_prime() { } }").unwrap();
    let (trunk, _) = parse_trunk(&toks, 0).expect("Should not have failed");
    match &trunk.alternative {
        TrunkAlternative::Fn { documented } => match &documented.branch.tail {
            BranchTail::Alternative { children } => {
                assert_eq!(2, children.len());
                assert_eq!("second", children[0].branch.section.name.as_str());
                assert_eq!("second_prime", children[1].branch.section.name.as_str());
            },
            _ => panic!("expected a continuation"),
        },
        _ => panic!("expected a chain"),
    }
}

#[test]
fn parse_trunk_with_impl() {
    let toks = lex("impl Intro { fn first().second() { } fn third().fourth() { } }").unwrap();
    let (trunk, _) = parse_trunk(&toks, 0).expect("Should not have failed");
    match &trunk.alternative {
        TrunkAlternative::Impl { header, fn_trunks } => {
            assert_eq!(1, header.self_ty.len());
            assert_eq!(0, header.generics.len());
            assert_eq!(2, fn_trunks.len());
            assert_eq!("first", fn_trunks[0].documented.branch.section.name.as_str());
            assert_eq!("third", fn_trunks[1].documented.branch.section.name.as_str());
        },
        _ => panic!("expected an implementation"),
    }
}

#[test]
fn transformation_parse_section() {
    let toks = lex("dodo<'b>() -> usize").unwrap();
    let (sec, next) = parse_section(&toks, 0).expect("Should not have failed");
    assert_eq!("dodo", sec.name.as_str());
    assert_eq!(1, sec.generics.len());
    assert_eq!("b", sec.generics[0].name.as_str());
    assert!(next < toks.len());
}

#[test]
fn parse_usual_args() {
    let toks = lex("text: &'a str, n: i32").unwrap();
    let (args, _) = parse_args(&toks, 0, Vec::new(), false).expect(
        "Should not have conversion issue",
    );
    assert_eq!(2, args.len());
    assert_eq!("text", arg_name(&args[0].kind).as_str());
    assert_eq!("n", arg_name(&args[1].kind).as_str());

    let toks = lex("pair: (usize, String), dates: Vec<Date>,").unwrap();
    let (args, _) = parse_args(&toks, 0, Vec::new(), false).expect(
        "Should not have conversion issue",
    );
    assert_eq!(2, args.len());
    assert_eq!("pair", arg_name(&args[0].kind).as_str());
    assert_eq!("dates", arg_name(&args[1].kind).as_str());

    let toks = lex("text: &'a str, n: i32;").unwrap();
    let err = parse_args(&toks, 0, Vec::new(), false).err().expect("Should not parse");
    assert_eq!("unexpected token", err.message.as_str());

    let toks = lex("&'a self, text: &'a str").unwrap();
    let (args, _) = parse_args(&toks, 0, Vec::new(), false).expect(
        "Should not have conversion issue",
    );
    assert_eq!(2, args.len());
    assert_eq!("self_", arg_name(&args[0].kind).as_str());
    assert_eq!("text", arg_name(&args[1].kind).as_str());
}

#[test]
fn checking_chains() {
    let toks = lex("fn first<'a, T>(text: &'a str).second<U>(n: &'a mut i32, ok: bool,) {}")
        .unwrap();
    let (trunk, _) = parse_trunk(&toks, 0).expect("Should not have failed");
    let mut calls = 0;
    match &trunk.alternative {
        TrunkAlternative::Fn { documented } => {
            let b0 = &documented.branch;
            calls += 1;
            assert_eq!(2, b0.section.generics.len());
            assert_eq!(1, b0.section.args.len());
            match &b0.tail {
                BranchTail::Alternative { children } => {
                    let b1 = &children[0].branch;
                    calls += 1;
                    assert_eq!(1, b1.section.generics.len());
                    assert_eq!(2, b1.section.args.len());
                    assert!(matches!(b1.tail, BranchTail::Leaf { .. }));
                },
                _ => panic!("expected a continuation"),
            }
        },
        _ => panic!("expected a chain"),
    }
    assert_eq!(2, calls);
}

#[test]
fn test_trunk() {
    let toks = lex("fn first<'a, T>(text: &'a str).second<U>(n: &'a mut i32, ok: bool,) {}")
        .unwrap();
    let (trunk, _) = parse_trunk(&toks, 0).expect("Should not have failed");
    assert!(!trunk.prelude.is_async);
    match &trunk.alternative {
        TrunkAlternative::Fn { documented } => {
            assert!(matches!(documented.branch.tail, BranchTail::Alternative { .. }));
        },
        _ => panic!("expected a chain"),
    }
}

#[test]
fn trunk_browser_browsing() {
    let toks = lex("fn first<'a, T>(text: &'a str).second<U>(n: &'a mut i32, ok: bool,) {}")
        .unwrap();
    let (trunk, _) = parse_trunk(&toks, 0).expect("Should not have failed");
    let mut calls = 0;
    if let TrunkAlternative::Fn { documented } = &trunk.alternative {
        let mut branch = &documented.branch;
        let mut depth = 0;
        loop {
            calls += 1;
            if depth == 0 {
                assert_eq!(2, branch.section.generics.len());
                assert_eq!(1, branch.section.args.len());
            }
            if depth == 1 {
                assert_eq!(1, branch.section.generics.len());
                assert_eq!(2, branch.section.args.len());
            }
            match &branch.tail {
                BranchTail::Alternative { children } => {
                    branch = &children[0].branch;
                    depth += 1;
                },
                BranchTail::Leaf { .. } => break,
            }
        }
    } else {
        panic!("expected a chain");
    }
    assert_eq!(2, calls);
}

#[test]
fn trunk_browsing_browsing() {
    let toks = lex("fn first<'a, T>(text: &'a str).second<U>(n: &'a mut i32, ok: bool,) {}")
        .unwrap();
    let (trunk, _) = parse_trunk(&toks, 0).expect("Should not have failed");
    let mut calls = 0;
    if let TrunkAlternative::Fn { documented } = &trunk.alternative {
        calls += 1;
        assert!(matches!(documented.branch.tail, BranchTail::Alternative { .. }));
        if let BranchTail::Alternative { children } = &documented.branch.tail {
            calls += 1;
            assert!(matches!(children[0].branch.tail, BranchTail::Leaf { .. }));
        }
    } else {
        panic!("expected a chain");
    }
    assert_eq!(2, calls);
}

#[test]
fn flatten_chain_generics() {
    let toks = lex("fn first<'a, T>(text: &'a str).second<U>(n: &'a mut i32) {}").unwrap();
    assert!(assemblist::parser::parse_tree(&toks).is_ok());
}
