use assemblist::asserts::equivalent;
use assemblist::asserts::failure;
use assemblist::cumulative::CumulativeIterator;
use assemblist::cumulative::CumulativeList;
use assemblist::lexer::lex;
use assemblist::render::tokens_to_text;
use assemblist::tokens::tokens_match;
use assemblist::transformation::transform;
use assemblist::transformation::transform_or_error;

fn visit(
    names: &Vec<&'static str>,
    index: usize,
    agg: CumulativeList<String>,
    state: &mut Vec<String>,
) -> CumulativeList<String> {
    if index >= names.len() {
        return agg;
    }
    let inverted_name: String = names[index].to_string().chars().rev().collect();
    let mut text = String::new();
    let mut first = true;
    let mut it = CumulativeIterator::over(&agg);
    while let Some(a) = it.next() {
        if first {
            first = false;
        } else {
            text.push(' ');
        }
        text.push_str(a.as_str());
    }
    state.push(text);
    let agg = visit(names, index + 1, agg.concat(inverted_name.clone()), state);
    state.push(inverted_name);
    agg
}

#[test]
fn cummulative() {
    let mut state = Vec::<String>::new();
    let names = vec![
        "Nous",
        "autres",
        "civilisations",
        "nous",
        "savons",
        "maintenant",
        "que",
        "nous",
        "sommes",
        "mortelles",
    ];
    visit(&names, 0, CumulativeList::empty(), &mut state);

    assert_eq!(20, state.len());
    assert_eq!("", state[0].as_str());
    assert_eq!("suoN", state[1].as_str());
    assert_eq!("sertua suoN", state[2].as_str());
    assert_eq!("snoitasilivic sertua suoN", state[3].as_str());
    assert_eq!("selletrom", state[10].as_str());
    assert_eq!("semmos", state[11].as_str());
    assert_eq!("suon", state[12].as_str());
    assert_eq!("snovas", state[15].as_str());
}

#[test]
fn cumulative_list_accessors() {
    let l = CumulativeList::empty().concat(10usize).concat(11).concat(12);
    assert_eq!(3, l.size());
    assert_eq!(Some(&12), l.item());
    let p = l.previous().unwrap();
    assert_eq!(2, p.size());
    assert_eq!(Some(&11), p.item());
    let (item, q) = p.item_and_previous().unwrap();
    assert_eq!(&11, item);
    assert_eq!(1, q.size());
    assert!(q.previous().unwrap().previous().is_none());
}

#[test]
fn equivalent_flattens_blank_space() {
    assert!(equivalent("fn   f ()\n { }", "fn f () { }").is_ok());
    assert!(equivalent("fn f", "fn g").is_err());
    assert!(equivalent("ab", "a b").is_err());
}

#[test]
fn failure_checks_message() {
    let toks = lex("fn f(mut x: i32).g() {}").unwrap();
    let r = transform(&toks);
    assert!(failure(r, "Mutability is not supported").is_ok());
    let toks = lex("fn f(x: i32).g() {}").unwrap();
    let r = transform(&toks);
    assert!(failure(r, "Mutability is not supported").is_err());
}

#[test]
fn mutable_pattern_is_refused_at_its_span() {
    let toks = assemblist::lexer::tokenize("fn f(ref mut x: i32).g() {}").unwrap();
    let err = transform(&toks).err().expect("Should not parse");
    assert_eq!("Mutability is not supported", err.message.as_str());
    assert_eq!(4, err.span);
    let out = transform_or_error(&toks);
    let expected = lex("compile_error ! (\"Mutability is not supported\") ;").unwrap();
    assert!(tokens_match(&out, &expected), "{}", tokens_to_text(&out));
}

#[test]
fn shape_errors_have_fixed_messages() {
    let cases: Vec<(&str, &str)> = vec![
        ("fn f(x @ p: i32).g() {}", "Subpatterns are not supported"),
        ("fn f(ref x: i32).g() {}", "By ref parameter are not supported"),
        ("fn f(mut x: i32).g() {}", "Mutability is not supported"),
        ("fn f((a, b): (i32, i32)).g() {}", "Only basic identifier pattern is supported"),
        ("impl X { fn f(self: Box<Self>).g() {} }", "Complex receivers type are not supported"),
        ("impl X { fn f(a: i32, self).g() {} }", "unexpected method receiver"),
        ("impl X { fn f(self, self).g() {} }", "unexpected second method receiver"),
        ("struct X;", "expected one of: `fn`, `impl`"),
        ("impl Display for X { fn f().g() {} }", "Only inherent implementations are allowed."),
        ("impl X;", "Implementation should have a body."),
        ("impl { fn f().g() {} }", "Implementation should have a name."),
        ("fn f().{ const N: usize = 3; }", "expected `fn`"),
        ("fn f().{ #[cold] fn g() {} }", "only document attributes are allowed here"),
        ("fn f<'a(x: i32) {}", "unexpected token in generic parameters"),
        ("fn f<T:>(x: i32) {}", "empty generic constraint"),
        ("fn f()", "expected curly braces"),
    ];
    for (input, expected) in cases {
        let toks = lex(input).unwrap();
        let err = transform(&toks).err().unwrap_or_else(|| panic!("{} should fail", input));
        assert_eq!(expected, err.message.as_str(), "for input {}", input);
    }
}

#[test]
fn lexing_breaks_text_into_tokens() {
    let toks = lex("fn   f( x : i32 )").unwrap();
    assert_eq!("fn f (x : i32)", tokens_to_text(&toks).as_str());
    let toks = lex("a::b").unwrap();
    assert_eq!("a :: b", tokens_to_text(&toks).as_str());
    let toks = lex("{ }").unwrap();
    assert_eq!("{ }", tokens_to_text(&toks).as_str());
    assert!(lex("fn f(").is_none());
}

#[test]
fn two_sibling_continuations_share_one_carrier() {
    let toks = lex("fn first().{ fn second() { } fn second_prime() { } }").unwrap();
    let out = transform(&toks).expect("Should not have failed");
    let text = tokens_to_text(&out);
    assert_eq!(1, text.matches("pub struct Output").count());
    assert_eq!(1, text.matches("fn second (").count());
    assert_eq!(1, text.matches("fn second_prime (").count());
    assert_eq!(2, text.matches("- [`first`]").count());
}

#[test]
fn flattening_is_deterministic() {
    let input = "fn first<'a>(text: &'a str).second(n: &'a mut i32) -> i64 { *n as i64 }";
    let toks1 = lex(input).unwrap();
    let toks2 = lex(input).unwrap();
    let out1 = transform(&toks1).expect("Should not have failed");
    let out2 = transform(&toks2).expect("Should not have failed");
    assert_eq!(tokens_to_text(&out1), tokens_to_text(&out2));
}

#[test]
fn simple_chain_flattens_to_root_and_nested_callable() {
    let toks = lex("fn first<'a>(text: &'a str).second(n: &'a mut i32) -> i64 { *n as i64 }")
        .unwrap();
    let out = transform(&toks).expect("Should not have failed");
    let expected = lex(
        "#[inline] fn first < 'a > (text : & 'a str) -> first :: Output :: < 'a > {
            first :: Output :: < 'a > { text , }
        }
        # [doc = \"Intermediary module for partial method chain [`first`](fn@first)`(…).…`\"]
        # [doc = \"\"]
        # [doc = \"Following method chains are supported:\"]
        # [doc = \"- [`first`](fn@first)`(…).`[`second`](method@first::Output::second)`(…)`\"]
        mod first {
            # ! [allow (unused_imports)]
            use super :: * ;
            # [doc = \"Intermediary type returned by partial method chain [`first`](fn@super::first)`(…).…`\"]
            pub struct Output < 'a > {
                pub (super) text : & 'a str ,
            }
            impl < 'a > Output < 'a > {
                pub fn second (self , n : & 'a mut i32) -> i64 {
                    let text = self . text ;
                    * n as i64
                }
            }
        }",
    )
    .unwrap();
    assert!(tokens_match(&out, &expected), "{}", tokens_to_text(&out));
}

#[test]
fn impl_without_display_name_keeps_method_links() {
    let toks = lex("impl (Wrapped) { fn a().b() { } }").unwrap();
    let out = transform(&toks).expect("Should not have failed");
    let text = tokens_to_text(&out);
    assert!(text.contains("[`a`](method@a)"), "{}", text);
    assert!(text.contains("(method@a::Output::b)"), "{}", text);
    assert!(!text.contains("fn@"), "{}", text);
}
