use assemblist::doc::DocView;
use assemblist::flatten::produce_impl_output_header;
use assemblist::flatten::produce_method;
use assemblist::flatten::produce_output_definition;
use assemblist::flatten::produce_output_instance;
use assemblist::lexer::lex;
use assemblist::model::BranchTail;
use assemblist::model::Section;
use assemblist::model::Trunk;
use assemblist::model::TrunkAlternative;
use assemblist::parser::parse_trunk;
use assemblist::render::tokens_to_text;
use assemblist::tokens::Token;
use assemblist::tokens::tokens_match;

fn check_text(actual: &Vec<Token>, expected: &str) {
    let exp = lex(expected).expect("expected text should lex");
    assert!(
        tokens_match(actual, &exp),
        "\n  actual: {}\nexpected: {}\n",
        tokens_to_text(actual),
        tokens_to_text(&exp)
    );
}

fn empty_view() -> DocView {
    DocView { sections: Vec::new(), start: 0 }
}

fn chain_method_texts(trunk: &Trunk) -> Vec<Vec<Token>> {
    let mut data = Vec::new();
    if let TrunkAlternative::Fn { documented } = &trunk.alternative {
        let mut secs: Vec<Section> = Vec::new();
        let mut branch = &documented.branch;
        loop {
            secs.push(branch.section.clone_section());
            let mut out: Vec<Token> = Vec::new();
            produce_method(&mut out, &trunk.prelude, &empty_view(), None, &secs, &branch.tail);
            data.push(out);
            match &branch.tail {
                BranchTail::Alternative { children } => branch = &children[0].branch,
                BranchTail::Leaf { .. } => break,
            }
        }
    } else {
        panic!("expected a chain");
    }
    data
}

#[test]
fn method_test_methods() {
    let toks = lex(
        "pub(crate) fn first<'a>(text: &'a str, uuid: Uuid).second<T>(n: &'a mut T).third(l: usize) -> i64 { compose(l, uuid, combine(text, n)) }",
    )
    .unwrap();
    let (trunk, _) = parse_trunk(&toks, 0).expect("Should not have failed");
    let method_data = chain_method_texts(&trunk);
    assert_eq!(3, method_data.len());
    check_text(
        &method_data[0],
        "#[inline] pub (crate) fn first < 'a > (text : & 'a str , uuid : Uuid) -> first :: Output :: < 'a > {
            first :: Output :: < 'a > { text , uuid , }
        }",
    );
    check_text(
        &method_data[1],
        "#[inline] pub fn second < T > (self , n : & 'a mut T) -> second :: Output :: < 'a , T > {
            let text = self . text ;
            let uuid = self . uuid ;
            second :: Output :: < 'a , T > { text , uuid , n , }
        }",
    );
    check_text(
        &method_data[2],
        "pub fn third (self , l : usize) -> i64 {
            let n = self . n ;
            let text = self . text ;
            let uuid = self . uuid ;
            compose (l , uuid , combine (text , n))
        }",
    );
}

#[test]
fn methods_test_methods() {
    let toks = lex(
        "pub(crate) fn first<'a>(text: &'a str, uuid: Uuid).second<T>(n: &'a mut T).third(l: usize) -> i64 { compose(l, uuid, combine(text, n)) }",
    )
    .unwrap();
    let (trunk, _) = parse_trunk(&toks, 0).expect("Should not have failed");
    let method_data = chain_method_texts(&trunk);
    assert_eq!(3, method_data.len());
    let rendered: Vec<String> = method_data.iter().map(tokens_to_text).collect();
    assert!(rendered[0].contains("fn first < 'a > (text : &'a str , uuid : Uuid)"), "{}", rendered[0]);
    assert!(rendered[1].contains("fn second < T > (self , n : &'a mut T)"), "{}", rendered[1]);
    assert!(rendered[2].contains("fn third (self , l : usize) -> i64"), "{}", rendered[2]);
}

#[test]
fn test_output_definition() {
    let toks = lex("pub(crate) fn first<'a>(text: &'a str).second<T>(n: &'a mut T) {}").unwrap();
    let (trunk, _) = parse_trunk(&toks, 0).expect("Should not have failed");
    let mut output_data: Vec<Vec<Token>> = Vec::new();
    if let TrunkAlternative::Fn { documented } = &trunk.alternative {
        let mut secs: Vec<Section> = Vec::new();
        let mut branch = &documented.branch;
        loop {
            secs.push(branch.section.clone_section());
            let mut def: Vec<Token> = Vec::new();
            produce_output_definition(&mut def, None, &secs);
            output_data.push(def);
            let mut inst: Vec<Token> = Vec::new();
            produce_output_instance(&mut inst, None, &secs);
            output_data.push(inst);
            let mut header: Vec<Token> = Vec::new();
            produce_impl_output_header(&mut header, None, &secs);
            output_data.push(header);
            match &branch.tail {
                BranchTail::Alternative { children } => branch = &children[0].branch,
                BranchTail::Leaf { .. } => break,
            }
        }
    } else {
        panic!("expected a chain");
    }
    assert_eq!(6, output_data.len());
    check_text(&output_data[0], "pub struct Output < 'a > { pub (super) text : & 'a str , }");
    check_text(&output_data[1], "first :: Output :: < 'a > { text , }");
    check_text(&output_data[2], "impl < 'a > Output < 'a >");
    check_text(
        &output_data[3],
        "pub struct Output < 'a , T > { pub (super) text : & 'a str , pub (super) n : & 'a mut T , }",
    );
    check_text(&output_data[4], "second :: Output :: < 'a , T > { text , n , }");
    check_text(&output_data[5], "impl < 'a , T > Output < 'a , T >");
}
