use assemblist::lexer::lex;
use assemblist::render::tokens_to_text;
use assemblist::tokens::tokens_match;
use assemblist::transformation::transform;

fn expand(input: &str) -> String {
    let toks = lex(input).expect("input should lex");
    let out = transform(&toks).expect("Should not have failed");
    tokens_to_text(&out)
}

fn window(v: &Vec<assemblist::tokens::Token>, i: usize) -> String {
    let lo = if i >= 3 { i - 3 } else { 0 };
    let hi = if i + 4 <= v.len() { i + 4 } else { v.len() };
    let mut piece: Vec<assemblist::tokens::Token> = Vec::new();
    for k in lo..hi {
        piece.push(v[k].clone_token());
    }
    let text = tokens_to_text(&piece);
    if text.len() > 400 {
        text[..400].to_string()
    } else {
        text
    }
}

fn str_diff(a: &str, b: &str) -> String {
    let av: Vec<char> = a.chars().collect();
    let bv: Vec<char> = b.chars().collect();
    let mut k = 0;
    while k < av.len() && k < bv.len() && av[k] == bv[k] {
        k += 1;
    }
    let lo = if k >= 40 { k - 40 } else { 0 };
    let sa: String = av[lo..av.len().min(k + 60)].iter().collect();
    let sb: String = bv[lo..bv.len().min(k + 60)].iter().collect();
    format!("char {}\n  actual …{}…\nexpected …{}…", k, sa, sb)
}

fn deep_diff(a: &assemblist::tokens::Token, b: &assemblist::tokens::Token) -> String {
    match (a, b) {
        (
            assemblist::tokens::Token::Lit { text: ta, .. },
            assemblist::tokens::Token::Lit { text: tb, .. },
        ) => str_diff(ta, tb),
        (
            assemblist::tokens::Token::Ident { text: ta, .. },
            assemblist::tokens::Token::Ident { text: tb, .. },
        ) => str_diff(ta, tb),
        (
            assemblist::tokens::Token::Group { inner: ia, .. },
            assemblist::tokens::Token::Group { inner: ib, .. },
        ) => {
            let n = ia.len().min(ib.len());
            let mut i = 0;
            while i < n && assemblist::tokens::token_matches(&ia[i], &ib[i]) {
                i += 1;
            }
            if i < n {
                format!("group pos {}: {}", i, deep_diff(&ia[i], &ib[i]))
            } else {
                format!("group lens {} vs {}", ia.len(), ib.len())
            }
        },
        _ => "different token kinds".to_string(),
    }
}

fn check(input: &str, expected: &str) {
    let toks = lex(input).expect("input should lex");
    let out = transform(&toks).expect("Should not have failed");
    let exp = lex(expected).expect("expected text should lex");
    if !tokens_match(&out, &exp) {
        let n = if out.len() < exp.len() { out.len() } else { exp.len() };
        let mut i = 0;
        while i < n && assemblist::tokens::token_matches(&out[i], &exp[i]) {
            i += 1;
        }
        let detail = if i < n {
            deep_diff(&out[i], &exp[i])
        } else {
            String::new()
        };
        panic!(
            "token streams differ at {} (lens {} vs {})\n  actual: {}\nexpected: {}\ndetail: {}\n",
            i,
            out.len(),
            exp.len(),
            window(&out, i),
            window(&exp, i),
            detail
        );
    }
}

#[test]
fn tree_test_flatten_all() {
    check(
        "pub(crate) fn first<'a>(text: &'a str, uuid: Uuid).second<T>(n: &'a mut T).third(l: usize) -> i64 { compose(l, uuid, combine(text, n)) }",
        "#[inline] pub (crate) fn first < 'a > (text : & 'a str , uuid : Uuid) -> first :: Output :: < 'a > {
            first :: Output :: < 'a > { text , uuid , }
        }
        # [doc = \"Intermediary module for partial method chain [`first`](fn@first)`(…).…`\"]
        # [doc = \"\"]
        # [doc = \"Following method chains are supported:\"]
        # [doc = \"- [`first`](fn@first)`(…).`[`second`](method@first::Output::second)`(…).`[`third`](method@first::second::Output::third)`(…)`\"]
        pub (crate) mod first {
            # ! [allow (unused_imports)]
            use super :: * ;
            # [doc = \"Intermediary type returned by partial method chain [`first`](fn@super::first)`(…).…`\"]
            pub struct Output < 'a > {
                pub (super) text : & 'a str ,
                pub (super) uuid : Uuid ,
            }
            impl < 'a > Output < 'a > {
                # [inline] pub fn second < T > (self , n : & 'a mut T) -> second :: Output :: < 'a , T > {
                    let text = self . text ;
                    let uuid = self . uuid ;
                    second :: Output :: < 'a , T > { text , uuid , n , }
                }
            }
            # [doc = \"Intermediary module for partial method chain [`first`](fn@super::first)`(…).`[`second`](method@Output::second)`(…).…`\"]
            # [doc = \"\"]
            # [doc = \"Following method chains are supported:\"]
            # [doc = \"- [`first`](fn@super::first)`(…).`[`second`](method@Output::second)`(…).`[`third`](method@second::Output::third)`(…)`\"]
            pub mod second {
                # ! [allow (unused_imports)]
                use super :: * ;
                # [doc = \"Intermediary type returned by partial method chain [`first`](fn@super::super::first)`(…).`[`second`](method@super::Output::second)`(…).…`\"]
                pub struct Output < 'a , T > {
                    pub (super) text : & 'a str ,
                    pub (super) uuid : Uuid ,
                    pub (super) n : & 'a mut T ,
                }
                impl < 'a , T > Output < 'a , T > {
                    pub fn third (self , l : usize) -> i64 {
                        let n = self . n ;
                        let text = self . text ;
                        let uuid = self . uuid ;
                        compose (l , uuid , combine (text , n))
                    }
                }
            }
        }",
    );
}

#[test]
fn flattening_test_flatten_all() {
    let toks = lex(
        "pub(crate) fn first<'a>(text: &'a str, uuid: Uuid).second<T>(n: &'a mut T).third(l: usize) -> i64 { compose(l, uuid, combine(text, n)) }",
    )
    .expect("input should lex");
    let out = transform(&toks).expect("Should not have failed");
    let text = tokens_to_text(&out);
    assert!(text.contains("pub (crate) fn first"));
    assert!(text.contains("pub (crate) mod first"));
    assert!(text.contains("second :: Output :: < 'a , T > { text , uuid , n , }"));
    assert!(text.contains("compose (l , uuid , combine (text , n))"));
}

#[test]
fn verify_generic_implementations_with_where_clause() {
    check(
        "impl<T> DoubleWhere<T> where T: Debug {
            pub fn consider<'a>(x: &'a T).as_well_as<U>(y: &'a U).and_display_them() -> String where U: Debug {
                format!(\"x:{:?}, y:{:?}\", x, y)
            }
        }",
        "#[doc = \"Intermediary module for partial method chain [`DoubleWhere`]`::`[`consider`](method@DoubleWhere::consider)`(…).…`\"]
        #[doc = \"\"]
        #[doc = \"Following method chains are supported:\"]
        #[doc = \"- [`DoubleWhere`]`::`[`consider`](method@DoubleWhere::consider)`(…).`[`as_well_as`](method@consider::Output::as_well_as)`(…).`[`and_display_them`](method@consider::as_well_as::Output::and_display_them)`(…)`\"]
        pub mod consider {
            # ! [allow(unused_imports)] use super :: * ;
            #[doc = \"Intermediary type returned by partial method chain [`DoubleWhere`]`::`[`consider`](method@super::DoubleWhere::consider)`(…).…`\"]
            pub struct Output < 'a, T > where T : Debug { pub(super) x : & 'a T, }
            impl < 'a, T > Output < 'a, T > where T : Debug {
                #[inline]
                pub fn as_well_as < U > (self, y : & 'a U) -> as_well_as :: Output :: < 'a, T, U > {
                    let x = self.x;
                    as_well_as :: Output :: < 'a, T, U > { x, y, }
                }
            }
            #[doc = \"Intermediary module for partial method chain [`DoubleWhere`]`::`[`consider`](method@super::DoubleWhere::consider)`(…).`[`as_well_as`](method@Output::as_well_as)`(…).…`\"]
            #[doc = \"\"]
            #[doc = \"Following method chains are supported:\"]
            #[doc = \"- [`DoubleWhere`]`::`[`consider`](method@super::DoubleWhere::consider)`(…).`[`as_well_as`](method@Output::as_well_as)`(…).`[`and_display_them`](method@as_well_as::Output::and_display_them)`(…)`\"]
            pub mod as_well_as {
                # ! [allow(unused_imports)] use super :: * ;
                #[doc = \"Intermediary type returned by partial method chain [`DoubleWhere`]`::`[`consider`](method@super::super::DoubleWhere::consider)`(…).`[`as_well_as`](method@super::Output::as_well_as)`(…).…`\"]
                pub struct Output < 'a, T, U > where T : Debug {
                    pub(super) x : & 'a T,
                    pub(super) y : & 'a U,
                }
                impl < 'a, T, U > Output < 'a, T, U > where T : Debug {
                    pub fn and_display_them(self,) -> String where U : Debug {
                        let y = self.y; let x = self.x;
                        format! (\"x:{:?}, y:{:?}\", x, y)
                    }
                }
            }
        }
        impl < T > DoubleWhere < T > where T : Debug {
            #[inline]
            pub fn consider < 'a > (x : & 'a T) -> consider :: Output :: < 'a, T > {
                consider :: Output :: < 'a, T > { x, }
            }
        }",
    );
}

#[test]
fn verify_generic_implementations_with_self_receiver() {
    check(
        "impl<T> MyVec<T> where T: Debug {
            pub fn take_at_most<'a>(&'a self, n: usize)
                .comparing_to<'b, U>(other: &'b MyVec<U>)
                .applying(f: impl Fn(&T, &U) -> bool) -> bool
            {
                let m = std::cmp::min(std::cmp::min(self_._inner.len(), other._inner.len()), n);
                for i in 0..m {
                    if !f(&self_._inner[i], &other._inner[i]) { return false }
                }
                true
            }
        }",
        "#[doc = \"Intermediary module for partial method chain [`MyVec`]`::`[`take_at_most`](method@MyVec::take_at_most)`(…).…`\"]
        #[doc = \"\"]
        #[doc = \"Following method chains are supported:\"]
        #[doc = \"- [`MyVec`]`::`[`take_at_most`](method@MyVec::take_at_most)`(…).`[`comparing_to`](method@take_at_most::Output::comparing_to)`(…).`[`applying`](method@take_at_most::comparing_to::Output::applying)`(…)`\"]
        pub mod take_at_most {
            # ! [allow(unused_imports)]
            use super :: * ;
            #[doc = \"Intermediary type returned by partial method chain [`MyVec`]`::`[`take_at_most`](method@super::MyVec::take_at_most)`(…).…`\"]
            pub struct Output < 'a, T > where T : Debug {
                pub(super) self_ : & 'a MyVec < T > ,
                pub(super) n : usize,
            }
            impl < 'a, T > Output < 'a, T > where T : Debug {
                #[inline]
                pub fn comparing_to < 'b, U > (self, other : & 'b MyVec < U >) -> comparing_to :: Output :: < 'a, 'b, T, U > {
                    let self_ = self.self_;
                    let n = self.n;
                    comparing_to :: Output :: < 'a, 'b, T, U > { self_, n, other, }
                }
            }
            #[doc = \"Intermediary module for partial method chain [`MyVec`]`::`[`take_at_most`](method@super::MyVec::take_at_most)`(…).`[`comparing_to`](method@Output::comparing_to)`(…).…`\"]
            #[doc = \"\"]
            #[doc = \"Following method chains are supported:\"]
            #[doc = \"- [`MyVec`]`::`[`take_at_most`](method@super::MyVec::take_at_most)`(…).`[`comparing_to`](method@Output::comparing_to)`(…).`[`applying`](method@comparing_to::Output::applying)`(…)`\"]
            pub mod comparing_to {
                # ! [allow(unused_imports)]
                use super :: * ;
                #[doc = \"Intermediary type returned by partial method chain [`MyVec`]`::`[`take_at_most`](method@super::super::MyVec::take_at_most)`(…).`[`comparing_to`](method@super::Output::comparing_to)`(…).…`\"]
                pub struct Output < 'a, 'b, T, U > where T : Debug {
                    pub(super) self_ : & 'a MyVec < T > ,
                    pub(super) n : usize,
                    pub(super) other : & 'b MyVec < U > ,
                }
                impl < 'a, 'b, T, U > Output < 'a, 'b, T, U > where T : Debug {
                    pub fn applying(self, f : impl Fn(& T, & U) -> bool) -> bool where T : Debug {
                        let other = self.other;
                        let self_ = self.self_;
                        let n = self.n;
                        let m = std :: cmp :: min(std::cmp::min(self_._inner.len(), other._inner.len()), n);
                        for i in 0 .. m {
                            if !f(&self_._inner[i], &other._inner[i]) { return false }
                        }
                        true
                    }
                }
            }
        }
        impl < T > MyVec < T > where T : Debug {
            #[inline]
            pub fn take_at_most < 'a > (& 'a self, n : usize) -> take_at_most :: Output :: < 'a, T > {
                take_at_most :: Output :: < 'a, T > { self_ : self, n, }
            }
        }",
    );
}

#[test]
fn construction_test_document_implementations() {
    check(
        "/// Provide url
///---
/// Provide user agent
///---
/// Provide authorization
///---
/// Should not appear
fn new_http_request_to(url: Uri)
    .from<'a>(user_agent: &'a str)
    .with_authorization(authorization: HttpAuthorization).{

    /// Create get request
    ///---
    /// Should not appear
    fn as_get() -> GetHttpRequest {
        GetHttpRequest {
            url,
            user_agent: user_agent.to_string(),
            authorization,
        }
    }

    /// Create post request
    ///---
    /// Should not appear
    fn as_post().{
        /// provide string body
        fn with_text(body: String) -> PostHttpRequest {
            PostHttpRequest {
                url,
                user_agent: user_agent.to_string(),
                authorization,
                body: HttpBody::Text(body),
            }
        }

        /// provide json body
        fn with_json(json: JsonValue) -> PostHttpRequest {
            PostHttpRequest {
                url,
                user_agent: user_agent.to_string(),
                authorization,
                body: HttpBody::Json(json),
            }
        }
    }
}",
        "#[doc = \" Provide url\"]
        #[inline]
        fn new_http_request_to(url : Uri) -> new_http_request_to :: Output {
            new_http_request_to :: Output { url, }
        }
        #[doc = \"Intermediary module for partial method chain [`new_http_request_to`](fn@new_http_request_to)`(…).…`\"]
        #[doc = \"\"] #[doc = \"Following method chains are supported:\"]
        #[doc = \"- [`new_http_request_to`](fn@new_http_request_to)`(…).`[`from`](method@new_http_request_to::Output::from)`(…).`[`with_authorization`](method@new_http_request_to::from::Output::with_authorization)`(…).`[`as_get`](method@new_http_request_to::from::with_authorization::Output::as_get)`(…)`\"]
        #[doc = \"- [`new_http_request_to`](fn@new_http_request_to)`(…).`[`from`](method@new_http_request_to::Output::from)`(…).`[`with_authorization`](method@new_http_request_to::from::Output::with_authorization)`(…).`[`as_post`](method@new_http_request_to::from::with_authorization::Output::as_post)`(…).`[`with_text`](method@new_http_request_to::from::with_authorization::as_post::Output::with_text)`(…)`\"]
        #[doc = \"- [`new_http_request_to`](fn@new_http_request_to)`(…).`[`from`](method@new_http_request_to::Output::from)`(…).`[`with_authorization`](method@new_http_request_to::from::Output::with_authorization)`(…).`[`as_post`](method@new_http_request_to::from::with_authorization::Output::as_post)`(…).`[`with_json`](method@new_http_request_to::from::with_authorization::as_post::Output::with_json)`(…)`\"]
        mod new_http_request_to {
            # ! [allow(unused_imports)]
            use super :: * ;
            #[doc = \"Intermediary type returned by partial method chain [`new_http_request_to`](fn@super::new_http_request_to)`(…).…`\"]
            pub struct Output { pub(super) url : Uri, }
            impl Output {
                #[doc = \" Provide user agent\"]
                #[inline]
                pub fn from < 'a > (self, user_agent : & 'a str) -> from :: Output :: < 'a > {
                    let url = self.url;
                    from :: Output :: < 'a > { url, user_agent, }
                }
            }
            #[doc = \"Intermediary module for partial method chain [`new_http_request_to`](fn@super::new_http_request_to)`(…).`[`from`](method@Output::from)`(…).…`\"]
            #[doc = \"\"]
            #[doc = \"Following method chains are supported:\"]
            #[doc = \"- [`new_http_request_to`](fn@super::new_http_request_to)`(…).`[`from`](method@Output::from)`(…).`[`with_authorization`](method@from::Output::with_authorization)`(…).`[`as_get`](method@from::with_authorization::Output::as_get)`(…)`\"]
            #[doc = \"- [`new_http_request_to`](fn@super::new_http_request_to)`(…).`[`from`](method@Output::from)`(…).`[`with_authorization`](method@from::Output::with_authorization)`(…).`[`as_post`](method@from::with_authorization::Output::as_post)`(…).`[`with_text`](method@from::with_authorization::as_post::Output::with_text)`(…)`\"]
            #[doc = \"- [`new_http_request_to`](fn@super::new_http_request_to)`(…).`[`from`](method@Output::from)`(…).`[`with_authorization`](method@from::Output::with_authorization)`(…).`[`as_post`](method@from::with_authorization::Output::as_post)`(…).`[`with_json`](method@from::with_authorization::as_post::Output::with_json)`(…)`\"]
            pub mod from {
                # ! [allow(unused_imports)]
                use super :: * ;
                #[doc = \"Intermediary type returned by partial method chain [`new_http_request_to`](fn@super::super::new_http_request_to)`(…).`[`from`](method@super::Output::from)`(…).…`\"]
                pub struct Output < 'a > {
                    pub(super) url : Uri,
                    pub(super) user_agent : & 'a str,
                }
                impl < 'a > Output < 'a > {
                    #[doc = \" Provide authorization\"]
                    #[inline]
                    pub fn with_authorization(self, authorization : HttpAuthorization) -> with_authorization :: Output :: < 'a > {
                        let user_agent = self.user_agent; let url = self.url;
                        with_authorization :: Output :: < 'a > { url, user_agent, authorization, }
                    }
                }
                #[doc = \"Intermediary module for partial method chain [`new_http_request_to`](fn@super::super::new_http_request_to)`(…).`[`from`](method@super::Output::from)`(…).`[`with_authorization`](method@Output::with_authorization)`(…).…`\"]
                #[doc = \"\"]
                #[doc = \"Following method chains are supported:\"]
                #[doc = \"- [`new_http_request_to`](fn@super::super::new_http_request_to)`(…).`[`from`](method@super::Output::from)`(…).`[`with_authorization`](method@Output::with_authorization)`(…).`[`as_get`](method@with_authorization::Output::as_get)`(…)`\"]
                #[doc = \"- [`new_http_request_to`](fn@super::super::new_http_request_to)`(…).`[`from`](method@super::Output::from)`(…).`[`with_authorization`](method@Output::with_authorization)`(…).`[`as_post`](method@with_authorization::Output::as_post)`(…).`[`with_text`](method@with_authorization::as_post::Output::with_text)`(…)`\"]
                #[doc = \"- [`new_http_request_to`](fn@super::super::new_http_request_to)`(…).`[`from`](method@super::Output::from)`(…).`[`with_authorization`](method@Output::with_authorization)`(…).`[`as_post`](method@with_authorization::Output::as_post)`(…).`[`with_json`](method@with_authorization::as_post::Output::with_json)`(…)`\"]
                pub mod with_authorization {
                    # ! [allow(unused_imports)] use super :: * ;
                    #[doc = \"Intermediary type returned by partial method chain [`new_http_request_to`](fn@super::super::super::new_http_request_to)`(…).`[`from`](method@super::super::Output::from)`(…).`[`with_authorization`](method@super::Output::with_authorization)`(…).…`\"]
                    pub struct Output < 'a > {
                        pub(super) url : Uri,
                        pub(super) user_agent : & 'a str,
                        pub(super) authorization : HttpAuthorization,
                    }
                    impl < 'a > Output < 'a > {
                        #[doc = \" Create get request\"]
                        pub fn as_get(self,) -> GetHttpRequest {
                            let authorization = self.authorization;
                            let user_agent = self.user_agent;
                            let url = self.url;
                            GetHttpRequest { url, user_agent: user_agent.to_string(), authorization, }
                        }
                        #[doc = \" Create post request\"]
                        #[inline]
                        pub fn as_post(self,) -> as_post :: Output :: < 'a > {
                            let authorization = self.authorization;
                            let user_agent = self.user_agent;
                            let url = self.url;
                            as_post :: Output :: < 'a > { url, user_agent, authorization, }
                        }
                    }
                    #[doc = \"Intermediary module for partial method chain [`new_http_request_to`](fn@super::super::super::new_http_request_to)`(…).`[`from`](method@super::super::Output::from)`(…).`[`with_authorization`](method@super::Output::with_authorization)`(…).`[`as_post`](method@Output::as_post)`(…).…`\"]
                    #[doc = \"\"]
                    #[doc = \"Following method chains are supported:\"]
                    #[doc = \"- [`new_http_request_to`](fn@super::super::super::new_http_request_to)`(…).`[`from`](method@super::super::Output::from)`(…).`[`with_authorization`](method@super::Output::with_authorization)`(…).`[`as_post`](method@Output::as_post)`(…).`[`with_text`](method@as_post::Output::with_text)`(…)`\"]
                    #[doc = \"- [`new_http_request_to`](fn@super::super::super::new_http_request_to)`(…).`[`from`](method@super::super::Output::from)`(…).`[`with_authorization`](method@super::Output::with_authorization)`(…).`[`as_post`](method@Output::as_post)`(…).`[`with_json`](method@as_post::Output::with_json)`(…)`\"]
                    pub mod as_post {
                        # ! [allow(unused_imports)]
                        use super :: * ;
                        #[doc = \"Intermediary type returned by partial method chain [`new_http_request_to`](fn@super::super::super::super::new_http_request_to)`(…).`[`from`](method@super::super::super::Output::from)`(…).`[`with_authorization`](method@super::super::Output::with_authorization)`(…).`[`as_post`](method@super::Output::as_post)`(…).…`\"]
                        pub struct Output < 'a > {
                            pub(super) url : Uri,
                            pub(super) user_agent : & 'a str,
                            pub(super) authorization : HttpAuthorization,
                        }
                        impl < 'a > Output < 'a > {
                            #[doc = \" provide string body\"]
                            pub fn with_text(self, body : String) -> PostHttpRequest {
                                let authorization = self.authorization;
                                let user_agent = self.user_agent;
                                let url = self.url;
                                PostHttpRequest {
                                    url,
                                    user_agent: user_agent.to_string(),
                                    authorization,
                                    body: HttpBody::Text(body),
                                }
                            }
                            #[doc = \" provide json body\"]
                            pub fn with_json(self, json : JsonValue) -> PostHttpRequest {
                                let authorization = self.authorization;
                                let user_agent = self.user_agent;
                                let url = self.url;
                                PostHttpRequest {
                                    url,
                                    user_agent: user_agent.to_string(),
                                    authorization,
                                    body: HttpBody::Json(json),
                                }
                            }
                        }
                    }
                }
            }
        }",
    );
}

#[test]
fn convert_method_chain_for_multi_ptr() {
    check(
        "pub fn mutli_ptr_with<'a, T>(ptr1: &'a T).and<'b, U>(ptr2: &'b U) -> MultiPtr<'a, 'b, T, U>
        {
            MultiPtr { ptr1, ptr2 }
        }",
        "#[inline] pub fn mutli_ptr_with < 'a , T > (ptr1 : &'a T) -> mutli_ptr_with :: Output :: < 'a , T > {
            mutli_ptr_with :: Output :: < 'a , T > { ptr1 , }
        }
        # [doc = \"Intermediary module for partial method chain [`mutli_ptr_with`](fn@mutli_ptr_with)`(…).…`\"]
        # [doc = \"\"]
        # [doc = \"Following method chains are supported:\"]
        # [doc = \"- [`mutli_ptr_with`](fn@mutli_ptr_with)`(…).`[`and`](method@mutli_ptr_with::Output::and)`(…)`\"]
        pub mod mutli_ptr_with {
            # ! [allow (unused_imports)]
            use super :: * ;
            # [doc = \"Intermediary type returned by partial method chain [`mutli_ptr_with`](fn@super::mutli_ptr_with)`(…).…`\"]
            pub struct Output < 'a , T > { pub (super) ptr1 : &'a T , }
            impl < 'a , T > Output < 'a , T > {
                pub fn and < 'b , U > (self , ptr2 : &'b U) -> MultiPtr < 'a , 'b , T , U > {
                    let ptr1 = self . ptr1 ;
                    MultiPtr { ptr1 , ptr2 }
                }
            }
        }",
    );
}

#[test]
fn convert_method_chain_for_multi_ptr_in_3_steps() {
    check(
        "pub fn mutli_ptr_with<'a, T>(ptr1: &'a T)
            .and<'b, U>(ptr2: &'b U)
            .closed() -> MultiPtr<'a, 'b, T, U>
        {
            MultiPtr { ptr1, ptr2 }
        }",
        "#[inline] pub fn mutli_ptr_with < 'a , T > (ptr1 : &'a T) -> mutli_ptr_with :: Output :: < 'a , T > {
            mutli_ptr_with :: Output :: < 'a , T > { ptr1 , }
        }
        # [doc = \"Intermediary module for partial method chain [`mutli_ptr_with`](fn@mutli_ptr_with)`(…).…`\"]
        # [doc = \"\"]
        # [doc = \"Following method chains are supported:\"]
        # [doc = \"- [`mutli_ptr_with`](fn@mutli_ptr_with)`(…).`[`and`](method@mutli_ptr_with::Output::and)`(…).`[`closed`](method@mutli_ptr_with::and::Output::closed)`(…)`\"]
        pub mod mutli_ptr_with {
            # ! [allow (unused_imports)]
            use super :: * ;
            # [doc = \"Intermediary type returned by partial method chain [`mutli_ptr_with`](fn@super::mutli_ptr_with)`(…).…`\"]
            pub struct Output < 'a , T > { pub (super) ptr1 : &'a T , }
            impl < 'a , T > Output < 'a , T > {
                # [inline] pub fn and < 'b , U > (self , ptr2 : &'b U) -> and :: Output :: < 'a , 'b , T , U > {
                    let ptr1 = self . ptr1 ;
                    and :: Output :: < 'a , 'b , T , U > { ptr1 , ptr2 , }
                }
            }
            # [doc = \"Intermediary module for partial method chain [`mutli_ptr_with`](fn@super::mutli_ptr_with)`(…).`[`and`](method@Output::and)`(…).…`\"]
            # [doc = \"\"]
            # [doc = \"Following method chains are supported:\"]
            # [doc = \"- [`mutli_ptr_with`](fn@super::mutli_ptr_with)`(…).`[`and`](method@Output::and)`(…).`[`closed`](method@and::Output::closed)`(…)`\"]
            pub mod and {
                # ! [allow (unused_imports)]
                use super :: * ;
                # [doc = \"Intermediary type returned by partial method chain [`mutli_ptr_with`](fn@super::super::mutli_ptr_with)`(…).`[`and`](method@super::Output::and)`(…).…`\"]
                pub struct Output < 'a , 'b , T , U > {
                    pub (super) ptr1 : &'a T ,
                    pub (super) ptr2 : &'b U ,
                }
                impl < 'a , 'b , T , U > Output < 'a , 'b , T , U > {
                    pub fn closed (self ,) -> MultiPtr < 'a , 'b , T , U > {
                        let ptr2 = self . ptr2 ;
                        let ptr1 = self . ptr1 ;
                        MultiPtr { ptr1 , ptr2 }
                    }
                }
            }
        }",
    );
}

#[test]
fn convert_method_chain_with_two_double_references() {
    check(
        "fn swap<'a, 'x, T>(item1: &'a mut &'x T).with<'b>(item2: &'b mut &'x T) {
            let i1 = *item1;
            *item1 = *item2;
            *item2 = i1;
        }",
        "#[inline] fn swap < 'a , 'x , T > (item1 : &'a mut &'x T) -> swap :: Output :: < 'a , 'x , T > {
            swap :: Output :: < 'a , 'x , T > { item1 , }
        }
        # [doc = \"Intermediary module for partial method chain [`swap`](fn@swap)`(…).…`\"]
        # [doc = \"\"]
        # [doc = \"Following method chains are supported:\"]
        # [doc = \"- [`swap`](fn@swap)`(…).`[`with`](method@swap::Output::with)`(…)`\"]
        mod swap {
            # ! [allow (unused_imports)]
            use super :: * ;
            # [doc = \"Intermediary type returned by partial method chain [`swap`](fn@super::swap)`(…).…`\"]
            pub struct Output < 'a , 'x , T > { pub (super) item1 : &'a mut &'x T , }
            impl < 'a , 'x , T > Output < 'a , 'x , T > {
                pub fn with < 'b > (self , item2 : &'b mut &'x T) {
                    let item1 = self . item1 ;
                    let i1 = *item1;
                    *item1 = *item2;
                    *item2 = i1;
                }
            }
        }",
    );
}

#[test]
fn convert_method_chain() {
    check(
        "fn define_movie(name: String)
            .released_in(release_year: usize)
            .directed_by(director_name: String) -> crate::Movie
        {
            crate::Movie { name, release_year, director_name }
        }

        fn f(i: usize) -> usize {
            i + 5
        }",
        "#[inline] fn define_movie (name : String) -> define_movie :: Output {
            define_movie :: Output { name , }
        }
        # [doc = \"Intermediary module for partial method chain [`define_movie`](fn@define_movie)`(…).…`\"]
        # [doc = \"\"]
        # [doc = \"Following method chains are supported:\"]
        # [doc = \"- [`define_movie`](fn@define_movie)`(…).`[`released_in`](method@define_movie::Output::released_in)`(…).`[`directed_by`](method@define_movie::released_in::Output::directed_by)`(…)`\"]
        mod define_movie {
            # ! [allow (unused_imports)]
            use super :: * ;
            # [doc = \"Intermediary type returned by partial method chain [`define_movie`](fn@super::define_movie)`(…).…`\"]
            pub struct Output { pub (super) name : String , }
            impl Output {
                # [inline] pub fn released_in (self , release_year : usize) -> released_in :: Output {
                    let name = self . name ;
                    released_in :: Output { name , release_year , }
                }
            }
            # [doc = \"Intermediary module for partial method chain [`define_movie`](fn@super::define_movie)`(…).`[`released_in`](method@Output::released_in)`(…).…`\"]
            # [doc = \"\"]
            # [doc = \"Following method chains are supported:\"]
            # [doc = \"- [`define_movie`](fn@super::define_movie)`(…).`[`released_in`](method@Output::released_in)`(…).`[`directed_by`](method@released_in::Output::directed_by)`(…)`\"]
            pub mod released_in {
                # ! [allow (unused_imports)]
                use super :: * ;
                # [doc = \"Intermediary type returned by partial method chain [`define_movie`](fn@super::super::define_movie)`(…).`[`released_in`](method@super::Output::released_in)`(…).…`\"]
                pub struct Output {
                    pub (super) name : String ,
                    pub (super) release_year : usize ,
                }
                impl Output {
                    pub fn directed_by (self , director_name : String) -> crate :: Movie {
                        let release_year = self . release_year ;
                        let name = self . name ;
                        crate :: Movie { name , release_year , director_name }
                    }
                }
            }
        }
        fn f (i : usize) -> usize {
            i + 5
        }",
    );
}

#[test]
fn convert_method_alternative() {
    check(
        "#[doc(alias = \"docs\")]
        pub(crate) fn define_movie(name: String).released_in(release_year: usize).{
            fn directed_by(director_name: String) -> crate::Movie {
                crate::Movie { name, release_year, director_name }
            }
            fn directed_by_me() -> crate::Movie {
                crate::Movie { name, release_year, director_name: \"me\".to_string() }
            }
        }",
        "#[inline] # [doc (alias = \"docs\")] pub (crate) fn define_movie (name : String) -> define_movie :: Output {
            define_movie :: Output { name , }
        }
        # [doc = \"Intermediary module for partial method chain [`define_movie`](fn@define_movie)`(…).…`\"]
        # [doc = \"\"]
        # [doc = \"Following method chains are supported:\"]
        # [doc = \"- [`define_movie`](fn@define_movie)`(…).`[`released_in`](method@define_movie::Output::released_in)`(…).`[`directed_by`](method@define_movie::released_in::Output::directed_by)`(…)`\"]
        # [doc = \"- [`define_movie`](fn@define_movie)`(…).`[`released_in`](method@define_movie::Output::released_in)`(…).`[`directed_by_me`](method@define_movie::released_in::Output::directed_by_me)`(…)`\"]
        # [doc (alias = \"docs\")] pub (crate) mod define_movie {
            # ! [allow (unused_imports)]
            use super :: * ;
            # [doc = \"Intermediary type returned by partial method chain [`define_movie`](fn@super::define_movie)`(…).…`\"]
            pub struct Output { pub (super) name : String , }
            impl Output {
                # [inline] pub fn released_in (self , release_year : usize) -> released_in :: Output {
                    let name = self . name ;
                    released_in :: Output { name , release_year , }
                }
            }
            # [doc = \"Intermediary module for partial method chain [`define_movie`](fn@super::define_movie)`(…).`[`released_in`](method@Output::released_in)`(…).…`\"]
            # [doc = \"\"]
            # [doc = \"Following method chains are supported:\"]
            # [doc = \"- [`define_movie`](fn@super::define_movie)`(…).`[`released_in`](method@Output::released_in)`(…).`[`directed_by`](method@released_in::Output::directed_by)`(…)`\"]
            # [doc = \"- [`define_movie`](fn@super::define_movie)`(…).`[`released_in`](method@Output::released_in)`(…).`[`directed_by_me`](method@released_in::Output::directed_by_me)`(…)`\"]
            pub mod released_in {
                # ! [allow (unused_imports)]
                use super :: * ;
                # [doc = \"Intermediary type returned by partial method chain [`define_movie`](fn@super::super::define_movie)`(…).`[`released_in`](method@super::Output::released_in)`(…).…`\"]
                pub struct Output {
                    pub (super) name : String ,
                    pub (super) release_year : usize ,
                }
                impl Output {
                    pub fn directed_by (self , director_name : String) -> crate :: Movie {
                        let release_year = self . release_year ;
                        let name = self . name ;
                        crate :: Movie { name , release_year , director_name }
                    }
                    pub fn directed_by_me (self ,) -> crate :: Movie {
                        let release_year = self . release_year ;
                        let name = self . name ;
                        crate :: Movie { name , release_year , director_name : \"me\" . to_string () }
                    }
                }
            }
        }",
    );
}

#[test]
fn convert_method_chain_for_movies() {
    check(
        "fn define_movie<'a>(name: &'a str)
            .released_in(release_year: usize)
            .directed_by(director_name: &'a str) -> Movie
        {
            Movie {
                name: name.to_string(),
                release_year,
                director_name: director_name.to_string(),
            }
        }

        fn f(i: usize) -> usize {
            i + 5
        }",
        "#[inline] fn define_movie < 'a > (name : &'a str) -> define_movie :: Output :: < 'a > {
            define_movie :: Output :: < 'a > { name , }
        }
        # [doc = \"Intermediary module for partial method chain [`define_movie`](fn@define_movie)`(…).…`\"]
        # [doc = \"\"]
        # [doc = \"Following method chains are supported:\"]
        # [doc = \"- [`define_movie`](fn@define_movie)`(…).`[`released_in`](method@define_movie::Output::released_in)`(…).`[`directed_by`](method@define_movie::released_in::Output::directed_by)`(…)`\"]
        mod define_movie {
            # ! [allow (unused_imports)]
            use super :: * ;
            # [doc = \"Intermediary type returned by partial method chain [`define_movie`](fn@super::define_movie)`(…).…`\"]
            pub struct Output < 'a > { pub (super) name : &'a str , }
            impl < 'a > Output < 'a > {
                # [inline] pub fn released_in (self , release_year : usize) -> released_in :: Output :: < 'a > {
                    let name = self . name ;
                    released_in :: Output :: < 'a > { name , release_year , }
                }
            }
            # [doc = \"Intermediary module for partial method chain [`define_movie`](fn@super::define_movie)`(…).`[`released_in`](method@Output::released_in)`(…).…`\"]
            # [doc = \"\"]
            # [doc = \"Following method chains are supported:\"]
            # [doc = \"- [`define_movie`](fn@super::define_movie)`(…).`[`released_in`](method@Output::released_in)`(…).`[`directed_by`](method@released_in::Output::directed_by)`(…)`\"]
            pub mod released_in {
                # ! [allow (unused_imports)]
                use super :: * ;
                # [doc = \"Intermediary type returned by partial method chain [`define_movie`](fn@super::super::define_movie)`(…).`[`released_in`](method@super::Output::released_in)`(…).…`\"]
                pub struct Output < 'a > {
                    pub (super) name : &'a str ,
                    pub (super) release_year : usize ,
                }
                impl < 'a > Output < 'a > {
                    pub fn directed_by (self , director_name : &'a str) -> Movie {
                        let release_year = self . release_year ;
                        let name = self . name ;
                        Movie {
                            name : name . to_string () ,
                            release_year ,
                            director_name : director_name . to_string () ,
                        }
                    }
                }
            }
        }
        fn f (i : usize) -> usize {
            i + 5
        }",
    );
}

#[test]
fn assemblists_test_convert_method_chain_for_movies() {
    let actual = expand(
        "fn define_movie<'a>(name: &'a str)
            .released_in(release_year: usize)
            .directed_by(director_name: &'a str) -> Movie
        {
            Movie {
                name: name.to_string(),
                release_year,
                director_name: director_name.to_string(),
            }
        }

        fn f(i: usize) -> usize {
            i + 5
        }",
    );
    assert!(actual.contains("fn define_movie < 'a > (name : &'a str) -> define_movie :: Output :: < 'a >"));
    assert!(actual.contains("pub fn released_in (self , release_year : usize) -> released_in :: Output :: < 'a >"));
    assert!(actual.contains("pub fn directed_by (self , director_name : &'a str) -> Movie"));
    assert!(actual.contains("fn f (i : usize) -> usize { i + 5 }"));
}

#[test]
fn decompose_implementations() {
    check(
        "impl Calculation {
            fn add(a: isize).to(b: isize) -> isize { a + b }
            fn remove(a: isize).from(b: isize) -> isize { a - b }
        }
        impl StringHandling {
            fn concat<'a>(a: &'a str).{
                fn with(b: &'a str) -> String {
                    let mut result = String::new();
                    result.push_str(a);
                    result.push_str(b);
                    result
                }
                fn with_int(b: isize) -> String {
                    let mut result = String::new();
                    result.push_str(a);
                    result.push_str(format!(\"{}\", b).as_str());
                    result
                }
            }
        }",
        "# [doc = \"Intermediary module for partial method chain [`Calculation`]`::`[`add`](method@Calculation::add)`(…).…`\"]
        # [doc = \"\"]
        # [doc = \"Following method chains are supported:\"]
        # [doc = \"- [`Calculation`]`::`[`add`](method@Calculation::add)`(…).`[`to`](method@add::Output::to)`(…)`\"]
        mod add {
            # ! [allow (unused_imports)]
            use super :: * ;
            # [doc = \"Intermediary type returned by partial method chain [`Calculation`]`::`[`add`](method@super::Calculation::add)`(…).…`\"]
            pub struct Output { pub (super) a : isize , }
            impl Output {
                pub fn to (self , b : isize) -> isize { let a = self . a ; a + b }
            }
        }
        # [doc = \"Intermediary module for partial method chain [`Calculation`]`::`[`remove`](method@Calculation::remove)`(…).…`\"]
        # [doc = \"\"]
        # [doc = \"Following method chains are supported:\"]
        # [doc = \"- [`Calculation`]`::`[`remove`](method@Calculation::remove)`(…).`[`from`](method@remove::Output::from)`(…)`\"]
        mod remove {
            # ! [allow (unused_imports)]
            use super :: * ;
            # [doc = \"Intermediary type returned by partial method chain [`Calculation`]`::`[`remove`](method@super::Calculation::remove)`(…).…`\"]
            pub struct Output { pub (super) a : isize , }
            impl Output {
                pub fn from (self , b : isize) -> isize { let a = self . a ; a - b }
            }
        }
        impl Calculation {
            # [inline] fn add (a : isize) -> add :: Output { add :: Output { a , } }
            # [inline] fn remove (a : isize) -> remove :: Output { remove :: Output { a , } }
        }
        # [doc = \"Intermediary module for partial method chain [`StringHandling`]`::`[`concat`](method@StringHandling::concat)`(…).…`\"]
        # [doc = \"\"]
        # [doc = \"Following method chains are supported:\"]
        # [doc = \"- [`StringHandling`]`::`[`concat`](method@StringHandling::concat)`(…).`[`with`](method@concat::Output::with)`(…)`\"]
        # [doc = \"- [`StringHandling`]`::`[`concat`](method@StringHandling::concat)`(…).`[`with_int`](method@concat::Output::with_int)`(…)`\"]
        mod concat {
            # ! [allow (unused_imports)]
            use super :: * ;
            # [doc = \"Intermediary type returned by partial method chain [`StringHandling`]`::`[`concat`](method@super::StringHandling::concat)`(…).…`\"]
            pub struct Output < 'a > { pub (super) a : &'a str , }
            impl < 'a > Output < 'a > {
                pub fn with (self , b : &'a str) -> String {
                    let a = self . a ;
                    let mut result = String :: new () ;
                    result . push_str (a) ;
                    result . push_str (b) ;
                    result
                }
                pub fn with_int (self , b : isize) -> String {
                    let a = self . a ;
                    let mut result = String :: new () ;
                    result . push_str (a) ;
                    result . push_str (format ! (\"{}\" , b) . as_str ()) ;
                    result
                }
            }
        }
        impl StringHandling {
            # [inline] fn concat < 'a > (a : &'a str) -> concat :: Output :: < 'a > { concat :: Output :: < 'a > { a , } }
        }",
    );
}

#[test]
fn decompose_generic_implementations() {
    check(
        "impl<T> VecHandling<T> {
            fn compute_len<'a>(v: &'a Vec<T>).and_return_it() -> usize { v.len() }
        }",
        "# [doc = \"Intermediary module for partial method chain [`VecHandling`]`::`[`compute_len`](method@VecHandling::compute_len)`(…).…`\"]
        # [doc = \"\"]
        # [doc = \"Following method chains are supported:\"]
        # [doc = \"- [`VecHandling`]`::`[`compute_len`](method@VecHandling::compute_len)`(…).`[`and_return_it`](method@compute_len::Output::and_return_it)`(…)`\"]
        mod compute_len {
            # ! [allow (unused_imports)]
            use super :: * ;
            # [doc = \"Intermediary type returned by partial method chain [`VecHandling`]`::`[`compute_len`](method@super::VecHandling::compute_len)`(…).…`\"]
            pub struct Output < 'a , T > { pub (super) v : &'a Vec < T > , }
            impl < 'a , T > Output < 'a , T > {
                pub fn and_return_it (self ,) -> usize { let v = self . v ; v . len () }
            }
        }
        impl < T > VecHandling < T > {
            # [inline] fn compute_len < 'a > (v : &'a Vec < T >) -> compute_len :: Output :: < 'a , T > {
                compute_len :: Output :: < 'a , T > { v , }
            }
        }",
    );
}

#[test]
fn decompose_generic_implementations_with_where_clause() {
    let actual = expand(
        "impl<T> DoubleWhere<T> where T: Debug {
            pub fn consider<'a>(x: &'a T).as_well_as<U>(y: &'a U).and_display_them() -> String where U: Debug {
                format!(\"x:{:?}, y:{:?}\", x, y)
            }
        }",
    );
    assert!(actual.contains("pub fn consider < 'a > (x : &'a T) -> consider :: Output :: < 'a , T >"));
    assert!(actual.contains("pub fn as_well_as < U > (self , y : &'a U) -> as_well_as :: Output :: < 'a , T , U >"));
    assert!(actual.contains("pub fn and_display_them (self ,) -> String where U : Debug"));
    assert!(actual.contains("impl < T > DoubleWhere < T > where T : Debug"));
}

#[test]
fn decompose_generic_implementations_with_self_receiver() {
    check(
        "impl<T> MyVec<T> where T: Debug {
            pub fn take_at_most<'a>(&'a self, n: usize).comparing_to<'b, U>(other: &'b MyVec<U>).applying(f: impl Fn(&T, &U) -> bool) -> bool {
                let m = std::cmp::min(std::cmp::min(self_._inner.len(), other._inner.len()), n);
                for i in 0..m {
                    if !f(&self_._inner[i], &other._inner[i]) { return false }
                }
                true
            }
            pub fn at<'a>(&'a mut self, index: usize).{
                fn insert(element: T) {
                    self_._inner.insert(index, element)
                }
                fn remove() -> T {
                    self_._inner.remove(index)
                }
            }
        }",
        "#[doc = \"Intermediary module for partial method chain [`MyVec`]`::`[`take_at_most`](method@MyVec::take_at_most)`(…).…`\"]
        #[doc = \"\"]
        #[doc = \"Following method chains are supported:\"]
        #[doc = \"- [`MyVec`]`::`[`take_at_most`](method@MyVec::take_at_most)`(…).`[`comparing_to`](method@take_at_most::Output::comparing_to)`(…).`[`applying`](method@take_at_most::comparing_to::Output::applying)`(…)`\"]
        pub mod take_at_most {
            # ! [allow(unused_imports)]
            use super :: * ;
            #[doc = \"Intermediary type returned by partial method chain [`MyVec`]`::`[`take_at_most`](method@super::MyVec::take_at_most)`(…).…`\"]
            pub struct Output < 'a, T > where T : Debug {
                pub(super) self_ : & 'a MyVec < T > ,
                pub(super) n : usize,
            }
            impl < 'a, T > Output < 'a, T > where T : Debug {
                #[inline]
                pub fn comparing_to < 'b, U > (self, other : & 'b MyVec < U >) -> comparing_to :: Output :: < 'a, 'b, T, U > {
                    let self_ = self.self_;
                    let n = self.n;
                    comparing_to :: Output :: < 'a, 'b, T, U > { self_, n, other, }
                }
            }
            #[doc = \"Intermediary module for partial method chain [`MyVec`]`::`[`take_at_most`](method@super::MyVec::take_at_most)`(…).`[`comparing_to`](method@Output::comparing_to)`(…).…`\"]
            #[doc = \"\"]
            #[doc = \"Following method chains are supported:\"]
            #[doc = \"- [`MyVec`]`::`[`take_at_most`](method@super::MyVec::take_at_most)`(…).`[`comparing_to`](method@Output::comparing_to)`(…).`[`applying`](method@comparing_to::Output::applying)`(…)`\"]
            pub mod comparing_to {
                # ! [allow(unused_imports)]
                use super :: * ;
                #[doc = \"Intermediary type returned by partial method chain [`MyVec`]`::`[`take_at_most`](method@super::super::MyVec::take_at_most)`(…).`[`comparing_to`](method@super::Output::comparing_to)`(…).…`\"]
                pub struct Output < 'a, 'b, T, U > where T : Debug {
                    pub(super) self_ : & 'a MyVec < T > ,
                    pub(super) n : usize,
                    pub(super) other : & 'b MyVec < U > ,
                }
                impl < 'a, 'b, T, U > Output < 'a, 'b, T, U > where T : Debug {
                    pub fn applying(self, f : impl Fn(& T, & U) -> bool) -> bool where T : Debug {
                        let other = self.other;
                        let self_ = self.self_;
                        let n = self.n;
                        let m = std :: cmp :: min(std::cmp::min(self_._inner.len(), other._inner.len()), n);
                        for i in 0 .. m {
                            if !f(&self_._inner[i], &other._inner[i]) { return false }
                        }
                        true
                    }
                }
            }
        }
        #[doc = \"Intermediary module for partial method chain [`MyVec`]`::`[`at`](method@MyVec::at)`(…).…`\"]
        #[doc = \"\"]
        #[doc = \"Following method chains are supported:\"]
        #[doc = \"- [`MyVec`]`::`[`at`](method@MyVec::at)`(…).`[`insert`](method@at::Output::insert)`(…)`\"]
        #[doc = \"- [`MyVec`]`::`[`at`](method@MyVec::at)`(…).`[`remove`](method@at::Output::remove)`(…)`\"]
        pub mod at {
            # ! [allow (unused_imports)]
            use super :: * ;
            #[doc = \"Intermediary type returned by partial method chain [`MyVec`]`::`[`at`](method@super::MyVec::at)`(…).…`\"]
            pub struct Output < 'a , T > where T : Debug {
                pub (super) self_ : & 'a mut MyVec < T > ,
                pub (super) index : usize ,
            }
            impl < 'a , T > Output < 'a , T > where T : Debug {
                pub fn insert (self , element : T) where T : Debug {
                    let self_ = self . self_ ;
                    let index = self . index ;
                    self_ . _inner . insert (index , element)
                }
                pub fn remove (self ,) -> T where T : Debug {
                    let self_ = self . self_ ;
                    let index = self . index ;
                    self_ . _inner . remove (index)
                }
            }
        }
        impl < T > MyVec < T > where T : Debug {
            # [inline] pub fn take_at_most < 'a > (& 'a self , n : usize) -> take_at_most :: Output :: < 'a , T > {
                take_at_most :: Output :: < 'a , T > { self_ : self , n , }
            }
            # [inline] pub fn at < 'a > (& 'a mut self , index : usize) -> at :: Output :: < 'a , T > {
                at :: Output :: < 'a , T > { self_ : self , index , }
            }
        }",
    );
}

#[test]
fn verify_preludes() {
    check(
        "#[warn(dead_code)]
        pub(crate) async fn who().are().you() {}
        #[allow(dead_code)]
        pub(crate) async fn single() {}
        #[cfg(test)]
        impl Foo {
            #[error(dead_code)]
            pub(self) async fn we().cannot().talk() {}
            async fn nothing() {}
        }",
        "#[inline] # [warn (dead_code)] pub (crate) fn who () -> who :: Output { who :: Output { } }
        # [doc = \"Intermediary module for partial method chain [`who`](fn@who)`(…).…`\"]
        # [doc = \"\"]
        # [doc = \"Following method chains are supported:\"]
        # [doc = \"- [`who`](fn@who)`(…).`[`are`](method@who::Output::are)`(…).`[`you`](method@who::are::Output::you)`(…)`\"]
        # [warn (dead_code)] pub (crate) mod who {
            # ! [allow (unused_imports)]
            use super :: * ;
            # [doc = \"Intermediary type returned by partial method chain [`who`](fn@super::who)`(…).…`\"]
            pub struct Output { }
            impl Output {
                # [inline] pub fn are (self ,) -> are :: Output { are :: Output { } }
            }
            # [doc = \"Intermediary module for partial method chain [`who`](fn@super::who)`(…).`[`are`](method@Output::are)`(…).…`\"]
            # [doc = \"\"]
            # [doc = \"Following method chains are supported:\"]
            # [doc = \"- [`who`](fn@super::who)`(…).`[`are`](method@Output::are)`(…).`[`you`](method@are::Output::you)`(…)`\"]
            pub mod are {
                # ! [allow (unused_imports)]
                use super :: * ;
                # [doc = \"Intermediary type returned by partial method chain [`who`](fn@super::super::who)`(…).`[`are`](method@super::Output::are)`(…).…`\"]
                pub struct Output { }
                impl Output {
                    pub async fn you (self ,) { }
                }
            }
        }
        # [allow (dead_code)] pub (crate) async fn single () { }
        # [doc = \"Intermediary module for partial method chain [`Foo`]`::`[`we`](method@Foo::we)`(…).…`\"]
        # [doc = \"\"]
        # [doc = \"Following method chains are supported:\"]
        # [doc = \"- [`Foo`]`::`[`we`](method@Foo::we)`(…).`[`cannot`](method@we::Output::cannot)`(…).`[`talk`](method@we::cannot::Output::talk)`(…)`\"]
        # [error (dead_code)] pub (self) mod we {
            # ! [allow (unused_imports)]
            use super :: * ;
            # [doc = \"Intermediary type returned by partial method chain [`Foo`]`::`[`we`](method@super::Foo::we)`(…).…`\"]
            pub struct Output { }
            impl Output {
                # [inline] pub fn cannot (self ,) -> cannot :: Output { cannot :: Output { } }
            }
            # [doc = \"Intermediary module for partial method chain [`Foo`]`::`[`we`](method@super::Foo::we)`(…).`[`cannot`](method@Output::cannot)`(…).…`\"]
            # [doc = \"\"]
            # [doc = \"Following method chains are supported:\"]
            # [doc = \"- [`Foo`]`::`[`we`](method@super::Foo::we)`(…).`[`cannot`](method@Output::cannot)`(…).`[`talk`](method@cannot::Output::talk)`(…)`\"]
            pub mod cannot {
                # ! [allow (unused_imports)]
                use super :: * ;
                # [doc = \"Intermediary type returned by partial method chain [`Foo`]`::`[`we`](method@super::super::Foo::we)`(…).`[`cannot`](method@super::Output::cannot)`(…).…`\"]
                pub struct Output { }
                impl Output {
                    pub async fn talk (self ,) { }
                }
            }
        }
        # [cfg (test)] impl Foo {
            #[inline] # [error (dead_code)] pub (self) fn we () -> we :: Output { we :: Output { } }
            async fn nothing () { }
        }",
    );
}

#[test]
fn decompose_replacen() {
    check(
        "pub fn replace_in<'a>(string: &'a str)
            .occurrences_of(pattern: &'a str)
            .with(to: &'a str)
            .at_most(n: usize)
            .times() -> String
        {
            string.replacen(pattern, to, n)
        }",
        "#[inline] pub fn replace_in < 'a > (string : &'a str) -> replace_in :: Output :: < 'a > {
            replace_in :: Output :: < 'a > { string , }
        }
        # [doc = \"Intermediary module for partial method chain [`replace_in`](fn@replace_in)`(…).…`\"]
        # [doc = \"\"]
        # [doc = \"Following method chains are supported:\"]
        # [doc = \"- [`replace_in`](fn@replace_in)`(…).`[`occurrences_of`](method@replace_in::Output::occurrences_of)`(…).`[`with`](method@replace_in::occurrences_of::Output::with)`(…).`[`at_most`](method@replace_in::occurrences_of::with::Output::at_most)`(…).`[`times`](method@replace_in::occurrences_of::with::at_most::Output::times)`(…)`\"]
        pub mod replace_in {
            # ! [allow (unused_imports)]
            use super :: * ;
            # [doc = \"Intermediary type returned by partial method chain [`replace_in`](fn@super::replace_in)`(…).…`\"]
            pub struct Output < 'a > { pub (super) string : &'a str , }
            impl < 'a > Output < 'a > {
                # [inline] pub fn occurrences_of (self , pattern : &'a str) -> occurrences_of :: Output :: < 'a > {
                    let string = self . string ;
                    occurrences_of :: Output :: < 'a > { string , pattern , }
                }
            }
            # [doc = \"Intermediary module for partial method chain [`replace_in`](fn@super::replace_in)`(…).`[`occurrences_of`](method@Output::occurrences_of)`(…).…`\"]
            # [doc = \"\"]
            # [doc = \"Following method chains are supported:\"]
            # [doc = \"- [`replace_in`](fn@super::replace_in)`(…).`[`occurrences_of`](method@Output::occurrences_of)`(…).`[`with`](method@occurrences_of::Output::with)`(…).`[`at_most`](method@occurrences_of::with::Output::at_most)`(…).`[`times`](method@occurrences_of::with::at_most::Output::times)`(…)`\"]
            pub mod occurrences_of {
                # ! [allow (unused_imports)]
                use super :: * ;
                # [doc = \"Intermediary type returned by partial method chain [`replace_in`](fn@super::super::replace_in)`(…).`[`occurrences_of`](method@super::Output::occurrences_of)`(…).…`\"]
                pub struct Output < 'a > {
                    pub (super) string : &'a str ,
                    pub (super) pattern : &'a str ,
                }
                impl < 'a > Output < 'a > {
                    # [inline] pub fn with (self , to : &'a str) -> with :: Output :: < 'a > {
                        let pattern = self . pattern ;
                        let string = self . string ;
                        with :: Output :: < 'a > { string , pattern , to , }
                    }
                }
                # [doc = \"Intermediary module for partial method chain [`replace_in`](fn@super::super::replace_in)`(…).`[`occurrences_of`](method@super::Output::occurrences_of)`(…).`[`with`](method@Output::with)`(…).…`\"]
                # [doc = \"\"]
                # [doc = \"Following method chains are supported:\"]
                # [doc = \"- [`replace_in`](fn@super::super::replace_in)`(…).`[`occurrences_of`](method@super::Output::occurrences_of)`(…).`[`with`](method@Output::with)`(…).`[`at_most`](method@with::Output::at_most)`(…).`[`times`](method@with::at_most::Output::times)`(…)`\"]
                pub mod with {
                    # ! [allow (unused_imports)]
                    use super :: * ;
                    # [doc = \"Intermediary type returned by partial method chain [`replace_in`](fn@super::super::super::replace_in)`(…).`[`occurrences_of`](method@super::super::Output::occurrences_of)`(…).`[`with`](method@super::Output::with)`(…).…`\"]
                    pub struct Output < 'a > {
                        pub (super) string : &'a str ,
                        pub (super) pattern : &'a str ,
                        pub (super) to : &'a str ,
                    }
                    impl < 'a > Output < 'a > {
                        # [inline] pub fn at_most (self , n : usize) -> at_most :: Output :: < 'a > {
                            let to = self . to ;
                            let pattern = self . pattern ;
                            let string = self . string ;
                            at_most :: Output :: < 'a > { string , pattern , to , n , }
                        }
                    }
                    # [doc = \"Intermediary module for partial method chain [`replace_in`](fn@super::super::super::replace_in)`(…).`[`occurrences_of`](method@super::super::Output::occurrences_of)`(…).`[`with`](method@super::Output::with)`(…).`[`at_most`](method@Output::at_most)`(…).…`\"]
                    # [doc = \"\"]
                    # [doc = \"Following method chains are supported:\"]
                    # [doc = \"- [`replace_in`](fn@super::super::super::replace_in)`(…).`[`occurrences_of`](method@super::super::Output::occurrences_of)`(…).`[`with`](method@super::Output::with)`(…).`[`at_most`](method@Output::at_most)`(…).`[`times`](method@at_most::Output::times)`(…)`\"]
                    pub mod at_most {
                        # ! [allow (unused_imports)]
                        use super :: * ;
                        # [doc = \"Intermediary type returned by partial method chain [`replace_in`](fn@super::super::super::super::replace_in)`(…).`[`occurrences_of`](method@super::super::super::Output::occurrences_of)`(…).`[`with`](method@super::super::Output::with)`(…).`[`at_most`](method@super::Output::at_most)`(…).…`\"]
                        pub struct Output < 'a > {
                            pub (super) string : &'a str ,
                            pub (super) pattern : &'a str ,
                            pub (super) to : &'a str ,
                            pub (super) n : usize ,
                        }
                        impl < 'a > Output < 'a > {
                            pub fn times (self ,) -> String {
                                let n = self . n ;
                                let to = self . to ;
                                let pattern = self . pattern ;
                                let string = self . string ;
                                string . replacen (pattern , to , n)
                            }
                        }
                    }
                }
            }
        }",
    );
}

#[test]
fn decompose_resize_with() {
    check(
        "pub fn resize_vec<'a, T>(vec: &'a mut Vec<T>)
            .to(new_len: usize)
            .filling_with(f: impl FnMut() -> T)
        {
            Vec::<T>::resize_with(vec, new_len, f)
        }",
        "#[inline] pub fn resize_vec < 'a , T > (vec : &'a mut Vec < T >) -> resize_vec :: Output :: < 'a , T > {
            resize_vec :: Output :: < 'a , T > { vec , }
        }
        # [doc = \"Intermediary module for partial method chain [`resize_vec`](fn@resize_vec)`(…).…`\"]
        # [doc = \"\"]
        # [doc = \"Following method chains are supported:\"]
        # [doc = \"- [`resize_vec`](fn@resize_vec)`(…).`[`to`](method@resize_vec::Output::to)`(…).`[`filling_with`](method@resize_vec::to::Output::filling_with)`(…)`\"]
        pub mod resize_vec {
            # ! [allow (unused_imports)]
            use super :: * ;
            # [doc = \"Intermediary type returned by partial method chain [`resize_vec`](fn@super::resize_vec)`(…).…`\"]
            pub struct Output < 'a , T > { pub (super) vec : &'a mut Vec < T > , }
            impl < 'a , T > Output < 'a , T > {
                # [inline] pub fn to (self , new_len : usize) -> to :: Output :: < 'a , T > {
                    let vec = self . vec ;
                    to :: Output :: < 'a , T > { vec , new_len , }
                }
            }
            # [doc = \"Intermediary module for partial method chain [`resize_vec`](fn@super::resize_vec)`(…).`[`to`](method@Output::to)`(…).…`\"]
            # [doc = \"\"]
            # [doc = \"Following method chains are supported:\"]
            # [doc = \"- [`resize_vec`](fn@super::resize_vec)`(…).`[`to`](method@Output::to)`(…).`[`filling_with`](method@to::Output::filling_with)`(…)`\"]
            pub mod to {
                # ! [allow (unused_imports)]
                use super :: * ;
                # [doc = \"Intermediary type returned by partial method chain [`resize_vec`](fn@super::super::resize_vec)`(…).`[`to`](method@super::Output::to)`(…).…`\"]
                pub struct Output < 'a , T > {
                    pub (super) vec : &'a mut Vec < T > ,
                    pub (super) new_len : usize ,
                }
                impl < 'a , T > Output < 'a , T > {
                    pub fn filling_with (self , f : impl FnMut () -> T) {
                        let new_len = self . new_len ;
                        let vec = self . vec ;
                        Vec :: < T > :: resize_with (vec , new_len , f)
                    }
                }
            }
        }",
    );
}

#[test]
fn convert_impl() {
    check(
        "impl MovieMaker {
            pub fn define_movie(name: String)
                .released_in(release_year: usize)
                .directed_by(director_name: String) -> crate::Movie
            {
                crate::Movie { name, release_year, director_name }
            }
        }",
        "# [doc = \"Intermediary module for partial method chain [`MovieMaker`]`::`[`define_movie`](method@MovieMaker::define_movie)`(…).…`\"]
        # [doc = \"\"]
        # [doc = \"Following method chains are supported:\"]
        # [doc = \"- [`MovieMaker`]`::`[`define_movie`](method@MovieMaker::define_movie)`(…).`[`released_in`](method@define_movie::Output::released_in)`(…).`[`directed_by`](method@define_movie::released_in::Output::directed_by)`(…)`\"]
        pub mod define_movie {
            # ! [allow (unused_imports)]
            use super :: * ;
            # [doc = \"Intermediary type returned by partial method chain [`MovieMaker`]`::`[`define_movie`](method@super::MovieMaker::define_movie)`(…).…`\"]
            pub struct Output { pub (super) name : String , }
            impl Output {
                # [inline] pub fn released_in (self , release_year : usize) -> released_in :: Output {
                    let name = self . name ;
                    released_in :: Output { name , release_year , }
                }
            }
            # [doc = \"Intermediary module for partial method chain [`MovieMaker`]`::`[`define_movie`](method@super::MovieMaker::define_movie)`(…).`[`released_in`](method@Output::released_in)`(…).…`\"]
            # [doc = \"\"]
            # [doc = \"Following method chains are supported:\"]
            # [doc = \"- [`MovieMaker`]`::`[`define_movie`](method@super::MovieMaker::define_movie)`(…).`[`released_in`](method@Output::released_in)`(…).`[`directed_by`](method@released_in::Output::directed_by)`(…)`\"]
            pub mod released_in {
                # ! [allow (unused_imports)]
                use super :: * ;
                # [doc = \"Intermediary type returned by partial method chain [`MovieMaker`]`::`[`define_movie`](method@super::super::MovieMaker::define_movie)`(…).`[`released_in`](method@super::Output::released_in)`(…).…`\"]
                pub struct Output {
                    pub (super) name : String ,
                    pub (super) release_year : usize ,
                }
                impl Output {
                    pub fn directed_by (self , director_name : String) -> crate :: Movie {
                        let release_year = self . release_year ;
                        let name = self . name ;
                        crate :: Movie { name , release_year , director_name }
                    }
                }
            }
        }
        impl MovieMaker {
            # [inline] pub fn define_movie (name : String) -> define_movie :: Output { define_movie :: Output { name , } }
        }",
    );
}

#[test]
fn convert_method_chain_for_http_requests() {
    let actual = expand(
        "fn new_http_request_to(url: Uri)
            .from<'a>(user_agent: &'a str)
            .with_authorization(authorization: HttpAuthorization).{

            fn as_get() -> GetHttpRequest {
                GetHttpRequest {
                    url,
                    user_agent: user_agent.to_string(),
                    authorization,
                }
            }

            fn as_post().{
                fn with_text(body: String) -> PostHttpRequest {
                    PostHttpRequest {
                        url,
                        user_agent: user_agent.to_string(),
                        authorization,
                        body: HttpBody::Text(body),
                    }
                }

                fn with_json(json: JsonValue) -> PostHttpRequest {
                    PostHttpRequest {
                        url,
                        user_agent: user_agent.to_string(),
                        authorization,
                        body: HttpBody::Json(json),
                    }
                }
            }
        }",
    );
    assert!(actual.contains("fn new_http_request_to (url : Uri) -> new_http_request_to :: Output"));
    assert!(actual.contains("pub fn from < 'a > (self , user_agent : &'a str) -> from :: Output :: < 'a >"));
    assert!(actual.contains("pub fn with_authorization (self , authorization : HttpAuthorization) -> with_authorization :: Output :: < 'a >"));
    assert!(actual.contains("pub fn as_get (self ,) -> GetHttpRequest"));
    assert!(actual.contains("pub fn as_post (self ,) -> as_post :: Output :: < 'a >"));
    assert!(actual.contains("pub fn with_text (self , body : String) -> PostHttpRequest"));
    assert!(actual.contains("pub fn with_json (self , json : JsonValue) -> PostHttpRequest"));
    assert_eq!(4, actual.matches("pub struct Output").count());
}

#[test]
fn construction_test_convert_method_chain_for_movies() {
    let actual = expand(
        "fn define_movie<'a>(name: &'a str)
            .released_in(release_year: usize)
            .directed_by(director_name: &'a str) -> Movie
        {
            Movie {
                name: name.to_string(),
                release_year,
                director_name: director_name.to_string(),
            }
        }

        fn f(i: usize) -> usize {
            i + 5
        }",
    );
    assert!(actual.contains("fn define_movie < 'a > (name : &'a str) -> define_movie :: Output :: < 'a >"));
    assert!(actual.contains("mod define_movie"));
    assert!(actual.contains("pub fn directed_by (self , director_name : &'a str) -> Movie"));
    assert!(actual.contains("fn f (i : usize) -> usize { i + 5 }"));
}

#[test]
fn implementation_test_document_implementations() {
    check(
        "impl Calculation {
            /// Provide an integer to be added.
            ///---
            /// Provide a second integer to be added to the first.
            fn add(a: isize).to(b: isize) -> isize { a + b }
            /// Provide an integer to be removed.
            ///---
            /// Provide a second integer to be removed from the first.
            fn remove(a: isize).from(b: isize) -> isize { a - b }
        }
        impl StringHandling {
            /// Provide a string to be concatenated.
            fn concat<'a>(a: &'a str).{
                /// Provide the second string to be concatenated.
                fn with(b: &'a str) -> String {
                    let mut result = String::new();
                    result.push_str(a);
                    result.push_str(b);
                    result
                }
                /// Provide an integer as the second string to be concatenated.
                fn with_int(b: isize) -> String {
                    let mut result = String::new();
                    result.push_str(a);
                    result.push_str(format!(\"{}\", b).as_str());
                    result
                }
            }
        }",
        "#[doc = \"Intermediary module for partial method chain [`Calculation`]`::`[`add`](method@Calculation::add)`(…).…`\"]
        #[doc = \"\"]
        #[doc = \"Following method chains are supported:\"]
        #[doc = \"- [`Calculation`]`::`[`add`](method@Calculation::add)`(…).`[`to`](method@add::Output::to)`(…)`\"]
        mod add {
            # ! [allow(unused_imports)]
            use super :: * ;
            #[doc = \"Intermediary type returned by partial method chain [`Calculation`]`::`[`add`](method@super::Calculation::add)`(…).…`\"]
            pub struct Output { pub(super) a : isize, }
            impl Output {
                #[doc = \" Provide a second integer to be added to the first.\"]
                pub fn to(self, b : isize) -> isize { let a = self.a; a + b }
            }
        }
        #[doc = \"Intermediary module for partial method chain [`Calculation`]`::`[`remove`](method@Calculation::remove)`(…).…`\"]
        #[doc = \"\"]
        #[doc = \"Following method chains are supported:\"]
        #[doc = \"- [`Calculation`]`::`[`remove`](method@Calculation::remove)`(…).`[`from`](method@remove::Output::from)`(…)`\"]
        mod remove {
            # ! [allow(unused_imports)]
            use super :: * ;
            #[doc = \"Intermediary type returned by partial method chain [`Calculation`]`::`[`remove`](method@super::Calculation::remove)`(…).…`\"]
            pub struct Output { pub(super) a : isize, }
            impl Output {
                #[doc = \" Provide a second integer to be removed from the first.\"]
                pub fn from(self, b : isize) -> isize { let a = self.a; a - b }
            }
        }
        impl Calculation {
            #[doc = \" Provide an integer to be added.\"]
            #[inline]
            fn add(a : isize) -> add :: Output { add :: Output { a, } }
            #[doc = \" Provide an integer to be removed.\"]
            #[inline]
            fn remove(a : isize) -> remove :: Output { remove :: Output { a, } }
        }
        #[doc = \"Intermediary module for partial method chain [`StringHandling`]`::`[`concat`](method@StringHandling::concat)`(…).…`\"]
        #[doc = \"\"]
        #[doc = \"Following method chains are supported:\"]
        #[doc = \"- [`StringHandling`]`::`[`concat`](method@StringHandling::concat)`(…).`[`with`](method@concat::Output::with)`(…)`\"]
        #[doc = \"- [`StringHandling`]`::`[`concat`](method@StringHandling::concat)`(…).`[`with_int`](method@concat::Output::with_int)`(…)`\"]
        mod concat {
            # ! [allow(unused_imports)]
            use super :: * ;
            #[doc = \"Intermediary type returned by partial method chain [`StringHandling`]`::`[`concat`](method@super::StringHandling::concat)`(…).…`\"]
            pub struct Output < 'a > { pub(super) a : & 'a str, }
            impl < 'a > Output < 'a > {
                #[doc = \" Provide the second string to be concatenated.\"]
                pub fn with(self, b : & 'a str) -> String {
                    let a = self.a;
                    let mut result = String :: new();
                    result.push_str(a);
                    result.push_str(b);
                    result
                }
                #[doc = \" Provide an integer as the second string to be concatenated.\"]
                pub fn with_int(self, b : isize) -> String {
                    let a = self.a;
                    let mut result = String :: new();
                    result.push_str(a);
                    result.push_str(format!(\"{}\", b).as_str());
                    result
                }
            }
        }
        impl StringHandling {
            #[doc = \" Provide a string to be concatenated.\"]
            #[inline]
            fn concat < 'a > (a : & 'a str) -> concat :: Output :: < 'a > {
                concat :: Output :: < 'a > { a, }
            }
        }",
    );
}

#[test]
fn flatten_tree() {
    let toks = lex("pub(crate) fn first<'a>(text: &'a str).second(n: &'a mut i32) {}").unwrap();
    let out = transform(&toks).expect("Should not have failed");
    let text = tokens_to_text(&out);
    assert!(text.contains("pub (crate) fn first < 'a > (text : &'a str) -> first :: Output :: < 'a >"));
    assert!(text.contains("pub (crate) mod first"));
    assert!(text.contains("pub struct Output < 'a > { pub (super) text : &'a str , }"));
    assert!(text.contains("pub fn second (self , n : &'a mut i32)"));
}

#[test]
fn convert_method_chain_with_complex_logic() {
    let actual = expand(
        "pub fn consume<U>(items: Vec<U>)
            .to_feed<'b, V: std::fmt::Debug>(output: &'b mut Vec<V>)
            .and_return() -> Vec<(U, String)>
        where for<'a> &'a U: Into<V>
        {
            let mut res = Vec::<(U, String)>::new();
            for item in items {
                let item2: V = (&item).into();
                let text = format!(\"{:?}\", item2);
                res.push((item, text));
                output.push(item2);
            }
            res
        }",
    );
    assert!(actual.contains("pub fn consume < U > (items : Vec < U >) -> consume :: Output :: < U >"));
    assert!(actual.contains("pub fn to_feed < 'b , V : std :: fmt :: Debug > (self , output : &'b mut Vec < V >) -> to_feed :: Output :: < 'b , U , V >"));
    assert!(actual.contains("pub fn and_return (self ,) -> Vec < (U , String) > where for"));
    assert!(actual.contains("&'a U : Into < V >"));
    assert!(actual.contains("output . push (item2)"));
}

#[test]
fn convert_method_chain_with_two_references() {
    let actual = expand(
        "fn pour_items_from<'a, T>(source: &'a mut Vec<T>)
            .starting_at(n: usize)
            .into<'b>(destination: &'b mut Vec<T>)
        {
            for item in source.drain(n..) {
                destination.push(item);
            }
        }",
    );
    assert!(actual.contains("fn pour_items_from < 'a , T > (source : &'a mut Vec < T >) -> pour_items_from :: Output :: < 'a , T >"));
    assert!(actual.contains("pub fn starting_at (self , n : usize) -> starting_at :: Output :: < 'a , T >"));
    assert!(actual.contains("pub fn into < 'b > (self , destination : &'b mut Vec < T >)"));
    assert!(actual.contains("destination . push (item)"));
}
