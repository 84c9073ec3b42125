use html_macro_core::attribute::{Attribute, AttributeIdent, Attributes};
use html_macro_core::builder::parse_document;
use html_macro_core::element::{Child, Document, Element};
use html_macro_core::emit::OutToken;
use html_macro_core::error::ParseError;
use html_macro_core::html;
use html_macro_core::tag::{CloseTag, OpenTag};
use html_macro_core::token::{Ident, RsxExpr, Span, Token};

fn sp(id: u64) -> Span {
    Span { id }
}

fn lt(id: u64) -> Token {
    Token::Lt(sp(id))
}

fn gt(id: u64) -> Token {
    Token::Gt(sp(id))
}

fn slash(id: u64) -> Token {
    Token::Slash(sp(id))
}

fn eq(id: u64) -> Token {
    Token::Equals(sp(id))
}

fn ident(name: &str, id: u64) -> Token {
    Token::Ident(Ident { name: name.to_string(), span: sp(id) })
}

fn strlit(id: u64) -> Token {
    Token::Expr(RsxExpr { span: sp(id), is_str: true })
}

fn expr(id: u64) -> Token {
    Token::Expr(RsxExpr { span: sp(id), is_str: false })
}

/// `<h1 color="red">"Title"</h1>`
fn h1_color_title() -> Vec<Token> {
    vec![
        lt(1),
        ident("h1", 2),
        ident("color", 3),
        eq(4),
        strlit(5),
        gt(6),
        strlit(7),
        lt(8),
        slash(9),
        ident("h1", 10),
        gt(11),
    ]
}

// The compile-pass / compile-fail cases the macro's build-test suite runs,
// expressed directly against the parser.
#[test]
fn trybuild() {
    // attribute/non_str_custom: a custom "string" attribute with a non-string
    // value is rejected at the value.
    let toks = vec![lt(1), ident("a", 2), strlit(3), eq(4), expr(5), slash(6), gt(7)];
    assert!(matches!(parse_document(&toks), Err(ParseError::Validation { span }) if span == sp(5)));

    // attribute/format_str: a formatted (non-literal) value for a custom
    // attribute is rejected too.
    let toks = vec![lt(1), ident("a", 2), strlit(3), eq(4), expr(9), gt(6), lt(7), slash(8), ident("a", 10), gt(11)];
    assert!(matches!(parse_document(&toks), Err(ParseError::Validation { span }) if span == sp(9)));

    // attribute/missing_equals: `name value` without `=` is a syntax error at
    // the value token.
    let toks = vec![lt(1), ident("a", 2), ident("color", 3), strlit(4), gt(5)];
    assert!(matches!(parse_document(&toks), Err(ParseError::Syntax { span }) if span == sp(4)));

    // attribute/random_expression: an arbitrary expression as the value of a
    // custom attribute fails validation.
    let toks = vec![lt(1), ident("a", 2), strlit(3), eq(4), expr(5), gt(6)];
    assert!(matches!(parse_document(&toks), Err(ParseError::Validation { span }) if span == sp(5)));

    // attribute/passes: identifier attributes take any value; custom
    // attributes take string literals.
    let toks = vec![
        lt(1),
        ident("a", 2),
        ident("color", 3),
        eq(4),
        strlit(5),
        ident("onclick", 6),
        eq(7),
        expr(8),
        strlit(9),
        eq(10),
        strlit(11),
        slash(12),
        gt(13),
    ];
    assert!(parse_document(&toks).is_ok());

    // body/plain_text: bare words between tags are not expressions.
    let toks = vec![lt(1), ident("h1", 2), gt(3), ident("hello", 4), lt(5), slash(6), ident("h1", 7), gt(8)];
    assert!(matches!(parse_document(&toks), Err(ParseError::Syntax { span }) if span == sp(4)));

    // body/expression: an expression child is accepted.
    let toks = vec![lt(1), ident("h1", 2), gt(3), expr(4), lt(5), slash(6), ident("h1", 7), gt(8)];
    assert!(parse_document(&toks).is_ok());

    // props/enum: an identifier attribute may hold an arbitrary expression,
    // such as an enum variant.
    let toks = vec![lt(1), ident("div", 2), ident("color", 3), eq(4), expr(5), gt(6), lt(7), slash(8), ident("div", 9), gt(10)];
    assert!(parse_document(&toks).is_ok());

    // tag/trailing: trailing garbage after the root element is a syntax
    // error.
    let toks = vec![lt(1), ident("a", 2), slash(3), gt(4), gt(5)];
    assert!(matches!(parse_document(&toks), Err(ParseError::Syntax { span }) if span == sp(5)));

    // tag/extra_close: a closing tag with nothing open is a mismatch.
    let toks = vec![lt(1), ident("a", 2), slash(3), gt(4), lt(5), slash(6), ident("b", 7), gt(8)];
    match parse_document(&toks) {
        Err(ParseError::Mismatch { open, close }) => {
            assert!(open.is_none());
            assert_eq!(close.name, "b");
        },
        other => panic!("expected a mismatch error, got {:?}", other),
    }

    // tag/missing_close: an unclosed tag is reported by name.
    let toks = vec![lt(1), ident("a", 2), gt(3)];
    match parse_document(&toks) {
        Err(ParseError::Unclosed { open }) => assert_eq!(open.name, "a"),
        other => panic!("expected an unclosed-tag error, got {:?}", other),
    }
}

#[test]
fn scenario_h1_with_attribute_and_text() {
    let doc = parse_document(&h1_color_title()).unwrap();
    assert_eq!(doc.children.len(), 1);
    match &doc.children[0] {
        Child::Element(el) => {
            assert_eq!(el.name.name, "h1");
            assert_eq!(el.attributes.0.len(), 1);
            let attr = &el.attributes.0[0];
            match &attr.name {
                AttributeIdent::Ident(i) => assert_eq!(i.name, "color"),
                other => panic!("expected an identifier name, got {:?}", other),
            }
            assert!(attr.value.is_str);
            assert_eq!(attr.value.span, sp(5));
            assert_eq!(el.children.len(), 1);
            assert!(matches!(&el.children[0], Child::Expr(e) if e.is_str && e.span == sp(7)));
        },
        other => panic!("expected an element, got {:?}", other),
    }
}

#[test]
fn scenario_self_closing_div() {
    let toks = vec![lt(1), ident("div", 2), slash(3), gt(4)];
    let doc = parse_document(&toks).unwrap();
    assert_eq!(doc.children.len(), 1);
    match &doc.children[0] {
        Child::Element(el) => {
            assert_eq!(el.name.name, "div");
            assert_eq!(el.attributes.0.len(), 0);
            assert_eq!(el.children.len(), 0);
        },
        other => panic!("expected an element, got {:?}", other),
    }
}

#[test]
fn scenario_self_closing_consumes_no_close_tag() {
    // `<x/></x>` — the self-closing element must not eat the closing tag,
    // which is then a mismatch with nothing open.
    let toks = vec![lt(1), ident("x", 2), slash(3), gt(4), lt(5), slash(6), ident("x", 7), gt(8)];
    match parse_document(&toks) {
        Err(ParseError::Mismatch { open, close }) => {
            assert!(open.is_none());
            assert_eq!(close.name, "x");
        },
        other => panic!("expected a mismatch error, got {:?}", other),
    }
}

#[test]
fn scenario_mismatched_tags_named() {
    let toks = vec![lt(1), ident("div", 2), gt(3), lt(4), slash(5), ident("span", 6), gt(7)];
    match parse_document(&toks) {
        Err(ParseError::Mismatch { open, close }) => {
            let open = open.expect("the open tag is named");
            assert_eq!(open.name, "div");
            assert_eq!(open.span, sp(2));
            assert_eq!(close.name, "span");
            assert_eq!(close.span, sp(6));
        },
        other => panic!("expected a mismatch error, got {:?}", other),
    }
}

#[test]
fn scenario_custom_attribute_needs_string_value() {
    // `"data-x"=5` inside a tag fails at the value's span.
    let toks = vec![lt(1), ident("a", 2), strlit(3), eq(4), expr(5), gt(6)];
    assert!(matches!(parse_document(&toks), Err(ParseError::Validation { span }) if span == sp(5)));
}

#[test]
fn scenario_nested_elements() {
    let toks = vec![
        lt(1),
        ident("a", 2),
        gt(3),
        lt(4),
        ident("b", 5),
        gt(6),
        lt(7),
        slash(8),
        ident("b", 9),
        gt(10),
        lt(11),
        slash(12),
        ident("a", 13),
        gt(14),
    ];
    let doc = parse_document(&toks).unwrap();
    assert_eq!(doc.children.len(), 1);
    match &doc.children[0] {
        Child::Element(a) => {
            assert_eq!(a.name.name, "a");
            assert_eq!(a.children.len(), 1);
            match &a.children[0] {
                Child::Element(b) => {
                    assert_eq!(b.name.name, "b");
                    assert_eq!(b.children.len(), 0);
                },
                other => panic!("expected an element, got {:?}", other),
            }
        },
        other => panic!("expected an element, got {:?}", other),
    }
}

#[test]
fn deep_nesting_parses_iteratively() {
    // 10,000 nested elements: the builder's explicit frame stack must not
    // translate nesting depth into native call depth.
    let n: u64 = 10_000;
    let mut toks = Vec::new();
    for i in 0..n {
        toks.push(lt(4 * i + 1));
        toks.push(ident("x", 4 * i + 2));
        toks.push(gt(4 * i + 3));
    }
    for i in 0..n {
        toks.push(lt(4 * n + 4 * i + 1));
        toks.push(slash(4 * n + 4 * i + 2));
        toks.push(ident("x", 4 * n + 4 * i + 3));
        toks.push(gt(4 * n + 4 * i + 4));
    }
    let doc = parse_document(&toks).unwrap();
    assert_eq!(doc.children.len(), 1);
    // Count the nesting depth without recursion.
    let mut depth: u64 = 0;
    let mut cur = &doc.children[0];
    loop {
        match cur {
            Child::Element(el) => {
                depth += 1;
                if el.children.is_empty() {
                    break;
                }
                assert_eq!(el.children.len(), 1);
                cur = &el.children[0];
            },
            Child::Expr(_) => break,
        }
    }
    assert_eq!(depth, n);
    // Dispose of the tree without recursive drops.
    let mut stack: Vec<Child> = doc.children;
    while let Some(c) = stack.pop() {
        if let Child::Element(el) = c {
            stack.extend(el.children);
        }
    }
}

#[test]
fn empty_input_is_empty_document() {
    let toks: Vec<Token> = vec![];
    let doc = parse_document(&toks).unwrap();
    assert_eq!(doc.children.len(), 0);
}

#[test]
fn multiple_roots_in_order() {
    let toks = vec![lt(1), ident("a", 2), slash(3), gt(4), lt(5), ident("b", 6), slash(7), gt(8), strlit(9)];
    let doc = parse_document(&toks).unwrap();
    assert_eq!(doc.children.len(), 3);
    assert!(matches!(&doc.children[0], Child::Element(el) if el.name.name == "a"));
    assert!(matches!(&doc.children[1], Child::Element(el) if el.name.name == "b"));
    assert!(matches!(&doc.children[2], Child::Expr(e) if e.span == sp(9)));
}

#[test]
fn unclosed_reports_innermost_tag() {
    let toks = vec![lt(1), ident("a", 2), gt(3), lt(4), ident("b", 5), gt(6)];
    match parse_document(&toks) {
        Err(ParseError::Unclosed { open }) => {
            assert_eq!(open.name, "b");
            assert_eq!(open.span, sp(5));
        },
        other => panic!("expected an unclosed-tag error, got {:?}", other),
    }
}

#[test]
fn unexpected_end_of_input_is_reported_at_last_token() {
    let toks = vec![lt(1), ident("a", 2)];
    assert!(matches!(parse_document(&toks), Err(ParseError::Syntax { span }) if span == sp(2)));
}

#[test]
fn attribute_ident_is_ident() {
    let i = AttributeIdent::Ident(Ident { name: "color".to_string(), span: sp(1) });
    let s = AttributeIdent::LitStr(RsxExpr { span: sp(2), is_str: true });
    assert!(i.is_ident());
    assert!(!s.is_ident());
}

#[test]
fn attribute_validate_checks_kinds() {
    let bad = Attribute {
        name: AttributeIdent::LitStr(RsxExpr { span: sp(1), is_str: true }),
        equals: sp(2),
        value: RsxExpr { span: sp(3), is_str: false },
    };
    assert!(matches!(bad.validate(), Err(ParseError::Validation { span }) if span == sp(3)));
    let good = Attribute {
        name: AttributeIdent::Ident(Ident { name: "c".to_string(), span: sp(1) }),
        equals: sp(2),
        value: RsxExpr { span: sp(3), is_str: false },
    };
    assert!(good.validate().is_ok());
}

#[test]
fn open_tag_parse_reads_attributes_and_marker() {
    let toks = vec![lt(1), ident("b", 2), ident("x", 3), eq(4), expr(5), slash(6), gt(7)];
    let (tag, next) = OpenTag::parse(&toks, 0).unwrap();
    assert_eq!(tag.name.name, "b");
    assert!(tag.self_closing);
    assert_eq!(tag.attributes.0.len(), 1);
    assert_eq!(next, 7);

    let toks = vec![lt(1), ident("b", 2), gt(3)];
    let (tag, next) = OpenTag::parse(&toks, 0).unwrap();
    assert!(!tag.self_closing);
    assert_eq!(next, 3);
}

#[test]
fn close_tag_parse_reads_name() {
    let toks = vec![lt(1), slash(2), ident("b", 3), gt(4)];
    let (tag, next) = CloseTag::parse(&toks, 0).unwrap();
    assert_eq!(tag.name.name, "b");
    assert_eq!(tag.name.span, sp(3));
    assert_eq!(next, 4);
}

#[test]
fn attributes_parse_stops_at_terminator() {
    let toks = vec![ident("x", 1), eq(2), expr(3), gt(4)];
    let (attrs, next) = Attributes::parse(&toks, 0).unwrap();
    assert_eq!(attrs.0.len(), 1);
    assert_eq!(next, 3);
}

#[test]
fn emitted_call_mirrors_the_tree() {
    let out = html(&h1_color_title()).unwrap();
    // h1 { color : "red" , "Title" , } ,
    assert_eq!(out.len(), 10);
    assert!(matches!(&out[0], OutToken::Ident(i) if i.name == "h1" && i.span == sp(2)));
    assert!(matches!(&out[1], OutToken::OpenBrace));
    assert!(matches!(&out[2], OutToken::Ident(i) if i.name == "color" && i.span == sp(3)));
    assert!(matches!(&out[3], OutToken::Colon));
    assert!(matches!(&out[4], OutToken::Expr(e) if e.span == sp(5) && e.is_str));
    assert!(matches!(&out[5], OutToken::Comma));
    assert!(matches!(&out[6], OutToken::Expr(e) if e.span == sp(7) && e.is_str));
    assert!(matches!(&out[7], OutToken::Comma));
    assert!(matches!(&out[8], OutToken::CloseBrace));
    assert!(matches!(&out[9], OutToken::Comma));
}

#[test]
fn emitted_custom_attribute_passes_the_literal_through() {
    // `<a "data-x"="5"/>` — the string-literal name is emitted as the
    // literal itself.
    let toks = vec![lt(1), ident("a", 2), strlit(3), eq(4), strlit(5), slash(6), gt(7)];
    let out = html(&toks).unwrap();
    // a { "data-x" : "5" , } ,
    assert_eq!(out.len(), 8);
    assert!(matches!(&out[0], OutToken::Ident(i) if i.name == "a"));
    assert!(matches!(&out[1], OutToken::OpenBrace));
    assert!(matches!(&out[2], OutToken::Expr(e) if e.span == sp(3) && e.is_str));
    assert!(matches!(&out[3], OutToken::Colon));
    assert!(matches!(&out[4], OutToken::Expr(e) if e.span == sp(5)));
    assert!(matches!(&out[5], OutToken::Comma));
    assert!(matches!(&out[6], OutToken::CloseBrace));
    assert!(matches!(&out[7], OutToken::Comma));
}

#[test]
fn html_propagates_the_first_error() {
    let toks = vec![lt(1), ident("div", 2), gt(3), lt(4), slash(5), ident("span", 6), gt(7)];
    match html(&toks) {
        Err(ParseError::Mismatch { open, close }) => {
            assert_eq!(open.unwrap().name, "div");
            assert_eq!(close.name, "span");
        },
        other => panic!("expected a mismatch error, got {:?}", other),
    }
}

#[test]
fn emitted_siblings_keep_document_order() {
    let toks = vec![lt(1), ident("a", 2), slash(3), gt(4), strlit(5), lt(6), ident("b", 7), slash(8), gt(9)];
    let out = html(&toks).unwrap();
    // a { } , "s" , b { } ,
    assert_eq!(out.len(), 10);
    assert!(matches!(&out[0], OutToken::Ident(i) if i.name == "a"));
    assert!(matches!(&out[4], OutToken::Expr(e) if e.span == sp(5)));
    assert!(matches!(&out[6], OutToken::Ident(i) if i.name == "b"));
}

#[test]
fn document_emits_like_its_elements() {
    let doc = Document {
        children: vec![Child::Element(Element {
            name: Ident { name: "p".to_string(), span: sp(1) },
            attributes: Attributes(vec![]),
            children: vec![],
        })],
    };
    let mut out: Vec<OutToken> = Vec::new();
    doc.to_tokens(&mut out);
    assert_eq!(out.len(), 4);
    assert!(matches!(&out[0], OutToken::Ident(i) if i.name == "p"));
    assert!(matches!(&out[1], OutToken::OpenBrace));
    assert!(matches!(&out[2], OutToken::CloseBrace));
    assert!(matches!(&out[3], OutToken::Comma));
}
