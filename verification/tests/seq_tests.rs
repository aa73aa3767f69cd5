use derive_engine::decimal::i64_to_string;
use derive_engine::decimal::parse_int_lit;
use derive_engine::decimal::u64_to_string;
use derive_engine::seq_expand::Delim;
use derive_engine::seq_expand::Pos;
use derive_engine::seq_expand::SeqParser;
use derive_engine::seq_expand::Span;
use derive_engine::seq_expand::Tok;

fn sp(a: usize, b: usize) -> Span {
    Span { lo: Pos { line: 1, col: a }, hi: Pos { line: 1, col: b } }
}

fn ident(name: &str, a: usize, b: usize) -> Tok {
    Tok::IdentTok(name.to_string(), sp(a, b))
}

fn punct(c: char, a: usize, b: usize) -> Tok {
    Tok::PunctTok(c, sp(a, b))
}

fn lit(text: &str, a: usize, b: usize) -> Tok {
    Tok::LitTok(text.to_string(), sp(a, b))
}

fn ident_name(t: &Tok) -> &str {
    match t {
        Tok::IdentTok(name, _) => name.as_str(),
        _ => panic!("expected an identifier token"),
    }
}

fn lit_text(t: &Tok) -> &str {
    match t {
        Tok::LitTok(text, _) => text.as_str(),
        _ => panic!("expected a literal token"),
    }
}

fn request(keyword: &str, begin: &str, end: &str, dots_adjacent: bool, body: Vec<Tok>) -> Vec<
    Tok,
> {
    let second_dot = if dots_adjacent { punct('.', 8, 9) } else { punct('.', 10, 11) };
    vec![
        ident("N", 1, 2),
        ident(keyword, 3, 5),
        lit(begin, 6, 7),
        punct('.', 7, 8),
        second_dot,
        lit(end, 11, 12),
        Tok::GroupTok(Delim::Brace, body, sp(13, 30)),
    ]
}

fn splice_body() -> Vec<Tok> {
    vec![
        ident("f", 14, 15),
        punct('~', 15, 16),
        ident("N", 16, 17),
        Tok::GroupTok(Delim::Paren, vec![], sp(17, 19)),
    ]
}

#[test]
fn range_replays_and_fuses_in_order() {
    let out = derive_engine::seq_expand::seq(request("in", "0", "3", true, splice_body())).expect("a well-formed request");
    assert_eq!(out.len(), 6);
    assert_eq!(ident_name(&out[0]), "f0");
    assert!(matches!(&out[1], Tok::GroupTok(Delim::Paren, body, _) if body.is_empty()));
    assert_eq!(ident_name(&out[2]), "f1");
    assert!(matches!(&out[3], Tok::GroupTok(Delim::Paren, body, _) if body.is_empty()));
    assert_eq!(ident_name(&out[4]), "f2");
    assert!(matches!(&out[5], Tok::GroupTok(Delim::Paren, body, _) if body.is_empty()));
}

#[test]
fn separated_tokens_are_not_fused() {
    let p = SeqParser {
        ident: "N".to_string(),
        begin: 0,
        end: 1,
        body: vec![],
    };
    let body = vec![ident("f", 1, 2), punct('~', 5, 6), ident("N", 6, 7)];
    let out = p.expand(&body, 2);
    assert_eq!(out.len(), 3);
    assert_eq!(ident_name(&out[0]), "f");
    assert!(matches!(&out[1], Tok::PunctTok('~', _)));
    assert_eq!(lit_text(&out[2]), "2");
}

#[test]
fn bound_identifier_becomes_a_literal_inside_groups() {
    let p = SeqParser {
        ident: "N".to_string(),
        begin: 0,
        end: 1,
        body: vec![],
    };
    let body = vec![
        ident("N", 1, 2),
        Tok::GroupTok(Delim::Bracket, vec![ident("N", 4, 5), ident("other", 6, 11)], sp(3, 12)),
    ];
    let out = p.expand(&body, 7);
    assert_eq!(out.len(), 2);
    assert_eq!(lit_text(&out[0]), "7");
    match &out[1] {
        Tok::GroupTok(Delim::Bracket, inner, _) => {
            assert_eq!(inner.len(), 2);
            assert_eq!(lit_text(&inner[0]), "7");
            assert_eq!(ident_name(&inner[1]), "other");
        },
        _ => panic!("groups keep their delimiter"),
    }
}

#[test]
fn empty_range_expands_to_nothing() {
    let out = derive_engine::seq_expand::seq(request("in", "3", "3", true, splice_body())).expect("a well-formed request");
    assert!(out.is_empty());
}

#[test]
fn wrong_keyword_is_rejected() {
    assert!(derive_engine::seq_expand::seq(request("for", "0", "3", true, splice_body())).is_none());
}

#[test]
fn separated_dots_are_rejected() {
    assert!(derive_engine::seq_expand::seq(request("in", "0", "3", false, splice_body())).is_none());
}

#[test]
fn malformed_bound_literal_is_rejected() {
    assert!(derive_engine::seq_expand::seq(request("in", "", "3", true, splice_body())).is_none());
    assert!(derive_engine::seq_expand::seq(request("in", "1.5", "3", true, splice_body())).is_none());
    assert!(derive_engine::seq_expand::seq(request("in", "0", "1e3", true, splice_body())).is_none());
    assert!(derive_engine::seq_expand::seq(request("in", "0", "0o9", true, splice_body())).is_none());
}

#[test]
fn radix_suffix_and_underscore_bounds_are_accepted() {
    let out = derive_engine::seq_expand::seq(request("in", "0x0", "0b11", true, splice_body()))
        .expect("radix-prefixed bounds parse");
    assert_eq!(out.len(), 6);
    assert_eq!(ident_name(&out[0]), "f0");
    assert_eq!(ident_name(&out[4]), "f2");

    let out = derive_engine::seq_expand::seq(request("in", "1i64", "0_3", true, splice_body()))
        .expect("suffixed and underscored bounds parse");
    assert_eq!(out.len(), 4);
    assert_eq!(ident_name(&out[0]), "f1");
    assert_eq!(ident_name(&out[2]), "f2");
}

#[test]
fn negative_bound_expands_below_zero() {
    let toks = vec![
        ident("N", 1, 2),
        ident("in", 3, 5),
        punct('-', 6, 7),
        lit("1", 7, 8),
        punct('.', 8, 9),
        punct('.', 9, 10),
        lit("2", 10, 11),
        Tok::GroupTok(Delim::Brace, vec![ident("N", 13, 14)], sp(12, 15)),
    ];
    let out = derive_engine::seq_expand::seq(toks).expect("a negative bound parses");
    assert_eq!(out.len(), 3);
    assert_eq!(lit_text(&out[0]), "-1");
    assert_eq!(lit_text(&out[1]), "0");
    assert_eq!(lit_text(&out[2]), "1");
}

#[test]
fn doubled_minus_is_rejected() {
    let toks = vec![
        ident("N", 1, 2),
        ident("in", 3, 5),
        punct('-', 6, 7),
        punct('-', 7, 8),
        lit("1", 8, 9),
        punct('.', 9, 10),
        punct('.', 10, 11),
        lit("2", 11, 12),
        Tok::GroupTok(Delim::Brace, vec![], sp(13, 15)),
    ];
    assert!(derive_engine::seq_expand::seq(toks).is_none());
}

#[test]
fn trailing_tokens_are_rejected() {
    let mut toks = request("in", "0", "3", true, splice_body());
    toks.push(punct(';', 31, 32));
    assert!(derive_engine::seq_expand::seq(toks).is_none());
}

#[test]
fn decimal_rendering_is_exact() {
    assert_eq!(u64_to_string(0), "0");
    assert_eq!(u64_to_string(1234567890), "1234567890");
    assert_eq!(i64_to_string(-45), "-45");
    assert_eq!(i64_to_string(i64::MIN), "-9223372036854775808");
}

#[test]
fn literal_parsing_matches_the_signed_range() {
    assert_eq!(parse_int_lit("0"), Some(0));
    assert_eq!(parse_int_lit("9223372036854775807"), Some(i64::MAX));
    assert_eq!(parse_int_lit("9223372036854775808"), None);
    assert_eq!(parse_int_lit("-9223372036854775808"), Some(i64::MIN));
    assert_eq!(parse_int_lit("-9223372036854775809"), None);
    assert_eq!(parse_int_lit(""), None);
    assert_eq!(parse_int_lit("-"), None);
}

#[test]
fn literal_parsing_reads_radix_underscores_and_suffixes() {
    assert_eq!(parse_int_lit("0x1A"), Some(26));
    assert_eq!(parse_int_lit("0o17"), Some(15));
    assert_eq!(parse_int_lit("0b1010"), Some(10));
    assert_eq!(parse_int_lit("1_000_000"), Some(1000000));
    assert_eq!(parse_int_lit("3i64"), Some(3));
    assert_eq!(parse_int_lit("12a"), Some(12));
    assert_eq!(parse_int_lit("-0x10"), Some(-16));
    assert_eq!(parse_int_lit("0X1A"), Some(0));
}

#[test]
fn literal_parsing_rejects_floats_and_bad_digits() {
    assert_eq!(parse_int_lit("1.5"), None);
    assert_eq!(parse_int_lit("1e5"), None);
    assert_eq!(parse_int_lit("1e_5"), None);
    assert_eq!(parse_int_lit("1e+5"), None);
    assert_eq!(parse_int_lit("1em"), Some(1));
    assert_eq!(parse_int_lit("0o9"), None);
    assert_eq!(parse_int_lit("0b2"), None);
    assert_eq!(parse_int_lit("12$"), None);
}
