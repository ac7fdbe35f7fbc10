use ribir_reactive::codegen::{build_failure_tokens, not_subscribe_anything, NOT_SUBSCRIBE_MESSAGE};
use ribir_reactive::symbol::{
    symbol_to_macro, SyntaxError, SyntaxErrorKind, DECLARE_MESSAGE, KW_DOLLAR_STR, KW_RDL,
    REFERENCE_MESSAGE,
};
use ribir_reactive::tokens::{duplicate_stream, Delimiter, Spacing, Span, TokenTree};

fn id(name: &str, at: usize) -> TokenTree {
    TokenTree::ident(name, Span::new(at, at + name.len()))
}

fn p(ch: char, at: usize) -> TokenTree {
    TokenTree::punct(ch, Spacing::Alone, Span::new(at, at + 1))
}

fn braces(stream: Vec<TokenTree>, start: usize, end: usize) -> TokenTree {
    TokenTree::group(Delimiter::Brace, stream, Span::new(start, end))
}

fn bang() -> TokenTree {
    TokenTree::punct('!', Spacing::Alone, Span::call_site())
}

#[test]
fn plain_tokens_stay_as_they_are() {
    let input = vec![id("a", 0), p('+', 2), id("b", 4)];
    let out = symbol_to_macro(&input).unwrap();
    assert_eq!(out, input);
}

#[test]
fn empty_stream_stays_empty() {
    assert_eq!(symbol_to_macro(&vec![]), Ok(vec![]));
}

#[test]
fn dollar_becomes_a_reference_macro() {
    // $x
    let input = vec![p('$', 0), id("x", 1)];
    let out = symbol_to_macro(&input).unwrap();
    let expected = vec![
        TokenTree::ident(KW_DOLLAR_STR, Span::new(0, 1)),
        bang(),
        TokenTree::group(
            Delimiter::Parenthesis,
            vec![p('$', 0), id("x", 1)],
            Span::new(1, 2),
        ),
    ];
    assert_eq!(out, expected);
}

#[test]
fn dollar_without_identifier_is_an_error_at_the_next_token() {
    // $ 1
    let input = vec![p('$', 0), TokenTree::literal("1", Span::new(2, 3))];
    assert_eq!(
        symbol_to_macro(&input),
        Err(SyntaxError { kind: SyntaxErrorKind::Reference, span: Span::new(2, 3) })
    );
}

#[test]
fn dollar_at_the_end_is_an_error_at_the_dollar() {
    let input = vec![id("a", 0), p('$', 2)];
    assert_eq!(
        symbol_to_macro(&input),
        Err(SyntaxError { kind: SyntaxErrorKind::Reference, span: Span::new(2, 3) })
    );
}

#[test]
fn at_with_a_type_becomes_a_declaration() {
    // @ SizedBox { size }
    let body = braces(vec![id("size", 13)], 11, 19);
    let input = vec![p('@', 0), id("SizedBox", 2), body];
    let out = symbol_to_macro(&input).unwrap();
    let expected = vec![
        TokenTree::ident(KW_RDL, Span::new(0, 1)),
        bang(),
        TokenTree::group(
            Delimiter::Brace,
            vec![id("SizedBox", 2), braces(vec![id("size", 13)], 11, 19)],
            Span::call_site(),
        ),
    ];
    assert_eq!(out, expected);
}

#[test]
fn at_with_a_variable_parent_becomes_a_declaration() {
    // @ $row { }
    let input = vec![p('@', 0), p('$', 2), id("row", 3), braces(vec![], 7, 10)];
    let out = symbol_to_macro(&input).unwrap();
    let expected = vec![
        TokenTree::ident(KW_RDL, Span::new(0, 1)),
        bang(),
        TokenTree::group(
            Delimiter::Brace,
            vec![p('$', 2), id("row", 3), braces(vec![], 7, 10)],
            Span::call_site(),
        ),
    ];
    assert_eq!(out, expected);
}

#[test]
fn at_with_an_expression_keeps_the_group() {
    // @ { w }
    let input = vec![p('@', 0), braces(vec![id("w", 4)], 2, 7)];
    let out = symbol_to_macro(&input).unwrap();
    let expected =
        vec![TokenTree::ident(KW_RDL, Span::new(0, 1)), bang(), braces(vec![id("w", 4)], 2, 7)];
    assert_eq!(out, expected);
}

#[test]
fn body_of_a_declaration_is_left_alone() {
    // @ { $w }: the dollar inside belongs to the declaration macro
    let input = vec![p('@', 0), braces(vec![p('$', 4), id("w", 5)], 2, 8)];
    let out = symbol_to_macro(&input).unwrap();
    match &out[2] {
        TokenTree::Group { stream, .. } => assert_eq!(stream, &vec![p('$', 4), id("w", 5)]),
        _ => panic!("the body is a group"),
    }
}

#[test]
fn at_behind_an_identifier_is_a_binding() {
    // x @ Some(y)
    let input = vec![id("x", 0), p('@', 2), id("Some", 4)];
    let out = symbol_to_macro(&input).unwrap();
    assert_eq!(out, input);
}

#[test]
fn at_without_a_body_is_an_error_over_both_tokens() {
    // @ SizedBox ;
    let input = vec![p('@', 0), id("SizedBox", 2), p(';', 10)];
    assert_eq!(
        symbol_to_macro(&input),
        Err(SyntaxError { kind: SyntaxErrorKind::Declare, span: Span::new(0, 10) })
    );
}

#[test]
fn at_alone_is_an_error_at_the_at() {
    let input = vec![p('@', 3)];
    assert_eq!(
        symbol_to_macro(&input),
        Err(SyntaxError { kind: SyntaxErrorKind::Declare, span: Span::new(3, 4) })
    );
}

#[test]
fn at_before_a_literal_is_an_error_over_both() {
    let input = vec![p('@', 0), TokenTree::literal("1", Span::new(2, 3))];
    assert_eq!(
        symbol_to_macro(&input),
        Err(SyntaxError { kind: SyntaxErrorKind::Declare, span: Span::new(0, 3) })
    );
}

#[test]
fn at_dollar_without_a_variable_is_a_reference_error() {
    // @ $ { }
    let input = vec![p('@', 0), p('$', 2), braces(vec![], 4, 7)];
    assert_eq!(
        symbol_to_macro(&input),
        Err(SyntaxError { kind: SyntaxErrorKind::Reference, span: Span::new(2, 3) })
    );
}

#[test]
fn at_dollar_variable_without_a_body_is_an_error_over_all_three() {
    // @ $ row ;
    let input = vec![p('@', 0), p('$', 2), id("row", 3), p(';', 6)];
    assert_eq!(
        symbol_to_macro(&input),
        Err(SyntaxError { kind: SyntaxErrorKind::Declare, span: Span::new(0, 6) })
    );
}

#[test]
fn groups_are_rewritten_inside() {
    // ( $x )
    let input = vec![TokenTree::group(
        Delimiter::Parenthesis,
        vec![p('$', 1), id("x", 2)],
        Span::new(0, 4),
    )];
    let out = symbol_to_macro(&input).unwrap();
    match &out[0] {
        TokenTree::Group { delimiter, stream, span } => {
            assert_eq!(*delimiter, Delimiter::Parenthesis);
            assert_eq!(*span, Span::new(0, 4));
            assert_eq!(stream.len(), 3);
            assert_eq!(stream[0], TokenTree::ident(KW_DOLLAR_STR, Span::new(1, 2)));
        },
        _ => panic!("a group stays a group"),
    }
}

#[test]
fn bodies_of_macro_calls_are_left_alone() {
    // println ! ( $x )
    let body = TokenTree::group(
        Delimiter::Parenthesis,
        vec![p('$', 11), id("x", 12)],
        Span::new(10, 14),
    );
    let input = vec![id("println", 0), p('!', 8), body];
    let out = symbol_to_macro(&input).unwrap();
    assert_eq!(out, input);
}

#[test]
fn an_error_inside_a_group_is_the_error_of_the_stream() {
    let input = vec![
        id("a", 0),
        TokenTree::group(Delimiter::Bracket, vec![p('$', 3)], Span::new(2, 5)),
        p('$', 6),
    ];
    assert_eq!(
        symbol_to_macro(&input),
        Err(SyntaxError { kind: SyntaxErrorKind::Reference, span: Span::new(3, 4) })
    );
}

#[test]
fn the_first_error_wins() {
    let input = vec![p('@', 0), p(';', 1), p('$', 2)];
    assert_eq!(
        symbol_to_macro(&input),
        Err(SyntaxError { kind: SyntaxErrorKind::Declare, span: Span::new(0, 2) })
    );
}

#[test]
fn spans_join_to_the_cover() {
    assert_eq!(Span::new(3, 5).join(Span::new(1, 4)), Span::new(1, 5));
    assert_eq!(Span::new(1, 2).join(Span::new(7, 9)), Span::new(1, 9));
    assert_eq!(Span::call_site(), Span::new(0, 0));
}

#[test]
fn errors_have_their_messages() {
    let declare = SyntaxError { kind: SyntaxErrorKind::Declare, span: Span::new(0, 1) };
    let reference = SyntaxError { kind: SyntaxErrorKind::Reference, span: Span::new(0, 1) };
    assert_eq!(declare.message(), DECLARE_MESSAGE);
    assert_eq!(reference.message(), REFERENCE_MESSAGE);
    assert_eq!(reference.message(), "Syntax error: expected an identifier after `$`");
}

#[test]
fn a_build_failure_is_a_macro_call_with_the_message() {
    let span = Span::new(4, 9);
    let out = build_failure_tokens("no", span);
    let expected = vec![
        TokenTree::ident("compile_error", span),
        TokenTree::punct('!', Spacing::Alone, span),
        TokenTree::group(
            Delimiter::Parenthesis,
            vec![TokenTree::literal("no", span)],
            span,
        ),
    ];
    assert_eq!(out, expected);
    assert_eq!(not_subscribe_anything(span), build_failure_tokens(NOT_SUBSCRIBE_MESSAGE, span));
}

#[test]
fn a_copy_of_a_stream_is_equal_to_it() {
    let input = vec![id("a", 0), braces(vec![p('$', 3), id("b", 4)], 2, 6)];
    assert_eq!(duplicate_stream(&input), input);
}
