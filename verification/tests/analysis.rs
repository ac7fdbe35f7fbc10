use ribir_reactive::analysis::{AnalyzeError, MacroKind, KW_EXPANDED};
use ribir_reactive::builtin::{facet_accessor_of, facet_variable_of, BuiltinTable};
use ribir_reactive::codegen::ctx_handle_tokens;
use ribir_reactive::ctx::DollarRefsCtx;
use ribir_reactive::expr::{Expr, Member};
use ribir_reactive::fn_widget::{analyze, analyze_in, gen_code};
use ribir_reactive::fold::{classify_macro, is_state_write_method, parse_dollar_macro};
use ribir_reactive::names::Ident;
use ribir_reactive::refs::{BuiltinInfo, DollarRef};
use ribir_reactive::scope::DollarRefsScope;
use ribir_reactive::symbol::{KW_CTX, KW_DOLLAR_STR, KW_FN_WIDGET, KW_PIPE, KW_RDL, KW_WATCH};
use ribir_reactive::tokens::{duplicate_stream, Delimiter, Spacing, Span, TokenTree};

fn cs() -> Span {
    Span::call_site()
}

fn name(n: &str) -> Ident {
    Ident::new(n, cs())
}

fn word(n: &str) -> TokenTree {
    TokenTree::ident(n, cs())
}

fn mark(ch: char) -> TokenTree {
    TokenTree::punct(ch, Spacing::Alone, cs())
}

fn parens(inner: Vec<TokenTree>) -> TokenTree {
    TokenTree::group(Delimiter::Parenthesis, inner, cs())
}

fn dollar(n: &str) -> Expr {
    Expr::Macro {
        path: name(KW_DOLLAR_STR),
        tokens: vec![mark('$'), word(n)],
        code: vec![],
    }
}

fn call(path: &str, code: Vec<Expr>) -> Expr {
    Expr::Macro { path: name(path), tokens: vec![], code }
}

fn expanded(tokens: Vec<TokenTree>) -> Expr {
    Expr::Macro { path: name(KW_EXPANDED), tokens, code: vec![] }
}

fn read_of(n: &str) -> Expr {
    expanded(vec![word(n), mark('.'), word("read"), parens(vec![])])
}

fn leaf() -> Expr {
    Expr::Syntax { parts: vec![] }
}

fn bind(n: &str) -> Expr {
    Expr::PatIdent { ident: name(n), subpat: None }
}

fn let_(n: &str, init: Option<Expr>) -> Expr {
    Expr::Local { pat: Box::new(bind(n)), init: init.map(Box::new) }
}

fn closure(capture: bool, typed: bool, inputs: Vec<Expr>, body: Expr) -> Expr {
    Expr::Closure { capture, typed, inputs, body: Box::new(body) }
}

fn method(receiver: Expr, m: &str, args: Vec<Expr>) -> Expr {
    Expr::MethodCall { receiver: Box::new(receiver), method: name(m), args }
}

fn field(base: Expr, m: &str) -> Expr {
    Expr::Field { base: Box::new(base), member: Member::Named(name(m)) }
}

fn plain(n: &str, write: bool) -> DollarRef {
    DollarRef { name: name(n), builtin: None, write }
}

fn facet(host: &str, facet: &str, write: bool) -> DollarRef {
    DollarRef {
        name: name(&format!("{host}_{facet}")),
        builtin: Some(BuiltinInfo {
            host: name(host),
            member: name(&format!("get_builtin_{facet}")),
        }),
        write,
    }
}

fn scope_of(refs: Vec<DollarRef>, used_ctx: bool) -> DollarRefsScope {
    let mut scope = DollarRefsScope::new();
    for r in refs {
        scope.push(r);
    }
    scope.merge_used_ctx(used_ctx);
    scope
}

fn refs_of(scope: &DollarRefsScope) -> Vec<DollarRef> {
    (0..scope.len()).map(|i| scope.get(i).duplicate()).collect()
}

fn table() -> BuiltinTable {
    let mut t = BuiltinTable::new();
    t.add_field("margin", "Margin");
    t.add_field("h_align", "HAlignWidget");
    t.add_field("cursor", "Cursor");
    t.add_method("layout_size", "LayoutBox");
    t
}

fn facet_access(host: &str, facet: &str) -> Vec<TokenTree> {
    vec![
        word(host),
        mark('.'),
        word(&format!("get_builtin_{facet}")),
        parens(vec![word(KW_CTX), mark('!'), parens(vec![])]),
    ]
}

#[test]
fn a_fresh_state_has_one_scope_and_one_frame() {
    let ctx = DollarRefsCtx::top_level();
    assert_eq!(ctx.scope_depth(), 1);
    assert_eq!(ctx.frame_depth(), 1);
    assert_eq!(ctx.capture_depth(), 0);
}

#[test]
fn a_declared_variable_is_local() {
    let mut ctx = DollarRefsCtx::top_level();
    assert!(!ctx.is_local_var(&name("a")));
    ctx.new_local_var(&name("a"));
    assert!(ctx.is_local_var(&name("a")));
    assert!(!ctx.is_local_var(&name("b")));
}

#[test]
fn a_variable_of_an_inner_block_ends_with_the_block() {
    let mut ctx = DollarRefsCtx::top_level();
    ctx.push_code_stack();
    ctx.new_local_var(&name("a"));
    assert!(ctx.is_local_var(&name("a")));
    ctx.pop_code_stack();
    assert!(!ctx.is_local_var(&name("a")));
    assert_eq!(ctx.frame_depth(), 1);
}

#[test]
fn a_variable_of_the_outside_is_not_local_in_a_capturing_scope() {
    let mut ctx = DollarRefsCtx::top_level();
    ctx.new_local_var(&name("a"));
    ctx.new_dollar_scope(true);
    assert_eq!(ctx.capture_depth(), 1);
    assert_eq!(ctx.frame_depth(), 2);
    assert!(!ctx.is_local_var(&name("a")));
    ctx.new_local_var(&name("b"));
    assert!(ctx.is_local_var(&name("b")));
    let scope = ctx.pop_dollar_scope(true);
    assert!(scope.is_empty());
    assert!(ctx.is_local_var(&name("a")));
    assert!(!ctx.is_local_var(&name("b")));
    assert_eq!(ctx.capture_depth(), 0);
}

#[test]
fn a_scope_without_capture_level_sees_the_locals_around_it() {
    let mut ctx = DollarRefsCtx::top_level();
    ctx.new_local_var(&name("a"));
    ctx.new_dollar_scope(false);
    assert_eq!(ctx.scope_depth(), 2);
    assert_eq!(ctx.frame_depth(), 1);
    assert!(ctx.is_local_var(&name("a")));
    ctx.add_dollar_ref(plain("a", false));
    let scope = ctx.pop_dollar_scope(false);
    assert!(scope.is_empty());
}

#[test]
fn a_reference_to_a_local_is_not_recorded() {
    let mut ctx = DollarRefsCtx::top_level();
    ctx.new_dollar_scope(true);
    ctx.new_local_var(&name("x"));
    ctx.add_dollar_ref(plain("x", false));
    ctx.add_dollar_ref(plain("y", false));
    let scope = ctx.pop_dollar_scope(true);
    assert_eq!(refs_of(&scope), vec![plain("y", false)]);
}

#[test]
fn a_manifest_is_sorted_with_facets_first() {
    let mut ctx = DollarRefsCtx::top_level();
    ctx.add_dollar_ref(plain("x", false));
    ctx.add_dollar_ref(plain("b", false));
    ctx.add_dollar_ref(facet("x", "margin", false));
    ctx.add_dollar_ref(plain("a", true));
    ctx.add_dollar_ref(facet("a", "cursor", true));
    let scope = ctx.pop_dollar_scope(false);
    assert_eq!(
        refs_of(&scope),
        vec![
            facet("a", "cursor", true),
            facet("x", "margin", false),
            plain("a", true),
            plain("b", false),
            plain("x", false),
        ]
    );
    assert_eq!(ctx.scope_depth(), 0);
}

#[test]
fn of_a_reader_and_a_writer_the_writer_stays() {
    let mut ctx = DollarRefsCtx::top_level();
    ctx.add_dollar_ref(plain("a", false));
    ctx.add_dollar_ref(plain("a", true));
    ctx.add_dollar_ref(plain("a", false));
    ctx.add_dollar_ref(facet("a", "margin", false));
    ctx.add_dollar_ref(facet("a", "margin", true));
    let scope = ctx.pop_dollar_scope(false);
    assert_eq!(refs_of(&scope), vec![facet("a", "margin", true), plain("a", true)]);
}

#[test]
fn of_two_facets_of_one_name_the_one_met_first_stays() {
    // the facet `c` of `a_b` and the facet `b_c` of `a` have one name
    let mut ctx = DollarRefsCtx::top_level();
    ctx.add_dollar_ref(facet("a", "b_c", false));
    ctx.add_dollar_ref(facet("a_b", "c", false));
    let scope = ctx.pop_dollar_scope(false);
    assert_eq!(refs_of(&scope), vec![facet("a", "b_c", false)]);

    let mut ctx = DollarRefsCtx::top_level();
    ctx.add_dollar_ref(facet("a_b", "c", false));
    ctx.add_dollar_ref(facet("a", "b_c", false));
    ctx.add_dollar_ref(plain("a_b_c", true));
    let scope = ctx.pop_dollar_scope(false);
    // a cell of the name of a facet gives way to the facet, which is
    // written where the cell is
    assert_eq!(refs_of(&scope), vec![facet("a_b", "c", true)]);
}

#[test]
fn no_name_stands_twice_in_a_manifest() {
    let mut ctx = DollarRefsCtx::top_level();
    ctx.add_dollar_ref(plain("a_margin", false));
    ctx.add_dollar_ref(plain("b", false));
    ctx.add_dollar_ref(facet("a", "margin", false));
    ctx.add_dollar_ref(plain("a", true));
    ctx.add_dollar_ref(plain("b", false));
    ctx.add_dollar_ref(plain("a_margin", false));
    ctx.add_dollar_ref(plain("a", false));
    let scope = ctx.pop_dollar_scope(false);
    let refs = refs_of(&scope);
    assert_eq!(refs, vec![facet("a", "margin", false), plain("a", true), plain("b", false)]);
    for i in 0..refs.len() {
        for j in 0..i {
            assert_ne!(refs[i].name.name, refs[j].name.name);
        }
    }
}

#[test]
fn a_written_cell_makes_the_facet_of_its_name_written() {
    let mut ctx = DollarRefsCtx::top_level();
    ctx.add_dollar_ref(plain("a_margin", true));
    ctx.add_dollar_ref(plain("z", false));
    ctx.add_dollar_ref(facet("a", "margin", false));
    let scope = ctx.pop_dollar_scope(false);
    assert_eq!(refs_of(&scope), vec![facet("a", "margin", true), plain("z", false)]);

    // a read cell leaves the facet as it is
    let mut ctx = DollarRefsCtx::top_level();
    ctx.add_dollar_ref(plain("a_margin", false));
    ctx.add_dollar_ref(facet("a", "margin", false));
    let scope = ctx.pop_dollar_scope(false);
    assert_eq!(refs_of(&scope), vec![facet("a", "margin", false)]);
}

#[test]
fn a_manifest_made_into_a_manifest_stays_as_it_is() {
    let mut ctx = DollarRefsCtx::top_level();
    ctx.add_dollar_ref(plain("a_margin", true));
    ctx.add_dollar_ref(plain("z", false));
    ctx.add_dollar_ref(facet("a", "margin", false));
    ctx.add_dollar_ref(plain("b", false));
    ctx.add_dollar_ref(plain("z", true));
    let first = refs_of(&ctx.pop_dollar_scope(false));
    assert_eq!(first, vec![facet("a", "margin", true), plain("b", false), plain("z", true)]);

    let mut ctx = DollarRefsCtx::top_level();
    for r in &first {
        ctx.add_dollar_ref(r.duplicate());
    }
    assert_eq!(refs_of(&ctx.pop_dollar_scope(false)), first);
}

#[test]
fn names_are_ordered_by_their_characters() {
    let mut ctx = DollarRefsCtx::top_level();
    for n in ["b", "ab", "a", "B", "abc", "ä", "z"] {
        ctx.add_dollar_ref(plain(n, false));
    }
    let scope = ctx.pop_dollar_scope(false);
    let names: Vec<String> = refs_of(&scope).into_iter().map(|r| r.name.name).collect();
    assert_eq!(names, vec!["B", "a", "ab", "abc", "b", "z", "ä"]);
}

#[test]
fn a_closing_scope_hands_on_what_is_not_local_around_it() {
    let mut ctx = DollarRefsCtx::top_level();
    ctx.new_dollar_scope(true);
    ctx.new_local_var(&name("mine"));
    ctx.new_dollar_scope(true);
    ctx.add_dollar_ref(plain("mine", false));
    ctx.add_dollar_ref(plain("far", true));
    ctx.add_dollar_ref(facet("far", "margin", false));
    ctx.mark_used_ctx();
    let inner = ctx.pop_dollar_scope(true);
    // the inner closure holds all three, the facet as a facet
    assert_eq!(
        refs_of(&inner),
        vec![facet("far", "margin", false), plain("far", true), plain("mine", false)]
    );
    assert!(inner.used_ctx());
    let outer = ctx.pop_dollar_scope(true);
    // the outer closure captures what is not its own; the facet that the
    // inner closure has taken is an ordinary variable to it
    assert_eq!(refs_of(&outer), vec![plain("far", true), plain("far_margin", false)]);
    assert!(outer.used_ctx());
    let top = ctx.pop_dollar_scope(false);
    assert_eq!(refs_of(&top), vec![plain("far", true), plain("far_margin", false)]);
    assert!(top.used_ctx());
}

#[test]
fn a_scope_can_be_closed_where_it_can_hand_on_or_has_nothing() {
    let mut ctx = DollarRefsCtx::top_level();
    assert!(ctx.may_pop_dollar_scope(false));
    // the outermost scope opens no capture level, and has none to close
    assert!(ctx.may_pop_dollar_scope(true));
    ctx.new_dollar_scope(true);
    assert!(ctx.may_pop_dollar_scope(true));
    assert!(ctx.may_pop_dollar_scope(false));
    ctx.add_dollar_ref(plain("a", false));
    assert!(ctx.may_pop_dollar_scope(true));
    let inner = ctx.pop_dollar_scope(true);
    assert_eq!(refs_of(&inner), vec![plain("a", false)]);
    assert!(ctx.may_pop_dollar_scope(false));
    let top = ctx.pop_dollar_scope(false);
    assert_eq!(refs_of(&top), vec![plain("a", false)]);
    // no scope is left
    assert!(!ctx.may_pop_dollar_scope(false));
    assert!(!ctx.may_pop_dollar_scope(true));
}

#[test]
fn a_scope_cannot_hand_on_where_the_level_around_it_has_lost_its_frames() {
    let mut ctx = DollarRefsCtx::top_level();
    ctx.new_dollar_scope(true);
    assert!(ctx.may_pop_code_stack());
    ctx.pop_code_stack();
    ctx.new_dollar_scope(true);
    assert!(ctx.may_pop_code_stack());
    ctx.pop_code_stack();
    // both levels begin behind the one frame that is left
    assert!(!ctx.may_pop_code_stack());
    // with nothing to hand on the scope can be closed
    assert!(ctx.may_pop_dollar_scope(true));
    ctx.add_dollar_ref(plain("a", false));
    // with a reference it cannot: the level around it would begin behind
    // the frames that are left
    assert!(!ctx.may_pop_dollar_scope(true));
    assert!(ctx.may_pop_dollar_scope(false));
    let inner = ctx.pop_dollar_scope(false);
    assert_eq!(refs_of(&inner), vec![plain("a", false)]);
    assert_eq!(ctx.scope_depth(), 2);
}

#[test]
fn a_scope_without_capture_level_hands_facets_on_as_facets() {
    let mut ctx = DollarRefsCtx::top_level();
    ctx.new_dollar_scope(false);
    ctx.add_dollar_ref(facet("a", "margin", false));
    let inner = ctx.pop_dollar_scope(false);
    assert_eq!(refs_of(&inner), vec![facet("a", "margin", false)]);
    let top = ctx.pop_dollar_scope(false);
    assert_eq!(refs_of(&top), vec![facet("a", "margin", false)]);
}

#[test]
fn capture_statements_clone_readers_and_writers() {
    let scope = scope_of(
        vec![
            facet("a", "margin", false),
            facet("b", "cursor", true),
            plain("c", false),
            plain("d", true),
        ],
        false,
    );
    let mut expected = vec![];
    // let a_margin = a.get_builtin_margin(ctx!()).clone_reader();
    expected.extend([word("let"), word("a_margin"), mark('=')]);
    expected.extend(facet_access("a", "margin"));
    expected.extend([mark('.'), word("clone_reader"), parens(vec![]), mark(';')]);
    // let b_cursor = b.get_builtin_cursor(ctx!()).clone_writer();
    expected.extend([word("let"), word("b_cursor"), mark('=')]);
    expected.extend(facet_access("b", "cursor"));
    expected.extend([mark('.'), word("clone_writer"), parens(vec![]), mark(';')]);
    // let c = c.clone_reader();
    expected.extend([word("let"), word("c"), mark('='), word("c")]);
    expected.extend([mark('.'), word("clone_reader"), parens(vec![]), mark(';')]);
    // let d = d.clone_writer();
    expected.extend([word("let"), word("d"), mark('='), word("d")]);
    expected.extend([mark('.'), word("clone_writer"), parens(vec![]), mark(';')]);
    assert_eq!(scope.to_tokens(), expected);
}

#[test]
fn capture_statements_are_reported_at_the_name() {
    let at = Span::new(7, 8);
    let scope = scope_of(
        vec![DollarRef { name: Ident::new("c", at), builtin: None, write: false }],
        false,
    );
    let expected = vec![
        TokenTree::ident("let", at),
        TokenTree::ident("c", at),
        TokenTree::punct('=', Spacing::Alone, at),
        TokenTree::ident("c", at),
        TokenTree::punct('.', Spacing::Alone, at),
        TokenTree::ident("clone_reader", at),
        TokenTree::group(Delimiter::Parenthesis, vec![], at),
        TokenTree::punct(';', Spacing::Alone, at),
    ];
    assert_eq!(scope.to_tokens(), expected);
}

#[test]
fn no_cell_has_no_upstream() {
    assert_eq!(scope_of(vec![], false).upstream_tokens(), vec![]);
}

#[test]
fn one_cell_is_its_own_upstream() {
    let scope = scope_of(vec![plain("a", false)], false);
    assert_eq!(
        scope.upstream_tokens(),
        vec![word("a"), mark('.'), word("modifies"), parens(vec![])]
    );
}

#[test]
fn several_cells_are_merged_upstream() {
    let scope = scope_of(vec![plain("a", false), plain("b", true), plain("c", false)], false);
    let modifies =
        |n: &str| vec![word(n), mark('.'), word("modifies"), parens(vec![])];
    let mut list = modifies("a");
    list.push(mark(','));
    list.extend(modifies("b"));
    list.push(mark(','));
    list.extend(modifies("c"));
    let expected = vec![
        word("observable"),
        TokenTree::punct(':', Spacing::Joint, cs()),
        mark(':'),
        word("from_iter"),
        parens(vec![TokenTree::group(Delimiter::Bracket, list, cs())]),
        mark('.'),
        word("merge_all"),
        parens(vec![
            word("usize"),
            TokenTree::punct(':', Spacing::Joint, cs()),
            mark(':'),
            word("MAX"),
        ]),
    ];
    assert_eq!(scope.upstream_tokens(), expected);
}

#[test]
fn the_handle_statement_asks_the_context() {
    let expected = vec![
        word("let"),
        word("_ctx_handle"),
        mark('='),
        word(KW_CTX),
        mark('!'),
        parens(vec![]),
        mark('.'),
        word("handle"),
        parens(vec![]),
        mark(';'),
    ];
    assert_eq!(ctx_handle_tokens(cs()), expected);
}

#[test]
fn a_facet_is_reached_through_its_host() {
    let ctx = DollarRefsCtx::top_level();
    assert_eq!(ctx.builtin_host_tokens(&facet("a", "margin", false)), facet_access("a", "margin"));
}

#[test]
fn a_facet_is_a_variable_inside_a_closure_in_a_closure() {
    let mut ctx = DollarRefsCtx::top_level();
    ctx.new_dollar_scope(true);
    assert_eq!(ctx.builtin_host_tokens(&facet("a", "margin", false)), facet_access("a", "margin"));
    ctx.new_dollar_scope(true);
    assert_eq!(ctx.builtin_host_tokens(&facet("a", "margin", false)), vec![word("a_margin")]);
    ctx.new_local_var(&name("a"));
    assert_eq!(ctx.builtin_host_tokens(&facet("a", "margin", false)), facet_access("a", "margin"));
}

#[test]
fn facets_are_named_after_the_host_and_the_facet() {
    let host = Ident::new("a", Span::new(3, 4));
    assert_eq!(facet_variable_of(&host, "margin"), Ident::new("a_margin", Span::new(3, 4)));
    assert_eq!(
        facet_accessor_of(&host, "margin"),
        Ident::new("get_builtin_margin", Span::new(3, 4))
    );
}

#[test]
fn the_table_finds_the_first_entry_of_a_member() {
    let mut t = table();
    t.add_field("margin", "Other");
    assert_eq!(t.field_facet("margin").map(|s| s.as_str()), Some("Margin"));
    assert_eq!(t.field_facet("padding"), None);
    assert_eq!(t.method_facet("layout_size").map(|s| s.as_str()), Some("LayoutBox"));
    assert_eq!(t.method_facet("margin"), None);
}

#[test]
fn macros_are_told_apart_by_their_paths() {
    assert_eq!(classify_macro(&name(KW_DOLLAR_STR)), MacroKind::Reference);
    assert_eq!(classify_macro(&name("watch")), MacroKind::Watch);
    assert_eq!(classify_macro(&name("pipe")), MacroKind::Pipe);
    assert_eq!(classify_macro(&name("rdl")), MacroKind::Rdl);
    assert_eq!(classify_macro(&name("fn_widget")), MacroKind::FnWidget);
    assert_eq!(classify_macro(&name("split_writer")), MacroKind::SplitWriter);
    assert_eq!(classify_macro(&name("map_writer")), MacroKind::MapWriter);
    assert_eq!(classify_macro(&name("ctx")), MacroKind::Ctx);
    assert_eq!(classify_macro(&name("println")), MacroKind::Other);
    assert_eq!(classify_macro(&name(KW_EXPANDED)), MacroKind::Other);
}

#[test]
fn write_silent_and_shallow_take_the_writer() {
    assert!(is_state_write_method(&name("write")));
    assert!(is_state_write_method(&name("silent")));
    assert!(is_state_write_method(&name("shallow")));
    assert!(!is_state_write_method(&name("read")));
    assert!(!is_state_write_method(&name("writer")));
}

#[test]
fn a_reference_macro_names_its_cell() {
    assert_eq!(parse_dollar_macro(&vec![mark('$'), word("a")]), Some(name("a")));
    assert_eq!(parse_dollar_macro(&vec![mark('$')]), None);
    assert_eq!(parse_dollar_macro(&vec![word("a")]), None);
    assert_eq!(parse_dollar_macro(&vec![mark('#'), word("a")]), None);
    assert_eq!(parse_dollar_macro(&vec![mark('$'), word("a"), word("b")]), None);
    assert_eq!(parse_dollar_macro(&vec![]), None);
}

#[test]
fn a_reference_reads_its_cell() {
    let (out, manifest) = analyze(&dollar("a"), &table()).unwrap();
    assert_eq!(out, read_of("a"));
    assert_eq!(refs_of(&manifest), vec![plain("a", false)]);
    assert!(!manifest.used_ctx());
}

#[test]
fn a_rewritten_reference_is_reported_where_the_reference_stood() {
    let at = Span::new(5, 6);
    let name_at = Span::new(6, 7);
    let reference = Expr::Macro {
        path: Ident::new(KW_DOLLAR_STR, at),
        tokens: vec![
            TokenTree::punct('$', Spacing::Alone, at),
            TokenTree::ident("a", name_at),
        ],
        code: vec![],
    };
    let (out, manifest) = analyze(&reference, &table()).unwrap();
    let expected = Expr::Macro {
        path: Ident::new(KW_EXPANDED, at),
        tokens: vec![
            TokenTree::ident("a", name_at),
            TokenTree::punct('.', Spacing::Alone, name_at),
            TokenTree::ident("read", name_at),
            TokenTree::group(Delimiter::Parenthesis, vec![], name_at),
        ],
        code: vec![],
    };
    assert_eq!(out, expected);
    assert_eq!(refs_of(&manifest), vec![DollarRef {
        name: Ident::new("a", name_at),
        builtin: None,
        write: false,
    }]);
}

#[test]
fn a_malformed_reference_is_an_error() {
    let bad = Expr::Macro {
        path: Ident::new(KW_DOLLAR_STR, Span::new(2, 3)),
        tokens: vec![mark('$')],
        code: vec![],
    };
    assert_eq!(
        analyze(&bad, &table()),
        Err(AnalyzeError::MalformedReference { span: Span::new(2, 3) })
    );
    let in_write = method(
        Expr::Macro { path: Ident::new(KW_DOLLAR_STR, Span::new(4, 5)), tokens: vec![], code: vec![] },
        "write",
        vec![],
    );
    assert_eq!(
        analyze(&in_write, &table()),
        Err(AnalyzeError::MalformedReference { span: Span::new(4, 5) })
    );
}

#[test]
fn a_write_takes_the_writer() {
    let tree = method(dollar("a"), "write", vec![]);
    let (out, manifest) = analyze(&tree, &table()).unwrap();
    assert_eq!(out, method(expanded(vec![word("a")]), "write", vec![]));
    assert_eq!(refs_of(&manifest), vec![plain("a", true)]);
}

#[test]
fn a_read_and_a_write_of_one_cell_make_one_writer() {
    let tree = Expr::Syntax {
        parts: vec![dollar("a"), method(dollar("a"), "silent", vec![]), dollar("b")],
    };
    let (_, manifest) = analyze(&tree, &table()).unwrap();
    assert_eq!(refs_of(&manifest), vec![plain("a", true), plain("b", false)]);
}

#[test]
fn a_member_of_a_facet_goes_to_the_facet() {
    // $a.margin
    let tree = field(dollar("a"), "margin");
    let (out, manifest) = analyze(&tree, &table()).unwrap();
    let mut tokens = facet_access("a", "margin");
    tokens.extend([mark('.'), word("read"), parens(vec![])]);
    assert_eq!(out, field(expanded(tokens), "margin"));
    assert_eq!(refs_of(&manifest), vec![facet("a", "margin", false)]);
}

#[test]
fn the_name_of_a_facet_is_written_in_snake_case() {
    // $a.h_align belongs to the facet HAlignWidget
    let tree = field(dollar("a"), "h_align");
    let (_, manifest) = analyze(&tree, &table()).unwrap();
    assert_eq!(refs_of(&manifest), vec![facet("a", "h_align_widget", false)]);
}

#[test]
fn a_member_of_no_facet_reads_the_cell() {
    // $a.size
    let tree = field(dollar("a"), "size");
    let (out, manifest) = analyze(&tree, &table()).unwrap();
    assert_eq!(out, field(read_of("a"), "size"));
    assert_eq!(refs_of(&manifest), vec![plain("a", false)]);
}

#[test]
fn an_unnamed_member_reads_the_cell() {
    let tree = Expr::Field { base: Box::new(dollar("a")), member: Member::Unnamed(0) };
    let (out, _) = analyze(&tree, &table()).unwrap();
    assert_eq!(out, Expr::Field { base: Box::new(read_of("a")), member: Member::Unnamed(0) });
}

#[test]
fn a_written_facet_is_reached_without_reading() {
    // $a.write().margin
    let tree = field(method(dollar("a"), "write", vec![]), "margin");
    let (out, manifest) = analyze(&tree, &table()).unwrap();
    let expected = field(method(expanded(facet_access("a", "margin")), "write", vec![]), "margin");
    assert_eq!(out, expected);
    assert_eq!(refs_of(&manifest), vec![facet("a", "margin", true)]);
}

#[test]
fn a_method_of_a_facet_goes_to_the_facet() {
    // $a.layout_size()
    let tree = method(dollar("a"), "layout_size", vec![]);
    let (out, manifest) = analyze(&tree, &table()).unwrap();
    let mut tokens = facet_access("a", "layout_box");
    tokens.extend([mark('.'), word("read"), parens(vec![])]);
    assert_eq!(out, method(expanded(tokens), "layout_size", vec![]));
    assert_eq!(refs_of(&manifest), vec![facet("a", "layout_box", false)]);
}

#[test]
fn the_arguments_of_a_call_on_a_cell_are_analysed() {
    // $a.write($b)
    let tree = method(dollar("a"), "write", vec![dollar("b")]);
    let (out, manifest) = analyze(&tree, &table()).unwrap();
    assert_eq!(out, method(expanded(vec![word("a")]), "write", vec![read_of("b")]));
    assert_eq!(refs_of(&manifest), vec![plain("a", true), plain("b", false)]);
}

#[test]
fn a_local_variable_is_no_reference_to_the_outside() {
    // { let a = $b; $a }
    let tree = Expr::Block { parts: vec![let_("a", Some(dollar("b"))), dollar("a")] };
    let (out, manifest) = analyze(&tree, &table()).unwrap();
    assert_eq!(
        out,
        Expr::Block { parts: vec![let_("a", Some(read_of("b"))), read_of("a")] }
    );
    assert_eq!(refs_of(&manifest), vec![plain("b", false)]);
}

#[test]
fn an_initialiser_does_not_see_what_its_pattern_binds() {
    // let a = $a;
    let tree = let_("a", Some(dollar("a")));
    let (_, manifest) = analyze(&tree, &table()).unwrap();
    assert_eq!(refs_of(&manifest), vec![plain("a", false)]);
}

#[test]
fn a_variable_ends_with_its_block() {
    // { let a = 1; } $a
    let tree = Expr::Syntax {
        parts: vec![Expr::Block { parts: vec![let_("a", Some(leaf()))] }, dollar("a")],
    };
    let (_, manifest) = analyze(&tree, &table()).unwrap();
    assert_eq!(refs_of(&manifest), vec![plain("a", false)]);
}

#[test]
fn a_constant_is_a_local_variable() {
    let tree = Expr::Syntax {
        parts: vec![Expr::ItemConst { ident: name("A"), parts: vec![leaf()] }, dollar("A")],
    };
    let (_, manifest) = analyze(&tree, &table()).unwrap();
    assert!(manifest.is_empty());
}

#[test]
fn a_capturing_closure_holds_what_it_refers_to() {
    // move || $a
    let tree = closure(true, false, vec![], dollar("a"));
    let (out, manifest) = analyze(&tree, &table()).unwrap();
    let expected = Expr::Captured {
        scope: scope_of(vec![plain("a", false)], false),
        closure: Box::new(closure(true, false, vec![], read_of("a"))),
    };
    assert_eq!(out, expected);
    assert_eq!(refs_of(&manifest), vec![plain("a", false)]);
}

#[test]
fn a_closure_holds_each_cell_it_refers_to_once() {
    // move |p| { $b; $a; let c = $a.write(); $c; $p; $a.margin; $b }
    let body = Expr::Block {
        parts: vec![
            dollar("b"),
            dollar("a"),
            let_("c", Some(method(dollar("a"), "write", vec![]))),
            dollar("c"),
            dollar("p"),
            field(dollar("a"), "margin"),
            dollar("b"),
        ],
    };
    let tree = closure(true, false, vec![bind("p")], body);
    let (out, manifest) = analyze(&tree, &table()).unwrap();
    let captured = vec![facet("a", "margin", false), plain("a", true), plain("b", false)];
    match out {
        Expr::Captured { scope, .. } => assert_eq!(refs_of(&scope), captured),
        other => panic!("the closure captures: {other:?}"),
    }
    // the code around the closure declares none of them; the facet that the
    // closure has taken is a variable to it
    assert_eq!(
        refs_of(&manifest),
        vec![plain("a", true), plain("a_margin", false), plain("b", false)]
    );
}

#[test]
fn a_closure_captures_what_it_refers_to_before_declaring_it() {
    // move || { $a; let a = 1; $a.write(); { let b = 1; } $b }
    let body = Expr::Block {
        parts: vec![
            dollar("a"),
            let_("a", Some(leaf())),
            method(dollar("a"), "write", vec![]),
            Expr::Block { parts: vec![let_("b", Some(leaf()))] },
            dollar("b"),
        ],
    };
    let tree = closure(true, false, vec![], body);
    let (out, _) = analyze(&tree, &table()).unwrap();
    match out {
        // the write goes to the variable of the closure; the inner `b` has
        // ended where `b` is referred to
        Expr::Captured { scope, .. } => {
            assert_eq!(refs_of(&scope), vec![plain("a", false), plain("b", false)])
        },
        other => panic!("the closure captures: {other:?}"),
    }
}

#[test]
fn a_closure_never_captures_what_it_declares() {
    // move |p| { let a = p; $a; $p }
    let body = Expr::Block { parts: vec![let_("a", Some(leaf())), dollar("a"), dollar("p")] };
    let tree = closure(true, false, vec![bind("p")], body);
    let (out, manifest) = analyze(&tree, &table()).unwrap();
    let expected = closure(
        true,
        false,
        vec![bind("p")],
        Expr::Block { parts: vec![let_("a", Some(leaf())), read_of("a"), read_of("p")] },
    );
    assert_eq!(out, expected);
    assert!(manifest.is_empty());
}

#[test]
fn a_closure_captures_a_local_of_the_code_around_it() {
    // { let a = 1; move || $a }
    let tree = Expr::Block {
        parts: vec![let_("a", Some(leaf())), closure(true, false, vec![], dollar("a"))],
    };
    let (out, manifest) = analyze(&tree, &table()).unwrap();
    let expected = Expr::Block {
        parts: vec![
            let_("a", Some(leaf())),
            Expr::Captured {
                scope: scope_of(vec![plain("a", false)], false),
                closure: Box::new(closure(true, false, vec![], read_of("a"))),
            },
        ],
    };
    assert_eq!(out, expected);
    // the code around the closure declares `a` itself
    assert!(manifest.is_empty());
}

#[test]
fn a_closure_that_does_not_capture_shares_the_scope() {
    // || $a
    let tree = closure(false, false, vec![], dollar("a"));
    let (out, manifest) = analyze(&tree, &table()).unwrap();
    assert_eq!(out, closure(false, false, vec![], read_of("a")));
    assert_eq!(refs_of(&manifest), vec![plain("a", false)]);
}

#[test]
fn a_closure_that_uses_the_context_runs_with_it() {
    // move || ctx!()
    let tree = closure(true, false, vec![], call(KW_CTX, vec![]));
    let (out, manifest) = analyze(&tree, &table()).unwrap();
    let expected = Expr::Captured {
        scope: scope_of(vec![], true),
        closure: Box::new(closure(
            true,
            false,
            vec![],
            Expr::WithCtx { braced: false, body: Box::new(call(KW_CTX, vec![])) },
        )),
    };
    assert_eq!(out, expected);
    assert!(manifest.used_ctx());
}

#[test]
fn a_closure_with_a_declared_result_gets_braces() {
    // move || -> T { ctx!(); $a }
    let body = Expr::Block { parts: vec![call(KW_CTX, vec![]), dollar("a")] };
    let tree = closure(true, true, vec![], body);
    let (out, _) = analyze(&tree, &table()).unwrap();
    let expected = Expr::Captured {
        scope: scope_of(vec![plain("a", false)], true),
        closure: Box::new(closure(
            true,
            true,
            vec![],
            Expr::WithCtx {
                braced: true,
                body: Box::new(Expr::Block { parts: vec![call(KW_CTX, vec![]), read_of("a")] }),
            },
        )),
    };
    assert_eq!(out, expected);
}

#[test]
fn a_facet_in_a_closure_is_captured_alone() {
    // move || $a.margin
    let tree = closure(true, false, vec![], field(dollar("a"), "margin"));
    let (out, manifest) = analyze(&tree, &table()).unwrap();
    let mut tokens = facet_access("a", "margin");
    tokens.extend([mark('.'), word("read"), parens(vec![])]);
    // the closure takes the facet for itself; to the code around, what the
    // closure took is an ordinary variable
    let expected = Expr::Captured {
        scope: scope_of(vec![facet("a", "margin", false)], false),
        closure: Box::new(closure(true, false, vec![], field(expanded(tokens), "margin"))),
    };
    assert_eq!(out, expected);
    match out {
        Expr::Captured { scope, .. } => {
            assert_eq!(refs_of(&scope), vec![facet("a", "margin", false)]);
            assert!(!scope.used_ctx());
        },
        other => panic!("the closure captures: {other:?}"),
    }
    assert_eq!(refs_of(&manifest), vec![plain("a_margin", false)]);
}

#[test]
fn a_derived_value_needs_a_cell() {
    let tokens = vec![TokenTree::literal("1", Span::new(6, 7))];
    let pipe = Expr::Macro { path: name(KW_PIPE), tokens: duplicate_stream(&tokens), code: vec![leaf()] };
    assert_eq!(
        analyze(&pipe, &table()),
        Err(AnalyzeError::NotSubscribeAnything { span: Span::new(6, 7) })
    );
    let watch = Expr::Macro { path: name(KW_WATCH), tokens, code: vec![leaf()] };
    assert_eq!(
        analyze(&watch, &table()),
        Err(AnalyzeError::NotSubscribeAnything { span: Span::new(6, 7) })
    );
}

#[test]
fn a_derived_value_captures_locals_of_the_code_around_it() {
    // { let a = 1; pipe!($a) }
    let tree = Expr::Block {
        parts: vec![let_("a", Some(leaf())), call(KW_PIPE, vec![dollar("a")])],
    };
    // `a` is declared outside the derived value, which has a capture level
    // of its own: it is a cell to it
    let (out, manifest) = analyze(&tree, &table()).unwrap();
    match out {
        Expr::Block { parts } => match &parts[1] {
            Expr::Generated { scope, .. } => {
                assert_eq!(refs_of(scope), vec![plain("a", false)])
            },
            other => panic!("the macro is rewritten: {other:?}"),
        },
        other => panic!("a block stays a block: {other:?}"),
    }
    assert!(manifest.is_empty());
    assert!(manifest.used_ctx());
}

#[test]
fn a_pipe_uses_the_context_and_a_watch_does_not() {
    let (out, manifest) = analyze(&call(KW_PIPE, vec![dollar("a")]), &table()).unwrap();
    assert_eq!(
        out,
        Expr::Generated {
            origin: name(KW_PIPE),
            scope: scope_of(vec![plain("a", false)], false),
            code: vec![read_of("a")],
        }
    );
    assert!(manifest.used_ctx());
    assert_eq!(refs_of(&manifest), vec![plain("a", false)]);

    let (out, manifest) = analyze(&call(KW_WATCH, vec![dollar("a")]), &table()).unwrap();
    assert_eq!(
        out,
        Expr::Generated {
            origin: name(KW_WATCH),
            scope: scope_of(vec![plain("a", false)], false),
            code: vec![read_of("a")],
        }
    );
    assert!(!manifest.used_ctx());
}

#[test]
fn a_declaration_is_analysed_where_it_stands() {
    // { let a = 1; rdl!{ $a; $b } }
    let tree = Expr::Block {
        parts: vec![let_("a", Some(leaf())), call(KW_RDL, vec![dollar("a"), dollar("b")])],
    };
    let (out, manifest) = analyze(&tree, &table()).unwrap();
    let expected = Expr::Block {
        parts: vec![
            let_("a", Some(leaf())),
            Expr::Generated {
                origin: name(KW_RDL),
                scope: DollarRefsScope::new(),
                code: vec![read_of("a"), read_of("b")],
            },
        ],
    };
    assert_eq!(out, expected);
    assert_eq!(refs_of(&manifest), vec![plain("b", false)]);
    assert!(manifest.used_ctx());
}

#[test]
fn other_macros_are_left_alone() {
    let other = Expr::Macro {
        path: name("println"),
        tokens: vec![mark('$'), word("a")],
        code: vec![dollar("a")],
    };
    let (out, manifest) = analyze(&other, &table()).unwrap();
    assert_eq!(out, other);
    assert!(manifest.is_empty());
}

#[test]
fn a_deferred_widget_has_a_scope_of_its_own() {
    // fn_widget!{ let a = 1; $a; $b } inside code that is analysed
    let code = vec![let_("a", Some(leaf())), dollar("a"), dollar("b")];
    let mut ctx = DollarRefsCtx::top_level();
    let out = gen_code(&code, Some(&mut ctx), &table()).unwrap();
    let expected = Expr::Generated {
        origin: name(KW_FN_WIDGET),
        scope: scope_of(vec![plain("b", false)], false),
        code: vec![let_("a", Some(leaf())), read_of("a"), read_of("b")],
    };
    assert_eq!(out, expected);
    assert_eq!(ctx.scope_depth(), 1);
    // what the widget declares stays declared in the frame around it
    assert!(ctx.is_local_var(&name("a")));
    let top = ctx.pop_dollar_scope(false);
    assert_eq!(refs_of(&top), vec![plain("b", false)]);
}

#[test]
fn a_deferred_widget_alone_is_analysed_in_a_fresh_state() {
    let code = vec![dollar("b"), method(dollar("a"), "write", vec![])];
    let out = gen_code(&code, None, &table()).unwrap();
    let expected = Expr::Generated {
        origin: name(KW_FN_WIDGET),
        scope: scope_of(vec![plain("a", true), plain("b", false)], false),
        code: vec![read_of("b"), method(expanded(vec![word("a")]), "write", vec![])],
    };
    assert_eq!(out, expected);
}

#[test]
fn a_deferred_widget_in_code_is_the_macro_call_analysed() {
    let tree = call(KW_FN_WIDGET, vec![dollar("b")]);
    let (out, _) = analyze(&tree, &table()).unwrap();
    let mut ctx = DollarRefsCtx::top_level();
    let direct = gen_code(&vec![dollar("b")], Some(&mut ctx), &table()).unwrap();
    assert_eq!(out, direct);
}

#[test]
fn analysis_inside_other_code_hands_on_what_is_not_local() {
    let mut ctx = DollarRefsCtx::top_level();
    ctx.new_local_var(&name("a"));
    let tree = Expr::Syntax { parts: vec![dollar("a"), dollar("b")] };
    let (out, manifest) = analyze_in(&mut ctx, &tree, &table()).unwrap();
    assert_eq!(out, Expr::Syntax { parts: vec![read_of("a"), read_of("b")] });
    assert_eq!(refs_of(&manifest), vec![plain("b", false)]);
    let top = ctx.pop_dollar_scope(false);
    assert_eq!(refs_of(&top), vec![plain("b", false)]);
}

#[test]
fn analysing_twice_changes_nothing() {
    let body = Expr::Block {
        parts: vec![
            let_("x", Some(dollar("a"))),
            field(dollar("b"), "margin"),
            method(dollar("c"), "write", vec![dollar("d")]),
            closure(true, false, vec![bind("p")], dollar("p")),
            closure(true, true, vec![], Expr::Block { parts: vec![call(KW_CTX, vec![]), dollar("e")] }),
            call(KW_PIPE, vec![dollar("f")]),
            call(KW_FN_WIDGET, vec![dollar("g")]),
            call(KW_CTX, vec![]),
            call("println", vec![]),
        ],
    };
    let (once, first) = analyze(&body, &table()).unwrap();
    let (twice, second) = analyze(&once, &table()).unwrap();
    assert_eq!(twice, once);
    assert!(!first.is_empty());
    // nothing is left to refer to; the request for the context stays
    assert!(second.is_empty());
    assert!(second.used_ctx());
}

#[test]
fn an_error_leaves_no_tree() {
    let tree = Expr::Block {
        parts: vec![dollar("a"), call(KW_WATCH, vec![leaf()]), dollar("b")],
    };
    assert!(matches!(
        analyze(&tree, &table()),
        Err(AnalyzeError::NotSubscribeAnything { .. })
    ));
}

#[test]
fn a_copy_of_a_tree_is_equal_to_it() {
    let tree = Expr::Block {
        parts: vec![
            let_("x", Some(dollar("a"))),
            field(dollar("b"), "margin"),
            closure(true, true, vec![bind("p")], method(dollar("c"), "write", vec![])),
        ],
    };
    let (out, _) = analyze(&tree, &table()).unwrap();
    assert_eq!(tree.duplicate(), tree);
    assert_eq!(out.duplicate(), out);
}
