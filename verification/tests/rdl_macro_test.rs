use ribir_reactive::analysis::KW_EXPANDED;
use ribir_reactive::builtin::BuiltinTable;
use ribir_reactive::cell::{Modification, MutationKind, StateCell, StreamId};
use ribir_reactive::derived::DerivedValue;
use ribir_reactive::expr::{Expr, Member};
use ribir_reactive::fn_widget::{analyze, gen_code};
use ribir_reactive::fragments::{Child, Children, NodeId};
use ribir_reactive::geom::{BoxClamp, Size};
use ribir_reactive::names::Ident;
use ribir_reactive::refs::{BuiltinInfo, DollarRef};
use ribir_reactive::registry::{CallbackId, OwnerId, SubscriptionRegistry};
use ribir_reactive::scope::DollarRefsScope;
use ribir_reactive::slots::SlotTable;
use ribir_reactive::symbol::{KW_DOLLAR_STR, KW_FN_WIDGET, KW_PIPE, KW_RDL, KW_WATCH};
use ribir_reactive::tokens::{Spacing, Span, TokenTree};
use ribir_reactive::wrap_render::{LayoutOnly, Margin, Render, RenderPair, SizedBox};

const ZERO_SIZE: Size = Size { width: 0, height: 0 };

fn window() -> BoxClamp {
    BoxClamp { min: ZERO_SIZE, max: Size { width: 10_000, height: 10_000 } }
}

fn sized(size: Size) -> SizedBox {
    SizedBox { size, mark: 0, transform: None }
}

fn size_of<R: Render>(node: &R) -> Size {
    node.perform_layout(window())
}

fn with_margin(margin: u32, size: Size) -> Size {
    size_of(&RenderPair { wrapper: LayoutOnly(Margin { margin }), host: sized(size) })
}

/// The size of children laid out side by side.
fn flex(children: &[Size]) -> Size {
    Size {
        width: children.iter().map(|s| s.width).sum(),
        height: children.iter().map(|s| s.height).max().unwrap_or(0),
    }
}

/// The size of children laid out on top of each other.
fn stack(children: &[Size]) -> Size {
    Size {
        width: children.iter().map(|s| s.width).max().unwrap_or(0),
        height: children.iter().map(|s| s.height).max().unwrap_or(0),
    }
}

fn area(size: Size) -> u32 {
    size.width * size.height
}

fn double(size: Size) -> Size {
    Size::new(size.width * 2, size.height * 2)
}

fn var(n: &str) -> Ident {
    Ident::new(n, Span::call_site())
}

fn cell_ref(n: &str) -> Expr {
    Expr::Macro {
        path: var(KW_DOLLAR_STR),
        tokens: vec![
            TokenTree::punct('$', Spacing::Alone, Span::call_site()),
            TokenTree::ident(n, Span::call_site()),
        ],
        code: vec![],
    }
}

fn member(base: Expr, m: &str) -> Expr {
    Expr::Field { base: Box::new(base), member: Member::Named(var(m)) }
}

fn call_on(receiver: Expr, m: &str) -> Expr {
    Expr::MethodCall { receiver: Box::new(receiver), method: var(m), args: vec![] }
}

fn macro_call(path: &str, code: Vec<Expr>) -> Expr {
    Expr::Macro { path: var(path), tokens: vec![], code }
}

fn declare(n: &str) -> Expr {
    Expr::Local {
        pat: Box::new(Expr::PatIdent { ident: var(n), subpat: None }),
        init: Some(Box::new(Expr::Syntax { parts: vec![] })),
    }
}

fn move_closure(inputs: Vec<Expr>, body: Expr) -> Expr {
    Expr::Closure { capture: true, typed: false, inputs, body: Box::new(body) }
}

fn reader(n: &str) -> DollarRef {
    DollarRef { name: var(n), builtin: None, write: false }
}

fn writer(n: &str) -> DollarRef {
    DollarRef { name: var(n), builtin: None, write: true }
}

fn facet_of(host: &str, facet: &str, write: bool) -> DollarRef {
    DollarRef {
        name: var(&format!("{host}_{facet}")),
        builtin: Some(BuiltinInfo {
            host: var(host),
            member: var(&format!("get_builtin_{facet}")),
        }),
        write,
    }
}

fn entries(scope: &DollarRefsScope) -> Vec<DollarRef> {
    (0..scope.len()).map(|i| scope.get(i).duplicate()).collect()
}

fn builtins() -> BuiltinTable {
    let mut t = BuiltinTable::new();
    t.add_field("margin", "Margin");
    t.add_field("cursor", "Cursor");
    t.add_field("opacity", "Opacity");
    t.add_method("layout_size", "LayoutBox");
    t
}

fn captured_of(tree: &Expr) -> Vec<Vec<DollarRef>> {
    let mut found = vec![];
    collect_captured(tree, &mut found);
    found
}

fn collect_captured(tree: &Expr, found: &mut Vec<Vec<DollarRef>>) {
    match tree {
        Expr::Captured { scope, closure } => {
            found.push(entries(scope));
            collect_captured(closure, found);
        },
        Expr::Syntax { parts } | Expr::Block { parts } | Expr::ItemConst { parts, .. } => {
            parts.iter().for_each(|p| collect_captured(p, found))
        },
        Expr::Closure { inputs, body, .. } => {
            inputs.iter().for_each(|p| collect_captured(p, found));
            collect_captured(body, found);
        },
        Expr::Local { pat, init } => {
            if let Some(i) = init {
                collect_captured(i, found);
            }
            collect_captured(pat, found);
        },
        Expr::Field { base, .. } => collect_captured(base, found),
        Expr::MethodCall { receiver, args, .. } => {
            collect_captured(receiver, found);
            args.iter().for_each(|p| collect_captured(p, found));
        },
        Expr::Generated { code, .. } | Expr::Macro { code, .. } => {
            code.iter().for_each(|p| collect_captured(p, found))
        },
        Expr::WithCtx { body, .. } => collect_captured(body, found),
        Expr::PatIdent { .. } => {},
    }
}

/// Tells every listener of `event`, and hands each call to `each`.
fn deliver(registry: &SubscriptionRegistry, event: Modification, mut each: impl FnMut(CallbackId)) {
    for call in registry.emit(event) {
        each(call.callback);
    }
}

#[test]
fn pipe_single_parent() {
    let mut registry = SubscriptionRegistry::new();
    let mut outside_blank = StateCell::new(true, registry.new_stream());
    // the parent is a margin of 5 while `outside_blank` holds, else nothing
    let mut blank = DerivedValue::new(
        &mut registry,
        vec![outside_blank.modifications()],
        |v: &Vec<bool>| if v[0] { 5 } else { 0 },
        &vec![*outside_blank.value()],
        CallbackId(0),
        OwnerId(0),
    )
    .unwrap();
    // fn_widget! { pipe!{ fn_widget!{ if *$outside_blank { .. } else { .. } } } }
    let tree = macro_call(KW_PIPE, vec![macro_call(KW_FN_WIDGET, vec![cell_ref("outside_blank")])]);
    let (_, manifest) = analyze(&tree, &builtins()).unwrap();
    assert_eq!(entries(&manifest), vec![reader("outside_blank")]);

    assert_eq!(with_margin(*blank.value(), Size::new(100, 100)), Size::new(110, 110));

    let event = outside_blank.modify(MutationKind::Notify, false).unwrap();
    deliver(&registry, event, |_| {
        blank.notified(MutationKind::Notify, &vec![false]);
    });
    assert_eq!(with_margin(*blank.value(), Size::new(100, 100)), Size::new(100, 100));
}

#[test]
fn pipe_multi_parent() {
    let mut registry = SubscriptionRegistry::new();
    let mut stack_or_flex = StateCell::new(true, registry.new_stream());
    let boxes = [Size::new(100, 100), Size::new(100, 100)];
    let layout = move |v: &Vec<bool>| if v[0] { stack(&boxes) } else { flex(&boxes) };
    let mut container = DerivedValue::new(
        &mut registry,
        vec![stack_or_flex.modifications()],
        layout,
        &vec![*stack_or_flex.value()],
        CallbackId(0),
        OwnerId(0),
    )
    .unwrap();
    assert_eq!(*container.value(), Size::new(100, 100));

    let event = stack_or_flex.modify(MutationKind::Notify, false).unwrap();
    deliver(&registry, event, |_| {
        container.notified(MutationKind::Notify, &vec![false]);
    });
    assert_eq!(*container.value(), Size::new(200, 100));
}

#[test]
fn pipe_as_child() {
    let mut registry = SubscriptionRegistry::new();
    let mut box_or_not = StateCell::new(true, registry.new_stream());
    let mut blank = DerivedValue::new(
        &mut registry,
        vec![box_or_not.modifications()],
        |v: &Vec<bool>| if v[0] { vec![NodeId(1)] } else { vec![] },
        &vec![*box_or_not.value()],
        CallbackId(0),
        OwnerId(0),
    )
    .unwrap();
    let mut children = Children::new();
    children.push(Child::Produced { by: blank.output(), nodes: blank.value().clone() });
    let root = |children: &Children| {
        let sizes: Vec<Size> = children.flatten().iter().map(|_| Size::new(100, 100)).collect();
        stack(&sizes)
    };
    assert_eq!(root(&children), Size::new(100, 100));

    let event = box_or_not.modify(MutationKind::Notify, false).unwrap();
    deliver(&registry, event, |_| {
        blank.notified(MutationKind::Notify, &vec![false]);
        children.replace(blank.output(), blank.value());
    });
    assert_eq!(root(&children), ZERO_SIZE);
}

#[test]
fn pipe_as_multi_child() {
    let mut registry = SubscriptionRegistry::new();
    let mut cnt = StateCell::new(0u64, registry.new_stream());
    let mut boxes = DerivedValue::new(
        &mut registry,
        vec![cnt.modifications()],
        |v: &Vec<u64>| (0..v[0]).map(NodeId).collect::<Vec<_>>(),
        &vec![*cnt.value()],
        CallbackId(0),
        OwnerId(0),
    )
    .unwrap();
    let mut children = Children::new();
    children.push(Child::Produced { by: boxes.output(), nodes: boxes.value().clone() });
    let root = |children: &Children| {
        let sizes: Vec<Size> = children.flatten().iter().map(|_| Size::new(100, 100)).collect();
        flex(&sizes)
    };
    assert_eq!(root(&children), ZERO_SIZE);

    let event = cnt.modify(MutationKind::Notify, 3).unwrap();
    deliver(&registry, event, |_| {
        boxes.notified(MutationKind::Notify, &vec![3]);
        children.replace(boxes.output(), boxes.value());
    });
    assert_eq!(root(&children), Size::new(300, 100));
}

#[test]
fn closure_in_fn_widget_capture() {
    // fn_widget! {
    //   let mut text = @Text { text: "hi" };
    //   let on_mounted = move |_: &mut _| *$hi_res.write() = $text.text.clone();
    //   ..
    // }
    let on_mounted = move_closure(
        vec![Expr::Syntax { parts: vec![] }],
        Expr::Syntax {
            parts: vec![
                call_on(cell_ref("hi_res"), "write"),
                call_on(member(cell_ref("text"), "text"), "clone"),
            ],
        },
    );
    let code = vec![declare("text"), on_mounted];
    let out = gen_code(&code, None, &builtins()).unwrap();
    // the closure holds the writer of the outside cell and the reader of
    // the text declared in the widget
    assert_eq!(captured_of(&out), vec![vec![writer("hi_res"), reader("text")]]);
    // the widget itself refers to the outside cell only
    match &out {
        Expr::Generated { scope, .. } => assert_eq!(entries(scope), vec![writer("hi_res")]),
        other => panic!("the widget is generated: {other:?}"),
    }

    let mut hi_res = StateCell::new(String::new(), StreamId(0));
    let text = StateCell::new(String::from("hi"), StreamId(1));
    // on mounted
    hi_res.modify(MutationKind::Notify, text.value().clone()).unwrap();
    assert_eq!(&**hi_res.value(), "hi");
}

#[test]
fn declare_smoke() {
    // fn_widget! { @SizedBox { size: Size::new(500.,500.), background: Color::RED } }
    let code = vec![macro_call(KW_RDL, vec![Expr::Syntax { parts: vec![] }])];
    let out = gen_code(&code, None, &builtins()).unwrap();
    assert!(matches!(out, Expr::Generated { .. }));
    let _ = sized(Size::new(500, 500));
}

#[test]
fn simple_ref_bind_work() {
    let mut registry = SubscriptionRegistry::new();
    let size = Size::new(100, 100);
    let mut size2 = StateCell::new(size, registry.new_stream());
    // @SizedBox { size: pipe!($size2.size), on_tap: move |_| $size2.write().size *= 2. }
    let mut bound = DerivedValue::new(
        &mut registry,
        vec![size2.modifications()],
        |v: &Vec<Size>| v[0],
        &vec![*size2.value()],
        CallbackId(0),
        OwnerId(0),
    )
    .unwrap();
    let tree = Expr::Syntax {
        parts: vec![
            macro_call(KW_PIPE, vec![member(cell_ref("size2"), "size")]),
            move_closure(vec![], member(call_on(cell_ref("size2"), "write"), "size")),
        ],
    };
    let (out, manifest) = analyze(&tree, &builtins()).unwrap();
    assert_eq!(captured_of(&out), vec![vec![writer("size2")]]);
    assert_eq!(entries(&manifest), vec![writer("size2")]);

    let flex_size = Size::new(200, 100);
    let root = |bound: &Size, own: &Size| flex(&[size_of(&sized(*bound)), size_of(&sized(*own))]);
    assert_eq!(root(bound.value(), size2.value()), flex_size);

    // tap
    let event = size2.modify(MutationKind::Notify, double(*size2.value())).unwrap();
    let now = *size2.value();
    deliver(&registry, event, |_| {
        bound.notified(MutationKind::Notify, &vec![now]);
    });
    assert_eq!(root(bound.value(), size2.value()), double(flex_size));
}

#[test]
fn event_attr_sugar_work() {
    const BEFORE_SIZE: Size = Size { width: 50, height: 50 };
    const AFTER_TAP_SIZE: Size = Size { width: 100, height: 100 };
    let mut registry = SubscriptionRegistry::new();
    let mut sized_box = StateCell::new(BEFORE_SIZE, registry.new_stream());
    let mut child = DerivedValue::new(
        &mut registry,
        vec![sized_box.modifications()],
        |v: &Vec<Size>| v[0],
        &vec![*sized_box.value()],
        CallbackId(0),
        OwnerId(0),
    )
    .unwrap();
    // the child lives in the box, which admits its own size only
    let layout = |parent: &Size, child: &Size| {
        let root = size_of(&sized(*parent));
        (root, BoxClamp::fixed(root).clamp(*child))
    };
    assert_eq!(layout(sized_box.value(), child.value()), (BEFORE_SIZE, BEFORE_SIZE));

    let event = sized_box.modify(MutationKind::Notify, AFTER_TAP_SIZE).unwrap();
    deliver(&registry, event, |_| {
        child.notified(MutationKind::Notify, &vec![AFTER_TAP_SIZE]);
    });
    assert_eq!(layout(sized_box.value(), child.value()), (AFTER_TAP_SIZE, AFTER_TAP_SIZE));
}

#[test]
fn widget_wrap_bind_work() {
    let mut registry = SubscriptionRegistry::new();
    let sibling_size = Size::new(50, 50);
    let mut sibling_margin = StateCell::new(1u32, registry.new_stream());
    // margin: pipe!(*$sibling.margin)
    let mut margin = DerivedValue::new(
        &mut registry,
        vec![sibling_margin.modifications()],
        |v: &Vec<u32>| v[0],
        &vec![*sibling_margin.value()],
        CallbackId(0),
        OwnerId(0),
    )
    .unwrap();
    // size: pipe!{ if $sibling.margin.left > 1. { Size::zero() } else { $sibling.size } }
    let mut size = DerivedValue::new(
        &mut registry,
        vec![sibling_margin.modifications()],
        move |v: &Vec<u32>| if v[0] > 1 { ZERO_SIZE } else { sibling_size },
        &vec![*sibling_margin.value()],
        CallbackId(1),
        OwnerId(0),
    )
    .unwrap();
    let tree = Expr::Syntax {
        parts: vec![
            macro_call(KW_PIPE, vec![member(cell_ref("sibling"), "margin")]),
            macro_call(
                KW_PIPE,
                vec![member(cell_ref("sibling"), "margin"), member(cell_ref("sibling"), "size")],
            ),
            move_closure(vec![], member(call_on(cell_ref("sibling"), "write"), "margin")),
        ],
    };
    let (out, manifest) = analyze(&tree, &builtins()).unwrap();
    assert_eq!(captured_of(&out), vec![vec![facet_of("sibling", "margin", true)]]);
    assert_eq!(entries(&manifest), vec![reader("sibling"), writer("sibling_margin")]);

    let root = |own: u32, margin: u32, size: Size| {
        flex(&[with_margin(own, sibling_size), with_margin(margin, size)])
    };
    assert_eq!(root(*sibling_margin.value(), *margin.value(), *size.value()), Size::new(104, 52));

    // tap
    let event = sibling_margin.modify(MutationKind::Notify, 5).unwrap();
    deliver(&registry, event, |callback| {
        if callback == CallbackId(0) {
            margin.notified(MutationKind::Notify, &vec![5]);
        } else {
            size.notified(MutationKind::Notify, &vec![5]);
        }
    });
    assert_eq!(root(*sibling_margin.value(), *margin.value(), *size.value()), Size::new(70, 60));
}

#[test]
fn expression_parent() {
    // fn_widget! { @(parent()) { background: Color::RED, @ { Void } } }
    let code = vec![macro_call(
        KW_RDL,
        vec![Expr::Syntax { parts: vec![] }, macro_call(KW_RDL, vec![Expr::Syntax { parts: vec![] }])],
    )];
    let out = gen_code(&code, None, &builtins()).unwrap();
    match out {
        Expr::Generated { scope, code, .. } => {
            assert!(scope.is_empty());
            assert!(scope.used_ctx());
            assert_eq!(code.len(), 1);
        },
        other => panic!("the widget is generated: {other:?}"),
    }
}

#[test]
fn expression_for_children() {
    let mut registry = SubscriptionRegistry::new();
    let size_one = Size::new(1, 1);
    let size_five = Size::new(5, 5);
    let mut sized_box = StateCell::new(size_one, registry.new_stream());
    let pipes = |registry: &mut SubscriptionRegistry, stream: StreamId, now: Size, id: u64| {
        DerivedValue::new(
            registry,
            vec![stream],
            |v: &Vec<Size>| v[0],
            &vec![now],
            CallbackId(id),
            OwnerId(0),
        )
        .unwrap()
    };
    let stream = sized_box.modifications();
    let mut multi_box = vec![
        pipes(&mut registry, stream, size_one, 0),
        pipes(&mut registry, stream, size_one, 1),
        pipes(&mut registry, stream, size_one, 2),
    ];
    // pipe!($sized_box.size.area() > 2.).map(|v| v.then(|| ..))
    let mut pipe_box = DerivedValue::new(
        &mut registry,
        vec![stream],
        |v: &Vec<Size>| if area(v[0]) > 2 { vec![v[0]] } else { vec![] },
        &vec![size_one],
        CallbackId(3),
        OwnerId(0),
    )
    .unwrap();
    let children = |own: &Size, multi: &Vec<_>, last: &Vec<Size>| {
        let mut sizes = vec![*own];
        sizes.extend(multi.iter().copied());
        sizes.push(last.first().copied().unwrap_or(ZERO_SIZE));
        sizes
    };
    let sizes_of = |multi: &Vec<DerivedValue<Size, Size, _>>| {
        multi.iter().map(|p| *p.value()).collect::<Vec<_>>()
    };

    let sizes = children(sized_box.value(), &sizes_of(&multi_box), pipe_box.value());
    assert_eq!(flex(&sizes), Size::new(4, 1));
    assert_eq!(sizes, vec![size_one, size_one, size_one, size_one, ZERO_SIZE]);

    // tap
    let event = sized_box.modify(MutationKind::Notify, size_five).unwrap();
    deliver(&registry, event, |callback| match callback.0 {
        3 => {
            pipe_box.notified(MutationKind::Notify, &vec![size_five]);
        },
        i => {
            multi_box[i as usize].notified(MutationKind::Notify, &vec![size_five]);
        },
    });
    let sizes = children(sized_box.value(), &sizes_of(&multi_box), pipe_box.value());
    assert_eq!(flex(&sizes), Size::new(25, 5));
    assert_eq!(sizes, vec![size_five, size_five, size_five, size_five, size_five]);
}

#[test]
fn embed_widget_ref_outside() {
    let mut registry = SubscriptionRegistry::new();
    let mut first = StateCell::new(Size::new(1, 1), registry.new_stream());
    let stream = first.modifications();
    let mut three_box: Vec<_> = (0..3)
        .map(|i| {
            DerivedValue::new(
                &mut registry,
                vec![stream],
                |v: &Vec<Size>| v[0],
                &vec![Size::new(1, 1)],
                CallbackId(i),
                OwnerId(0),
            )
            .unwrap()
        })
        .collect();
    // (0..3).map(move |_| @SizedBox { size: pipe!($first.size) })
    let tree = move_closure(
        vec![Expr::Syntax { parts: vec![] }],
        macro_call(KW_RDL, vec![macro_call(KW_PIPE, vec![member(cell_ref("first"), "size")])]),
    );
    let (out, _) = analyze(&Expr::Block { parts: vec![declare("first"), tree] }, &builtins()).unwrap();
    assert_eq!(captured_of(&out), vec![vec![reader("first")]]);

    let root = |first: &Size, boxes: &Vec<DerivedValue<Size, Size, _>>| {
        let mut sizes = vec![*first];
        sizes.extend(boxes.iter().map(|b| *b.value()));
        flex(&sizes)
    };
    assert_eq!(root(first.value(), &three_box), Size::new(4, 1));

    // tap
    let event = first.modify(MutationKind::Notify, Size::new(2, 2)).unwrap();
    deliver(&registry, event, |callback| {
        three_box[callback.0 as usize].notified(MutationKind::Notify, &vec![Size::new(2, 2)]);
    });
    assert_eq!(root(first.value(), &three_box), Size::new(8, 2));
}

#[test]
fn bind_fields() {
    let mut registry = SubscriptionRegistry::new();
    let size = Size::new(1, 1);
    let mut a = StateCell::new(size, registry.new_stream());
    // let b = @SizedBox { size: pipe!($a.size) };
    let mut b = DerivedValue::new(
        &mut registry,
        vec![a.modifications()],
        |v: &Vec<Size>| v[0],
        &vec![*a.value()],
        CallbackId(0),
        OwnerId(0),
    )
    .unwrap();
    // watch!($a.size + $b.size).subscribe(move |v| $c.write().size = v);
    let mut sum = DerivedValue::new(
        &mut registry,
        vec![a.modifications(), b.output()],
        |v: &Vec<Size>| Size::new(v[0].width + v[1].width, v[0].height + v[1].height),
        &vec![*a.value(), *b.value()],
        CallbackId(1),
        OwnerId(0),
    )
    .unwrap();
    let mut c = StateCell::new(size, registry.new_stream());
    c.modify(MutationKind::Notify, *sum.value()).unwrap();

    let tree = Expr::Syntax {
        parts: vec![
            macro_call(KW_WATCH, vec![member(cell_ref("a"), "size"), member(cell_ref("b"), "size")]),
            move_closure(vec![Expr::PatIdent { ident: var("v"), subpat: None }], member(
                call_on(cell_ref("c"), "write"),
                "size",
            )),
        ],
    };
    let (out, manifest) = analyze(&tree, &builtins()).unwrap();
    assert_eq!(captured_of(&out), vec![vec![writer("c")]]);
    assert_eq!(entries(&manifest), vec![reader("a"), reader("b"), writer("c")]);

    let size = flex(&[*a.value(), *b.value(), *c.value()]);
    assert_eq!(size, Size::new(4, 2));

    // tap
    let event = a.modify(MutationKind::Notify, double(*a.value())).unwrap();
    let mut pending = vec![event];
    while let Some(event) = pending.pop() {
        for call in registry.emit(event) {
            if call.callback == CallbackId(0) {
                pending.extend(b.notified(call.kind, &vec![*a.value()]));
            } else {
                sum.notified(call.kind, &vec![*a.value(), *b.value()]);
                c.modify(MutationKind::Notify, *sum.value()).unwrap();
            }
        }
    }
    let size = flex(&[*a.value(), *b.value(), *c.value()]);
    assert_eq!(size, Size::new(8, 4));
}

#[derive(Clone, Copy, Debug, PartialEq, Eq)]
enum CursorIcon {
    Default,
    Pointer,
    Help,
    AllScroll,
}

#[test]
fn builtin_ref() {
    let mut icon = StateCell::new(CursorIcon::Default, StreamId(0));
    let mut cursor = StateCell::new(CursorIcon::Pointer, StreamId(1));
    // on_tap: move |_| {
    //   *$tap_box.write().cursor = CursorIcon::AllScroll;
    //   *$w_icon.write() = *$tap_box.cursor;
    // }
    let on_tap = move_closure(
        vec![Expr::Syntax { parts: vec![] }],
        Expr::Block {
            parts: vec![
                member(call_on(cell_ref("tap_box"), "write"), "cursor"),
                call_on(cell_ref("w_icon"), "write"),
                member(cell_ref("tap_box"), "cursor"),
            ],
        },
    );
    let code = vec![
        declare("tap_box"),
        macro_call(KW_PIPE, vec![member(cell_ref("tap_box"), "cursor")]),
        on_tap,
    ];
    let out = gen_code(&code, None, &builtins()).unwrap();
    // the pipe and the closure hold the cursor of the box, not the box
    match &out {
        Expr::Generated { code, .. } => match &code[1] {
            Expr::Generated { scope, .. } => {
                assert_eq!(entries(scope), vec![facet_of("tap_box", "cursor", false)])
            },
            other => panic!("the pipe is generated: {other:?}"),
        },
        other => panic!("the widget is generated: {other:?}"),
    }
    assert_eq!(
        captured_of(&out),
        vec![vec![facet_of("tap_box", "cursor", true), writer("w_icon")]]
    );

    // tap
    cursor.modify(MutationKind::Notify, CursorIcon::AllScroll).unwrap();
    icon.modify(MutationKind::Notify, *cursor.value()).unwrap();
    assert_eq!(*icon.value(), CursorIcon::AllScroll);
}

#[test]
fn builtin_bind_to_self() {
    let mut registry = SubscriptionRegistry::new();
    let mut icon = StateCell::new(CursorIcon::Default, registry.new_stream());
    let mut sized_box = StateCell::new(Size::new(5, 5), registry.new_stream());
    // cursor: pipe!{
    //   let icon = if $sized_box.size.area() < 100. { Pointer } else { Help };
    //   *w_icon.silent() = icon;
    //   icon
    // }
    let mut cursor = DerivedValue::new(
        &mut registry,
        vec![sized_box.modifications()],
        |v: &Vec<Size>| if area(v[0]) < 100 { CursorIcon::Pointer } else { CursorIcon::Help },
        &vec![*sized_box.value()],
        CallbackId(0),
        OwnerId(0),
    )
    .unwrap();
    icon.modify(MutationKind::Silent, *cursor.value()).unwrap();
    assert_eq!(*icon.value(), CursorIcon::Pointer);

    // on_tap: move |_| $sized_box.write().size = Size::new(20.,20.)
    let event = sized_box.modify(MutationKind::Notify, Size::new(20, 20)).unwrap();
    let now = *sized_box.value();
    deliver(&registry, event, |_| {
        cursor.notified(MutationKind::Notify, &vec![now]);
    });
    let silent = icon.modify(MutationKind::Silent, *cursor.value()).unwrap();
    assert!(registry.emit(silent).is_empty());
    assert_eq!(*icon.value(), CursorIcon::Help);
}

#[test]
fn builtin_method_support() {
    let mut registry = SubscriptionRegistry::new();
    let mut layout_size = StateCell::new(ZERO_SIZE, registry.new_stream());
    let sized_box = sized(Size::new(100, 100));
    // watch!(*$sized_box.layout_size()).subscribe(move |v| *$layout_size.write() = v);
    let tree = Expr::Syntax {
        parts: vec![
            macro_call(KW_WATCH, vec![call_on(cell_ref("sized_box"), "layout_size")]),
            move_closure(
                vec![Expr::PatIdent { ident: var("v"), subpat: None }],
                call_on(cell_ref("layout_size"), "write"),
            ),
        ],
    };
    let (out, manifest) = analyze(&tree, &builtins()).unwrap();
    assert_eq!(
        entries(&manifest),
        vec![writer("layout_size"), reader("sized_box_layout_box")]
    );
    assert_eq!(captured_of(&out), vec![vec![writer("layout_size")]]);

    // the first frame lays the box out
    layout_size.modify(MutationKind::Notify, size_of(&sized_box)).unwrap();
    assert_eq!(*layout_size.value(), Size::new(100, 100));
}

#[test]
fn fix_builtin_field_can_declare_as_widget() {
    // @Margin { margin: EdgeInsets::all(1.), @Void {} }
    let mut content = Children::new();
    content.push(Child::Fixed(NodeId(0)));
    content.push(Child::Fixed(NodeId(1)));
    assert_eq!(content.flatten().len(), 2);
    assert_eq!(with_margin(1, ZERO_SIZE), Size::new(2, 2));
}

#[test]
fn fix_use_builtin_field_of_builtin_widget_gen_duplicate() {
    // let mut margin = @Margin { margin: EdgeInsets::all(1.) };
    // watch!(*$margin.margin).subscribe(|_| {});
    // @(margin) { @Void {} }
    let code = vec![
        declare("margin"),
        macro_call(KW_WATCH, vec![member(cell_ref("margin"), "margin")]),
        macro_call(KW_RDL, vec![Expr::Syntax { parts: vec![] }]),
    ];
    let out = gen_code(&code, None, &builtins()).unwrap();
    // the facet of the margin is held once, and makes no node of its own
    match &out {
        Expr::Generated { code, .. } => match &code[1] {
            Expr::Generated { scope, .. } => {
                assert_eq!(entries(scope), vec![facet_of("margin", "margin", false)])
            },
            other => panic!("the watch is generated: {other:?}"),
        },
        other => panic!("the widget is generated: {other:?}"),
    }
    let mut content = Children::new();
    content.push(Child::Fixed(NodeId(0)));
    content.push(Child::Fixed(NodeId(1)));
    assert_eq!(content.flatten().len(), 2);
}

#[test]
fn fix_access_builtin_with_gap() {
    // on_tap: move |_| { let _ = $this.silent().cursor; }
    let on_tap = move_closure(
        vec![Expr::Syntax { parts: vec![] }],
        Expr::Block {
            parts: vec![Expr::Local {
                pat: Box::new(Expr::Syntax { parts: vec![] }),
                init: Some(Box::new(member(call_on(cell_ref("this"), "silent"), "cursor"))),
            }],
        },
    );
    let code = vec![declare("this"), on_tap];
    let out = gen_code(&code, None, &builtins()).unwrap();
    assert_eq!(captured_of(&out), vec![vec![facet_of("this", "cursor", true)]]);
}

#[test]
fn fix_subscribe_cancel_after_widget_drop() {
    let mut registry = SubscriptionRegistry::new();
    let mut cnt = StateCell::new(0, registry.new_stream());
    let mut trigger = StateCell::new(true, registry.new_stream());
    let container = OwnerId(1);
    let child = OwnerId(2);
    // let h = watch!(*$trigger).subscribe(move |_| *$w_cnt.write() += 1);
    // container.on_disposed(move |_| h.unsubscribe());
    let h = registry.subscribe(trigger.modifications(), CallbackId(0), container).unwrap();
    // the watch tells of the value that it has at first
    cnt.modify(MutationKind::Notify, *cnt.value() + 1).unwrap();
    // @ { pipe!{ $trigger.then(|| fn_widget!{ @SizedBox { size: Size::zero() } }) } }
    let mut produced = DerivedValue::new(
        &mut registry,
        vec![trigger.modifications()],
        |v: &Vec<bool>| if v[0] { vec![NodeId(7)] } else { vec![] },
        &vec![*trigger.value()],
        CallbackId(1),
        child,
    )
    .unwrap();
    let mut children = Children::new();
    children.push(Child::Produced { by: produced.output(), nodes: produced.value().clone() });

    assert_eq!(*cnt.value(), 1);
    for expected in [2, 3, 4] {
        let event = trigger.modify(MutationKind::Notify, true).unwrap();
        for call in registry.emit(event) {
            if call.callback == CallbackId(0) {
                assert_eq!(call.handle, h);
                let n = *cnt.value() + 1;
                cnt.modify(MutationKind::Notify, n).unwrap();
            } else {
                // the child that the pipe produced is dropped for a new one
                produced.notified(call.kind, &vec![true]);
                children.replace(produced.output(), produced.value());
            }
        }
        assert_eq!(*cnt.value(), expected);
    }
    // once the container is disposed of, nothing counts any more
    assert_eq!(registry.dispose(container), 1);
    let event = trigger.modify(MutationKind::Notify, true).unwrap();
    assert!(registry.emit(event).iter().all(|call| call.callback != CallbackId(0)));
}

#[test]
fn fix_silent_not_relayout_dyn_widget() {
    let mut registry = SubscriptionRegistry::new();
    let mut slots = SlotTable::new(1);
    let mut trigger_size = StateCell::new(ZERO_SIZE, registry.new_stream());
    // pipe! { fn_widget! { @SizedBox { size: if $trigger_size.area() > 0. { .. } else { ZERO_SIZE } } } }
    let mut root = DerivedValue::new(
        &mut registry,
        vec![trigger_size.modifications()],
        |v: &Vec<Size>| if area(v[0]) > 0 { v[0] } else { ZERO_SIZE },
        &vec![*trigger_size.value()],
        CallbackId(0),
        OwnerId(0),
    )
    .unwrap();
    assert_eq!(size_of(&sized(*root.value())), ZERO_SIZE);

    let event = trigger_size.modify(MutationKind::Silent, Size::new(100, 100)).unwrap();
    let calls = registry.emit(event);
    slots.apply(&calls);
    for call in calls {
        root.notified(call.kind, &vec![*trigger_size.value()]);
    }
    // after the silent write the widget is not built anew
    assert!(!slots.is_dirty(0));
    assert_eq!(root.recomputed(), 0);
    assert_eq!(size_of(&sized(*root.value())), ZERO_SIZE);
}

#[test]
fn no_watch() {
    let mut registry = SubscriptionRegistry::new();
    let mut size = StateCell::new(ZERO_SIZE, registry.new_stream());
    // fn_widget! { @SizedBox { size: *$c_size } }: read once, watched by nobody
    let code = vec![macro_call(KW_RDL, vec![cell_ref("c_size")])];
    let out = gen_code(&code, None, &builtins()).unwrap();
    assert!(captured_of(&out).is_empty());
    let built = sized(*size.value());
    assert_eq!(size_of(&built), ZERO_SIZE);

    let event = size.modify(MutationKind::Notify, Size::new(100, 100)).unwrap();
    assert!(registry.emit(event).is_empty());
    assert_eq!(size_of(&built), ZERO_SIZE);
}

#[test]
fn fix_use_var_in_children() {
    // let mut p = @MockBox { .. };
    // @(p) { opacity: 1., @MockBox { opacity: *$p.opacity } }
    let code = vec![
        declare("p"),
        macro_call(KW_RDL, vec![macro_call(KW_RDL, vec![member(cell_ref("p"), "opacity")])]),
    ];
    let out = gen_code(&code, None, &builtins()).unwrap();
    match out {
        Expr::Generated { scope, .. } => {
            // `p` is the widget's own: it refers to nothing outside
            assert!(scope.is_empty());
            assert!(scope.used_ctx());
        },
        other => panic!("the widget is generated: {other:?}"),
    }
}

#[test]
fn fix_top_level_rdl_builtin() {
    // rdl! {
    //   let _o1 = $w.opacity;
    //   let _ = move || { let _o2 = $w.opacity; };
    // }
    let read_opacity = |to: &str| Expr::Local {
        pat: Box::new(Expr::PatIdent { ident: var(to), subpat: None }),
        init: Some(Box::new(member(cell_ref("w"), "opacity"))),
    };
    let tree = macro_call(
        KW_RDL,
        vec![
            read_opacity("_o1"),
            Expr::Local {
                pat: Box::new(Expr::Syntax { parts: vec![] }),
                init: Some(Box::new(move_closure(
                    vec![],
                    Expr::Block { parts: vec![read_opacity("_o2")] },
                ))),
            },
        ],
    );
    let (out, manifest) = analyze(&tree, &builtins()).unwrap();
    assert_eq!(entries(&manifest), vec![facet_of("w", "opacity", false)]);
    assert_eq!(captured_of(&out), vec![vec![facet_of("w", "opacity", false)]]);
    match out {
        Expr::Generated { code, .. } => match &code[0] {
            Expr::Local { init: Some(init), .. } => match &**init {
                Expr::Field { base, .. } => {
                    assert!(matches!(&**base, Expr::Macro { path, .. } if path.name == KW_EXPANDED))
                },
                other => panic!("the access stays an access: {other:?}"),
            },
            other => panic!("the statement stays a statement: {other:?}"),
        },
        other => panic!("the declaration is generated: {other:?}"),
    }
}
