use ribir_reactive::cell::{Modification, MutationKind, StateCell};
use ribir_reactive::focus::{Attach, FocusAttr, FocusEventType, FocusHandler, FocusListener};
use ribir_reactive::geom::{BoxClamp, Point, Size, Transform};
use ribir_reactive::into_child_compose::{
    ChildOfCompose, ComposeChildFrom, IntoChildCompose, Pair,
};
use ribir_reactive::lists::{
    EdgePosition, HeadlineText, ListItemStyle, Lists, SupportingText,
};
use ribir_reactive::material::{dark, light, Brightness, Color};
use ribir_reactive::pointers::{PointerId, PointerType};
use ribir_reactive::registry::{
    CallbackId, OwnerId, RegistryError, SubscriptionHandle, SubscriptionRegistry,
};
use ribir_reactive::slots::{dirty_callback_of, SlotTable};
use ribir_reactive::wrap_render::{
    combine_child, Held, HitTest, HitTestCtx, LayoutOnly, Margin, PaintingCtx, Render,
    RenderPair, SizedBox, WrapRender,
};

fn loose(max: u32) -> BoxClamp {
    BoxClamp { min: Size::new(0, 0), max: Size::new(max, max) }
}

fn host() -> SizedBox {
    SizedBox { size: Size::new(10, 10), mark: 42, transform: Some(Transform { dx: 3, dy: -4 }) }
}

#[test]
fn lengths_saturate() {
    assert_eq!(Size::new(1, u32::MAX - 1).grow(2), Size::new(3, u32::MAX));
    assert_eq!(Size::new(1, 5).shrink(2), Size::new(0, 3));
}

#[test]
fn a_clamp_admits_the_nearest_size() {
    let clamp = BoxClamp { min: Size::new(5, 5), max: Size::new(20, 8) };
    assert_eq!(clamp.clamp(Size::new(1, 6)), Size::new(5, 6));
    assert_eq!(clamp.clamp(Size::new(30, 30)), Size::new(20, 8));
    assert_eq!(BoxClamp::fixed(Size::new(4, 4)).clamp(Size::new(9, 1)), Size::new(4, 4));
    // where the bounds cross, the lower bound wins
    let crossed = BoxClamp { min: Size::new(9, 9), max: Size::new(3, 3) };
    assert_eq!(crossed.clamp(Size::new(5, 5)), Size::new(9, 9));
}

#[test]
fn a_sized_box_takes_its_size_where_it_may() {
    let b = host();
    assert_eq!(b.perform_layout(loose(100)), Size::new(10, 10));
    assert_eq!(b.perform_layout(loose(4)), Size::new(4, 4));
    assert!(!b.only_sized_by_parent());
    assert_eq!(b.get_transform(), Some(Transform { dx: 3, dy: -4 }));
}

#[test]
fn a_margin_adds_its_space_to_the_host() {
    // margin 5 around a host of 10 x 10
    let pair = RenderPair { wrapper: LayoutOnly(Margin { margin: 5 }), host: host() };
    assert_eq!(pair.perform_layout(loose(100)), Size::new(20, 20));
    // the host is laid out in what the margin leaves
    assert_eq!(pair.perform_layout(loose(16)), Size::new(16, 16));
    assert_eq!(pair.perform_layout(loose(4)), Size::new(10, 10));
}

#[test]
fn a_layout_decorator_hands_everything_else_to_its_host() {
    let h = host();
    let pair = RenderPair { wrapper: LayoutOnly(Margin { margin: 5 }), host: host() };

    let mut through = PaintingCtx::new();
    pair.paint(&mut through);
    let mut direct = PaintingCtx::new();
    h.paint(&mut direct);
    assert_eq!(through, direct);
    assert_eq!(through.marks(), &vec![42]);

    let ctx = HitTestCtx { origin: Point { x: 5, y: 5 }, size: Size::new(10, 10) };
    for pos in [Point { x: 5, y: 5 }, Point { x: 14, y: 14 }, Point { x: 15, y: 5 }, Point { x: 0, y: 0 }] {
        assert_eq!(pair.hit_test(&ctx, pos), h.hit_test(&ctx, pos));
    }
    assert_eq!(
        pair.hit_test(&ctx, Point { x: 6, y: 7 }),
        HitTest { hit: true, can_hit_child: true }
    );
    assert_eq!(
        pair.hit_test(&ctx, Point { x: 4, y: 7 }),
        HitTest { hit: false, can_hit_child: false }
    );
    assert_eq!(pair.get_transform(), h.get_transform());
    assert_eq!(pair.only_sized_by_parent(), h.only_sized_by_parent());
}

#[test]
fn a_decorator_in_a_cell_is_a_decorator() {
    let mut registry = SubscriptionRegistry::new();
    let cell = StateCell::new(LayoutOnly(Margin { margin: 2 }), registry.new_stream());
    let pair = RenderPair { wrapper: cell, host: host() };
    assert_eq!(pair.perform_layout(loose(100)), Size::new(14, 14));
    let mut ctx = PaintingCtx::new();
    pair.paint(&mut ctx);
    assert_eq!(ctx.marks(), &vec![42]);
    assert_eq!(pair.get_transform(), host().get_transform());
}

#[test]
fn painting_appends_to_what_is_painted() {
    let mut ctx = PaintingCtx::new();
    ctx.draw(1);
    host().paint(&mut ctx);
    ctx.draw(2);
    assert_eq!(ctx.marks(), &vec![1, 42, 2]);
}

#[test]
fn only_a_decorator_that_can_change_makes_its_place_listen() {
    let mut registry = SubscriptionRegistry::new();
    let stream = registry.new_stream();

    let value = Held::Value(LayoutOnly(Margin { margin: 1 }));
    let (pair, handle) = combine_child(value, host(), OwnerId(0), &mut registry).unwrap();
    assert_eq!(handle, None);
    assert_eq!(pair.perform_layout(loose(100)), Size::new(12, 12));

    let reader = Held::Reader(StateCell::new(LayoutOnly(Margin { margin: 2 }), stream));
    let (pair, handle) = combine_child(reader, host(), OwnerId(1), &mut registry).unwrap();
    assert_eq!(handle, None);
    assert_eq!(pair.perform_layout(loose(100)), Size::new(14, 14));
    assert_eq!(registry.subscription_count(), 0);

    let writer = Held::Writer(StateCell::new(LayoutOnly(Margin { margin: 3 }), stream));
    let (pair, handle) = combine_child(writer, host(), OwnerId(2), &mut registry).unwrap();
    assert_eq!(handle, Some(SubscriptionHandle(0)));
    assert_eq!(pair.perform_layout(loose(100)), Size::new(16, 16));
    assert_eq!(registry.subscription_count(), 1);
    let calls = registry.emit(Modification { stream, kind: MutationKind::Shallow });
    assert_eq!(calls.len(), 1);
    assert_eq!(calls[0].callback, dirty_callback_of(OwnerId(2)));
}

#[test]
fn a_decorator_on_an_unknown_stream_cannot_listen() {
    let mut registry = SubscriptionRegistry::new();
    let cell =
        StateCell::new(LayoutOnly(Margin { margin: 3 }), ribir_reactive::cell::StreamId(5));
    let r = combine_child(Held::Writer(cell), host(), OwnerId(2), &mut registry);
    assert!(matches!(r, Err(RegistryError::UnknownStream)));
}

#[test]
fn a_write_to_the_decorator_dirties_its_place_alone() {
    // margin = 5 wraps a host of 10 x 10 at the second of three places
    let mut registry = SubscriptionRegistry::new();
    let mut slots = SlotTable::new(3);
    let margin = StateCell::new(LayoutOnly(Margin { margin: 5 }), registry.new_stream());
    let (mut pair, _) =
        combine_child(Held::Writer(margin), host(), OwnerId(1), &mut registry).unwrap();
    assert_eq!(pair.perform_layout(loose(100)), Size::new(20, 20));
    assert!(!slots.is_dirty(0) && !slots.is_dirty(1) && !slots.is_dirty(2));

    // the margin is written to 10
    let event = match &mut pair.wrapper {
        Held::Writer(cell) => {
            cell.modify(MutationKind::Notify, LayoutOnly(Margin { margin: 10 })).unwrap()
        },
        _ => unreachable!(),
    };
    slots.apply(&registry.emit(event));
    assert!(slots.is_dirty(1));
    assert!(!slots.is_dirty(0));
    assert!(!slots.is_dirty(2));
    assert_eq!(pair.perform_layout(loose(100)), Size::new(30, 30));

    // a silent write dirties nothing
    slots.clear();
    let event = match &mut pair.wrapper {
        Held::Writer(cell) => {
            cell.modify(MutationKind::Silent, LayoutOnly(Margin { margin: 0 })).unwrap()
        },
        _ => unreachable!(),
    };
    slots.apply(&registry.emit(event));
    assert!(!slots.is_dirty(0) && !slots.is_dirty(1) && !slots.is_dirty(2));
}

#[test]
fn a_decorator_marks_its_place_whoever_else_listens() {
    let mut registry = SubscriptionRegistry::new();
    let mut slots = SlotTable::new(4);
    let stream = registry.new_stream();
    let other = registry.new_stream();
    // the fourth place listens to the cell of the decorator already, the
    // first to another cell
    registry.subscribe(stream, dirty_callback_of(OwnerId(3)), OwnerId(3)).unwrap();
    registry.subscribe(other, dirty_callback_of(OwnerId(0)), OwnerId(0)).unwrap();
    let margin = StateCell::new(LayoutOnly(Margin { margin: 5 }), stream);
    let (mut pair, handle) =
        combine_child(Held::Writer(margin), host(), OwnerId(1), &mut registry).unwrap();
    assert_eq!(handle, Some(SubscriptionHandle(2)));

    let event = match &mut pair.wrapper {
        Held::Writer(cell) => {
            cell.modify(MutationKind::Notify, LayoutOnly(Margin { margin: 10 })).unwrap()
        },
        _ => unreachable!(),
    };
    slots.apply(&registry.emit(event));
    // the place of the decorator, and the place that listened without it
    assert!(slots.is_dirty(1) && slots.is_dirty(3));
    assert!(!slots.is_dirty(0) && !slots.is_dirty(2));
    assert_eq!(slots.len(), 4);

    // a write to the other cell passes the decorator by
    slots.clear();
    let event = Modification { stream: other, kind: MutationKind::Notify };
    slots.apply(&registry.emit(event));
    assert!(slots.is_dirty(0));
    assert!(!slots.is_dirty(1) && !slots.is_dirty(2) && !slots.is_dirty(3));

    // and a silent write marks none
    slots.clear();
    let event = match &mut pair.wrapper {
        Held::Writer(cell) => {
            cell.modify(MutationKind::Silent, LayoutOnly(Margin { margin: 0 })).unwrap()
        },
        _ => unreachable!(),
    };
    slots.apply(&registry.emit(event));
    assert!(!slots.is_dirty(0) && !slots.is_dirty(1) && !slots.is_dirty(2) && !slots.is_dirty(3));
    assert_eq!(slots.len(), 4);
}

#[test]
fn calls_beyond_the_last_place_mark_nothing() {
    let mut slots = SlotTable::new(2);
    let call = |slot: u64| ribir_reactive::registry::Delivery {
        handle: SubscriptionHandle(0),
        callback: CallbackId(slot),
        kind: MutationKind::Notify,
    };
    slots.apply(&vec![call(7), call(1), call(1)]);
    assert_eq!(slots.len(), 2);
    assert!(!slots.is_dirty(0));
    assert!(slots.is_dirty(1));
    assert!(!slots.is_dirty(7));
}

struct Plain(u32);

impl ChildOfCompose for Plain {}

#[test]
fn a_child_is_taken_as_it_is() {
    let child: Plain = Plain::compose_child_from(Plain(3));
    assert_eq!(child.0, 3);
    let child: Plain = Plain(4).into_child_compose();
    assert_eq!(child.0, 4);
}

#[test]
fn a_pair_keeps_its_parent() {
    let pair: Pair<&str, Plain> = Pair { parent: "p", child: Plain(5) }.into_child_compose();
    assert_eq!(pair.parent, "p");
    assert_eq!(pair.child.0, 5);
}

#[test]
fn focus_has_its_defaults() {
    let listener = FocusListener::from_widget(Attach::Widget("w"), None, None);
    assert_eq!(listener.tab_index(), 0);
    assert!(!listener.is_auto_focus());
    assert!(listener.focus_event_observable().is_empty());
    let listener = FocusListener::from_widget(Attach::Widget("w"), Some(true), Some(-1));
    assert_eq!(listener.tab_index(), -1);
    assert!(listener.is_auto_focus());
    assert_eq!(FocusAttr::new(None, Some(4)).tab_index, 4);
}

#[test]
fn a_focusable_widget_stays_as_it_is() {
    let first = FocusListener::from_widget(Attach::Widget("w"), Some(true), Some(3));
    let again = FocusListener::from_widget(Attach::Focusable(first), Some(false), Some(9));
    assert_eq!(again.tab_index(), 3);
    assert!(again.is_auto_focus());
    assert_eq!(again.widget, "w");
}

#[test]
fn focus_handlers_hear_their_type_of_event_in_order() {
    let l = FocusListener::listen_on(Attach::Widget("w"), FocusEventType::Focus, CallbackId(1));
    let l = FocusListener::listen_on(Attach::Focusable(l), FocusEventType::Blur, CallbackId(2));
    let l = FocusListener::listen_on(Attach::Focusable(l), FocusEventType::Focus, CallbackId(3));
    assert_eq!(
        l.focus_event_observable(),
        &vec![
            FocusHandler { event_type: FocusEventType::Focus, callback: CallbackId(1) },
            FocusHandler { event_type: FocusEventType::Blur, callback: CallbackId(2) },
            FocusHandler { event_type: FocusEventType::Focus, callback: CallbackId(3) },
        ]
    );
    assert_eq!(l.attr.dispatch(FocusEventType::Focus), vec![CallbackId(1), CallbackId(3)]);
    assert_eq!(l.attr.dispatch(FocusEventType::Blur), vec![CallbackId(2)]);
    assert_eq!(l.attr.dispatch(FocusEventType::FocusIn), vec![]);
    assert_eq!(l.attr.dispatch(FocusEventType::FocusOut), vec![]);
    assert_eq!(l.tab_index(), 0);
}

#[test]
fn the_items_of_a_list_know_where_they_stand() {
    let list = Lists { divider: true };
    let style = |edge| ListItemStyle { divider: true, edge };
    assert_eq!(list.item_styles(1), vec![style(EdgePosition::Frist)]);
    assert_eq!(list.item_styles(2), vec![style(EdgePosition::Frist), style(EdgePosition::Last)]);
    assert_eq!(
        list.item_styles(4),
        vec![
            style(EdgePosition::Frist),
            style(EdgePosition::Middle),
            style(EdgePosition::Middle),
            style(EdgePosition::Last),
        ]
    );
    assert!(!Lists::default().divider);
    assert!(!Lists::default().item_styles(1)[0].divider);
}

#[test]
fn the_texts_of_an_item_hold_what_they_are_given() {
    assert_eq!(HeadlineText::new("One").0, "One");
    assert_eq!(SupportingText::new("two").0, "two");
}

#[test]
fn the_light_theme_has_its_colours() {
    let theme = light("Roboto".to_string());
    assert_eq!(theme.default_font_family, "Roboto");
    let p = theme.palette;
    assert_eq!(p.brightness, Brightness::Light);
    assert_eq!(p.primary, Color(0x6200_EEFF));
    assert_eq!(p.primary_variant, Color(0x3700_B3FF));
    assert_eq!(p.secondary, Color(0x03DA_C6FF));
    assert_eq!(p.secondary_variant, Color(0x0187_86FF));
    assert_eq!(p.background, Color(0xFFFF_FFFF));
    assert_eq!(p.surface, Color(0xFFFF_FFFF));
    assert_eq!(p.error, Color(0xB000_20FF));
    assert_eq!(p.on_primary, Color(0xFFFF_FFFF));
    assert_eq!(p.on_secondary, Color(0));
    assert_eq!(p.on_background, Color(0));
    assert_eq!(p.on_surface, Color(0));
    assert_eq!(p.on_error, Color(0xFFFF_FFFF));
}

#[test]
fn the_dark_theme_has_its_colours() {
    let theme = dark("Roboto".to_string());
    assert_eq!(theme.default_font_family, "Roboto");
    let p = theme.palette;
    assert_eq!(p.brightness, Brightness::Light);
    assert_eq!(p.primary, Color(0xBB86_FCFF));
    assert_eq!(p.primary_variant, Color(0x3700_B3FF));
    assert_eq!(p.secondary, Color(0x03DA_C6FF));
    assert_eq!(p.secondary_variant, Color(0x1212_12FF));
    assert_eq!(p.background, Color(0x1212_12FF));
    assert_eq!(p.surface, Color(0x1212_12FF));
    assert_eq!(p.error, Color(0xCF66_79FF));
    assert_eq!(p.on_primary, Color(0));
    assert_eq!(p.on_secondary, Color(0));
    assert_eq!(p.on_background, Color(0xFFFF_FFFF));
    assert_eq!(p.on_surface, Color(0xFFFF_FFFF));
    assert_eq!(p.on_error, Color(0));
    assert_eq!(Color::from_u32(7), Color(7));
}

#[test]
fn pointers_are_told_apart_by_their_numbers() {
    assert_eq!(PointerId::new(3).get(), 3);
    assert_eq!(PointerId::new(3), PointerId::new(3));
    assert_ne!(PointerId::new(3), PointerId::new(4));
    assert_ne!(PointerType::Mouse, PointerType::Pen);
    assert_ne!(PointerType::Pen, PointerType::Touch);
}
