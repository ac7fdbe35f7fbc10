use ribir_reactive::cell::{MutationKind, StateCell, StreamId};
use ribir_reactive::focus::{Attach, FocusEventType, FocusListener};
use ribir_reactive::geom::{Point, Size};
use ribir_reactive::registry::CallbackId;
use ribir_reactive::wrap_render::{HitTestCtx, Render, SizedBox};

struct TapBox {
    place: HitTestCtx,
    node: SizedBox,
    focus: Option<FocusListener<()>>,
}

fn tap_box(x: u32, focusable: bool) -> TapBox {
    let size = Size::new(50, 50);
    TapBox {
        place: HitTestCtx { origin: Point { x, y: 0 }, size },
        node: SizedBox { size, mark: 0, transform: None },
        // a box that listens to the keyboard can take the focus
        focus: focusable.then(|| {
            FocusListener::listen_on(Attach::Widget(()), FocusEventType::Focus, CallbackId(1))
        }),
    }
}

fn tap_on(boxes: &[TapBox], x: u32, y: u32, tap: &mut StateCell<i32>, focused: &mut StateCell<bool>) {
    for b in boxes {
        if b.node.hit_test(&b.place, Point { x, y }).hit {
            let taps = *tap.value() + 1;
            tap.modify(MutationKind::Notify, taps).unwrap();
            let takes_focus = match &b.focus {
                Some(listener) => !listener.attr.dispatch(FocusEventType::Focus).is_empty(),
                None => false,
            };
            focused.modify(MutationKind::Notify, takes_focus).unwrap();
        }
    }
}

#[test]
fn tap_focus() {
    let mut tap = StateCell::new(0, StreamId(0));
    let mut focused = StateCell::new(false, StreamId(1));
    // two boxes of 50 x 50 side by side in a window of 100 x 100; the
    // second one listens to the keyboard
    let boxes = [tap_box(0, false), tap_box(50, true)];

    tap_on(&boxes, 25, 25, &mut tap, &mut focused);
    assert_eq!(*tap.value(), 1);
    assert!(!*focused.value());

    tap_on(&boxes, 75, 25, &mut tap, &mut focused);
    assert_eq!(*tap.value(), 2);
    assert!(*focused.value());
}
