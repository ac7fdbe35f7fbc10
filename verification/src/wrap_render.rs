//! Decorators: nodes that need no place of their own in the retained
//! structure, because they wrap one host and share its place.

use vstd::prelude::*;
use crate::cell::{Modification, MutationKind, StateCell};
use crate::geom::{plus, BoxClamp, Point, Size, Transform};
use crate::listening::{lemma_calls_step, silent_is_heard_by_nobody};
use crate::registry::{
    OwnerId, RegistryError, RegistryView, SubscriptionHandle, SubscriptionRegistry,
};
use crate::slots::{dirtied, dirty_callback, dirty_callback_of, names};

verus! {

/// What a hit test finds.
#[derive(Clone, Copy, Debug, PartialEq, Eq, Structural)]
pub struct HitTest {
    pub hit: bool,
    pub can_hit_child: bool,
}

/// Where a hit test takes place: the box of the node that is tested.
#[derive(Clone, Copy, Debug, PartialEq, Eq, Structural)]
pub struct HitTestCtx {
    pub origin: Point,
    pub size: Size,
}

/// What has been painted, as the list of the marks that nodes have left.
#[derive(Debug, PartialEq, Eq)]
pub struct PaintingCtx {
    marks: Vec<u64>,
}

impl View for PaintingCtx {
    type V = Seq<u64>;

    closed spec fn view(&self) -> Seq<u64> {
        self.marks@
    }
}

impl PaintingCtx {
    /// A canvas on which nothing is painted.
    pub fn new() -> (ctx: PaintingCtx)
        ensures
            ctx@ == Seq::<u64>::empty(),
    {
        PaintingCtx { marks: Vec::new() }
    }

    /// Leaves a mark.
    pub fn draw(&mut self, mark: u64)
        ensures
            final(self)@ == old(self)@.push(mark),
    {
        self.marks.push(mark);
    }

    /// The marks that were left, first to last.
    pub fn marks(&self) -> (marks: &Vec<u64>)
        ensures
            marks@ == self@,
    {
        &self.marks
    }
}

/// The capabilities of a node of the retained structure.
pub trait Render {
    /// The size that the node takes under `clamp`.
    spec fn layout_size(&self, clamp: BoxClamp) -> Size;

    /// The marks that the node leaves when it paints.
    spec fn painted(&self) -> Seq<u64>;

    /// Whether the size of the node depends on nothing but its clamp.
    spec fn sized_by_parent(&self) -> bool;

    /// What a hit test at `pos` finds of the node.
    spec fn hit(&self, ctx: HitTestCtx, pos: Point) -> HitTest;

    /// The transform of the node, if it has one.
    spec fn transform(&self) -> Option<Transform>;

    fn perform_layout(&self, clamp: BoxClamp) -> (size: Size)
        ensures
            size == self.layout_size(clamp),
    ;

    fn paint(&self, ctx: &mut PaintingCtx)
        ensures
            final(ctx)@ == old(ctx)@ + self.painted(),
    ;

    fn only_sized_by_parent(&self) -> (b: bool)
        ensures
            b == self.sized_by_parent(),
    ;

    fn hit_test(&self, ctx: &HitTestCtx, pos: Point) -> (found: HitTest)
        ensures
            found == self.hit(*ctx, pos),
    ;

    fn get_transform(&self) -> (t: Option<Transform>)
        ensures
            t == self.transform(),
    ;
}

/// The capabilities of a decorator: those of a node, each with the host at
/// hand, so that the decorator can hand on to it what it does not do itself.
///
/// A render node that has a single child and takes the size of that child
/// can be a decorator instead of a node.
pub trait WrapRender<H: Render> {
    spec fn wrapped_layout_size(&self, clamp: BoxClamp, host: &H) -> Size;

    spec fn wrapped_painted(&self, host: &H) -> Seq<u64>;

    spec fn wrapped_sized_by_parent(&self, host: &H) -> bool;

    spec fn wrapped_hit(&self, host: &H, ctx: HitTestCtx, pos: Point) -> HitTest;

    spec fn wrapped_transform(&self, host: &H) -> Option<Transform>;

    fn perform_layout(&self, clamp: BoxClamp, host: &H) -> (size: Size)
        ensures
            size == self.wrapped_layout_size(clamp, host),
    ;

    fn paint(&self, host: &H, ctx: &mut PaintingCtx)
        ensures
            final(ctx)@ == old(ctx)@ + self.wrapped_painted(host),
    ;

    fn only_sized_by_parent(&self, host: &H) -> (b: bool)
        ensures
            b == self.wrapped_sized_by_parent(host),
    ;

    fn hit_test(&self, host: &H, ctx: &HitTestCtx, pos: Point) -> (found: HitTest)
        ensures
            found == self.wrapped_hit(host, *ctx, pos),
    ;

    fn get_transform(&self, host: &H) -> (t: Option<Transform>)
        ensures
            t == self.wrapped_transform(host),
    ;
}

/// The one capability that a decorator of the layout alone has.
pub trait WrapLayout<H: Render> {
    spec fn decorated_size(&self, clamp: BoxClamp, host: &H) -> Size;

    fn perform_layout(&self, clamp: BoxClamp, host: &H) -> (size: Size)
        ensures
            size == self.decorated_size(clamp, host),
    ;
}

/// A decorator that overrides the layout and nothing else: painting, hit
/// tests and the questions about size and transform go to the host.
#[derive(Debug, PartialEq, Eq)]
pub struct LayoutOnly<W>(pub W);

impl<H: Render, W: WrapLayout<H>> WrapRender<H> for LayoutOnly<W> {
    open spec fn wrapped_layout_size(&self, clamp: BoxClamp, host: &H) -> Size {
        self.0.decorated_size(clamp, host)
    }

    open spec fn wrapped_painted(&self, host: &H) -> Seq<u64> {
        host.painted()
    }

    open spec fn wrapped_sized_by_parent(&self, host: &H) -> bool {
        host.sized_by_parent()
    }

    open spec fn wrapped_hit(&self, host: &H, ctx: HitTestCtx, pos: Point) -> HitTest {
        host.hit(ctx, pos)
    }

    open spec fn wrapped_transform(&self, host: &H) -> Option<Transform> {
        host.transform()
    }

    fn perform_layout(&self, clamp: BoxClamp, host: &H) -> (size: Size) {
        self.0.perform_layout(clamp, host)
    }

    fn paint(&self, host: &H, ctx: &mut PaintingCtx) {
        host.paint(ctx)
    }

    fn only_sized_by_parent(&self, host: &H) -> (b: bool) {
        // The host decides by default.
        host.only_sized_by_parent()
    }

    fn hit_test(&self, host: &H, ctx: &HitTestCtx, pos: Point) -> (found: HitTest) {
        host.hit_test(ctx, pos)
    }

    fn get_transform(&self, host: &H) -> (t: Option<Transform>) {
        host.get_transform()
    }
}

/// A cell that holds a decorator is a decorator: every capability reads the
/// value of the cell and asks it.
impl<H: Render, W: WrapRender<H>> WrapRender<H> for StateCell<W> {
    open spec fn wrapped_layout_size(&self, clamp: BoxClamp, host: &H) -> Size {
        self@.value.wrapped_layout_size(clamp, host)
    }

    open spec fn wrapped_painted(&self, host: &H) -> Seq<u64> {
        self@.value.wrapped_painted(host)
    }

    open spec fn wrapped_sized_by_parent(&self, host: &H) -> bool {
        self@.value.wrapped_sized_by_parent(host)
    }

    open spec fn wrapped_hit(&self, host: &H, ctx: HitTestCtx, pos: Point) -> HitTest {
        self@.value.wrapped_hit(host, ctx, pos)
    }

    open spec fn wrapped_transform(&self, host: &H) -> Option<Transform> {
        self@.value.wrapped_transform(host)
    }

    fn perform_layout(&self, clamp: BoxClamp, host: &H) -> (size: Size) {
        self.value().perform_layout(clamp, host)
    }

    fn paint(&self, host: &H, ctx: &mut PaintingCtx) {
        self.value().paint(host, ctx)
    }

    fn only_sized_by_parent(&self, host: &H) -> (b: bool) {
        self.value().only_sized_by_parent(host)
    }

    fn hit_test(&self, host: &H, ctx: &HitTestCtx, pos: Point) -> (found: HitTest) {
        self.value().hit_test(host, ctx, pos)
    }

    fn get_transform(&self, host: &H) -> (t: Option<Transform>) {
        self.value().get_transform(host)
    }
}

/// A decorator and its host, as one node: the decorator answers, with the
/// host at hand.
#[derive(Debug, PartialEq, Eq)]
pub struct RenderPair<W, H> {
    pub wrapper: W,
    pub host: H,
}

impl<H: Render, W: WrapRender<H>> Render for RenderPair<W, H> {
    open spec fn layout_size(&self, clamp: BoxClamp) -> Size {
        self.wrapper.wrapped_layout_size(clamp, &self.host)
    }

    open spec fn painted(&self) -> Seq<u64> {
        self.wrapper.wrapped_painted(&self.host)
    }

    open spec fn sized_by_parent(&self) -> bool {
        self.wrapper.wrapped_sized_by_parent(&self.host)
    }

    open spec fn hit(&self, ctx: HitTestCtx, pos: Point) -> HitTest {
        self.wrapper.wrapped_hit(&self.host, ctx, pos)
    }

    open spec fn transform(&self) -> Option<Transform> {
        self.wrapper.wrapped_transform(&self.host)
    }

    fn perform_layout(&self, clamp: BoxClamp) -> (size: Size) {
        self.wrapper.perform_layout(clamp, &self.host)
    }

    fn paint(&self, ctx: &mut PaintingCtx) {
        self.wrapper.paint(&self.host, ctx);
    }

    fn only_sized_by_parent(&self) -> (b: bool) {
        self.wrapper.only_sized_by_parent(&self.host)
    }

    fn hit_test(&self, ctx: &HitTestCtx, pos: Point) -> (found: HitTest) {
        self.wrapper.hit_test(&self.host, ctx, pos)
    }

    fn get_transform(&self) -> (t: Option<Transform>) {
        self.wrapper.get_transform(&self.host)
    }
}

/// How a decorator is held by the code that attaches it.
pub enum Held<W> {
    /// The decorator itself: it never changes.
    Value(W),
    /// A cell that is only read here: whoever writes it sees to the place.
    Reader(StateCell<W>),
    /// A cell that can be written: the place has to hear of every write.
    Writer(StateCell<W>),
}

impl<W> Held<W> {
    /// The decorator as it is now.
    pub open spec fn decorator(self) -> W {
        match self {
            Held::Value(w) => w,
            Held::Reader(cell) => cell@.value,
            Held::Writer(cell) => cell@.value,
        }
    }

    /// The decorator as it is now.
    pub fn get(&self) -> (w: &W)
        ensures
            *w == self.decorator(),
    {
        match self {
            Held::Value(w) => w,
            Held::Reader(cell) => cell.value(),
            Held::Writer(cell) => cell.value(),
        }
    }
}

/// A decorator that is held is a decorator, whichever way it is held.
impl<H: Render, W: WrapRender<H>> WrapRender<H> for Held<W> {
    open spec fn wrapped_layout_size(&self, clamp: BoxClamp, host: &H) -> Size {
        self.decorator().wrapped_layout_size(clamp, host)
    }

    open spec fn wrapped_painted(&self, host: &H) -> Seq<u64> {
        self.decorator().wrapped_painted(host)
    }

    open spec fn wrapped_sized_by_parent(&self, host: &H) -> bool {
        self.decorator().wrapped_sized_by_parent(host)
    }

    open spec fn wrapped_hit(&self, host: &H, ctx: HitTestCtx, pos: Point) -> HitTest {
        self.decorator().wrapped_hit(host, ctx, pos)
    }

    open spec fn wrapped_transform(&self, host: &H) -> Option<Transform> {
        self.decorator().wrapped_transform(host)
    }

    fn perform_layout(&self, clamp: BoxClamp, host: &H) -> (size: Size) {
        self.get().perform_layout(clamp, host)
    }

    fn paint(&self, host: &H, ctx: &mut PaintingCtx) {
        self.get().paint(host, ctx)
    }

    fn only_sized_by_parent(&self, host: &H) -> (b: bool) {
        self.get().only_sized_by_parent(host)
    }

    fn hit_test(&self, host: &H, ctx: &HitTestCtx, pos: Point) -> (found: HitTest) {
        self.get().hit_test(host, ctx, pos)
    }

    fn get_transform(&self, host: &H) -> (t: Option<Transform>) {
        self.get().get_transform(host)
    }
}

/// The registry after a decorator was attached at the place `slot`: where
/// the decorator is held by a cell that can be written, the place listens to
/// the cell, to be marked dirty on every write that is not silent.
pub open spec fn attached<W>(r: RegistryView, this: Held<W>, slot: OwnerId) -> RegistryView {
    match this {
        Held::Writer(cell) => r.subscribed(cell@.stream, dirty_callback(slot), slot),
        _ => r,
    }
}

/// Attaches the decorator `this` to `child` at the place `slot`. Returns
/// the one node that the two make, and the subscription of the place if the
/// decorator can change: no second place is taken in the structure.
pub fn combine_child<H: Render, W: WrapRender<H>>(
    this: Held<W>,
    child: H,
    slot: OwnerId,
    registry: &mut SubscriptionRegistry,
) -> (r: Result<(RenderPair<Held<W>, H>, Option<SubscriptionHandle>), RegistryError>)
    requires
        old(registry)@.wf(),
    ensures
        final(registry)@.wf(),
        match r {
            Ok((pair, handle)) => {
                &&& pair.wrapper == this
                &&& pair.host == child
                &&& final(registry)@ == attached(old(registry)@, this, slot)
                &&& match this {
                    Held::Writer(cell) => old(registry)@.knows(cell@.stream) && handle == Some(
                        SubscriptionHandle(old(registry)@.next_handle as u64),
                    ),
                    _ => handle is None,
                }
            },
            Err(e) => {
                &&& final(registry)@ == old(registry)@
                &&& this matches Held::Writer(cell)
                &&& e == if !old(registry)@.knows(cell@.stream) {
                    RegistryError::UnknownStream
                } else {
                    RegistryError::OutOfHandles
                }
                &&& !old(registry)@.knows(cell@.stream) || old(registry)@.next_handle == u64::MAX
            },
        },
{
    let handle = match &this {
        Held::Writer(cell) => {
            match registry.subscribe(cell.modifications(), dirty_callback_of(slot), slot) {
                Ok(handle) => Some(handle),
                Err(e) => {
                    return Err(e);
                },
            }
        },
        _ => None,
    };
    Ok((RenderPair { wrapper: this, host: child }, handle))
}

/// Attaching a decorator at the place `slot` changes what a write marks
/// for that place alone, whoever else listens to the cell of the decorator
/// or to any other: after any event, every other place is dirty exactly if
/// it would be without the decorator. The place of a decorator that can be
/// written is dirty after every write that the stream of its cell carries
/// and that is not silent. A silent write marks no place, and no event
/// changes the number of places.
pub proof fn attaching_dirties_its_place_alone<W>(
    r: RegistryView,
    this: Held<W>,
    slot: OwnerId,
    event: Modification,
    dirty: Seq<bool>,
)
    ensures
        dirtied(dirty, attached(r, this, slot).deliveries(event)).len() == dirty.len(),
        forall|i: int|
            0 <= i < dirty.len() && i != slot.0 ==> #[trigger] dirtied(
                dirty,
                attached(r, this, slot).deliveries(event),
            )[i] == dirtied(dirty, r.deliveries(event))[i],
        this matches Held::Writer(cell) && event.kind != MutationKind::Silent && r.carries(
            cell@.stream,
            event.stream,
        ) && slot.0 < dirty.len() ==> dirtied(
            dirty,
            attached(r, this, slot).deliveries(event),
        )[slot.0 as int],
        event.kind == MutationKind::Silent ==> dirtied(
            dirty,
            attached(r, this, slot).deliveries(event),
        ) == dirty,
{
    let after = attached(r, this, slot);
    let calls = after.deliveries(event);
    let calls_before = r.deliveries(event);
    if let Held::Writer(cell) = this {
        let subs = after.subscriptions;
        assert(subs.drop_last() =~= r.subscriptions);
        assert(after.hearing(event) =~= r.hearing(event));
        lemma_calls_step(subs, after.hearing(event), event.kind);
        assert(subs.last().callback == dirty_callback(slot));
        assert forall|i: int| 0 <= i < dirty.len() && i != slot.0 implies names(calls, i) == names(
            calls_before,
            i,
        ) by {
            if names(calls, i) {
                let k = choose|k: int| 0 <= k < calls.len() && (#[trigger] calls[k]).callback.0 == i;
                assert(calls_before[k].callback.0 == i);
            }
            if names(calls_before, i) {
                let k = choose|k: int|
                    0 <= k < calls_before.len() && (#[trigger] calls_before[k]).callback.0 == i;
                assert(calls[k].callback.0 == i);
            }
        }
        if event.kind != MutationKind::Silent && r.carries(cell@.stream, event.stream) && slot.0
            < dirty.len() {
            assert(after.hearing(event)(subs.last()));
            assert(calls.last().callback.0 == slot.0);
            assert(names(calls, slot.0 as int));
        }
    }
    if event.kind == MutationKind::Silent {
        silent_is_heard_by_nobody(after, event);
        assert(dirtied(dirty, calls) =~= dirty);
    }
}

/// A node whose decorator overrides the layout alone paints what its host
/// paints, is hit where its host is hit, and has the transform and the
/// dependence on its clamp that its host has.
pub proof fn layout_decorator_forwards<H: Render, W: WrapLayout<H>>(
    pair: RenderPair<LayoutOnly<W>, H>,
    ctx: HitTestCtx,
    pos: Point,
)
    ensures
        pair.painted() == pair.host.painted(),
        pair.hit(ctx, pos) == pair.host.hit(ctx, pos),
        pair.transform() == pair.host.transform(),
        pair.sized_by_parent() == pair.host.sized_by_parent(),
{
}

/// The same holds where the decorator is held by a cell.
pub proof fn layout_decorator_in_cell_forwards<H: Render, W: WrapLayout<H>>(
    pair: RenderPair<StateCell<LayoutOnly<W>>, H>,
    ctx: HitTestCtx,
    pos: Point,
)
    ensures
        pair.painted() == pair.host.painted(),
        pair.hit(ctx, pos) == pair.host.hit(ctx, pos),
        pair.transform() == pair.host.transform(),
        pair.sized_by_parent() == pair.host.sized_by_parent(),
{
}

/// The same holds however the decorator is held by the code that has
/// attached it.
pub proof fn attached_layout_decorator_forwards<H: Render, W: WrapLayout<H>>(
    pair: RenderPair<Held<LayoutOnly<W>>, H>,
    ctx: HitTestCtx,
    pos: Point,
)
    ensures
        pair.painted() == pair.host.painted(),
        pair.hit(ctx, pos) == pair.host.hit(ctx, pos),
        pair.transform() == pair.host.transform(),
        pair.sized_by_parent() == pair.host.sized_by_parent(),
{
}

/// A host of a given size, as far as its clamp admits it.
#[derive(Clone, Copy, Debug, PartialEq, Eq, Structural)]
pub struct SizedBox {
    pub size: Size,
    /// The mark that the box leaves when it paints.
    pub mark: u64,
    pub transform: Option<Transform>,
}

/// Whether `pos` lies in the box at `origin` of the size `size`.
pub open spec fn lies_in(pos: Point, origin: Point, size: Size) -> bool {
    &&& origin.x <= pos.x
    &&& origin.y <= pos.y
    &&& pos.x - origin.x < size.width
    &&& pos.y - origin.y < size.height
}

impl Render for SizedBox {
    open spec fn layout_size(&self, clamp: BoxClamp) -> Size {
        clamp.clamped(self.size)
    }

    open spec fn painted(&self) -> Seq<u64> {
        seq![self.mark]
    }

    open spec fn sized_by_parent(&self) -> bool {
        false
    }

    open spec fn hit(&self, ctx: HitTestCtx, pos: Point) -> HitTest {
        HitTest {
            hit: lies_in(pos, ctx.origin, ctx.size),
            can_hit_child: lies_in(pos, ctx.origin, ctx.size),
        }
    }

    open spec fn transform(&self) -> Option<Transform> {
        self.transform
    }

    fn perform_layout(&self, clamp: BoxClamp) -> (size: Size) {
        clamp.clamp(self.size)
    }

    fn paint(&self, ctx: &mut PaintingCtx) {
        ctx.draw(self.mark);
        assert(ctx@ =~= old(ctx)@ + seq![self.mark]);
    }

    fn only_sized_by_parent(&self) -> (b: bool) {
        false
    }

    fn hit_test(&self, ctx: &HitTestCtx, pos: Point) -> (found: HitTest) {
        let inside = ctx.origin.x <= pos.x && ctx.origin.y <= pos.y && pos.x - ctx.origin.x
            < ctx.size.width && pos.y - ctx.origin.y < ctx.size.height;
        HitTest { hit: inside, can_hit_child: inside }
    }

    fn get_transform(&self) -> (t: Option<Transform>) {
        self.transform
    }
}

/// Space around a host: the host is laid out in what the clamp leaves of
/// it, and the node takes the size of the host with the space added.
#[derive(Clone, Copy, Debug, PartialEq, Eq, Structural)]
pub struct Margin {
    /// The space on each side.
    pub margin: u32,
}

impl Margin {
    /// The space on two opposite sides together.
    pub open spec fn thickness(self) -> u32 {
        plus(self.margin, self.margin)
    }
}

impl<H: Render> WrapLayout<H> for Margin {
    open spec fn decorated_size(&self, clamp: BoxClamp, host: &H) -> Size {
        host.layout_size(
            BoxClamp {
                min: clamp.min.shrunk(self.thickness()),
                max: clamp.max.shrunk(self.thickness()),
            },
        ).grown(self.thickness())
    }

    fn perform_layout(&self, clamp: BoxClamp, host: &H) -> (size: Size) {
        let thickness = self.margin.saturating_add(self.margin);
        let inner = BoxClamp { min: clamp.min.shrink(thickness), max: clamp.max.shrink(thickness) };
        host.perform_layout(inner).grow(thickness)
    }
}

} // verus!
