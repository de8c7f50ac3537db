//! A canvas for drawing paths on.

use crate::aabb::Aabb;
use crate::path::{
    all_outlines, lemma_all_outlines_step, lemma_outlines_image_concat, outlines_carried,
    outlines_image, path_views, LineCommand, Path, ToPaths,
};
use crate::export::{
    document_attributes_for, document_head, exported_layers, layer_children, layer_group,
    path_element,
};
use crate::hull::{grow_by_paths, named_by_paths, paths_supported};
use crate::point::{spec_point2, Point2D, Vector2D};
use crate::slots::{
    key_as_bits, key_bits, slot_entries, slots_get, slots_insert, slots_new, slots_remove,
    LayerSlots, SLOT_LIMIT,
};
use crate::transform::Transform2D;
use crate::units::{Millis, NormalSpace, Paper, SvgUnit, NORMAL_ONE};
use crate::svgdoc::{
    document_add, document_attributes, document_children, group_add, group_attributes,
    group_children,
};
use slotmap::DefaultKey;
use std::marker::PhantomData;
use vstd::prelude::*;

verus! {

/// Marker of the canvas space: positions on the sheet, counted from its top
/// left corner in thousandths of the sheet's unit.
#[derive(Clone, Copy, Debug, Default, PartialEq, Eq, PartialOrd, Ord, Hash)]
pub struct CanvasSpace;

/// Map from the normalized space onto the drawable area of a canvas.
pub type CanvasProjection = Transform2D<NormalSpace, CanvasSpace>;

/// The number of a layer: how many layers the canvas had created before it.
#[derive(Clone, Copy, Debug, PartialEq, Eq, Structural)]
pub struct LayerId(pub u64);

/// The colour in which a program shows a layer with the given number that
/// has no pen of its own.
pub open spec fn layer_color_name(id: u64) -> Seq<char> {
    if id == 0 {
        "#00f"@
    } else if id == 1 {
        "#080"@
    } else if id == 2 {
        "#f00"@
    } else if id == 3 {
        "#0cc"@
    } else if id == 4 {
        "#0f0"@
    } else if id == 5 {
        "#c0c"@
    } else if id == 6 {
        "#cc0"@
    } else {
        "black"@
    }
}

impl LayerId {
    /// The colour in which a program shows the layer where it has no pen of
    /// its own: one of seven colours for the first seven layers, black for
    /// all others.
    pub fn color_name(self) -> (name: String)
        ensures
            name@ == layer_color_name(self.0),
    {
        let name = if self.0 == 0 {
            "#00f"
        } else if self.0 == 1 {
            "#080"
        } else if self.0 == 2 {
            "#f00"
        } else if self.0 == 3 {
            "#0cc"
        } else if self.0 == 4 {
            "#0f0"
        } else if self.0 == 5 {
            "#c0c"
        } else if self.0 == 6 {
            "#cc0"
        } else {
            "black"
        };
        String::from_str(name)
    }
}

/// A stroke colour: the intensity of red, green and blue, each from 0 to 255.
#[derive(Clone, Copy, Debug, PartialEq, Eq, Structural)]
pub struct Rgb {
    /// Intensity of red.
    pub red: u8,
    /// Intensity of green.
    pub green: u8,
    /// Intensity of blue.
    pub blue: u8,
}

/// Why the view window could not be fitted to the paths.
#[derive(Clone, Copy, Debug, PartialEq, Eq, Structural)]
pub enum FitError {
    /// A path holds a command that can only be placed from the pen's
    /// position: a displacement, a horizontal or vertical line, or an arc.
    /// Fitting is not implemented for such a command.
    UnsupportedCommand,
}

/// Key that identifies a layer created on a canvas.
#[derive(Debug, PartialEq, Eq, Hash)]
pub struct LayerKey {
    key: DefaultKey,
}

impl Clone for LayerKey {
    fn clone(&self) -> (r: Self)
        ensures
            r == *self,
    {
        *self
    }
}

impl Copy for LayerKey {}

impl LayerKey {
    /// The 64 bits that identify the key. Two keys with the same bits are
    /// the same key.
    pub closed spec fn bits(self) -> u64 {
        key_bits(self.key)
    }

    /// The 64 bits that identify the key.
    pub fn as_bits(&self) -> (bits: u64)
        ensures
            bits == self.bits(),
    {
        key_as_bits(self.key)
    }
}

/// A layer holds the paths that are drawn with one pen.
#[derive(Debug)]
struct Layer {
    id: LayerId,
    paths: Vec<Path<i64, CanvasSpace>>,
    color: Rgb,
    nib_size: Millis,
}

/// What a layer is: its number, the colour and the nib size of its pen, and
/// the commands of each of its paths, in the order in which they were drawn.
pub ghost struct LayerView {
    /// The layer's number.
    pub id: u64,
    /// Stroke colour of the layer's pen.
    pub color: Rgb,
    /// Width of the strokes of the layer's pen.
    pub nib_size: Millis,
    /// The commands of each path of the layer.
    pub paths: Seq<Seq<LineCommand<i64, CanvasSpace>>>,
}

impl LayerView {
    /// The layer with more paths drawn after those it has.
    pub open spec fn with_more(self, outlines: Seq<Seq<LineCommand<i64, CanvasSpace>>>) -> Self {
        LayerView { paths: self.paths + outlines, ..self }
    }
}

impl View for Layer {
    type V = LayerView;

    closed spec fn view(&self) -> LayerView {
        LayerView {
            id: self.id.0,
            color: self.color,
            nib_size: self.nib_size,
            paths: path_views(self.paths@),
        }
    }
}

/// Position of the layer with the given number in a sequence of layers.
pub open spec fn index_of_id(layers: Seq<LayerView>, id: u64) -> int {
    choose|i: int| 0 <= i < layers.len() && layers[i].id == id
}

/// The view of each layer, in the same order.
spec fn layer_views(layers: Seq<Layer>) -> Seq<LayerView> {
    Seq::new(layers.len(), |i: int| layers[i]@)
}

/// A canvas is a sheet of paper, a view window and a collection of layers
/// with the paths drawn into them. To add paths to the canvas, use one of
/// the `draw` methods.
#[derive(Debug)]
pub struct Canvas<Unit: SvgUnit> {
    paper: Paper<Unit>,
    view: Aabb<i64, CanvasSpace>,
    slots: LayerSlots,
    layers: Vec<Layer>,
    layer_id_counter: u64,
}

impl<Unit: SvgUnit> Canvas<Unit> {
    /// The sheet of paper of the canvas.
    pub closed spec fn paper(self) -> Paper<Unit> {
        self.paper
    }

    /// The view window: the part of the canvas space that an exported
    /// document shows.
    pub closed spec fn view_box(self) -> Aabb<i64, CanvasSpace> {
        self.view
    }

    /// The layers of the canvas, in the order of their creation.
    pub closed spec fn layers(self) -> Seq<LayerView> {
        layer_views(self.layers@)
    }

    /// The live keys: the bits of each, and the number of the layer that the
    /// key stands for.
    pub closed spec fn keys(self) -> Map<u64, u64> {
        slot_entries(self.slots)
    }

    /// How many layers the canvas has created so far, those that were
    /// removed since counted in.
    pub closed spec fn created(self) -> u64 {
        self.layer_id_counter
    }

    /// Whether the key stands for a layer of this canvas.
    pub open spec fn has_layer(self, key: LayerKey) -> bool {
        self.keys().contains_key(key.bits())
    }

    /// Position among the layers of the layer that the key stands for.
    pub open spec fn layer_index(self, key: LayerKey) -> int {
        index_of_id(self.layers(), self.keys()[key.bits()])
    }

    /// Width of the drawable area.
    pub open spec fn spec_width(self) -> int {
        self.paper().usable_width()
    }

    /// Height of the drawable area.
    pub open spec fn spec_height(self) -> int {
        self.paper().usable_height()
    }

    /// The map from the normalized space onto the drawable area: the unit
    /// square is stretched to the area's width and height, then moved behind
    /// the left and the top margin.
    pub open spec fn projection(self) -> CanvasProjection {
        Transform2D {
            scale_x: self.spec_width() as i64,
            scale_y: self.spec_height() as i64,
            divisor: NORMAL_ONE,
            shift_x: self.paper().margin_left.amount() as i64,
            shift_y: self.paper().margin_top.amount() as i64,
            unit: PhantomData,
        }
    }

    /// The map that moves a position given from the corner of the drawable
    /// area behind the left and the top margin.
    pub open spec fn margin_shift(self) -> Transform2D<CanvasSpace, CanvasSpace> {
        Transform2D {
            scale_x: 1,
            scale_y: 1,
            divisor: 1,
            shift_x: self.paper().margin_left.amount() as i64,
            shift_y: self.paper().margin_top.amount() as i64,
            unit: PhantomData,
        }
    }

    /// The canvas is consistent: the sides of its drawable area can be
    /// computed, every live key stands for exactly one layer and no two keys
    /// for the same, and the layers are numbered in the order of their
    /// creation.
    pub closed spec fn wf(self) -> bool {
        &&& self.paper.spans_fit()
        &&& slot_entries(self.slots).dom().finite()
        &&& slot_entries(self.slots).dom().len() == self.layers@.len()
        &&& forall|i: int|
            0 <= i < self.layers@.len() ==> (#[trigger] self.layers@[i]).id.0
                < self.layer_id_counter
        &&& forall|i: int, j: int|
            0 <= i < j < self.layers@.len() ==> (#[trigger] self.layers@[i]).id.0 < (
            #[trigger] self.layers@[j]).id.0
        &&& forall|k: u64| #[trigger]
            slot_entries(self.slots).contains_key(k) ==> exists|i: int|
                0 <= i < self.layers@.len() && (#[trigger] self.layers@[i]).id.0 == slot_entries(
                    self.slots,
                )[k]
        &&& forall|k1: u64, k2: u64|
            slot_entries(self.slots).contains_key(k1) && slot_entries(self.slots).contains_key(k2)
                && #[trigger] slot_entries(self.slots)[k1] == #[trigger] slot_entries(
                self.slots,
            )[k2] ==> k1 == k2
    }

    /// Every live key of a consistent canvas stands for a layer, which
    /// `layer_index` finds, and no other layer has that layer's number.
    pub proof fn lemma_key_finds_layer(self, key: LayerKey)
        requires
            self.wf(),
            self.has_layer(key),
        ensures
            0 <= self.layer_index(key) < self.layers().len(),
            self.layers()[self.layer_index(key)].id == self.keys()[key.bits()],
            forall|i: int|
                0 <= i < self.layers().len() && (#[trigger] self.layers()[i]).id
                    == self.keys()[key.bits()] ==> i == self.layer_index(key),
    {
        let id = self.keys()[key.bits()];
        let w = choose|i: int| 0 <= i < self.layers@.len() && (#[trigger] self.layers@[i]).id.0 == id;
        assert(self.layers()[w].id == id);
        let found = self.layer_index(key);
        assert forall|i: int|
            0 <= i < self.layers().len() && (#[trigger] self.layers()[i]).id == id implies i
            == found by {
            assert(self.layers@[i].id.0 == id);
            assert(self.layers@[found].id.0 == id);
            if i < found {
                assert(self.layers@[i].id.0 < self.layers@[found].id.0);
            }
            if found < i {
                assert(self.layers@[found].id.0 < self.layers@[i].id.0);
            }
        }
    }

    /// Every live key of this canvas is live in the other one too and stands
    /// there for the layer at the same position.
    pub open spec fn places_kept(self, after: Self) -> bool {
        forall|k: LayerKey|
            #![trigger after.layer_index(k)]
            #![trigger after.has_layer(k)]
            self.has_layer(k) ==> after.has_layer(k) && after.layer_index(k) == self.layer_index(k)
    }

    /// Keys keep their places where they keep their layers' numbers and the
    /// layers keep their numbers and their places.
    proof fn lemma_places_kept(self, after: Self)
        requires
            self.wf(),
            after.wf(),
            forall|b: u64| #[trigger]
                self.keys().contains_key(b) ==> after.keys().contains_key(b) && after.keys()[b]
                    == self.keys()[b],
            self.layers().len() <= after.layers().len(),
            forall|i: int|
                0 <= i < self.layers().len() ==> (#[trigger] after.layers()[i]).id
                    == self.layers()[i].id,
        ensures
            self.places_kept(after),
    {
        assert forall|k: LayerKey| self.has_layer(k) implies after.has_layer(k)
            && after.layer_index(k) == self.layer_index(k) by {
            self.lemma_key_finds_layer(k);
            after.lemma_key_finds_layer(k);
            let i = self.layer_index(k);
            assert(after.layers()[i].id == after.keys()[k.bits()]);
        }
    }

    /// The projection of a consistent canvas takes a normalized position to
    /// the position on the sheet that lies behind the left and the top
    /// margin by that share of the drawable area's width and height: the
    /// corner `(0, 0)` of the unit square to the corner of the drawable
    /// area, the corner opposite to it to the opposite corner.
    pub proof fn lemma_projection(self, p: Point2D<i64, NormalSpace>)
        requires
            self.wf(),
        ensures
            self.projection().map_x(p.x as int) == self.paper().margin_left.amount() + (p.x
                * self.spec_width()) / (NORMAL_ONE as int),
            self.projection().map_y(p.y as int) == self.paper().margin_top.amount() + (p.y
                * self.spec_height()) / (NORMAL_ONE as int),
            self.projection().map_x(0) == self.paper().margin_left.amount(),
            self.projection().map_y(0) == self.paper().margin_top.amount(),
            self.projection().map_x(NORMAL_ONE as int) == self.paper().margin_left.amount()
                + self.spec_width(),
            self.projection().map_y(NORMAL_ONE as int) == self.paper().margin_top.amount()
                + self.spec_height(),
    {
        let w = self.spec_width();
        let h = self.spec_height();
        self.paper.margin_left.amount_fits();
        self.paper.margin_top.amount_fits();
        assert((1_000_000 * w) / 1_000_000 == w) by (nonlinear_arith);
        assert((1_000_000 * h) / 1_000_000 == h) by (nonlinear_arith);
        assert((0 * w) / 1_000_000 == 0) by (nonlinear_arith);
        assert((0 * h) / 1_000_000 == 0) by (nonlinear_arith);
    }

    /// Construct a new canvas on the given sheet of paper, without layers.
    /// The view window is the whole sheet.
    pub fn new(paper: Paper<Unit>) -> (canvas: Canvas<Unit>)
        requires
            paper.spans_fit(),
        ensures
            canvas.wf(),
            canvas.paper() == paper,
            canvas.layers() == Seq::<LayerView>::empty(),
            canvas.keys() == Map::<u64, u64>::empty(),
            canvas.created() == 0,
            canvas.view_box() == (Aabb::<i64, CanvasSpace> {
                min: spec_point2(0, 0),
                max: spec_point2(paper.width.amount() as i64, paper.height.amount() as i64),
            }),
            paper.wf() ==> canvas.view_box().wf(),
    {
        let view = Aabb {
            min: Point2D { x: 0, y: 0, unit: PhantomData },
            max: Point2D { x: paper.width.raw(), y: paper.height.raw(), unit: PhantomData },
        };
        let canvas = Canvas { paper, view, slots: slots_new(), layers: Vec::new(), layer_id_counter: 0 };
        assert(canvas.layers() =~= Seq::<LayerView>::empty());
        assert(canvas.keys() =~= Map::<u64, u64>::empty());
        canvas
    }

    /// Width of the drawable area: the sheet's width less the left and the
    /// right margin.
    pub fn width(&self) -> (w: Unit)
        requires
            self.wf(),
        ensures
            w.amount() == self.spec_width(),
    {
        self.paper.width.sub(self.paper.margin_left).sub(self.paper.margin_right)
    }

    /// Height of the drawable area: the sheet's height less the top and the
    /// bottom margin.
    pub fn height(&self) -> (h: Unit)
        requires
            self.wf(),
        ensures
            h.amount() == self.spec_height(),
    {
        self.paper.height.sub(self.paper.margin_top).sub(self.paper.margin_bottom)
    }

    /// The map from the normalized space onto the drawable area.
    pub fn canvas_transform(&self) -> (t: CanvasProjection)
        requires
            self.wf(),
        ensures
            t == self.projection(),
            t.wf(),
    {
        Transform2D::scale(self.width().raw(), self.height().raw(), NORMAL_ONE).then_translate(
            Vector2D {
                x: self.paper.margin_left.raw(),
                y: self.paper.margin_top.raw(),
                unit: PhantomData,
            },
        )
    }

    /// The map that moves a position behind the left and the top margin.
    pub fn margin_transform(&self) -> (t: Transform2D<CanvasSpace, CanvasSpace>)
        ensures
            t == self.margin_shift(),
            t.wf(),
    {
        Transform2D::translation(self.paper.margin_left.raw(), self.paper.margin_top.raw())
    }

    /// The sheet of paper of the canvas.
    pub fn sheet(&self) -> (paper: Paper<Unit>)
        ensures
            paper == self.paper(),
    {
        self.paper
    }

    /// The view window.
    pub fn view(&self) -> (view: Aabb<i64, CanvasSpace>)
        ensures
            view == self.view_box(),
    {
        self.view
    }

    /// Replace the view window.
    pub fn set_view(&mut self, view: Aabb<i64, CanvasSpace>)
        ensures
            final(self).view_box() == view,
            final(self).wf() == old(self).wf(),
            final(self).layers() == old(self).layers(),
            final(self).keys() == old(self).keys(),
            final(self).created() == old(self).created(),
            final(self).paper() == old(self).paper(),
    {
        self.view = view;
    }

    /// Whether the key stands for a layer of this canvas.
    pub fn contains_layer(&self, key: LayerKey) -> (b: bool)
        ensures
            b == self.has_layer(key),
    {
        slots_get(&self.slots, key.key).is_some()
    }

    /// The number of layers of the canvas.
    pub fn layer_count(&self) -> (n: usize)
        ensures
            n == self.layers().len(),
    {
        self.layers.len()
    }

    /// Whether the canvas can take one more layer: `create_layer` has room
    /// for fewer than `SLOT_LIMIT` layers at a time, and numbers them with
    /// a `u64`.
    pub fn has_room(&self) -> (b: bool)
        ensures
            b == (self.layers().len() < SLOT_LIMIT && self.created() < u64::MAX),
    {
        self.layers.len() < SLOT_LIMIT && self.layer_id_counter < u64::MAX
    }

    /// Register a new layer for a pen with the given stroke colour and nib
    /// size. The layer has no paths yet and comes after all others.
    pub fn create_layer(&mut self, color: Rgb, nib_size: Millis) -> (key: LayerKey)
        requires
            old(self).wf(),
            old(self).layers().len() < SLOT_LIMIT,
            old(self).created() < u64::MAX,
        ensures
            final(self).wf(),
            !old(self).has_layer(key),
            final(self).keys() == old(self).keys().insert(key.bits(), old(self).created()),
            final(self).layers() == old(self).layers().push(
                (LayerView { id: old(self).created(), color, nib_size, paths: Seq::empty() }),
            ),
            final(self).layer_index(key) == old(self).layers().len(),
            old(self).places_kept(*final(self)),
            final(self).created() == old(self).created() + 1,
            final(self).paper() == old(self).paper(),
            final(self).view_box() == old(self).view_box(),
    {
        let id: u64 = self.layer_id_counter;
        let key = slots_insert(&mut self.slots, id);
        self.layers.push(Layer { paths: Vec::new(), id: LayerId(id), color, nib_size });
        self.layer_id_counter = id + 1;
        let key = LayerKey { key };
        proof {
            let before = slot_entries(old(self).slots);
            let after = slot_entries(self.slots);
            assert(after.dom() =~= before.dom().insert(key.bits()));
            let last = self.layers@[self.layers@.len() - 1];
            assert(last.paths@ =~= Seq::empty());
            assert(path_views(last.paths@) =~= Seq::empty());
            assert(self.layers()
                =~= old(self).layers().push(
                LayerView { id: old(self).created(), color, nib_size, paths: Seq::empty() },
            ));
            assert forall|k: u64| #[trigger] before.contains_key(k) implies before[k] < id by {
                let i = choose|i: int|
                    0 <= i < old(self).layers@.len() && (#[trigger] old(self).layers@[i]).id.0
                        == before[k];
                assert(old(self).layers@[i].id.0 < id);
            }
            assert forall|k: u64| #[trigger] after.contains_key(k) implies exists|i: int|
                0 <= i < self.layers@.len() && (#[trigger] self.layers@[i]).id.0 == after[k] by {
                if k == key.bits() {
                    assert(self.layers@[self.layers@.len() - 1].id.0 == after[k]);
                } else {
                    let i = choose|i: int|
                        0 <= i < old(self).layers@.len() && (#[trigger] old(self).layers@[i]).id.0
                            == before[k];
                    assert(self.layers@[i].id.0 == after[k]);
                }
            }
            assert(self.wf());
            self.lemma_key_finds_layer(key);
            assert(self.layers()[old(self).layers().len() as int].id == id);
            old(self).lemma_places_kept(*self);
        }
        key
    }

    /// Remove a layer from the canvas, with the paths drawn into it. Fails
    /// on a key that stands for no layer of the canvas, which is then left
    /// as it was.
    pub fn remove_layer(&mut self, key: LayerKey) -> (r: Result<(), ()>)
        requires
            old(self).wf(),
        ensures
            final(self).wf(),
            r.is_ok() == old(self).has_layer(key),
            !final(self).has_layer(key),
            final(self).keys() == old(self).keys().remove(key.bits()),
            r.is_ok() ==> 0 <= old(self).layer_index(key) < old(self).layers().len(),
            r.is_ok() ==> final(self).layers() == old(self).layers().remove(
                old(self).layer_index(key),
            ),
            r.is_ok() ==> forall|k: LayerKey|
                final(self).has_layer(k) ==> #[trigger] final(self).layer_index(k) == if old(
                    self,
                ).layer_index(k) < old(self).layer_index(key) {
                    old(self).layer_index(k)
                } else {
                    old(self).layer_index(k) - 1
                },
            r.is_err() ==> old(self).places_kept(*final(self)),
            r.is_err() ==> final(self).layers() == old(self).layers(),
            final(self).created() == old(self).created(),
            final(self).paper() == old(self).paper(),
            final(self).view_box() == old(self).view_box(),
    {
        match slots_remove(&mut self.slots, key.key) {
            Some(id) => {
                proof {
                    old(self).lemma_key_finds_layer(key);
                    assert(old(self).layers()[old(self).layer_index(key)].id == id);
                    assert(old(self).layers@[old(self).layer_index(key)].id.0 == id);
                }
                let i: usize = find_layer(&self.layers, id);
                let ghost at: int = old(self).layer_index(key);
                assert(i as int == at);
                self.layers.remove(i);
                proof {
                    let before = slot_entries(old(self).slots);
                    let after = slot_entries(self.slots);
                    assert(after.dom() =~= before.dom().remove(key.bits()));
                    assert(self.layers() =~= old(self).layers().remove(at));
                    assert forall|k: u64| #[trigger] after.contains_key(k) implies exists|j: int|
                        0 <= j < self.layers@.len() && (#[trigger] self.layers@[j]).id.0
                            == after[k] by {
                        let j = choose|j: int|
                            0 <= j < old(self).layers@.len() && (#[trigger] old(
                                self,
                            ).layers@[j]).id.0 == before[k];
                        assert(before[k] != before[key.bits()]);
                        assert(j != at);
                        if j < at {
                            assert(self.layers@[j].id.0 == after[k]);
                        } else {
                            assert(self.layers@[j - 1].id.0 == after[k]);
                        }
                    }
                    assert forall|a: int, b: int| 0 <= a < b < self.layers@.len() implies (
                    #[trigger] self.layers@[a]).id.0 < (#[trigger] self.layers@[b]).id.0 by {
                        let a0 = if a < at { a } else { a + 1 };
                        let b0 = if b < at { b } else { b + 1 };
                        assert(old(self).layers@[a0].id.0 < old(self).layers@[b0].id.0);
                    }
                    assert forall|a: int| 0 <= a < self.layers@.len() implies (
                    #[trigger] self.layers@[a]).id.0 < self.layer_id_counter by {
                        let a0 = if a < at { a } else { a + 1 };
                        assert(old(self).layers@[a0].id.0 < self.layer_id_counter);
                    }
                    assert(self.wf());
                    assert forall|k: LayerKey| self.has_layer(k) implies #[trigger] self.layer_index(
                        k,
                    ) == if old(self).layer_index(k) < at {
                        old(self).layer_index(k)
                    } else {
                        old(self).layer_index(k) - 1
                    } by {
                        old(self).lemma_key_finds_layer(k);
                        self.lemma_key_finds_layer(k);
                        let was = old(self).layer_index(k);
                        assert(old(self).layers()[was].id != old(self).layers()[at].id);
                        let now = if was < at { was } else { was - 1 };
                        assert(self.layers()[now].id == self.keys()[k.bits()]);
                    }
                }
                Ok(())
            },
            None => {
                proof {
                    assert(slot_entries(self.slots) =~= slot_entries(old(self).slots));
                }
                Err(())
            },
        }
    }

    /// Position among the layers of the layer that the key stands for.
    fn get_layer(&self, key: LayerKey) -> (at: usize)
        requires
            self.wf(),
            self.has_layer(key),
        ensures
            at == self.layer_index(key),
            at < self.layers().len(),
    {
        proof {
            self.lemma_key_finds_layer(key);
            assert(self.layers@[self.layer_index(key)].id.0 == self.keys()[key.bits()]);
        }
        match slots_get(&self.slots, key.key) {
            Some(id) => find_layer(&self.layers, id),
            None => vstd::pervasive::unreached(),
        }
    }

    /// Draw the images of the given paths into the layer at the given
    /// position, after the paths that it has.
    fn append_transformed<U>(
        &mut self,
        at: usize,
        paths: &Vec<Path<i64, U>>,
        t: &Transform2D<U, CanvasSpace>,
    )
        requires
            old(self).wf(),
            at < old(self).layers().len(),
            t.wf(),
            outlines_carried(path_views(paths@), *t),
        ensures
            final(self).wf(),
            final(self).layers() == old(self).layers().update(
                at as int,
                old(self).layers()[at as int].with_more(outlines_image(path_views(paths@), *t)),
            ),
            old(self).places_kept(*final(self)),
            final(self).keys() == old(self).keys(),
            final(self).created() == old(self).created(),
            final(self).paper() == old(self).paper(),
            final(self).view_box() == old(self).view_box(),
    {
        let ghost images = outlines_image(path_views(paths@), *t);
        let mut i: usize = 0;
        while i < paths.len()
            invariant
                i <= paths@.len(),
                t.wf(),
                outlines_carried(path_views(paths@), *t),
                images == outlines_image(path_views(paths@), *t),
                at < self.layers@.len(),
                self.layers@.len() == old(self).layers@.len(),
                forall|j: int|
                    0 <= j < self.layers@.len() && j != at ==> self.layers@[j] == old(
                        self,
                    ).layers@[j],
                self.layers@[at as int].id == old(self).layers@[at as int].id,
                self.layers@[at as int].color == old(self).layers@[at as int].color,
                self.layers@[at as int].nib_size == old(self).layers@[at as int].nib_size,
                path_views(self.layers@[at as int].paths@) == path_views(
                    old(self).layers@[at as int].paths@,
                ) + images.take(i as int),
                self.slots == old(self).slots,
                self.layer_id_counter == old(self).layer_id_counter,
                self.paper == old(self).paper,
                self.view == old(self).view,
            decreases paths@.len() - i,
        {
            assert(path_views(paths@)[i as int] == paths@[i as int]@);
            let image = paths[i].transform(t);
            let ghost before = self.layers@[at as int].paths@;
            self.layers[at].paths.push(image);
            proof {
                assert(images[i as int] == image@);
                assert(path_views(before.push(image)) =~= path_views(before).push(image@));
                assert(images.take(i + 1) =~= images.take(i as int).push(image@));
            }
            i += 1;
        }
        proof {
            assert(images.take(i as int) =~= images);
            assert(self.layers() =~= old(self).layers().update(
                at as int,
                old(self).layers()[at as int].with_more(images),
            ));
            assert forall|k: u64| #[trigger]
                slot_entries(self.slots).contains_key(k) implies exists|j: int|
                0 <= j < self.layers@.len() && (#[trigger] self.layers@[j]).id.0 == slot_entries(
                    self.slots,
                )[k] by {
                let j = choose|j: int|
                    0 <= j < old(self).layers@.len() && (#[trigger] old(self).layers@[j]).id.0
                        == slot_entries(self.slots)[k];
                assert(self.layers@[j].id.0 == slot_entries(self.slots)[k]);
            }
            assert forall|a: int, b: int| 0 <= a < b < self.layers@.len() implies (
            #[trigger] self.layers@[a]).id.0 < (#[trigger] self.layers@[b]).id.0 by {
                assert(old(self).layers@[a].id.0 < old(self).layers@[b].id.0);
            }
            assert forall|a: int| 0 <= a < self.layers@.len() implies (
            #[trigger] self.layers@[a]).id.0 < self.layer_id_counter by {
                assert(old(self).layers@[a].id.0 < self.layer_id_counter);
            }
            assert(self.wf());
            old(self).lemma_places_kept(*self);
        }
    }

    /// Draw the given paths, which are given in the canvas space from the
    /// corner of the drawable area, into the layer: each is moved behind the
    /// left and the top margin and comes after the paths that the layer has.
    pub fn draw<P: ToPaths<i64, CanvasSpace>>(&mut self, layer: LayerKey, paths: P)
        requires
            old(self).wf(),
            old(self).has_layer(layer),
            outlines_carried(paths.outlines(), old(self).margin_shift()),
        ensures
            final(self).wf(),
            final(self).layers() == old(self).layers().update(
                old(self).layer_index(layer),
                old(self).layers()[old(self).layer_index(layer)].with_more(
                    outlines_image(paths.outlines(), old(self).margin_shift()),
                ),
            ),
            old(self).places_kept(*final(self)),
            final(self).keys() == old(self).keys(),
            final(self).created() == old(self).created(),
            final(self).paper() == old(self).paper(),
            final(self).view_box() == old(self).view_box(),
    {
        let paths = paths.to_paths();
        let margin_transform = self.margin_transform();
        let at = self.get_layer(layer);
        self.append_transformed(at, &paths, &margin_transform);
    }

    /// Draw the given paths, which are given in the normalized space, into
    /// the layer: each is projected onto the drawable area and comes after
    /// the paths that the layer has.
    pub fn draw_n<P: ToPaths<i64, NormalSpace>>(&mut self, layer: LayerKey, paths: P)
        requires
            old(self).wf(),
            old(self).has_layer(layer),
            outlines_carried(paths.outlines(), old(self).projection()),
        ensures
            final(self).wf(),
            final(self).layers() == old(self).layers().update(
                old(self).layer_index(layer),
                old(self).layers()[old(self).layer_index(layer)].with_more(
                    outlines_image(paths.outlines(), old(self).projection()),
                ),
            ),
            old(self).places_kept(*final(self)),
            final(self).keys() == old(self).keys(),
            final(self).created() == old(self).created(),
            final(self).paper() == old(self).paper(),
            final(self).view_box() == old(self).view_box(),
    {
        let paths = paths.to_paths();
        let projection = self.canvas_transform();
        let at = self.get_layer(layer);
        self.append_transformed(at, &paths, &projection);
    }

    /// Draw the images of the paths that the items stand for into the layer
    /// at the given position, after the paths that it has.
    fn append_all<U, P: ToPaths<i64, U>>(
        &mut self,
        at: usize,
        items: &Vec<P>,
        t: &Transform2D<U, CanvasSpace>,
    )
        requires
            old(self).wf(),
            at < old(self).layers().len(),
            t.wf(),
            forall|i: int|
                0 <= i < items@.len() ==> outlines_carried((#[trigger] items@[i]).outlines(), *t),
        ensures
            final(self).wf(),
            final(self).layers() == old(self).layers().update(
                at as int,
                old(self).layers()[at as int].with_more(outlines_image(all_outlines(items@), *t)),
            ),
            old(self).places_kept(*final(self)),
            final(self).keys() == old(self).keys(),
            final(self).created() == old(self).created(),
            final(self).paper() == old(self).paper(),
            final(self).view_box() == old(self).view_box(),
    {
        let ghost start = old(self).layers()[at as int];
        let mut i: usize = 0;
        proof {
            assert(all_outlines(items@.take(0)) =~= Seq::empty());
            assert(outlines_image(all_outlines(items@.take(0)), *t) =~= Seq::empty());
            assert(start.with_more(Seq::empty()).paths =~= start.paths);
            assert(self.layers() =~= old(self).layers().update(
                at as int,
                start.with_more(outlines_image(all_outlines(items@.take(0)), *t)),
            ));
        }
        while i < items.len()
            invariant
                i <= items@.len(),
                t.wf(),
                forall|j: int|
                    0 <= j < items@.len() ==> outlines_carried(
                        (#[trigger] items@[j]).outlines(),
                        *t,
                    ),
                self.wf(),
                at < old(self).layers().len(),
                start == old(self).layers()[at as int],
                self.layers() == old(self).layers().update(
                    at as int,
                    start.with_more(outlines_image(all_outlines(items@.take(i as int)), *t)),
                ),
                old(self).places_kept(*self),
                self.keys() == old(self).keys(),
                self.created() == old(self).created(),
                self.paper() == old(self).paper(),
                self.view_box() == old(self).view_box(),
            decreases items@.len() - i,
        {
            let paths = items[i].to_paths();
            let ghost drawn = all_outlines(items@.take(i as int));
            let ghost more = items@[i as int].outlines();
            self.append_transformed(at, &paths, t);
            proof {
                lemma_all_outlines_step(items@, i as int);
                lemma_outlines_image_concat(drawn, more, *t);
                assert(start.with_more(outlines_image(drawn, *t)).with_more(
                    outlines_image(more, *t),
                ).paths =~= start.with_more(outlines_image(drawn + more, *t)).paths);
                assert(self.layers() =~= old(self).layers().update(
                    at as int,
                    start.with_more(outlines_image(all_outlines(items@.take(i + 1)), *t)),
                ));
            }
            i += 1;
        }
        proof {
            assert(items@.take(i as int) =~= items@);
        }
    }

    /// Given a collection of things that can be drawn in the canvas space,
    /// draw all of them into the layer, one after the other.
    pub fn draw_many<P: ToPaths<i64, CanvasSpace>>(&mut self, layer: LayerKey, paths: Vec<P>)
        requires
            old(self).wf(),
            old(self).has_layer(layer),
            forall|i: int|
                0 <= i < paths@.len() ==> outlines_carried(
                    (#[trigger] paths@[i]).outlines(),
                    old(self).margin_shift(),
                ),
        ensures
            final(self).wf(),
            final(self).layers() == old(self).layers().update(
                old(self).layer_index(layer),
                old(self).layers()[old(self).layer_index(layer)].with_more(
                    outlines_image(all_outlines(paths@), old(self).margin_shift()),
                ),
            ),
            old(self).places_kept(*final(self)),
            final(self).keys() == old(self).keys(),
            final(self).created() == old(self).created(),
            final(self).paper() == old(self).paper(),
            final(self).view_box() == old(self).view_box(),
    {
        let margin_transform = self.margin_transform();
        let at = self.get_layer(layer);
        self.append_all(at, &paths, &margin_transform);
    }

    /// Given a collection of things that can be drawn in the normalized
    /// space, draw all of them into the layer, one after the other.
    pub fn draw_n_many<P: ToPaths<i64, NormalSpace>>(&mut self, layer: LayerKey, paths: Vec<P>)
        requires
            old(self).wf(),
            old(self).has_layer(layer),
            forall|i: int|
                0 <= i < paths@.len() ==> outlines_carried(
                    (#[trigger] paths@[i]).outlines(),
                    old(self).projection(),
                ),
        ensures
            final(self).wf(),
            final(self).layers() == old(self).layers().update(
                old(self).layer_index(layer),
                old(self).layers()[old(self).layer_index(layer)].with_more(
                    outlines_image(all_outlines(paths@), old(self).projection()),
                ),
            ),
            old(self).places_kept(*final(self)),
            final(self).keys() == old(self).keys(),
            final(self).created() == old(self).created(),
            final(self).paper() == old(self).paper(),
            final(self).view_box() == old(self).view_box(),
    {
        let transform = self.canvas_transform();
        let at = self.get_layer(layer);
        self.append_all(at, &paths, &transform);
    }

    /// Replace the view window by the smallest box around all that is
    /// drawn: around every position that a command of a path of a layer
    /// names. A canvas without paths keeps its view window. Where the paths
    /// name no position at all, the view window becomes the box that holds
    /// nothing. Fitting fails, and the canvas stays as it was, where a path
    /// holds a command that names no position of its own.
    pub fn fit_view_to_paths(&mut self) -> (r: Result<(), FitError>)
        requires
            old(self).wf(),
        ensures
            final(self).wf(),
            final(self).layers() == old(self).layers(),
            final(self).keys() == old(self).keys(),
            final(self).created() == old(self).created(),
            final(self).paper() == old(self).paper(),
            r.is_ok() == paths_supported(all_paths(old(self).layers())),
            r.is_err() ==> final(self).view_box() == old(self).view_box(),
            r.is_ok() && all_paths(old(self).layers()).len() == 0 ==> final(self).view_box()
                == old(self).view_box(),
            r.is_ok() && all_paths(old(self).layers()).len() > 0 ==> final(self).view_box().fitted_to(
                named_by_paths(all_paths(old(self).layers())),
            ),
            r.is_ok() && all_paths(old(self).layers()).len() > 0 ==> final(self).view_box()
                == Aabb::<i64, CanvasSpace>::nothing().grown_by_paths(all_paths(old(self).layers())),
            r.is_ok() && (exists|p: Point2D<i64, CanvasSpace>|
                named_by_paths(all_paths(old(self).layers())).contains(p))
                ==> final(self).view_box().wf(),
    {
        let mut grown: Aabb<i64, CanvasSpace> = Aabb::empty();
        let mut any: bool = false;
        let mut i: usize = 0;
        proof {
            assert(all_paths(self.layers().take(0)) =~= Seq::empty());
        }
        while i < self.layers.len()
            invariant
                i <= self.layers@.len(),
                paths_supported(all_paths(self.layers().take(i as int))),
                grown == Aabb::<i64, CanvasSpace>::nothing().grown_by_paths(
                    all_paths(self.layers().take(i as int)),
                ),
                any == (all_paths(self.layers().take(i as int)).len() > 0),
                *self == *old(self),
                self.wf(),
            decreases self.layers@.len() - i,
        {
            let layer = &self.layers[i];
            proof {
                assert(self.layers()[i as int] == layer@);
                lemma_all_paths_step(self.layers(), i as int);
                Aabb::<i64, CanvasSpace>::nothing().lemma_grown_by_paths_concat(
                    all_paths(self.layers().take(i as int)),
                    layer@.paths,
                );
                lemma_supported_by_layer(self.layers(), i as int);
            }
            match grow_by_paths(grown, &layer.paths) {
                Some(next) => {
                    grown = next;
                },
                None => {
                    return Err(FitError::UnsupportedCommand);
                },
            }
            if layer.paths.len() > 0 {
                any = true;
            }
            i += 1;
        }
        proof {
            assert(self.layers().take(i as int) =~= self.layers());
            Aabb::<i64, CanvasSpace>::lemma_grown_from_nothing(all_paths(self.layers()));
            if exists|p: Point2D<i64, CanvasSpace>|
                named_by_paths(all_paths(self.layers())).contains(p) {
                grown.lemma_fitted_wf(named_by_paths(all_paths(self.layers())));
                assert(all_paths(self.layers()).len() > 0);
            }
        }
        if any {
            self.view = grown;
        }
        Ok(())
    }

    /// Render the canvas as an SVG document. The document has the size of
    /// the sheet and shows the view window. It holds one group for each
    /// layer, in the order in which the layers were created, with the
    /// stroke colour of the layer's pen; each group holds one `path`
    /// element for each path of the layer, in the order in which they were
    /// drawn, with the nib size of the pen as the width of the stroke. The
    /// canvas is left as it is.
    pub fn create_svg(&self) -> (document: svg::node::element::SVG)
        ensures
            document_attributes(document) == document_attributes_for(
                self.paper(),
                self.view_box(),
            ),
            document_children(document) == exported_layers(self.layers()),
    {
        let mut document = document_head(&self.paper, &self.view);
        let ghost groups = exported_layers(self.layers());
        let mut i: usize = 0;
        assert(groups.take(0) =~= Seq::empty());
        while i < self.layers.len()
            invariant
                i <= self.layers@.len(),
                groups == exported_layers(self.layers()),
                document_attributes(document) == document_attributes_for(self.paper, self.view),
                document_children(document) == groups.take(i as int),
            decreases self.layers@.len() - i,
        {
            let layer = &self.layers[i];
            let mut layer_node = layer_group(layer.id.0, layer.color);
            let ghost elements = layer_children(layer@);
            let mut j: usize = 0;
            assert(elements.take(0) =~= Seq::empty());
            while j < layer.paths.len()
                invariant
                    j <= layer.paths@.len(),
                    elements == layer_children(layer@),
                    group_attributes(layer_node) == crate::export::layer_attributes(
                        layer@.id,
                        layer@.color,
                    ),
                    group_children(layer_node) == elements.take(j as int),
                decreases layer.paths@.len() - j,
            {
                let element = path_element(&layer.paths[j], layer.nib_size);
                layer_node = group_add(layer_node, element);
                proof {
                    assert(layer@.paths[j as int] == layer.paths@[j as int]@);
                    assert(elements.take(j + 1) =~= elements.take(j as int).push(
                        elements[j as int],
                    ));
                }
                j += 1;
            }
            proof {
                assert(elements.take(j as int) =~= elements);
                assert(self.layers()[i as int] == layer@);
                assert(groups.take(i + 1) =~= groups.take(i as int).push(groups[i as int]));
            }
            document = document_add(document, layer_node);
            i += 1;
        }
        assert(groups.take(i as int) =~= groups);
        document
    }
}

/// The commands of each path of the layers: the paths of the first layer,
/// then those of the second, and so on.
pub open spec fn all_paths(layers: Seq<LayerView>) -> Seq<Seq<LineCommand<i64, CanvasSpace>>> {
    layers.map_values(|l: LayerView| l.paths).flatten()
}

/// The paths of one layer more come after those of the layers before it.
pub proof fn lemma_all_paths_step(layers: Seq<LayerView>, i: int)
    requires
        0 <= i < layers.len(),
    ensures
        all_paths(layers.take(i + 1)) == all_paths(layers.take(i)) + layers[i].paths,
{
    let f = |l: LayerView| l.paths;
    assert(layers.take(i + 1) =~= layers.take(i).push(layers[i]));
    assert(layers.take(i).push(layers[i]).map_values(f) =~= layers.take(i).map_values(f).push(
        f(layers[i]),
    ));
    layers.take(i).map_values(f).lemma_flatten_push(f(layers[i]));
}

/// Every path of every layer is supported where all paths of the layers
/// taken together are, and the other way round.
pub proof fn lemma_supported_by_layer(layers: Seq<LayerView>, i: int)
    requires
        0 <= i < layers.len(),
    ensures
        paths_supported(all_paths(layers)) ==> paths_supported(layers[i].paths),
        paths_supported(all_paths(layers.take(i + 1))) == (paths_supported(
            all_paths(layers.take(i)),
        ) && paths_supported(layers[i].paths)),
    decreases layers.len() - i,
{
    lemma_all_paths_step(layers, i);
    let front = all_paths(layers.take(i));
    let here = layers[i].paths;
    assert(paths_supported(front + here) ==> paths_supported(front) && paths_supported(here)) by {
        if paths_supported(front + here) {
            assert forall|k: int| 0 <= k < front.len() implies crate::hull::commands_supported(
                #[trigger] front[k],
            ) by {
                assert((front + here)[k] == front[k]);
            }
            assert forall|k: int| 0 <= k < here.len() implies crate::hull::commands_supported(
                #[trigger] here[k],
            ) by {
                assert((front + here)[front.len() + k] == here[k]);
            }
        }
    }
    assert(paths_supported(front) && paths_supported(here) ==> paths_supported(front + here));
    if i + 1 < layers.len() {
        lemma_supported_by_layer(layers, i + 1);
        if paths_supported(all_paths(layers)) {
            lemma_supported_prefix(layers, i + 1);
        }
    } else {
        assert(layers.take(i + 1) =~= layers);
    }
}

/// Where all paths of the layers taken together are supported, so are
/// those of the first layers.
pub proof fn lemma_supported_prefix(layers: Seq<LayerView>, n: int)
    requires
        0 <= n <= layers.len(),
        paths_supported(all_paths(layers)),
    ensures
        paths_supported(all_paths(layers.take(n))),
    decreases layers.len() - n,
{
    if n == layers.len() {
        assert(layers.take(n) =~= layers);
    } else {
        lemma_supported_prefix(layers, n + 1);
        lemma_all_paths_step(layers, n);
        let front = all_paths(layers.take(n));
        let here = layers[n].paths;
        assert forall|k: int| 0 <= k < front.len() implies crate::hull::commands_supported(
            #[trigger] front[k],
        ) by {
            assert((front + here)[k] == front[k]);
        }
    }
}

/// Fitting the view window does not depend on the order in which the paths
/// were drawn, nor on the layers into which they were drawn: two canvases
/// that hold the same paths, in whatever order and layers, and whose view
/// windows are fitted to them have the same view window. And fitting
/// succeeds on the one where it succeeds on the other.
pub proof fn lemma_fit_order_independent<A: SvgUnit, B: SvgUnit>(a: Canvas<A>, b: Canvas<B>)
    requires
        all_paths(a.layers()).to_multiset() == all_paths(b.layers()).to_multiset(),
        a.view_box().fitted_to(named_by_paths(all_paths(a.layers()))),
        b.view_box().fitted_to(named_by_paths(all_paths(b.layers()))),
    ensures
        a.view_box() == b.view_box(),
        paths_supported(all_paths(a.layers())) == paths_supported(all_paths(b.layers())),
{
    crate::hull::lemma_order_independent(
        all_paths(a.layers()),
        all_paths(b.layers()),
        a.view_box(),
        b.view_box(),
    );
}

impl<Unit: SvgUnit> ToPaths<i64, CanvasSpace> for Canvas<Unit> {
    /// A canvas stands for the paths of all its layers.
    open spec fn outlines(&self) -> Seq<Seq<LineCommand<i64, CanvasSpace>>> {
        all_paths(self.layers())
    }

    fn to_paths(&self) -> (paths: Vec<Path<i64, CanvasSpace>>) {
        let mut paths: Vec<Path<i64, CanvasSpace>> = Vec::new();
        let mut i: usize = 0;
        proof {
            assert(all_paths(self.layers().take(0)) =~= Seq::empty());
            assert(path_views(paths@) =~= Seq::empty());
        }
        while i < self.layers.len()
            invariant
                i <= self.layers@.len(),
                path_views(paths@) == all_paths(self.layers().take(i as int)),
            decreases self.layers@.len() - i,
        {
            let layer = &self.layers[i];
            let ghost before = path_views(paths@);
            let mut j: usize = 0;
            assert(layer@.paths.take(0) =~= Seq::empty());
            while j < layer.paths.len()
                invariant
                    j <= layer.paths@.len(),
                    path_views(paths@) == before + layer@.paths.take(j as int),
                decreases layer.paths@.len() - j,
            {
                let ghost so_far = paths@;
                let copy = layer.paths[j].clone();
                paths.push(copy);
                proof {
                    assert(path_views(so_far.push(copy)) =~= path_views(so_far).push(copy@));
                    assert(layer@.paths[j as int] == layer.paths@[j as int]@);
                    assert(layer@.paths.take(j + 1) =~= layer@.paths.take(j as int).push(copy@));
                }
                j += 1;
            }
            proof {
                assert(layer@.paths.take(j as int) =~= layer@.paths);
                assert(self.layers()[i as int] == layer@);
                lemma_all_paths_step(self.layers(), i as int);
            }
            i += 1;
        }
        proof {
            assert(self.layers().take(i as int) =~= self.layers());
        }
        paths
    }
}

/// The layers are numbered in rising order.
spec fn rising(layers: Seq<Layer>) -> bool {
    forall|i: int, j: int|
        0 <= i < j < layers.len() ==> (#[trigger] layers[i]).id.0 < (#[trigger] layers[j]).id.0
}

/// Position of the layer with the given number, which is among the layers.
fn find_layer(layers: &Vec<Layer>, id: u64) -> (at: usize)
    requires
        rising(layers@),
        exists|i: int| 0 <= i < layers@.len() && (#[trigger] layers@[i]).id.0 == id,
    ensures
        at < layers@.len(),
        layers@[at as int].id.0 == id,
{
    let ghost target: int = choose|i: int| 0 <= i < layers@.len() && (#[trigger] layers@[i]).id.0 == id;
    let mut low: usize = 0;
    let mut high: usize = layers.len();
    while high - low > 1
        invariant
            rising(layers@),
            0 <= target < layers@.len(),
            layers@[target].id.0 == id,
            low <= target < high <= layers@.len(),
        decreases high - low,
    {
        let mid: usize = low + (high - low) / 2;
        if layers[mid].id.0 <= id {
            proof {
                if target < mid {
                    assert(layers@[target].id.0 < layers@[mid as int].id.0);
                }
            }
            low = mid;
        } else {
            proof {
                if mid < target {
                    assert(layers@[mid as int].id.0 < layers@[target].id.0);
                }
            }
            high = mid;
        }
    }
    low
}

} // verus!
