//! The stage: what one frame accumulates. Drawing appends instances and
//! records where the pipeline state changes; clipping adds polygons;
//! sensing declares regions and answers from the pointer targets that
//! were resolved when the frame started.

use vstd::prelude::*;
use crate::cache::{swept, FrameCache};
use crate::draw::{BlendMode, DrawCall, RenderPass};
use crate::sense::{
    advance_interactions, next_interactions, query_interactions, shape_interactions, Interactions,
    PointerButton, SenseSave, SenseShape, SenseShapeType,
};
use crate::texture::{TextureInfo, TextureKey};

verus! {

/// Handle for a clip region of the current frame.
#[derive(Debug, Clone, Copy, PartialEq, Eq, PartialOrd, Ord)]
pub struct ClipID(u32);

impl ClipID {
    /// Index of the clip polygon that the handle names.
    pub closed spec fn spec_index(self) -> u32 {
        self.0
    }

    /// Index of the clip polygon that the handle names.
    #[verifier::when_used_as_spec(spec_index)]
    pub fn index(self) -> (index: u32)
        ensures
            index == self.spec_index(),
    {
        self.0
    }
}

/// A clip polygon: the points `start..end` of the point buffer, applied
/// inside the polygon with index `parent`.
#[derive(Debug, Clone, Copy, PartialEq, Eq, Hash, Structural)]
pub struct ClipPolygon {
    pub start: u32,
    pub end: u32,
    pub parent: u32,
}

/// The span list of a frame is well formed: it is never empty, it starts
/// at instance zero, its starts strictly increase, and none lies beyond
/// the instances pushed so far.
pub open spec fn spans_ordered(spans: Seq<DrawCall>, instance_count: int) -> bool {
    &&& spans.len() >= 1
    &&& spans[0].start_instance == 0
    &&& forall|i: int, j: int|
        0 <= i < j < spans.len() ==> (#[trigger] spans[i]).start_instance < (
        #[trigger] spans[j]).start_instance
    &&& spans.last().start_instance <= instance_count
}

/// The one span of a frame in which nothing has changed yet.
pub open spec fn initial_span() -> DrawCall {
    DrawCall { start_instance: 0, set_blend_mode: None, set_texture: None }
}

/// The span list after a state change at `instance_count`. A new span
/// opens there, unless the last span starts there too and so holds no
/// instance yet: that span takes the change instead.
pub open spec fn with_state_change(
    spans: Seq<DrawCall>,
    instance_count: u32,
    blend: Option<BlendMode>,
    texture: Option<TextureKey>,
) -> Seq<DrawCall> {
    let last = spans.last();
    if last.start_instance == instance_count {
        spans.drop_last().push(
            DrawCall {
                start_instance: instance_count,
                set_blend_mode: if blend is Some {
                    blend
                } else {
                    last.set_blend_mode
                },
                set_texture: if texture is Some {
                    texture
                } else {
                    last.set_texture
                },
            },
        )
    } else {
        spans.push(
            DrawCall { start_instance: instance_count, set_blend_mode: blend, set_texture: texture },
        )
    }
}

/// The span list after a request for blend mode `mode` while `current`
/// is active: unchanged when the two are equal.
pub open spec fn after_blend_mode(
    spans: Seq<DrawCall>,
    instance_count: u32,
    current: BlendMode,
    mode: BlendMode,
) -> Seq<DrawCall> {
    if current == mode {
        spans
    } else {
        with_state_change(spans, instance_count, Some(mode), None)
    }
}

/// The span list after a request for `texture` while `current` is
/// bound: unchanged when the two are equal.
pub open spec fn after_texture(
    spans: Seq<DrawCall>,
    instance_count: u32,
    current: Option<TextureInfo>,
    texture: TextureInfo,
) -> Seq<DrawCall> {
    if current == Some(texture) {
        spans
    } else {
        with_state_change(spans, instance_count, None, Some(texture.key))
    }
}

/// The interaction state in which nothing is hovered or held.
pub open spec fn no_interactions() -> Interactions<Option<u64>> {
    Interactions {
        hovering: None,
        hovering_bypass: None,
        hover_started: None,
        hover_ended: None,
        holding: None,
        click_started: None,
        click_ended: None,
        right_holding: None,
        right_click_started: None,
        right_click_ended: None,
    }
}

/// Whether `top` is the region that the pointer is on: the one declared
/// last among those whose containment test succeeds, as `hit` reports it,
/// or none when every test fails. Regions are drawn in declaration
/// order, so the last declared is the topmost.
pub open spec fn topmost_hit<G, F: Fn(&SenseShape<G>) -> bool>(
    senses: Seq<SenseSave<G>>,
    hit: F,
    top: Option<u64>,
) -> bool {
    match top {
        Some(id) => {
            &&& id < senses.len()
            &&& senses[id as int].id == id
            &&& call_ensures(hit, (&senses[id as int].shape,), true)
            &&& forall|j: int|
                id < j < senses.len() ==> call_ensures(hit, (&(#[trigger] senses[j]).shape,), false)
        },
        None => forall|j: int|
            0 <= j < senses.len() ==> call_ensures(hit, (&(#[trigger] senses[j]).shape,), false),
    }
}

/// Whether the containment test may be made on every one of `senses`.
pub open spec fn may_test<G, F: Fn(&SenseShape<G>) -> bool>(
    senses: Seq<SenseSave<G>>,
    hit: F,
) -> bool {
    forall|j: int| 0 <= j < senses.len() ==> call_requires(hit, (&(#[trigger] senses[j]).shape,))
}

/// The state of one frame. `I` is an instance as the renderer consumes
/// it, `P` a point of a clip polygon, `G` the geometry of a sense shape.
pub struct Stage<I, P, G> {
    instances: Vec<I>,
    clip_polygon_points: Vec<P>,
    clip_polygons: Vec<ClipPolygon>,
    render_passes: Vec<RenderPass>,
    current_blend_mode: BlendMode,
    current_texture: Option<TextureInfo>,
    current_clip: u32,
    mouse_down: Option<u64>,
    right_mouse_down: Option<u64>,
    old_senses: Vec<SenseSave<G>>,
    build_senses: Vec<SenseSave<G>>,
    sense_id_ctr: u64,
    interactions: Interactions<Option<u64>>,
}

impl<I, P, G> Stage<I, P, G> {
    /// The instances pushed in this frame, in order.
    pub closed spec fn instances(&self) -> Seq<I> {
        self.instances@
    }

    /// The render passes of this frame.
    pub closed spec fn passes(&self) -> Seq<RenderPass> {
        self.render_passes@
    }

    /// The draw-call spans of this frame: those of its last render pass.
    pub open spec fn spans(&self) -> Seq<DrawCall> {
        self.passes().last().draw_calls@
    }

    /// The blend mode that is active.
    pub closed spec fn blend_mode(&self) -> BlendMode {
        self.current_blend_mode
    }

    /// The texture that is bound, if any.
    pub closed spec fn texture(&self) -> Option<TextureInfo> {
        self.current_texture
    }

    /// The points of all clip polygons.
    pub closed spec fn clip_points(&self) -> Seq<P> {
        self.clip_polygon_points@
    }

    /// The clip polygons of this frame.
    pub closed spec fn clips(&self) -> Seq<ClipPolygon> {
        self.clip_polygons@
    }

    /// Index of the clip polygon that is active.
    pub closed spec fn clip(&self) -> u32 {
        self.current_clip
    }

    /// The regions declared in the frame before, in declaration order.
    pub closed spec fn old_senses(&self) -> Seq<SenseSave<G>> {
        self.old_senses@
    }

    /// The regions declared in this frame so far, in declaration order.
    pub closed spec fn build_senses(&self) -> Seq<SenseSave<G>> {
        self.build_senses@
    }

    /// The identity that the next declared region gets.
    pub closed spec fn next_sense_id(&self) -> u64 {
        self.sense_id_ctr
    }

    /// The region that the primary button holds.
    pub closed spec fn pressed(&self) -> Option<u64> {
        self.mouse_down
    }

    /// The region that the secondary button holds.
    pub closed spec fn right_pressed(&self) -> Option<u64> {
        self.right_mouse_down
    }

    /// The interaction state resolved when the frame started.
    pub closed spec fn frame_interactions(&self) -> Interactions<Option<u64>> {
        self.interactions
    }

    /// The stage invariant.
    pub open spec fn wf(&self) -> bool {
        &&& self.passes().len() == 1
        &&& self.passes()[0].start_instance == 0
        &&& self.instances().len() <= u32::MAX
        &&& spans_ordered(self.spans(), self.instances().len() as int)
        &&& self.clip_points().len() >= 1
        &&& self.clips().len() >= 1
        &&& self.clip_points().len() <= u32::MAX
        &&& self.clips().len() <= u32::MAX
        &&& self.build_senses().len() == self.next_sense_id()
        &&& forall|i: int|
            0 <= i < self.build_senses().len() ==> (#[trigger] self.build_senses()[i]).id == i
        &&& forall|i: int|
            0 <= i < self.old_senses().len() ==> (#[trigger] self.old_senses()[i]).id == i
    }

    /// A stage at the start of its first frame. `origin` is the point
    /// that the clip point buffer starts with; no polygon refers to it.
    pub fn new(origin: P) -> (stage: Self)
        ensures
            stage.wf(),
            stage.instances() == Seq::<I>::empty(),
            stage.spans() == seq![initial_span()],
            stage.blend_mode() == BlendMode::Normal,
            stage.texture() == None::<TextureInfo>,
            stage.clip_points() == seq![origin],
            stage.clips() == seq![ClipPolygon { start: 0, end: 0, parent: 0 }],
            stage.clip() == 0,
            stage.old_senses() == Seq::<SenseSave<G>>::empty(),
            stage.build_senses() == Seq::<SenseSave<G>>::empty(),
            stage.next_sense_id() == 0,
            stage.pressed() == None::<u64>,
            stage.right_pressed() == None::<u64>,
            stage.frame_interactions() == no_interactions(),
    {
        let mut clip_polygon_points: Vec<P> = Vec::new();
        clip_polygon_points.push(origin);
        let mut clip_polygons: Vec<ClipPolygon> = Vec::new();
        clip_polygons.push(ClipPolygon { start: 0, end: 0, parent: 0 });
        let mut draw_calls: Vec<DrawCall> = Vec::new();
        draw_calls.push(DrawCall { start_instance: 0, set_blend_mode: None, set_texture: None });
        let mut render_passes: Vec<RenderPass> = Vec::new();
        render_passes.push(RenderPass { start_instance: 0, draw_calls });
        Stage {
            instances: Vec::new(),
            clip_polygon_points,
            clip_polygons,
            render_passes,
            current_blend_mode: BlendMode::Normal,
            current_texture: None,
            current_clip: 0,
            mouse_down: None,
            right_mouse_down: None,
            old_senses: Vec::new(),
            build_senses: Vec::new(),
            sense_id_ctr: 0,
            interactions: Interactions {
                hovering: None,
                hovering_bypass: None,
                hover_started: None,
                hover_ended: None,
                holding: None,
                click_started: None,
                click_ended: None,
                right_holding: None,
                right_click_started: None,
                right_click_ended: None,
            },
        }
    }

    /// Starts a frame. What was drawn and clipped is dropped and the
    /// pipeline state returns to its defaults. The regions declared in
    /// the frame that ends become the ones to resolve the pointer
    /// against, and the interaction state advances: `hit` is the
    /// containment test at the current pointer position.
    ///
    /// The stage holds no cache. `start_frame` starts a frame whole: it
    /// calls this and sweeps the caches that live from frame to frame.
    pub fn start<F: Fn(&SenseShape<G>) -> bool>(&mut self, origin: P, hit: &F)
        requires
            old(self).wf(),
            may_test(old(self).build_senses(), *hit),
        ensures
            final(self).wf(),
            frame_started(*old(self), *final(self), origin, *hit),
    {
        self.instances.clear();
        self.clip_polygon_points.clear();
        self.clip_polygons.clear();
        self.clip_polygon_points.push(origin);
        self.clip_polygons.push(ClipPolygon { start: 0, end: 0, parent: 0 });

        self.render_passes.clear();
        let mut draw_calls: Vec<DrawCall> = Vec::new();
        draw_calls.push(DrawCall { start_instance: 0, set_blend_mode: None, set_texture: None });
        self.render_passes.push(RenderPass { start_instance: 0, draw_calls });

        self.current_blend_mode = BlendMode::Normal;
        self.current_texture = None;
        self.current_clip = 0;

        core::mem::swap(&mut self.build_senses, &mut self.old_senses);
        self.build_senses.clear();
        self.sense_id_ctr = 0;

        self.update_interactions(hit);
    }

    /// Advances the interaction state by one frame: resolves the region
    /// under the pointer against the regions of the frame before, and
    /// derives the edges from what changed.
    pub fn update_interactions<F: Fn(&SenseShape<G>) -> bool>(&mut self, hit: &F)
        requires
            old(self).wf(),
            may_test(old(self).old_senses(), *hit),
        ensures
            final(self).wf(),
            same_drawing(*old(self), *final(self)),
            same_clipping(*old(self), *final(self)),
            final(self).old_senses() == old(self).old_senses(),
            final(self).build_senses() == old(self).build_senses(),
            final(self).next_sense_id() == old(self).next_sense_id(),
            final(self).pressed() == old(self).pressed(),
            final(self).right_pressed() == old(self).right_pressed(),
            topmost_hit(old(self).old_senses(), *hit, final(self).frame_interactions().hovering),
            final(self).frame_interactions() == next_interactions(
                old(self).frame_interactions(),
                final(self).frame_interactions().hovering,
                old(self).pressed(),
                old(self).right_pressed(),
            ),
    {
        let hovering = self.find_top_old_sense(hit);
        self.interactions = advance_interactions(
            self.interactions,
            hovering,
            self.mouse_down,
            self.right_mouse_down,
        );
    }

    /// The region under the pointer among those of the frame before: the
    /// last declared one whose containment test succeeds.
    pub fn find_top_old_sense<F: Fn(&SenseShape<G>) -> bool>(&self, hit: &F) -> (top: Option<u64>)
        requires
            self.wf(),
            may_test(self.old_senses(), *hit),
        ensures
            topmost_hit(self.old_senses(), *hit, top),
    {
        let mut index: usize = self.old_senses.len();
        while index > 0
            invariant
                index <= self.old_senses.len(),
                self.wf(),
                may_test(self.old_senses(), *hit),
                forall|j: int|
                    index <= j < self.old_senses().len() ==> call_ensures(
                        *hit,
                        (&(#[trigger] self.old_senses()[j]).shape,),
                        false,
                    ),
            decreases index,
        {
            index -= 1;
            let sense = &self.old_senses[index];
            if hit(&sense.shape) {
                return Some(sense.id);
            }
        }
        None
    }

    /// Whether the primary button holds a region.
    pub fn mouse_down(&self) -> (down: bool)
        ensures
            down == self.pressed().is_some(),
    {
        self.mouse_down.is_some()
    }

    /// Whether the secondary button holds a region.
    pub fn right_mouse_down(&self) -> (down: bool)
        ensures
            down == self.right_pressed().is_some(),
    {
        self.right_mouse_down.is_some()
    }

    /// A button went down: it now holds the region under the pointer, if
    /// there is one. `hit` is the containment test at the position of
    /// the press.
    pub fn pointer_pressed<F: Fn(&SenseShape<G>) -> bool>(&mut self, button: PointerButton, hit: &F)
        requires
            old(self).wf(),
            may_test(old(self).old_senses(), *hit),
        ensures
            final(self).wf(),
            same_drawing(*old(self), *final(self)),
            same_clipping(*old(self), *final(self)),
            final(self).old_senses() == old(self).old_senses(),
            final(self).build_senses() == old(self).build_senses(),
            final(self).next_sense_id() == old(self).next_sense_id(),
            final(self).frame_interactions() == old(self).frame_interactions(),
            match button {
                PointerButton::Primary => topmost_hit(
                    old(self).old_senses(),
                    *hit,
                    final(self).pressed(),
                ) && final(self).right_pressed() == old(self).right_pressed(),
                PointerButton::Secondary => topmost_hit(
                    old(self).old_senses(),
                    *hit,
                    final(self).right_pressed(),
                ) && final(self).pressed() == old(self).pressed(),
            },
    {
        let top = self.find_top_old_sense(hit);
        match button {
            PointerButton::Primary => {
                self.mouse_down = top;
            },
            PointerButton::Secondary => {
                self.right_mouse_down = top;
            },
        }
    }

    /// A button came up: it holds no region any more.
    pub fn pointer_released(&mut self, button: PointerButton)
        requires
            old(self).wf(),
        ensures
            final(self).wf(),
            same_drawing(*old(self), *final(self)),
            same_clipping(*old(self), *final(self)),
            final(self).old_senses() == old(self).old_senses(),
            final(self).build_senses() == old(self).build_senses(),
            final(self).next_sense_id() == old(self).next_sense_id(),
            final(self).frame_interactions() == old(self).frame_interactions(),
            match button {
                PointerButton::Primary => final(self).pressed() == None::<u64>
                    && final(self).right_pressed() == old(self).right_pressed(),
                PointerButton::Secondary => final(self).right_pressed() == None::<u64>
                    && final(self).pressed() == old(self).pressed(),
            },
    {
        match button {
            PointerButton::Primary => {
                self.mouse_down = None;
            },
            PointerButton::Secondary => {
                self.right_mouse_down = None;
            },
        }
    }

    /// Declares a region. It gets the next identity of the frame, which
    /// counts from zero in declaration order, and the answer says what
    /// the pointer does to the region of that identity. Only
    /// `hovering_bypass` is tested now, with `hit`; the rest was resolved
    /// when the frame started.
    pub fn add_sense<F: Fn(&SenseShape<G>) -> bool>(&mut self, shape: SenseShape<G>, hit: &F) -> (answer:
        Interactions<bool>)
        requires
            old(self).wf(),
            old(self).build_senses().len() < u64::MAX,
            call_requires(*hit, (&shape,)),
        ensures
            final(self).wf(),
            same_drawing(*old(self), *final(self)),
            same_clipping(*old(self), *final(self)),
            final(self).build_senses() == old(self).build_senses().push(
                SenseSave { shape, id: old(self).next_sense_id() },
            ),
            final(self).next_sense_id() == old(self).next_sense_id() + 1,
            final(self).old_senses() == old(self).old_senses(),
            final(self).pressed() == old(self).pressed(),
            final(self).right_pressed() == old(self).right_pressed(),
            final(self).frame_interactions() == old(self).frame_interactions(),
            call_ensures(*hit, (&shape,), answer.hovering_bypass),
            answer == shape_interactions(
                old(self).frame_interactions(),
                old(self).next_sense_id(),
                answer.hovering_bypass,
            ),
    {
        let id: u64 = self.sense_id_ctr;
        self.sense_id_ctr = id + 1;
        let in_shape = hit(&shape);
        self.build_senses.push(SenseSave { shape, id });
        query_interactions(&self.interactions, id, in_shape)
    }

    /// Declares a rectangular region.
    pub fn rect_sense<F: Fn(&SenseShape<G>) -> bool>(
        &mut self,
        geometry: G,
        centered: bool,
        hit: &F,
    ) -> (answer: Interactions<bool>)
        requires
            old(self).wf(),
            old(self).build_senses().len() < u64::MAX,
            call_requires(
                *hit,
                (&SenseShape { typ: SenseShapeType::Rect, centered, geometry },),
            ),
        ensures
            final(self).wf(),
            sensed(
                *old(self),
                *final(self),
                SenseShape { typ: SenseShapeType::Rect, centered, geometry },
                *hit,
                answer,
            ),
    {
        self.add_sense(SenseShape { typ: SenseShapeType::Rect, centered, geometry }, hit)
    }

    /// Declares an elliptic region.
    pub fn ellipse_sense<F: Fn(&SenseShape<G>) -> bool>(
        &mut self,
        geometry: G,
        centered: bool,
        hit: &F,
    ) -> (answer: Interactions<bool>)
        requires
            old(self).wf(),
            old(self).build_senses().len() < u64::MAX,
            call_requires(
                *hit,
                (&SenseShape { typ: SenseShapeType::Ellipse, centered, geometry },),
            ),
        ensures
            final(self).wf(),
            sensed(
                *old(self),
                *final(self),
                SenseShape { typ: SenseShapeType::Ellipse, centered, geometry },
                *hit,
                answer,
            ),
    {
        self.add_sense(SenseShape { typ: SenseShapeType::Ellipse, centered, geometry }, hit)
    }

    /// Adds a clip polygon with the given points, inside the clip that
    /// is active, and makes it the active clip.
    pub fn add_clip(&mut self, points: Vec<P>)
        requires
            old(self).wf(),
            old(self).clip_points().len() + points@.len() <= u32::MAX,
            old(self).clips().len() < u32::MAX,
        ensures
            final(self).wf(),
            same_drawing(*old(self), *final(self)),
            same_sensing(*old(self), *final(self)),
            final(self).clip_points() == old(self).clip_points() + points@,
            final(self).clips() == old(self).clips().push(
                ClipPolygon {
                    start: old(self).clip_points().len() as u32,
                    end: (old(self).clip_points().len() + points@.len()) as u32,
                    parent: old(self).clip(),
                },
            ),
            final(self).clip() == old(self).clips().len(),
    {
        let mut points = points;
        let start_point: usize = self.clip_polygon_points.len();
        self.clip_polygon_points.append(&mut points);
        let end_point: usize = self.clip_polygon_points.len();
        self.clip_polygons.push(
            ClipPolygon {
                start: start_point as u32,
                end: end_point as u32,
                parent: self.current_clip,
            },
        );
        self.current_clip = (self.clip_polygons.len() - 1) as u32;
    }

    /// Handle of the clip that is active.
    pub fn get_clip_id(&self) -> (id: ClipID)
        ensures
            id.index() == self.clip(),
    {
        ClipID(self.current_clip)
    }

    /// Makes the clip behind `id` the active one.
    pub fn set_clip_id(&mut self, id: ClipID)
        requires
            old(self).wf(),
        ensures
            final(self).wf(),
            same_drawing(*old(self), *final(self)),
            same_sensing(*old(self), *final(self)),
            final(self).clip_points() == old(self).clip_points(),
            final(self).clips() == old(self).clips(),
            final(self).clip() == id.index(),
    {
        self.current_clip = id.0;
    }

    /// The instances of this frame, for the renderer.
    pub fn instance_buffer(&self) -> (instances: &Vec<I>)
        ensures
            instances@ == self.instances(),
    {
        &self.instances
    }

    /// The render passes of this frame, for the renderer.
    pub fn render_passes(&self) -> (passes: &Vec<RenderPass>)
        ensures
            passes@ == self.passes(),
    {
        &self.render_passes
    }

    /// The points of all clip polygons, for the renderer.
    pub fn clip_polygon_points(&self) -> (points: &Vec<P>)
        ensures
            points@ == self.clip_points(),
    {
        &self.clip_polygon_points
    }

    /// The clip polygons of this frame, for the renderer.
    pub fn clip_polygons(&self) -> (polygons: &Vec<ClipPolygon>)
        ensures
            polygons@ == self.clips(),
    {
        &self.clip_polygons
    }

    /// The interaction state resolved when the frame started.
    pub fn interactions(&self) -> (state: Interactions<Option<u64>>)
        ensures
            state == self.frame_interactions(),
    {
        self.interactions
    }

    /// Appends one instance to the frame. Nothing is checked: a triangle
    /// without area is drawn like any other and covers no pixel.
    pub fn tri(&mut self, instance: I)
        requires
            old(self).wf(),
            old(self).instances().len() < u32::MAX,
        ensures
            final(self).wf(),
            final(self).instances() == old(self).instances().push(instance),
            final(self).spans() == old(self).spans(),
            final(self).passes() == old(self).passes(),
            final(self).blend_mode() == old(self).blend_mode(),
            final(self).texture() == old(self).texture(),
            same_clipping(*old(self), *final(self)),
            same_sensing(*old(self), *final(self)),
    {
        self.instances.push(instance);
    }

    /// Appends instances to the frame, in order.
    pub fn tris(&mut self, instances: Vec<I>)
        requires
            old(self).wf(),
            old(self).instances().len() + instances@.len() <= u32::MAX,
        ensures
            final(self).wf(),
            final(self).instances() == old(self).instances() + instances@,
            final(self).spans() == old(self).spans(),
            final(self).passes() == old(self).passes(),
            final(self).blend_mode() == old(self).blend_mode(),
            final(self).texture() == old(self).texture(),
            same_clipping(*old(self), *final(self)),
            same_sensing(*old(self), *final(self)),
    {
        let mut instances = instances;
        self.instances.append(&mut instances);
    }

    /// Number of instances pushed in this frame.
    pub fn instance_count(&self) -> (count: u32)
        requires
            self.wf(),
        ensures
            count == self.instances().len(),
    {
        self.instances.len() as u32
    }

    /// The blend mode that is active.
    pub fn get_blend_mode(&self) -> (mode: BlendMode)
        ensures
            mode == self.blend_mode(),
    {
        self.current_blend_mode
    }

    /// The texture that is bound, if any.
    pub fn get_texture(&self) -> (texture: Option<TextureInfo>)
        ensures
            texture == self.texture(),
    {
        self.current_texture
    }

    /// Records a state change at the current instance count.
    fn change_state(&mut self, blend: Option<BlendMode>, texture: Option<TextureKey>)
        requires
            old(self).wf(),
        ensures
            final(self).wf(),
            final(self).spans() == with_state_change(
                old(self).spans(),
                old(self).instances().len() as u32,
                blend,
                texture,
            ),
            final(self).passes().len() == 1,
            final(self).instances() == old(self).instances(),
            final(self).blend_mode() == old(self).blend_mode(),
            final(self).texture() == old(self).texture(),
            same_clipping(*old(self), *final(self)),
            same_sensing(*old(self), *final(self)),
    {
        let count: u32 = self.instances.len() as u32;
        let mut pass = self.render_passes.pop().unwrap();
        let ghost spans = pass.draw_calls@;
        let last = pass.draw_calls[pass.draw_calls.len() - 1];
        if last.start_instance == count {
            pass.draw_calls.pop();
            pass.draw_calls.push(
                DrawCall {
                    start_instance: count,
                    set_blend_mode: if blend.is_some() {
                        blend
                    } else {
                        last.set_blend_mode
                    },
                    set_texture: if texture.is_some() {
                        texture
                    } else {
                        last.set_texture
                    },
                },
            );
        } else {
            pass.draw_calls.push(
                DrawCall { start_instance: count, set_blend_mode: blend, set_texture: texture },
            );
        }
        proof {
            lemma_state_change_ordered(spans, count, blend, texture);
        }
        self.render_passes.push(pass);
    }

    /// Makes `mode` the active blend mode. Nothing happens when it is
    /// active already; otherwise the change is recorded at the current
    /// instance count.
    pub fn set_blend_mode(&mut self, mode: BlendMode)
        requires
            old(self).wf(),
        ensures
            final(self).wf(),
            final(self).blend_mode() == mode,
            final(self).spans() == after_blend_mode(
                old(self).spans(),
                old(self).instances().len() as u32,
                old(self).blend_mode(),
                mode,
            ),
            final(self).passes().len() == 1,
            final(self).instances() == old(self).instances(),
            final(self).texture() == old(self).texture(),
            same_clipping(*old(self), *final(self)),
            same_sensing(*old(self), *final(self)),
    {
        if self.current_blend_mode != mode {
            self.change_state(Some(mode), None);
            self.current_blend_mode = mode;
        }
    }

    /// Binds `texture`. Nothing happens when it is bound already;
    /// otherwise the change is recorded at the current instance count.
    pub fn set_texture(&mut self, texture: TextureInfo)
        requires
            old(self).wf(),
        ensures
            final(self).wf(),
            final(self).texture() == Some(texture),
            final(self).spans() == after_texture(
                old(self).spans(),
                old(self).instances().len() as u32,
                old(self).texture(),
                texture,
            ),
            final(self).passes().len() == 1,
            final(self).instances() == old(self).instances(),
            final(self).blend_mode() == old(self).blend_mode(),
            same_clipping(*old(self), *final(self)),
            same_sensing(*old(self), *final(self)),
    {
        let bound = match self.current_texture {
            Some(current) => current == texture,
            None => false,
        };
        if !bound {
            self.change_state(None, Some(texture.key));
            self.current_texture = Some(texture);
        }
    }
}

/// Whether two states of a stage have the same clip polygons, points
/// and active clip.
pub open spec fn same_clipping<I, P, G>(before: Stage<I, P, G>, after: Stage<I, P, G>) -> bool {
    &&& after.clip_points() == before.clip_points()
    &&& after.clips() == before.clips()
    &&& after.clip() == before.clip()
}

/// Whether two states of a stage have the same declared regions, held
/// regions and interaction state.
pub open spec fn same_sensing<I, P, G>(before: Stage<I, P, G>, after: Stage<I, P, G>) -> bool {
    &&& after.old_senses() == before.old_senses()
    &&& after.build_senses() == before.build_senses()
    &&& after.next_sense_id() == before.next_sense_id()
    &&& after.pressed() == before.pressed()
    &&& after.right_pressed() == before.right_pressed()
    &&& after.frame_interactions() == before.frame_interactions()
}

/// Whether two states of a stage have the same instances, spans and
/// pipeline state.
pub open spec fn same_drawing<I, P, G>(before: Stage<I, P, G>, after: Stage<I, P, G>) -> bool {
    &&& after.instances() == before.instances()
    &&& after.passes() == before.passes()
    &&& after.spans() == before.spans()
    &&& after.blend_mode() == before.blend_mode()
    &&& after.texture() == before.texture()
}

/// What starting a frame does: `before` and `after` are the stage around
/// the start, `origin` is the first clip point and `hit` the containment
/// test at the pointer.
pub open spec fn frame_started<I, P, G, F: Fn(&SenseShape<G>) -> bool>(
    before: Stage<I, P, G>,
    after: Stage<I, P, G>,
    origin: P,
    hit: F,
) -> bool {
    &&& after.instances() == Seq::<I>::empty()
    &&& after.passes().len() == 1
    &&& after.spans() == seq![initial_span()]
    &&& after.blend_mode() == BlendMode::Normal
    &&& after.texture() == None::<TextureInfo>
    &&& after.clip_points() == seq![origin]
    &&& after.clips() == seq![ClipPolygon { start: 0, end: 0, parent: 0 }]
    &&& after.clip() == 0
    &&& after.old_senses() == before.build_senses()
    &&& after.build_senses() == Seq::<SenseSave<G>>::empty()
    &&& after.next_sense_id() == 0
    &&& after.pressed() == before.pressed()
    &&& after.right_pressed() == before.right_pressed()
    &&& topmost_hit(before.build_senses(), hit, after.frame_interactions().hovering)
    &&& after.frame_interactions() == next_interactions(
        before.frame_interactions(),
        after.frame_interactions().hovering,
        before.pressed(),
        before.right_pressed(),
    )
}

/// Starts a frame: the stage starts over, and each of the two caches
/// that live from frame to frame is swept, so that what the last frame
/// did not retain is gone before this frame draws. `buffers` caches
/// shaped text and `temps` the values that callers keep by key.
pub fn start_frame<I, P, G, B, T, F: Fn(&SenseShape<G>) -> bool>(
    stage: &mut Stage<I, P, G>,
    buffers: &mut FrameCache<B>,
    temps: &mut FrameCache<T>,
    origin: P,
    hit: &F,
)
    requires
        old(stage).wf(),
        may_test(old(stage).build_senses(), *hit),
        old(buffers).wf(),
        old(temps).wf(),
    ensures
        final(stage).wf(),
        frame_started(*old(stage), *final(stage), origin, *hit),
        final(buffers).wf(),
        final(buffers)@ == swept(old(buffers)@),
        final(temps).wf(),
        final(temps)@ == swept(old(temps)@),
{
    stage.start(origin, hit);
    buffers.sweep();
    temps.sweep();
}

/// What declaring the region `shape` does: `before` and `after` are the
/// stage around the declaration and `answer` is what it returned.
pub open spec fn sensed<I, P, G, F: Fn(&SenseShape<G>) -> bool>(
    before: Stage<I, P, G>,
    after: Stage<I, P, G>,
    shape: SenseShape<G>,
    hit: F,
    answer: Interactions<bool>,
) -> bool {
    &&& same_drawing(before, after)
    &&& same_clipping(before, after)
    &&& after.build_senses() == before.build_senses().push(
        SenseSave { shape, id: before.next_sense_id() },
    )
    &&& after.next_sense_id() == before.next_sense_id() + 1
    &&& after.old_senses() == before.old_senses()
    &&& after.pressed() == before.pressed()
    &&& after.right_pressed() == before.right_pressed()
    &&& after.frame_interactions() == before.frame_interactions()
    &&& call_ensures(hit, (&shape,), answer.hovering_bypass)
    &&& answer == shape_interactions(
        before.frame_interactions(),
        before.next_sense_id(),
        answer.hovering_bypass,
    )
}

/// A state change keeps the span list well formed.
pub proof fn lemma_state_change_ordered(
    spans: Seq<DrawCall>,
    instance_count: u32,
    blend: Option<BlendMode>,
    texture: Option<TextureKey>,
)
    requires
        spans_ordered(spans, instance_count as int),
    ensures
        spans_ordered(
            with_state_change(spans, instance_count, blend, texture),
            instance_count as int,
        ),
{
    let after = with_state_change(spans, instance_count, blend, texture);
    assert forall|i: int| 0 <= i < after.len() - 1 implies #[trigger] after[i] == spans[i] by {}
    assert forall|i: int, j: int| 0 <= i < j < after.len() implies (#[trigger] after[i]).start_instance
        < (#[trigger] after[j]).start_instance by {
        if j < after.len() - 1 {
            assert(after[j] == spans[j]);
        } else {
            assert(after[i] == spans[i]);
            assert(spans[i].start_instance <= spans.last().start_instance);
        }
    }
}

/// One step of drawing, as far as the span list is concerned.
pub enum DrawOp {
    /// A request for a blend mode.
    SetBlendMode(BlendMode),
    /// A request for a texture.
    SetTexture(TextureInfo),
    /// One instance pushed.
    Push,
}

/// What the span list depends on: the spans, the number of instances
/// pushed, and the pipeline state that is active.
pub struct DrawState {
    pub spans: Seq<DrawCall>,
    pub instance_count: u32,
    pub blend_mode: BlendMode,
    pub texture: Option<TextureInfo>,
}

/// The drawing state at the start of a frame.
pub open spec fn initial_draw_state() -> DrawState {
    DrawState {
        spans: seq![initial_span()],
        instance_count: 0,
        blend_mode: BlendMode::Normal,
        texture: None,
    }
}

/// The drawing state after one step. A push beyond the largest instance
/// count changes nothing.
pub open spec fn draw_step(state: DrawState, op: DrawOp) -> DrawState {
    match op {
        DrawOp::SetBlendMode(mode) => DrawState {
            spans: after_blend_mode(state.spans, state.instance_count, state.blend_mode, mode),
            blend_mode: mode,
            ..state
        },
        DrawOp::SetTexture(texture) => DrawState {
            spans: after_texture(state.spans, state.instance_count, state.texture, texture),
            texture: Some(texture),
            ..state
        },
        DrawOp::Push => if state.instance_count < u32::MAX {
            DrawState { instance_count: (state.instance_count + 1) as u32, ..state }
        } else {
            state
        },
    }
}

/// The drawing state after a run of steps, first to last.
pub open spec fn draw_steps(state: DrawState, ops: Seq<DrawOp>) -> DrawState
    decreases ops.len(),
{
    if ops.len() == 0 {
        state
    } else {
        draw_step(draw_steps(state, ops.drop_last()), ops.last())
    }
}

/// Whatever is requested and pushed in a frame, in whatever order, the
/// span list is never empty and its starts strictly increase.
pub proof fn lemma_spans_stay_ordered(ops: Seq<DrawOp>)
    ensures
        spans_ordered(
            draw_steps(initial_draw_state(), ops).spans,
            draw_steps(initial_draw_state(), ops).instance_count as int,
        ),
    decreases ops.len(),
{
    if ops.len() > 0 {
        lemma_spans_stay_ordered(ops.drop_last());
        let state = draw_steps(initial_draw_state(), ops.drop_last());
        match ops.last() {
            DrawOp::SetBlendMode(mode) => {
                lemma_state_change_ordered(state.spans, state.instance_count, Some(mode), None);
            },
            DrawOp::SetTexture(texture) => {
                lemma_state_change_ordered(
                    state.spans,
                    state.instance_count,
                    None,
                    Some(texture.key),
                );
            },
            DrawOp::Push => {},
        }
    }
}

/// A request repeated is one transition: the second request for the same
/// blend mode, or for the same texture, leaves the span list as the
/// first one made it.
pub proof fn lemma_repeated_request_elided(state: DrawState, mode: BlendMode, texture: TextureInfo)
    ensures
        draw_step(draw_step(state, DrawOp::SetBlendMode(mode)), DrawOp::SetBlendMode(mode))
            == draw_step(state, DrawOp::SetBlendMode(mode)),
        draw_step(draw_step(state, DrawOp::SetTexture(texture)), DrawOp::SetTexture(texture))
            == draw_step(state, DrawOp::SetTexture(texture)),
        state.blend_mode != mode ==> draw_step(state, DrawOp::SetBlendMode(mode)).spans
            == with_state_change(state.spans, state.instance_count, Some(mode), None),
{
}

/// The topmost region wins. When the containment test cannot fail on
/// the region declared at `later`, the pointer is never resolved to a
/// region declared before it.
pub proof fn lemma_topmost_wins<G, F: Fn(&SenseShape<G>) -> bool>(
    senses: Seq<SenseSave<G>>,
    hit: F,
    top: Option<u64>,
    later: int,
)
    requires
        topmost_hit(senses, hit, top),
        0 <= later < senses.len(),
        !call_ensures(hit, (&senses[later].shape,), false),
    ensures
        top is Some,
        top.unwrap() >= later,
{
}

} // verus!
