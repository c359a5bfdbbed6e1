use vstd::prelude::*;
use crate::chunk_grass::{ChunkGrass, GrassDescriptor};
use crate::chunk_instancing::{
    instances, lemma_instances_within_footprint, within_footprint, ChunkInstancing, InstancingModel,
};
use crate::culling::{is_visible_from, lemma_inside_is_visible, visible, DistanceCulling};
use crate::geometry::{Aabb, HalfExtents, Handle, Transform, Vec3};

verus! {

/// An instancing layer with what is needed to draw and to cull it.
#[derive(Debug)]
pub struct ChunkInstancingBundle {
    pub mesh: Handle,
    pub chunk_instancing: ChunkInstancing,
    pub distance_culling: DistanceCulling,
    pub aabb: Aabb,
}

/// A grass layer with what is needed to draw and to cull it.
#[derive(Debug)]
pub struct ChunkGrassBundle {
    pub mesh: Handle,
    pub chunk_grass: ChunkGrass,
    pub distance_culling: DistanceCulling,
    pub aabb: Aabb,
}

pub struct LayerModel {
    pub mesh: Handle,
    pub instancing: InstancingModel,
    pub culling: DistanceCulling,
    pub aabb: Aabb,
}

pub struct GrassLayerModel {
    pub mesh: Handle,
    pub grass: GrassDescriptor,
    pub culling: DistanceCulling,
    pub aabb: Aabb,
}

impl View for ChunkInstancingBundle {
    type V = LayerModel;

    open spec fn view(&self) -> LayerModel {
        LayerModel {
            mesh: self.mesh,
            instancing: self.chunk_instancing@,
            culling: self.distance_culling,
            aabb: self.aabb,
        }
    }
}

impl View for ChunkGrassBundle {
    type V = GrassLayerModel;

    open spec fn view(&self) -> GrassLayerModel {
        GrassLayerModel {
            mesh: self.mesh,
            grass: self.chunk_grass@,
            culling: self.distance_culling,
            aabb: self.aabb,
        }
    }
}

/// Which layer of a chunk a draw call is for.
#[derive(Clone, Copy, Debug, PartialEq, Eq, Structural)]
pub enum DrawSource {
    /// The instancing layer at this position among the chunk's layers.
    Instancing(usize),
    Grass,
}

/// One instanced draw: a mesh, drawn once for each instance of a layer.
#[derive(Clone, Copy, Debug, PartialEq, Eq, Structural)]
pub struct DrawCall {
    pub source: DrawSource,
    pub mesh: Handle,
    pub instance_count: u32,
}

impl LayerModel {
    /// A layer is drawn when it is within its culling distance of the camera,
    /// its buffer is built, and the buffer is not empty.
    pub open spec fn drawn(&self, origin: Vec3, camera: Vec3) -> bool {
        &&& visible(camera, origin, self.aabb, self.culling)
        &&& self.instancing.buffer is Some
        &&& self.instancing.instance_count > 0
    }

    pub open spec fn prepared(&self) -> LayerModel {
        LayerModel { instancing: self.instancing.prepared(), ..*self }
    }
}

impl GrassLayerModel {
    /// Grass is drawn when it is within its culling distance of the camera
    /// and has at least one blade.
    pub open spec fn drawn(&self, origin: Vec3, camera: Vec3) -> bool {
        &&& visible(camera, origin, self.aabb, self.culling)
        &&& self.grass.nr_instances > 0
    }

    pub open spec fn advanced(&self, delta: u64) -> GrassLayerModel {
        GrassLayerModel {
            grass: GrassDescriptor {
                time: if self.grass.time + delta <= u64::MAX {
                    (self.grass.time + delta) as u64
                } else {
                    u64::MAX
                },
                ..self.grass
            },
            ..*self
        }
    }
}

/// What a chunk is, apart from how its buffers are stored.
pub struct ChunkModel {
    pub x: u32,
    pub y: u32,
    pub origin: Vec3,
    pub layers: Seq<LayerModel>,
    pub grass: Option<GrassLayerModel>,
}

impl ChunkModel {
    /// The draw call for the instancing layer at `index`: its mesh, once for
    /// each record of its buffer.
    pub open spec fn call_for(&self, index: int) -> DrawCall {
        DrawCall {
            source: DrawSource::Instancing(index as usize),
            mesh: self.layers[index].mesh,
            instance_count: self.layers[index].instancing.instance_count as u32,
        }
    }

    /// The draw calls for the first `n` instancing layers, in their order.
    pub open spec fn instancing_draws(&self, camera: Vec3, n: nat) -> Seq<DrawCall>
        decreases n,
    {
        if n == 0 {
            Seq::empty()
        } else {
            let before = self.instancing_draws(camera, (n - 1) as nat);
            if self.layers[n - 1].drawn(self.origin, camera) {
                before.push(self.call_for(n - 1))
            } else {
                before
            }
        }
    }

    /// The draw call for the grass, if there is grass and it is drawn.
    pub open spec fn grass_draws(&self, camera: Vec3) -> Seq<DrawCall> {
        match self.grass {
            Some(g) => if g.drawn(self.origin, camera) {
                seq![DrawCall { source: DrawSource::Grass, mesh: g.mesh, instance_count: g.grass.nr_instances }]
            } else {
                Seq::empty()
            },
            None => Seq::empty(),
        }
    }

    /// Everything drawn for this chunk in one frame: one call for each drawn
    /// instancing layer, then one for the grass.
    pub open spec fn draws(&self, camera: Vec3) -> Seq<DrawCall> {
        self.instancing_draws(camera, self.layers.len()) + self.grass_draws(camera)
    }

    /// How many of the first `n` instancing layers have no buffer.
    pub open spec fn missing_buffers(&self, n: nat) -> nat
        decreases n,
    {
        if n == 0 {
            0
        } else {
            let before = self.missing_buffers((n - 1) as nat);
            if self.layers[n - 1].instancing.buffer is None {
                before + 1
            } else {
                before
            }
        }
    }

    /// The chunk with every missing buffer computed.
    pub open spec fn prepared(&self) -> ChunkModel {
        ChunkModel { layers: Seq::new(self.layers.len(), |i: int| self.layers[i].prepared()), ..*self }
    }

    /// The chunk with its grass, if any, moved forward in time.
    pub open spec fn advanced(&self, delta: u64) -> ChunkModel {
        ChunkModel {
            grass: match self.grass {
                Some(g) => Some(g.advanced(delta)),
                None => None,
            },
            ..*self
        }
    }
}

/// Decides whether one layer is drawn: it must have instances, its data must
/// be ready, and its bounding box, placed at `origin`, must be within the
/// culling distance of the camera.
pub fn layer_is_drawn(
    camera: &Vec3,
    origin: &Vec3,
    aabb: &Aabb,
    culling: &DistanceCulling,
    instance_count: u32,
    ready: bool,
) -> (drawn: bool)
    ensures
        drawn == (ready && instance_count > 0 && visible(*camera, *origin, *aabb, *culling)),
{
    ready && instance_count > 0 && is_visible_from(camera, origin, aabb, culling)
}

/// A square of the world: the unit of culling. It owns any number of
/// instancing layers and at most one grass layer.
#[derive(Debug)]
pub struct Chunk {
    x: u32,
    y: u32,
    origin: Vec3,
    layers: Vec<ChunkInstancingBundle>,
    grass: Option<ChunkGrassBundle>,
}

impl View for Chunk {
    type V = ChunkModel;

    closed spec fn view(&self) -> ChunkModel {
        ChunkModel {
            x: self.x,
            y: self.y,
            origin: self.origin,
            layers: Seq::new(self.layers@.len(), |i: int| self.layers@[i]@),
            grass: match self.grass {
                Some(g) => Some(g@),
                None => None,
            },
        }
    }
}

impl Chunk {
    /// An empty chunk at grid position `(x, y)`, standing at `origin`.
    pub fn new(x: u32, y: u32, origin: Vec3) -> (chunk: Chunk)
        ensures
            chunk@ == (ChunkModel { x, y, origin, layers: Seq::empty(), grass: None }),
    {
        let chunk = Chunk { x, y, origin, layers: Vec::new(), grass: None };
        assert(chunk@.layers =~= Seq::empty());
        chunk
    }

    /// Adds an instancing layer after those already there.
    pub fn add_layer(&mut self, layer: ChunkInstancingBundle)
        ensures
            final(self)@ == (ChunkModel { layers: old(self)@.layers.push(layer@), ..old(self)@ }),
    {
        self.layers.push(layer);
        assert(self@.layers =~= old(self)@.layers.push(layer@));
    }

    /// Gives the chunk its grass layer and hands back the one it had.
    pub fn set_grass(&mut self, grass: ChunkGrassBundle) -> (previous: Option<ChunkGrassBundle>)
        ensures
            final(self)@ == (ChunkModel { grass: Some(grass@), ..old(self)@ }),
            match previous {
                Some(p) => old(self)@.grass == Some(p@),
                None => old(self)@.grass is None,
            },
    {
        let mut slot = Some(grass);
        std::mem::swap(&mut self.grass, &mut slot);
        assert(self@.layers =~= old(self)@.layers);
        slot
    }

    /// Computes every missing buffer and leaves the others untouched.
    /// Returns how many were computed.
    pub fn prepare(&mut self) -> (rebuilt: usize)
        ensures
            final(self)@ == old(self)@.prepared(),
            rebuilt == old(self)@.missing_buffers(old(self)@.layers.len()),
    {
        let n = self.layers.len();
        let mut rebuilt: usize = 0;
        let mut i: usize = 0;
        while i < n
            invariant
                i <= n,
                n == self.layers@.len(),
                n == old(self).layers@.len(),
                rebuilt <= i,
                rebuilt == old(self)@.missing_buffers(i as nat),
                self.x == old(self).x,
                self.y == old(self).y,
                self.origin == old(self).origin,
                self.grass == old(self).grass,
                forall|j: int| 0 <= j < i ==> (#[trigger] self.layers@[j])@ == old(self).layers@[j]@.prepared(),
                forall|j: int| i <= j < n ==> #[trigger] self.layers@[j] == old(self).layers@[j],
            decreases n - i,
        {
            assert(old(self)@.layers[i as int] == self.layers@[i as int]@);
            let did = self.layers[i].chunk_instancing.prepare();
            if did {
                rebuilt = rebuilt + 1;
            }
            i = i + 1;
        }
        assert(self@.layers =~= old(self)@.prepared().layers);
        rebuilt
    }

    /// Moves the grass, if there is any, forward in time.
    pub fn advance_time(&mut self, delta: u64)
        ensures
            final(self)@ == old(self)@.advanced(delta),
    {
        let mut slot: Option<ChunkGrassBundle> = None;
        std::mem::swap(&mut self.grass, &mut slot);
        let moved = match slot {
            Some(mut g) => {
                g.chunk_grass.advance_time(delta);
                Some(g)
            },
            None => None,
        };
        self.grass = moved;
        assert(self@.layers =~= old(self)@.layers);
    }

    /// The draw calls of this chunk for a camera at `camera`. Deciding what
    /// is visible changes nothing: a layer whose buffer is missing is left
    /// out, not built.
    pub fn draw_calls(&self, camera: &Vec3) -> (calls: Vec<DrawCall>)
        ensures
            calls@ == self@.draws(*camera),
    {
        let mut calls: Vec<DrawCall> = Vec::new();
        let n = self.layers.len();
        let mut i: usize = 0;
        while i < n
            invariant
                i <= n,
                n == self.layers@.len(),
                n == self@.layers.len(),
                calls@ == self@.instancing_draws(*camera, i as nat),
            decreases n - i,
        {
            let layer = &self.layers[i];
            assert(layer@ == self@.layers[i as int]);
            let count = layer.chunk_instancing.instance_count();
            if layer_is_drawn(
                camera,
                &self.origin,
                &layer.aabb,
                &layer.distance_culling,
                count,
                layer.chunk_instancing.is_built(),
            ) {
                calls.push(DrawCall { source: DrawSource::Instancing(i), mesh: layer.mesh, instance_count: count });
            }
            i = i + 1;
        }
        match &self.grass {
            Some(g) => {
                let blades = g.chunk_grass.descriptor().nr_instances;
                if layer_is_drawn(camera, &self.origin, &g.aabb, &g.distance_culling, blades, true) {
                    calls.push(DrawCall { source: DrawSource::Grass, mesh: g.mesh, instance_count: blades });
                }
            },
            None => {},
        }
        assert(calls@ =~= self@.draws(*camera));
        calls
    }

    /// One frame: time moves on, missing buffers are computed, and then the
    /// draw calls are decided.
    pub fn frame(&mut self, camera: &Vec3, delta: u64) -> (calls: Vec<DrawCall>)
        ensures
            final(self)@ == old(self)@.advanced(delta).prepared(),
            calls@ == final(self)@.draws(*camera),
    {
        self.advance_time(delta);
        let _ = self.prepare();
        self.draw_calls(camera)
    }

    pub fn grid_position(&self) -> (position: (u32, u32))
        ensures
            position.0 == self@.x,
            position.1 == self@.y,
    {
        (self.x, self.y)
    }

    pub fn origin(&self) -> (origin: Vec3)
        ensures
            origin == self@.origin,
    {
        self.origin
    }

    pub fn layer_count(&self) -> (n: usize)
        ensures
            n == self@.layers.len(),
    {
        self.layers.len()
    }

    /// The instancing layer at `index`, if there is one.
    pub fn layer(&self, index: usize) -> (layer: Option<&ChunkInstancingBundle>)
        ensures
            layer is Some <==> index < self@.layers.len(),
            layer matches Some(l) ==> l@ == self@.layers[index as int],
    {
        if index < self.layers.len() {
            Some(&self.layers[index])
        } else {
            None
        }
    }

    pub fn grass(&self) -> (grass: Option<&ChunkGrassBundle>)
        ensures
            match grass {
                Some(g) => self@.grass == Some(g@),
                None => self@.grass is None,
            },
    {
        self.grass.as_ref()
    }
}

/// The bounding box, in the chunk's own frame, of everything that stands on
/// a chunk of side `chunk_size` and is at most `height` tall: as wide as the
/// footprint over which instances are scattered, and from the ground up to
/// `height`.
pub fn chunk_aabb(chunk_size: u64, height: u32) -> (aabb: Aabb)
    ensures
        aabb.center == (Vec3 { x: 0, y: ((height + 1) / 2) as i64, z: 0 }),
        aabb.half_extents == (HalfExtents { x: chunk_size / 2, y: ((height + 1) / 2) as u64, z: chunk_size / 2 }),
        aabb.min_y() == 0,
        height <= aabb.max_y() <= height + 1,
{
    let half_height: u64 = (height as u64 + 1) / 2;
    Aabb {
        center: Vec3 { x: 0, y: half_height as i64, z: 0 },
        half_extents: HalfExtents { x: chunk_size / 2, y: half_height, z: chunk_size / 2 },
    }
}

/// Every record of a layer's buffer stands inside the chunk's bounding box,
/// provided the base transform puts it between the ground and `height`. A
/// camera at any instance therefore sees the layer under every culling
/// distance.
pub proof fn lemma_chunk_aabb_covers_instances(
    seed: u64,
    instance_count: nat,
    chunk_size: u64,
    base: Transform,
    height: u32,
    aabb: Aabb,
    i: int,
    origin: Vec3,
    camera: Vec3,
    culling: DistanceCulling,
)
    requires
        0 <= i < instance_count,
        0 <= base.translation.y <= height,
        aabb.center == (Vec3 { x: 0, y: ((height + 1) / 2) as i64, z: 0 }),
        aabb.half_extents == (HalfExtents { x: chunk_size / 2, y: ((height + 1) / 2) as u64, z: chunk_size / 2 }),
        camera.x - origin.x == instances(seed, instance_count, chunk_size, base)[i].translation.x,
        camera.y - origin.y == instances(seed, instance_count, chunk_size, base)[i].translation.y,
        camera.z - origin.z == instances(seed, instance_count, chunk_size, base)[i].translation.z,
    ensures
        ({
            let p = instances(seed, instance_count, chunk_size, base)[i].translation;
            aabb.contains(p.x as int, p.y as int, p.z as int)
        }),
        visible(camera, origin, aabb, culling),
{
    lemma_instances_within_footprint(seed, instance_count, chunk_size, base, i);
    let record = instances(seed, instance_count, chunk_size, base)[i];
    assert(within_footprint(record, chunk_size));
    lemma_inside_is_visible(camera, origin, aabb, culling);
}

/// The draw calls for the instancing layers are exactly the calls for the
/// layers that are drawn: each call names a drawn layer, carries that
/// layer's mesh and the full length of its buffer, and each drawn layer has
/// its call. There is at most one call for each layer.
pub proof fn lemma_draws_are_the_drawn_layers(model: ChunkModel, camera: Vec3, n: nat)
    requires
        n <= model.layers.len(),
        model.layers.len() <= usize::MAX,
    ensures
        model.instancing_draws(camera, n).len() <= n,
        forall|k: int|
            0 <= k < model.instancing_draws(camera, n).len() ==> {
                let c = #[trigger] model.instancing_draws(camera, n)[k];
                c.source matches DrawSource::Instancing(i) && i < n && model.layers[i as int].drawn(
                    model.origin,
                    camera,
                ) && c == model.call_for(i as int)
            },
        forall|i: int|
            0 <= i < n && (#[trigger] model.layers[i]).drawn(model.origin, camera) ==> model.instancing_draws(
                camera,
                n,
            ).contains(model.call_for(i)),
    decreases n,
{
    if n > 0 {
        let before = model.instancing_draws(camera, (n - 1) as nat);
        let all = model.instancing_draws(camera, n);
        lemma_draws_are_the_drawn_layers(model, camera, (n - 1) as nat);
        if model.layers[n - 1].drawn(model.origin, camera) {
            assert(all == before.push(model.call_for(n - 1)));
            assert(all[all.len() - 1] == model.call_for(n - 1));
            assert forall|i: int| 0 <= i < n && (#[trigger] model.layers[i]).drawn(model.origin, camera) implies all.contains(
                model.call_for(i),
            ) by {
                if i < n - 1 {
                    let k = choose|k: int| 0 <= k < before.len() && before[k] == model.call_for(i);
                    assert(all[k] == model.call_for(i));
                } else {
                    assert(all[all.len() - 1] == model.call_for(i));
                }
            }
        }
    }
}

/// A chunk has at most one draw call for each of its layers and one for its
/// grass, and none at all when nothing of it is within its culling distance.
pub proof fn lemma_draw_count(model: ChunkModel, camera: Vec3)
    requires
        model.layers.len() <= usize::MAX,
    ensures
        model.draws(camera).len() <= model.layers.len() + 1,
        model.grass is None ==> model.draws(camera).len() <= model.layers.len(),
        (forall|i: int|
            0 <= i < model.layers.len() ==> !visible(
                camera,
                model.origin,
                (#[trigger] model.layers[i]).aabb,
                model.layers[i].culling,
            )) && (model.grass matches Some(g) ==> !visible(camera, model.origin, g.aabb, g.culling))
            ==> model.draws(camera).len() == 0,
{
    lemma_draws_are_the_drawn_layers(model, camera, model.layers.len());
    let d = model.instancing_draws(camera, model.layers.len());
    if d.len() > 0 {
        let c = d[0];
        assert(c.source matches DrawSource::Instancing(i) && model.layers[i as int].drawn(model.origin, camera));
    }
}

/// Once the buffers are prepared, whether a layer is drawn depends on the
/// camera alone: every layer with instances whose bounding box is within the
/// culling distance has its draw call.
pub proof fn lemma_prepared_draws_all_visible(model: ChunkModel, camera: Vec3, i: int)
    requires
        model.layers.len() <= usize::MAX,
        0 <= i < model.layers.len(),
        model.layers[i].instancing.instance_count > 0,
        visible(camera, model.origin, model.layers[i].aabb, model.layers[i].culling),
    ensures
        model.prepared().draws(camera).contains(model.prepared().call_for(i)),
        model.prepared().call_for(i).mesh == model.layers[i].mesh,
        model.prepared().call_for(i).instance_count == model.layers[i].instancing.instance_count as u32,
{
    let p = model.prepared();
    lemma_draws_are_the_drawn_layers(p, camera, p.layers.len());
    assert(p.layers[i].drawn(p.origin, camera));
    let d = p.instancing_draws(camera, p.layers.len());
    let k = choose|k: int| 0 <= k < d.len() && d[k] == p.call_for(i);
    assert(p.draws(camera)[k] == p.call_for(i));
}

/// A chunk whose buffers are all there has nothing to compute, and after
/// one preparation every chunk is such a chunk: preparing is idempotent.
pub proof fn lemma_prepared_chunk_is_complete(model: ChunkModel, n: nat)
    requires
        n <= model.layers.len(),
    ensures
        model.prepared().missing_buffers(n) == 0,
        model.missing_buffers(n) <= n,
        model.missing_buffers(n) == 0 ==> forall|i: int|
            0 <= i < n ==> (#[trigger] model.layers[i]).instancing.buffer is Some,
        model.prepared().prepared() == model.prepared(),
    decreases n,
{
    if n > 0 {
        lemma_prepared_chunk_is_complete(model, (n - 1) as nat);
    }
    assert(model.prepared().prepared().layers =~= model.prepared().layers);
}

} // verus!
