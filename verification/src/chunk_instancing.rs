use vstd::prelude::*;
use crate::error::ConfigError;
use crate::geometry::{Handle, Transform, Vec3};
use crate::scatter::{draw, draw_value, lemma_offset_within_bounds, offset_within, place_within};

verus! {

/// The placement of instance `index` of a layer: the base transform, moved
/// horizontally to a pseudo-random spot of the chunk's square footprint. The
/// height, the rotation and the scale are those of the base transform.
pub open spec fn instance_at(seed: u64, index: nat, chunk_size: u64, base: Transform) -> Transform {
    Transform {
        translation: Vec3 {
            x: offset_within(draw(seed, (2 * index) as u64), chunk_size) as i64,
            y: base.translation.y,
            z: offset_within(draw(seed, (2 * index + 1) as u64), chunk_size) as i64,
        },
        rotation: base.rotation,
        scale: base.scale,
    }
}

/// The whole instance buffer of a layer: one record for each index below
/// `instance_count`.
pub open spec fn instances(seed: u64, instance_count: nat, chunk_size: u64, base: Transform) -> Seq<Transform> {
    Seq::new(instance_count, |i: int| instance_at(seed, i as nat, chunk_size, base))
}

/// Whether a record stands within the square footprint of side `chunk_size`
/// centred on the chunk's origin.
pub open spec fn within_footprint(record: Transform, chunk_size: u64) -> bool {
    &&& -(chunk_size as int) <= 2 * record.translation.x <= chunk_size
    &&& -(chunk_size as int) <= 2 * record.translation.z <= chunk_size
}

/// Computes the instance buffer of a layer.
pub fn build_instance_buffer(instance_count: u32, base: &Transform, chunk_size: u64, seed: u64) -> (buffer: Vec<Transform>)
    ensures
        buffer@ == instances(seed, instance_count as nat, chunk_size, *base),
        buffer@.len() == instance_count,
        forall|i: int| 0 <= i < buffer@.len() ==> within_footprint(#[trigger] buffer@[i], chunk_size),
{
    let mut buffer: Vec<Transform> = Vec::new();
    let mut i: u32 = 0;
    while i < instance_count
        invariant
            i <= instance_count,
            buffer@.len() == i,
            forall|j: int| 0 <= j < i ==> #[trigger] buffer@[j] == instance_at(seed, j as nat, chunk_size, *base),
            forall|j: int| 0 <= j < i ==> within_footprint(#[trigger] buffer@[j], chunk_size),
        decreases instance_count - i,
    {
        let k: u64 = 2 * (i as u64);
        let x = place_within(draw_value(seed, k), chunk_size);
        let z = place_within(draw_value(seed, k + 1), chunk_size);
        buffer.push(
            Transform {
                translation: Vec3 { x, y: base.translation.y, z },
                rotation: base.rotation,
                scale: base.scale,
            },
        );
        i += 1;
    }
    assert(buffer@ =~= instances(seed, instance_count as nat, chunk_size, *base));
    buffer
}

/// The size in bytes of a GPU buffer that holds `instance_count` records of
/// `bytes_per_record` bytes each.
pub fn instance_buffer_bytes(instance_count: u32, bytes_per_record: u32) -> (bytes: u64)
    ensures
        bytes == instance_count * bytes_per_record,
{
    proof {
        assert(instance_count * bytes_per_record <= 0xffff_ffff * 0xffff_ffff) by (nonlinear_arith)
            requires
                0 <= instance_count <= 0xffff_ffff,
                0 <= bytes_per_record <= 0xffff_ffff,
        ;
    }
    (instance_count as u64) * (bytes_per_record as u64)
}

/// What a layer is, apart from how its buffer is stored.
pub struct InstancingModel {
    pub instance_count: nat,
    pub texture: Handle,
    pub transform: Transform,
    pub chunk_size: u64,
    pub seed: u64,
    /// The buffer's records, once it has been built and until it is invalidated.
    pub buffer: Option<Seq<Transform>>,
}

impl InstancingModel {
    /// The records that this layer's buffer holds whenever it is built.
    pub open spec fn expected_buffer(&self) -> Seq<Transform> {
        instances(self.seed, self.instance_count, self.chunk_size, self.transform)
    }

    /// The layer after a request to have its buffer ready: a buffer that is
    /// there stays as it is, a missing one is computed.
    pub open spec fn prepared(&self) -> InstancingModel {
        if self.buffer is Some {
            *self
        } else {
            InstancingModel { buffer: Some(self.expected_buffer()), ..*self }
        }
    }

    /// The layer after its buffer has been discarded.
    pub open spec fn invalidated(&self) -> InstancingModel {
        InstancingModel { buffer: None, ..*self }
    }

    /// A layer's buffer, where present, is the one its parameters determine.
    pub open spec fn consistent(&self) -> bool {
        &&& self.chunk_size > 0
        &&& self.instance_count <= u32::MAX
        &&& self.buffer matches Some(b) ==> b == self.expected_buffer()
    }
}

/// One kind of object scattered over a chunk, drawn as instances of one mesh.
///
/// The layer owns its instance buffer. The buffer is computed on the first
/// request and then kept until the layer is invalidated.
#[derive(Debug)]
pub struct ChunkInstancing {
    instance_count: u32,
    texture: Handle,
    transform: Transform,
    chunk_size: u64,
    seed: u64,
    buffer: Option<Vec<Transform>>,
}

impl View for ChunkInstancing {
    type V = InstancingModel;

    closed spec fn view(&self) -> InstancingModel {
        InstancingModel {
            instance_count: self.instance_count as nat,
            texture: self.texture,
            transform: self.transform,
            chunk_size: self.chunk_size,
            seed: self.seed,
            buffer: match self.buffer {
                Some(b) => Some(b@),
                None => None,
            },
        }
    }
}

impl ChunkInstancing {
    #[verifier::type_invariant]
    closed spec fn inv(&self) -> bool {
        self@.consistent()
    }

    /// Describes a layer of `instance_count` objects over a chunk of side
    /// `chunk_size`. A chunk without extent is rejected; an empty layer is not.
    pub fn new(instance_count: u32, texture: Handle, transform: Transform, chunk_size: u64, seed: u64) -> (layer: Result<ChunkInstancing, ConfigError>)
        ensures
            chunk_size == 0 <==> layer is Err,
            layer matches Err(e) ==> e == ConfigError::NonPositiveExtent,
            layer matches Ok(l) ==> l@ == (InstancingModel {
                instance_count: instance_count as nat,
                texture,
                transform,
                chunk_size,
                seed,
                buffer: None,
            }) && l@.consistent(),
    {
        if chunk_size == 0 {
            return Err(ConfigError::NonPositiveExtent);
        }
        Ok(ChunkInstancing { instance_count, texture, transform, chunk_size, seed, buffer: None })
    }

    /// Makes the buffer ready for drawing. Returns whether it had to be
    /// computed; a buffer that is already there is left untouched.
    pub fn prepare(&mut self) -> (rebuilt: bool)
        ensures
            rebuilt == (old(self)@.buffer is None),
            final(self)@ == old(self)@.prepared(),
            !rebuilt ==> *final(self) == *old(self),
            final(self)@.buffer == Some(old(self)@.expected_buffer()),
            old(self)@.expected_buffer().len() == old(self)@.instance_count,
            final(self)@.consistent(),
    {
        proof {
            use_type_invariant(&*self);
        }
        if self.buffer.is_some() {
            return false;
        }
        let built = build_instance_buffer(self.instance_count, &self.transform, self.chunk_size, self.seed);
        self.buffer = Some(built);
        true
    }

    /// Discards the buffer, so that the next `prepare` computes it anew.
    pub fn invalidate(&mut self)
        ensures
            final(self)@ == old(self)@.invalidated(),
            final(self)@.consistent(),
    {
        proof {
            use_type_invariant(&*self);
        }
        self.buffer = None;
    }

    /// Changes the number of instances. A different number invalidates the
    /// buffer; the same number changes nothing.
    pub fn set_instance_count(&mut self, instance_count: u32)
        ensures
            instance_count == old(self)@.instance_count ==> *final(self) == *old(self),
            instance_count != old(self)@.instance_count ==> final(self)@ == (InstancingModel {
                instance_count: instance_count as nat,
                buffer: None,
                ..old(self)@
            }),
            final(self)@.consistent(),
    {
        proof {
            use_type_invariant(&*self);
        }
        if instance_count != self.instance_count {
            *self = ChunkInstancing {
                instance_count,
                texture: self.texture,
                transform: self.transform,
                chunk_size: self.chunk_size,
                seed: self.seed,
                buffer: None,
            };
        }
    }

    /// The buffer, if it is built: exactly `instance_count` records.
    pub fn buffer(&self) -> (records: Option<&Vec<Transform>>)
        ensures
            records is Some == self@.buffer is Some,
            records matches Some(b) ==> {
                &&& self@.buffer == Some(b@)
                &&& b@ == self@.expected_buffer()
                &&& b@.len() == self@.instance_count
            },
            self@.consistent(),
    {
        proof {
            use_type_invariant(self);
        }
        self.buffer.as_ref()
    }

    pub fn is_built(&self) -> (built: bool)
        ensures
            built == self@.buffer is Some,
    {
        self.buffer.is_some()
    }

    pub fn instance_count(&self) -> (n: u32)
        ensures
            n == self@.instance_count,
    {
        self.instance_count
    }

    pub fn texture(&self) -> (t: Handle)
        ensures
            t == self@.texture,
    {
        self.texture
    }

    pub fn transform(&self) -> (t: Transform)
        ensures
            t == self@.transform,
    {
        self.transform
    }

    pub fn chunk_size(&self) -> (s: u64)
        ensures
            s == self@.chunk_size,
            s > 0,
    {
        proof {
            use_type_invariant(self);
        }
        self.chunk_size
    }

    pub fn seed(&self) -> (s: u64)
        ensures
            s == self@.seed,
    {
        self.seed
    }
}

/// The buffer of a layer has exactly as many records as the layer declares,
/// none when it declares none.
pub proof fn lemma_buffer_has_declared_count(seed: u64, instance_count: nat, chunk_size: u64, base: Transform)
    ensures
        instances(seed, instance_count, chunk_size, base).len() == instance_count,
{
}

/// Every record of a buffer stands within the chunk's footprint: twice each
/// horizontal coordinate lies between `-chunk_size` and `chunk_size`. Its
/// height, rotation and scale are those of the base transform.
pub proof fn lemma_instances_within_footprint(seed: u64, instance_count: nat, chunk_size: u64, base: Transform, i: int)
    requires
        0 <= i < instance_count,
    ensures
        within_footprint(instances(seed, instance_count, chunk_size, base)[i], chunk_size),
        instances(seed, instance_count, chunk_size, base)[i].translation.y == base.translation.y,
        instances(seed, instance_count, chunk_size, base)[i].rotation == base.rotation,
        instances(seed, instance_count, chunk_size, base)[i].scale == base.scale,
{
    lemma_offset_within_bounds(draw(seed, (2 * i) as u64), chunk_size);
    lemma_offset_within_bounds(draw(seed, (2 * i + 1) as u64), chunk_size);
}

/// Asking twice for the buffer is the same as asking once: the second request
/// finds the buffer built and leaves the layer as it is.
pub proof fn lemma_prepare_idempotent(layer: InstancingModel)
    ensures
        layer.prepared().buffer is Some,
        layer.prepared().prepared() == layer.prepared(),
        layer.consistent() ==> layer.prepared().consistent(),
        layer.consistent() ==> layer.prepared().buffer == Some(layer.expected_buffer()),
{
}

/// Equal parameters give equal buffers, and a rebuild after an invalidation
/// restores the records that were there before.
pub proof fn lemma_rebuild_restores(layer: InstancingModel)
    requires
        layer.consistent(),
    ensures
        layer.prepared().invalidated().prepared() == layer.prepared(),
{
}

} // verus!
