//! Slot assignment of binding sets: one ordered list of slots from which
//! both the layout and the bound instance are made.
use vstd::prelude::*;

verus! {

/// What a binding slot holds, as its layout declares it.
#[derive(Clone, Copy, Debug, PartialEq, Eq, Structural)]
pub enum BindingKind {
    UniformBuffer,
    SampledTexture,
    Sampler,
    StorageBuffer { read_only: bool },
}

/// The shader stages that see a binding slot.
#[derive(Clone, Copy, Debug, PartialEq, Eq, Structural)]
pub enum ShaderStages {
    VertexFragment,
    Fragment,
    Compute,
}

/// The resource bound to a slot, by its position in the list it came from.
#[derive(Clone, Copy, Debug, PartialEq, Eq, Structural)]
pub enum BoundResource {
    /// The view of texture `i`.
    TextureView(usize),
    /// The sampler of texture `i`.
    Sampler(usize),
    /// Uniform buffer `i`.
    UniformBuffer(usize),
    /// Read-only storage buffer `i`.
    InputBuffer(usize),
    /// Read-write storage buffer `i`.
    OutputBuffer(usize),
}

/// One slot of a binding set: the layout part (`binding`, `kind`,
/// `visibility`) and the instance part (`resource`), made together.
#[derive(Clone, Copy, Debug, PartialEq, Eq, Structural)]
pub struct BindingEntry {
    pub binding: u32,
    pub kind: BindingKind,
    pub visibility: ShaderStages,
    pub resource: BoundResource,
}

/// Slot `slot` of the set for `uniform_buffers` uniform buffers followed by
/// textures: the buffers take the first slots, visible to the vertex and
/// fragment stages; each texture then takes two slots, its view and then its
/// sampler, visible to the fragment stage.
pub open spec fn graphics_entry(uniform_buffers: nat, slot: nat) -> BindingEntry {
    if slot < uniform_buffers {
        BindingEntry {
            binding: slot as u32,
            kind: BindingKind::UniformBuffer,
            visibility: ShaderStages::VertexFragment,
            resource: BoundResource::UniformBuffer(slot as usize),
        }
    } else {
        let texture = ((slot - uniform_buffers) / 2) as usize;
        if (slot - uniform_buffers) % 2 == 0 {
            BindingEntry {
                binding: slot as u32,
                kind: BindingKind::SampledTexture,
                visibility: ShaderStages::Fragment,
                resource: BoundResource::TextureView(texture),
            }
        } else {
            BindingEntry {
                binding: slot as u32,
                kind: BindingKind::Sampler,
                visibility: ShaderStages::Fragment,
                resource: BoundResource::Sampler(texture),
            }
        }
    }
}

/// Slot `slot` of the compute set for `input_buffers` read-only storage
/// buffers followed by read-write ones, all visible to the compute stage.
pub open spec fn compute_entry(input_buffers: nat, slot: nat) -> BindingEntry {
    if slot < input_buffers {
        BindingEntry {
            binding: slot as u32,
            kind: BindingKind::StorageBuffer { read_only: true },
            visibility: ShaderStages::Compute,
            resource: BoundResource::InputBuffer(slot as usize),
        }
    } else {
        BindingEntry {
            binding: slot as u32,
            kind: BindingKind::StorageBuffer { read_only: false },
            visibility: ShaderStages::Compute,
            resource: BoundResource::OutputBuffer((slot - input_buffers) as usize),
        }
    }
}

/// The resource of a slot is of the kind that the layout declares for it.
pub open spec fn resource_fits(entry: BindingEntry) -> bool {
    match entry.resource {
        BoundResource::TextureView(_) => entry.kind == BindingKind::SampledTexture,
        BoundResource::Sampler(_) => entry.kind == BindingKind::Sampler,
        BoundResource::UniformBuffer(_) => entry.kind == BindingKind::UniformBuffer,
        BoundResource::InputBuffer(_) => entry.kind == BindingKind::StorageBuffer { read_only: true },
        BoundResource::OutputBuffer(_) => entry.kind == BindingKind::StorageBuffer {
            read_only: false,
        },
    }
}

/// Slots numbered by position, each holding a resource of its declared kind.
pub open spec fn slots_consistent(entries: Seq<BindingEntry>) -> bool {
    forall|i: int|
        0 <= i < entries.len() ==> entries[i].binding == i && resource_fits(#[trigger] entries[i])
}

/// The slots of a bind group, layout and instance together. The two are
/// only ever made from one input order, so they cannot disagree, and the
/// set does not change once made.
pub struct BindingSet {
    entries: Vec<BindingEntry>,
}

impl BindingSet {
    #[verifier::type_invariant]
    spec fn consistent(self) -> bool {
        slots_consistent(self.entries@)
    }
}

impl View for BindingSet {
    type V = Seq<BindingEntry>;

    closed spec fn view(&self) -> Seq<BindingEntry> {
        self.entries@
    }
}

impl BindingSet {
    /// The set for a render pipeline: `uniform_buffers` uniform buffers in
    /// slots `0..uniform_buffers`, then a (view, sampler) pair of slots for
    /// each of `textures` textures.
    pub fn new(uniform_buffers: usize, textures: usize) -> (r: BindingSet)
        requires
            uniform_buffers + 2 * textures <= u32::MAX,
        ensures
            r@.len() == uniform_buffers + 2 * textures,
            forall|i: int|
                0 <= i < r@.len() ==> r@[i] == graphics_entry(uniform_buffers as nat, i as nat),
    {
        let mut entries: Vec<BindingEntry> = Vec::new();
        let mut binding: u32 = 0;
        let mut i: usize = 0;
        while i < uniform_buffers
            invariant
                uniform_buffers + 2 * textures <= u32::MAX,
                i <= uniform_buffers,
                binding == i,
                entries@.len() == i,
                forall|k: int|
                    0 <= k < entries@.len() ==> entries@[k] == graphics_entry(
                        uniform_buffers as nat,
                        k as nat,
                    ),
            decreases uniform_buffers - i,
        {
            entries.push(
                BindingEntry {
                    binding,
                    kind: BindingKind::UniformBuffer,
                    visibility: ShaderStages::VertexFragment,
                    resource: BoundResource::UniformBuffer(i),
                },
            );
            binding = binding + 1;
            i = i + 1;
        }
        let mut t: usize = 0;
        while t < textures
            invariant
                uniform_buffers + 2 * textures <= u32::MAX,
                t <= textures,
                binding == uniform_buffers + 2 * t,
                entries@.len() == binding,
                forall|k: int|
                    0 <= k < entries@.len() ==> entries@[k] == graphics_entry(
                        uniform_buffers as nat,
                        k as nat,
                    ),
            decreases textures - t,
        {
            entries.push(
                BindingEntry {
                    binding,
                    kind: BindingKind::SampledTexture,
                    visibility: ShaderStages::Fragment,
                    resource: BoundResource::TextureView(t),
                },
            );
            entries.push(
                BindingEntry {
                    binding: binding + 1,
                    kind: BindingKind::Sampler,
                    visibility: ShaderStages::Fragment,
                    resource: BoundResource::Sampler(t),
                },
            );
            binding = binding + 2;
            t = t + 1;
        }
        BindingSet { entries }
    }

    /// The set for a compute pipeline: `input_buffers` read-only storage
    /// buffers in slots `0..input_buffers`, then `output_buffers` read-write
    /// storage buffers.
    pub fn new_compute(input_buffers: usize, output_buffers: usize) -> (r: BindingSet)
        requires
            input_buffers + output_buffers <= u32::MAX,
        ensures
            r@.len() == input_buffers + output_buffers,
            forall|i: int|
                0 <= i < r@.len() ==> r@[i] == compute_entry(input_buffers as nat, i as nat),
    {
        let mut entries: Vec<BindingEntry> = Vec::new();
        let mut binding: u32 = 0;
        let mut i: usize = 0;
        while i < input_buffers
            invariant
                input_buffers + output_buffers <= u32::MAX,
                i <= input_buffers,
                binding == i,
                entries@.len() == i,
                forall|k: int|
                    0 <= k < entries@.len() ==> entries@[k] == compute_entry(
                        input_buffers as nat,
                        k as nat,
                    ),
            decreases input_buffers - i,
        {
            entries.push(
                BindingEntry {
                    binding,
                    kind: BindingKind::StorageBuffer { read_only: true },
                    visibility: ShaderStages::Compute,
                    resource: BoundResource::InputBuffer(i),
                },
            );
            binding = binding + 1;
            i = i + 1;
        }
        let mut o: usize = 0;
        while o < output_buffers
            invariant
                input_buffers + output_buffers <= u32::MAX,
                o <= output_buffers,
                binding == input_buffers + o,
                entries@.len() == binding,
                forall|k: int|
                    0 <= k < entries@.len() ==> entries@[k] == compute_entry(
                        input_buffers as nat,
                        k as nat,
                    ),
            decreases output_buffers - o,
        {
            entries.push(
                BindingEntry {
                    binding,
                    kind: BindingKind::StorageBuffer { read_only: false },
                    visibility: ShaderStages::Compute,
                    resource: BoundResource::OutputBuffer(o),
                },
            );
            binding = binding + 1;
            o = o + 1;
        }
        BindingSet { entries }
    }

    /// The slots in order.
    pub fn entries(&self) -> (r: &[BindingEntry])
        ensures
            r@ == self@,
            slots_consistent(r@),
    {
        proof {
            use_type_invariant(self);
        }
        self.entries.as_slice()
    }
}

} // verus!
