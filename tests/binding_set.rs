use orbit_render::binding::{BindingEntry, BindingKind, BindingSet, BoundResource, ShaderStages};

#[test]
fn two_uniforms_and_two_textures_get_six_slots() {
    let set = BindingSet::new(2, 2);
    let entries = set.entries();
    assert_eq!(entries.len(), 6);
    let bindings: Vec<u32> = entries.iter().map(|e| e.binding).collect();
    assert_eq!(bindings, vec![0, 1, 2, 3, 4, 5]);
    for e in &entries[0..2] {
        assert_eq!(e.kind, BindingKind::UniformBuffer);
        assert_eq!(e.visibility, ShaderStages::VertexFragment);
    }
    for e in &entries[2..6] {
        assert_eq!(e.visibility, ShaderStages::Fragment);
    }
    assert_eq!(entries[0].resource, BoundResource::UniformBuffer(0));
    assert_eq!(entries[1].resource, BoundResource::UniformBuffer(1));
    assert_eq!(
        entries[2],
        BindingEntry {
            binding: 2,
            kind: BindingKind::SampledTexture,
            visibility: ShaderStages::Fragment,
            resource: BoundResource::TextureView(0),
        }
    );
    assert_eq!(entries[3].kind, BindingKind::Sampler);
    assert_eq!(entries[3].resource, BoundResource::Sampler(0));
    assert_eq!(entries[4].resource, BoundResource::TextureView(1));
    assert_eq!(entries[5].resource, BoundResource::Sampler(1));
}

#[test]
fn empty_binding_set_has_no_slots() {
    assert!(BindingSet::new(0, 0).entries().is_empty());
    let textures_only = BindingSet::new(0, 1);
    assert_eq!(textures_only.entries()[0].binding, 0);
    assert_eq!(textures_only.entries()[1].kind, BindingKind::Sampler);
}

#[test]
fn compute_set_puts_read_only_buffers_first() {
    let set = BindingSet::new_compute(1, 2);
    let entries = set.entries();
    assert_eq!(entries.len(), 3);
    assert_eq!(
        entries[0],
        BindingEntry {
            binding: 0,
            kind: BindingKind::StorageBuffer { read_only: true },
            visibility: ShaderStages::Compute,
            resource: BoundResource::InputBuffer(0),
        }
    );
    assert_eq!(entries[1].kind, BindingKind::StorageBuffer { read_only: false });
    assert_eq!(entries[1].resource, BoundResource::OutputBuffer(0));
    assert_eq!(entries[2].binding, 2);
    assert_eq!(entries[2].resource, BoundResource::OutputBuffer(1));
    assert!(entries.iter().all(|e| e.visibility == ShaderStages::Compute));
}
