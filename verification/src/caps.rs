//! The limits an adapter or a device supports, as plain numbers.
use crate::json::{
    fields_view, in_key_order, json_text, keys_ascending, keys_distinct, keys_of, law_object_fields,
    law_object_injective, law_object_keeps_distinct_fields,
    lemma_every_field_stays, lemma_object_well_formed, lemma_view, object, object_of, push_json,
    well_formed, Field, Json, Value,
};
use crate::names::{group_marks, lemma_marked_apart, lemma_no_marks, mark};
use crate::number::decimal;
use vstd::prelude::*;

verus! {

/// Every limit that wgpu reports of an adapter, under wgpu's own names.
#[derive(Debug, Clone, Copy, PartialEq, Eq, Structural)]
pub struct Limits {
    /// Width of a one-dimensional texture.
    pub max_texture_dimension_1d: u32,
    /// Width and height of a two-dimensional texture.
    pub max_texture_dimension_2d: u32,
    /// Width, height and depth of a three-dimensional texture.
    pub max_texture_dimension_3d: u32,
    /// Layers of a two-dimensional texture.
    pub max_texture_array_layers: u32,
    /// Bind groups attached to a pipeline at once.
    pub max_bind_groups: u32,
    /// Bind group and vertex buffer slots in use at once.
    pub max_bind_groups_plus_vertex_buffers: u32,
    /// Largest binding index of a bind group layout.
    pub max_bindings_per_bind_group: u32,
    /// Largest dynamic uniform buffers per pipeline layout.
    pub max_dynamic_uniform_buffers_per_pipeline_layout: u32,
    /// Largest dynamic storage buffers per pipeline layout.
    pub max_dynamic_storage_buffers_per_pipeline_layout: u32,
    /// Largest sampled textures per shader stage.
    pub max_sampled_textures_per_shader_stage: u32,
    /// Largest samplers per shader stage.
    pub max_samplers_per_shader_stage: u32,
    /// Largest storage buffers per shader stage.
    pub max_storage_buffers_per_shader_stage: u32,
    /// Largest storage textures per shader stage.
    pub max_storage_textures_per_shader_stage: u32,
    /// Largest uniform buffers per shader stage.
    pub max_uniform_buffers_per_shader_stage: u32,
    /// Largest binding array elements per shader stage.
    pub max_binding_array_elements_per_shader_stage: u32,
    /// Largest binding array acceleration structure elements per shader stage.
    pub max_binding_array_acceleration_structure_elements_per_shader_stage: u32,
    /// Largest binding array sampler elements per shader stage.
    pub max_binding_array_sampler_elements_per_shader_stage: u32,
    /// Bytes of one uniform buffer binding.
    pub max_uniform_buffer_binding_size: u64,
    /// Bytes of one storage buffer binding.
    pub max_storage_buffer_binding_size: u64,
    /// Largest vertex buffers.
    pub max_vertex_buffers: u32,
    /// Bytes of one buffer.
    pub max_buffer_size: u64,
    /// Largest vertex attributes.
    pub max_vertex_attributes: u32,
    /// Largest vertex buffer array stride.
    pub max_vertex_buffer_array_stride: u32,
    /// Largest inter stage shader variables.
    pub max_inter_stage_shader_variables: u32,
    /// Smallest uniform buffer offset alignment.
    pub min_uniform_buffer_offset_alignment: u32,
    /// Smallest storage buffer offset alignment.
    pub min_storage_buffer_offset_alignment: u32,
    /// Largest color attachments.
    pub max_color_attachments: u32,
    /// Largest color attachment bytes per sample.
    pub max_color_attachment_bytes_per_sample: u32,
    /// Largest compute workgroup storage size.
    pub max_compute_workgroup_storage_size: u32,
    /// Largest compute invocations per workgroup.
    pub max_compute_invocations_per_workgroup: u32,
    /// Largest compute workgroup size x.
    pub max_compute_workgroup_size_x: u32,
    /// Largest compute workgroup size y.
    pub max_compute_workgroup_size_y: u32,
    /// Largest compute workgroup size z.
    pub max_compute_workgroup_size_z: u32,
    /// Largest compute workgroups per dimension.
    pub max_compute_workgroups_per_dimension: u32,
    /// Largest immediate size.
    pub max_immediate_size: u32,
    /// Largest non sampler bindings.
    pub max_non_sampler_bindings: u32,
    /// Largest task workgroup total count.
    pub max_task_workgroup_total_count: u32,
    /// Largest task workgroups per dimension.
    pub max_task_workgroups_per_dimension: u32,
    /// Largest mesh workgroup total count.
    pub max_mesh_workgroup_total_count: u32,
    /// Largest mesh workgroups per dimension.
    pub max_mesh_workgroups_per_dimension: u32,
    /// Largest task invocations per workgroup.
    pub max_task_invocations_per_workgroup: u32,
    /// Largest task invocations per dimension.
    pub max_task_invocations_per_dimension: u32,
    /// Largest mesh invocations per workgroup.
    pub max_mesh_invocations_per_workgroup: u32,
    /// Largest mesh invocations per dimension.
    pub max_mesh_invocations_per_dimension: u32,
    /// Largest task payload size.
    pub max_task_payload_size: u32,
    /// Largest mesh output vertices.
    pub max_mesh_output_vertices: u32,
    /// Largest mesh output primitives.
    pub max_mesh_output_primitives: u32,
    /// Largest mesh output layers.
    pub max_mesh_output_layers: u32,
    /// Largest mesh multiview view count.
    pub max_mesh_multiview_view_count: u32,
    /// Largest blas primitive count.
    pub max_blas_primitive_count: u32,
    /// Largest blas geometry count.
    pub max_blas_geometry_count: u32,
    /// Largest tlas instance count.
    pub max_tlas_instance_count: u32,
    /// Largest acceleration structures per shader stage.
    pub max_acceleration_structures_per_shader_stage: u32,
    /// Largest buffers and acceleration structures per shader stage.
    pub max_buffers_and_acceleration_structures_per_shader_stage: u32,
    /// Largest multiview view count.
    pub max_multiview_view_count: u32,
    /// Largest ray dispatch count.
    pub max_ray_dispatch_count: u32,
    /// Largest ray recursion depth.
    pub max_ray_recursion_depth: u32,
}

/// `s` and the limits on textures, as JSON fields.
pub open spec fn texture_fields(s: Seq<Field>, l: Limits) -> Seq<Field> {
    s
        .push(("maxTextureDimension1D"@, Json::Number(l.max_texture_dimension_1d as u64)))
        .push(("maxTextureDimension2D"@, Json::Number(l.max_texture_dimension_2d as u64)))
        .push(("maxTextureDimension3D"@, Json::Number(l.max_texture_dimension_3d as u64)))
        .push(("maxTextureArrayLayers"@, Json::Number(l.max_texture_array_layers as u64)))
}

/// `s` and the limits on what a pipeline binds, as JSON fields.
pub open spec fn binding_fields(s: Seq<Field>, l: Limits) -> Seq<Field> {
    s
        .push(("maxBindGroups"@, Json::Number(l.max_bind_groups as u64)))
        .push(("maxBindGroupsPlusVertexBuffers"@, Json::Number(l.max_bind_groups_plus_vertex_buffers as u64)))
        .push(("maxBindingsPerBindGroup"@, Json::Number(l.max_bindings_per_bind_group as u64)))
        .push(("maxDynamicUniformBuffersPerPipelineLayout"@, Json::Number(l.max_dynamic_uniform_buffers_per_pipeline_layout as u64)))
        .push(("maxDynamicStorageBuffersPerPipelineLayout"@, Json::Number(l.max_dynamic_storage_buffers_per_pipeline_layout as u64)))
        .push(("maxSampledTexturesPerShaderStage"@, Json::Number(l.max_sampled_textures_per_shader_stage as u64)))
        .push(("maxSamplersPerShaderStage"@, Json::Number(l.max_samplers_per_shader_stage as u64)))
        .push(("maxStorageBuffersPerShaderStage"@, Json::Number(l.max_storage_buffers_per_shader_stage as u64)))
        .push(("maxStorageTexturesPerShaderStage"@, Json::Number(l.max_storage_textures_per_shader_stage as u64)))
        .push(("maxUniformBuffersPerShaderStage"@, Json::Number(l.max_uniform_buffers_per_shader_stage as u64)))
        .push(("maxBindingArrayElementsPerShaderStage"@, Json::Number(l.max_binding_array_elements_per_shader_stage as u64)))
        .push(("maxBindingArrayAccelerationStructureElementsPerShaderStage"@, Json::Number(l.max_binding_array_acceleration_structure_elements_per_shader_stage as u64)))
        .push(("maxBindingArraySamplerElementsPerShaderStage"@, Json::Number(l.max_binding_array_sampler_elements_per_shader_stage as u64)))
}

/// `s` and the limits on buffers, vertices and attachments, as JSON fields.
pub open spec fn buffer_fields(s: Seq<Field>, l: Limits) -> Seq<Field> {
    s
        .push(("maxUniformBufferBindingSize"@, Json::Number(l.max_uniform_buffer_binding_size)))
        .push(("maxStorageBufferBindingSize"@, Json::Number(l.max_storage_buffer_binding_size)))
        .push(("maxVertexBuffers"@, Json::Number(l.max_vertex_buffers as u64)))
        .push(("maxBufferSize"@, Json::Number(l.max_buffer_size)))
        .push(("maxVertexAttributes"@, Json::Number(l.max_vertex_attributes as u64)))
        .push(("maxVertexBufferArrayStride"@, Json::Number(l.max_vertex_buffer_array_stride as u64)))
        .push(("maxInterStageShaderVariables"@, Json::Number(l.max_inter_stage_shader_variables as u64)))
        .push(("minUniformBufferOffsetAlignment"@, Json::Number(l.min_uniform_buffer_offset_alignment as u64)))
        .push(("minStorageBufferOffsetAlignment"@, Json::Number(l.min_storage_buffer_offset_alignment as u64)))
        .push(("maxColorAttachments"@, Json::Number(l.max_color_attachments as u64)))
        .push(("maxColorAttachmentBytesPerSample"@, Json::Number(l.max_color_attachment_bytes_per_sample as u64)))
}

/// `s` and the limits on compute shaders, as JSON fields.
pub open spec fn compute_fields(s: Seq<Field>, l: Limits) -> Seq<Field> {
    s
        .push(("maxComputeWorkgroupStorageSize"@, Json::Number(l.max_compute_workgroup_storage_size as u64)))
        .push(("maxComputeInvocationsPerWorkgroup"@, Json::Number(l.max_compute_invocations_per_workgroup as u64)))
        .push(("maxComputeWorkgroupSizeX"@, Json::Number(l.max_compute_workgroup_size_x as u64)))
        .push(("maxComputeWorkgroupSizeY"@, Json::Number(l.max_compute_workgroup_size_y as u64)))
        .push(("maxComputeWorkgroupSizeZ"@, Json::Number(l.max_compute_workgroup_size_z as u64)))
        .push(("maxComputeWorkgroupsPerDimension"@, Json::Number(l.max_compute_workgroups_per_dimension as u64)))
        .push(("maxImmediateSize"@, Json::Number(l.max_immediate_size as u64)))
        .push(("maxNonSamplerBindings"@, Json::Number(l.max_non_sampler_bindings as u64)))
}

/// `s` and the limits on task and mesh shaders, as JSON fields.
pub open spec fn mesh_fields(s: Seq<Field>, l: Limits) -> Seq<Field> {
    s
        .push(("maxTaskWorkgroupTotalCount"@, Json::Number(l.max_task_workgroup_total_count as u64)))
        .push(("maxTaskWorkgroupsPerDimension"@, Json::Number(l.max_task_workgroups_per_dimension as u64)))
        .push(("maxMeshWorkgroupTotalCount"@, Json::Number(l.max_mesh_workgroup_total_count as u64)))
        .push(("maxMeshWorkgroupsPerDimension"@, Json::Number(l.max_mesh_workgroups_per_dimension as u64)))
        .push(("maxTaskInvocationsPerWorkgroup"@, Json::Number(l.max_task_invocations_per_workgroup as u64)))
        .push(("maxTaskInvocationsPerDimension"@, Json::Number(l.max_task_invocations_per_dimension as u64)))
        .push(("maxMeshInvocationsPerWorkgroup"@, Json::Number(l.max_mesh_invocations_per_workgroup as u64)))
        .push(("maxMeshInvocationsPerDimension"@, Json::Number(l.max_mesh_invocations_per_dimension as u64)))
        .push(("maxTaskPayloadSize"@, Json::Number(l.max_task_payload_size as u64)))
        .push(("maxMeshOutputVertices"@, Json::Number(l.max_mesh_output_vertices as u64)))
        .push(("maxMeshOutputPrimitives"@, Json::Number(l.max_mesh_output_primitives as u64)))
        .push(("maxMeshOutputLayers"@, Json::Number(l.max_mesh_output_layers as u64)))
        .push(("maxMeshMultiviewViewCount"@, Json::Number(l.max_mesh_multiview_view_count as u64)))
}

/// `s` and the limits on acceleration structures, multiview and ray dispatch, as JSON fields.
pub open spec fn ray_fields(s: Seq<Field>, l: Limits) -> Seq<Field> {
    s
        .push(("maxBlasPrimitiveCount"@, Json::Number(l.max_blas_primitive_count as u64)))
        .push(("maxBlasGeometryCount"@, Json::Number(l.max_blas_geometry_count as u64)))
        .push(("maxTlasInstanceCount"@, Json::Number(l.max_tlas_instance_count as u64)))
        .push(("maxAccelerationStructuresPerShaderStage"@, Json::Number(l.max_acceleration_structures_per_shader_stage as u64)))
        .push(("maxBuffersAndAccelerationStructuresPerShaderStage"@, Json::Number(l.max_buffers_and_acceleration_structures_per_shader_stage as u64)))
        .push(("maxMultiviewViewCount"@, Json::Number(l.max_multiview_view_count as u64)))
        .push(("maxRayDispatchCount"@, Json::Number(l.max_ray_dispatch_count as u64)))
        .push(("maxRayRecursionDepth"@, Json::Number(l.max_ray_recursion_depth as u64)))
}

/// The limits as JSON fields, in declaration order.
pub open spec fn limit_fields(l: Limits) -> Seq<Field> {
    let s = texture_fields(Seq::empty(), l);
    let s = binding_fields(s, l);
    let s = buffer_fields(s, l);
    let s = compute_fields(s, l);
    let s = mesh_fields(s, l);
    ray_fields(s, l)
}

/// One field more has one key more.
pub broadcast proof fn lemma_keys_push(s: Seq<Field>, f: Field)
    ensures
        #[trigger] keys_of(s.push(f)) == keys_of(s).push(f.0),
{
    assert(keys_of(s.push(f)) =~= keys_of(s).push(f.0));
}

proof fn lemma_texture_marks()
    ensures
        mark("maxTextureDimension1D"@) == 441,
        mark("maxTextureDimension2D"@) == 442,
        mark("maxTextureDimension3D"@) == 443,
        mark("maxTextureArrayLayers"@) == 503,
{
    reveal(mark);
    reveal_strlit("maxTextureDimension1D");
    reveal_strlit("maxTextureDimension2D");
    reveal_strlit("maxTextureDimension3D");
    reveal_strlit("maxTextureArrayLayers");
}

proof fn lemma_binding_marks()
    ensures
        mark("maxBindGroups"@) == 445,
        mark("maxBindGroupsPlusVertexBuffers"@) == 7176,
        mark("maxBindingsPerBindGroup"@) == 567,
        mark("maxDynamicUniformBuffersPerPipelineLayout"@) == 12091,
        mark("maxDynamicStorageBuffersPerPipelineLayout"@) == 12089,
        mark("maxSampledTexturesPerShaderStage"@) == 10208,
        mark("maxSamplersPerShaderStage"@) == 10845,
        mark("maxStorageBuffersPerShaderStage"@) == 10559,
        mark("maxStorageTexturesPerShaderStage"@) == 10265,
        mark("maxUniformBuffersPerShaderStage"@) == 10541,
        mark("maxBindingArrayElementsPerShaderStage"@) == 8518,
        mark("maxBindingArrayAccelerationStructureElementsPerShaderStage"@) == 12146,
        mark("maxBindingArraySamplerElementsPerShaderStage"@) == 11332,
{
    reveal(mark);
    reveal_strlit("maxBindGroups");
    reveal_strlit("maxBindGroupsPlusVertexBuffers");
    reveal_strlit("maxBindingsPerBindGroup");
    reveal_strlit("maxDynamicUniformBuffersPerPipelineLayout");
    reveal_strlit("maxDynamicStorageBuffersPerPipelineLayout");
    reveal_strlit("maxSampledTexturesPerShaderStage");
    reveal_strlit("maxSamplersPerShaderStage");
    reveal_strlit("maxStorageBuffersPerShaderStage");
    reveal_strlit("maxStorageTexturesPerShaderStage");
    reveal_strlit("maxUniformBuffersPerShaderStage");
    reveal_strlit("maxBindingArrayElementsPerShaderStage");
    reveal_strlit("maxBindingArrayAccelerationStructureElementsPerShaderStage");
    reveal_strlit("maxBindingArraySamplerElementsPerShaderStage");
}

proof fn lemma_buffer_marks()
    ensures
        mark("maxUniformBufferBindingSize"@) == 8823,
        mark("maxStorageBufferBindingSize"@) == 8841,
        mark("maxVertexBuffers"@) == 436,
        mark("maxBufferSize"@) == 469,
        mark("maxVertexAttributes"@) == 438,
        mark("maxVertexBufferArrayStride"@) == 11067,
        mark("maxInterStageShaderVariables"@) == 10241,
        mark("minUniformBufferOffsetAlignment"@) == 11342,
        mark("minStorageBufferOffsetAlignment"@) == 11360,
        mark("maxColorAttachments"@) == 468,
        mark("maxColorAttachmentBytesPerSample"@) == 8602,
{
    reveal(mark);
    reveal_strlit("maxUniformBufferBindingSize");
    reveal_strlit("maxStorageBufferBindingSize");
    reveal_strlit("maxVertexBuffers");
    reveal_strlit("maxBufferSize");
    reveal_strlit("maxVertexAttributes");
    reveal_strlit("maxVertexBufferArrayStride");
    reveal_strlit("maxInterStageShaderVariables");
    reveal_strlit("minUniformBufferOffsetAlignment");
    reveal_strlit("minStorageBufferOffsetAlignment");
    reveal_strlit("maxColorAttachments");
    reveal_strlit("maxColorAttachmentBytesPerSample");
}

proof fn lemma_compute_marks()
    ensures
        mark("maxComputeWorkgroupStorageSize"@) == 10233,
        mark("maxComputeInvocationsPerWorkgroup"@) == 11949,
        mark("maxComputeWorkgroupSizeX"@) == 9327,
        mark("maxComputeWorkgroupSizeY"@) == 9427,
        mark("maxComputeWorkgroupSizeZ"@) == 9527,
        mark("maxComputeWorkgroupsPerDimension"@) == 7367,
        mark("maxImmediateSize"@) == 459,
        mark("maxNonSamplerBindings"@) == 565,
{
    reveal(mark);
    reveal_strlit("maxComputeWorkgroupStorageSize");
    reveal_strlit("maxComputeInvocationsPerWorkgroup");
    reveal_strlit("maxComputeWorkgroupSizeX");
    reveal_strlit("maxComputeWorkgroupSizeY");
    reveal_strlit("maxComputeWorkgroupSizeZ");
    reveal_strlit("maxComputeWorkgroupsPerDimension");
    reveal_strlit("maxImmediateSize");
    reveal_strlit("maxNonSamplerBindings");
}

proof fn lemma_mesh_marks()
    ensures
        mark("maxTaskWorkgroupTotalCount"@) == 12221,
        mark("maxTaskWorkgroupsPerDimension"@) == 10641,
        mark("maxMeshWorkgroupTotalCount"@) == 12233,
        mark("maxMeshWorkgroupsPerDimension"@) == 10653,
        mark("maxTaskInvocationsPerWorkgroup"@) == 11933,
        mark("maxTaskInvocationsPerDimension"@) == 11433,
        mark("maxMeshInvocationsPerWorkgroup"@) == 11945,
        mark("maxMeshInvocationsPerDimension"@) == 11445,
        mark("maxTaskPayloadSize"@) == 417,
        mark("maxMeshOutputVertices"@) == 537,
        mark("maxMeshOutputPrimitives"@) == 543,
        mark("maxMeshOutputLayers"@) == 434,
        mark("maxMeshMultiviewViewCount"@) == 11563,
{
    reveal(mark);
    reveal_strlit("maxTaskWorkgroupTotalCount");
    reveal_strlit("maxTaskWorkgroupsPerDimension");
    reveal_strlit("maxMeshWorkgroupTotalCount");
    reveal_strlit("maxMeshWorkgroupsPerDimension");
    reveal_strlit("maxTaskInvocationsPerWorkgroup");
    reveal_strlit("maxTaskInvocationsPerDimension");
    reveal_strlit("maxMeshInvocationsPerWorkgroup");
    reveal_strlit("maxMeshInvocationsPerDimension");
    reveal_strlit("maxTaskPayloadSize");
    reveal_strlit("maxMeshOutputVertices");
    reveal_strlit("maxMeshOutputPrimitives");
    reveal_strlit("maxMeshOutputLayers");
    reveal_strlit("maxMeshMultiviewViewCount");
}

proof fn lemma_ray_marks()
    ensures
        mark("maxBlasPrimitiveCount"@) == 564,
        mark("maxBlasGeometryCount"@) == 569,
        mark("maxTlasInstanceCount"@) == 576,
        mark("maxAccelerationStructuresPerShaderStage"@) == 10632,
        mark("maxBuffersAndAccelerationStructuresPerShaderStage"@) == 11679,
        mark("maxMultiviewViewCount"@) == 583,
        mark("maxRayDispatchCount"@) == 407,
        mark("maxRayRecursionDepth"@) == 529,
{
    reveal(mark);
    reveal_strlit("maxBlasPrimitiveCount");
    reveal_strlit("maxBlasGeometryCount");
    reveal_strlit("maxTlasInstanceCount");
    reveal_strlit("maxAccelerationStructuresPerShaderStage");
    reveal_strlit("maxBuffersAndAccelerationStructuresPerShaderStage");
    reveal_strlit("maxMultiviewViewCount");
    reveal_strlit("maxRayDispatchCount");
    reveal_strlit("maxRayRecursionDepth");
}

/// No two limits have the same name.
#[verifier::spinoff_prover]
pub proof fn lemma_limit_names_are_distinct(l: Limits)
    ensures
        keys_distinct(limit_fields(l)),
{
    broadcast use group_marks;

    lemma_texture_marks();
    lemma_binding_marks();
    lemma_buffer_marks();
    lemma_compute_marks();
    lemma_mesh_marks();
    lemma_ray_marks();
    lemma_no_marks();
    lemma_marked_apart(limit_fields(l));
}

/// The same fields make the same object.
pub proof fn lemma_same_object(a: Seq<Field>, b: Seq<Field>)
    requires
        a == b,
    ensures
        object(a) == object(b),
{
}

/// Appends the field `key` with the number `n`.
pub fn put_number(fields: &mut Vec<(String, Value)>, key: &str, n: u64)
    ensures
        fields_view(final(fields)@) == fields_view(old(fields)@).push((key@, Json::Number(n))),
{
    fields.push((key.to_owned(), Value::Number(n)));
    assert(fields_view(fields@) =~= fields_view(old(fields)@).push((key@, Json::Number(n))));
}

impl Limits {
    /// The limits as a JSON object.
    pub open spec fn json(self) -> Json {
        object(limit_fields(self))
    }

    /// The limits as a JSON object.
    pub fn to_value(&self) -> (r: Value)
        ensures
            r@ == self.json(),
    {
        let mut f: Vec<(String, Value)> = Vec::new();
        assert(fields_view(f@) =~= Seq::empty());
        put_number(&mut f, "maxTextureDimension1D", self.max_texture_dimension_1d as u64);
        put_number(&mut f, "maxTextureDimension2D", self.max_texture_dimension_2d as u64);
        put_number(&mut f, "maxTextureDimension3D", self.max_texture_dimension_3d as u64);
        put_number(&mut f, "maxTextureArrayLayers", self.max_texture_array_layers as u64);
        put_number(&mut f, "maxBindGroups", self.max_bind_groups as u64);
        put_number(&mut f, "maxBindGroupsPlusVertexBuffers", self.max_bind_groups_plus_vertex_buffers as u64);
        put_number(&mut f, "maxBindingsPerBindGroup", self.max_bindings_per_bind_group as u64);
        put_number(&mut f, "maxDynamicUniformBuffersPerPipelineLayout", self.max_dynamic_uniform_buffers_per_pipeline_layout as u64);
        put_number(&mut f, "maxDynamicStorageBuffersPerPipelineLayout", self.max_dynamic_storage_buffers_per_pipeline_layout as u64);
        put_number(&mut f, "maxSampledTexturesPerShaderStage", self.max_sampled_textures_per_shader_stage as u64);
        put_number(&mut f, "maxSamplersPerShaderStage", self.max_samplers_per_shader_stage as u64);
        put_number(&mut f, "maxStorageBuffersPerShaderStage", self.max_storage_buffers_per_shader_stage as u64);
        put_number(&mut f, "maxStorageTexturesPerShaderStage", self.max_storage_textures_per_shader_stage as u64);
        put_number(&mut f, "maxUniformBuffersPerShaderStage", self.max_uniform_buffers_per_shader_stage as u64);
        put_number(&mut f, "maxBindingArrayElementsPerShaderStage", self.max_binding_array_elements_per_shader_stage as u64);
        put_number(&mut f, "maxBindingArrayAccelerationStructureElementsPerShaderStage", self.max_binding_array_acceleration_structure_elements_per_shader_stage as u64);
        put_number(&mut f, "maxBindingArraySamplerElementsPerShaderStage", self.max_binding_array_sampler_elements_per_shader_stage as u64);
        put_number(&mut f, "maxUniformBufferBindingSize", self.max_uniform_buffer_binding_size);
        put_number(&mut f, "maxStorageBufferBindingSize", self.max_storage_buffer_binding_size);
        put_number(&mut f, "maxVertexBuffers", self.max_vertex_buffers as u64);
        put_number(&mut f, "maxBufferSize", self.max_buffer_size);
        put_number(&mut f, "maxVertexAttributes", self.max_vertex_attributes as u64);
        put_number(&mut f, "maxVertexBufferArrayStride", self.max_vertex_buffer_array_stride as u64);
        put_number(&mut f, "maxInterStageShaderVariables", self.max_inter_stage_shader_variables as u64);
        put_number(&mut f, "minUniformBufferOffsetAlignment", self.min_uniform_buffer_offset_alignment as u64);
        put_number(&mut f, "minStorageBufferOffsetAlignment", self.min_storage_buffer_offset_alignment as u64);
        put_number(&mut f, "maxColorAttachments", self.max_color_attachments as u64);
        put_number(&mut f, "maxColorAttachmentBytesPerSample", self.max_color_attachment_bytes_per_sample as u64);
        put_number(&mut f, "maxComputeWorkgroupStorageSize", self.max_compute_workgroup_storage_size as u64);
        put_number(&mut f, "maxComputeInvocationsPerWorkgroup", self.max_compute_invocations_per_workgroup as u64);
        put_number(&mut f, "maxComputeWorkgroupSizeX", self.max_compute_workgroup_size_x as u64);
        put_number(&mut f, "maxComputeWorkgroupSizeY", self.max_compute_workgroup_size_y as u64);
        put_number(&mut f, "maxComputeWorkgroupSizeZ", self.max_compute_workgroup_size_z as u64);
        put_number(&mut f, "maxComputeWorkgroupsPerDimension", self.max_compute_workgroups_per_dimension as u64);
        put_number(&mut f, "maxImmediateSize", self.max_immediate_size as u64);
        put_number(&mut f, "maxNonSamplerBindings", self.max_non_sampler_bindings as u64);
        put_number(&mut f, "maxTaskWorkgroupTotalCount", self.max_task_workgroup_total_count as u64);
        put_number(&mut f, "maxTaskWorkgroupsPerDimension", self.max_task_workgroups_per_dimension as u64);
        put_number(&mut f, "maxMeshWorkgroupTotalCount", self.max_mesh_workgroup_total_count as u64);
        put_number(&mut f, "maxMeshWorkgroupsPerDimension", self.max_mesh_workgroups_per_dimension as u64);
        put_number(&mut f, "maxTaskInvocationsPerWorkgroup", self.max_task_invocations_per_workgroup as u64);
        put_number(&mut f, "maxTaskInvocationsPerDimension", self.max_task_invocations_per_dimension as u64);
        put_number(&mut f, "maxMeshInvocationsPerWorkgroup", self.max_mesh_invocations_per_workgroup as u64);
        put_number(&mut f, "maxMeshInvocationsPerDimension", self.max_mesh_invocations_per_dimension as u64);
        put_number(&mut f, "maxTaskPayloadSize", self.max_task_payload_size as u64);
        put_number(&mut f, "maxMeshOutputVertices", self.max_mesh_output_vertices as u64);
        put_number(&mut f, "maxMeshOutputPrimitives", self.max_mesh_output_primitives as u64);
        put_number(&mut f, "maxMeshOutputLayers", self.max_mesh_output_layers as u64);
        put_number(&mut f, "maxMeshMultiviewViewCount", self.max_mesh_multiview_view_count as u64);
        put_number(&mut f, "maxBlasPrimitiveCount", self.max_blas_primitive_count as u64);
        put_number(&mut f, "maxBlasGeometryCount", self.max_blas_geometry_count as u64);
        put_number(&mut f, "maxTlasInstanceCount", self.max_tlas_instance_count as u64);
        put_number(&mut f, "maxAccelerationStructuresPerShaderStage", self.max_acceleration_structures_per_shader_stage as u64);
        put_number(&mut f, "maxBuffersAndAccelerationStructuresPerShaderStage", self.max_buffers_and_acceleration_structures_per_shader_stage as u64);
        put_number(&mut f, "maxMultiviewViewCount", self.max_multiview_view_count as u64);
        put_number(&mut f, "maxRayDispatchCount", self.max_ray_dispatch_count as u64);
        put_number(&mut f, "maxRayRecursionDepth", self.max_ray_recursion_depth as u64);
        proof {
            lemma_same_object(fields_view(f@), limit_fields(*self));
        }
        object_of(f)
    }
}

/// The names and texts of limits, in key order.
pub open spec fn limit_pairs(l: Limits) -> Seq<(Seq<char>, Seq<char>)> {
    let fields = in_key_order(limit_fields(l));
    Seq::new(fields.len(), |i: int| (fields[i].0, json_text(fields[i].1)))
}

/// What a list of name and text pairs holds.
pub open spec fn pairs_view(v: Seq<(String, String)>) -> Seq<(Seq<char>, Seq<char>)> {
    Seq::new(v.len(), |i: int| (v[i].0@, v[i].1@))
}

/// The names and texts of the limits, in key order, so that every limit is printed without
/// listing fields.
pub fn limits_kv(limits: &Limits) -> (r: Vec<(String, String)>)
    ensures
        pairs_view(r@) == limit_pairs(*limits),
{
    let mut r: Vec<(String, String)> = Vec::new();
    let value = limits.to_value();
    let ghost fields = in_key_order(limit_fields(*limits));
    proof {
        lemma_view(value);
    }
    if let Value::Object(object) = &value {
        let o = object.fields();
        assert(fields_view(o@) == fields);
        let mut i: usize = 0;
        while i < o.len()
            invariant
                i <= o@.len(),
                fields_view(o@) == fields,
                pairs_view(r@) == limit_pairs(*limits).take(i as int),
                fields == in_key_order(limit_fields(*limits)),
            decreases o@.len() - i,
        {
            assert(fields[i as int] == (o@[i as int].0@, o@[i as int].1@));
            let mut text = String::new();
            push_json(&mut text, &o[i].1);
            assert(text@ =~= json_text(fields[i as int].1));
            let name = o[i].0.clone();
            let ghost before = r@;
            r.push((name, text));
            assert(pairs_view(r@) =~= pairs_view(before).push((name@, text@)));
            i = i + 1;
            assert(limit_pairs(*limits).take(i as int) =~= limit_pairs(*limits).take(
                i - 1,
            ).push(limit_pairs(*limits)[i - 1]));
            assert(pairs_view(r@) =~= limit_pairs(*limits).take(i as int));
        }
        assert(limit_pairs(*limits).take(i as int) =~= limit_pairs(*limits));
    }
    r
}

/// Limits are well-formed JSON.
pub proof fn lemma_limits_well_formed(l: Limits)
    ensures
        well_formed(l.json()),
{
    lemma_limits_are_numbers(l);
    lemma_object_well_formed(limit_fields(l));
}

/// Every limit is a number.
pub proof fn lemma_limits_are_numbers(l: Limits)
    ensures
        forall|i: int| 0 <= i < limit_fields(l).len() ==> (#[trigger] limit_fields(l)[i]).1 is Number,
{
}

/// Every limit is listed, each under its name, in the order of the names.
pub proof fn law_every_limit_is_listed(l: Limits)
    ensures
        limit_fields(l).len() == 57,
        limit_pairs(l).len() == 57,
        forall|i: int|
            0 <= i < 57 ==> limit_pairs(l).contains(
                ((#[trigger] limit_fields(l)[i]).0, json_text(limit_fields(l)[i].1)),
            ),
        keys_ascending(in_key_order(limit_fields(l))),
{
    broadcast use vstd::seq_lib::group_to_multiset_ensures;

    let given = limit_fields(l);
    let fields = in_key_order(given);
    lemma_limit_names_are_distinct(l);
    law_object_fields(given);
    law_object_keeps_distinct_fields(given);
    assert forall|i: int| 0 <= i < 57 implies limit_pairs(l).contains(
        ((#[trigger] given[i]).0, json_text(given[i].1)),
    ) by {
        assert(given.to_multiset().count(given[i]) > 0) by {
            assert(given.contains(given[i]));
        }
        assert(fields.contains(given[i]));
        let k = choose|k: int| 0 <= k < fields.len() && fields[k] == given[i];
        assert(limit_pairs(l)[k] == (given[i].0, json_text(given[i].1)));
    }
}

proof fn lemma_texture_fields(s: Seq<Field>, t: Seq<Field>, a: Limits, b: Limits)
    requires
        texture_fields(s, a) == texture_fields(t, b),
    ensures
        s == t,
        a.max_texture_dimension_1d == b.max_texture_dimension_1d,
        a.max_texture_dimension_2d == b.max_texture_dimension_2d,
        a.max_texture_dimension_3d == b.max_texture_dimension_3d,
        a.max_texture_array_layers == b.max_texture_array_layers,
{
    let x = texture_fields(s, a);
    let y = texture_fields(t, b);
    let n = s.len() as int;
    assert(x.len() == n + 4 && y.len() == t.len() + 4);
    assert(x.subrange(0, n) =~= s);
    assert(y.subrange(0, n) =~= t);
    assert(x[n].1 == Json::Number(a.max_texture_dimension_1d as u64));
    assert(y[n].1 == Json::Number(b.max_texture_dimension_1d as u64));
    assert(x[n + 1].1 == Json::Number(a.max_texture_dimension_2d as u64));
    assert(y[n + 1].1 == Json::Number(b.max_texture_dimension_2d as u64));
    assert(x[n + 2].1 == Json::Number(a.max_texture_dimension_3d as u64));
    assert(y[n + 2].1 == Json::Number(b.max_texture_dimension_3d as u64));
    assert(x[n + 3].1 == Json::Number(a.max_texture_array_layers as u64));
    assert(y[n + 3].1 == Json::Number(b.max_texture_array_layers as u64));
}

proof fn lemma_binding_fields(s: Seq<Field>, t: Seq<Field>, a: Limits, b: Limits)
    requires
        binding_fields(s, a) == binding_fields(t, b),
    ensures
        s == t,
        a.max_bind_groups == b.max_bind_groups,
        a.max_bind_groups_plus_vertex_buffers == b.max_bind_groups_plus_vertex_buffers,
        a.max_bindings_per_bind_group == b.max_bindings_per_bind_group,
        a.max_dynamic_uniform_buffers_per_pipeline_layout == b.max_dynamic_uniform_buffers_per_pipeline_layout,
        a.max_dynamic_storage_buffers_per_pipeline_layout == b.max_dynamic_storage_buffers_per_pipeline_layout,
        a.max_sampled_textures_per_shader_stage == b.max_sampled_textures_per_shader_stage,
        a.max_samplers_per_shader_stage == b.max_samplers_per_shader_stage,
        a.max_storage_buffers_per_shader_stage == b.max_storage_buffers_per_shader_stage,
        a.max_storage_textures_per_shader_stage == b.max_storage_textures_per_shader_stage,
        a.max_uniform_buffers_per_shader_stage == b.max_uniform_buffers_per_shader_stage,
        a.max_binding_array_elements_per_shader_stage == b.max_binding_array_elements_per_shader_stage,
        a.max_binding_array_acceleration_structure_elements_per_shader_stage == b.max_binding_array_acceleration_structure_elements_per_shader_stage,
        a.max_binding_array_sampler_elements_per_shader_stage == b.max_binding_array_sampler_elements_per_shader_stage,
{
    let x = binding_fields(s, a);
    let y = binding_fields(t, b);
    let n = s.len() as int;
    assert(x.len() == n + 13 && y.len() == t.len() + 13);
    assert(x.subrange(0, n) =~= s);
    assert(y.subrange(0, n) =~= t);
    assert(x[n].1 == Json::Number(a.max_bind_groups as u64));
    assert(y[n].1 == Json::Number(b.max_bind_groups as u64));
    assert(x[n + 1].1 == Json::Number(a.max_bind_groups_plus_vertex_buffers as u64));
    assert(y[n + 1].1 == Json::Number(b.max_bind_groups_plus_vertex_buffers as u64));
    assert(x[n + 2].1 == Json::Number(a.max_bindings_per_bind_group as u64));
    assert(y[n + 2].1 == Json::Number(b.max_bindings_per_bind_group as u64));
    assert(x[n + 3].1 == Json::Number(a.max_dynamic_uniform_buffers_per_pipeline_layout as u64));
    assert(y[n + 3].1 == Json::Number(b.max_dynamic_uniform_buffers_per_pipeline_layout as u64));
    assert(x[n + 4].1 == Json::Number(a.max_dynamic_storage_buffers_per_pipeline_layout as u64));
    assert(y[n + 4].1 == Json::Number(b.max_dynamic_storage_buffers_per_pipeline_layout as u64));
    assert(x[n + 5].1 == Json::Number(a.max_sampled_textures_per_shader_stage as u64));
    assert(y[n + 5].1 == Json::Number(b.max_sampled_textures_per_shader_stage as u64));
    assert(x[n + 6].1 == Json::Number(a.max_samplers_per_shader_stage as u64));
    assert(y[n + 6].1 == Json::Number(b.max_samplers_per_shader_stage as u64));
    assert(x[n + 7].1 == Json::Number(a.max_storage_buffers_per_shader_stage as u64));
    assert(y[n + 7].1 == Json::Number(b.max_storage_buffers_per_shader_stage as u64));
    assert(x[n + 8].1 == Json::Number(a.max_storage_textures_per_shader_stage as u64));
    assert(y[n + 8].1 == Json::Number(b.max_storage_textures_per_shader_stage as u64));
    assert(x[n + 9].1 == Json::Number(a.max_uniform_buffers_per_shader_stage as u64));
    assert(y[n + 9].1 == Json::Number(b.max_uniform_buffers_per_shader_stage as u64));
    assert(x[n + 10].1 == Json::Number(a.max_binding_array_elements_per_shader_stage as u64));
    assert(y[n + 10].1 == Json::Number(b.max_binding_array_elements_per_shader_stage as u64));
    assert(x[n + 11].1 == Json::Number(a.max_binding_array_acceleration_structure_elements_per_shader_stage as u64));
    assert(y[n + 11].1 == Json::Number(b.max_binding_array_acceleration_structure_elements_per_shader_stage as u64));
    assert(x[n + 12].1 == Json::Number(a.max_binding_array_sampler_elements_per_shader_stage as u64));
    assert(y[n + 12].1 == Json::Number(b.max_binding_array_sampler_elements_per_shader_stage as u64));
}

proof fn lemma_buffer_fields(s: Seq<Field>, t: Seq<Field>, a: Limits, b: Limits)
    requires
        buffer_fields(s, a) == buffer_fields(t, b),
    ensures
        s == t,
        a.max_uniform_buffer_binding_size == b.max_uniform_buffer_binding_size,
        a.max_storage_buffer_binding_size == b.max_storage_buffer_binding_size,
        a.max_vertex_buffers == b.max_vertex_buffers,
        a.max_buffer_size == b.max_buffer_size,
        a.max_vertex_attributes == b.max_vertex_attributes,
        a.max_vertex_buffer_array_stride == b.max_vertex_buffer_array_stride,
        a.max_inter_stage_shader_variables == b.max_inter_stage_shader_variables,
        a.min_uniform_buffer_offset_alignment == b.min_uniform_buffer_offset_alignment,
        a.min_storage_buffer_offset_alignment == b.min_storage_buffer_offset_alignment,
        a.max_color_attachments == b.max_color_attachments,
        a.max_color_attachment_bytes_per_sample == b.max_color_attachment_bytes_per_sample,
{
    let x = buffer_fields(s, a);
    let y = buffer_fields(t, b);
    let n = s.len() as int;
    assert(x.len() == n + 11 && y.len() == t.len() + 11);
    assert(x.subrange(0, n) =~= s);
    assert(y.subrange(0, n) =~= t);
    assert(x[n].1 == Json::Number(a.max_uniform_buffer_binding_size));
    assert(y[n].1 == Json::Number(b.max_uniform_buffer_binding_size));
    assert(x[n + 1].1 == Json::Number(a.max_storage_buffer_binding_size));
    assert(y[n + 1].1 == Json::Number(b.max_storage_buffer_binding_size));
    assert(x[n + 2].1 == Json::Number(a.max_vertex_buffers as u64));
    assert(y[n + 2].1 == Json::Number(b.max_vertex_buffers as u64));
    assert(x[n + 3].1 == Json::Number(a.max_buffer_size));
    assert(y[n + 3].1 == Json::Number(b.max_buffer_size));
    assert(x[n + 4].1 == Json::Number(a.max_vertex_attributes as u64));
    assert(y[n + 4].1 == Json::Number(b.max_vertex_attributes as u64));
    assert(x[n + 5].1 == Json::Number(a.max_vertex_buffer_array_stride as u64));
    assert(y[n + 5].1 == Json::Number(b.max_vertex_buffer_array_stride as u64));
    assert(x[n + 6].1 == Json::Number(a.max_inter_stage_shader_variables as u64));
    assert(y[n + 6].1 == Json::Number(b.max_inter_stage_shader_variables as u64));
    assert(x[n + 7].1 == Json::Number(a.min_uniform_buffer_offset_alignment as u64));
    assert(y[n + 7].1 == Json::Number(b.min_uniform_buffer_offset_alignment as u64));
    assert(x[n + 8].1 == Json::Number(a.min_storage_buffer_offset_alignment as u64));
    assert(y[n + 8].1 == Json::Number(b.min_storage_buffer_offset_alignment as u64));
    assert(x[n + 9].1 == Json::Number(a.max_color_attachments as u64));
    assert(y[n + 9].1 == Json::Number(b.max_color_attachments as u64));
    assert(x[n + 10].1 == Json::Number(a.max_color_attachment_bytes_per_sample as u64));
    assert(y[n + 10].1 == Json::Number(b.max_color_attachment_bytes_per_sample as u64));
}

proof fn lemma_compute_fields(s: Seq<Field>, t: Seq<Field>, a: Limits, b: Limits)
    requires
        compute_fields(s, a) == compute_fields(t, b),
    ensures
        s == t,
        a.max_compute_workgroup_storage_size == b.max_compute_workgroup_storage_size,
        a.max_compute_invocations_per_workgroup == b.max_compute_invocations_per_workgroup,
        a.max_compute_workgroup_size_x == b.max_compute_workgroup_size_x,
        a.max_compute_workgroup_size_y == b.max_compute_workgroup_size_y,
        a.max_compute_workgroup_size_z == b.max_compute_workgroup_size_z,
        a.max_compute_workgroups_per_dimension == b.max_compute_workgroups_per_dimension,
        a.max_immediate_size == b.max_immediate_size,
        a.max_non_sampler_bindings == b.max_non_sampler_bindings,
{
    let x = compute_fields(s, a);
    let y = compute_fields(t, b);
    let n = s.len() as int;
    assert(x.len() == n + 8 && y.len() == t.len() + 8);
    assert(x.subrange(0, n) =~= s);
    assert(y.subrange(0, n) =~= t);
    assert(x[n].1 == Json::Number(a.max_compute_workgroup_storage_size as u64));
    assert(y[n].1 == Json::Number(b.max_compute_workgroup_storage_size as u64));
    assert(x[n + 1].1 == Json::Number(a.max_compute_invocations_per_workgroup as u64));
    assert(y[n + 1].1 == Json::Number(b.max_compute_invocations_per_workgroup as u64));
    assert(x[n + 2].1 == Json::Number(a.max_compute_workgroup_size_x as u64));
    assert(y[n + 2].1 == Json::Number(b.max_compute_workgroup_size_x as u64));
    assert(x[n + 3].1 == Json::Number(a.max_compute_workgroup_size_y as u64));
    assert(y[n + 3].1 == Json::Number(b.max_compute_workgroup_size_y as u64));
    assert(x[n + 4].1 == Json::Number(a.max_compute_workgroup_size_z as u64));
    assert(y[n + 4].1 == Json::Number(b.max_compute_workgroup_size_z as u64));
    assert(x[n + 5].1 == Json::Number(a.max_compute_workgroups_per_dimension as u64));
    assert(y[n + 5].1 == Json::Number(b.max_compute_workgroups_per_dimension as u64));
    assert(x[n + 6].1 == Json::Number(a.max_immediate_size as u64));
    assert(y[n + 6].1 == Json::Number(b.max_immediate_size as u64));
    assert(x[n + 7].1 == Json::Number(a.max_non_sampler_bindings as u64));
    assert(y[n + 7].1 == Json::Number(b.max_non_sampler_bindings as u64));
}

proof fn lemma_mesh_fields(s: Seq<Field>, t: Seq<Field>, a: Limits, b: Limits)
    requires
        mesh_fields(s, a) == mesh_fields(t, b),
    ensures
        s == t,
        a.max_task_workgroup_total_count == b.max_task_workgroup_total_count,
        a.max_task_workgroups_per_dimension == b.max_task_workgroups_per_dimension,
        a.max_mesh_workgroup_total_count == b.max_mesh_workgroup_total_count,
        a.max_mesh_workgroups_per_dimension == b.max_mesh_workgroups_per_dimension,
        a.max_task_invocations_per_workgroup == b.max_task_invocations_per_workgroup,
        a.max_task_invocations_per_dimension == b.max_task_invocations_per_dimension,
        a.max_mesh_invocations_per_workgroup == b.max_mesh_invocations_per_workgroup,
        a.max_mesh_invocations_per_dimension == b.max_mesh_invocations_per_dimension,
        a.max_task_payload_size == b.max_task_payload_size,
        a.max_mesh_output_vertices == b.max_mesh_output_vertices,
        a.max_mesh_output_primitives == b.max_mesh_output_primitives,
        a.max_mesh_output_layers == b.max_mesh_output_layers,
        a.max_mesh_multiview_view_count == b.max_mesh_multiview_view_count,
{
    let x = mesh_fields(s, a);
    let y = mesh_fields(t, b);
    let n = s.len() as int;
    assert(x.len() == n + 13 && y.len() == t.len() + 13);
    assert(x.subrange(0, n) =~= s);
    assert(y.subrange(0, n) =~= t);
    assert(x[n].1 == Json::Number(a.max_task_workgroup_total_count as u64));
    assert(y[n].1 == Json::Number(b.max_task_workgroup_total_count as u64));
    assert(x[n + 1].1 == Json::Number(a.max_task_workgroups_per_dimension as u64));
    assert(y[n + 1].1 == Json::Number(b.max_task_workgroups_per_dimension as u64));
    assert(x[n + 2].1 == Json::Number(a.max_mesh_workgroup_total_count as u64));
    assert(y[n + 2].1 == Json::Number(b.max_mesh_workgroup_total_count as u64));
    assert(x[n + 3].1 == Json::Number(a.max_mesh_workgroups_per_dimension as u64));
    assert(y[n + 3].1 == Json::Number(b.max_mesh_workgroups_per_dimension as u64));
    assert(x[n + 4].1 == Json::Number(a.max_task_invocations_per_workgroup as u64));
    assert(y[n + 4].1 == Json::Number(b.max_task_invocations_per_workgroup as u64));
    assert(x[n + 5].1 == Json::Number(a.max_task_invocations_per_dimension as u64));
    assert(y[n + 5].1 == Json::Number(b.max_task_invocations_per_dimension as u64));
    assert(x[n + 6].1 == Json::Number(a.max_mesh_invocations_per_workgroup as u64));
    assert(y[n + 6].1 == Json::Number(b.max_mesh_invocations_per_workgroup as u64));
    assert(x[n + 7].1 == Json::Number(a.max_mesh_invocations_per_dimension as u64));
    assert(y[n + 7].1 == Json::Number(b.max_mesh_invocations_per_dimension as u64));
    assert(x[n + 8].1 == Json::Number(a.max_task_payload_size as u64));
    assert(y[n + 8].1 == Json::Number(b.max_task_payload_size as u64));
    assert(x[n + 9].1 == Json::Number(a.max_mesh_output_vertices as u64));
    assert(y[n + 9].1 == Json::Number(b.max_mesh_output_vertices as u64));
    assert(x[n + 10].1 == Json::Number(a.max_mesh_output_primitives as u64));
    assert(y[n + 10].1 == Json::Number(b.max_mesh_output_primitives as u64));
    assert(x[n + 11].1 == Json::Number(a.max_mesh_output_layers as u64));
    assert(y[n + 11].1 == Json::Number(b.max_mesh_output_layers as u64));
    assert(x[n + 12].1 == Json::Number(a.max_mesh_multiview_view_count as u64));
    assert(y[n + 12].1 == Json::Number(b.max_mesh_multiview_view_count as u64));
}

proof fn lemma_ray_fields(s: Seq<Field>, t: Seq<Field>, a: Limits, b: Limits)
    requires
        ray_fields(s, a) == ray_fields(t, b),
    ensures
        s == t,
        a.max_blas_primitive_count == b.max_blas_primitive_count,
        a.max_blas_geometry_count == b.max_blas_geometry_count,
        a.max_tlas_instance_count == b.max_tlas_instance_count,
        a.max_acceleration_structures_per_shader_stage == b.max_acceleration_structures_per_shader_stage,
        a.max_buffers_and_acceleration_structures_per_shader_stage == b.max_buffers_and_acceleration_structures_per_shader_stage,
        a.max_multiview_view_count == b.max_multiview_view_count,
        a.max_ray_dispatch_count == b.max_ray_dispatch_count,
        a.max_ray_recursion_depth == b.max_ray_recursion_depth,
{
    let x = ray_fields(s, a);
    let y = ray_fields(t, b);
    let n = s.len() as int;
    assert(x.len() == n + 8 && y.len() == t.len() + 8);
    assert(x.subrange(0, n) =~= s);
    assert(y.subrange(0, n) =~= t);
    assert(x[n].1 == Json::Number(a.max_blas_primitive_count as u64));
    assert(y[n].1 == Json::Number(b.max_blas_primitive_count as u64));
    assert(x[n + 1].1 == Json::Number(a.max_blas_geometry_count as u64));
    assert(y[n + 1].1 == Json::Number(b.max_blas_geometry_count as u64));
    assert(x[n + 2].1 == Json::Number(a.max_tlas_instance_count as u64));
    assert(y[n + 2].1 == Json::Number(b.max_tlas_instance_count as u64));
    assert(x[n + 3].1 == Json::Number(a.max_acceleration_structures_per_shader_stage as u64));
    assert(y[n + 3].1 == Json::Number(b.max_acceleration_structures_per_shader_stage as u64));
    assert(x[n + 4].1 == Json::Number(a.max_buffers_and_acceleration_structures_per_shader_stage as u64));
    assert(y[n + 4].1 == Json::Number(b.max_buffers_and_acceleration_structures_per_shader_stage as u64));
    assert(x[n + 5].1 == Json::Number(a.max_multiview_view_count as u64));
    assert(y[n + 5].1 == Json::Number(b.max_multiview_view_count as u64));
    assert(x[n + 6].1 == Json::Number(a.max_ray_dispatch_count as u64));
    assert(y[n + 6].1 == Json::Number(b.max_ray_dispatch_count as u64));
    assert(x[n + 7].1 == Json::Number(a.max_ray_recursion_depth as u64));
    assert(y[n + 7].1 == Json::Number(b.max_ray_recursion_depth as u64));
}

/// The JSON form tells limits apart: the same object means that every limit is the same.
pub proof fn law_limits_json_injective(a: Limits, b: Limits)
    ensures
        a.json() == b.json() ==> a == b,
{
    broadcast use lemma_keys_push;

    let a1 = texture_fields(Seq::empty(), a);
    let b1 = texture_fields(Seq::empty(), b);
    let a2 = binding_fields(a1, a);
    let b2 = binding_fields(b1, b);
    let a3 = buffer_fields(a2, a);
    let b3 = buffer_fields(b2, b);
    let a4 = compute_fields(a3, a);
    let b4 = compute_fields(b3, b);
    let a5 = mesh_fields(a4, a);
    let b5 = mesh_fields(b4, b);
    let fa = ray_fields(a5, a);
    let fb = ray_fields(b5, b);
    assert(keys_of(fa) == keys_of(fb));
    lemma_limit_names_are_distinct(a);
    law_object_injective(fa, fb);
    if a.json() == b.json() {
        lemma_ray_fields(a5, b5, a, b);
        lemma_mesh_fields(a4, b4, a, b);
        lemma_compute_fields(a3, b3, a, b);
        lemma_buffer_fields(a2, b2, a, b);
        lemma_binding_fields(a1, b1, a, b);
        lemma_texture_fields(Seq::empty(), Seq::empty(), a, b);
    }
}

proof fn lemma_limits_by_place(l: Limits)
    ensures
        limit_fields(l)[0] == ("maxTextureDimension1D"@, Json::Number(l.max_texture_dimension_1d as u64)),
        limit_fields(l)[1] == ("maxTextureDimension2D"@, Json::Number(l.max_texture_dimension_2d as u64)),
        limit_fields(l)[2] == ("maxTextureDimension3D"@, Json::Number(l.max_texture_dimension_3d as u64)),
        limit_fields(l)[3] == ("maxTextureArrayLayers"@, Json::Number(l.max_texture_array_layers as u64)),
        limit_fields(l)[4] == ("maxBindGroups"@, Json::Number(l.max_bind_groups as u64)),
        limit_fields(l)[5] == ("maxBindGroupsPlusVertexBuffers"@, Json::Number(l.max_bind_groups_plus_vertex_buffers as u64)),
        limit_fields(l)[6] == ("maxBindingsPerBindGroup"@, Json::Number(l.max_bindings_per_bind_group as u64)),
        limit_fields(l)[7] == ("maxDynamicUniformBuffersPerPipelineLayout"@, Json::Number(l.max_dynamic_uniform_buffers_per_pipeline_layout as u64)),
        limit_fields(l)[8] == ("maxDynamicStorageBuffersPerPipelineLayout"@, Json::Number(l.max_dynamic_storage_buffers_per_pipeline_layout as u64)),
        limit_fields(l)[9] == ("maxSampledTexturesPerShaderStage"@, Json::Number(l.max_sampled_textures_per_shader_stage as u64)),
        limit_fields(l)[10] == ("maxSamplersPerShaderStage"@, Json::Number(l.max_samplers_per_shader_stage as u64)),
        limit_fields(l)[11] == ("maxStorageBuffersPerShaderStage"@, Json::Number(l.max_storage_buffers_per_shader_stage as u64)),
        limit_fields(l)[12] == ("maxStorageTexturesPerShaderStage"@, Json::Number(l.max_storage_textures_per_shader_stage as u64)),
        limit_fields(l)[13] == ("maxUniformBuffersPerShaderStage"@, Json::Number(l.max_uniform_buffers_per_shader_stage as u64)),
        limit_fields(l)[14] == ("maxBindingArrayElementsPerShaderStage"@, Json::Number(l.max_binding_array_elements_per_shader_stage as u64)),
        limit_fields(l)[15] == ("maxBindingArrayAccelerationStructureElementsPerShaderStage"@, Json::Number(l.max_binding_array_acceleration_structure_elements_per_shader_stage as u64)),
        limit_fields(l)[16] == ("maxBindingArraySamplerElementsPerShaderStage"@, Json::Number(l.max_binding_array_sampler_elements_per_shader_stage as u64)),
        limit_fields(l)[17] == ("maxUniformBufferBindingSize"@, Json::Number(l.max_uniform_buffer_binding_size)),
        limit_fields(l)[18] == ("maxStorageBufferBindingSize"@, Json::Number(l.max_storage_buffer_binding_size)),
        limit_fields(l)[19] == ("maxVertexBuffers"@, Json::Number(l.max_vertex_buffers as u64)),
        limit_fields(l)[20] == ("maxBufferSize"@, Json::Number(l.max_buffer_size)),
        limit_fields(l)[21] == ("maxVertexAttributes"@, Json::Number(l.max_vertex_attributes as u64)),
        limit_fields(l)[22] == ("maxVertexBufferArrayStride"@, Json::Number(l.max_vertex_buffer_array_stride as u64)),
        limit_fields(l)[23] == ("maxInterStageShaderVariables"@, Json::Number(l.max_inter_stage_shader_variables as u64)),
        limit_fields(l)[24] == ("minUniformBufferOffsetAlignment"@, Json::Number(l.min_uniform_buffer_offset_alignment as u64)),
        limit_fields(l)[25] == ("minStorageBufferOffsetAlignment"@, Json::Number(l.min_storage_buffer_offset_alignment as u64)),
        limit_fields(l)[26] == ("maxColorAttachments"@, Json::Number(l.max_color_attachments as u64)),
        limit_fields(l)[27] == ("maxColorAttachmentBytesPerSample"@, Json::Number(l.max_color_attachment_bytes_per_sample as u64)),
        limit_fields(l)[28] == ("maxComputeWorkgroupStorageSize"@, Json::Number(l.max_compute_workgroup_storage_size as u64)),
        limit_fields(l)[29] == ("maxComputeInvocationsPerWorkgroup"@, Json::Number(l.max_compute_invocations_per_workgroup as u64)),
        limit_fields(l)[30] == ("maxComputeWorkgroupSizeX"@, Json::Number(l.max_compute_workgroup_size_x as u64)),
        limit_fields(l)[31] == ("maxComputeWorkgroupSizeY"@, Json::Number(l.max_compute_workgroup_size_y as u64)),
        limit_fields(l)[32] == ("maxComputeWorkgroupSizeZ"@, Json::Number(l.max_compute_workgroup_size_z as u64)),
        limit_fields(l)[33] == ("maxComputeWorkgroupsPerDimension"@, Json::Number(l.max_compute_workgroups_per_dimension as u64)),
        limit_fields(l)[34] == ("maxImmediateSize"@, Json::Number(l.max_immediate_size as u64)),
        limit_fields(l)[35] == ("maxNonSamplerBindings"@, Json::Number(l.max_non_sampler_bindings as u64)),
        limit_fields(l)[36] == ("maxTaskWorkgroupTotalCount"@, Json::Number(l.max_task_workgroup_total_count as u64)),
        limit_fields(l)[37] == ("maxTaskWorkgroupsPerDimension"@, Json::Number(l.max_task_workgroups_per_dimension as u64)),
        limit_fields(l)[38] == ("maxMeshWorkgroupTotalCount"@, Json::Number(l.max_mesh_workgroup_total_count as u64)),
        limit_fields(l)[39] == ("maxMeshWorkgroupsPerDimension"@, Json::Number(l.max_mesh_workgroups_per_dimension as u64)),
        limit_fields(l)[40] == ("maxTaskInvocationsPerWorkgroup"@, Json::Number(l.max_task_invocations_per_workgroup as u64)),
        limit_fields(l)[41] == ("maxTaskInvocationsPerDimension"@, Json::Number(l.max_task_invocations_per_dimension as u64)),
        limit_fields(l)[42] == ("maxMeshInvocationsPerWorkgroup"@, Json::Number(l.max_mesh_invocations_per_workgroup as u64)),
        limit_fields(l)[43] == ("maxMeshInvocationsPerDimension"@, Json::Number(l.max_mesh_invocations_per_dimension as u64)),
        limit_fields(l)[44] == ("maxTaskPayloadSize"@, Json::Number(l.max_task_payload_size as u64)),
        limit_fields(l)[45] == ("maxMeshOutputVertices"@, Json::Number(l.max_mesh_output_vertices as u64)),
        limit_fields(l)[46] == ("maxMeshOutputPrimitives"@, Json::Number(l.max_mesh_output_primitives as u64)),
        limit_fields(l)[47] == ("maxMeshOutputLayers"@, Json::Number(l.max_mesh_output_layers as u64)),
        limit_fields(l)[48] == ("maxMeshMultiviewViewCount"@, Json::Number(l.max_mesh_multiview_view_count as u64)),
        limit_fields(l)[49] == ("maxBlasPrimitiveCount"@, Json::Number(l.max_blas_primitive_count as u64)),
        limit_fields(l)[50] == ("maxBlasGeometryCount"@, Json::Number(l.max_blas_geometry_count as u64)),
        limit_fields(l)[51] == ("maxTlasInstanceCount"@, Json::Number(l.max_tlas_instance_count as u64)),
        limit_fields(l)[52] == ("maxAccelerationStructuresPerShaderStage"@, Json::Number(l.max_acceleration_structures_per_shader_stage as u64)),
        limit_fields(l)[53] == ("maxBuffersAndAccelerationStructuresPerShaderStage"@, Json::Number(l.max_buffers_and_acceleration_structures_per_shader_stage as u64)),
        limit_fields(l)[54] == ("maxMultiviewViewCount"@, Json::Number(l.max_multiview_view_count as u64)),
        limit_fields(l)[55] == ("maxRayDispatchCount"@, Json::Number(l.max_ray_dispatch_count as u64)),
        limit_fields(l)[56] == ("maxRayRecursionDepth"@, Json::Number(l.max_ray_recursion_depth as u64)),
{
}

proof fn lemma_limit_listed(l: Limits, i: int, name: Seq<char>, n: u64)
    requires
        0 <= i < 57,
        limit_fields(l)[i] == (name, Json::Number(n)),
    ensures
        limit_pairs(l).contains((name, decimal(n as nat))),
{
    law_every_limit_is_listed(l);
    assert(limit_pairs(l).contains((limit_fields(l)[i].0, json_text(limit_fields(l)[i].1))));
}

/// Every limit is listed under its own name with its own value.
pub proof fn law_limits_by_name(l: Limits)
    ensures
        limit_pairs(l).contains(
            ("maxTextureDimension1D"@, decimal(l.max_texture_dimension_1d as nat)),
        ),
        limit_pairs(l).contains(
            ("maxTextureDimension2D"@, decimal(l.max_texture_dimension_2d as nat)),
        ),
        limit_pairs(l).contains(
            ("maxTextureDimension3D"@, decimal(l.max_texture_dimension_3d as nat)),
        ),
        limit_pairs(l).contains(
            ("maxTextureArrayLayers"@, decimal(l.max_texture_array_layers as nat)),
        ),
        limit_pairs(l).contains(
            ("maxBindGroups"@, decimal(l.max_bind_groups as nat)),
        ),
        limit_pairs(l).contains(
            ("maxBindGroupsPlusVertexBuffers"@, decimal(l.max_bind_groups_plus_vertex_buffers as nat)),
        ),
        limit_pairs(l).contains(
            ("maxBindingsPerBindGroup"@, decimal(l.max_bindings_per_bind_group as nat)),
        ),
        limit_pairs(l).contains(
            ("maxDynamicUniformBuffersPerPipelineLayout"@, decimal(l.max_dynamic_uniform_buffers_per_pipeline_layout as nat)),
        ),
        limit_pairs(l).contains(
            ("maxDynamicStorageBuffersPerPipelineLayout"@, decimal(l.max_dynamic_storage_buffers_per_pipeline_layout as nat)),
        ),
        limit_pairs(l).contains(
            ("maxSampledTexturesPerShaderStage"@, decimal(l.max_sampled_textures_per_shader_stage as nat)),
        ),
        limit_pairs(l).contains(
            ("maxSamplersPerShaderStage"@, decimal(l.max_samplers_per_shader_stage as nat)),
        ),
        limit_pairs(l).contains(
            ("maxStorageBuffersPerShaderStage"@, decimal(l.max_storage_buffers_per_shader_stage as nat)),
        ),
        limit_pairs(l).contains(
            ("maxStorageTexturesPerShaderStage"@, decimal(l.max_storage_textures_per_shader_stage as nat)),
        ),
        limit_pairs(l).contains(
            ("maxUniformBuffersPerShaderStage"@, decimal(l.max_uniform_buffers_per_shader_stage as nat)),
        ),
        limit_pairs(l).contains(
            ("maxBindingArrayElementsPerShaderStage"@, decimal(l.max_binding_array_elements_per_shader_stage as nat)),
        ),
        limit_pairs(l).contains(
            ("maxBindingArrayAccelerationStructureElementsPerShaderStage"@, decimal(l.max_binding_array_acceleration_structure_elements_per_shader_stage as nat)),
        ),
        limit_pairs(l).contains(
            ("maxBindingArraySamplerElementsPerShaderStage"@, decimal(l.max_binding_array_sampler_elements_per_shader_stage as nat)),
        ),
        limit_pairs(l).contains(
            ("maxUniformBufferBindingSize"@, decimal(l.max_uniform_buffer_binding_size as nat)),
        ),
        limit_pairs(l).contains(
            ("maxStorageBufferBindingSize"@, decimal(l.max_storage_buffer_binding_size as nat)),
        ),
        limit_pairs(l).contains(
            ("maxVertexBuffers"@, decimal(l.max_vertex_buffers as nat)),
        ),
        limit_pairs(l).contains(
            ("maxBufferSize"@, decimal(l.max_buffer_size as nat)),
        ),
        limit_pairs(l).contains(
            ("maxVertexAttributes"@, decimal(l.max_vertex_attributes as nat)),
        ),
        limit_pairs(l).contains(
            ("maxVertexBufferArrayStride"@, decimal(l.max_vertex_buffer_array_stride as nat)),
        ),
        limit_pairs(l).contains(
            ("maxInterStageShaderVariables"@, decimal(l.max_inter_stage_shader_variables as nat)),
        ),
        limit_pairs(l).contains(
            ("minUniformBufferOffsetAlignment"@, decimal(l.min_uniform_buffer_offset_alignment as nat)),
        ),
        limit_pairs(l).contains(
            ("minStorageBufferOffsetAlignment"@, decimal(l.min_storage_buffer_offset_alignment as nat)),
        ),
        limit_pairs(l).contains(
            ("maxColorAttachments"@, decimal(l.max_color_attachments as nat)),
        ),
        limit_pairs(l).contains(
            ("maxColorAttachmentBytesPerSample"@, decimal(l.max_color_attachment_bytes_per_sample as nat)),
        ),
        limit_pairs(l).contains(
            ("maxComputeWorkgroupStorageSize"@, decimal(l.max_compute_workgroup_storage_size as nat)),
        ),
        limit_pairs(l).contains(
            ("maxComputeInvocationsPerWorkgroup"@, decimal(l.max_compute_invocations_per_workgroup as nat)),
        ),
        limit_pairs(l).contains(
            ("maxComputeWorkgroupSizeX"@, decimal(l.max_compute_workgroup_size_x as nat)),
        ),
        limit_pairs(l).contains(
            ("maxComputeWorkgroupSizeY"@, decimal(l.max_compute_workgroup_size_y as nat)),
        ),
        limit_pairs(l).contains(
            ("maxComputeWorkgroupSizeZ"@, decimal(l.max_compute_workgroup_size_z as nat)),
        ),
        limit_pairs(l).contains(
            ("maxComputeWorkgroupsPerDimension"@, decimal(l.max_compute_workgroups_per_dimension as nat)),
        ),
        limit_pairs(l).contains(
            ("maxImmediateSize"@, decimal(l.max_immediate_size as nat)),
        ),
        limit_pairs(l).contains(
            ("maxNonSamplerBindings"@, decimal(l.max_non_sampler_bindings as nat)),
        ),
        limit_pairs(l).contains(
            ("maxTaskWorkgroupTotalCount"@, decimal(l.max_task_workgroup_total_count as nat)),
        ),
        limit_pairs(l).contains(
            ("maxTaskWorkgroupsPerDimension"@, decimal(l.max_task_workgroups_per_dimension as nat)),
        ),
        limit_pairs(l).contains(
            ("maxMeshWorkgroupTotalCount"@, decimal(l.max_mesh_workgroup_total_count as nat)),
        ),
        limit_pairs(l).contains(
            ("maxMeshWorkgroupsPerDimension"@, decimal(l.max_mesh_workgroups_per_dimension as nat)),
        ),
        limit_pairs(l).contains(
            ("maxTaskInvocationsPerWorkgroup"@, decimal(l.max_task_invocations_per_workgroup as nat)),
        ),
        limit_pairs(l).contains(
            ("maxTaskInvocationsPerDimension"@, decimal(l.max_task_invocations_per_dimension as nat)),
        ),
        limit_pairs(l).contains(
            ("maxMeshInvocationsPerWorkgroup"@, decimal(l.max_mesh_invocations_per_workgroup as nat)),
        ),
        limit_pairs(l).contains(
            ("maxMeshInvocationsPerDimension"@, decimal(l.max_mesh_invocations_per_dimension as nat)),
        ),
        limit_pairs(l).contains(
            ("maxTaskPayloadSize"@, decimal(l.max_task_payload_size as nat)),
        ),
        limit_pairs(l).contains(
            ("maxMeshOutputVertices"@, decimal(l.max_mesh_output_vertices as nat)),
        ),
        limit_pairs(l).contains(
            ("maxMeshOutputPrimitives"@, decimal(l.max_mesh_output_primitives as nat)),
        ),
        limit_pairs(l).contains(
            ("maxMeshOutputLayers"@, decimal(l.max_mesh_output_layers as nat)),
        ),
        limit_pairs(l).contains(
            ("maxMeshMultiviewViewCount"@, decimal(l.max_mesh_multiview_view_count as nat)),
        ),
        limit_pairs(l).contains(
            ("maxBlasPrimitiveCount"@, decimal(l.max_blas_primitive_count as nat)),
        ),
        limit_pairs(l).contains(
            ("maxBlasGeometryCount"@, decimal(l.max_blas_geometry_count as nat)),
        ),
        limit_pairs(l).contains(
            ("maxTlasInstanceCount"@, decimal(l.max_tlas_instance_count as nat)),
        ),
        limit_pairs(l).contains(
            ("maxAccelerationStructuresPerShaderStage"@, decimal(l.max_acceleration_structures_per_shader_stage as nat)),
        ),
        limit_pairs(l).contains(
            ("maxBuffersAndAccelerationStructuresPerShaderStage"@, decimal(l.max_buffers_and_acceleration_structures_per_shader_stage as nat)),
        ),
        limit_pairs(l).contains(
            ("maxMultiviewViewCount"@, decimal(l.max_multiview_view_count as nat)),
        ),
        limit_pairs(l).contains(
            ("maxRayDispatchCount"@, decimal(l.max_ray_dispatch_count as nat)),
        ),
        limit_pairs(l).contains(
            ("maxRayRecursionDepth"@, decimal(l.max_ray_recursion_depth as nat)),
        ),
{
    lemma_limits_by_place(l);
    lemma_limit_listed(l, 0, "maxTextureDimension1D"@, l.max_texture_dimension_1d as u64);
    lemma_limit_listed(l, 1, "maxTextureDimension2D"@, l.max_texture_dimension_2d as u64);
    lemma_limit_listed(l, 2, "maxTextureDimension3D"@, l.max_texture_dimension_3d as u64);
    lemma_limit_listed(l, 3, "maxTextureArrayLayers"@, l.max_texture_array_layers as u64);
    lemma_limit_listed(l, 4, "maxBindGroups"@, l.max_bind_groups as u64);
    lemma_limit_listed(l, 5, "maxBindGroupsPlusVertexBuffers"@, l.max_bind_groups_plus_vertex_buffers as u64);
    lemma_limit_listed(l, 6, "maxBindingsPerBindGroup"@, l.max_bindings_per_bind_group as u64);
    lemma_limit_listed(l, 7, "maxDynamicUniformBuffersPerPipelineLayout"@, l.max_dynamic_uniform_buffers_per_pipeline_layout as u64);
    lemma_limit_listed(l, 8, "maxDynamicStorageBuffersPerPipelineLayout"@, l.max_dynamic_storage_buffers_per_pipeline_layout as u64);
    lemma_limit_listed(l, 9, "maxSampledTexturesPerShaderStage"@, l.max_sampled_textures_per_shader_stage as u64);
    lemma_limit_listed(l, 10, "maxSamplersPerShaderStage"@, l.max_samplers_per_shader_stage as u64);
    lemma_limit_listed(l, 11, "maxStorageBuffersPerShaderStage"@, l.max_storage_buffers_per_shader_stage as u64);
    lemma_limit_listed(l, 12, "maxStorageTexturesPerShaderStage"@, l.max_storage_textures_per_shader_stage as u64);
    lemma_limit_listed(l, 13, "maxUniformBuffersPerShaderStage"@, l.max_uniform_buffers_per_shader_stage as u64);
    lemma_limit_listed(l, 14, "maxBindingArrayElementsPerShaderStage"@, l.max_binding_array_elements_per_shader_stage as u64);
    lemma_limit_listed(l, 15, "maxBindingArrayAccelerationStructureElementsPerShaderStage"@, l.max_binding_array_acceleration_structure_elements_per_shader_stage as u64);
    lemma_limit_listed(l, 16, "maxBindingArraySamplerElementsPerShaderStage"@, l.max_binding_array_sampler_elements_per_shader_stage as u64);
    lemma_limit_listed(l, 17, "maxUniformBufferBindingSize"@, l.max_uniform_buffer_binding_size);
    lemma_limit_listed(l, 18, "maxStorageBufferBindingSize"@, l.max_storage_buffer_binding_size);
    lemma_limit_listed(l, 19, "maxVertexBuffers"@, l.max_vertex_buffers as u64);
    lemma_limit_listed(l, 20, "maxBufferSize"@, l.max_buffer_size);
    lemma_limit_listed(l, 21, "maxVertexAttributes"@, l.max_vertex_attributes as u64);
    lemma_limit_listed(l, 22, "maxVertexBufferArrayStride"@, l.max_vertex_buffer_array_stride as u64);
    lemma_limit_listed(l, 23, "maxInterStageShaderVariables"@, l.max_inter_stage_shader_variables as u64);
    lemma_limit_listed(l, 24, "minUniformBufferOffsetAlignment"@, l.min_uniform_buffer_offset_alignment as u64);
    lemma_limit_listed(l, 25, "minStorageBufferOffsetAlignment"@, l.min_storage_buffer_offset_alignment as u64);
    lemma_limit_listed(l, 26, "maxColorAttachments"@, l.max_color_attachments as u64);
    lemma_limit_listed(l, 27, "maxColorAttachmentBytesPerSample"@, l.max_color_attachment_bytes_per_sample as u64);
    lemma_limit_listed(l, 28, "maxComputeWorkgroupStorageSize"@, l.max_compute_workgroup_storage_size as u64);
    lemma_limit_listed(l, 29, "maxComputeInvocationsPerWorkgroup"@, l.max_compute_invocations_per_workgroup as u64);
    lemma_limit_listed(l, 30, "maxComputeWorkgroupSizeX"@, l.max_compute_workgroup_size_x as u64);
    lemma_limit_listed(l, 31, "maxComputeWorkgroupSizeY"@, l.max_compute_workgroup_size_y as u64);
    lemma_limit_listed(l, 32, "maxComputeWorkgroupSizeZ"@, l.max_compute_workgroup_size_z as u64);
    lemma_limit_listed(l, 33, "maxComputeWorkgroupsPerDimension"@, l.max_compute_workgroups_per_dimension as u64);
    lemma_limit_listed(l, 34, "maxImmediateSize"@, l.max_immediate_size as u64);
    lemma_limit_listed(l, 35, "maxNonSamplerBindings"@, l.max_non_sampler_bindings as u64);
    lemma_limit_listed(l, 36, "maxTaskWorkgroupTotalCount"@, l.max_task_workgroup_total_count as u64);
    lemma_limit_listed(l, 37, "maxTaskWorkgroupsPerDimension"@, l.max_task_workgroups_per_dimension as u64);
    lemma_limit_listed(l, 38, "maxMeshWorkgroupTotalCount"@, l.max_mesh_workgroup_total_count as u64);
    lemma_limit_listed(l, 39, "maxMeshWorkgroupsPerDimension"@, l.max_mesh_workgroups_per_dimension as u64);
    lemma_limit_listed(l, 40, "maxTaskInvocationsPerWorkgroup"@, l.max_task_invocations_per_workgroup as u64);
    lemma_limit_listed(l, 41, "maxTaskInvocationsPerDimension"@, l.max_task_invocations_per_dimension as u64);
    lemma_limit_listed(l, 42, "maxMeshInvocationsPerWorkgroup"@, l.max_mesh_invocations_per_workgroup as u64);
    lemma_limit_listed(l, 43, "maxMeshInvocationsPerDimension"@, l.max_mesh_invocations_per_dimension as u64);
    lemma_limit_listed(l, 44, "maxTaskPayloadSize"@, l.max_task_payload_size as u64);
    lemma_limit_listed(l, 45, "maxMeshOutputVertices"@, l.max_mesh_output_vertices as u64);
    lemma_limit_listed(l, 46, "maxMeshOutputPrimitives"@, l.max_mesh_output_primitives as u64);
    lemma_limit_listed(l, 47, "maxMeshOutputLayers"@, l.max_mesh_output_layers as u64);
    lemma_limit_listed(l, 48, "maxMeshMultiviewViewCount"@, l.max_mesh_multiview_view_count as u64);
    lemma_limit_listed(l, 49, "maxBlasPrimitiveCount"@, l.max_blas_primitive_count as u64);
    lemma_limit_listed(l, 50, "maxBlasGeometryCount"@, l.max_blas_geometry_count as u64);
    lemma_limit_listed(l, 51, "maxTlasInstanceCount"@, l.max_tlas_instance_count as u64);
    lemma_limit_listed(l, 52, "maxAccelerationStructuresPerShaderStage"@, l.max_acceleration_structures_per_shader_stage as u64);
    lemma_limit_listed(l, 53, "maxBuffersAndAccelerationStructuresPerShaderStage"@, l.max_buffers_and_acceleration_structures_per_shader_stage as u64);
    lemma_limit_listed(l, 54, "maxMultiviewViewCount"@, l.max_multiview_view_count as u64);
    lemma_limit_listed(l, 55, "maxRayDispatchCount"@, l.max_ray_dispatch_count as u64);
    lemma_limit_listed(l, 56, "maxRayRecursionDepth"@, l.max_ray_recursion_depth as u64);
}

/// The JSON form of limits has every limit under its own name with its own value.
pub proof fn law_limits_json_by_name(l: Limits)
    ensures
        l.json() is Object,
        l.json()->Object_0.len() == 57,
        l.json()->Object_0.contains(
            ("maxTextureDimension1D"@, Json::Number(l.max_texture_dimension_1d as u64)),
        ),
        l.json()->Object_0.contains(
            ("maxTextureDimension2D"@, Json::Number(l.max_texture_dimension_2d as u64)),
        ),
        l.json()->Object_0.contains(
            ("maxTextureDimension3D"@, Json::Number(l.max_texture_dimension_3d as u64)),
        ),
        l.json()->Object_0.contains(
            ("maxTextureArrayLayers"@, Json::Number(l.max_texture_array_layers as u64)),
        ),
        l.json()->Object_0.contains(
            ("maxBindGroups"@, Json::Number(l.max_bind_groups as u64)),
        ),
        l.json()->Object_0.contains(
            ("maxBindGroupsPlusVertexBuffers"@, Json::Number(l.max_bind_groups_plus_vertex_buffers as u64)),
        ),
        l.json()->Object_0.contains(
            ("maxBindingsPerBindGroup"@, Json::Number(l.max_bindings_per_bind_group as u64)),
        ),
        l.json()->Object_0.contains(
            ("maxDynamicUniformBuffersPerPipelineLayout"@, Json::Number(l.max_dynamic_uniform_buffers_per_pipeline_layout as u64)),
        ),
        l.json()->Object_0.contains(
            ("maxDynamicStorageBuffersPerPipelineLayout"@, Json::Number(l.max_dynamic_storage_buffers_per_pipeline_layout as u64)),
        ),
        l.json()->Object_0.contains(
            ("maxSampledTexturesPerShaderStage"@, Json::Number(l.max_sampled_textures_per_shader_stage as u64)),
        ),
        l.json()->Object_0.contains(
            ("maxSamplersPerShaderStage"@, Json::Number(l.max_samplers_per_shader_stage as u64)),
        ),
        l.json()->Object_0.contains(
            ("maxStorageBuffersPerShaderStage"@, Json::Number(l.max_storage_buffers_per_shader_stage as u64)),
        ),
        l.json()->Object_0.contains(
            ("maxStorageTexturesPerShaderStage"@, Json::Number(l.max_storage_textures_per_shader_stage as u64)),
        ),
        l.json()->Object_0.contains(
            ("maxUniformBuffersPerShaderStage"@, Json::Number(l.max_uniform_buffers_per_shader_stage as u64)),
        ),
        l.json()->Object_0.contains(
            ("maxBindingArrayElementsPerShaderStage"@, Json::Number(l.max_binding_array_elements_per_shader_stage as u64)),
        ),
        l.json()->Object_0.contains(
            ("maxBindingArrayAccelerationStructureElementsPerShaderStage"@, Json::Number(l.max_binding_array_acceleration_structure_elements_per_shader_stage as u64)),
        ),
        l.json()->Object_0.contains(
            ("maxBindingArraySamplerElementsPerShaderStage"@, Json::Number(l.max_binding_array_sampler_elements_per_shader_stage as u64)),
        ),
        l.json()->Object_0.contains(
            ("maxUniformBufferBindingSize"@, Json::Number(l.max_uniform_buffer_binding_size)),
        ),
        l.json()->Object_0.contains(
            ("maxStorageBufferBindingSize"@, Json::Number(l.max_storage_buffer_binding_size)),
        ),
        l.json()->Object_0.contains(
            ("maxVertexBuffers"@, Json::Number(l.max_vertex_buffers as u64)),
        ),
        l.json()->Object_0.contains(
            ("maxBufferSize"@, Json::Number(l.max_buffer_size)),
        ),
        l.json()->Object_0.contains(
            ("maxVertexAttributes"@, Json::Number(l.max_vertex_attributes as u64)),
        ),
        l.json()->Object_0.contains(
            ("maxVertexBufferArrayStride"@, Json::Number(l.max_vertex_buffer_array_stride as u64)),
        ),
        l.json()->Object_0.contains(
            ("maxInterStageShaderVariables"@, Json::Number(l.max_inter_stage_shader_variables as u64)),
        ),
        l.json()->Object_0.contains(
            ("minUniformBufferOffsetAlignment"@, Json::Number(l.min_uniform_buffer_offset_alignment as u64)),
        ),
        l.json()->Object_0.contains(
            ("minStorageBufferOffsetAlignment"@, Json::Number(l.min_storage_buffer_offset_alignment as u64)),
        ),
        l.json()->Object_0.contains(
            ("maxColorAttachments"@, Json::Number(l.max_color_attachments as u64)),
        ),
        l.json()->Object_0.contains(
            ("maxColorAttachmentBytesPerSample"@, Json::Number(l.max_color_attachment_bytes_per_sample as u64)),
        ),
        l.json()->Object_0.contains(
            ("maxComputeWorkgroupStorageSize"@, Json::Number(l.max_compute_workgroup_storage_size as u64)),
        ),
        l.json()->Object_0.contains(
            ("maxComputeInvocationsPerWorkgroup"@, Json::Number(l.max_compute_invocations_per_workgroup as u64)),
        ),
        l.json()->Object_0.contains(
            ("maxComputeWorkgroupSizeX"@, Json::Number(l.max_compute_workgroup_size_x as u64)),
        ),
        l.json()->Object_0.contains(
            ("maxComputeWorkgroupSizeY"@, Json::Number(l.max_compute_workgroup_size_y as u64)),
        ),
        l.json()->Object_0.contains(
            ("maxComputeWorkgroupSizeZ"@, Json::Number(l.max_compute_workgroup_size_z as u64)),
        ),
        l.json()->Object_0.contains(
            ("maxComputeWorkgroupsPerDimension"@, Json::Number(l.max_compute_workgroups_per_dimension as u64)),
        ),
        l.json()->Object_0.contains(
            ("maxImmediateSize"@, Json::Number(l.max_immediate_size as u64)),
        ),
        l.json()->Object_0.contains(
            ("maxNonSamplerBindings"@, Json::Number(l.max_non_sampler_bindings as u64)),
        ),
        l.json()->Object_0.contains(
            ("maxTaskWorkgroupTotalCount"@, Json::Number(l.max_task_workgroup_total_count as u64)),
        ),
        l.json()->Object_0.contains(
            ("maxTaskWorkgroupsPerDimension"@, Json::Number(l.max_task_workgroups_per_dimension as u64)),
        ),
        l.json()->Object_0.contains(
            ("maxMeshWorkgroupTotalCount"@, Json::Number(l.max_mesh_workgroup_total_count as u64)),
        ),
        l.json()->Object_0.contains(
            ("maxMeshWorkgroupsPerDimension"@, Json::Number(l.max_mesh_workgroups_per_dimension as u64)),
        ),
        l.json()->Object_0.contains(
            ("maxTaskInvocationsPerWorkgroup"@, Json::Number(l.max_task_invocations_per_workgroup as u64)),
        ),
        l.json()->Object_0.contains(
            ("maxTaskInvocationsPerDimension"@, Json::Number(l.max_task_invocations_per_dimension as u64)),
        ),
        l.json()->Object_0.contains(
            ("maxMeshInvocationsPerWorkgroup"@, Json::Number(l.max_mesh_invocations_per_workgroup as u64)),
        ),
        l.json()->Object_0.contains(
            ("maxMeshInvocationsPerDimension"@, Json::Number(l.max_mesh_invocations_per_dimension as u64)),
        ),
        l.json()->Object_0.contains(
            ("maxTaskPayloadSize"@, Json::Number(l.max_task_payload_size as u64)),
        ),
        l.json()->Object_0.contains(
            ("maxMeshOutputVertices"@, Json::Number(l.max_mesh_output_vertices as u64)),
        ),
        l.json()->Object_0.contains(
            ("maxMeshOutputPrimitives"@, Json::Number(l.max_mesh_output_primitives as u64)),
        ),
        l.json()->Object_0.contains(
            ("maxMeshOutputLayers"@, Json::Number(l.max_mesh_output_layers as u64)),
        ),
        l.json()->Object_0.contains(
            ("maxMeshMultiviewViewCount"@, Json::Number(l.max_mesh_multiview_view_count as u64)),
        ),
        l.json()->Object_0.contains(
            ("maxBlasPrimitiveCount"@, Json::Number(l.max_blas_primitive_count as u64)),
        ),
        l.json()->Object_0.contains(
            ("maxBlasGeometryCount"@, Json::Number(l.max_blas_geometry_count as u64)),
        ),
        l.json()->Object_0.contains(
            ("maxTlasInstanceCount"@, Json::Number(l.max_tlas_instance_count as u64)),
        ),
        l.json()->Object_0.contains(
            ("maxAccelerationStructuresPerShaderStage"@, Json::Number(l.max_acceleration_structures_per_shader_stage as u64)),
        ),
        l.json()->Object_0.contains(
            ("maxBuffersAndAccelerationStructuresPerShaderStage"@, Json::Number(l.max_buffers_and_acceleration_structures_per_shader_stage as u64)),
        ),
        l.json()->Object_0.contains(
            ("maxMultiviewViewCount"@, Json::Number(l.max_multiview_view_count as u64)),
        ),
        l.json()->Object_0.contains(
            ("maxRayDispatchCount"@, Json::Number(l.max_ray_dispatch_count as u64)),
        ),
        l.json()->Object_0.contains(
            ("maxRayRecursionDepth"@, Json::Number(l.max_ray_recursion_depth as u64)),
        ),
{
    let given = limit_fields(l);
    law_every_limit_is_listed(l);
    lemma_limit_names_are_distinct(l);
    law_object_keeps_distinct_fields(given);
    lemma_every_field_stays(given);
    lemma_limits_by_place(l);
}

/// The view of pairs tells all that they hold.
pub proof fn law_pair_views(v: Seq<(String, String)>, i: int)
    requires
        0 <= i < v.len(),
    ensures
        pairs_view(v).len() == v.len(),
        pairs_view(v)[i] == (v[i].0@, v[i].1@),
{
}

} // verus!
