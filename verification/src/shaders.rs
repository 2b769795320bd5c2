//! WGSL shader sources for the renderer and the id-buffer picking pass.

use vstd::prelude::*;

verus! {

/// The scene shader: camera and lighting uniforms, per-instance model
/// matrix, color and highlight flags.
pub fn cube_shader_source() -> (r: String)
    ensures
        r@.len() > 0,
{
    let s = "struct Camera { view_proj: mat4x4<f32> };\n@group(0) @binding(0) var<uniform> camera: Camera;\nstruct Lighting { sun_direction: vec4<f32>, sun_color: vec4<f32>, horizon_color: vec4<f32> };\n@group(1) @binding(0) var<uniform> lighting: Lighting;\nstruct VsIn { @location(0) position: vec3<f32>, @location(1) normal: vec3<f32>, @location(2) m0: vec4<f32>, @location(3) m1: vec4<f32>, @location(4) m2: vec4<f32>, @location(5) m3: vec4<f32>, @location(6) color: vec4<f32>, @location(7) flags: u32 };\nstruct VsOut { @builtin(position) clip: vec4<f32>, @location(0) normal: vec3<f32>, @location(1) color: vec4<f32>, @location(2) flags: u32 };\n@vertex fn vs_main(in: VsIn) -> VsOut {\n  let model = mat4x4<f32>(in.m0, in.m1, in.m2, in.m3);\n  var out: VsOut;\n  out.clip = camera.view_proj * model * vec4<f32>(in.position, 1.0);\n  out.normal = (model * vec4<f32>(in.normal, 0.0)).xyz;\n  out.color = in.color;\n  out.flags = in.flags;\n  return out;\n}\n@fragment fn fs_main(in: VsOut) -> @location(0) vec4<f32> {\n  let n = normalize(in.normal);\n  let sun = max(dot(n, -normalize(lighting.sun_direction.xyz)), 0.0) * lighting.sun_direction.w;\n  var color = in.color.rgb * (lighting.sun_color.rgb * sun + lighting.horizon_color.rgb);\n  if ((in.flags & 1u) != 0u) { color = color * 1.4; }\n  if ((in.flags & 2u) != 0u) { color = color * 1.8; }\n  return vec4<f32>(color, in.color.a);\n}\n";
    proof {
        reveal_strlit("struct Camera { view_proj: mat4x4<f32> };\n@group(0) @binding(0) var<uniform> camera: Camera;\nstruct Lighting { sun_direction: vec4<f32>, sun_color: vec4<f32>, horizon_color: vec4<f32> };\n@group(1) @binding(0) var<uniform> lighting: Lighting;\nstruct VsIn { @location(0) position: vec3<f32>, @location(1) normal: vec3<f32>, @location(2) m0: vec4<f32>, @location(3) m1: vec4<f32>, @location(4) m2: vec4<f32>, @location(5) m3: vec4<f32>, @location(6) color: vec4<f32>, @location(7) flags: u32 };\nstruct VsOut { @builtin(position) clip: vec4<f32>, @location(0) normal: vec3<f32>, @location(1) color: vec4<f32>, @location(2) flags: u32 };\n@vertex fn vs_main(in: VsIn) -> VsOut {\n  let model = mat4x4<f32>(in.m0, in.m1, in.m2, in.m3);\n  var out: VsOut;\n  out.clip = camera.view_proj * model * vec4<f32>(in.position, 1.0);\n  out.normal = (model * vec4<f32>(in.normal, 0.0)).xyz;\n  out.color = in.color;\n  out.flags = in.flags;\n  return out;\n}\n@fragment fn fs_main(in: VsOut) -> @location(0) vec4<f32> {\n  let n = normalize(in.normal);\n  let sun = max(dot(n, -normalize(lighting.sun_direction.xyz)), 0.0) * lighting.sun_direction.w;\n  var color = in.color.rgb * (lighting.sun_color.rgb * sun + lighting.horizon_color.rgb);\n  if ((in.flags & 1u) != 0u) { color = color * 1.4; }\n  if ((in.flags & 2u) != 0u) { color = color * 1.8; }\n  return vec4<f32>(color, in.color.a);\n}\n");
    }
    s.to_string()
}

/// The id-buffer picking shader: writes each instance's node id into an
/// offscreen integer target for asynchronous readback.
pub fn picking_shader_source() -> (r: &'static str)
    ensures
        r@.len() > 0,
{
    let s = "struct Camera { view_proj: mat4x4<f32> };\n@group(0) @binding(0) var<uniform> camera: Camera;\nstruct VsIn { @location(0) position: vec3<f32>, @location(2) m0: vec4<f32>, @location(3) m1: vec4<f32>, @location(4) m2: vec4<f32>, @location(5) m3: vec4<f32>, @location(8) node_id: u32 };\nstruct VsOut { @builtin(position) clip: vec4<f32>, @location(0) @interpolate(flat) node_id: u32 };\n@vertex fn vs_main(in: VsIn) -> VsOut {\n  let model = mat4x4<f32>(in.m0, in.m1, in.m2, in.m3);\n  var out: VsOut;\n  out.clip = camera.view_proj * model * vec4<f32>(in.position, 1.0);\n  out.node_id = in.node_id;\n  return out;\n}\n@fragment fn fs_main(in: VsOut) -> @location(0) u32 {\n  return in.node_id + 1u;\n}\n";
    proof {
        reveal_strlit("struct Camera { view_proj: mat4x4<f32> };\n@group(0) @binding(0) var<uniform> camera: Camera;\nstruct VsIn { @location(0) position: vec3<f32>, @location(2) m0: vec4<f32>, @location(3) m1: vec4<f32>, @location(4) m2: vec4<f32>, @location(5) m3: vec4<f32>, @location(8) node_id: u32 };\nstruct VsOut { @builtin(position) clip: vec4<f32>, @location(0) @interpolate(flat) node_id: u32 };\n@vertex fn vs_main(in: VsIn) -> VsOut {\n  let model = mat4x4<f32>(in.m0, in.m1, in.m2, in.m3);\n  var out: VsOut;\n  out.clip = camera.view_proj * model * vec4<f32>(in.position, 1.0);\n  out.node_id = in.node_id;\n  return out;\n}\n@fragment fn fs_main(in: VsOut) -> @location(0) u32 {\n  return in.node_id + 1u;\n}\n");
    }
    s
}

} // verus!
