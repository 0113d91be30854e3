//! The shader that draws every quad.

use vstd::prelude::*;

verus! {

/// The shader's source, in WGSL.
///
/// Each instance is a quad of two triangles whose corners come from the vertex index.
/// A textured quad samples the atlas between the two corners in `uv`. The shape holds
/// the radius of the flagged corners, how far the quad is turned about its center, in
/// radians, and the width of its outline, where only that is drawn. The flags must agree
/// with the ones of the instance module.
pub const CELL: &'static str =
    "struct Uniforms {
    screen: vec2<f32>,
    padding: vec2<f32>,
};

@group(0) @binding(0) var<uniform> uniforms: Uniforms;
@group(0) @binding(1) var atlas: texture_2d<f32>;
@group(0) @binding(2) var atlas_sampler: sampler;

const FLAG_TEXTURED: u32 = 1u;
const FLAG_COLOR_GLYPH: u32 = 2u;
const FLAG_ROUND_TOP: u32 = 4u;
const FLAG_ROUND_BOTTOM: u32 = 8u;
const FLAG_ROUND_TL: u32 = 16u;
const FLAG_ROUND_TR: u32 = 32u;

struct Instance {
    @location(0) position: vec2<f32>,
    @location(1) size: vec2<f32>,
    @location(2) uv: vec4<f32>,
    @location(3) color: vec4<f32>,
    @location(4) flags: u32,
    @location(5) shape: vec3<f32>,
};

struct Varying {
    @builtin(position) clip: vec4<f32>,
    @location(0) uv: vec2<f32>,
    @location(1) color: vec4<f32>,
    @location(2) local: vec2<f32>,
    @location(3) @interpolate(flat) size: vec2<f32>,
    @location(4) @interpolate(flat) flags: u32,
    @location(5) @interpolate(flat) radius: f32,
    @location(6) @interpolate(flat) outline: f32,
};

@vertex
fn vs_main(@builtin(vertex_index) vertex: u32, instance: Instance) -> Varying {
    var corners = array<vec2<f32>, 6>(
        vec2<f32>(0.0, 0.0),
        vec2<f32>(1.0, 0.0),
        vec2<f32>(0.0, 1.0),
        vec2<f32>(0.0, 1.0),
        vec2<f32>(1.0, 0.0),
        vec2<f32>(1.0, 1.0),
    );
    let corner = corners[vertex];
    let arm = (corner - vec2<f32>(0.5)) * instance.size;
    let c = cos(instance.shape.y);
    let s = sin(instance.shape.y);
    let turned = vec2<f32>(arm.x * c - arm.y * s, arm.x * s + arm.y * c);
    let pixel = instance.position + instance.size * 0.5 + turned;
    let unit = pixel / uniforms.screen;

    var out: Varying;
    out.clip = vec4<f32>(unit.x * 2.0 - 1.0, 1.0 - unit.y * 2.0, 0.0, 1.0);
    out.uv = mix(instance.uv.xy, instance.uv.zw, corner);
    out.color = instance.color;
    out.local = corner * instance.size;
    out.size = instance.size;
    out.flags = instance.flags;
    out.radius = instance.shape.x;
    out.outline = instance.shape.z;
    return out;
}

fn coverage(in: Varying) -> f32 {
    let top = in.local.y < in.size.y * 0.5;
    let left = in.local.x < in.size.x * 0.5;
    let above = FLAG_ROUND_TOP | select(FLAG_ROUND_TR, FLAG_ROUND_TL, left);
    let rounded = (in.flags & select(FLAG_ROUND_BOTTOM, above, top)) != 0u;
    let radius = select(0.0, in.radius, rounded);
    let half_size = in.size * 0.5;
    let inner = abs(in.local - half_size) - half_size + vec2<f32>(radius);
    let outside = length(max(inner, vec2<f32>(0.0))) + min(max(inner.x, inner.y), 0.0) - radius;
    var cover = 1.0;
    if (radius > 0.0) {
        cover = clamp(0.5 - outside, 0.0, 1.0);
    }
    if (in.outline > 0.0) {
        cover = cover * clamp(outside + in.outline + 0.5, 0.0, 1.0);
    }
    return cover;
}

@fragment
fn fs_main(in: Varying) -> @location(0) vec4<f32> {
    if ((in.flags & FLAG_TEXTURED) == 0u) {
        return vec4<f32>(in.color.rgb, in.color.a * coverage(in));
    }
    let texel = textureSampleLevel(atlas, atlas_sampler, in.uv, 0.0);
    if ((in.flags & FLAG_COLOR_GLYPH) != 0u) {
        return texel;
    }
    return vec4<f32>(in.color.rgb, in.color.a * texel.a);
}
";

} // verus!
