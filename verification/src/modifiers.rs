//! The rules of an effect, and the shader source each of them stands for.
//!
//! A modifier is one rule of one stage: how a particle starts, how it
//! changes from frame to frame, or how it is drawn. Each gives a fragment of
//! shader source, complete in itself, and declares the one binding that it
//! provides. Two modifiers of one effect may not provide the same binding.

use vstd::prelude::*;
use vstd::string::*;
use crate::blocks::balanced;
use crate::blocks::lemma_closes;
use crate::blocks::lemma_opens;
use crate::blocks::lemma_plain_concat;
use crate::blocks::lemma_plain_runs;
use crate::blocks::lemma_runs_concat;
use crate::blocks::lemma_then_plain;
use crate::blocks::plain;
use crate::blocks::runs;
use crate::format::decimal_text;
use crate::format::lemma_numbers_are_plain;
use crate::format::push_decimal;
use crate::gradient::Gradient;
use crate::gradient::GradientKey;
use crate::gradient::gradient_code;
use crate::gradient::lemma_gradient_code_is_balanced;
use crate::number::Fixed;
use crate::number::Vector3;

verus! {

/// Whether particles start anywhere inside a shape or on its boundary only.
#[derive(Clone, Copy, Debug, PartialEq, Eq, Structural)]
pub enum ShapeDimension {
    /// Anywhere inside the shape.
    Volume,
    /// On the boundary of the shape.
    Surface,
}

/// What a modifier provides to the shader of its stage.
#[derive(Clone, Copy, Debug, PartialEq, Eq, Structural)]
pub enum Binding {
    /// Where a particle starts, and how fast.
    Position,
    /// The acceleration of a particle.
    Acceleration,
    /// The colour of a particle over its lifetime.
    Color,
    /// The size of a particle over its lifetime.
    Size,
    /// The texture a particle is drawn with.
    Texture,
}

/// Starts particles in a sphere, moving away from its centre.
#[derive(Clone, Copy, Debug, PartialEq, Eq, Structural)]
pub struct PositionSphereModifier {
    pub center: Vector3,
    pub radius: Fixed,
    pub dimension: ShapeDimension,
    pub speed: Fixed,
}

/// Starts particles in a circle around an axis, moving away from its centre.
#[derive(Clone, Copy, Debug, PartialEq, Eq, Structural)]
pub struct PositionCircleModifier {
    pub center: Vector3,
    pub axis: Vector3,
    pub radius: Fixed,
    pub dimension: ShapeDimension,
    pub speed: Fixed,
}

/// Accelerates every particle by the same amount.
#[derive(Clone, Copy, Debug, PartialEq, Eq, Structural)]
pub struct AccelModifier {
    pub accel: Vector3,
}

/// Colours a particle by a gradient over its lifetime.
#[derive(Clone, Debug, PartialEq, Eq)]
pub struct ColorOverLifetimeModifier {
    pub gradient: Gradient,
}

/// Sizes a particle by a gradient over its lifetime; the first two
/// components of a value are the width and the height.
#[derive(Clone, Debug, PartialEq, Eq)]
pub struct SizeOverLifetimeModifier {
    pub gradient: Gradient,
}

/// Draws a particle with a texture.
#[derive(Clone, Copy, Debug, PartialEq, Eq, Structural)]
pub struct ParticleTextureModifier {
    /// Identity of the image.
    pub texture: u64,
}

/// A rule of the stage that starts particles.
#[derive(Clone, Copy, Debug, PartialEq, Eq, Structural)]
pub enum InitModifier {
    PositionSphere(PositionSphereModifier),
    PositionCircle(PositionCircleModifier),
}

/// A rule of the stage that changes particles from frame to frame.
#[derive(Clone, Copy, Debug, PartialEq, Eq, Structural)]
pub enum UpdateModifier {
    Accel(AccelModifier),
}

/// A rule of the stage that draws particles.
#[derive(Clone, Debug, PartialEq, Eq)]
pub enum RenderModifier {
    ColorOverLifetime(ColorOverLifetimeModifier),
    SizeOverLifetime(SizeOverLifetimeModifier),
    ParticleTexture(ParticleTextureModifier),
}

/// What a render modifier says, with its gradient as a list of keys.
pub enum RenderModel {
    ColorOverLifetime(Seq<GradientKey>),
    SizeOverLifetime(Seq<GradientKey>),
    ParticleTexture(u64),
}

impl View for RenderModifier {
    type V = RenderModel;

    open spec fn view(&self) -> RenderModel {
        match self {
            RenderModifier::ColorOverLifetime(m) => RenderModel::ColorOverLifetime(m.gradient@),
            RenderModifier::SizeOverLifetime(m) => RenderModel::SizeOverLifetime(m.gradient@),
            RenderModifier::ParticleTexture(m) => RenderModel::ParticleTexture(m.texture),
        }
    }
}

/// The constructor of a vector in generated source.
pub open spec fn vector3_text(v: Vector3) -> Seq<char> {
    "vec3<f32>("@ + decimal_text(v.x@, 6) + ", "@ + decimal_text(v.y@, 6) + ", "@ + decimal_text(
        v.z@,
        6,
    ) + ")"@
}

/// The line that places a particle in a sphere.
pub open spec fn sphere_placement(dimension: ShapeDimension) -> Seq<char> {
    match dimension {
        ShapeDimension::Volume =>
            "        (*particle).position = center + dir * (radius * pow(rand(), 1. / 3.));\n"@,
        ShapeDimension::Surface => "        (*particle).position = center + dir * radius;\n"@,
    }
}

/// The line that places a particle in a circle.
pub open spec fn circle_placement(dimension: ShapeDimension) -> Seq<char> {
    match dimension {
        ShapeDimension::Volume =>
            "        (*particle).position = center + dir * (radius * sqrt(rand()));\n"@,
        ShapeDimension::Surface => "        (*particle).position = center + dir * radius;\n"@,
    }
}

/// The declaration of the vector `name` in a block.
pub open spec fn let_vector(name: Seq<char>, v: Vector3) -> Seq<char> {
    "        let "@ + name + " = "@ + vector3_text(v) + ";\n"@
}

/// The declaration of the number `name` in a block.
pub open spec fn let_number(name: Seq<char>, x: Fixed) -> Seq<char> {
    "        let "@ + name + " = "@ + decimal_text(x@, 6) + ";\n"@
}

/// The block that starts a particle in a sphere.
pub open spec fn sphere_fragment(s: PositionSphereModifier) -> Seq<char> {
    "    {\n"@ + let_vector("center"@, s.center) + let_number("radius"@, s.radius) + let_number(
        "speed"@,
        s.speed,
    ) + "        let dir = random_direction();\n"@ + sphere_placement(s.dimension)
        + "        (*particle).velocity = dir * speed;\n    }\n"@
}

/// The block that starts a particle in a circle.
pub open spec fn circle_fragment(c: PositionCircleModifier) -> Seq<char> {
    "    {\n"@ + let_vector("center"@, c.center) + let_vector("axis"@, c.axis) + let_number(
        "radius"@,
        c.radius,
    ) + let_number("speed"@, c.speed) + "        let dir = random_direction_around(axis);\n"@
        + circle_placement(c.dimension) + "        (*particle).velocity = dir * speed;\n    }\n"@
}

/// The block that accelerates a particle.
pub open spec fn accel_fragment(a: AccelModifier) -> Seq<char> {
    "    {\n"@ + let_vector("accel"@, a.accel)
        + "        (*particle).velocity = (*particle).velocity + accel * dt;\n    }\n"@
}

/// The fragment of an init modifier: one block of the init function.
pub open spec fn init_fragment(m: InitModifier) -> Seq<char> {
    match m {
        InitModifier::PositionSphere(s) => sphere_fragment(s),
        InitModifier::PositionCircle(c) => circle_fragment(c),
    }
}

/// The fragment of an update modifier: one block of the update function.
pub open spec fn update_fragment(m: UpdateModifier) -> Seq<char> {
    match m {
        UpdateModifier::Accel(a) => accel_fragment(a),
    }
}

/// The fragment of a render modifier: one declaration of the render module.
/// A gradient needs a key to have one.
pub open spec fn render_fragment(m: RenderModel) -> Seq<char> {
    match m {
        RenderModel::ColorOverLifetime(keys) => gradient_code("color_over_lifetime"@, keys),
        RenderModel::SizeOverLifetime(keys) => gradient_code("size_over_lifetime"@, keys),
        RenderModel::ParticleTexture(_) =>
            "@group(1) @binding(0) var particle_texture: texture_2d<f32>;\n@group(1) @binding(1) var particle_sampler: sampler;\n"@,
    }
}

/// Whether the modifier has a fragment: a gradient without keys has none.
pub open spec fn render_complete(m: RenderModel) -> bool {
    match m {
        RenderModel::ColorOverLifetime(keys) => keys.len() > 0,
        RenderModel::SizeOverLifetime(keys) => keys.len() > 0,
        RenderModel::ParticleTexture(_) => true,
    }
}

/// The binding an init modifier provides.
pub open spec fn init_binding(m: InitModifier) -> Binding {
    Binding::Position
}

/// The binding an update modifier provides.
pub open spec fn update_binding(m: UpdateModifier) -> Binding {
    Binding::Acceleration
}

/// The binding a render modifier provides.
pub open spec fn render_binding(m: RenderModel) -> Binding {
    match m {
        RenderModel::ColorOverLifetime(_) => Binding::Color,
        RenderModel::SizeOverLifetime(_) => Binding::Size,
        RenderModel::ParticleTexture(_) => Binding::Texture,
    }
}

/// The constructor of a vector opens and closes no block.
pub proof fn lemma_vector3_is_plain(v: Vector3)
    ensures
        plain(vector3_text(v)),
{
    reveal_strlit("vec3<f32>(");
    reveal_strlit(", ");
    reveal_strlit(")");
    lemma_numbers_are_plain(v.x@, 6, 0);
    lemma_numbers_are_plain(v.y@, 6, 0);
    lemma_numbers_are_plain(v.z@, 6, 0);
    let t1 = "vec3<f32>("@ + decimal_text(v.x@, 6);
    lemma_plain_concat("vec3<f32>("@, decimal_text(v.x@, 6));
    let t2 = t1 + ", "@;
    lemma_plain_concat(t1, ", "@);
    let t3 = t2 + decimal_text(v.y@, 6);
    lemma_plain_concat(t2, decimal_text(v.y@, 6));
    let t4 = t3 + ", "@;
    lemma_plain_concat(t3, ", "@);
    let t5 = t4 + decimal_text(v.z@, 6);
    lemma_plain_concat(t4, decimal_text(v.z@, 6));
    lemma_plain_concat(t5, ")"@);
}

/// The declaration of a vector opens and closes no block, where its name
/// opens and closes none.
pub proof fn lemma_let_vector_is_plain(name: Seq<char>, v: Vector3)
    requires
        plain(name),
    ensures
        plain(let_vector(name, v)),
{
    reveal_strlit("        let ");
    reveal_strlit(" = ");
    reveal_strlit(";\n");
    lemma_vector3_is_plain(v);
    let t1 = "        let "@ + name;
    lemma_plain_concat("        let "@, name);
    let t2 = t1 + " = "@;
    lemma_plain_concat(t1, " = "@);
    let t3 = t2 + vector3_text(v);
    lemma_plain_concat(t2, vector3_text(v));
    lemma_plain_concat(t3, ";\n"@);
}

/// The declaration of a number opens and closes no block, where its name
/// opens and closes none.
pub proof fn lemma_let_number_is_plain(name: Seq<char>, x: Fixed)
    requires
        plain(name),
    ensures
        plain(let_number(name, x)),
{
    reveal_strlit("        let ");
    reveal_strlit(" = ");
    reveal_strlit(";\n");
    lemma_numbers_are_plain(x@, 6, 0);
    let t1 = "        let "@ + name;
    lemma_plain_concat("        let "@, name);
    let t2 = t1 + " = "@;
    lemma_plain_concat(t1, " = "@);
    let t3 = t2 + decimal_text(x@, 6);
    lemma_plain_concat(t2, decimal_text(x@, 6));
    lemma_plain_concat(t3, ";\n"@);
}

/// The block of a sphere is one block.
pub proof fn lemma_sphere_fragment_runs(s: PositionSphereModifier, x: int)
    requires
        x >= 0,
    ensures
        runs(sphere_fragment(s), x, x),
{
    reveal_strlit("    {\n");
    reveal_strlit("center");
    reveal_strlit("radius");
    reveal_strlit("speed");
    reveal_strlit("        let dir = random_direction();\n");
    reveal_strlit("        (*particle).position = center + dir * (radius * pow(rand(), 1. / 3.));\n");
    reveal_strlit("        (*particle).position = center + dir * radius;\n");
    reveal_strlit("        (*particle).velocity = dir * speed;\n    }\n");
    lemma_let_vector_is_plain("center"@, s.center);
    lemma_let_number_is_plain("radius"@, s.radius);
    lemma_let_number_is_plain("speed"@, s.speed);
    lemma_opens("    {\n"@, 4, x);
    let t1 = "    {\n"@ + let_vector("center"@, s.center);
    lemma_then_plain("    {\n"@, let_vector("center"@, s.center), x, x + 1);
    let t2 = t1 + let_number("radius"@, s.radius);
    lemma_then_plain(t1, let_number("radius"@, s.radius), x, x + 1);
    let t3 = t2 + let_number("speed"@, s.speed);
    lemma_then_plain(t2, let_number("speed"@, s.speed), x, x + 1);
    let t4 = t3 + "        let dir = random_direction();\n"@;
    lemma_then_plain(t3, "        let dir = random_direction();\n"@, x, x + 1);
    let t5 = t4 + sphere_placement(s.dimension);
    lemma_then_plain(t4, sphere_placement(s.dimension), x, x + 1);
    lemma_closes("        (*particle).velocity = dir * speed;\n    }\n"@, 48, x);
    lemma_runs_concat(
        t5,
        "        (*particle).velocity = dir * speed;\n    }\n"@,
        x,
        x + 1,
        x,
    );
}

/// The block of a circle is one block.
pub proof fn lemma_circle_fragment_runs(c: PositionCircleModifier, x: int)
    requires
        x >= 0,
    ensures
        runs(circle_fragment(c), x, x),
{
    reveal_strlit("    {\n");
    reveal_strlit("center");
    reveal_strlit("axis");
    reveal_strlit("radius");
    reveal_strlit("speed");
    reveal_strlit("        let dir = random_direction_around(axis);\n");
    reveal_strlit("        (*particle).position = center + dir * (radius * sqrt(rand()));\n");
    reveal_strlit("        (*particle).position = center + dir * radius;\n");
    reveal_strlit("        (*particle).velocity = dir * speed;\n    }\n");
    lemma_let_vector_is_plain("center"@, c.center);
    lemma_let_vector_is_plain("axis"@, c.axis);
    lemma_let_number_is_plain("radius"@, c.radius);
    lemma_let_number_is_plain("speed"@, c.speed);
    lemma_opens("    {\n"@, 4, x);
    let t1 = "    {\n"@ + let_vector("center"@, c.center);
    lemma_then_plain("    {\n"@, let_vector("center"@, c.center), x, x + 1);
    let t2 = t1 + let_vector("axis"@, c.axis);
    lemma_then_plain(t1, let_vector("axis"@, c.axis), x, x + 1);
    let t3 = t2 + let_number("radius"@, c.radius);
    lemma_then_plain(t2, let_number("radius"@, c.radius), x, x + 1);
    let t4 = t3 + let_number("speed"@, c.speed);
    lemma_then_plain(t3, let_number("speed"@, c.speed), x, x + 1);
    let t5 = t4 + "        let dir = random_direction_around(axis);\n"@;
    lemma_then_plain(t4, "        let dir = random_direction_around(axis);\n"@, x, x + 1);
    let t6 = t5 + circle_placement(c.dimension);
    lemma_then_plain(t5, circle_placement(c.dimension), x, x + 1);
    lemma_closes("        (*particle).velocity = dir * speed;\n    }\n"@, 48, x);
    lemma_runs_concat(
        t6,
        "        (*particle).velocity = dir * speed;\n    }\n"@,
        x,
        x + 1,
        x,
    );
}

/// The block of an acceleration is one block.
pub proof fn lemma_accel_fragment_runs(a: AccelModifier, x: int)
    requires
        x >= 0,
    ensures
        runs(accel_fragment(a), x, x),
{
    reveal_strlit("    {\n");
    reveal_strlit("accel");
    reveal_strlit("        (*particle).velocity = (*particle).velocity + accel * dt;\n    }\n");
    lemma_let_vector_is_plain("accel"@, a.accel);
    lemma_opens("    {\n"@, 4, x);
    let t1 = "    {\n"@ + let_vector("accel"@, a.accel);
    lemma_then_plain("    {\n"@, let_vector("accel"@, a.accel), x, x + 1);
    lemma_closes(
        "        (*particle).velocity = (*particle).velocity + accel * dt;\n    }\n"@,
        70,
        x,
    );
    lemma_runs_concat(
        t1,
        "        (*particle).velocity = (*particle).velocity + accel * dt;\n    }\n"@,
        x,
        x + 1,
        x,
    );
}

/// The fragment of a render modifier closes every block that it opens.
pub proof fn lemma_render_fragment_is_balanced(m: RenderModel)
    ensures
        balanced(render_fragment(m)),
{
    reveal_strlit("color_over_lifetime");
    reveal_strlit("size_over_lifetime");
    reveal_strlit(
        "@group(1) @binding(0) var particle_texture: texture_2d<f32>;\n@group(1) @binding(1) var particle_sampler: sampler;\n",
    );
    match m {
        RenderModel::ColorOverLifetime(keys) => {
            lemma_gradient_code_is_balanced("color_over_lifetime"@, keys);
        },
        RenderModel::SizeOverLifetime(keys) => {
            lemma_gradient_code_is_balanced("size_over_lifetime"@, keys);
        },
        RenderModel::ParticleTexture(_) => {
            lemma_plain_runs(render_fragment(m), 0);
        },
    }
}

/// Appends the constructor of `v` to `out`.
fn push_vector3(out: &mut String, v: Vector3)
    ensures
        final(out)@ == old(out)@ + vector3_text(v),
{
    out.append("vec3<f32>(");
    push_decimal(out, v.x);
    out.append(", ");
    push_decimal(out, v.y);
    out.append(", ");
    push_decimal(out, v.z);
    out.append(")");
    assert(out@ =~= old(out)@ + vector3_text(v));
}

/// Appends the declaration of the vector `name` to `out`.
fn push_let_vector(out: &mut String, name: &str, v: Vector3)
    ensures
        final(out)@ == old(out)@ + let_vector(name@, v),
{
    out.append("        let ");
    out.append(name);
    out.append(" = ");
    push_vector3(out, v);
    out.append(";\n");
    assert(out@ =~= old(out)@ + let_vector(name@, v));
}

/// Appends the declaration of the number `name` to `out`.
fn push_let_number(out: &mut String, name: &str, x: Fixed)
    ensures
        final(out)@ == old(out)@ + let_number(name@, x),
{
    out.append("        let ");
    out.append(name);
    out.append(" = ");
    push_decimal(out, x);
    out.append(";\n");
    assert(out@ =~= old(out)@ + let_number(name@, x));
}

impl PositionSphereModifier {
    /// Appends the block of the modifier to `out`.
    pub fn push_fragment(&self, out: &mut String)
        ensures
            final(out)@ == old(out)@ + sphere_fragment(*self),
    {
        out.append("    {\n");
        push_let_vector(out, "center", self.center);
        push_let_number(out, "radius", self.radius);
        push_let_number(out, "speed", self.speed);
        out.append("        let dir = random_direction();\n");
        match self.dimension {
            ShapeDimension::Volume => {
                out.append(
                    "        (*particle).position = center + dir * (radius * pow(rand(), 1. / 3.));\n",
                );
            },
            ShapeDimension::Surface => {
                out.append("        (*particle).position = center + dir * radius;\n");
            },
        }
        out.append("        (*particle).velocity = dir * speed;\n    }\n");
        assert(out@ =~= old(out)@ + sphere_fragment(*self));
    }
}

impl PositionCircleModifier {
    /// Appends the block of the modifier to `out`.
    pub fn push_fragment(&self, out: &mut String)
        ensures
            final(out)@ == old(out)@ + circle_fragment(*self),
    {
        out.append("    {\n");
        push_let_vector(out, "center", self.center);
        push_let_vector(out, "axis", self.axis);
        push_let_number(out, "radius", self.radius);
        push_let_number(out, "speed", self.speed);
        out.append("        let dir = random_direction_around(axis);\n");
        match self.dimension {
            ShapeDimension::Volume => {
                out.append(
                    "        (*particle).position = center + dir * (radius * sqrt(rand()));\n",
                );
            },
            ShapeDimension::Surface => {
                out.append("        (*particle).position = center + dir * radius;\n");
            },
        }
        out.append("        (*particle).velocity = dir * speed;\n    }\n");
        assert(out@ =~= old(out)@ + circle_fragment(*self));
    }
}

impl AccelModifier {
    /// Appends the block of the modifier to `out`.
    pub fn push_fragment(&self, out: &mut String)
        ensures
            final(out)@ == old(out)@ + accel_fragment(*self),
    {
        out.append("    {\n");
        push_let_vector(out, "accel", self.accel);
        out.append(
            "        (*particle).velocity = (*particle).velocity + accel * dt;\n    }\n",
        );
        assert(out@ =~= old(out)@ + accel_fragment(*self));
    }
}

impl InitModifier {
    /// The binding the modifier provides.
    pub fn binding(&self) -> (b: Binding)
        ensures
            b == init_binding(*self),
    {
        Binding::Position
    }

    /// Appends the fragment of the modifier to `out`.
    pub fn push_fragment(&self, out: &mut String)
        ensures
            final(out)@ == old(out)@ + init_fragment(*self),
    {
        match self {
            InitModifier::PositionSphere(s) => s.push_fragment(out),
            InitModifier::PositionCircle(c) => c.push_fragment(out),
        }
    }
}

impl UpdateModifier {
    /// The binding the modifier provides.
    pub fn binding(&self) -> (b: Binding)
        ensures
            b == update_binding(*self),
    {
        Binding::Acceleration
    }

    /// Appends the fragment of the modifier to `out`.
    pub fn push_fragment(&self, out: &mut String)
        ensures
            final(out)@ == old(out)@ + update_fragment(*self),
    {
        match self {
            UpdateModifier::Accel(a) => a.push_fragment(out),
        }
    }
}

impl RenderModifier {
    /// The binding the modifier provides.
    pub fn binding(&self) -> (b: Binding)
        ensures
            b == render_binding(self@),
    {
        match self {
            RenderModifier::ColorOverLifetime(_) => Binding::Color,
            RenderModifier::SizeOverLifetime(_) => Binding::Size,
            RenderModifier::ParticleTexture(_) => Binding::Texture,
        }
    }

    /// Whether the modifier has a fragment: a gradient without keys has none.
    pub fn is_complete(&self) -> (b: bool)
        ensures
            b == render_complete(self@),
    {
        match self {
            RenderModifier::ColorOverLifetime(m) => m.gradient.len() > 0,
            RenderModifier::SizeOverLifetime(m) => m.gradient.len() > 0,
            RenderModifier::ParticleTexture(_) => true,
        }
    }

    /// Appends the fragment of the modifier to `out`; where it has none,
    /// `out` is left as it was.
    pub fn push_fragment(&self, out: &mut String) -> (done: bool)
        ensures
            done == render_complete(self@),
            done ==> final(out)@ == old(out)@ + render_fragment(self@),
            !done ==> final(out)@ == old(out)@,
    {
        match self {
            RenderModifier::ColorOverLifetime(m) => m.gradient.push_shader_code(
                out,
                "color_over_lifetime",
            ).is_ok(),
            RenderModifier::SizeOverLifetime(m) => m.gradient.push_shader_code(
                out,
                "size_over_lifetime",
            ).is_ok(),
            RenderModifier::ParticleTexture(_) => {
                out.append(
                    "@group(1) @binding(0) var particle_texture: texture_2d<f32>;\n@group(1) @binding(1) var particle_sampler: sampler;\n",
                );
                true
            },
        }
    }
}

} // verus!
