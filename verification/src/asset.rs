//! The description of an effect, and its compilation into shader source.
//!
//! An effect names its capacity, its spawner and three ordered lists of
//! modifiers. Compiling it gives one shader module for each stage: the
//! fragments of the stage's modifiers, whole and in the order of the list,
//! between the opening and the closing of the stage. The source depends on
//! the modifier lists alone, so the same lists give the same source, byte
//! for byte.

use vstd::prelude::*;
use vstd::string::*;
use crate::blocks::balanced;
use crate::blocks::lemma_closes;
use crate::blocks::lemma_opens;
use crate::blocks::lemma_plain_runs;
use crate::blocks::lemma_runs_concat;
use crate::blocks::runs;
use crate::modifiers::Binding;
use crate::modifiers::lemma_accel_fragment_runs;
use crate::modifiers::lemma_circle_fragment_runs;
use crate::modifiers::lemma_render_fragment_is_balanced;
use crate::modifiers::lemma_sphere_fragment_runs;
use crate::modifiers::InitModifier;
use crate::modifiers::RenderModel;
use crate::modifiers::RenderModifier;
use crate::modifiers::UpdateModifier;
use crate::modifiers::init_binding;
use crate::modifiers::init_fragment;
use crate::modifiers::render_binding;
use crate::modifiers::render_complete;
use crate::modifiers::render_fragment;
use crate::modifiers::update_binding;
use crate::modifiers::update_fragment;
use crate::spawn::Spawner;
use crate::spawn::SpawnerState;

verus! {

/// Why an effect does not compile.
#[derive(Clone, Copy, Debug, PartialEq, Eq, Structural)]
pub enum CompileError {
    /// The effect has room for no particle.
    ZeroCapacity,
    /// Two modifiers provide this binding.
    ConflictingBinding(Binding),
    /// A modifier holds a gradient without keys.
    EmptyGradient,
}

/// The description of one effect.
#[derive(Clone, Debug, PartialEq, Eq)]
pub struct EffectAsset {
    /// A label for people; it need not be unique.
    pub name: String,
    /// The most particles that live at one time.
    pub capacity: u32,
    /// The spawner that an instance starts with.
    pub spawner: Spawner,
    /// The rules that start a particle, in order.
    pub init_modifiers: Vec<InitModifier>,
    /// The rules that change a particle from frame to frame, in order.
    pub update_modifiers: Vec<UpdateModifier>,
    /// The rules that draw a particle, in order.
    pub render_modifiers: Vec<RenderModifier>,
}

/// What an effect says.
pub struct AssetModel {
    pub name: Seq<char>,
    pub capacity: u32,
    pub spawner: SpawnerState,
    pub init: Seq<InitModifier>,
    pub update: Seq<UpdateModifier>,
    pub render: Seq<RenderModel>,
}

impl View for EffectAsset {
    type V = AssetModel;

    open spec fn view(&self) -> AssetModel {
        AssetModel {
            name: self.name@,
            capacity: self.capacity,
            spawner: self.spawner@,
            init: self.init_modifiers@,
            update: self.update_modifiers@,
            render: self.render_modifiers@.map_values(|m: RenderModifier| m@),
        }
    }
}

/// The shader module of one stage.
#[derive(Clone, Debug, PartialEq, Eq)]
pub struct ShaderModule {
    /// The source of the module.
    pub source: String,
    /// The bindings that the module's modifiers provide, in their order.
    pub bindings: Vec<Binding>,
}

/// What a shader module says.
pub struct ModuleText {
    pub source: Seq<char>,
    pub bindings: Seq<Binding>,
}

impl View for ShaderModule {
    type V = ModuleText;

    open spec fn view(&self) -> ModuleText {
        ModuleText { source: self.source@, bindings: self.bindings@ }
    }
}

/// The three shader modules of an effect.
#[derive(Clone, Debug, PartialEq, Eq)]
pub struct CompiledEffect {
    pub init: ShaderModule,
    pub update: ShaderModule,
    pub render: ShaderModule,
}

/// What the three shader modules say.
pub struct CompiledText {
    pub init: ModuleText,
    pub update: ModuleText,
    pub render: ModuleText,
}

impl View for CompiledEffect {
    type V = CompiledText;

    open spec fn view(&self) -> CompiledText {
        CompiledText { init: self.init@, update: self.update@, render: self.render@ }
    }
}

/// The first `n` of `parts`, one after the other.
pub open spec fn concat(parts: Seq<Seq<char>>, n: nat) -> Seq<char>
    decreases n,
{
    if n == 0 {
        Seq::empty()
    } else {
        concat(parts, (n - 1) as nat) + parts[n - 1]
    }
}

/// The fragments of the init modifiers.
pub open spec fn init_fragments(mods: Seq<InitModifier>) -> Seq<Seq<char>> {
    mods.map_values(|m: InitModifier| init_fragment(m))
}

/// The fragments of the update modifiers.
pub open spec fn update_fragments(mods: Seq<UpdateModifier>) -> Seq<Seq<char>> {
    mods.map_values(|m: UpdateModifier| update_fragment(m))
}

/// The fragments of the render modifiers.
pub open spec fn render_fragments(mods: Seq<RenderModel>) -> Seq<Seq<char>> {
    mods.map_values(|m: RenderModel| render_fragment(m))
}

/// The init module: the function that starts a particle, with one block for
/// each modifier.
pub open spec fn init_module(mods: Seq<InitModifier>) -> ModuleText {
    ModuleText {
        source: "fn init_particle(particle: ptr<function, Particle>) {\n"@ + concat(
            init_fragments(mods),
            mods.len(),
        ) + "}\n"@,
        bindings: mods.map_values(|m: InitModifier| init_binding(m)),
    }
}

/// The update module: the function that advances a particle by `dt`, with
/// one block for each modifier.
pub open spec fn update_module(mods: Seq<UpdateModifier>) -> ModuleText {
    ModuleText {
        source: "fn update_particle(particle: ptr<function, Particle>, dt: f32) {\n"@ + concat(
            update_fragments(mods),
            mods.len(),
        ) + "}\n"@,
        bindings: mods.map_values(|m: UpdateModifier| update_binding(m)),
    }
}

/// The render module: one declaration for each modifier.
pub open spec fn render_module(mods: Seq<RenderModel>) -> ModuleText {
    ModuleText {
        source: concat(render_fragments(mods), mods.len()),
        bindings: mods.map_values(|m: RenderModel| render_binding(m)),
    }
}

/// The bindings that the modifiers of an effect provide: those of the init
/// stage, then of the update stage, then of the render stage.
pub open spec fn bindings_of(a: AssetModel) -> Seq<Binding> {
    init_module(a.init).bindings + update_module(a.update).bindings + render_module(
        a.render,
    ).bindings
}

/// The binding at `j` was provided before.
pub open spec fn repeats_at(b: Seq<Binding>, j: int) -> bool {
    exists|i: int| 0 <= i < j && #[trigger] b[i] == b[j]
}

/// Some binding is provided twice.
pub open spec fn has_conflict(b: Seq<Binding>) -> bool {
    exists|j: int| 0 <= j < b.len() && #[trigger] repeats_at(b, j)
}

/// `j` is the first place at which a binding is provided again.
pub open spec fn is_first_conflict(b: Seq<Binding>, j: int) -> bool {
    &&& 0 <= j < b.len()
    &&& repeats_at(b, j)
    &&& forall|k: int| 0 <= k < j ==> !#[trigger] repeats_at(b, k)
}

/// The first place at which a binding is provided again.
pub open spec fn first_conflict(b: Seq<Binding>) -> int {
    choose|j: int| is_first_conflict(b, j)
}

/// Some render modifier holds a gradient without keys.
pub open spec fn has_empty_gradient(render: Seq<RenderModel>) -> bool {
    exists|i: int| 0 <= i < render.len() && !render_complete(#[trigger] render[i])
}

/// The three modules of an effect, whatever its capacity.
pub open spec fn modules_of(a: AssetModel) -> CompiledText {
    CompiledText {
        init: init_module(a.init),
        update: update_module(a.update),
        render: render_module(a.render),
    }
}

/// What compiling an effect gives. An effect without capacity is refused
/// first, then one with two modifiers for one binding, then one with a
/// gradient without keys.
pub open spec fn compile_spec(a: AssetModel) -> Result<CompiledText, CompileError> {
    if a.capacity == 0 {
        Err(CompileError::ZeroCapacity)
    } else if has_conflict(bindings_of(a)) {
        Err(CompileError::ConflictingBinding(bindings_of(a)[first_conflict(bindings_of(a))]))
    } else if has_empty_gradient(a.render) {
        Err(CompileError::EmptyGradient)
    } else {
        Ok(modules_of(a))
    }
}

/// There is one first conflict at most.
proof fn lemma_first_conflict_is_one(b: Seq<Binding>, j: int)
    requires
        is_first_conflict(b, j),
    ensures
        has_conflict(b),
        first_conflict(b) == j,
{
    let f = first_conflict(b);
    assert(is_first_conflict(b, f));
    if f < j {
        assert(!repeats_at(b, f));
    } else if j < f {
        assert(!repeats_at(b, j));
    }
}

/// Whether the binding at `j` was provided before.
fn seen_before(all: &Vec<Binding>, j: usize) -> (seen: bool)
    requires
        j < all@.len(),
    ensures
        seen == repeats_at(all@, j as int),
{
    let mut i: usize = 0;
    while i < j
        invariant
            i <= j < all@.len(),
            forall|k: int| 0 <= k < i ==> all@[k] != all@[j as int],
        decreases j - i,
    {
        if all[i] == all[j] {
            return true;
        }
        i = i + 1;
    }
    false
}

/// The first place at which a binding is provided again, if there is one.
fn find_conflict(all: &Vec<Binding>) -> (found: Option<usize>)
    ensures
        found is None ==> !has_conflict(all@),
        found matches Some(j) ==> is_first_conflict(all@, j as int),
{
    let mut j: usize = 0;
    while j < all.len()
        invariant
            j <= all@.len(),
            forall|k: int| 0 <= k < j ==> !#[trigger] repeats_at(all@, k),
        decreases all@.len() - j,
    {
        if seen_before(all, j) {
            return Some(j);
        }
        j = j + 1;
    }
    None
}

impl EffectAsset {
    /// The effect `name` for `capacity` particles, with `spawner` and without
    /// modifiers.
    pub fn new(name: String, capacity: u32, spawner: Spawner) -> (a: EffectAsset)
        ensures
            a@.name == name@,
            a@.capacity == capacity,
            a@.spawner == spawner@,
            a@.init.len() == 0,
            a@.update.len() == 0,
            a@.render.len() == 0,
    {
        EffectAsset {
            name,
            capacity,
            spawner,
            init_modifiers: Vec::new(),
            update_modifiers: Vec::new(),
            render_modifiers: Vec::new(),
        }
    }

    /// The effect with `modifier` as its last init modifier.
    pub fn init(self, modifier: InitModifier) -> (a: EffectAsset)
        ensures
            a@ == (AssetModel { init: self@.init.push(modifier), ..self@ }),
    {
        let mut a = self;
        a.init_modifiers.push(modifier);
        a
    }

    /// The effect with `modifier` as its last update modifier.
    pub fn update(self, modifier: UpdateModifier) -> (a: EffectAsset)
        ensures
            a@ == (AssetModel { update: self@.update.push(modifier), ..self@ }),
    {
        let mut a = self;
        a.update_modifiers.push(modifier);
        a
    }

    /// The effect with `modifier` as its last render modifier.
    pub fn render(self, modifier: RenderModifier) -> (a: EffectAsset)
        ensures
            a@ == (AssetModel { render: self@.render.push(modifier@), ..self@ }),
    {
        let mut a = self;
        let ghost before = a.render_modifiers@;
        a.render_modifiers.push(modifier);
        assert(a.render_modifiers@.map_values(|m: RenderModifier| m@) =~= before.map_values(
            |m: RenderModifier| m@,
        ).push(modifier@));
        a
    }

    /// The init module of the effect.
    fn compile_init(&self) -> (module: ShaderModule)
        ensures
            module@ == init_module(self@.init),
    {
        let mods = &self.init_modifiers;
        let mut source = String::new();
        let mut bindings: Vec<Binding> = Vec::new();
        source.append("fn init_particle(particle: ptr<function, Particle>) {\n");
        let ghost head = source@;
        let ghost parts = init_fragments(mods@);
        let mut i: usize = 0;
        while i < mods.len()
            invariant
                i <= mods@.len(),
                parts == init_fragments(mods@),
                source@ == head + concat(parts, i as nat),
                bindings@ == mods@.map_values(|m: InitModifier| init_binding(m)).take(i as int),
            decreases mods@.len() - i,
        {
            mods[i].push_fragment(&mut source);
            bindings.push(mods[i].binding());
            i = i + 1;
            assert(source@ =~= head + concat(parts, i as nat));
            assert(bindings@ =~= mods@.map_values(|m: InitModifier| init_binding(m)).take(
                i as int,
            ));
        }
        source.append("}\n");
        assert(source@ =~= init_module(mods@).source);
        assert(bindings@ =~= init_module(mods@).bindings);
        ShaderModule { source, bindings }
    }

    /// The update module of the effect.
    fn compile_update(&self) -> (module: ShaderModule)
        ensures
            module@ == update_module(self@.update),
    {
        let mods = &self.update_modifiers;
        let mut source = String::new();
        let mut bindings: Vec<Binding> = Vec::new();
        source.append("fn update_particle(particle: ptr<function, Particle>, dt: f32) {\n");
        let ghost head = source@;
        let ghost parts = update_fragments(mods@);
        let mut i: usize = 0;
        while i < mods.len()
            invariant
                i <= mods@.len(),
                parts == update_fragments(mods@),
                source@ == head + concat(parts, i as nat),
                bindings@ == mods@.map_values(|m: UpdateModifier| update_binding(m)).take(i as int),
            decreases mods@.len() - i,
        {
            mods[i].push_fragment(&mut source);
            bindings.push(mods[i].binding());
            i = i + 1;
            assert(source@ =~= head + concat(parts, i as nat));
            assert(bindings@ =~= mods@.map_values(|m: UpdateModifier| update_binding(m)).take(
                i as int,
            ));
        }
        source.append("}\n");
        assert(source@ =~= update_module(mods@).source);
        assert(bindings@ =~= update_module(mods@).bindings);
        ShaderModule { source, bindings }
    }

    /// The render module of the effect, unless a gradient has no keys.
    fn compile_render(&self) -> (module: Option<ShaderModule>)
        ensures
            has_empty_gradient(self@.render) ==> module is None,
            !has_empty_gradient(self@.render) ==> module is Some && module->Some_0@
                == render_module(self@.render),
    {
        let mods = &self.render_modifiers;
        let mut source = String::new();
        let mut bindings: Vec<Binding> = Vec::new();
        let ghost models = self@.render;
        let ghost parts = render_fragments(models);
        let mut i: usize = 0;
        while i < mods.len()
            invariant
                i <= mods@.len(),
                models == mods@.map_values(|m: RenderModifier| m@),
                models == self@.render,
                parts == render_fragments(models),
                forall|k: int| 0 <= k < i ==> render_complete(#[trigger] models[k]),
                source@ == concat(parts, i as nat),
                bindings@ == models.map_values(|m: RenderModel| render_binding(m)).take(i as int),
            decreases mods@.len() - i,
        {
            assert(models[i as int] == mods@[i as int]@);
            if !mods[i].push_fragment(&mut source) {
                assert(!render_complete(models[i as int]));
                assert(has_empty_gradient(self@.render));
                return None;
            }
            bindings.push(mods[i].binding());
            i = i + 1;
            assert(source@ =~= concat(parts, i as nat));
            assert(bindings@ =~= models.map_values(|m: RenderModel| render_binding(m)).take(
                i as int,
            ));
        }
        assert(bindings@ =~= render_module(models).bindings);
        Some(ShaderModule { source, bindings })
    }

    /// Compiles the effect into its three shader modules.
    ///
    /// An effect without capacity is refused first, then one in which two
    /// modifiers provide the same binding, then one with a gradient without
    /// keys.
    pub fn compile(&self) -> (r: Result<CompiledEffect, CompileError>)
        ensures
            r matches Ok(c) ==> compile_spec(self@) == Ok::<CompiledText, CompileError>(c@),
            r matches Err(e) ==> compile_spec(self@) == Err::<CompiledText, CompileError>(e),
    {
        if self.capacity == 0 {
            return Err(CompileError::ZeroCapacity);
        }
        let init = self.compile_init();
        let update = self.compile_update();
        let mut all: Vec<Binding> = Vec::new();
        let mut i: usize = 0;
        while i < init.bindings.len()
            invariant
                i <= init.bindings@.len(),
                all@ == init.bindings@.take(i as int),
            decreases init.bindings@.len() - i,
        {
            all.push(init.bindings[i]);
            i = i + 1;
            assert(all@ =~= init.bindings@.take(i as int));
        }
        assert(all@ =~= init.bindings@);
        i = 0;
        while i < update.bindings.len()
            invariant
                i <= update.bindings@.len(),
                all@ == init.bindings@ + update.bindings@.take(i as int),
            decreases update.bindings@.len() - i,
        {
            all.push(update.bindings[i]);
            i = i + 1;
            assert(all@ =~= init.bindings@ + update.bindings@.take(i as int));
        }
        assert(all@ =~= init.bindings@ + update.bindings@);
        i = 0;
        let ghost render_bindings = render_module(self@.render).bindings;
        while i < self.render_modifiers.len()
            invariant
                i <= self.render_modifiers@.len(),
                render_bindings == render_module(self@.render).bindings,
                all@ == init.bindings@ + update.bindings@ + render_bindings.take(i as int),
            decreases self.render_modifiers@.len() - i,
        {
            all.push(self.render_modifiers[i].binding());
            i = i + 1;
            assert(all@ =~= init.bindings@ + update.bindings@ + render_bindings.take(i as int));
        }
        assert(all@ =~= bindings_of(self@));
        match find_conflict(&all) {
            Some(j) => {
                proof {
                    lemma_first_conflict_is_one(all@, j as int);
                }
                Err(CompileError::ConflictingBinding(all[j]))
            },
            None => {
                match self.compile_render() {
                    Some(render) => Ok(CompiledEffect { init, update, render }),
                    None => Err(CompileError::EmptyGradient),
                }
            },
        }
    }
}

/// Effects with the same modifier lists have the same modules: the name,
/// the capacity and the spawner leave no trace in the source. Where both
/// compile, they compile to the same.
pub proof fn lemma_same_modifiers_same_source(a: AssetModel, b: AssetModel)
    requires
        a.init == b.init,
        a.update == b.update,
        a.render == b.render,
    ensures
        modules_of(a) == modules_of(b),
        a.capacity > 0 && b.capacity > 0 ==> compile_spec(a) == compile_spec(b),
        compile_spec(a) is Ok && compile_spec(b) is Ok ==> compile_spec(a) == compile_spec(b),
{
}

/// An effect compiles exactly when it has room for a particle, no binding
/// is provided twice and every gradient has a key; what it compiles to are
/// its modules.
pub proof fn lemma_compile_succeeds(a: AssetModel)
    ensures
        compile_spec(a) is Ok <==> a.capacity > 0 && !has_conflict(bindings_of(a))
            && !has_empty_gradient(a.render),
        compile_spec(a) is Ok ==> compile_spec(a) == Ok::<CompiledText, CompileError>(
            modules_of(a),
        ),
{
}

/// Parts that each leave the depth as it was leave it so together.
pub proof fn lemma_concat_runs(parts: Seq<Seq<char>>, n: nat, x: int)
    requires
        n <= parts.len(),
        x >= 0,
        forall|i: int| 0 <= i < n ==> runs(#[trigger] parts[i], x, x),
    ensures
        runs(concat(parts, n), x, x),
    decreases n,
{
    if n == 0 {
        lemma_plain_runs(concat(parts, n), x);
    } else {
        lemma_concat_runs(parts, (n - 1) as nat, x);
        lemma_runs_concat(concat(parts, (n - 1) as nat), parts[n - 1], x, x, x);
    }
}

/// The source of every stage closes every block that it opens, whatever the
/// modifiers are and in whatever order they stand: a list in another order
/// gives another source, and never one with a block left open.
pub proof fn lemma_modules_are_balanced(a: AssetModel)
    ensures
        balanced(modules_of(a).init.source),
        balanced(modules_of(a).update.source),
        balanced(modules_of(a).render.source),
{
    reveal_strlit("fn init_particle(particle: ptr<function, Particle>) {\n");
    reveal_strlit("fn update_particle(particle: ptr<function, Particle>, dt: f32) {\n");
    reveal_strlit("}\n");
    lemma_closes("}\n"@, 0, 0);

    let init = init_fragments(a.init);
    assert forall|i: int| 0 <= i < init.len() implies runs(#[trigger] init[i], 1, 1) by {
        match a.init[i] {
            InitModifier::PositionSphere(s) => lemma_sphere_fragment_runs(s, 1),
            InitModifier::PositionCircle(c) => lemma_circle_fragment_runs(c, 1),
        }
    }
    lemma_concat_runs(init, a.init.len(), 1);
    lemma_opens("fn init_particle(particle: ptr<function, Particle>) {\n"@, 52, 0);
    let init_head = "fn init_particle(particle: ptr<function, Particle>) {\n"@ + concat(
        init,
        a.init.len(),
    );
    lemma_runs_concat(
        "fn init_particle(particle: ptr<function, Particle>) {\n"@,
        concat(init, a.init.len()),
        0,
        1,
        1,
    );
    lemma_runs_concat(init_head, "}\n"@, 0, 1, 0);

    let update = update_fragments(a.update);
    assert forall|i: int| 0 <= i < update.len() implies runs(#[trigger] update[i], 1, 1) by {
        match a.update[i] {
            UpdateModifier::Accel(m) => lemma_accel_fragment_runs(m, 1),
        }
    }
    lemma_concat_runs(update, a.update.len(), 1);
    lemma_opens("fn update_particle(particle: ptr<function, Particle>, dt: f32) {\n"@, 63, 0);
    let update_head = "fn update_particle(particle: ptr<function, Particle>, dt: f32) {\n"@
        + concat(update, a.update.len());
    lemma_runs_concat(
        "fn update_particle(particle: ptr<function, Particle>, dt: f32) {\n"@,
        concat(update, a.update.len()),
        0,
        1,
        1,
    );
    lemma_runs_concat(update_head, "}\n"@, 0, 1, 0);

    let render = render_fragments(a.render);
    assert forall|i: int| 0 <= i < render.len() implies runs(#[trigger] render[i], 0, 0) by {
        lemma_render_fragment_is_balanced(a.render[i]);
    }
    lemma_concat_runs(render, a.render.len(), 0);
}

} // verus!
