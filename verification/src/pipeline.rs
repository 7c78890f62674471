//! The pipeline: a linked program, the uniforms that were reflected from its
//! sources, and the values that are staged for them until the next flush.

use vstd::prelude::*;
use crate::device::opengl::{GLDevice, GlCall};
use crate::device::{BoundPipeline, PrimitiveTopology};
use crate::reflect::{UniformTable, LOCATION_NOT_FOUND};
use crate::table::{KeyView, UniformMap};
use crate::uniform::ShaderUniform;

verus! {

/// Something that went wrong without stopping the frame. The driver decides
/// how to report it.
#[derive(PartialEq, Eq, Structural, Copy, Clone, Debug)]
pub enum Diagnostic {
    /// A value was set for a name and type that the program does not declare.
    /// Nothing was staged.
    UniformNotDeclared,
    /// A staged value has a type for which there is no upload. Nothing was
    /// uploaded for it.
    UploadNotImplemented,
}

/// The upload that makes `value` visible at `location`, if there is one.
///
/// Every value but one of type `Invalid` has an upload, by the call that fits
/// its type; a sampler is bound whatever its identifier is. Nothing is
/// uploaded to a location that was not found.
pub open spec fn upload(location: i32, value: ShaderUniform) -> Option<GlCall> {
    if location == LOCATION_NOT_FOUND {
        None
    } else {
        match value {
            ShaderUniform::Int(v) => Some(GlCall::Uniform1i { location, value: v }),
            ShaderUniform::Float(v) => Some(GlCall::Uniform1f { location, value: v }),
            ShaderUniform::Float2(v) => Some(GlCall::Uniform2f { location, value: v }),
            ShaderUniform::Float3(v) => Some(GlCall::Uniform3f { location, value: v }),
            ShaderUniform::Float4(v) => Some(GlCall::Uniform4f { location, value: v }),
            ShaderUniform::Mat3(v) => Some(GlCall::UniformMatrix3 { location, value: v }),
            ShaderUniform::Mat4(v) => Some(GlCall::UniformMatrix4 { location, value: v }),
            ShaderUniform::Sampler2D(texture) => Some(
                GlCall::BindTextureUnit { location, texture },
            ),
            ShaderUniform::Invalid => None,
        }
    }
}

/// What is reported for a staged `value` at `location`: a value of type
/// `Invalid` whose location was found has no upload.
pub open spec fn upload_diagnostic(location: i32, value: ShaderUniform) -> Option<Diagnostic> {
    if location != LOCATION_NOT_FOUND && value is Invalid {
        Some(Diagnostic::UploadNotImplemented)
    } else {
        None
    }
}

/// Decides the upload for one staged value, and what is reported for it.
pub fn plan_upload(location: i32, value: ShaderUniform) -> (plan: (
    Option<GlCall>,
    Option<Diagnostic>,
))
    ensures
        plan.0 == upload(location, value),
        plan.1 == upload_diagnostic(location, value),
{
    if location == LOCATION_NOT_FOUND {
        return (None, None);
    }
    match value {
        ShaderUniform::Int(v) => (Some(GlCall::Uniform1i { location, value: v }), None),
        ShaderUniform::Float(v) => (Some(GlCall::Uniform1f { location, value: v }), None),
        ShaderUniform::Float2(v) => (Some(GlCall::Uniform2f { location, value: v }), None),
        ShaderUniform::Float3(v) => (Some(GlCall::Uniform3f { location, value: v }), None),
        ShaderUniform::Float4(v) => (Some(GlCall::Uniform4f { location, value: v }), None),
        ShaderUniform::Mat3(v) => (Some(GlCall::UniformMatrix3 { location, value: v }), None),
        ShaderUniform::Mat4(v) => (Some(GlCall::UniformMatrix4 { location, value: v }), None),
        ShaderUniform::Sampler2D(texture) => (
            Some(GlCall::BindTextureUnit { location, texture }),
            None,
        ),
        ShaderUniform::Invalid => (None, Some(Diagnostic::UploadNotImplemented)),
    }
}

/// A linked program with its fixed-function state, its reflected uniforms and
/// the overrides staged for them.
pub struct Pipeline {
    program: u32,
    depth_test: bool,
    blend_enabled: bool,
    primitive_topology: PrimitiveTopology,
    uniforms: UniformTable,
    uniform_overrides: UniformMap<ShaderUniform>,
}

impl Pipeline {
    /// The handle of the linked program.
    pub closed spec fn program_id(&self) -> u32 {
        self.program
    }

    /// Whether the depth test is on when the pipeline is bound.
    pub closed spec fn depth_test_on(&self) -> bool {
        self.depth_test
    }

    /// Whether blending is on when the pipeline is bound.
    pub closed spec fn blend_on(&self) -> bool {
        self.blend_enabled
    }

    /// The topology of the draws made with the pipeline.
    pub closed spec fn topology(&self) -> PrimitiveTopology {
        self.primitive_topology
    }

    /// The uniforms that were reflected from the sources of the program.
    pub closed spec fn uniform_table(&self) -> UniformTable {
        self.uniforms
    }

    /// The values staged for upload.
    pub closed spec fn override_table(&self) -> UniformMap<ShaderUniform> {
        self.uniform_overrides
    }

    /// What a command list copies when the pipeline is bound.
    pub open spec fn bound_state(&self) -> BoundPipeline {
        BoundPipeline {
            program: self.program_id(),
            depth_test: self.depth_test_on(),
            blend_enabled: self.blend_on(),
            topology: self.topology(),
        }
    }

    /// Both tables are well formed, and every override is for a uniform that
    /// was reflected and holds a value of the type in its key.
    pub open spec fn wf(&self) -> bool {
        &&& self.uniform_table().wf()
        &&& self.override_table().wf()
        &&& forall|key: KeyView| #[trigger]
            self.override_table()@.contains_key(key) ==> {
                &&& self.uniform_table()@.contains_key(key)
                &&& self.override_table()@[key].uniform_type() == key.1
            }
    }

    /// The location at which the override at position `i` is uploaded.
    pub open spec fn override_location(&self, i: int) -> i32 {
        self.uniform_table()@[self.override_table().keys()[i]].location
    }

    /// The upload for the override at position `i`, if it has one.
    pub open spec fn upload_at(&self, i: nat) -> Option<GlCall> {
        upload(self.override_location(i as int), self.override_table().values()[i as int])
    }

    /// The uploads for the first `n` overrides, in the order of the table.
    pub open spec fn uploads(&self, n: nat) -> Seq<GlCall>
        decreases n,
    {
        if n == 0 {
            Seq::empty()
        } else {
            let before = self.uploads((n - 1) as nat);
            match self.upload_at((n - 1) as nat) {
                Some(call) => before.push(call),
                None => before,
            }
        }
    }

    /// What is reported for the first `n` overrides, in the order of the
    /// table.
    pub open spec fn upload_diagnostics(&self, n: nat) -> Seq<Diagnostic>
        decreases n,
    {
        if n == 0 {
            Seq::empty()
        } else {
            let before = self.upload_diagnostics((n - 1) as nat);
            match upload_diagnostic(
                self.override_location(n - 1),
                self.override_table().values()[n - 1],
            ) {
                Some(diagnostic) => before.push(diagnostic),
                None => before,
            }
        }
    }

    /// The calls of a flush: the program is made current, then each override
    /// is uploaded, in the order in which the overrides were first staged.
    pub open spec fn flush_calls(&self) -> Seq<GlCall> {
        seq![GlCall::UseProgram { program: self.program_id() }] + self.uploads(
            self.override_table().keys().len(),
        )
    }

    /// What a flush reports.
    pub open spec fn flush_diagnostics(&self) -> Seq<Diagnostic> {
        self.upload_diagnostics(self.override_table().keys().len())
    }

    /// A pipeline for the linked `program` and its reflected `uniforms`: depth
    /// test on, blending off, triangles, and nothing staged.
    pub fn new(program: u32, uniforms: UniformTable) -> (pipeline: Pipeline)
        requires
            uniforms.wf(),
        ensures
            pipeline.wf(),
            pipeline.program_id() == program,
            pipeline.depth_test_on(),
            !pipeline.blend_on(),
            pipeline.topology() == PrimitiveTopology::Triangles,
            pipeline.uniform_table() == uniforms,
            pipeline.override_table()@ == Map::<KeyView, ShaderUniform>::empty(),
            pipeline.override_table().keys() == Seq::<KeyView>::empty(),
    {
        Pipeline {
            blend_enabled: false,
            depth_test: true,
            primitive_topology: PrimitiveTopology::Triangles,
            program,
            uniforms,
            uniform_overrides: UniformMap::new(),
        }
    }

    pub fn primitive_topology(&self) -> (topology: PrimitiveTopology)
        ensures
            topology == self.topology(),
    {
        self.primitive_topology
    }

    pub fn depth_test(&self) -> (on: bool)
        ensures
            on == self.depth_test_on(),
    {
        self.depth_test
    }

    pub fn blend_enabled(&self) -> (on: bool)
        ensures
            on == self.blend_on(),
    {
        self.blend_enabled
    }

    pub fn program(&self) -> (program: u32)
        ensures
            program == self.program_id(),
    {
        self.program
    }

    /// The reflected uniforms.
    pub fn uniforms(&self) -> (table: &UniformTable)
        ensures
            *table == self.uniform_table(),
    {
        &self.uniforms
    }

    /// The staged overrides.
    pub fn uniform_overrides(&self) -> (table: &UniformMap<ShaderUniform>)
        ensures
            *table == self.override_table(),
    {
        &self.uniform_overrides
    }

    /// Switches the depth test for later binds.
    pub fn set_depth_test(&mut self, enabled: bool)
        ensures
            final(self).depth_test_on() == enabled,
            final(self).program_id() == old(self).program_id(),
            final(self).blend_on() == old(self).blend_on(),
            final(self).topology() == old(self).topology(),
            final(self).uniform_table() == old(self).uniform_table(),
            final(self).override_table() == old(self).override_table(),
    {
        self.depth_test = enabled;
    }

    /// Switches blending for later binds.
    pub fn set_blend_enabled(&mut self, enabled: bool)
        ensures
            final(self).blend_on() == enabled,
            final(self).program_id() == old(self).program_id(),
            final(self).depth_test_on() == old(self).depth_test_on(),
            final(self).topology() == old(self).topology(),
            final(self).uniform_table() == old(self).uniform_table(),
            final(self).override_table() == old(self).override_table(),
    {
        self.blend_enabled = enabled;
    }

    /// Chooses the topology for draws recorded after later binds.
    pub fn set_primitive_topology(&mut self, topology: PrimitiveTopology)
        ensures
            final(self).topology() == topology,
            final(self).program_id() == old(self).program_id(),
            final(self).depth_test_on() == old(self).depth_test_on(),
            final(self).blend_on() == old(self).blend_on(),
            final(self).uniform_table() == old(self).uniform_table(),
            final(self).override_table() == old(self).override_table(),
    {
        self.primitive_topology = topology;
    }

    /// Stages `uniform` for the uniform `name` of the type that tags the
    /// value, to be uploaded by the next flush and every flush after it. A
    /// value staged before under the same name and type is replaced.
    ///
    /// Where the program declares no uniform of that name and type, nothing
    /// is staged and `UniformNotDeclared` is reported.
    pub fn set_uniform(&mut self, name: &str, uniform: ShaderUniform) -> (diagnostic: Option<
        Diagnostic,
    >)
        requires
            old(self).wf(),
        ensures
            final(self).wf(),
            final(self).program_id() == old(self).program_id(),
            final(self).depth_test_on() == old(self).depth_test_on(),
            final(self).blend_on() == old(self).blend_on(),
            final(self).topology() == old(self).topology(),
            final(self).uniform_table() == old(self).uniform_table(),
            final(self).override_table()@ == staged(
                old(self).uniform_table()@.dom(),
                old(self).override_table()@,
                name@,
                uniform,
            ),
            old(self).uniform_table()@.contains_key((name@, uniform.uniform_type())) ==> {
                &&& diagnostic is None
                &&& final(self).override_table().keys() == if old(
                    self,
                ).override_table()@.contains_key((name@, uniform.uniform_type())) {
                    old(self).override_table().keys()
                } else {
                    old(self).override_table().keys().push((name@, uniform.uniform_type()))
                }
            },
            !old(self).uniform_table()@.contains_key((name@, uniform.uniform_type())) ==> {
                &&& diagnostic == Some(Diagnostic::UniformNotDeclared)
                &&& final(self).override_table() == old(self).override_table()
            },
    {
        let uniform_type = uniform.get_type();
        let exist_entry = self.uniforms.contains_key(name, uniform_type);
        if exist_entry {
            let ghost key = (name@, uniform_type);
            let ghost before = self.uniform_overrides@;
            self.uniform_overrides.upsert(name, uniform_type, uniform);
            assert forall|k: KeyView| #[trigger]
                self.override_table()@.contains_key(k) implies self.uniform_table()@.contains_key(k)
                && self.override_table()@[k].uniform_type() == k.1 by {
                if k != key {
                    assert(before.contains_key(k));
                }
            }
            None
        } else {
            Some(Diagnostic::UniformNotDeclared)
        }
    }

    /// Makes the staged overrides visible to the device: the program is made
    /// current, then every override whose location was found is uploaded by
    /// the call that fits its type. The overrides stay staged.
    ///
    /// An override whose location was not found is passed over in silence;
    /// one of type `Invalid` is reported and not uploaded.
    pub fn flush(&self, device: &mut GLDevice) -> (diagnostics: Vec<Diagnostic>)
        requires
            self.wf(),
        ensures
            final(device)@ == old(device)@ + self.flush_calls(),
            final(device).has_debug_output() == old(device).has_debug_output(),
            diagnostics@ == self.flush_diagnostics(),
    {
        device.submit(GlCall::UseProgram { program: self.program });
        let mut diagnostics: Vec<Diagnostic> = Vec::new();
        let count: usize = self.uniform_overrides.len();
        let ghost first = seq![GlCall::UseProgram { program: self.program_id() }];
        assert(device@ =~= old(device)@ + first + self.uploads(0));
        let mut i: usize = 0;
        while i < count
            invariant
                self.wf(),
                i <= count,
                count == self.override_table().keys().len(),
                first == seq![GlCall::UseProgram { program: self.program_id() }],
                device@ == old(device)@ + first + self.uploads(i as nat),
                device.has_debug_output() == old(device).has_debug_output(),
                diagnostics@ == self.upload_diagnostics(i as nat),
            decreases count - i,
        {
            let name = self.uniform_overrides.name_at(i);
            let kind = self.uniform_overrides.kind_at(i);
            let value: ShaderUniform = *self.uniform_overrides.value_at(i);
            proof {
                self.override_table().lemma_lookup(i as int);
            }
            let location: i32 = match self.uniforms.get(name, kind) {
                Some(slot) => slot.location,
                None => LOCATION_NOT_FOUND,
            };
            assert(location == self.override_location(i as int));
            let plan = plan_upload(location, value);
            let ghost before = device@;
            match plan.0 {
                Some(call) => {
                    device.submit(call);
                },
                None => {},
            }
            match plan.1 {
                Some(diagnostic) => {
                    diagnostics.push(diagnostic);
                },
                None => {},
            }
            assert(device@ =~= old(device)@ + first + self.uploads((i + 1) as nat));
            i += 1;
        }
        assert(device@ =~= old(device)@ + self.flush_calls());
        diagnostics
    }
}

/// The overrides after a value was set for `name`: the value is staged under
/// the name and its own type where `declared` holds that key, and nothing
/// changes where it does not.
pub open spec fn staged(
    declared: Set<KeyView>,
    overrides: Map<KeyView, ShaderUniform>,
    name: Seq<char>,
    uniform: ShaderUniform,
) -> Map<KeyView, ShaderUniform> {
    if declared.contains((name, uniform.uniform_type())) {
        overrides.insert((name, uniform.uniform_type()), uniform)
    } else {
        overrides
    }
}

/// Of two values set one after the other for the same name and type, only
/// the second is staged: the last write wins.
pub proof fn lemma_last_write_wins(
    declared: Set<KeyView>,
    overrides: Map<KeyView, ShaderUniform>,
    name: Seq<char>,
    first: ShaderUniform,
    second: ShaderUniform,
)
    requires
        first.uniform_type() == second.uniform_type(),
    ensures
        staged(declared, staged(declared, overrides, name, first), name, second) == staged(
            declared,
            overrides,
            name,
            second,
        ),
        declared.contains((name, second.uniform_type())) ==> staged(
            declared,
            staged(declared, overrides, name, first),
            name,
            second,
        )[(name, second.uniform_type())] == second,
{
    let key = (name, second.uniform_type());
    if declared.contains(key) {
        assert(overrides.insert(key, first).insert(key, second) =~= overrides.insert(key, second));
    }
}

/// Setting values never stages anything for a uniform that was not
/// reflected.
pub proof fn lemma_staged_within_declared(
    declared: Set<KeyView>,
    overrides: Map<KeyView, ShaderUniform>,
    name: Seq<char>,
    uniform: ShaderUniform,
)
    requires
        overrides.dom().subset_of(declared),
    ensures
        staged(declared, overrides, name, uniform).dom().subset_of(declared),
{
}

impl Pipeline {
    /// A flush with nothing staged makes the program current and uploads
    /// nothing, so that no value uploaded before is touched.
    pub proof fn lemma_flush_nothing_staged(&self)
        requires
            self.override_table().keys().len() == 0,
        ensures
            self.flush_calls() == seq![GlCall::UseProgram { program: self.program_id() }],
            self.flush_diagnostics() == Seq::<Diagnostic>::empty(),
    {
        assert(self.flush_calls() =~= seq![GlCall::UseProgram { program: self.program_id() }]);
    }

    /// The uploads of the first `i` overrides open those of the first `n`.
    proof fn lemma_uploads_extend(&self, i: nat, n: nat)
        requires
            i <= n,
        ensures
            self.uploads(i).len() <= self.uploads(n).len() <= n,
            self.uploads(n).subrange(0, self.uploads(i).len() as int) == self.uploads(i),
            self.upload_diagnostics(n).len() <= n,
        decreases n,
    {
        if i < n {
            self.lemma_uploads_extend(i, (n - 1) as nat);
        } else if n > 0 {
            self.lemma_uploads_extend((n - 1) as nat, (n - 1) as nat);
        }
        assert(self.uploads(n).subrange(0, self.uploads(i).len() as int) =~= self.uploads(i));
    }

    /// Every one of the uploads of the first `n` overrides is that of an
    /// override, and stands behind the uploads of the overrides before it.
    proof fn lemma_upload_has_its_override(&self, n: nat, p: int) -> (i: nat)
        requires
            0 <= p < self.uploads(n).len(),
        ensures
            i < n,
            self.upload_at(i) == Some(self.uploads(n)[p]),
            self.uploads(i).len() == p,
        decreases n,
    {
        let m = (n - 1) as nat;
        if p < self.uploads(m).len() {
            self.lemma_upload_has_its_override(m, p)
        } else {
            m
        }
    }

    /// A flush uploads every staged override that has an upload exactly once,
    /// with its value, at its location and in the order of the table, and
    /// uploads nothing else.
    ///
    /// Of the first `n` overrides, one that has an upload has it behind the
    /// uploads of the overrides before it, so that no two share an upload;
    /// and every upload is that of an override.
    pub proof fn lemma_flush_uploads_each_once(&self, n: nat)
        ensures
            self.uploads(n).len() <= n,
            self.upload_diagnostics(n).len() <= n,
            forall|i: nat|
                i < n && (#[trigger] self.upload_at(i)) is Some ==> {
                    &&& self.uploads(i).len() < self.uploads(n).len()
                    &&& self.uploads(n)[self.uploads(i).len() as int] == self.upload_at(i)->0
                },
            forall|i: nat, j: nat|
                i < j <= n && (#[trigger] self.upload_at(i)) is Some ==> self.uploads(i).len() < (
                #[trigger] self.uploads(j)).len(),
            forall|p: int|
                0 <= p < self.uploads(n).len() ==> exists|i: nat|
                    i < n && (#[trigger] self.upload_at(i)) == Some(#[trigger] self.uploads(n)[p])
                        && self.uploads(i).len() == p,
    {
        self.lemma_uploads_extend(n, n);
        assert forall|i: nat| i < n && (#[trigger] self.upload_at(i)) is Some implies {
            &&& self.uploads(i).len() < self.uploads(n).len()
            &&& self.uploads(n)[self.uploads(i).len() as int] == self.upload_at(i)->0
        } by {
            let next = i + 1;
            let own = self.uploads(i).len() as int;
            self.lemma_uploads_extend(next, n);
            assert(self.uploads(next) == self.uploads(i).push(self.upload_at(i)->0));
            assert(self.uploads(n).subrange(0, own + 1)[own] == self.uploads(next)[own]);
        }
        assert forall|i: nat, j: nat|
            i < j <= n && (#[trigger] self.upload_at(i)) is Some implies self.uploads(i).len() < (
        #[trigger] self.uploads(j)).len() by {
            let next = i + 1;
            self.lemma_uploads_extend(next, j);
            assert(self.uploads(next) == self.uploads(i).push(self.upload_at(i)->0));
        }
        assert forall|p: int| 0 <= p < self.uploads(n).len() implies exists|i: nat|
            i < n && (#[trigger] self.upload_at(i)) == Some(#[trigger] self.uploads(n)[p])
                && self.uploads(i).len() == p by {
            let i = self.lemma_upload_has_its_override(n, p);
            assert(i < n && self.upload_at(i) == Some(self.uploads(n)[p]) && self.uploads(i).len()
                == p);
        }
    }
}

} // verus!
