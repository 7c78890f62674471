//! The construction of a pipeline.
//!
//! Compiling, linking and querying a program are the work of the graphics
//! context, which the library does not reach. A [`PipelineBuilder`] decides
//! what has to be done next and in which order; the driver does it and hands
//! back what came of it:
//!
//! 1. each stage is compiled, vertex first, fragment last; a failure ends the
//!    construction with the compiler's log;
//! 2. the uniforms are reflected from the sources of all stages;
//! 3. the stages are linked; a failure ends the construction with the
//!    linker's log;
//! 4. the location of every reflected uniform is asked for, once each, and
//!    stored, found or not;
//! 5. the pipeline is handed out with depth test on, blending off, triangles
//!    as topology and nothing staged.

use vstd::prelude::*;
use crate::device::PrimitiveTopology;
use crate::pipeline::Pipeline;
use crate::reflect::{
    listing, parse_uniforms, program_uniforms, EntryView, ReflectError, SlotView, UniformSlot,
    UniformTable,
};
use crate::table::{KeyView, UniformMap};
use crate::uniform::ShaderUniform;

verus! {

/// A stage of a program.
#[derive(PartialEq, Eq, Structural, Copy, Clone, Debug)]
pub enum ShaderStage {
    Vertex,
    Fragment,
    Geometry,
}

/// Why no pipeline was constructed.
#[derive(Debug)]
pub enum PipelineError {
    /// A stage did not compile; `log` is the compiler's text.
    Compilation { stage: ShaderStage, log: String },
    /// The stages did not link; `log` is the linker's text.
    Link { log: String },
    /// The sources could not be reflected.
    Reflection(ReflectError),
    /// The construction was not carried to its end.
    Incomplete,
}

/// What the driver has to do next.
#[derive(Debug)]
pub enum BuildRequest {
    /// Compile the source of `stage`.
    Compile { stage: ShaderStage },
    /// Link the compiled stages into a program: vertex, geometry if any, then
    /// fragment.
    Link { vertex: u32, geometry: Option<u32>, fragment: u32 },
    /// Ask `program` for the location of the uniform `name`.
    Locate { program: u32, name: String },
    /// Nothing: the construction has ended.
    Nothing,
}

/// What came of the last request.
#[derive(Debug)]
pub enum BuildEvent {
    /// The stage compiled to this shader, or failed with this log.
    Compiled(Result<u32, String>),
    /// The stages linked to this program, or failed with this log.
    Linked(Result<u32, String>),
    /// The location of the uniform, or the value for "not found".
    Located(i32),
}

/// How far a construction has come.
#[derive(PartialEq, Eq, Structural, Copy, Clone, Debug)]
pub enum Phase {
    /// The stage is to be compiled.
    Compile(ShaderStage),
    /// The stages are to be linked.
    Link,
    /// The location of the uniform at this position of the table is to be
    /// asked for.
    Locate(usize),
    /// The pipeline is ready.
    Done,
    /// The construction has failed.
    Failed,
}

/// The state of a construction.
pub struct PipelineBuilder {
    phase: Phase,
    with_geometry: bool,
    vertex: u32,
    geometry: u32,
    fragment: u32,
    program: u32,
    uniforms: UniformTable,
    reflect_error: Option<ReflectError>,
    failure: Option<PipelineError>,
}

/// The phase that follows the compilation of `stage`. After the last stage
/// the reflection is looked at: a source that could not be reflected ends the
/// construction there.
pub open spec fn phase_after_compile(
    stage: ShaderStage,
    with_geometry: bool,
    reflect_error: Option<ReflectError>,
) -> Phase {
    match stage {
        ShaderStage::Vertex => if with_geometry {
            Phase::Compile(ShaderStage::Geometry)
        } else {
            Phase::Compile(ShaderStage::Fragment)
        },
        ShaderStage::Geometry => Phase::Compile(ShaderStage::Fragment),
        ShaderStage::Fragment => if reflect_error is Some {
            Phase::Failed
        } else {
            Phase::Link
        },
    }
}

/// The phase in which the location at position `next` is due, if there is
/// such a position in a table of `count` uniforms.
pub open spec fn phase_locating(next: int, count: int) -> Phase {
    if next < count {
        Phase::Locate(next as usize)
    } else {
        Phase::Done
    }
}

impl PipelineBuilder {
    pub closed spec fn phase(&self) -> Phase {
        self.phase
    }

    /// Whether the program has a geometry stage.
    pub closed spec fn has_geometry(&self) -> bool {
        self.with_geometry
    }

    /// The shader that `stage` compiled to, once it has.
    pub closed spec fn shader(&self, stage: ShaderStage) -> u32 {
        match stage {
            ShaderStage::Vertex => self.vertex,
            ShaderStage::Geometry => self.geometry,
            ShaderStage::Fragment => self.fragment,
        }
    }

    /// The linked program, once there is one.
    pub closed spec fn linked_program(&self) -> u32 {
        self.program
    }

    /// The reflected uniforms.
    pub closed spec fn table(&self) -> UniformTable {
        self.uniforms
    }

    /// Why the sources could not be reflected, if they could not.
    pub closed spec fn reflect_error(&self) -> Option<ReflectError> {
        self.reflect_error
    }

    /// Why the construction failed, once it has.
    pub closed spec fn failure(&self) -> Option<PipelineError> {
        self.failure
    }

    /// The table is well formed, a location is asked for only at a position
    /// of the table, and a failed construction knows why it failed.
    pub open spec fn wf(&self) -> bool {
        &&& self.table().wf()
        &&& self.phase() matches Phase::Locate(i) ==> i < self.table().keys().len()
        &&& self.phase() is Failed ==> self.failure() is Some
    }

    /// Whether `post` is the state that follows `pre` on `event`.
    ///
    /// An event that does not answer the pending request changes nothing.
    pub open spec fn advanced(pre: PipelineBuilder, event: BuildEvent, post: PipelineBuilder) -> bool {
        match (pre.phase(), event) {
            (Phase::Compile(stage), BuildEvent::Compiled(Ok(shader))) => {
                &&& post.phase() == phase_after_compile(
                    stage,
                    pre.has_geometry(),
                    pre.reflect_error(),
                )
                &&& post.shader(stage) == shader
                &&& forall|other: ShaderStage|
                    other != stage ==> post.shader(other) == pre.shader(other)
                &&& post.failure() == match post.phase() {
                    Phase::Failed => Some(PipelineError::Reflection(pre.reflect_error()->0)),
                    _ => pre.failure(),
                }
                &&& post.has_geometry() == pre.has_geometry()
                &&& post.linked_program() == pre.linked_program()
                &&& post.table() == pre.table()
                &&& post.reflect_error() == pre.reflect_error()
            },
            (Phase::Compile(stage), BuildEvent::Compiled(Err(log))) => {
                &&& post.phase() == Phase::Failed
                &&& post.failure() == Some(PipelineError::Compilation { stage, log })
                &&& post.table() == pre.table()
            },
            (Phase::Link, BuildEvent::Linked(Ok(program))) => {
                &&& post.phase() == phase_locating(0, pre.table().keys().len() as int)
                &&& post.linked_program() == program
                &&& post.failure() == pre.failure()
                &&& post.table() == pre.table()
            },
            (Phase::Link, BuildEvent::Linked(Err(log))) => {
                &&& post.phase() == Phase::Failed
                &&& post.failure() == Some(PipelineError::Link { log })
                &&& post.table() == pre.table()
            },
            (Phase::Locate(i), BuildEvent::Located(location)) => {
                &&& post.phase() == phase_locating(i + 1, pre.table().keys().len() as int)
                &&& post.linked_program() == pre.linked_program()
                &&& post.failure() == pre.failure()
                &&& listing(&post.table()) == listing(&pre.table()).update(
                    i as int,
                    (
                        pre.table().keys()[i as int],
                        SlotView {
                            location,
                            default_literal: pre.table().values()[i as int]@.default_literal,
                        },
                    ),
                )
            },
            _ => post == pre,
        }
    }

    fn begin(with_geometry: bool, uniforms: UniformTable, reflect_error: Option<ReflectError>) -> (builder:
        PipelineBuilder)
        requires
            uniforms.wf(),
        ensures
            builder.wf(),
            builder.phase() == Phase::Compile(ShaderStage::Vertex),
            builder.has_geometry() == with_geometry,
            builder.table() == uniforms,
            builder.reflect_error() == reflect_error,
            builder.failure() is None,
    {
        PipelineBuilder {
            phase: Phase::Compile(ShaderStage::Vertex),
            with_geometry,
            vertex: 0,
            geometry: 0,
            fragment: 0,
            program: 0,
            uniforms,
            reflect_error,
            failure: None,
        }
    }

    /// How far the construction has come.
    pub fn current_phase(&self) -> (phase: Phase)
        ensures
            phase == self.phase(),
    {
        self.phase
    }

    /// What the driver has to do next.
    pub fn request(&self) -> (request: BuildRequest)
        requires
            self.wf(),
        ensures
            match self.phase() {
                Phase::Compile(stage) => request == (BuildRequest::Compile { stage }),
                Phase::Link => request == (BuildRequest::Link {
                    vertex: self.shader(ShaderStage::Vertex),
                    geometry: if self.has_geometry() {
                        Some(self.shader(ShaderStage::Geometry))
                    } else {
                        None
                    },
                    fragment: self.shader(ShaderStage::Fragment),
                }),
                Phase::Locate(i) => request matches BuildRequest::Locate { program, name }
                    && program == self.linked_program() && name@ == self.table().keys()[i as int].0,
                Phase::Done | Phase::Failed => request is Nothing,
            },
    {
        match self.phase {
            Phase::Compile(stage) => BuildRequest::Compile { stage },
            Phase::Link => BuildRequest::Link {
                vertex: self.vertex,
                geometry: if self.with_geometry {
                    Some(self.geometry)
                } else {
                    None
                },
                fragment: self.fragment,
            },
            Phase::Locate(i) => BuildRequest::Locate {
                program: self.program,
                name: self.uniforms.name_at(i).to_owned(),
            },
            Phase::Done => BuildRequest::Nothing,
            Phase::Failed => BuildRequest::Nothing,
        }
    }

    /// Takes what came of the pending request and moves on.
    pub fn advance(&mut self, event: BuildEvent)
        requires
            old(self).wf(),
        ensures
            final(self).wf(),
            Self::advanced(*old(self), event, *final(self)),
    {
        match (self.phase, event) {
            (Phase::Compile(stage), BuildEvent::Compiled(Ok(shader))) => {
                match stage {
                    ShaderStage::Vertex => {
                        self.vertex = shader;
                        self.phase = if self.with_geometry {
                            Phase::Compile(ShaderStage::Geometry)
                        } else {
                            Phase::Compile(ShaderStage::Fragment)
                        };
                    },
                    ShaderStage::Geometry => {
                        self.geometry = shader;
                        self.phase = Phase::Compile(ShaderStage::Fragment);
                    },
                    ShaderStage::Fragment => {
                        self.fragment = shader;
                        match self.reflect_error {
                            Some(error) => {
                                self.phase = Phase::Failed;
                                self.failure = Some(PipelineError::Reflection(error));
                            },
                            None => {
                                self.phase = Phase::Link;
                            },
                        }
                    },
                }
            },
            (Phase::Compile(stage), BuildEvent::Compiled(Err(log))) => {
                self.phase = Phase::Failed;
                self.failure = Some(PipelineError::Compilation { stage, log });
            },
            (Phase::Link, BuildEvent::Linked(Ok(program))) => {
                self.program = program;
                self.phase = if self.uniforms.len() > 0 {
                    Phase::Locate(0)
                } else {
                    Phase::Done
                };
            },
            (Phase::Link, BuildEvent::Linked(Err(log))) => {
                self.phase = Phase::Failed;
                self.failure = Some(PipelineError::Link { log });
            },
            (Phase::Locate(i), BuildEvent::Located(location)) => {
                let ghost before = self.uniforms;
                let count: usize = self.uniforms.len();
                let default_literal = self.uniforms.value_at(i).default_literal.clone();
                self.uniforms.set_value_at(i, UniformSlot { location, default_literal });
                self.phase = if i < count - 1 {
                    Phase::Locate(i + 1)
                } else {
                    Phase::Done
                };
                assert(listing(&self.uniforms) =~= listing(&before).update(
                    i as int,
                    (
                        before.keys()[i as int],
                        SlotView {
                            location,
                            default_literal: before.values()[i as int]@.default_literal,
                        },
                    ),
                ));
            },
            _ => {},
        }
    }

    /// Ends the construction: the pipeline where every step was carried out,
    /// the reason where one failed. A construction that has not come to its
    /// end gives `Incomplete`, never a pipeline.
    pub fn finish(self) -> (outcome: Result<Pipeline, PipelineError>)
        requires
            self.wf(),
        ensures
            match self.phase() {
                Phase::Done => outcome matches Ok(pipeline) && {
                    &&& pipeline.wf()
                    &&& pipeline.program_id() == self.linked_program()
                    &&& pipeline.depth_test_on()
                    &&& !pipeline.blend_on()
                    &&& pipeline.topology() == PrimitiveTopology::Triangles
                    &&& pipeline.uniform_table() == self.table()
                    &&& pipeline.override_table()@ == Map::<KeyView, ShaderUniform>::empty()
                    &&& pipeline.override_table().keys() == Seq::<KeyView>::empty()
                },
                Phase::Failed => outcome matches Err(error) && Some(error) == self.failure(),
                _ => outcome matches Err(error) && error is Incomplete,
            },
    {
        match self.phase {
            Phase::Done => Ok(Pipeline::new(self.program, self.uniforms)),
            Phase::Failed => match self.failure {
                Some(error) => Err(error),
                None => Err(PipelineError::Incomplete),
            },
            _ => Err(PipelineError::Incomplete),
        }
    }
}

impl Pipeline {
    /// Begins the construction of a pipeline with a vertex and a fragment
    /// stage.
    pub fn create_simple(vertex_source: &[u8], fragment_source: &[u8]) -> (builder: PipelineBuilder)
        ensures
            builder.wf(),
            builder.phase() == Phase::Compile(ShaderStage::Vertex),
            !builder.has_geometry(),
            builder.failure() is None,
            match program_uniforms(vertex_source@, None, fragment_source@) {
                Ok(entries) => builder.reflect_error() is None && listing(&builder.table())
                    == entries,
                Err(error) => builder.reflect_error() == Some(error),
            },
    {
        let mut uniforms: UniformTable = UniformMap::new();
        assert(listing(&uniforms) =~= Seq::<EntryView>::empty());
        let mut reflect_error = match parse_uniforms(vertex_source, &mut uniforms) {
            Ok(()) => None,
            Err(error) => Some(error),
        };
        if reflect_error.is_none() {
            reflect_error = match parse_uniforms(fragment_source, &mut uniforms) {
                Ok(()) => None,
                Err(error) => Some(error),
            };
        }
        PipelineBuilder::begin(false, uniforms, reflect_error)
    }

    /// Begins the construction of a pipeline with a vertex, a geometry and a
    /// fragment stage.
    pub fn create_simple_with_geom(
        vertex_source: &[u8],
        geom_source: &[u8],
        fragment_source: &[u8],
    ) -> (builder: PipelineBuilder)
        ensures
            builder.wf(),
            builder.phase() == Phase::Compile(ShaderStage::Vertex),
            builder.has_geometry(),
            builder.failure() is None,
            match program_uniforms(vertex_source@, Some(geom_source@), fragment_source@) {
                Ok(entries) => builder.reflect_error() is None && listing(&builder.table())
                    == entries,
                Err(error) => builder.reflect_error() == Some(error),
            },
    {
        let mut uniforms: UniformTable = UniformMap::new();
        assert(listing(&uniforms) =~= Seq::<EntryView>::empty());
        let mut reflect_error = match parse_uniforms(vertex_source, &mut uniforms) {
            Ok(()) => None,
            Err(error) => Some(error),
        };
        if reflect_error.is_none() {
            reflect_error = match parse_uniforms(geom_source, &mut uniforms) {
                Ok(()) => None,
                Err(error) => Some(error),
            };
        }
        if reflect_error.is_none() {
            reflect_error = match parse_uniforms(fragment_source, &mut uniforms) {
                Ok(()) => None,
                Err(error) => Some(error),
            };
        }
        PipelineBuilder::begin(true, uniforms, reflect_error)
    }
}

/// No step of a construction adds, drops or renames a uniform: from the
/// reflection to the finished pipeline the keys and the default literals stay
/// as they are, and only locations are filled in.
pub proof fn lemma_advance_keeps_uniforms(
    pre: PipelineBuilder,
    event: BuildEvent,
    post: PipelineBuilder,
)
    requires
        pre.wf(),
        post.wf(),
        PipelineBuilder::advanced(pre, event, post),
    ensures
        post.table().keys() == pre.table().keys(),
        forall|i: int|
            0 <= i < pre.table().keys().len() ==> (#[trigger] post.table().values()[i])@.default_literal
                == pre.table().values()[i]@.default_literal,
{
    match (pre.phase(), event) {
        (Phase::Locate(i), BuildEvent::Located(location)) => {
            let before = listing(&pre.table());
            let after = listing(&post.table());
            assert(after.len() == before.len());
            assert forall|j: int| 0 <= j < pre.table().keys().len() implies #[trigger] post.table().keys()[j]
                == pre.table().keys()[j] by {
                assert(after[j].0 == before[j].0);
            }
            assert(post.table().keys() =~= pre.table().keys());
            assert forall|j: int| 0 <= j < pre.table().keys().len() implies (
            #[trigger] post.table().values()[j])@.default_literal
                == pre.table().values()[j]@.default_literal by {
                assert(after[j].1.default_literal == before[j].1.default_literal);
            }
        },
        _ => {},
    }
}

/// The entries after `locations` were stored, the first at the first entry
/// and so on: the keys and the default literals stay, and an entry beyond the
/// last location stays as it is.
pub open spec fn located(entries: Seq<EntryView>, locations: Seq<i32>) -> Seq<EntryView> {
    Seq::new(
        entries.len(),
        |i: int|
            if i < locations.len() {
                (
                    entries[i].0,
                    SlotView {
                        location: locations[i],
                        default_literal: entries[i].1.default_literal,
                    },
                )
            } else {
                entries[i]
            },
    )
}

/// Where a run of a construction stands after the first `k` locations came
/// back.
proof fn lemma_located_so_far(
    linking: PipelineBuilder,
    program: u32,
    locations: Seq<i32>,
    states: Seq<PipelineBuilder>,
    k: int,
)
    requires
        linking.phase() == Phase::Link,
        locations.len() == linking.table().keys().len(),
        locations.len() <= usize::MAX,
        states.len() == locations.len() + 1,
        PipelineBuilder::advanced(linking, BuildEvent::Linked(Ok(program)), states[0]),
        forall|j: int|
            0 <= j < locations.len() ==> PipelineBuilder::advanced(
                #[trigger] states[j],
                BuildEvent::Located(locations[j]),
                states[j + 1],
            ),
        0 <= k <= locations.len(),
    ensures
        states[k].phase() == phase_locating(k, locations.len() as int),
        states[k].linked_program() == program,
        states[k].failure() == linking.failure(),
        listing(&states[k].table()) == located(listing(&linking.table()), locations.take(k)),
    decreases k,
{
    let start = listing(&linking.table());
    if k == 0 {
        assert(listing(&states[0].table()) =~= located(start, locations.take(0)));
    } else {
        lemma_located_so_far(linking, program, locations, states, k - 1);
        let pre = states[k - 1];
        let post = states[k];
        assert(PipelineBuilder::advanced(pre, BuildEvent::Located(locations[k - 1]), post));
        assert(pre.phase() == Phase::Locate((k - 1) as usize));
        let before = listing(&pre.table());
        assert(before.len() == start.len());
        assert(before[k - 1] == start[k - 1]);
        assert(listing(&post.table()) =~= located(start, locations.take(k)));
    }
}

/// Once the stages are linked, the location of every reflected uniform is
/// asked for exactly once, in the order of the table, from the linked
/// program, and nothing else is asked for.
///
/// `linking` is a construction that waits for the link, `states[0]` what
/// follows it when the stages link to `program`, and `states[k + 1]` what
/// follows `states[k]` when `locations[k]` comes back. Then `states[k]` asks
/// for the location of the uniform at position `k`, the last state is done,
/// and its table holds the reflected keys and default literals with exactly
/// these locations.
pub proof fn lemma_each_uniform_is_located_once(
    linking: PipelineBuilder,
    program: u32,
    locations: Seq<i32>,
    states: Seq<PipelineBuilder>,
)
    requires
        linking.phase() == Phase::Link,
        locations.len() == linking.table().keys().len(),
        states.len() == locations.len() + 1,
        PipelineBuilder::advanced(linking, BuildEvent::Linked(Ok(program)), states[0]),
        forall|k: int|
            0 <= k < locations.len() ==> PipelineBuilder::advanced(
                #[trigger] states[k],
                BuildEvent::Located(locations[k]),
                states[k + 1],
            ),
    ensures
        forall|k: int|
            0 <= k < locations.len() ==> {
                &&& (#[trigger] states[k]).phase() == Phase::Locate(k as usize)
                &&& states[k].linked_program() == program
                &&& states[k].table().keys()[k] == linking.table().keys()[k]
            },
        states.last().phase() == Phase::Done,
        states.last().linked_program() == program,
        states.last().failure() == linking.failure(),
        listing(&states.last().table()) == located(listing(&linking.table()), locations),
{
    let start = listing(&linking.table());
    linking.table().lemma_len_fits();
    assert forall|k: int| 0 <= k < locations.len() implies {
        &&& (#[trigger] states[k]).phase() == Phase::Locate(k as usize)
        &&& states[k].linked_program() == program
        &&& states[k].table().keys()[k] == linking.table().keys()[k]
    } by {
        lemma_located_so_far(linking, program, locations, states, k);
        let now = listing(&states[k].table());
        assert(now.len() == start.len());
        assert(now[k].0 == start[k].0);
    }
    lemma_located_so_far(linking, program, locations, states, locations.len() as int);
    assert(locations.take(locations.len() as int) =~= locations);
}

} // verus!
