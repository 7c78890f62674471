//! What the pipeline and its driver need of a graphics device: a few
//! capability queries, and command lists that record drawing operations and
//! replay them later.

pub mod opengl;

use vstd::prelude::*;
use crate::device::opengl::{bind_calls, GLDevice, GlCall};
use crate::pipeline::Pipeline;

verus! {

/// How a draw assembles the vertex stream into primitives.
#[derive(PartialEq, Eq, Structural, Copy, Clone, Debug)]
pub enum PrimitiveTopology {
    Triangles,
    Lines,
}

/// The enumerant of OpenGL for triangles.
pub const GL_TRIANGLES: u32 = 0x0004;

/// The enumerant of OpenGL for lines.
pub const GL_LINES: u32 = 0x0001;

impl PrimitiveTopology {
    /// The enumerant by which OpenGL knows the topology.
    pub fn to_gl_enum(top: &Self) -> (mode: u32)
        ensures
            mode == match *top {
                PrimitiveTopology::Triangles => GL_TRIANGLES,
                PrimitiveTopology::Lines => GL_LINES,
            },
    {
        match top {
            PrimitiveTopology::Triangles => GL_TRIANGLES,
            PrimitiveTopology::Lines => GL_LINES,
        }
    }
}

/// The width of the elements of an index buffer.
#[derive(PartialEq, Eq, Structural, Copy, Clone, Debug)]
pub enum IndexType {
    UnsignedShort,
    UnsignedInt,
}

/// The state of a pipeline as a command list copies it when the pipeline is
/// bound. Later changes to the pipeline do not reach the copy.
#[derive(PartialEq, Eq, Structural, Copy, Clone, Debug)]
pub struct BoundPipeline {
    pub program: u32,
    pub depth_test: bool,
    pub blend_enabled: bool,
    pub topology: PrimitiveTopology,
}

/// One recorded step of a command list. A step holds all that its replay
/// needs.
#[derive(Copy, Clone, Debug, PartialEq, Eq)]
pub enum Command {
    Clear { color: [u32; 4], depth: Option<u32> },
    Draw {
        vertex_count: u32,
        instance_count: u32,
        first_vertex: u32,
        first_instance: u32,
        topology: PrimitiveTopology,
    },
    DrawIndexed {
        index_count: u32,
        instance_count: u32,
        first_index: u32,
        vertex_offset: u32,
        first_instance: u32,
        topology: PrimitiveTopology,
    },
    BindPipeline { program: u32, depth_test: bool, blend_enabled: bool },
    BindVertexBuffers { buffer: u32 },
    BindIndexBuffer { buffer: u32, offset: u32, index_type: IndexType },
}

impl Command {
    /// The calls that replay the step. A draw is not instanced, and an
    /// indexed draw reads 32-bit indices from the start of the bound buffer.
    pub open spec fn calls(self) -> Seq<GlCall> {
        match self {
            Command::Clear { color, depth } => seq![GlCall::Clear { color, depth }],
            Command::Draw { vertex_count, first_vertex, topology, .. } => seq![
                GlCall::DrawArrays { topology, first: first_vertex, count: vertex_count },
            ],
            Command::DrawIndexed { index_count, topology, .. } => seq![
                GlCall::DrawElements {
                    topology,
                    count: index_count,
                    index_type: IndexType::UnsignedInt,
                },
            ],
            Command::BindPipeline { program, depth_test, blend_enabled } => bind_calls(
                program,
                depth_test,
                blend_enabled,
            ),
            Command::BindVertexBuffers { buffer } => seq![GlCall::BindArrayBuffer { buffer }],
            Command::BindIndexBuffer { buffer, .. } => seq![GlCall::BindElementBuffer { buffer }],
        }
    }
}

/// The calls that replay a run of steps, first to last.
pub open spec fn replay(commands: Seq<Command>) -> Seq<GlCall>
    decreases commands.len(),
{
    if commands.len() == 0 {
        Seq::empty()
    } else {
        replay(commands.drop_last()) + commands.last().calls()
    }
}

/// An ordered recording of drawing operations, built once and replayed as
/// often as wanted.
pub struct CommandList {
    commands: Vec<Command>,
    active_pipeline: Option<BoundPipeline>,
}

impl View for CommandList {
    type V = Seq<Command>;

    /// The recorded steps, first to last.
    closed spec fn view(&self) -> Seq<Command> {
        self.commands@
    }
}

impl CommandList {
    /// The pipeline that was bound last, as it was when it was bound.
    pub closed spec fn active(&self) -> Option<BoundPipeline> {
        self.active_pipeline
    }

    /// A list with no step and no pipeline bound.
    pub fn new() -> (list: Self)
        ensures
            list@ == Seq::<Command>::empty(),
            list.active() is None,
    {
        CommandList { commands: Vec::new(), active_pipeline: None }
    }

    /// The number of recorded steps.
    pub fn len(&self) -> (n: usize)
        ensures
            n == self@.len(),
    {
        self.commands.len()
    }

    /// The recorded steps.
    pub fn commands(&self) -> (commands: &Vec<Command>)
        ensures
            commands@ == self@,
    {
        &self.commands
    }

    /// The pipeline that was bound last, if any.
    pub fn active_pipeline(&self) -> (bound: Option<BoundPipeline>)
        ensures
            bound == self.active(),
    {
        self.active_pipeline
    }

    /// Replays the recorded steps on `device`, in the order of recording. The
    /// list is left as it is.
    pub fn execute(&self, device: &mut GLDevice)
        ensures
            final(device)@ == old(device)@ + replay(self@),
            final(device).has_debug_output() == old(device).has_debug_output(),
    {
        let mut i: usize = 0;
        assert(self@.take(0) =~= Seq::empty());
        while i < self.commands.len()
            invariant
                i <= self@.len(),
                self@ == self.commands@,
                device@ == old(device)@ + replay(self@.take(i as int)),
                device.has_debug_output() == old(device).has_debug_output(),
            decreases self@.len() - i,
        {
            let command = self.commands[i];
            proof {
                let longer = self@.take(i + 1);
                assert(longer.drop_last() =~= self@.take(i as int));
                assert(longer.last() == command);
            }
            let ghost before = device@;
            match command {
                Command::Clear { color, depth } => {
                    device.submit(GlCall::Clear { color, depth });
                },
                Command::Draw { vertex_count, first_vertex, topology, .. } => {
                    device.submit(
                        GlCall::DrawArrays { topology, first: first_vertex, count: vertex_count },
                    );
                },
                Command::DrawIndexed { index_count, topology, .. } => {
                    device.submit(
                        GlCall::DrawElements {
                            topology,
                            count: index_count,
                            index_type: IndexType::UnsignedInt,
                        },
                    );
                },
                Command::BindPipeline { program, depth_test, blend_enabled } => {
                    device.submit(
                        GlCall::SetEnabled {
                            capability: crate::device::opengl::Capability::DepthTest,
                            enabled: depth_test,
                        },
                    );
                    device.submit(
                        GlCall::SetEnabled {
                            capability: crate::device::opengl::Capability::Blend,
                            enabled: blend_enabled,
                        },
                    );
                    device.submit(GlCall::UseProgram { program });
                },
                Command::BindVertexBuffers { buffer } => {
                    device.submit(GlCall::BindArrayBuffer { buffer });
                },
                Command::BindIndexBuffer { buffer, .. } => {
                    device.submit(GlCall::BindElementBuffer { buffer });
                },
            }
            assert(device@ =~= before + command.calls());
            assert(device@ =~= old(device)@ + replay(self@.take(i + 1)));
            i += 1;
        }
        assert(self@.take(self@.len() as int) =~= self@);
    }

    /// Drops every recorded step. The pipeline that was bound last stays
    /// bound.
    pub fn reset(&mut self)
        ensures
            final(self)@ == Seq::<Command>::empty(),
            final(self).active() == old(self).active(),
    {
        self.commands.clear();
    }

    /// Records a clear of the colour buffer and, with a `depth`, of the depth
    /// buffer.
    pub fn clear(&mut self, clear_color: [u32; 4], depth: Option<u32>)
        ensures
            final(self)@ == old(self)@.push(Command::Clear { color: clear_color, depth }),
            final(self).active() == old(self).active(),
    {
        self.commands.push(Command::Clear { color: clear_color, depth });
    }

    /// Records a draw of `vertex_count` vertices, with the topology of the
    /// pipeline that is bound now.
    pub fn draw(
        &mut self,
        vertex_count: u32,
        instance_count: u32,
        first_vertex: u32,
        first_instance: u32,
    )
        requires
            old(self).active() is Some,
        ensures
            final(self)@ == old(self)@.push(
                Command::Draw {
                    vertex_count,
                    instance_count,
                    first_vertex,
                    first_instance,
                    topology: old(self).active()->0.topology,
                },
            ),
            final(self).active() == old(self).active(),
    {
        let topology = match self.active_pipeline {
            Some(bound) => bound.topology,
            None => PrimitiveTopology::Triangles,
        };
        self.commands.push(
            Command::Draw { vertex_count, instance_count, first_vertex, first_instance, topology },
        );
    }

    /// Records an indexed draw of `index_count` indices, with the topology of
    /// the pipeline that is bound now.
    pub fn draw_indexed(
        &mut self,
        index_count: u32,
        instance_count: u32,
        first_index: u32,
        vertex_offset: u32,
        first_instance: u32,
    )
        requires
            old(self).active() is Some,
        ensures
            final(self)@ == old(self)@.push(
                Command::DrawIndexed {
                    index_count,
                    instance_count,
                    first_index,
                    vertex_offset,
                    first_instance,
                    topology: old(self).active()->0.topology,
                },
            ),
            final(self).active() == old(self).active(),
    {
        let topology = match self.active_pipeline {
            Some(bound) => bound.topology,
            None => PrimitiveTopology::Triangles,
        };
        self.commands.push(
            Command::DrawIndexed {
                index_count,
                instance_count,
                first_index,
                vertex_offset,
                first_instance,
                topology,
            },
        );
    }

    /// Records the binding of `pipeline`: its program and its two flags are
    /// copied now, and so is the topology that later draws will use.
    pub fn bind_pipeline(&mut self, pipeline: &Pipeline)
        ensures
            final(self)@ == old(self)@.push(
                Command::BindPipeline {
                    program: pipeline.program_id(),
                    depth_test: pipeline.depth_test_on(),
                    blend_enabled: pipeline.blend_on(),
                },
            ),
            final(self).active() == Some(pipeline.bound_state()),
    {
        let bound = BoundPipeline {
            program: pipeline.program(),
            depth_test: pipeline.depth_test(),
            blend_enabled: pipeline.blend_enabled(),
            topology: pipeline.primitive_topology(),
        };
        self.active_pipeline = Some(bound);
        self.commands.push(
            Command::BindPipeline {
                program: bound.program,
                depth_test: bound.depth_test,
                blend_enabled: bound.blend_enabled,
            },
        );
    }

    /// Records the binding of vertex buffers. The first buffer is the one
    /// that the replay binds.
    pub fn bind_vertex_buffers(
        &mut self,
        first_binding: u32,
        binding_count: u32,
        buffers: &[u32],
        offsets: &[u32],
    )
        requires
            old(self).active() is Some,
            buffers@.len() > 0,
        ensures
            final(self)@ == old(self)@.push(Command::BindVertexBuffers { buffer: buffers@[0] }),
            final(self).active() == old(self).active(),
    {
        self.commands.push(Command::BindVertexBuffers { buffer: buffers[0] });
    }

    /// Records the binding of an index buffer.
    pub fn bind_index_buffer(&mut self, buffer: &u32, offset: u32, index_type: IndexType)
        requires
            old(self).active() is Some,
        ensures
            final(self)@ == old(self)@.push(
                Command::BindIndexBuffer { buffer: *buffer, offset, index_type },
            ),
            final(self).active() == old(self).active(),
    {
        self.commands.push(Command::BindIndexBuffer { buffer: *buffer, offset, index_type });
    }
}

/// A graphics device.
pub trait Device {
    /// Whether the context may be used from more than one thread.
    fn supports_multithreading(&self) -> bool;

    /// Asks the device to report its debug messages.
    fn enable_debug_layer(&mut self) -> Result<(), String>;

    /// A new command list, with no step recorded and no pipeline bound.
    fn create_command_list(&self) -> (list: CommandList)
        ensures
            list@ == Seq::<Command>::empty(),
            list.active() is None,
    ;
}

} // verus!
