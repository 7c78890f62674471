//! The OpenGL device.
//!
//! The library does not talk to the graphics API. Whatever it decides to do to
//! the device it appends, as a [`GlCall`], to the list that the device value
//! holds; the owner of the context takes the list and performs each call in
//! order. The device value is thus the one place through which the state of
//! the context is changed.

use vstd::prelude::*;
use crate::device::{CommandList, Device, IndexType, PrimitiveTopology};
use crate::pipeline::{Diagnostic, Pipeline};

verus! {

/// What [`Device::enable_debug_layer`] answers where the context does not
/// offer debug output.
pub const NO_DEBUG_OUTPUT: &'static str = "the context does not offer debug output";

/// A capability of the fixed-function pipeline that can be switched.
#[derive(PartialEq, Eq, Structural, Copy, Clone, Debug)]
pub enum Capability {
    DepthTest,
    Blend,
}

/// One call to be made on the graphics context. Floating-point arguments are
/// bit patterns of single-precision numbers.
#[derive(Copy, Clone, Debug, PartialEq, Eq)]
#[allow(inconsistent_fields)]
pub enum GlCall {
    /// Make `program` the current program.
    UseProgram { program: u32 },
    /// Enable or disable a capability.
    SetEnabled { capability: Capability, enabled: bool },
    /// Upload an integer to the uniform at `location` of the current program.
    Uniform1i { location: i32, value: i32 },
    /// Upload a float.
    Uniform1f { location: i32, value: u32 },
    /// Upload a vector of two floats.
    Uniform2f { location: i32, value: [u32; 2] },
    /// Upload a vector of three floats.
    Uniform3f { location: i32, value: [u32; 3] },
    /// Upload a vector of four floats.
    Uniform4f { location: i32, value: [u32; 4] },
    /// Upload a 3x3 matrix, in the order in which it is stored.
    UniformMatrix3 { location: i32, value: [[u32; 3]; 3] },
    /// Upload a 4x4 matrix, in the order in which it is stored.
    UniformMatrix4 { location: i32, value: [[u32; 4]; 4] },
    /// Bind `texture` to the texture unit numbered by `location`.
    BindTextureUnit { location: i32, texture: u32 },
    /// Clear the colour buffer to `color` and, with a `depth`, the depth
    /// buffer to it.
    Clear { color: [u32; 4], depth: Option<u32> },
    /// Draw `count` vertices starting at `first`.
    DrawArrays { topology: PrimitiveTopology, first: u32, count: u32 },
    /// Draw `count` indices of the bound index buffer.
    DrawElements { topology: PrimitiveTopology, count: u32, index_type: IndexType },
    /// Bind `buffer` as the vertex buffer.
    BindArrayBuffer { buffer: u32 },
    /// Bind `buffer` as the index buffer.
    BindElementBuffer { buffer: u32 },
    /// Switch debug output on and register the message callback.
    EnableDebugOutput,
}

/// The calls that bind a pipeline's state: its two capabilities, then its
/// program.
pub open spec fn bind_calls(program: u32, depth_test: bool, blend_enabled: bool) -> Seq<GlCall> {
    seq![
        GlCall::SetEnabled { capability: Capability::DepthTest, enabled: depth_test },
        GlCall::SetEnabled { capability: Capability::Blend, enabled: blend_enabled },
        GlCall::UseProgram { program },
    ]
}

/// The OpenGL device: the calls that wait to be performed on the context, and
/// whether the context offers debug output.
pub struct GLDevice {
    calls: Vec<GlCall>,
    debug_output: bool,
}

impl View for GLDevice {
    type V = Seq<GlCall>;

    /// The calls that wait to be performed, oldest first.
    closed spec fn view(&self) -> Seq<GlCall> {
        self.calls@
    }
}

impl GLDevice {
    /// Whether the context offers debug output.
    pub closed spec fn has_debug_output(&self) -> bool {
        self.debug_output
    }

    /// A device for a context that does or does not offer debug output, with
    /// no call waiting.
    pub fn new(debug_output: bool) -> (device: Self)
        ensures
            device@ == Seq::<GlCall>::empty(),
            device.has_debug_output() == debug_output,
    {
        GLDevice { calls: Vec::new(), debug_output }
    }

    /// Appends one call.
    pub fn submit(&mut self, call: GlCall)
        ensures
            final(self)@ == old(self)@.push(call),
            final(self).has_debug_output() == old(self).has_debug_output(),
    {
        self.calls.push(call);
    }

    /// The calls that wait to be performed.
    pub fn pending(&self) -> (calls: &Vec<GlCall>)
        ensures
            calls@ == self@,
    {
        &self.calls
    }

    /// Hands out the calls that wait, and leaves none waiting.
    pub fn take_calls(&mut self) -> (calls: Vec<GlCall>)
        ensures
            calls@ == old(self)@,
            final(self)@ == Seq::<GlCall>::empty(),
            final(self).has_debug_output() == old(self).has_debug_output(),
    {
        let mut calls: Vec<GlCall> = Vec::new();
        core::mem::swap(&mut calls, &mut self.calls);
        calls
    }

    /// Binds a pipeline for immediate drawing: makes its program current,
    /// flushes its staged uniforms, then sets the depth test and blending as
    /// the pipeline asks.
    pub fn bind_pipeline(&mut self, pipeline: &Pipeline) -> (diagnostics: Vec<Diagnostic>)
        requires
            pipeline.wf(),
        ensures
            final(self)@ == old(self)@.push(GlCall::UseProgram { program: pipeline.program_id() })
                + pipeline.flush_calls() + seq![
                GlCall::SetEnabled {
                    capability: Capability::DepthTest,
                    enabled: pipeline.depth_test_on(),
                },
                GlCall::SetEnabled {
                    capability: Capability::Blend,
                    enabled: pipeline.blend_on(),
                },
            ],
            diagnostics@ == pipeline.flush_diagnostics(),
            final(self).has_debug_output() == old(self).has_debug_output(),
    {
        self.submit(GlCall::UseProgram { program: pipeline.program() });
        let diagnostics = pipeline.flush(self);
        self.submit(
            GlCall::SetEnabled { capability: Capability::DepthTest, enabled: pipeline.depth_test() },
        );
        self.submit(
            GlCall::SetEnabled { capability: Capability::Blend, enabled: pipeline.blend_enabled() },
        );
        diagnostics
    }
}

impl Device for GLDevice {
    /// A context of OpenGL is bound to one thread.
    fn supports_multithreading(&self) -> (supported: bool)
        ensures
            !supported,
    {
        false
    }

    /// Asks for debug output. Fails with [`NO_DEBUG_OUTPUT`], and asks the
    /// context for nothing, where the context does not offer it.
    fn enable_debug_layer(&mut self) -> (outcome: Result<(), String>)
        ensures
            final(self).has_debug_output() == old(self).has_debug_output(),
            outcome is Ok <==> old(self).has_debug_output(),
            outcome is Ok ==> final(self)@ == old(self)@.push(GlCall::EnableDebugOutput),
            outcome is Err ==> final(self)@ == old(self)@,
            outcome matches Err(message) ==> message@ == NO_DEBUG_OUTPUT@,
    {
        if self.debug_output {
            self.submit(GlCall::EnableDebugOutput);
            Ok(())
        } else {
            Err(NO_DEBUG_OUTPUT.to_owned())
        }
    }

    fn create_command_list(&self) -> (list: CommandList) {
        CommandList::new()
    }
}

} // verus!
