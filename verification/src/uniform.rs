//! The types of shader uniforms and the values that can be staged for them.
//!
//! The library never computes with floating-point components: it carries them
//! from the caller to the device. A component is therefore held as the bit
//! pattern of its IEEE-754 single-precision value, in a `u32`.

use vstd::prelude::*;
use crate::text::{parse_i32, parse_i32_spec, str_eq};

verus! {

/// The bit pattern of the single-precision number `1.0`.
pub const ONE_BITS: u32 = 0x3f80_0000;

/// The declared type of a uniform. A type token that the library does not
/// know maps to `Invalid`, and the uniform is kept under that type.
#[derive(PartialEq, Eq, Structural, Hash, Copy, Clone, Debug)]
pub enum UniformType {
    Int,
    Float,
    Float2,
    Float3,
    Float4,
    Mat3,
    Mat4,
    Sampler2D,
    Invalid,
}

impl UniformType {
    /// The type that a type token of the shading language names.
    pub open spec fn of_token(token: Seq<char>) -> UniformType {
        if token == "int"@ {
            UniformType::Int
        } else if token == "float"@ {
            UniformType::Float
        } else if token == "vec2"@ {
            UniformType::Float2
        } else if token == "vec3"@ {
            UniformType::Float3
        } else if token == "vec4"@ {
            UniformType::Float4
        } else if token == "mat3"@ {
            UniformType::Mat3
        } else if token == "mat4"@ {
            UniformType::Mat4
        } else if token == "sampler2D"@ {
            UniformType::Sampler2D
        } else {
            UniformType::Invalid
        }
    }

    /// Maps a type token to its type; an unknown token gives `Invalid`.
    pub fn from_token(token: &str) -> (uniform_type: UniformType)
        ensures
            uniform_type == Self::of_token(token@),
    {
        if str_eq(token, "int") {
            UniformType::Int
        } else if str_eq(token, "float") {
            UniformType::Float
        } else if str_eq(token, "vec2") {
            UniformType::Float2
        } else if str_eq(token, "vec3") {
            UniformType::Float3
        } else if str_eq(token, "vec4") {
            UniformType::Float4
        } else if str_eq(token, "mat3") {
            UniformType::Mat3
        } else if str_eq(token, "mat4") {
            UniformType::Mat4
        } else if str_eq(token, "sampler2D") {
            UniformType::Sampler2D
        } else {
            UniformType::Invalid
        }
    }
}

/// A value for a uniform, tagged by its type. Floating-point components are
/// bit patterns; `Sampler2D` holds a texture-unit identifier, which the
/// library passes on and never interprets.
#[derive(Clone, Copy, Debug, PartialEq, Eq)]
pub enum ShaderUniform {
    Invalid,
    Int(i32),
    Float(u32),
    Float2([u32; 2]),
    Float3([u32; 3]),
    Float4([u32; 4]),
    Mat3([[u32; 3]; 3]),
    Mat4([[u32; 4]; 4]),
    Sampler2D(u32),
}

/// The 3x3 identity matrix, as bit patterns.
pub open spec fn identity3() -> [[u32; 3]; 3] {
    [[ONE_BITS, 0, 0], [0, ONE_BITS, 0], [0, 0, ONE_BITS]]
}

/// The 4x4 identity matrix, as bit patterns.
pub open spec fn identity4() -> [[u32; 4]; 4] {
    [[ONE_BITS, 0, 0, 0], [0, ONE_BITS, 0, 0], [0, 0, ONE_BITS, 0], [0, 0, 0, ONE_BITS]]
}

impl ShaderUniform {
    /// The type that tags this value.
    pub open spec fn uniform_type(self) -> UniformType {
        match self {
            ShaderUniform::Invalid => UniformType::Invalid,
            ShaderUniform::Int(_) => UniformType::Int,
            ShaderUniform::Float(_) => UniformType::Float,
            ShaderUniform::Float2(_) => UniformType::Float2,
            ShaderUniform::Float3(_) => UniformType::Float3,
            ShaderUniform::Float4(_) => UniformType::Float4,
            ShaderUniform::Mat3(_) => UniformType::Mat3,
            ShaderUniform::Mat4(_) => UniformType::Mat4,
            ShaderUniform::Sampler2D(_) => UniformType::Sampler2D,
        }
    }

    /// The value that a uniform of `uniform_type` starts from, given the text
    /// of its default literal (empty where it has none) and, for a `Float`,
    /// the bit pattern that this text denotes as a single-precision number
    /// (`None` where it denotes none).
    ///
    /// An `Int` reads the literal as a decimal integer and a `Float` takes
    /// `float_bits`; either falls back to zero. Vectors start at zero,
    /// matrices at the identity, a sampler at the identifier 0.
    pub open spec fn default_of(
        uniform_type: UniformType,
        literal: Seq<char>,
        float_bits: Option<u32>,
    ) -> ShaderUniform {
        match uniform_type {
            UniformType::Int => ShaderUniform::Int(
                match parse_i32_spec(literal) {
                    Some(value) => value,
                    None => 0,
                },
            ),
            UniformType::Float => ShaderUniform::Float(
                match float_bits {
                    Some(bits) => bits,
                    None => 0,
                },
            ),
            UniformType::Float2 => ShaderUniform::Float2([0, 0]),
            UniformType::Float3 => ShaderUniform::Float3([0, 0, 0]),
            UniformType::Float4 => ShaderUniform::Float4([0, 0, 0, 0]),
            UniformType::Mat3 => ShaderUniform::Mat3(identity3()),
            UniformType::Mat4 => ShaderUniform::Mat4(identity4()),
            UniformType::Invalid => ShaderUniform::Invalid,
            UniformType::Sampler2D => ShaderUniform::Sampler2D(0),
        }
    }

    /// The type that tags this value.
    pub fn get_type(&self) -> (uniform_type: UniformType)
        ensures
            uniform_type == self.uniform_type(),
    {
        match self {
            ShaderUniform::Int(_) => UniformType::Int,
            ShaderUniform::Float(_) => UniformType::Float,
            ShaderUniform::Float2(_) => UniformType::Float2,
            ShaderUniform::Float3(_) => UniformType::Float3,
            ShaderUniform::Float4(_) => UniformType::Float4,
            ShaderUniform::Mat3(_) => UniformType::Mat3,
            ShaderUniform::Mat4(_) => UniformType::Mat4,
            ShaderUniform::Sampler2D(_) => UniformType::Sampler2D,
            ShaderUniform::Invalid => UniformType::Invalid,
        }
    }

    /// Builds the starting value of a uniform of `uniform_type` from its
    /// default literal. The caller decodes a floating-point literal and hands
    /// the bit pattern in as `float_bits`; it is read for a `Float` only.
    pub fn from_uniform_type(
        uniform_type: UniformType,
        default: &str,
        float_bits: Option<u32>,
    ) -> (value: ShaderUniform)
        ensures
            value == Self::default_of(uniform_type, default@, float_bits),
            value.uniform_type() == uniform_type,
    {
        match uniform_type {
            UniformType::Int => {
                let default_value: i32 = match parse_i32(default) {
                    Some(value) => value,
                    None => 0,
                };
                ShaderUniform::Int(default_value)
            },
            UniformType::Float => {
                let default_value: u32 = match float_bits {
                    Some(bits) => bits,
                    None => 0,
                };
                ShaderUniform::Float(default_value)
            },
            UniformType::Float2 => ShaderUniform::Float2([0, 0]),
            UniformType::Float3 => ShaderUniform::Float3([0, 0, 0]),
            UniformType::Float4 => ShaderUniform::Float4([0, 0, 0, 0]),
            UniformType::Mat3 => ShaderUniform::Mat3(
                [[ONE_BITS, 0, 0], [0, ONE_BITS, 0], [0, 0, ONE_BITS]],
            ),
            UniformType::Mat4 => ShaderUniform::Mat4(
                [
                    [ONE_BITS, 0, 0, 0],
                    [0, ONE_BITS, 0, 0],
                    [0, 0, ONE_BITS, 0],
                    [0, 0, 0, ONE_BITS],
                ],
            ),
            UniformType::Invalid => ShaderUniform::Invalid,
            UniformType::Sampler2D => ShaderUniform::Sampler2D(0),
        }
    }
}

} // verus!
