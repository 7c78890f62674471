use wireframe::uniform::{ShaderUniform, UniformType, ONE_BITS};

#[test]
fn every_known_token_has_its_type() {
    assert_eq!(UniformType::from_token("int"), UniformType::Int);
    assert_eq!(UniformType::from_token("float"), UniformType::Float);
    assert_eq!(UniformType::from_token("vec2"), UniformType::Float2);
    assert_eq!(UniformType::from_token("vec3"), UniformType::Float3);
    assert_eq!(UniformType::from_token("vec4"), UniformType::Float4);
    assert_eq!(UniformType::from_token("mat3"), UniformType::Mat3);
    assert_eq!(UniformType::from_token("mat4"), UniformType::Mat4);
    assert_eq!(UniformType::from_token("sampler2D"), UniformType::Sampler2D);
}

#[test]
fn an_unknown_token_is_invalid() {
    assert_eq!(UniformType::from_token("mat2"), UniformType::Invalid);
    assert_eq!(UniformType::from_token(""), UniformType::Invalid);
    assert_eq!(UniformType::from_token("Int"), UniformType::Invalid);
    assert_eq!(UniformType::from_token("sampler2d"), UniformType::Invalid);
    assert_eq!(UniformType::from_token("uint"), UniformType::Invalid);
    assert_eq!(UniformType::from_token("int "), UniformType::Invalid);
}

#[test]
fn a_value_knows_its_type() {
    assert_eq!(ShaderUniform::Invalid.get_type(), UniformType::Invalid);
    assert_eq!(ShaderUniform::Int(3).get_type(), UniformType::Int);
    assert_eq!(ShaderUniform::Float(0).get_type(), UniformType::Float);
    assert_eq!(ShaderUniform::Float2([0; 2]).get_type(), UniformType::Float2);
    assert_eq!(ShaderUniform::Float3([0; 3]).get_type(), UniformType::Float3);
    assert_eq!(ShaderUniform::Float4([0; 4]).get_type(), UniformType::Float4);
    assert_eq!(ShaderUniform::Mat3([[0; 3]; 3]).get_type(), UniformType::Mat3);
    assert_eq!(ShaderUniform::Mat4([[0; 4]; 4]).get_type(), UniformType::Mat4);
    assert_eq!(ShaderUniform::Sampler2D(9).get_type(), UniformType::Sampler2D);
}

#[test]
fn one_is_the_bit_pattern_of_one() {
    assert_eq!(ONE_BITS, 1.0f32.to_bits());
    assert_eq!(0u32, 0.0f32.to_bits());
}

#[test]
fn an_int_default_is_read_from_its_literal() {
    assert_eq!(
        ShaderUniform::from_uniform_type(UniformType::Int, "5", None),
        ShaderUniform::Int(5)
    );
    assert_eq!(
        ShaderUniform::from_uniform_type(UniformType::Int, "-17", None),
        ShaderUniform::Int(-17)
    );
}

#[test]
fn an_unreadable_int_default_falls_back_to_zero() {
    assert_eq!(
        ShaderUniform::from_uniform_type(UniformType::Int, "notanumber", None),
        ShaderUniform::Int(0)
    );
    assert_eq!(
        ShaderUniform::from_uniform_type(UniformType::Int, "", None),
        ShaderUniform::Int(0)
    );
    assert_eq!(
        ShaderUniform::from_uniform_type(UniformType::Int, "3000000000", None),
        ShaderUniform::Int(0)
    );
}

#[test]
fn an_int_default_does_not_read_the_float_bits() {
    assert_eq!(
        ShaderUniform::from_uniform_type(UniformType::Int, "x", Some(77)),
        ShaderUniform::Int(0)
    );
}

#[test]
fn a_float_default_takes_the_decoded_bits() {
    let literal = "0.01";
    let bits = literal.parse::<f32>().ok().map(|value| value.to_bits());
    assert_eq!(
        ShaderUniform::from_uniform_type(UniformType::Float, literal, bits),
        ShaderUniform::Float(0.01f32.to_bits())
    );
}

#[test]
fn a_float_default_without_bits_is_zero() {
    assert_eq!(
        ShaderUniform::from_uniform_type(UniformType::Float, "abc", None),
        ShaderUniform::Float(0.0f32.to_bits())
    );
}

#[test]
fn vectors_start_at_zero() {
    assert_eq!(
        ShaderUniform::from_uniform_type(UniformType::Float2, "vec2(1.0)", Some(1)),
        ShaderUniform::Float2([0, 0])
    );
    assert_eq!(
        ShaderUniform::from_uniform_type(UniformType::Float3, "", None),
        ShaderUniform::Float3([0, 0, 0])
    );
    assert_eq!(
        ShaderUniform::from_uniform_type(UniformType::Float4, "", None),
        ShaderUniform::Float4([0, 0, 0, 0])
    );
}

#[test]
fn matrices_start_at_the_identity() {
    let one = 1.0f32.to_bits();
    assert_eq!(
        ShaderUniform::from_uniform_type(UniformType::Mat3, "", None),
        ShaderUniform::Mat3([[one, 0, 0], [0, one, 0], [0, 0, one]])
    );
    assert_eq!(
        ShaderUniform::from_uniform_type(UniformType::Mat4, "", None),
        ShaderUniform::Mat4([[one, 0, 0, 0], [0, one, 0, 0], [0, 0, one, 0], [0, 0, 0, one]])
    );
}

#[test]
fn a_sampler_starts_at_the_identifier_zero_and_invalid_stays_invalid() {
    assert_eq!(
        ShaderUniform::from_uniform_type(UniformType::Sampler2D, "3", None),
        ShaderUniform::Sampler2D(0)
    );
    assert_eq!(
        ShaderUniform::from_uniform_type(UniformType::Invalid, "3", Some(3)),
        ShaderUniform::Invalid
    );
}

#[test]
fn the_default_has_the_type_that_was_asked_for() {
    let kinds = [
        UniformType::Int,
        UniformType::Float,
        UniformType::Float2,
        UniformType::Float3,
        UniformType::Float4,
        UniformType::Mat3,
        UniformType::Mat4,
        UniformType::Sampler2D,
        UniformType::Invalid,
    ];
    for kind in kinds.iter() {
        assert_eq!(ShaderUniform::from_uniform_type(*kind, "1", Some(1)).get_type(), *kind);
    }
}
