use wireframe::builder::{
    BuildEvent, BuildRequest, Phase, PipelineBuilder, PipelineError, ShaderStage,
};
use wireframe::device::PrimitiveTopology;
use wireframe::pipeline::Pipeline;
use wireframe::reflect::ReflectError;
use wireframe::uniform::UniformType;

const VERTEX: &[u8] = b"uniform mat4 model;\nuniform mat4 projection;\nvoid main() {}\n";
const GEOMETRY: &[u8] = b"uniform float u_line_thickness = 0.01;\nuniform int u_correction;\n";
const FRAGMENT: &[u8] = b"uniform vec4 u_color;\nuniform mat4 model;\nvoid main() {}\n";

/// Plays the driver: every stage compiles, the program links, and the
/// location of the n-th uniform asked for is `10 + n`. Returns the requests
/// in the words of a log.
fn drive_to_the_end(builder: &mut PipelineBuilder) -> Vec<String> {
    let mut log = Vec::new();
    let mut asked = 0;
    loop {
        match builder.request() {
            BuildRequest::Compile { stage } => {
                log.push(format!("compile {:?}", stage));
                let shader = match stage {
                    ShaderStage::Vertex => 1,
                    ShaderStage::Geometry => 2,
                    ShaderStage::Fragment => 3,
                };
                builder.advance(BuildEvent::Compiled(Ok(shader)));
            }
            BuildRequest::Link { vertex, geometry, fragment } => {
                log.push(format!("link {} {:?} {}", vertex, geometry, fragment));
                builder.advance(BuildEvent::Linked(Ok(7)));
            }
            BuildRequest::Locate { program, name } => {
                log.push(format!("locate {} {}", program, name));
                builder.advance(BuildEvent::Located(10 + asked));
                asked += 1;
            }
            BuildRequest::Nothing => break,
        }
    }
    log
}

fn uniforms_of(pipeline: &Pipeline) -> Vec<(String, UniformType, i32)> {
    let table = pipeline.uniforms();
    let mut entries = Vec::new();
    let mut i = 0;
    while i < table.len() {
        entries.push((table.name_at(i).to_string(), table.kind_at(i), table.value_at(i).location));
        i += 1;
    }
    entries
}

#[test]
fn a_construction_asks_for_each_step_in_order() {
    let mut builder = Pipeline::create_simple(VERTEX, FRAGMENT);
    assert_eq!(builder.current_phase(), Phase::Compile(ShaderStage::Vertex));
    let log = drive_to_the_end(&mut builder);
    assert_eq!(
        log,
        vec![
            "compile Vertex",
            "compile Fragment",
            "link 1 None 3",
            "locate 7 model",
            "locate 7 projection",
            "locate 7 u_color",
        ]
    );
    assert_eq!(builder.current_phase(), Phase::Done);
}

#[test]
fn a_geometry_stage_is_compiled_between_the_two_others() {
    let mut builder = Pipeline::create_simple_with_geom(VERTEX, GEOMETRY, FRAGMENT);
    let log = drive_to_the_end(&mut builder);
    assert_eq!(
        log,
        vec![
            "compile Vertex",
            "compile Geometry",
            "compile Fragment",
            "link 1 Some(2) 3",
            "locate 7 model",
            "locate 7 projection",
            "locate 7 u_line_thickness",
            "locate 7 u_correction",
            "locate 7 u_color",
        ]
    );
}

#[test]
fn the_finished_pipeline_has_the_defaults_of_the_fixed_function_state() {
    let mut builder = Pipeline::create_simple(VERTEX, FRAGMENT);
    drive_to_the_end(&mut builder);
    let pipeline = builder.finish().unwrap();
    assert_eq!(pipeline.program(), 7);
    assert!(pipeline.depth_test());
    assert!(!pipeline.blend_enabled());
    assert_eq!(pipeline.primitive_topology(), PrimitiveTopology::Triangles);
    assert_eq!(pipeline.uniform_overrides().len(), 0);
}

#[test]
fn every_declared_uniform_has_an_entry_with_its_location() {
    let mut builder = Pipeline::create_simple(VERTEX, FRAGMENT);
    drive_to_the_end(&mut builder);
    let pipeline = builder.finish().unwrap();
    assert_eq!(
        uniforms_of(&pipeline),
        vec![
            ("model".to_string(), UniformType::Mat4, 10),
            ("projection".to_string(), UniformType::Mat4, 11),
            ("u_color".to_string(), UniformType::Float4, 12),
        ]
    );
}

#[test]
fn a_uniform_that_the_program_does_not_hold_keeps_its_entry() {
    let mut builder = Pipeline::create_simple(b"uniform mat4 unused;", b"uniform vec4 u_color;");
    builder.advance(BuildEvent::Compiled(Ok(1)));
    builder.advance(BuildEvent::Compiled(Ok(2)));
    builder.advance(BuildEvent::Linked(Ok(3)));
    builder.advance(BuildEvent::Located(-1));
    builder.advance(BuildEvent::Located(0));
    let pipeline = builder.finish().unwrap();
    assert_eq!(
        uniforms_of(&pipeline),
        vec![
            ("unused".to_string(), UniformType::Mat4, -1),
            ("u_color".to_string(), UniformType::Float4, 0),
        ]
    );
}

#[test]
fn the_default_literals_survive_the_construction() {
    let mut builder = Pipeline::create_simple_with_geom(VERTEX, GEOMETRY, FRAGMENT);
    drive_to_the_end(&mut builder);
    let pipeline = builder.finish().unwrap();
    let slot = pipeline.uniforms().get("u_line_thickness", UniformType::Float).unwrap();
    assert_eq!(slot.default_literal, "0.01");
    assert_eq!(slot.location, 12);
}

#[test]
fn a_program_without_uniforms_is_done_after_linking() {
    let mut builder = Pipeline::create_simple(b"void main() {}", b"void main() {}");
    let log = drive_to_the_end(&mut builder);
    assert_eq!(log, vec!["compile Vertex", "compile Fragment", "link 1 None 3"]);
    let pipeline = builder.finish().unwrap();
    assert_eq!(pipeline.uniforms().len(), 0);
}

#[test]
fn a_compilation_failure_ends_the_construction_with_the_log() {
    let mut builder = Pipeline::create_simple(VERTEX, FRAGMENT);
    builder.advance(BuildEvent::Compiled(Err("0:1(1): error: syntax error".to_string())));
    assert_eq!(builder.current_phase(), Phase::Failed);
    assert!(matches!(builder.request(), BuildRequest::Nothing));
    match builder.finish() {
        Err(PipelineError::Compilation { stage, log }) => {
            assert_eq!(stage, ShaderStage::Vertex);
            assert_eq!(log, "0:1(1): error: syntax error");
        }
        _ => panic!("the construction must fail with the compiler's log"),
    }
}

#[test]
fn a_failure_of_a_later_stage_names_that_stage() {
    let mut builder = Pipeline::create_simple_with_geom(VERTEX, GEOMETRY, FRAGMENT);
    builder.advance(BuildEvent::Compiled(Ok(1)));
    builder.advance(BuildEvent::Compiled(Err("geometry log".to_string())));
    match builder.finish() {
        Err(PipelineError::Compilation { stage, log }) => {
            assert_eq!(stage, ShaderStage::Geometry);
            assert_eq!(log, "geometry log");
        }
        _ => panic!("the construction must fail with the compiler's log"),
    }
    let mut builder = Pipeline::create_simple(VERTEX, FRAGMENT);
    builder.advance(BuildEvent::Compiled(Ok(1)));
    builder.advance(BuildEvent::Compiled(Err("fragment log".to_string())));
    match builder.finish() {
        Err(PipelineError::Compilation { stage, log }) => {
            assert_eq!(stage, ShaderStage::Fragment);
            assert_eq!(log, "fragment log");
        }
        _ => panic!("the construction must fail with the compiler's log"),
    }
}

#[test]
fn a_link_failure_ends_the_construction_with_the_log() {
    let mut builder = Pipeline::create_simple(VERTEX, FRAGMENT);
    builder.advance(BuildEvent::Compiled(Ok(1)));
    builder.advance(BuildEvent::Compiled(Ok(2)));
    builder.advance(BuildEvent::Linked(Err("error: linking failed".to_string())));
    assert_eq!(builder.current_phase(), Phase::Failed);
    match builder.finish() {
        Err(PipelineError::Link { log }) => assert_eq!(log, "error: linking failed"),
        _ => panic!("the construction must fail with the linker's log"),
    }
}

#[test]
fn a_source_that_is_not_utf8_fails_once_the_stages_are_compiled() {
    let mut builder = Pipeline::create_simple(VERTEX, &[0xff, 0xfe]);
    builder.advance(BuildEvent::Compiled(Ok(1)));
    assert_eq!(builder.current_phase(), Phase::Compile(ShaderStage::Fragment));
    builder.advance(BuildEvent::Compiled(Ok(2)));
    assert_eq!(builder.current_phase(), Phase::Failed);
    match builder.finish() {
        Err(PipelineError::Reflection(error)) => assert_eq!(error, ReflectError::InvalidUtf8),
        _ => panic!("the construction must fail on the reflection"),
    }
}

#[test]
fn a_compilation_failure_comes_before_a_reflection_failure() {
    let mut builder = Pipeline::create_simple(&[0xff], FRAGMENT);
    builder.advance(BuildEvent::Compiled(Err("bad bytes".to_string())));
    match builder.finish() {
        Err(PipelineError::Compilation { stage, log }) => {
            assert_eq!(stage, ShaderStage::Vertex);
            assert_eq!(log, "bad bytes");
        }
        _ => panic!("the construction must fail with the compiler's log"),
    }
}

#[test]
fn an_unfinished_construction_gives_no_pipeline() {
    let builder = Pipeline::create_simple(VERTEX, FRAGMENT);
    assert!(matches!(builder.finish(), Err(PipelineError::Incomplete)));

    let mut builder = Pipeline::create_simple(VERTEX, FRAGMENT);
    builder.advance(BuildEvent::Compiled(Ok(1)));
    builder.advance(BuildEvent::Compiled(Ok(2)));
    assert!(matches!(builder.finish(), Err(PipelineError::Incomplete)));

    let mut builder = Pipeline::create_simple(VERTEX, FRAGMENT);
    builder.advance(BuildEvent::Compiled(Ok(1)));
    builder.advance(BuildEvent::Compiled(Ok(2)));
    builder.advance(BuildEvent::Linked(Ok(3)));
    builder.advance(BuildEvent::Located(0));
    assert_eq!(builder.current_phase(), Phase::Locate(1));
    assert!(matches!(builder.finish(), Err(PipelineError::Incomplete)));
}

#[test]
fn an_event_that_answers_no_request_changes_nothing() {
    let mut builder = Pipeline::create_simple(VERTEX, FRAGMENT);
    builder.advance(BuildEvent::Linked(Ok(9)));
    builder.advance(BuildEvent::Located(4));
    builder.advance(BuildEvent::Linked(Err("no".to_string())));
    assert_eq!(builder.current_phase(), Phase::Compile(ShaderStage::Vertex));
    builder.advance(BuildEvent::Compiled(Ok(1)));
    builder.advance(BuildEvent::Compiled(Ok(2)));
    builder.advance(BuildEvent::Compiled(Ok(5)));
    builder.advance(BuildEvent::Located(4));
    assert_eq!(builder.current_phase(), Phase::Link);
    match builder.request() {
        BuildRequest::Link { vertex, geometry, fragment } => {
            assert_eq!((vertex, geometry, fragment), (1, None, 2));
        }
        _ => panic!("the stages are to be linked"),
    }
    builder.advance(BuildEvent::Linked(Ok(3)));
    builder.advance(BuildEvent::Compiled(Err("late".to_string())));
    builder.advance(BuildEvent::Linked(Ok(8)));
    assert_eq!(builder.current_phase(), Phase::Locate(0));
    drive_to_the_end(&mut builder);
    builder.advance(BuildEvent::Located(99));
    builder.advance(BuildEvent::Compiled(Err("late".to_string())));
    let pipeline = builder.finish().unwrap();
    assert_eq!(pipeline.program(), 3);
    assert_eq!(
        uniforms_of(&pipeline),
        vec![
            ("model".to_string(), UniformType::Mat4, 10),
            ("projection".to_string(), UniformType::Mat4, 11),
            ("u_color".to_string(), UniformType::Float4, 12),
        ]
    );
}

#[test]
fn a_failed_construction_stays_failed() {
    let mut builder = Pipeline::create_simple(VERTEX, FRAGMENT);
    builder.advance(BuildEvent::Compiled(Err("first".to_string())));
    builder.advance(BuildEvent::Compiled(Ok(1)));
    builder.advance(BuildEvent::Compiled(Err("second".to_string())));
    builder.advance(BuildEvent::Linked(Ok(1)));
    match builder.finish() {
        Err(PipelineError::Compilation { log, .. }) => assert_eq!(log, "first"),
        _ => panic!("the first failure stays"),
    }
}
