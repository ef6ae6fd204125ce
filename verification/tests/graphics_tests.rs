use exec_runtime::graphics::{
    FramebufferHandle, GfxHandle, GLHandleContainer, GLHandleTrait, HandleContainer,
    ProgramHandle, ProgramTrait, SendHandleContainer, ShaderTrait, ShaderType, TextureTrait,
    UidSource, VertexArrayHandle, VertexArrayTrait,
};
use exec_runtime::error::ExecError;

#[test]
fn uid_source_hands_out_increasing_ids() {
    let mut source = UidSource::new();
    let a: GfxHandle<u8> = GfxHandle::new(&mut source);
    let b: GfxHandle<u8> = GfxHandle::new(&mut source);
    assert_eq!(a.handle, 0);
    assert_eq!(b.handle, 1);
    assert_ne!(a, b);
    assert_eq!(a, GfxHandle::from_handle(0));
}

#[test]
fn object_type_identifiers_match_the_platform_enums() {
    assert_eq!(ShaderTrait::identifier(), 0x82E1);
    assert_eq!(ProgramTrait::identifier(), 0x82E2);
    assert_eq!(TextureTrait::identifier(), 0x1702);
    assert_eq!(VertexArrayTrait::identifier(), 0x8074);
    assert_eq!(ShaderType::Vertex.gl_enum(), 0x8B31);
    assert_eq!(ShaderType::Fragment.gl_enum(), 0x8B30);
}

#[test]
fn container_records_and_looks_up_names() {
    let mut source = UidSource::new();
    let mut handles = HandleContainer::new();
    let vao: VertexArrayHandle = GfxHandle::new(&mut source);
    let prog: ProgramHandle = GfxHandle::new(&mut source);
    let fb: FramebufferHandle = GfxHandle::new(&mut source);
    assert_eq!(handles.create_vertex_array("grid", &vao, 31), Ok(31));
    assert_eq!(handles.create_vf_program("blur", &prog, 17), Ok(17));
    assert_eq!(handles.create_framebuffer("offscreen", &fb, 9), Ok(9));
    assert_eq!(prog.get(&handles), Some(17));
    assert_eq!(handles.vertex_arrays.get(vao.handle), Some(31));
    assert_eq!(handles.framebuffers.get(fb.handle), Some(9));
    assert_eq!(handles.programs.get(999), None);
}

#[test]
fn duplicate_handle_id_is_an_invariant_violation() {
    let mut source = UidSource::new();
    let mut handles = HandleContainer::new();
    let prog: ProgramHandle = GfxHandle::new(&mut source);
    handles.create_vf_program("first", &prog, 1).unwrap();
    assert_eq!(
        handles.create_vf_program("second", &prog, 2),
        Err(ExecError::InvariantViolation)
    );
    assert_eq!(prog.get(&handles), Some(1));
}

#[test]
fn send_round_trip_keeps_every_mapping() {
    let mut source = UidSource::new();
    let mut handles = HandleContainer::new();
    let vao: VertexArrayHandle = GfxHandle::new(&mut source);
    let prog: ProgramHandle = GfxHandle::new(&mut source);
    handles.create_vertex_array("quad", &vao, 5).unwrap();
    handles.create_vf_program("copy", &prog, 6).unwrap();
    let sent = handles.to_send();
    let back = sent.to_nonsend();
    assert_eq!(back.vertex_arrays.get(vao.handle), Some(5));
    assert_eq!(back.programs.get(prog.handle), Some(6));
    assert_eq!(back.vertex_arrays.len(), 1);
}

#[test]
fn empty_send_container_round_trips_empty() {
    let empty = SendHandleContainer::new();
    let back = empty.to_nonsend();
    assert_eq!(back.programs.len(), 0);
    let plain: GLHandleContainer<ShaderTrait> = GLHandleContainer::new();
    assert_eq!(plain.len(), 0);
    assert!(!plain.contains(0));
}
