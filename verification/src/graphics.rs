//! Bookkeeping for rendering-object handles.
//!
//! Rendering objects (shaders, programs, textures, vertex arrays,
//! framebuffers) are consumed as opaque handles: the platform side creates
//! and deletes the underlying objects and hands their raw names (small
//! integers) here. This module owns the mapping from process-unique handle
//! ids to those names, and its transferable twin used when a whole container
//! of handles moves with the draw server to another thread.

use vstd::prelude::*;
use core::marker::PhantomData;

verus! {

use crate::error::ExecError;

/// A process-unique id. Fresh ids come from an explicit [`UidSource`] owned
/// by the embedding context and threaded through constructors.
pub type Uid = u64;

/// An explicit counter of unique ids.
#[derive(Clone, Copy, Debug, PartialEq, Eq, Structural)]
pub struct UidSource {
    pub next: Uid,
}

impl UidSource {
    /// A source whose first id is zero.
    pub fn new() -> (r: UidSource)
        ensures
            r == (UidSource { next: 0 }),
    {
        UidSource { next: 0 }
    }

    /// Hand out the next id.
    pub fn fresh(&mut self) -> (r: Uid)
        requires
            old(self).next < Uid::MAX,
        ensures
            r == old(self).next,
            final(self).next == old(self).next + 1,
    {
        let id = self.next;
        self.next = self.next + 1;
        id
    }
}

/// A typed handle to one rendering object of kind `T`, identified by a
/// process-unique id.
#[derive(Debug)]
pub struct GfxHandle<T> {
    pub handle: Uid,
    pub data: PhantomData<T>,
}

impl<T> GfxHandle<T> {
    /// Wrap a raw id.
    pub fn from_handle(handle: u64) -> (r: Self)
        ensures
            r.handle == handle,
    {
        GfxHandle { handle, data: PhantomData }
    }

    /// A handle with a fresh id.
    pub fn new(source: &mut UidSource) -> (r: Self)
        requires
            old(source).next < Uid::MAX,
        ensures
            r.handle == old(source).next,
            final(source).next == old(source).next + 1,
    {
        let handle = source.fresh();
        GfxHandle { handle, data: PhantomData }
    }
}

impl<T> Clone for GfxHandle<T> {
    fn clone(&self) -> (r: Self)
        ensures
            r.handle == self.handle,
    {
        GfxHandle { handle: self.handle, data: PhantomData }
    }
}

impl<T> Copy for GfxHandle<T> {

}

impl<T> PartialEq for GfxHandle<T> {
    fn eq(&self, other: &Self) -> (r: bool)
    {
        self.handle == other.handle
    }
}

impl<T> vstd::std_specs::cmp::PartialEqSpecImpl for GfxHandle<T> {
    open spec fn obeys_eq_spec() -> bool {
        true
    }

    open spec fn eq_spec(&self, other: &Self) -> bool {
        self.handle == other.handle
    }
}

/// What a container of rendering objects needs to know of its kind: the
/// object-type identifier the platform's debug-label calls expect.
pub trait GLHandleTrait {
    /// The object-type identifier.
    spec fn spec_identifier() -> u32;

    /// The object-type identifier.
    fn identifier() -> (r: u32)
        ensures
            r == Self::spec_identifier(),
    ;
}

/// Marker of shader objects.
pub struct ShaderTrait;

/// Marker of program objects.
pub struct ProgramTrait;

/// Marker of texture objects.
pub struct TextureTrait;

/// Marker of vertex-array objects.
pub struct VertexArrayTrait;

/// Marker of framebuffer objects.
pub struct FramebufferTrait;

/// Marker of buffer objects.
pub struct BufferTrait;

impl GLHandleTrait for ShaderTrait {
    open spec fn spec_identifier() -> u32 {
        0x82E1
    }

    fn identifier() -> (r: u32) {
        0x82E1
    }
}

impl GLHandleTrait for ProgramTrait {
    open spec fn spec_identifier() -> u32 {
        0x82E2
    }

    fn identifier() -> (r: u32) {
        0x82E2
    }
}

impl GLHandleTrait for TextureTrait {
    open spec fn spec_identifier() -> u32 {
        0x1702
    }

    fn identifier() -> (r: u32) {
        0x1702
    }
}

impl GLHandleTrait for VertexArrayTrait {
    open spec fn spec_identifier() -> u32 {
        0x8074
    }

    fn identifier() -> (r: u32) {
        0x8074
    }
}

impl GLHandleTrait for FramebufferTrait {
    open spec fn spec_identifier() -> u32 {
        0x8D40
    }

    fn identifier() -> (r: u32) {
        0x8D40
    }
}

impl GLHandleTrait for BufferTrait {
    open spec fn spec_identifier() -> u32 {
        0x82E0
    }

    fn identifier() -> (r: u32) {
        0x82E0
    }
}

/// The kind of shader a shader object holds.
#[derive(Clone, Copy, Debug, PartialEq, Eq, Structural)]
pub enum ShaderType {
    Vertex,
    Fragment,
}

impl ShaderType {
    /// The platform enum value of this shader kind.
    pub fn gl_enum(&self) -> (r: u32)
        ensures
            r == match *self {
                ShaderType::Vertex => 0x8B31u32,
                ShaderType::Fragment => 0x8B30u32,
            },
    {
        match *self {
            ShaderType::Vertex => 0x8B31,
            ShaderType::Fragment => 0x8B30,
        }
    }
}

/// The record of one rendering object: its raw platform name and its debug
/// label.
#[derive(Debug)]
pub struct GLHandle<T> {
    /// The raw object name the platform allocated.
    pub gl_name: u32,
    /// The human-readable label the object was created under.
    pub label: String,
    pub data: PhantomData<T>,
}

impl<T> GLHandle<T> {
    /// Record an object from its raw name and label.
    pub fn new(gl_name: u32, label: &str) -> (r: Self)
        ensures
            r.gl_name == gl_name,
            r.label@ == label@,
    {
        GLHandle { gl_name, label: String::from_str(label), data: PhantomData }
    }
}

impl<T> Clone for GLHandle<T> {
    fn clone(&self) -> (r: Self)
        ensures
            r.gl_name == self.gl_name,
            r.label@ == self.label@,
    {
        GLHandle { gl_name: self.gl_name, label: self.label.clone(), data: PhantomData }
    }
}

/// A shader object record.
pub type Shader = GLHandle<ShaderTrait>;

/// A program object record.
pub type Program = GLHandle<ProgramTrait>;

/// A texture object record.
pub type Texture = GLHandle<TextureTrait>;

/// A vertex-array object record.
pub type VertexArray = GLHandle<VertexArrayTrait>;

/// A framebuffer object record.
pub type Framebuffer = GLHandle<FramebufferTrait>;

/// Handle to a shader object.
pub type ShaderHandle = GfxHandle<Shader>;

/// Handle to a program object.
pub type ProgramHandle = GfxHandle<Program>;

/// Handle to a texture object.
pub type TextureHandle = GfxHandle<Texture>;

/// Handle to a vertex-array object.
pub type VertexArrayHandle = GfxHandle<VertexArray>;

/// Handle to a framebuffer object.
pub type FramebufferHandle = GfxHandle<Framebuffer>;

/// The raw name an id maps to, scanning from the front.
pub open spec fn spec_lookup_name<T>(s: Seq<(Uid, GLHandle<T>)>, key: Uid) -> Option<u32>
    decreases s.len(),
{
    if s.len() == 0 {
        None
    } else if s[0].0 == key {
        Some(s[0].1.gl_name)
    } else {
        spec_lookup_name(s.drop_first(), key)
    }
}

/// Looking a key up after an append finds what was found before, or the new
/// entry if the key was absent and matches.
proof fn lemma_lookup_push<T>(s: Seq<(Uid, GLHandle<T>)>, key: Uid, entry: (Uid, GLHandle<T>))
    ensures
        spec_lookup_name(s.push(entry), key) == if spec_lookup_name(s, key) is Some {
            spec_lookup_name(s, key)
        } else if entry.0 == key {
            Some(entry.1.gl_name)
        } else {
            None::<u32>
        },
    decreases s.len(),
{
    if s.len() == 0 {
        assert(s.push(entry)[0] == entry);
        assert(s.push(entry).drop_first() =~= Seq::<(Uid, GLHandle<T>)>::empty());
        assert(spec_lookup_name(s, key) is None);
        assert(spec_lookup_name(s.push(entry).drop_first(), key) is None);
    } else {
        assert(s.push(entry)[0] == s[0]);
        assert(s.push(entry).drop_first() =~= s.drop_first().push(entry));
        lemma_lookup_push(s.drop_first(), key, entry);
        assert(spec_lookup_name(s.push(entry), key) == if s[0].0 == key {
            Some(s[0].1.gl_name)
        } else {
            spec_lookup_name(s.push(entry).drop_first(), key)
        });
    }
}

/// A container of rendering-object records keyed by handle id, local to the
/// thread that owns the underlying objects.
pub struct GLHandleContainer<T> {
    entries: Vec<(Uid, GLHandle<T>)>,
}

/// A container of rendering-object records in transferable form: the same
/// records, detached from any thread.
pub struct SendGLHandleContainer<T> {
    entries: Vec<(Uid, GLHandle<T>)>,
}

impl<T> GLHandleContainer<T> {
    /// The stored entries, in insertion order.
    pub closed spec fn entries_seq(self) -> Seq<(Uid, GLHandle<T>)> {
        self.entries@
    }

    /// The raw name stored under a handle id.
    pub open spec fn spec_get(self, key: Uid) -> Option<u32> {
        spec_lookup_name(self.entries_seq(), key)
    }

    /// Handle ids never repeat.
    pub open spec fn wf(self) -> bool {
        forall|i: int, j: int|
            0 <= i < j < self.entries_seq().len() ==> self.entries_seq()[i].0
                != self.entries_seq()[j].0
    }

    /// An empty container.
    pub fn new() -> (r: Self)
        ensures
            r.wf(),
            r.entries_seq() == Seq::<(Uid, GLHandle<T>)>::empty(),
    {
        GLHandleContainer { entries: Vec::new() }
    }

    /// Look up the raw name of the object a handle id names.
    pub fn get(&self, key: Uid) -> (r: Option<u32>)
        ensures
            r == self.spec_get(key),
    {
        let mut i: usize = 0;
        proof {
            assert(self.entries@.skip(0) =~= self.entries@);
        }
        while i < self.entries.len()
            invariant
                i <= self.entries.len(),
                spec_lookup_name(self.entries@.skip(i as int), key) == spec_lookup_name(
                    self.entries@,
                    key,
                ),
            decreases self.entries.len() - i,
        {
            proof {
                assert(self.entries@.skip(i as int)[0] == self.entries@[i as int]);
                assert(self.entries@.skip(i as int).drop_first() =~= self.entries@.skip(i + 1));
            }
            if self.entries[i].0 == key {
                return Some(self.entries[i].1.gl_name);
            }
            i = i + 1;
        }
        None
    }

    /// Record an object under a handle id. A repeated id names at most one
    /// live object, so a duplicate is an invariant violation and changes
    /// nothing.
    pub fn insert(&mut self, key: Uid, record: GLHandle<T>) -> (r: Result<(), ExecError>)
        requires
            old(self).wf(),
        ensures
            final(self).wf(),
            old(self).spec_get(key) is Some ==> {
                &&& r == Err::<(), ExecError>(ExecError::InvariantViolation)
                &&& final(self).entries_seq() == old(self).entries_seq()
            },
            old(self).spec_get(key) is None ==> {
                &&& r == Ok::<(), ExecError>(())
                &&& final(self).entries_seq() == old(self).entries_seq().push((key, record))
                &&& final(self).spec_get(key) == Some(record.gl_name)
            },
            forall|other: Uid| other != key ==> final(self).spec_get(other) == old(self).spec_get(
                other,
            ),
    {
        if self.contains(key) {
            return Err(ExecError::InvariantViolation);
        }
        proof {
            lemma_lookup_absent_of_unique_miss(self.entries@, key);
        }
        let ghost before = self.entries@;
        self.entries.push((key, record));
        proof {
            assert forall|other: Uid| other != key implies spec_lookup_name(self.entries@, other)
                == spec_lookup_name(before, other) by {
                lemma_lookup_push(before, other, (key, record));
            };
            lemma_lookup_push(before, key, (key, record));
        }
        Ok(())
    }

    /// Whether a handle id is recorded.
    pub fn contains(&self, key: Uid) -> (r: bool)
        ensures
            r == (self.spec_get(key) is Some),
    {
        self.get(key).is_some()
    }

    /// How many objects are recorded.
    pub fn len(&self) -> (r: usize)
        ensures
            r == self.entries_seq().len(),
    {
        self.entries.len()
    }

    /// Detach the records for a move across threads.
    pub fn to_send(self) -> (r: SendGLHandleContainer<T>)
        ensures
            r.entries_seq() == self.entries_seq(),
    {
        SendGLHandleContainer { entries: self.entries }
    }
}

/// A key no entry carries is not found.
proof fn lemma_lookup_absent_of_unique_miss<T>(s: Seq<(Uid, GLHandle<T>)>, key: Uid)
    requires
        spec_lookup_name(s, key) is None,
    ensures
        forall|i: int| 0 <= i < s.len() ==> s[i].0 != key,
    decreases s.len(),
{
    if s.len() > 0 {
        lemma_lookup_absent_of_unique_miss(s.drop_first(), key);
        assert forall|i: int| 0 <= i < s.len() implies s[i].0 != key by {
            if i > 0 {
                assert(s.drop_first()[i - 1] == s[i]);
            }
        };
    }
}

impl<T> SendGLHandleContainer<T> {
    /// The stored entries, in insertion order.
    pub closed spec fn entries_seq(self) -> Seq<(Uid, GLHandle<T>)> {
        self.entries@
    }

    /// An empty detached container.
    pub fn new() -> (r: Self)
        ensures
            r.entries_seq() == Seq::<(Uid, GLHandle<T>)>::empty(),
    {
        SendGLHandleContainer { entries: Vec::new() }
    }

    /// Reattach the records on the destination thread.
    pub fn to_nonsend(self) -> (r: GLHandleContainer<T>)
        ensures
            r.entries_seq() == self.entries_seq(),
    {
        GLHandleContainer { entries: self.entries }
    }
}

/// All rendering-object records of one draw server, by kind.
pub struct HandleContainer {
    pub vertex_arrays: GLHandleContainer<VertexArrayTrait>,
    pub buffers: GLHandleContainer<BufferTrait>,
    pub textures: GLHandleContainer<TextureTrait>,
    pub programs: GLHandleContainer<ProgramTrait>,
    pub framebuffers: GLHandleContainer<FramebufferTrait>,
}

/// All rendering-object records of one draw server, in transferable form.
pub struct SendHandleContainer {
    vertex_arrays: SendGLHandleContainer<VertexArrayTrait>,
    buffers: SendGLHandleContainer<BufferTrait>,
    textures: SendGLHandleContainer<TextureTrait>,
    programs: SendGLHandleContainer<ProgramTrait>,
    framebuffers: SendGLHandleContainer<FramebufferTrait>,
}

impl HandleContainer {
    /// Every sub-container is well-formed.
    pub open spec fn wf(self) -> bool {
        &&& self.vertex_arrays.wf()
        &&& self.buffers.wf()
        &&& self.textures.wf()
        &&& self.programs.wf()
        &&& self.framebuffers.wf()
    }

    /// An empty container.
    pub fn new() -> (r: Self)
        ensures
            r.wf(),
            r.vertex_arrays.entries_seq().len() == 0,
            r.buffers.entries_seq().len() == 0,
            r.textures.entries_seq().len() == 0,
            r.programs.entries_seq().len() == 0,
            r.framebuffers.entries_seq().len() == 0,
    {
        HandleContainer {
            vertex_arrays: GLHandleContainer::new(),
            buffers: GLHandleContainer::new(),
            textures: GLHandleContainer::new(),
            programs: GLHandleContainer::new(),
            framebuffers: GLHandleContainer::new(),
        }
    }

    /// Record a vertex array the platform created as `gl_name`, under the
    /// given handle.
    pub fn create_vertex_array(
        &mut self,
        name: &str,
        handle: &VertexArrayHandle,
        gl_name: u32,
    ) -> (r: Result<u32, ExecError>)
        requires
            old(self).wf(),
        ensures
            final(self).wf(),
            final(self).buffers.entries_seq() == old(self).buffers.entries_seq(),
            final(self).textures.entries_seq() == old(self).textures.entries_seq(),
            final(self).programs.entries_seq() == old(self).programs.entries_seq(),
            final(self).framebuffers.entries_seq() == old(self).framebuffers.entries_seq(),
            old(self).vertex_arrays.spec_get(handle.handle) is None ==> {
                &&& r == Ok::<u32, ExecError>(gl_name)
                &&& final(self).vertex_arrays.spec_get(handle.handle) == Some(gl_name)
            },
            old(self).vertex_arrays.spec_get(handle.handle) is Some ==> {
                &&& r == Err::<u32, ExecError>(ExecError::InvariantViolation)
                &&& final(self).vertex_arrays.entries_seq() == old(self).vertex_arrays.entries_seq()
            },
            forall|other: Uid| other != handle.handle ==> final(self).vertex_arrays.spec_get(other)
                == old(self).vertex_arrays.spec_get(other),
    {
        self.vertex_arrays.insert(handle.handle, GLHandle::new(gl_name, name))?;
        Ok(gl_name)
    }

    /// Record a linked vertex/fragment program the platform created as
    /// `gl_name`, under the given handle.
    pub fn create_vf_program(&mut self, name: &str, handle: &ProgramHandle, gl_name: u32) -> (r:
        Result<u32, ExecError>)
        requires
            old(self).wf(),
        ensures
            final(self).wf(),
            final(self).vertex_arrays.entries_seq() == old(self).vertex_arrays.entries_seq(),
            final(self).buffers.entries_seq() == old(self).buffers.entries_seq(),
            final(self).textures.entries_seq() == old(self).textures.entries_seq(),
            final(self).framebuffers.entries_seq() == old(self).framebuffers.entries_seq(),
            old(self).programs.spec_get(handle.handle) is None ==> {
                &&& r == Ok::<u32, ExecError>(gl_name)
                &&& final(self).programs.spec_get(handle.handle) == Some(gl_name)
            },
            old(self).programs.spec_get(handle.handle) is Some ==> {
                &&& r == Err::<u32, ExecError>(ExecError::InvariantViolation)
                &&& final(self).programs.entries_seq() == old(self).programs.entries_seq()
            },
            forall|other: Uid| other != handle.handle ==> final(self).programs.spec_get(other)
                == old(self).programs.spec_get(other),
    {
        self.programs.insert(handle.handle, GLHandle::new(gl_name, name))?;
        Ok(gl_name)
    }

    /// Record a framebuffer the platform created as `gl_name`, under the
    /// given handle.
    pub fn create_framebuffer(
        &mut self,
        name: &str,
        handle: &FramebufferHandle,
        gl_name: u32,
    ) -> (r: Result<u32, ExecError>)
        requires
            old(self).wf(),
        ensures
            final(self).wf(),
            final(self).vertex_arrays.entries_seq() == old(self).vertex_arrays.entries_seq(),
            final(self).buffers.entries_seq() == old(self).buffers.entries_seq(),
            final(self).textures.entries_seq() == old(self).textures.entries_seq(),
            final(self).programs.entries_seq() == old(self).programs.entries_seq(),
            old(self).framebuffers.spec_get(handle.handle) is None ==> {
                &&& r == Ok::<u32, ExecError>(gl_name)
                &&& final(self).framebuffers.spec_get(handle.handle) == Some(gl_name)
            },
            old(self).framebuffers.spec_get(handle.handle) is Some ==> {
                &&& r == Err::<u32, ExecError>(ExecError::InvariantViolation)
                &&& final(self).framebuffers.entries_seq() == old(self).framebuffers.entries_seq()
            },
            forall|other: Uid| other != handle.handle ==> final(self).framebuffers.spec_get(other)
                == old(self).framebuffers.spec_get(other),
    {
        self.framebuffers.insert(handle.handle, GLHandle::new(gl_name, name))?;
        Ok(gl_name)
    }

    /// Detach every record for a move across threads.
    pub fn to_send(self) -> (r: SendHandleContainer)
        ensures
            r.spec_vertex_arrays() == self.vertex_arrays.entries_seq(),
            r.spec_buffers() == self.buffers.entries_seq(),
            r.spec_textures() == self.textures.entries_seq(),
            r.spec_programs() == self.programs.entries_seq(),
            r.spec_framebuffers() == self.framebuffers.entries_seq(),
    {
        SendHandleContainer {
            vertex_arrays: self.vertex_arrays.to_send(),
            buffers: self.buffers.to_send(),
            textures: self.textures.to_send(),
            programs: self.programs.to_send(),
            framebuffers: self.framebuffers.to_send(),
        }
    }
}

impl SendHandleContainer {
    /// The detached vertex-array records.
    pub closed spec fn spec_vertex_arrays(self) -> Seq<(Uid, GLHandle<VertexArrayTrait>)> {
        self.vertex_arrays.entries_seq()
    }

    /// The detached buffer records.
    pub closed spec fn spec_buffers(self) -> Seq<(Uid, GLHandle<BufferTrait>)> {
        self.buffers.entries_seq()
    }

    /// The detached texture records.
    pub closed spec fn spec_textures(self) -> Seq<(Uid, GLHandle<TextureTrait>)> {
        self.textures.entries_seq()
    }

    /// The detached program records.
    pub closed spec fn spec_programs(self) -> Seq<(Uid, GLHandle<ProgramTrait>)> {
        self.programs.entries_seq()
    }

    /// The detached framebuffer records.
    pub closed spec fn spec_framebuffers(self) -> Seq<(Uid, GLHandle<FramebufferTrait>)> {
        self.framebuffers.entries_seq()
    }

    /// An empty detached container.
    pub fn new() -> (r: Self)
        ensures
            r.spec_vertex_arrays().len() == 0,
            r.spec_buffers().len() == 0,
            r.spec_textures().len() == 0,
            r.spec_programs().len() == 0,
            r.spec_framebuffers().len() == 0,
    {
        SendHandleContainer {
            vertex_arrays: SendGLHandleContainer::new(),
            buffers: SendGLHandleContainer::new(),
            textures: SendGLHandleContainer::new(),
            programs: SendGLHandleContainer::new(),
            framebuffers: SendGLHandleContainer::new(),
        }
    }

    /// Reattach every record on the destination thread. Round trip with
    /// [`HandleContainer::to_send`]: every mapping comes back unchanged.
    pub fn to_nonsend(self) -> (r: HandleContainer)
        ensures
            r.vertex_arrays.entries_seq() == self.spec_vertex_arrays(),
            r.buffers.entries_seq() == self.spec_buffers(),
            r.textures.entries_seq() == self.spec_textures(),
            r.programs.entries_seq() == self.spec_programs(),
            r.framebuffers.entries_seq() == self.spec_framebuffers(),
    {
        HandleContainer {
            vertex_arrays: self.vertex_arrays.to_nonsend(),
            buffers: self.buffers.to_nonsend(),
            textures: self.textures.to_nonsend(),
            programs: self.programs.to_nonsend(),
            framebuffers: self.framebuffers.to_nonsend(),
        }
    }
}

impl ProgramHandle {
    /// The raw name of the program this handle names in the given container,
    /// if any.
    pub fn get(&self, handles: &HandleContainer) -> (r: Option<u32>)
        ensures
            r == handles.programs.spec_get(self.handle),
    {
        handles.programs.get(self.handle)
    }
}

} // verus!
