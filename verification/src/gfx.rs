//! Renderer bookkeeping: surface dimensions, staged geometry and the
//! per-frame draw counts.
//!
//! The GPU context itself (device, queue, surface, pipelines) lives in
//! the unverified layer around this crate. That layer consults this
//! state for everything it records into a frame: which data stands in
//! the fixed-capacity buffers, how many indices and instances are valid,
//! and which surface dimensions the camera's projection must use.

use vstd::prelude::*;

verus! {

/// glam's 3-component vector, carried through this crate opaquely; the
/// GPU layer reads its components.
#[verifier::external_type_specification]
#[verifier::external_body]
pub struct ExVec3(glam::Vec3);

/// glam's 2-component vector, carried through this crate opaquely.
#[verifier::external_type_specification]
#[verifier::external_body]
pub struct ExVec2(glam::Vec2);

/// glam's 4x4 matrix, carried through this crate opaquely.
#[verifier::external_type_specification]
#[verifier::external_body]
pub struct ExMat4(glam::Mat4);

/// Relies on glam's `Vec2` addition: the componentwise sum of the two
/// vectors. Nothing is claimed of the value.
#[verifier::external_body]
pub(crate) fn vec2_add(a: glam::Vec2, b: glam::Vec2) -> glam::Vec2 {
    a + b
}

/// Relies on glam's `Vec2::ZERO` constant: the origin vector. Nothing is
/// claimed of the value.
#[verifier::external_body]
pub(crate) fn vec2_zero() -> glam::Vec2 {
    glam::Vec2::ZERO
}

/// One static-mesh vertex: a world-space position and an RGB color.
#[derive(Clone, Copy, Debug, PartialEq)]
pub struct Vertex {
    pub position: glam::Vec3,
    pub color: glam::Vec3,
}

/// One billboard instance: a camera-facing quad drawn at a world-space
/// position with an RGB color, from geometry shared by all instances.
#[derive(Clone, Copy, Debug, PartialEq)]
pub struct Billboard {
    pub position: glam::Vec3,
    pub color: glam::Vec3,
}

/// The camera uniform: exactly two 4x4 matrices, uploaded in this order,
/// view first and projection second, 2 x 64 bytes in all.
#[derive(Clone, Copy, Debug)]
pub struct CameraUniform {
    pub view: glam::Mat4,
    pub projection: glam::Mat4,
}

/// A load was refused because it would overrun a pre-allocated buffer.
#[derive(Clone, Copy, Debug, PartialEq, Eq, Structural)]
pub enum RendererError {
    VertexCapacityExceeded,
    IndexCapacityExceeded,
    InstanceCapacityExceeded,
}

/// Slots pre-allocated in the static vertex buffer.
pub const MESH_VERTEX_CAPACITY: usize = 512;

/// Slots pre-allocated in the static index buffer.
pub const MESH_INDEX_CAPACITY: usize = 768;

/// Slots pre-allocated in the billboard instance buffer.
pub const BILLBOARD_CAPACITY: usize = 64;

/// Indices in the quad fan shared by every billboard instance.
pub const QUAD_INDEX_COUNT: u32 = 6;

/// One indexed draw: how many indices the pass reads from its index
/// buffer, over how many instances.
pub struct DrawCall {
    pub index_count: u32,
    pub instance_count: u32,
}

/// What one frame records, in order: a clear, then the static-mesh pass,
/// then the billboard pass, which composites on top because no depth
/// buffer exists.
pub struct FramePlan {
    pub mesh: DrawCall,
    pub billboards: DrawCall,
}

/// The renderer's own state: what stands in the fixed-capacity GPU
/// buffers and which dimensions the surface was last configured to.
pub struct Renderer {
    surface_width: u32,
    surface_height: u32,
    mesh_vertices: Vec<Vertex>,
    mesh_indices: Vec<u16>,
    billboards: Vec<Billboard>,
    camera: Option<CameraUniform>,
}

impl Renderer {
    /// The staged data never exceeds the pre-allocated capacities.
    pub closed spec fn wf(&self) -> bool {
        &&& self.mesh_vertices@.len() <= MESH_VERTEX_CAPACITY
        &&& self.mesh_indices@.len() <= MESH_INDEX_CAPACITY
        &&& self.billboards@.len() <= BILLBOARD_CAPACITY
    }

    /// The vertices standing in the static vertex buffer.
    pub closed spec fn spec_vertices(&self) -> Seq<Vertex> {
        self.mesh_vertices@
    }

    /// The indices standing in the static index buffer; their count
    /// bounds the mesh pass.
    pub closed spec fn spec_indices(&self) -> Seq<u16> {
        self.mesh_indices@
    }

    /// The instances standing in the billboard instance buffer.
    pub closed spec fn spec_billboards(&self) -> Seq<Billboard> {
        self.billboards@
    }

    /// The camera uniform staged for upload, if one was loaded.
    pub closed spec fn spec_camera(&self) -> Option<CameraUniform> {
        self.camera
    }

    /// The dimensions the surface was last configured to.
    pub closed spec fn spec_surface_size(&self) -> (u32, u32) {
        (self.surface_width, self.surface_height)
    }

    /// How many indices the mesh pass draws.
    pub open spec fn spec_num_indices(&self) -> int {
        self.spec_indices().len() as int
    }

    /// How many instances the billboard pass draws.
    pub open spec fn spec_num_instances(&self) -> int {
        self.spec_billboards().len() as int
    }

    /// A renderer with nothing loaded and a surface not yet configured.
    pub fn new() -> (r: Renderer)
        ensures
            r.wf(),
            r.spec_vertices() == Seq::<Vertex>::empty(),
            r.spec_indices() == Seq::<u16>::empty(),
            r.spec_billboards() == Seq::<Billboard>::empty(),
            r.spec_camera() is None,
            r.spec_surface_size() == (0u32, 0u32),
    {
        Renderer {
            surface_width: 0,
            surface_height: 0,
            mesh_vertices: Vec::new(),
            mesh_indices: Vec::new(),
            billboards: Vec::new(),
            camera: None,
        }
    }

    /// Record that the presentation surface was reconfigured to these
    /// dimensions. Everything loaded stays as it is.
    pub fn resize(&mut self, new_width: u32, new_height: u32)
        requires
            old(self).wf(),
        ensures
            final(self).wf(),
            *final(self) == spec_resize(*old(self), new_width, new_height),
            final(self).spec_surface_size() == (new_width, new_height),
            final(self).spec_vertices() == old(self).spec_vertices(),
            final(self).spec_indices() == old(self).spec_indices(),
            final(self).spec_billboards() == old(self).spec_billboards(),
            final(self).spec_camera() == old(self).spec_camera(),
    {
        self.surface_width = new_width;
        self.surface_height = new_height;
    }

    /// Stage mesh data for the static buffers, starting at offset 0, and
    /// make the index count the new bound of the mesh pass. Data that
    /// would overrun a pre-allocated buffer is refused whole, and the
    /// previous contents stay valid.
    pub fn load_mesh(&mut self, vertices: Vec<Vertex>, indices: Vec<u16>) -> (r: Result<
        (),
        RendererError,
    >)
        requires
            old(self).wf(),
        ensures
            final(self).wf(),
            final(self).spec_billboards() == old(self).spec_billboards(),
            final(self).spec_camera() == old(self).spec_camera(),
            final(self).spec_surface_size() == old(self).spec_surface_size(),
            vertices@.len() > MESH_VERTEX_CAPACITY ==> r == Err::<(), RendererError>(
                RendererError::VertexCapacityExceeded,
            ),
            vertices@.len() <= MESH_VERTEX_CAPACITY && indices@.len() > MESH_INDEX_CAPACITY
                ==> r == Err::<(), RendererError>(RendererError::IndexCapacityExceeded),
            r is Err ==> final(self).spec_vertices() == old(self).spec_vertices()
                && final(self).spec_indices() == old(self).spec_indices(),
            r is Ok <==> vertices@.len() <= MESH_VERTEX_CAPACITY && indices@.len()
                <= MESH_INDEX_CAPACITY,
            r is Ok ==> final(self).spec_vertices() == vertices@ && final(self).spec_indices()
                == indices@,
    {
        if vertices.len() > MESH_VERTEX_CAPACITY {
            return Err(RendererError::VertexCapacityExceeded);
        }
        if indices.len() > MESH_INDEX_CAPACITY {
            return Err(RendererError::IndexCapacityExceeded);
        }
        self.mesh_vertices = vertices;
        self.mesh_indices = indices;
        Ok(())
    }

    /// Stage billboard instances for the instance buffer, starting at
    /// offset 0, and make their count the new bound of the billboard
    /// pass. A set that would overrun the buffer is refused whole.
    pub fn load_billboards(&mut self, billboards: Vec<Billboard>) -> (r: Result<
        (),
        RendererError,
    >)
        requires
            old(self).wf(),
        ensures
            final(self).wf(),
            final(self).spec_vertices() == old(self).spec_vertices(),
            final(self).spec_indices() == old(self).spec_indices(),
            final(self).spec_camera() == old(self).spec_camera(),
            final(self).spec_surface_size() == old(self).spec_surface_size(),
            r is Ok <==> billboards@.len() <= BILLBOARD_CAPACITY,
            r is Err ==> r == Err::<(), RendererError>(RendererError::InstanceCapacityExceeded)
                && final(self).spec_billboards() == old(self).spec_billboards(),
            r is Ok ==> final(self).spec_billboards() == billboards@,
    {
        if billboards.len() > BILLBOARD_CAPACITY {
            return Err(RendererError::InstanceCapacityExceeded);
        }
        self.billboards = billboards;
        Ok(())
    }

    /// Stage the camera uniform: the view matrix first, the projection
    /// second; consumers of the uniform depend on that order. The
    /// projection must be derived from `surface_size()`, so it never
    /// uses dimensions older than the last `resize`.
    pub fn load_camera(&mut self, view: glam::Mat4, projection: glam::Mat4)
        requires
            old(self).wf(),
        ensures
            final(self).wf(),
            final(self).spec_vertices() == old(self).spec_vertices(),
            final(self).spec_indices() == old(self).spec_indices(),
            final(self).spec_billboards() == old(self).spec_billboards(),
            final(self).spec_surface_size() == old(self).spec_surface_size(),
            final(self).spec_camera() == Some(CameraUniform { view, projection }),
    {
        self.camera = Some(CameraUniform { view, projection });
    }

    /// The dimensions of the last `resize`, which the camera projection
    /// must be computed from.
    pub fn surface_size(&self) -> (r: (u32, u32))
        ensures
            r == self.spec_surface_size(),
    {
        (self.surface_width, self.surface_height)
    }

    /// How many indices of the static index buffer are valid.
    pub fn num_indices(&self) -> (r: u32)
        requires
            self.wf(),
        ensures
            r == self.spec_num_indices(),
    {
        self.mesh_indices.len() as u32
    }

    /// How many billboard instances are valid.
    pub fn num_instances(&self) -> (r: u32)
        requires
            self.wf(),
        ensures
            r == self.spec_num_instances(),
    {
        self.billboards.len() as u32
    }

    /// The staged vertices, for upload into the static vertex buffer.
    pub fn mesh_vertices(&self) -> (r: &Vec<Vertex>)
        ensures
            r@ == self.spec_vertices(),
    {
        &self.mesh_vertices
    }

    /// The staged indices, for upload into the static index buffer.
    pub fn mesh_indices(&self) -> (r: &Vec<u16>)
        ensures
            r@ == self.spec_indices(),
    {
        &self.mesh_indices
    }

    /// The staged instances, for upload into the instance buffer.
    pub fn billboards(&self) -> (r: &Vec<Billboard>)
        ensures
            r@ == self.spec_billboards(),
    {
        &self.billboards
    }

    /// The staged camera uniform, for upload in its fixed order.
    pub fn camera(&self) -> (r: &Option<CameraUniform>)
        ensures
            r == &self.spec_camera(),
    {
        &self.camera
    }

    /// What the next frame must record, pass by pass: first the static
    /// mesh, bound to the camera uniform, drawing every valid index over
    /// one instance; then the billboards, drawing the shared six-index
    /// quad once per valid instance.
    pub fn draw(&self) -> (r: FramePlan)
        requires
            self.wf(),
        ensures
            r.mesh.index_count == self.spec_num_indices(),
            r.mesh.instance_count == 1,
            r.billboards.index_count == QUAD_INDEX_COUNT,
            r.billboards.instance_count == self.spec_num_instances(),
    {
        FramePlan {
            mesh: DrawCall { index_count: self.mesh_indices.len() as u32, instance_count: 1 },
            billboards: DrawCall {
                index_count: QUAD_INDEX_COUNT,
                instance_count: self.billboards.len() as u32,
            },
        }
    }
}

/// The renderer state after a resize: the same staged data under the new
/// surface dimensions.
pub closed spec fn spec_resize(r: Renderer, width: u32, height: u32) -> Renderer {
    Renderer {
        surface_width: width,
        surface_height: height,
        mesh_vertices: r.mesh_vertices,
        mesh_indices: r.mesh_indices,
        billboards: r.billboards,
        camera: r.camera,
    }
}

/// The six indices of the quad fan shared by every billboard instance,
/// two triangles over four corners.
pub fn quad_indices() -> (r: Vec<u16>)
    ensures
        r@ == seq![0u16, 1u16, 2u16, 2u16, 3u16, 0u16],
        r@.len() == QUAD_INDEX_COUNT,
{
    let mut v: Vec<u16> = Vec::new();
    v.push(0);
    v.push(1);
    v.push(2);
    v.push(2);
    v.push(3);
    v.push(0);
    proof {
        assert(v@ =~= seq![0u16, 1u16, 2u16, 2u16, 3u16, 0u16]);
    }
    v
}

/// After a resize, the dimensions a camera upload reads are exactly the
/// resized ones, never a stale pair from before.
pub proof fn lemma_resize_fixes_viewport(r: Renderer, width: u32, height: u32)
    ensures
        spec_resize(r, width, height).spec_surface_size() == (width, height),
{
}

} // verus!
