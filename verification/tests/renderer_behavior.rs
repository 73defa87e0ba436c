use genesis::gfx::{
    quad_indices, Billboard, Renderer, RendererError, Vertex, BILLBOARD_CAPACITY,
    MESH_INDEX_CAPACITY, MESH_VERTEX_CAPACITY, QUAD_INDEX_COUNT,
};

fn vertex(x: f32, y: f32, z: f32) -> Vertex {
    Vertex { position: glam::Vec3::new(x, y, z), color: glam::Vec3::new(1.0, 1.0, 1.0) }
}

fn billboard(x: f32, y: f32, z: f32) -> Billboard {
    Billboard { position: glam::Vec3::new(x, y, z), color: glam::Vec3::new(0.5, 0.5, 0.5) }
}

#[test]
fn new_renderer_has_nothing_loaded() {
    let r = Renderer::new();
    assert_eq!(r.num_indices(), 0);
    assert_eq!(r.num_instances(), 0);
    assert_eq!(r.surface_size(), (0, 0));
    assert!(r.camera().is_none());
    let plan = r.draw();
    assert_eq!(plan.mesh.index_count, 0);
    assert_eq!(plan.billboards.instance_count, 0);
}

#[test]
fn load_mesh_sets_the_active_index_count() {
    let mut r = Renderer::new();
    let vertices = vec![vertex(0.0, 0.0, 0.0), vertex(1.0, 0.0, 0.0), vertex(0.0, 1.0, 0.0)];
    let indices: Vec<u16> = vec![0, 1, 2, 0];

    assert!(r.load_mesh(vertices, indices).is_ok());
    assert_eq!(r.num_indices(), 4);

    // The mesh pass of the next frame draws exactly those four indices.
    let plan = r.draw();
    assert_eq!(plan.mesh.index_count, 4);
    assert_eq!(plan.mesh.instance_count, 1);
}

#[test]
fn empty_mesh_draws_nothing() {
    let mut r = Renderer::new();
    assert!(r.load_mesh(Vec::new(), Vec::new()).is_ok());
    assert_eq!(r.draw().mesh.index_count, 0);
}

#[test]
fn loads_at_exact_capacity_succeed() {
    let mut r = Renderer::new();
    let vertices: Vec<Vertex> = (0..MESH_VERTEX_CAPACITY).map(|_| vertex(0.0, 0.0, 0.0)).collect();
    let indices: Vec<u16> = (0..MESH_INDEX_CAPACITY).map(|i| (i % 3) as u16).collect();
    assert!(r.load_mesh(vertices, indices).is_ok());
    assert_eq!(r.num_indices() as usize, MESH_INDEX_CAPACITY);

    let instances: Vec<Billboard> = (0..BILLBOARD_CAPACITY).map(|_| billboard(0.0, 0.0, 0.0)).collect();
    assert!(r.load_billboards(instances).is_ok());
    assert_eq!(r.num_instances() as usize, BILLBOARD_CAPACITY);
}

#[test]
fn oversized_vertex_load_is_refused_whole() {
    let mut r = Renderer::new();
    let small = vec![vertex(0.0, 0.0, 0.0)];
    assert!(r.load_mesh(small, vec![0, 0, 0]).is_ok());

    let too_many: Vec<Vertex> =
        (0..MESH_VERTEX_CAPACITY + 1).map(|_| vertex(0.0, 0.0, 0.0)).collect();
    let result = r.load_mesh(too_many, vec![0]);
    assert_eq!(result, Err(RendererError::VertexCapacityExceeded));

    // The previous contents stayed valid.
    assert_eq!(r.num_indices(), 3);
}

#[test]
fn oversized_index_load_is_refused_whole() {
    let mut r = Renderer::new();
    let too_many: Vec<u16> = vec![0; MESH_INDEX_CAPACITY + 1];
    let result = r.load_mesh(vec![vertex(0.0, 0.0, 0.0)], too_many);
    assert_eq!(result, Err(RendererError::IndexCapacityExceeded));
    assert_eq!(r.num_indices(), 0);
}

#[test]
fn oversized_billboard_load_is_refused_whole() {
    let mut r = Renderer::new();
    let too_many: Vec<Billboard> =
        (0..BILLBOARD_CAPACITY + 1).map(|_| billboard(0.0, 0.0, 0.0)).collect();
    let result = r.load_billboards(too_many);
    assert_eq!(result, Err(RendererError::InstanceCapacityExceeded));
    assert_eq!(r.num_instances(), 0);
}

#[test]
fn billboard_pass_draws_the_shared_quad_per_instance() {
    let mut r = Renderer::new();
    let instances = vec![billboard(0.0, 0.0, 0.0), billboard(1.0, 2.0, 3.0)];
    assert!(r.load_billboards(instances).is_ok());

    let plan = r.draw();
    assert_eq!(plan.billboards.index_count, QUAD_INDEX_COUNT);
    assert_eq!(plan.billboards.instance_count, 2);
}

#[test]
fn quad_fan_is_two_triangles_over_four_corners() {
    assert_eq!(quad_indices(), vec![0u16, 1, 2, 2, 3, 0]);
    assert_eq!(quad_indices().len() as u32, QUAD_INDEX_COUNT);
}

#[test]
fn resize_roundtrip_uses_the_latest_dimensions() {
    let mut r = Renderer::new();
    r.resize(800, 600);
    assert_eq!(r.surface_size(), (800, 600));

    // A later resize replaces the dimensions; nothing stale survives.
    r.resize(1024, 768);
    let (w, h) = r.surface_size();
    assert_eq!((w, h), (1024, 768));

    // The projection of the camera upload is derived from exactly these.
    let camera = default_camera();
    let projection = camera.projection(w as f32, h as f32);
    let view = camera.view();
    r.load_camera(view, projection);
    let staged = r.camera().expect("camera was loaded");
    assert_eq!(staged.view, view);
    assert_eq!(staged.projection, projection);
}

#[test]
fn load_mesh_keeps_the_staged_data() {
    let mut r = Renderer::new();
    let vertices = vec![vertex(1.0, 2.0, 3.0), vertex(4.0, 5.0, 6.0)];
    let indices: Vec<u16> = vec![1, 0, 1];
    assert!(r.load_mesh(vertices.clone(), indices.clone()).is_ok());
    assert_eq!(r.mesh_vertices(), &vertices);
    assert_eq!(r.mesh_indices(), &indices);
}

/// A camera as the surrounding application builds one: position at the
/// origin, no yaw or pitch, a quarter-turn field of view.
struct TestCamera {
    position: glam::Vec3,
    fov: f32,
    near: f32,
    far: f32,
}

fn default_camera() -> TestCamera {
    TestCamera {
        position: glam::Vec3::ZERO,
        fov: std::f32::consts::FRAC_PI_2,
        near: 0.1,
        far: 100.0,
    }
}

impl TestCamera {
    fn view(&self) -> glam::Mat4 {
        glam::Mat4::look_to_lh(self.position, glam::Vec3::X, glam::Vec3::Y)
    }

    fn projection(&self, width: f32, height: f32) -> glam::Mat4 {
        glam::Mat4::perspective_lh(self.fov, width / height, self.near, self.far)
    }
}
