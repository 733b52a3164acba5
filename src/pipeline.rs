//! The post-processing pipeline: redirection of tagged cameras into
//! offscreen textures, the full-screen draws and relay cameras that present
//! those textures, the sync of the channel-mix matrix with each camera's
//! mode, and the resizing of offscreen textures with their windows.
//!
//! Mode settings are per camera, with a fallback: a tagged camera either
//! carries its own `ColorBlindnessCamera` settings or follows the
//! pipeline's shared settings.

use crate::arena::{
    issued_kept, same_except, slot_issued, slot_live, slot_value, Arena, Handle, Slot,
};
use crate::mode::{mix_table, ColorBlindnessMode, ColorBlindnessPercentages};
use vstd::prelude::*;

mod resize;
mod setup;
mod sync;

pub use resize::{
    fitted_to, lemma_resize_follows_own_window, resize_done, resize_error, resize_hits, resized,
};
pub use setup::{
    detection_done, first_blocked, fit_for, images_kept, lemma_detection_runs_once,
    lemma_relay_renders_after, lemma_setup_builds_one_pass, materials_kept, offscreen_texture,
    pass_built, pending, setup_done, setup_error,
};
pub use sync::{
    lemma_sync_applies_settings, needs_sync, sync_blocked, sync_done, sync_writes, synced_entity,
};

verus! {

/// How much higher the relay camera's priority is than its tagged camera's,
/// so that the relay draws after the tagged camera within a frame.
pub const RELAY_PRIORITY_OFFSET: i64 = 10;

/// Number of render layers a camera or a draw can be placed on.
pub const TOTAL_LAYERS: u8 = 32;

/// The render layer reserved for the full-screen draws and their relay
/// cameras: the last one. Scene cameras may not use it.
pub const POST_PROCESS_LAYER: u8 = TOTAL_LAYERS - 1;

/// Texture usage bit: the texture can be the destination of a copy.
pub const USAGE_COPY_DST: u32 = 2;

/// Texture usage bit: the texture can be sampled by a shader.
pub const USAGE_TEXTURE_BINDING: u32 = 4;

/// Texture usage bit: the texture can be rendered into.
pub const USAGE_RENDER_ATTACHMENT: u32 = 16;

/// The usage of an offscreen texture: sampled, copied into and rendered into.
pub const OFFSCREEN_USAGE: u32 = USAGE_TEXTURE_BINDING | USAGE_COPY_DST | USAGE_RENDER_ATTACHMENT;

/// Identifies a window of the host.
#[derive(Clone, Copy, Debug, PartialEq, Eq, Structural, Hash)]
pub struct WindowId {
    pub id: u64,
}

/// A window and its physical size in pixels.
#[derive(Clone, Copy, Debug, PartialEq, Eq, Structural)]
pub struct Window {
    pub id: WindowId,
    pub physical_width: u32,
    pub physical_height: u32,
}

/// Where a camera renders to.
#[derive(Clone, Copy, Debug, PartialEq, Eq, Structural)]
pub enum RenderTarget {
    Window(WindowId),
    Image(Handle),
}

/// The parts of a camera that the pipeline reads or sets.
#[derive(Clone, Copy, Debug, PartialEq, Eq, Structural)]
pub struct Camera {
    pub target: RenderTarget,
    /// Cameras with a higher priority render later in a frame.
    pub priority: i64,
    /// The one render layer whose content this camera draws.
    pub render_layer: u8,
    /// Whether the UI is drawn by this camera.
    pub show_ui: bool,
}

/// Color blindness settings of a camera.
#[derive(Clone, Copy, Debug, PartialEq, Eq, Structural)]
pub struct ColorBlindnessCamera {
    /// Selects the color blindness mode to use.
    pub mode: ColorBlindnessMode,
    /// Controls whether color blindness simulation is enabled.
    pub enabled: bool,
}

/// A 2D color texture.
#[derive(Clone, Copy, Debug, PartialEq, Eq, Structural)]
pub struct Texture {
    pub width: u32,
    pub height: u32,
    pub mip_level_count: u32,
    pub sample_count: u32,
    /// Bit set of `USAGE_*` flags.
    pub usage: u32,
}

/// The post-processing material: the texture it samples and the matrix it
/// mixes the channels with.
#[derive(Clone, Copy, Debug, PartialEq, Eq, Structural)]
pub struct ColorBlindnessMaterial {
    pub source_image: Handle,
    pub percentages: ColorBlindnessPercentages,
}

/// A full-screen triangle drawn with a material on a render layer.
#[derive(Clone, Copy, Debug, PartialEq, Eq, Structural)]
pub struct FullScreenDraw {
    pub material: Handle,
    pub render_layer: u8,
}

/// An offscreen texture that follows the size of a window.
#[derive(Clone, Copy, Debug, PartialEq, Eq, Structural)]
pub struct FitToWindowSize {
    pub image: Handle,
    pub window_id: WindowId,
}

/// What was built for one tagged camera.
#[derive(Clone, Copy, Debug, PartialEq, Eq, Structural)]
pub struct PostProcessPass {
    /// The offscreen texture the tagged camera renders into.
    pub image: Handle,
    /// The material of the full-screen draw.
    pub material: Handle,
    /// Index of the full-screen draw.
    pub draw: usize,
    /// Index of the relay camera.
    pub relay: usize,
    /// Set when the original target was a window.
    pub fit: Option<FitToWindowSize>,
    /// The settings the material's matrix was last computed from.
    pub synced: ColorBlindnessCamera,
}

/// A camera as the pipeline tracks it.
#[derive(Clone, Copy, Debug, PartialEq, Eq, Structural)]
pub struct CameraEntity {
    pub camera: Camera,
    /// The camera asked for color blindness simulation.
    pub tagged: bool,
    /// Settings of its own; `None` follows the shared settings.
    pub settings: Option<ColorBlindnessCamera>,
    /// Set once the post-processing pass was built for it.
    pub pass: Option<PostProcessPass>,
}

/// Why an operation of the pipeline did not take place.
#[derive(Clone, Copy, Debug, PartialEq, Eq, Structural)]
pub enum PipelineError {
    /// No camera has this index.
    UnknownCamera,
    /// The camera is not tagged for color blindness simulation.
    NotTagged,
    /// The post-processing pass of the camera was built already.
    AlreadySetUp,
    /// The camera renders to a window that is not known.
    WindowNotFound,
    /// An image handle does not resolve.
    ImageNotFound,
    /// A material handle does not resolve.
    MaterialNotFound,
    /// The relay camera's priority would not fit in an `i64`.
    PriorityOverflow,
    /// A scene camera may not render the reserved post-processing layer.
    ReservedLayer,
}

/// The pipeline's state, seen as mathematical values.
pub struct PipelineModel {
    pub windows: Seq<Window>,
    pub images: Seq<Slot<Texture>>,
    pub materials: Seq<Slot<ColorBlindnessMaterial>>,
    pub draws: Seq<FullScreenDraw>,
    pub cameras: Seq<CameraEntity>,
    pub shared: ColorBlindnessCamera,
}

pub struct PostProcessPipeline {
    windows: Vec<Window>,
    images: Arena<Texture>,
    materials: Arena<ColorBlindnessMaterial>,
    draws: Vec<FullScreenDraw>,
    cameras: Vec<CameraEntity>,
    shared: ColorBlindnessCamera,
}

impl View for PostProcessPipeline {
    type V = PipelineModel;

    closed spec fn view(&self) -> PipelineModel {
        PipelineModel {
            windows: self.windows@,
            images: self.images@,
            materials: self.materials@,
            draws: self.draws@,
            cameras: self.cameras@,
            shared: self.shared,
        }
    }
}

/// The mode whose matrix is in use: the selected one when enabled, else `Normal`.
pub open spec fn effective_mode(s: ColorBlindnessCamera) -> ColorBlindnessMode {
    if s.enabled {
        s.mode
    } else {
        ColorBlindnessMode::Normal
    }
}

/// The settings that apply to a camera: its own, else the shared ones.
pub open spec fn effective_settings(p: PipelineModel, e: CameraEntity) -> ColorBlindnessCamera {
    match e.settings {
        Some(s) => s,
        None => p.shared,
    }
}

pub open spec fn window_known(p: PipelineModel, id: WindowId) -> bool {
    exists|k: int| 0 <= k < p.windows.len() && #[trigger] p.windows[k].id == id
}

/// The window with the given id, where it is known.
pub open spec fn window_of(p: PipelineModel, id: WindowId) -> Window {
    p.windows[choose|k: int| 0 <= k < p.windows.len() && #[trigger] p.windows[k].id == id]
}

/// The size in pixels of a render target, where it resolves.
pub open spec fn target_size(p: PipelineModel, t: RenderTarget) -> Option<(u32, u32)> {
    match t {
        RenderTarget::Window(id) => if window_known(p, id) {
            Some((window_of(p, id).physical_width, window_of(p, id).physical_height))
        } else {
            None
        },
        RenderTarget::Image(h) => if slot_live(p.images, h) {
            Some((slot_value(p.images, h).width, slot_value(p.images, h).height))
        } else {
            None
        },
    }
}

/// The material of a pass whose matrix follows the given settings.
pub open spec fn pass_material(image: Handle, s: ColorBlindnessCamera) -> ColorBlindnessMaterial {
    ColorBlindnessMaterial { source_image: image, percentages: mix_table(effective_mode(s)) }
}

/// The relay camera of a tagged camera: it presents to the original target,
/// after the tagged camera, and draws only the post-processing layer.
pub open spec fn relay_camera(c: Camera) -> Camera {
    Camera {
        target: c.target,
        priority: (c.priority + RELAY_PRIORITY_OFFSET) as i64,
        render_layer: POST_PROCESS_LAYER,
        show_ui: true,
    }
}

/// Invariant of one built pass, that of camera `i`.
pub open spec fn pass_wf(p: PipelineModel, i: int) -> bool {
    let e = p.cameras[i];
    let q = e.pass.unwrap();
    &&& e.tagged
    &&& e.camera.target == RenderTarget::Image(q.image)
    &&& !e.camera.show_ui
    &&& q.relay < p.cameras.len()
    &&& q.relay != i
    &&& p.cameras[q.relay as int].camera.priority == e.camera.priority + RELAY_PRIORITY_OFFSET
    &&& p.cameras[q.relay as int].camera.render_layer == POST_PROCESS_LAYER
    &&& q.draw < p.draws.len()
    &&& p.draws[q.draw as int] == (FullScreenDraw {
        material: q.material,
        render_layer: POST_PROCESS_LAYER,
    })
    &&& q.fit.is_some() ==> q.fit.unwrap().image == q.image
    &&& slot_issued(p.images, q.image)
    &&& slot_issued(p.materials, q.material)
    &&& slot_live(p.materials, q.material) ==> slot_value(p.materials, q.material)
        == pass_material(q.image, q.synced)
}

/// The pass of camera `i`.
pub open spec fn pass_of(p: PipelineModel, i: int) -> PostProcessPass {
    p.cameras[i].pass.unwrap()
}

pub open spec fn has_pass(p: PipelineModel, i: int) -> bool {
    0 <= i < p.cameras.len() && p.cameras[i].pass.is_some()
}

/// The pipeline's well-formedness: window ids are unique, every built pass
/// is consistent, and no two passes share a texture or a material.
pub open spec fn pipeline_wf(p: PipelineModel) -> bool {
    &&& forall|a: int, b: int|
        0 <= a < b < p.windows.len() ==> #[trigger] p.windows[a].id != #[trigger] p.windows[b].id
    &&& forall|i: int| #[trigger] has_pass(p, i) ==> pass_wf(p, i)
    &&& forall|i: int, j: int|
        #[trigger] has_pass(p, i) && #[trigger] has_pass(p, j) && i != j ==> {
            &&& p.cameras[i].pass.unwrap().image != p.cameras[j].pass.unwrap().image
            &&& p.cameras[i].pass.unwrap().material != p.cameras[j].pass.unwrap().material
        }
}

/// Well-formedness survives a change that keeps window ids unique, leaves
/// every existing camera's settings-free part and pass alone, adds cameras
/// without passes, only appends draws, never forgets an issued handle, and
/// never makes a material resolve to something new.
proof fn lemma_wf_kept(p: PipelineModel, q: PipelineModel)
    requires
        pipeline_wf(p),
        forall|a: int, b: int|
            0 <= a < b < q.windows.len() ==> #[trigger] q.windows[a].id != #[trigger] q.windows[b].id,
        p.cameras.len() <= q.cameras.len(),
        forall|i: int|
            0 <= i < p.cameras.len() ==> {
                &&& (#[trigger] q.cameras[i]).camera == p.cameras[i].camera
                &&& q.cameras[i].pass == p.cameras[i].pass
                &&& p.cameras[i].tagged ==> q.cameras[i].tagged
            },
        forall|i: int|
            p.cameras.len() <= i < q.cameras.len() ==> (#[trigger] q.cameras[i]).pass.is_none(),
        p.draws.len() <= q.draws.len(),
        forall|k: int| 0 <= k < p.draws.len() ==> #[trigger] q.draws[k] == p.draws[k],
        issued_kept(p.images, q.images),
        issued_kept(p.materials, q.materials),
        forall|g: Handle|
            #[trigger] slot_live(q.materials, g) ==> slot_live(p.materials, g) && slot_value(
                q.materials,
                g,
            ) == slot_value(p.materials, g),
    ensures
        pipeline_wf(q),
{
    assert forall|i: int| #[trigger] has_pass(q, i) implies pass_wf(q, i) by {
        assert(i < p.cameras.len());
        assert(has_pass(p, i));
        assert(pass_wf(p, i));
        let g = pass_of(p, i);
        assert(q.cameras[g.relay as int].camera == p.cameras[g.relay as int].camera);
        assert(q.draws[g.draw as int] == p.draws[g.draw as int]);
        assert(slot_issued(q.images, g.image));
        assert(slot_issued(q.materials, g.material));
    }
    assert forall|i: int, j: int|
        #[trigger] has_pass(q, i) && #[trigger] has_pass(q, j) && i != j implies {
            &&& q.cameras[i].pass.unwrap().image != q.cameras[j].pass.unwrap().image
            &&& q.cameras[i].pass.unwrap().material != q.cameras[j].pass.unwrap().material
        } by {
        assert(i < p.cameras.len() && j < p.cameras.len());
        assert(has_pass(p, i) && has_pass(p, j));
    }
}


/// The mode whose matrix applies under the given settings.
pub fn mode_in_use(s: ColorBlindnessCamera) -> (r: ColorBlindnessMode)
    ensures
        r == effective_mode(s),
{
    if s.enabled {
        s.mode
    } else {
        ColorBlindnessMode::Normal
    }
}

impl PostProcessPipeline {
    pub open spec fn wf(&self) -> bool {
        pipeline_wf(self@)
    }

    /// An empty pipeline whose shared settings are `shared`.
    pub fn new(shared: ColorBlindnessCamera) -> (r: PostProcessPipeline)
        ensures
            r.wf(),
            r@.windows.len() == 0,
            r@.images.len() == 0,
            r@.materials.len() == 0,
            r@.draws.len() == 0,
            r@.cameras.len() == 0,
            r@.shared == shared,
    {
        PostProcessPipeline {
            windows: Vec::new(),
            images: Arena::new(),
            materials: Arena::new(),
            draws: Vec::new(),
            cameras: Vec::new(),
            shared,
        }
    }

    /// The settings in force for a camera.
    fn settings_of(&self, e: &CameraEntity) -> (r: ColorBlindnessCamera)
        ensures
            r == effective_settings(self@, *e),
    {
        match e.settings {
            Some(s) => s,
            None => self.shared,
        }
    }

    /// Position of the window with the given id.
    fn find_window(&self, id: WindowId) -> (r: Option<usize>)
        requires
            self.wf(),
        ensures
            r.is_some() == window_known(self@, id),
            r.is_some() ==> r.unwrap() < self@.windows.len() && self@.windows[r.unwrap() as int]
                == window_of(self@, id) && self@.windows[r.unwrap() as int].id == id,
    {
        let n = self.windows.len();
        let mut k: usize = 0;
        while k < n
            invariant
                self.wf(),
                n == self.windows@.len(),
                0 <= k <= n,
                forall|j: int| 0 <= j < k ==> self.windows@[j].id != id,
            decreases n - k,
        {
            if self.windows[k].id == id {
                assert(window_known(self@, id)) by {
                    assert(self@.windows[k as int].id == id);
                }
                let ghost c = choose|j: int|
                    0 <= j < self@.windows.len() && #[trigger] self@.windows[j].id == id;
                assert(self@.windows[k as int].id == id);
                assert(c == k as int) by {
                    if c < k {
                        assert(self@.windows[c].id != self@.windows[k as int].id);
                    } else if c > k {
                        assert(self@.windows[k as int].id != self@.windows[c].id);
                    }
                }
                return Some(k);
            }
            k += 1;
        }
        None
    }

    /// Records a window and its size, or the new size of a known window.
    pub fn set_window(&mut self, window: Window)
        requires
            old(self).wf(),
        ensures
            final(self).wf(),
            window_known(final(self)@, window.id),
            window_of(final(self)@, window.id) == window,
            forall|id: WindowId|
                id != window.id ==> (window_known(final(self)@, id) == window_known(
                    old(self)@,
                    id,
                ) && (window_known(old(self)@, id) ==> window_of(final(self)@, id) == window_of(
                    old(self)@,
                    id,
                ))),
            final(self)@.images == old(self)@.images,
            final(self)@.materials == old(self)@.materials,
            final(self)@.draws == old(self)@.draws,
            final(self)@.cameras == old(self)@.cameras,
            final(self)@.shared == old(self)@.shared,
    {
        let ghost pos: int;
        match self.find_window(window.id) {
            Some(k) => {
                self.windows.set(k, window);
                proof {
                    pos = k as int;
                }
            },
            None => {
                self.windows.push(window);
                proof {
                    pos = self@.windows.len() - 1;
                }
            },
        }
        proof {
            let ws = self@.windows;
            assert(ws[pos].id == window.id);
            assert(forall|k: int| 0 <= k < ws.len() && k != pos ==> ws[k] == old(self)@.windows[k]);
            assert forall|a: int, b: int|
                0 <= a < b < ws.len() implies #[trigger] ws[a].id != #[trigger] ws[b].id by {
                if a != pos && b != pos {
                    assert(old(self)@.windows[a].id != old(self)@.windows[b].id);
                } else if a == pos && pos < old(self)@.windows.len() {
                    assert(old(self)@.windows[a].id != old(self)@.windows[b].id);
                } else if b == pos && pos < old(self)@.windows.len() {
                    assert(old(self)@.windows[a].id != old(self)@.windows[b].id);
                } else if a == pos {
                } else {
                    assert(old(self)@.windows[a].id == ws[a].id);
                }
            }
            lemma_wf_kept(old(self)@, self@);
            assert(exists|k: int| 0 <= k < ws.len() && #[trigger] ws[k].id == window.id);
            let c = choose|k: int| 0 <= k < ws.len() && #[trigger] ws[k].id == window.id;
            assert forall|k: int| 0 <= k < ws.len() && ws[k].id == window.id implies ws[k]
                == window by {}
            assert(ws[c] == window);
            assert forall|id: WindowId|
                id != window.id implies (window_known(self@, id) == window_known(old(self)@, id) && (
                window_known(old(self)@, id) ==> window_of(self@, id) == window_of(
                    old(self)@,
                    id,
                ))) by {
                if window_known(old(self)@, id) {
                    let j = choose|k: int|
                        0 <= k < old(self)@.windows.len() && #[trigger] old(self)@.windows[k].id
                            == id;
                    assert(ws[j].id == id);
                }
                if window_known(self@, id) {
                    let j = choose|k: int| 0 <= k < ws.len() && #[trigger] ws[k].id == id;
                    assert(old(self)@.windows[j].id == id);
                }
            }
        }
    }
}


impl PostProcessPipeline {
    /// Adds a scene camera, untagged; returns its index. A scene camera may
    /// not draw the layer reserved for post-processing.
    pub fn add_camera(&mut self, camera: Camera) -> (r: Result<usize, PipelineError>)
        requires
            old(self).wf(),
        ensures
            final(self).wf(),
            camera.render_layer == POST_PROCESS_LAYER ==> r == Err::<usize, PipelineError>(
                PipelineError::ReservedLayer,
            ) && final(self)@ == old(self)@,
            camera.render_layer != POST_PROCESS_LAYER ==> r == Ok::<usize, PipelineError>(
                old(self)@.cameras.len() as usize,
            ) && final(self)@ == (PipelineModel {
                cameras: old(self)@.cameras.push(
                    CameraEntity { camera, tagged: false, settings: None, pass: None },
                ),
                ..old(self)@
            }),
    {
        if camera.render_layer == POST_PROCESS_LAYER {
            return Err(PipelineError::ReservedLayer);
        }
        let n = self.cameras.len();
        self.cameras.push(CameraEntity { camera, tagged: false, settings: None, pass: None });
        proof {
            let (p, q) = (old(self)@, self@);
            lemma_wf_kept(p, q);
            assert(q == (PipelineModel {
                cameras: p.cameras.push(
                    CameraEntity { camera, tagged: false, settings: None, pass: None },
                ),
                ..p
            }));
        }
        Ok(n)
    }

    /// Tags a camera for color blindness simulation, with settings of its
    /// own or (`None`) following the shared settings. On a tagged camera this
    /// replaces its settings.
    pub fn tag_camera(&mut self, cam: usize, settings: Option<ColorBlindnessCamera>) -> (r: Result<
        (),
        PipelineError,
    >)
        requires
            old(self).wf(),
        ensures
            final(self).wf(),
            cam >= old(self)@.cameras.len() ==> r == Err::<(), PipelineError>(
                PipelineError::UnknownCamera,
            ) && final(self)@ == old(self)@,
            cam < old(self)@.cameras.len() ==> r == Ok::<(), PipelineError>(()) && final(self)@ == (
            PipelineModel {
                cameras: old(self)@.cameras.update(
                    cam as int,
                    CameraEntity { tagged: true, settings, ..old(self)@.cameras[cam as int] },
                ),
                ..old(self)@
            }),
    {
        if cam >= self.cameras.len() {
            return Err(PipelineError::UnknownCamera);
        }
        let e = self.cameras[cam];
        self.cameras.set(cam, CameraEntity { camera: e.camera, tagged: true, settings, pass: e.pass });
        proof {
            let (p, q) = (old(self)@, self@);
            lemma_wf_kept(p, q);
            assert(q.cameras =~= p.cameras.update(
                cam as int,
                CameraEntity { tagged: true, settings, ..p.cameras[cam as int] },
            ));
        }
        Ok(())
    }

    /// Replaces the shared settings, which every tagged camera without
    /// settings of its own follows.
    pub fn set_shared_settings(&mut self, shared: ColorBlindnessCamera)
        requires
            old(self).wf(),
        ensures
            final(self).wf(),
            final(self)@ == (PipelineModel { shared, ..old(self)@ }),
    {
        self.shared = shared;
        proof {
            let (p, q) = (old(self)@, self@);
            lemma_wf_kept(p, q);
        }
    }

    /// Stores an image of the host (one a camera may render to).
    pub fn add_image(&mut self, texture: Texture) -> (h: Handle)
        requires
            old(self).wf(),
        ensures
            final(self).wf(),
            !slot_issued(old(self)@.images, h),
            slot_live(final(self)@.images, h),
            slot_value(final(self)@.images, h) == texture,
            same_except(old(self)@.images, final(self)@.images, h),
            issued_kept(old(self)@.images, final(self)@.images),
            final(self)@ == (PipelineModel { images: final(self)@.images, ..old(self)@ }),
    {
        let h = self.images.add(texture);
        proof {
            let (p, q) = (old(self)@, self@);
            lemma_wf_kept(p, q);
        }
        h
    }

    /// Removes an image; its handle is stale from then on.
    pub fn remove_image(&mut self, h: Handle) -> (r: Option<Texture>)
        requires
            old(self).wf(),
        ensures
            final(self).wf(),
            r.is_some() == slot_live(old(self)@.images, h),
            r.is_some() ==> r.unwrap() == slot_value(old(self)@.images, h),
            !slot_live(final(self)@.images, h),
            same_except(old(self)@.images, final(self)@.images, h),
            final(self)@ == (PipelineModel { images: final(self)@.images, ..old(self)@ }),
    {
        let r = self.images.remove(h);
        proof {
            let (p, q) = (old(self)@, self@);
            lemma_wf_kept(p, q);
        }
        r
    }

    /// Removes a material; its handle is stale from then on.
    pub fn remove_material(&mut self, h: Handle) -> (r: Option<ColorBlindnessMaterial>)
        requires
            old(self).wf(),
        ensures
            final(self).wf(),
            r.is_some() == slot_live(old(self)@.materials, h),
            r.is_some() ==> r.unwrap() == slot_value(old(self)@.materials, h),
            !slot_live(final(self)@.materials, h),
            same_except(old(self)@.materials, final(self)@.materials, h),
            final(self)@ == (PipelineModel { materials: final(self)@.materials, ..old(self)@ }),
    {
        let r = self.materials.remove(h);
        proof {
            let (p, q) = (old(self)@, self@);
            lemma_wf_kept(p, q);
        }
        r
    }
}

impl PostProcessPipeline {
    pub fn camera_count(&self) -> (r: usize)
        ensures
            r == self@.cameras.len(),
    {
        self.cameras.len()
    }

    pub fn camera(&self, i: usize) -> (r: Option<CameraEntity>)
        ensures
            i < self@.cameras.len() ==> r == Some(self@.cameras[i as int]),
            i >= self@.cameras.len() ==> r.is_none(),
    {
        if i < self.cameras.len() {
            Some(self.cameras[i])
        } else {
            None
        }
    }

    pub fn draw_count(&self) -> (r: usize)
        ensures
            r == self@.draws.len(),
    {
        self.draws.len()
    }

    pub fn draw(&self, i: usize) -> (r: Option<FullScreenDraw>)
        ensures
            i < self@.draws.len() ==> r == Some(self@.draws[i as int]),
            i >= self@.draws.len() ==> r.is_none(),
    {
        if i < self.draws.len() {
            Some(self.draws[i])
        } else {
            None
        }
    }

    pub fn image(&self, h: Handle) -> (r: Option<Texture>)
        ensures
            r.is_some() == slot_live(self@.images, h),
            r.is_some() ==> r.unwrap() == slot_value(self@.images, h),
    {
        match self.images.get(h) {
            Some(t) => Some(*t),
            None => None,
        }
    }

    pub fn material(&self, h: Handle) -> (r: Option<ColorBlindnessMaterial>)
        ensures
            r.is_some() == slot_live(self@.materials, h),
            r.is_some() ==> r.unwrap() == slot_value(self@.materials, h),
    {
        match self.materials.get(h) {
            Some(m) => Some(*m),
            None => None,
        }
    }

    pub fn window(&self, id: WindowId) -> (r: Option<Window>)
        requires
            self.wf(),
        ensures
            r.is_some() == window_known(self@, id),
            r.is_some() ==> r.unwrap() == window_of(self@, id),
    {
        match self.find_window(id) {
            Some(k) => Some(self.windows[k]),
            None => None,
        }
    }

    pub fn shared_settings(&self) -> (r: ColorBlindnessCamera)
        ensures
            r == self@.shared,
    {
        self.shared
    }
}


} // verus!
