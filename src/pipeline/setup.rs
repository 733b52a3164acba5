//! Building the post-processing pass of tagged cameras.

use super::{
    effective_settings, has_pass, mode_in_use, pass_material, pass_of, pass_wf, pipeline_wf,
    relay_camera, target_size, Camera, CameraEntity, ColorBlindnessMaterial, FitToWindowSize,
    FullScreenDraw, PipelineError, PipelineModel, PostProcessPass, PostProcessPipeline,
    RenderTarget, Texture, Window, OFFSCREEN_USAGE, POST_PROCESS_LAYER, RELAY_PRIORITY_OFFSET,
};
use crate::arena::{issued_kept, same_except, slot_issued, slot_live, slot_value, Handle};
use vstd::prelude::*;

verus! {

/// Why setting up camera `cam` is refused, if it is.
pub open spec fn setup_error(p: PipelineModel, cam: int) -> Option<PipelineError> {
    if !(0 <= cam < p.cameras.len()) {
        Some(PipelineError::UnknownCamera)
    } else if !p.cameras[cam].tagged {
        Some(PipelineError::NotTagged)
    } else if p.cameras[cam].pass.is_some() {
        Some(PipelineError::AlreadySetUp)
    } else if target_size(p, p.cameras[cam].camera.target).is_none() {
        match p.cameras[cam].camera.target {
            RenderTarget::Window(_) => Some(PipelineError::WindowNotFound),
            RenderTarget::Image(_) => Some(PipelineError::ImageNotFound),
        }
    } else if p.cameras[cam].camera.priority + RELAY_PRIORITY_OFFSET > i64::MAX {
        Some(PipelineError::PriorityOverflow)
    } else {
        None
    }
}

/// The offscreen texture for a target of the given size: one mip level,
/// one sample, usable as the relay's source and as a render target.
pub open spec fn offscreen_texture(size: (u32, u32)) -> Texture {
    Texture {
        width: size.0,
        height: size.1,
        mip_level_count: 1,
        sample_count: 1,
        usage: OFFSCREEN_USAGE,
    }
}

/// The fit of an offscreen texture: to the window the camera rendered to, if any.
pub open spec fn fit_for(t: RenderTarget, image: Handle) -> Option<FitToWindowSize> {
    match t {
        RenderTarget::Window(id) => Some(FitToWindowSize { image, window_id: id }),
        RenderTarget::Image(_) => None,
    }
}

/// `q` is `p` after the pass of camera `cam` was built: a new offscreen
/// texture of the target's size, a new material over it with the camera's
/// matrix, a new full-screen draw, the camera redirected to the texture
/// with its UI off, and a new relay camera to the original target.
pub open spec fn setup_done(p: PipelineModel, q: PipelineModel, cam: int) -> bool {
    let e = p.cameras[cam];
    let pass = q.cameras[cam].pass.unwrap();
    let s = effective_settings(p, e);
    &&& q.cameras[cam].pass.is_some()
    &&& q.windows == p.windows
    &&& q.shared == p.shared
    &&& !slot_issued(p.images, pass.image)
    &&& slot_live(q.images, pass.image)
    &&& slot_value(q.images, pass.image) == offscreen_texture(
        target_size(p, e.camera.target).unwrap(),
    )
    &&& same_except(p.images, q.images, pass.image)
    &&& issued_kept(p.images, q.images)
    &&& !slot_issued(p.materials, pass.material)
    &&& slot_live(q.materials, pass.material)
    &&& slot_value(q.materials, pass.material) == pass_material(pass.image, s)
    &&& same_except(p.materials, q.materials, pass.material)
    &&& issued_kept(p.materials, q.materials)
    &&& q.draws == p.draws.push(
        FullScreenDraw { material: pass.material, render_layer: POST_PROCESS_LAYER },
    )
    &&& pass.draw == p.draws.len()
    &&& pass.relay == p.cameras.len()
    &&& pass.fit == fit_for(e.camera.target, pass.image)
    &&& pass.synced == s
    &&& q.cameras == p.cameras.update(
        cam,
        CameraEntity {
            camera: Camera {
                target: RenderTarget::Image(pass.image),
                show_ui: false,
                ..e.camera
            },
            pass: Some(pass),
            ..e
        },
    ).push(
        CameraEntity {
            camera: relay_camera(e.camera),
            tagged: false,
            settings: None,
            pass: None,
        },
    )
}

impl PostProcessPipeline {
    /// The size of a render target, where it resolves.
    fn size_of_target(&self, t: RenderTarget) -> (r: Option<(u32, u32)>)
        requires
            self.wf(),
        ensures
            r == target_size(self@, t),
    {
        match t {
            RenderTarget::Window(id) => match self.find_window(id) {
                Some(k) => Some((self.windows[k].physical_width, self.windows[k].physical_height)),
                None => None,
            },
            RenderTarget::Image(h) => match self.images.get(h) {
                Some(texture) => Some((texture.width, texture.height)),
                None => None,
            },
        }
    }

    /// Builds the post-processing pass of a tagged camera: renders the camera
    /// into a new offscreen texture of its target's size, and presents that
    /// texture, through the color blindness material, with a new relay camera
    /// on the original target. Nothing changes when it is refused.
    pub fn setup_camera(&mut self, cam: usize) -> (r: Result<(), PipelineError>)
        requires
            old(self).wf(),
        ensures
            final(self).wf(),
            r.is_err() == setup_error(old(self)@, cam as int).is_some(),
            r.is_err() ==> Some(r->Err_0) == setup_error(old(self)@, cam as int) && final(self)@
                == old(self)@,
            r.is_ok() ==> setup_done(old(self)@, final(self)@, cam as int),
    {
        let size = match self.check_setup(cam) {
            Ok(size) => size,
            Err(err) => {
                return Err(err);
            },
        };
        let e = self.cameras[cam];
        let settings = self.settings_of(&e);
        let mode = mode_in_use(settings);
        let image = self.images.add(
            Texture {
                width: size.0,
                height: size.1,
                mip_level_count: 1,
                sample_count: 1,
                usage: OFFSCREEN_USAGE,
            },
        );
        let material = self.materials.add(
            ColorBlindnessMaterial { source_image: image, percentages: mode.percentages() },
        );
        let draw = self.draws.len();
        self.draws.push(FullScreenDraw { material, render_layer: POST_PROCESS_LAYER });
        let relay = self.cameras.len();
        let fit = match e.camera.target {
            RenderTarget::Window(id) => Some(FitToWindowSize { image, window_id: id }),
            RenderTarget::Image(_) => None,
        };
        let pass = PostProcessPass { image, material, draw, relay, fit, synced: settings };
        let redirected = Camera {
            target: RenderTarget::Image(image),
            priority: e.camera.priority,
            render_layer: e.camera.render_layer,
            show_ui: false,
        };
        self.cameras.set(
            cam,
            CameraEntity {
                camera: redirected,
                tagged: e.tagged,
                settings: e.settings,
                pass: Some(pass),
            },
        );
        let relay_cam = Camera {
            target: e.camera.target,
            priority: e.camera.priority + RELAY_PRIORITY_OFFSET,
            render_layer: POST_PROCESS_LAYER,
            show_ui: true,
        };
        self.cameras.push(CameraEntity { camera: relay_cam, tagged: false, settings: None, pass: None });
        proof {
            let (p, q) = (old(self)@, self@);
            assert(q.cameras[cam as int].pass == Some(pass));
            assert(setup_done(p, q, cam as int));
            assert forall|i: int| #[trigger] has_pass(q, i) implies pass_wf(q, i) by {
                if i != cam as int {
                    assert(i < p.cameras.len());
                    assert(q.cameras[i] == p.cameras[i]);
                    assert(has_pass(p, i));
                    assert(pass_wf(p, i));
                    let g = q.cameras[i].pass.unwrap();
                    assert(slot_issued(p.images, g.image));
                    assert(slot_issued(p.materials, g.material));
                    assert(g.material != material);
                }
            }
            assert forall|i: int, j: int|
                #[trigger] has_pass(q, i) && #[trigger] has_pass(q, j) && i != j implies {
                    &&& q.cameras[i].pass.unwrap().image != q.cameras[j].pass.unwrap().image
                    &&& q.cameras[i].pass.unwrap().material != q.cameras[j].pass.unwrap().material
                } by {
                if i == cam as int {
                    assert(j < p.cameras.len());
                    assert(q.cameras[j] == p.cameras[j]);
                    assert(has_pass(p, j));
                    assert(pass_wf(p, j));
                } else if j == cam as int {
                    assert(i < p.cameras.len());
                    assert(q.cameras[i] == p.cameras[i]);
                    assert(has_pass(p, i));
                    assert(pass_wf(p, i));
                } else {
                    assert(has_pass(p, i) && has_pass(p, j));
                }
            }
        }
        Ok(())
    }
}

/// Camera `i` is tagged and its pass is not built yet.
pub open spec fn pending(p: PipelineModel, i: int) -> bool {
    0 <= i < p.cameras.len() && p.cameras[i].tagged && p.cameras[i].pass.is_none()
}

/// The first pending camera, from `from` on, whose setup is refused.
pub open spec fn first_blocked(p: PipelineModel, from: int) -> Option<int>
    decreases p.cameras.len() - from,
{
    if from < 0 || from >= p.cameras.len() {
        None
    } else if pending(p, from) && setup_error(p, from).is_some() {
        Some(from)
    } else {
        first_blocked(p, from + 1)
    }
}

/// Every image that resolves in `p` resolves in `q` to the same texture.
pub open spec fn images_kept(p: PipelineModel, q: PipelineModel) -> bool {
    forall|g: Handle|
        #[trigger] slot_live(p.images, g) ==> slot_live(q.images, g) && slot_value(q.images, g)
            == slot_value(p.images, g)
}

proof fn lemma_first_blocked(p: PipelineModel, from: int)
    requires
        0 <= from,
    ensures
        first_blocked(p, from).is_none() <==> (forall|i: int|
            from <= i && #[trigger] pending(p, i) ==> setup_error(p, i).is_none()),
        first_blocked(p, from).is_some() ==> from <= first_blocked(p, from).unwrap()
            && pending(p, first_blocked(p, from).unwrap()) && setup_error(
            p,
            first_blocked(p, from).unwrap(),
        ).is_some(),
    decreases p.cameras.len() - from,
{
    if from < p.cameras.len() {
        lemma_first_blocked(p, from + 1);
    }
}

/// Every material that resolves in `p` resolves in `q` to the same material.
pub open spec fn materials_kept(p: PipelineModel, q: PipelineModel) -> bool {
    forall|g: Handle|
        #[trigger] slot_live(p.materials, g) ==> slot_live(q.materials, g) && slot_value(
            q.materials,
            g,
        ) == slot_value(p.materials, g)
}

/// In `q`, camera `c` of `p` has its pass built as `setup_camera` builds
/// it: redirected into a texture and a material that `p` never issued, the
/// texture of its original target's size, the material with the matrix of
/// its settings, a full-screen draw and a relay camera that are new.
pub open spec fn pass_built(p: PipelineModel, q: PipelineModel, c: int) -> bool {
    let e = p.cameras[c];
    let pass = q.cameras[c].pass.unwrap();
    let s = effective_settings(p, e);
    &&& 0 <= c < p.cameras.len()
    &&& q.cameras[c].pass.is_some()
    &&& q.cameras[c] == CameraEntity {
        camera: Camera { target: RenderTarget::Image(pass.image), show_ui: false, ..e.camera },
        pass: Some(pass),
        ..e
    }
    &&& !slot_issued(p.images, pass.image)
    &&& slot_live(q.images, pass.image)
    &&& slot_value(q.images, pass.image) == offscreen_texture(
        target_size(p, e.camera.target).unwrap(),
    )
    &&& !slot_issued(p.materials, pass.material)
    &&& slot_live(q.materials, pass.material)
    &&& slot_value(q.materials, pass.material) == pass_material(pass.image, s)
    &&& p.draws.len() <= pass.draw < q.draws.len()
    &&& q.draws[pass.draw as int] == (FullScreenDraw {
        material: pass.material,
        render_layer: POST_PROCESS_LAYER,
    })
    &&& p.cameras.len() <= pass.relay < q.cameras.len()
    &&& q.cameras[pass.relay as int] == (CameraEntity {
        camera: relay_camera(e.camera),
        tagged: false,
        settings: None,
        pass: None,
    })
    &&& pass.fit == fit_for(e.camera.target, pass.image)
    &&& pass.synced == s
}

/// `q` is `p` after the passes of all pending cameras were built; `built`
/// lists those cameras in order. Each of them is built as `pass_built`
/// says; every other camera, image, material and window is as it was.
pub open spec fn detection_done(p: PipelineModel, q: PipelineModel, built: Seq<usize>) -> bool {
    &&& forall|k: int| 0 <= k < built.len() ==> pass_built(p, q, #[trigger] built[k] as int)
    &&& forall|i: int|
        0 <= i < p.cameras.len() && !pending(p, i) ==> #[trigger] q.cameras[i] == p.cameras[i]
    &&& q.windows == p.windows
    &&& q.shared == p.shared
    &&& images_kept(p, q)
    &&& materials_kept(p, q)
    &&& forall|k: int| 0 <= k < built.len() ==> pending(p, #[trigger] built[k] as int)
    &&& forall|k: int, l: int| 0 <= k < l < built.len() ==> #[trigger] built[k] < #[trigger] built[l]
    &&& forall|i: int| #[trigger] pending(p, i) ==> built.contains(i as usize)
    &&& forall|i: int| 0 <= i < p.cameras.len() && p.cameras[i].tagged ==> has_pass(q, i)
    &&& forall|i: int| !#[trigger] pending(q, i)
    &&& built.len() == 0 ==> q == p
    &&& q.cameras.len() == p.cameras.len() + built.len()
    &&& q.draws.len() == p.draws.len() + built.len()
}

impl PostProcessPipeline {
    /// Builds the post-processing pass of every tagged camera that has none
    /// yet, and only of those; returns their indices in order. A camera whose
    /// pass exists is never set up again. Refused, with nothing changed, when
    /// the setup of one of them would be refused: the error is that of the
    /// first such camera.
    pub fn setup_new_color_blindness_cameras(&mut self) -> (r: Result<Vec<usize>, PipelineError>)
        requires
            old(self).wf(),
        ensures
            final(self).wf(),
            r.is_err() == first_blocked(old(self)@, 0).is_some(),
            r.is_err() ==> Some(r->Err_0) == setup_error(
                old(self)@,
                first_blocked(old(self)@, 0).unwrap(),
            ) && final(self)@ == old(self)@,
            r.is_ok() ==> detection_done(old(self)@, final(self)@, r->Ok_0@),
    {
        let ghost p = self@;
        let n = self.cameras.len();
        let mut i: usize = 0;
        while i < n
            invariant
                self@ == p,
                pipeline_wf(p),
                n == p.cameras.len(),
                0 <= i <= n,
                first_blocked(p, 0) == first_blocked(p, i as int),
            decreases n - i,
        {
            let e = self.cameras[i];
            if e.tagged && e.pass.is_none() {
                if let Err(err) = self.check_setup(i) {
                    assert(first_blocked(p, i as int) == Some(i as int));
                    return Err(err);
                }
            }
            i += 1;
        }
        proof {
            lemma_first_blocked(p, 0);
            lemma_first_blocked(p, n as int);
        }
        let mut built: Vec<usize> = Vec::new();
        let mut i: usize = 0;
        while i < n
            invariant
                self.wf(),
                pipeline_wf(p),
                forall|j: int| 0 <= j && #[trigger] pending(p, j) ==> setup_error(p, j).is_none(),
                n == p.cameras.len(),
                0 <= i <= n,
                self@.windows == p.windows,
                self@.shared == p.shared,
                images_kept(p, self@),
                materials_kept(p, self@),
                issued_kept(p.images, self@.images),
                issued_kept(p.materials, self@.materials),
                forall|k: int| 0 <= k < built@.len() ==> pass_built(p, self@, #[trigger] built@[k] as int),
                forall|j: int|
                    0 <= j < n && !(j < i && pending(p, j)) ==> #[trigger] self@.cameras[j] == p.cameras[j],
                self@.cameras.len() == n + built@.len(),
                self@.draws.len() == p.draws.len() + built@.len(),
                forall|j: int| i <= j < n ==> #[trigger] self@.cameras[j] == p.cameras[j],
                forall|j: int| n <= j < self@.cameras.len() ==> !(#[trigger] self@.cameras[j]).tagged,
                forall|j: int| 0 <= j < n ==> (#[trigger] self@.cameras[j]).tagged == p.cameras[j].tagged,
                forall|j: int| 0 <= j < i && p.cameras[j].tagged ==> #[trigger] has_pass(self@, j),
                forall|j: int| #[trigger] has_pass(p, j) ==> self@.cameras[j] == p.cameras[j],
                forall|k: int|
                    0 <= k < built@.len() ==> pending(p, #[trigger] built@[k] as int) && built@[k] < i,
                forall|k: int, l: int|
                    0 <= k < l < built@.len() ==> #[trigger] built@[k] < #[trigger] built@[l],
                forall|j: int| 0 <= j < i && #[trigger] pending(p, j) ==> built@.contains(j as usize),
                built@.len() == 0 ==> self@ == p,
            decreases n - i,
        {
            let ghost before = self@;
            let ghost b0 = built@;
            let e = self.cameras[i];
            if e.tagged && e.pass.is_none() {
                proof {
                    assert(pending(p, i as int));
                    assert(setup_error(p, i as int).is_none());
                    assert(self@.cameras[i as int] == p.cameras[i as int]);
                    let t = p.cameras[i as int].camera.target;
                    if let RenderTarget::Image(h) = t {
                        assert(slot_live(p.images, h));
                    }
                    assert(target_size(self@, t) == target_size(p, t));
                    assert(setup_error(self@, i as int).is_none());
                }
                let r = self.setup_camera(i);
                built.push(i);
                proof {
                    let q = self@;
                    assert(r.is_ok());
                    assert(setup_done(before, q, i as int));
                    assert(built@ == b0.push(i));
                    assert forall|g: Handle| #[trigger] slot_live(p.images, g) implies slot_live(
                        q.images,
                        g,
                    ) && slot_value(q.images, g) == slot_value(p.images, g) by {
                        assert(slot_live(before.images, g));
                        assert(slot_issued(before.images, g));
                    }
                    assert forall|g: Handle| slot_issued(p.images, g) implies #[trigger] slot_issued(
                        q.images,
                        g,
                    ) by {
                        assert(slot_issued(before.images, g));
                    }
                    assert forall|g: Handle| slot_issued(p.materials, g) implies #[trigger] slot_issued(
                        q.materials,
                        g,
                    ) by {
                        assert(slot_issued(before.materials, g));
                    }
                    let pass = q.cameras[i as int].pass.unwrap();
                    assert forall|g: Handle| #[trigger] slot_live(p.materials, g) implies slot_live(
                        q.materials,
                        g,
                    ) && slot_value(q.materials, g) == slot_value(p.materials, g) by {
                        assert(slot_live(before.materials, g));
                        assert(slot_issued(before.materials, g));
                    }
                    assert(!slot_issued(p.images, pass.image)) by {
                        if slot_issued(p.images, pass.image) {
                            assert(slot_issued(before.images, pass.image));
                        }
                    }
                    assert(!slot_issued(p.materials, pass.material)) by {
                        if slot_issued(p.materials, pass.material) {
                            assert(slot_issued(before.materials, pass.material));
                        }
                    }
                    assert(pass_built(p, q, i as int));
                    assert forall|k: int| 0 <= k < built@.len() implies pass_built(
                        p,
                        q,
                        #[trigger] built@[k] as int,
                    ) by {
                        if k < b0.len() {
                            let c = b0[k] as int;
                            assert(built@[k] == b0[k]);
                            assert(pass_built(p, before, c));
                            let pc = before.cameras[c].pass.unwrap();
                            assert(c != i as int);
                            assert(q.cameras[c] == before.cameras[c]);
                            assert(slot_issued(before.images, pc.image));
                            assert(slot_issued(before.materials, pc.material));
                            assert(pc.image != pass.image);
                            assert(pc.material != pass.material);
                            assert(q.cameras[pc.relay as int] == before.cameras[pc.relay as int]);
                            assert(q.draws[pc.draw as int] == before.draws[pc.draw as int]);
                        }
                    }
                    assert forall|j: int|
                        0 <= j < n && !(j < i + 1 && pending(p, j)) implies #[trigger] q.cameras[j]
                        == p.cameras[j] by {
                        assert(j != i);
                        assert(before.cameras[j] == p.cameras[j]);
                    }
                    assert forall|j: int| 0 <= j < n implies (#[trigger] q.cameras[j]).tagged == p.cameras[j].tagged by {
                        assert(before.cameras[j].tagged == p.cameras[j].tagged);
                    }
                    assert forall|j: int| n <= j < q.cameras.len() implies !(#[trigger] q.cameras[j]).tagged by {
                        if j < q.cameras.len() - 1 {
                            assert(!before.cameras[j].tagged);
                        }
                    }
                    assert forall|j: int| i < j < n implies #[trigger] q.cameras[j] == p.cameras[j] by {
                        assert(before.cameras[j] == p.cameras[j]);
                    }
                    assert forall|j: int| 0 <= j <= i && p.cameras[j].tagged implies #[trigger] has_pass(
                        q,
                        j,
                    ) by {
                        if j < i {
                            assert(has_pass(before, j));
                        }
                    }
                    assert forall|j: int| #[trigger] has_pass(p, j) implies q.cameras[j]
                        == p.cameras[j] by {
                        assert(before.cameras[j] == p.cameras[j]);
                        assert(j != i);
                    }
                    assert forall|j: int| 0 <= j <= i && #[trigger] pending(p, j) implies built@.contains(
                        j as usize,
                    ) by {
                        if j == i {
                            assert(built@[built@.len() - 1] == i);
                        } else {
                            let k = choose|k: int| 0 <= k < b0.len() && b0[k] == j as usize;
                            assert(built@[k] == j as usize);
                        }
                    }
                }
            } else {
                proof {
                    assert(!pending(p, i as int));
                    if p.cameras[i as int].tagged {
                        assert(has_pass(p, i as int));
                    }
                }
            }
            i += 1;
        }
        proof {
            let q = self@;
            assert forall|j: int| 0 <= j < p.cameras.len() && !pending(p, j) implies #[trigger] q.cameras[j]
                == p.cameras[j] by {}
            assert forall|j: int| !#[trigger] pending(q, j) by {
                if 0 <= j < n && pending(q, j) {
                    assert(q.cameras[j].tagged == p.cameras[j].tagged);
                    assert(has_pass(q, j));
                } else if n <= j < q.cameras.len() {
                    assert(!q.cameras[j].tagged);
                }
            }
        }
        Ok(built)
    }

    /// Resolves the size of camera `cam`'s target, or why its setup is refused.
    fn check_setup(&self, cam: usize) -> (r: Result<(u32, u32), PipelineError>)
        requires
            self.wf(),
        ensures
            r.is_err() == setup_error(self@, cam as int).is_some(),
            r.is_err() ==> Some(r->Err_0) == setup_error(self@, cam as int),
            r.is_ok() ==> Some(r->Ok_0) == target_size(
                self@,
                self@.cameras[cam as int].camera.target,
            ),
    {
        if cam >= self.cameras.len() {
            return Err(PipelineError::UnknownCamera);
        }
        let e = self.cameras[cam];
        if !e.tagged {
            return Err(PipelineError::NotTagged);
        }
        if e.pass.is_some() {
            return Err(PipelineError::AlreadySetUp);
        }
        let size = match self.size_of_target(e.camera.target) {
            Some(size) => size,
            None => {
                return match e.camera.target {
                    RenderTarget::Window(_) => Err(PipelineError::WindowNotFound),
                    RenderTarget::Image(_) => Err(PipelineError::ImageNotFound),
                };
            },
        };
        if e.camera.priority > i64::MAX - RELAY_PRIORITY_OFFSET {
            return Err(PipelineError::PriorityOverflow);
        }
        Ok(size)
    }
}

/// Building the pass of a camera makes exactly one offscreen texture, one
/// material, one full-screen draw and one relay camera, and a second
/// attempt on the same camera is refused.
pub proof fn lemma_setup_builds_one_pass(p: PipelineModel, q: PipelineModel, cam: int)
    requires
        pipeline_wf(p),
        setup_error(p, cam).is_none(),
        setup_done(p, q, cam),
    ensures
        setup_error(q, cam) == Some(PipelineError::AlreadySetUp),
        !pending(q, cam),
        !pending(q, pass_of(q, cam).relay as int),
        q.cameras.len() == p.cameras.len() + 1,
        q.draws.len() == p.draws.len() + 1,
        forall|g: Handle|
            #[trigger] slot_live(q.images, g) && !slot_live(p.images, g) ==> g == pass_of(
                q,
                cam,
            ).image,
        forall|g: Handle|
            #[trigger] slot_live(q.materials, g) && !slot_live(p.materials, g) ==> g == pass_of(
                q,
                cam,
            ).material,
{
    let relay = pass_of(q, cam).relay as int;
    assert(q.cameras[relay] == CameraEntity {
        camera: relay_camera(p.cameras[cam].camera),
        tagged: false,
        settings: None,
        pass: None,
    });
}

/// Detection is edge-triggered: once it has run, running it again builds
/// nothing and changes nothing.
pub proof fn lemma_detection_runs_once(
    p: PipelineModel,
    q: PipelineModel,
    r: PipelineModel,
    first: Seq<usize>,
    second: Seq<usize>,
)
    requires
        detection_done(p, q, first),
        detection_done(q, r, second),
    ensures
        second.len() == 0,
        r == q,
        first_blocked(q, 0).is_none(),
{
    if second.len() > 0 {
        assert(pending(q, second[0] as int));
    }
    lemma_first_blocked(q, 0);
}

/// The relay camera of every built pass renders after its tagged camera,
/// by the fixed offset, and draws only the post-processing layer.
pub proof fn lemma_relay_renders_after(p: PipelineModel, i: int)
    requires
        pipeline_wf(p),
        has_pass(p, i),
    ensures
        p.cameras[pass_of(p, i).relay as int].camera.priority == p.cameras[i].camera.priority
            + RELAY_PRIORITY_OFFSET,
        p.cameras[pass_of(p, i).relay as int].camera.priority > p.cameras[i].camera.priority,
        p.cameras[pass_of(p, i).relay as int].camera.render_layer == POST_PROCESS_LAYER,
        p.draws[pass_of(p, i).draw as int].render_layer == POST_PROCESS_LAYER,
{
    assert(pass_wf(p, i));
}

} // verus!
