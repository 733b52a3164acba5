//! Keeping each pass's material in step with its camera's settings.

use super::{
    effective_mode, effective_settings, has_pass, mode_in_use, pass_material, pass_of, pass_wf,
    pipeline_wf, CameraEntity, ColorBlindnessMaterial, PipelineError, PipelineModel,
    PostProcessPass, PostProcessPipeline,
};
use crate::arena::{slot_issued, slot_live, slot_value, Handle};
use crate::mode::{identity_matrix, mix_table, ColorBlindnessMode};
use vstd::prelude::*;

verus! {

/// Camera `i` has a pass whose material was computed from other settings
/// than those now in force for it.
pub open spec fn needs_sync(p: PipelineModel, i: int) -> bool {
    has_pass(p, i) && effective_settings(p, p.cameras[i]) != pass_of(p, i).synced
}

/// Some camera needs its material written, and the material is gone.
pub open spec fn sync_blocked(p: PipelineModel) -> bool {
    exists|i: int| #[trigger] needs_sync(p, i) && !slot_live(p.materials, pass_of(p, i).material)
}

/// Camera `i` once its pass records the settings now in force.
pub open spec fn synced_entity(p: PipelineModel, i: int) -> CameraEntity {
    CameraEntity {
        pass: Some(PostProcessPass { synced: effective_settings(p, p.cameras[i]), ..pass_of(p, i) }),
        ..p.cameras[i]
    }
}

/// The material `g` is that of a camera that needs sync.
pub open spec fn sync_writes(p: PipelineModel, g: Handle) -> bool {
    exists|i: int| #[trigger] needs_sync(p, i) && pass_of(p, i).material == g
}

/// The material `g` is that of a camera before `n` that needs sync.
spec fn sync_writes_before(p: PipelineModel, g: Handle, n: int) -> bool {
    exists|j: int| 0 <= j < n && #[trigger] needs_sync(p, j) && pass_of(p, j).material == g
}

/// `q` is `p` after the materials of the cameras that needed it were
/// written, and nothing else: `written` lists those cameras in order.
pub open spec fn sync_done(p: PipelineModel, q: PipelineModel, written: Seq<usize>) -> bool {
    &&& q.windows == p.windows
    &&& q.images == p.images
    &&& q.draws == p.draws
    &&& q.shared == p.shared
    &&& q.cameras.len() == p.cameras.len()
    &&& forall|i: int|
        0 <= i < p.cameras.len() ==> #[trigger] q.cameras[i] == if needs_sync(p, i) {
            synced_entity(p, i)
        } else {
            p.cameras[i]
        }
    &&& q.materials.len() == p.materials.len()
    &&& forall|k: int|
        0 <= k < p.materials.len() ==> #[trigger] q.materials[k].generation
            == p.materials[k].generation
    &&& forall|i: int|
        #[trigger] needs_sync(p, i) ==> slot_live(q.materials, pass_of(p, i).material)
            && slot_value(q.materials, pass_of(p, i).material) == pass_material(
            pass_of(p, i).image,
            effective_settings(p, p.cameras[i]),
        )
    &&& forall|g: Handle|
        !sync_writes(p, g) ==> (#[trigger] slot_live(q.materials, g) == slot_live(p.materials, g))
            && (slot_live(p.materials, g) ==> slot_value(q.materials, g) == slot_value(
            p.materials,
            g,
        ))
    &&& forall|k: int| 0 <= k < written.len() ==> needs_sync(p, #[trigger] written[k] as int)
    &&& forall|k: int, l: int| 0 <= k < l < written.len() ==> #[trigger] written[k] < #[trigger] written[l]
    &&& forall|i: int| #[trigger] needs_sync(p, i) ==> written.contains(i as usize)
}

impl PostProcessPipeline {
    /// Writes into the material of every built pass the matrix of the
    /// settings now in force for its camera, where those settings changed
    /// since the material was last written; returns the cameras whose
    /// material was written. Refused, with nothing changed, when one of the
    /// materials to write is gone.
    pub fn update_percentages(&mut self) -> (r: Result<Vec<usize>, PipelineError>)
        requires
            old(self).wf(),
        ensures
            final(self).wf(),
            r.is_err() == sync_blocked(old(self)@),
            r.is_err() ==> r->Err_0 == PipelineError::MaterialNotFound && final(self)@ == old(
                self,
            )@,
            r.is_ok() ==> sync_done(old(self)@, final(self)@, r->Ok_0@),
    {
        let ghost p = self@;
        let n = self.cameras.len();
        let mut i: usize = 0;
        while i < n
            invariant
                self@ == p,
                pipeline_wf(p),
                n == p.cameras.len(),
                0 <= i <= n,
                forall|j: int|
                    0 <= j < i && #[trigger] needs_sync(p, j) ==> slot_live(
                        p.materials,
                        pass_of(p, j).material,
                    ),
            decreases n - i,
        {
            let e = self.cameras[i];
            if let Some(q) = e.pass {
                let s = self.settings_of(&e);
                if s != q.synced && self.materials.get(q.material).is_none() {
                    assert(needs_sync(p, i as int));
                    return Err(PipelineError::MaterialNotFound);
                }
            }
            i += 1;
        }
        assert(!sync_blocked(p));
        let mut written: Vec<usize> = Vec::new();
        let mut i: usize = 0;
        while i < n
            invariant
                pipeline_wf(p),
                !sync_blocked(p),
                n == p.cameras.len(),
                0 <= i <= n,
                self@.windows == p.windows,
                self@.images == p.images,
                self@.draws == p.draws,
                self@.shared == p.shared,
                self@.cameras.len() == n,
                forall|j: int|
                    0 <= j < n ==> #[trigger] self@.cameras[j] == if j < i && needs_sync(p, j) {
                        synced_entity(p, j)
                    } else {
                        p.cameras[j]
                    },
                self@.materials.len() == p.materials.len(),
                forall|k: int|
                    0 <= k < p.materials.len() ==> #[trigger] self@.materials[k].generation
                        == p.materials[k].generation,
                forall|j: int|
                    0 <= j < i && #[trigger] needs_sync(p, j) ==> slot_live(
                        self@.materials,
                        pass_of(p, j).material,
                    ) && slot_value(self@.materials, pass_of(p, j).material) == pass_material(
                        pass_of(p, j).image,
                        effective_settings(p, p.cameras[j]),
                    ),
                forall|g: Handle|
                    !sync_writes_before(p, g, i as int) ==> #[trigger] slot_live(self@.materials, g) == slot_live(p.materials, g),
                forall|g: Handle|
                    !sync_writes_before(p, g, i as int) && slot_live(p.materials, g) ==> #[trigger] slot_value(self@.materials, g)
                        == slot_value(p.materials, g),
                forall|k: int|
                    0 <= k < written@.len() ==> needs_sync(p, #[trigger] written@[k] as int)
                        && written@[k] < i,
                forall|k: int, l: int|
                    0 <= k < l < written@.len() ==> #[trigger] written@[k] < #[trigger] written@[l],
                forall|j: int| 0 <= j < i && #[trigger] needs_sync(p, j) ==> written@.contains(j as usize),
            decreases n - i,
        {
            let ghost before = self@;
            let ghost w0 = written@;
            let e = self.cameras[i];
            if let Some(q) = e.pass {
                let s = self.settings_of(&e);
                if s != q.synced {
                    proof {
                        assert(needs_sync(p, i as int));
                        assert forall|j: int| 0 <= j < i && #[trigger] needs_sync(p, j)
                            implies pass_of(p, j).material != q.material by {
                            assert(has_pass(p, j) && has_pass(p, i as int));
                        }
                    }
                    let percentages = mode_in_use(s).percentages();
                    self.materials.replace(
                        q.material,
                        ColorBlindnessMaterial { source_image: q.image, percentages },
                    );
                    self.cameras.set(
                        i,
                        CameraEntity {
                            camera: e.camera,
                            tagged: e.tagged,
                            settings: e.settings,
                            pass: Some(
                                PostProcessPass {
                                    image: q.image,
                                    material: q.material,
                                    draw: q.draw,
                                    relay: q.relay,
                                    fit: q.fit,
                                    synced: s,
                                },
                            ),
                        },
                    );
                    written.push(i);
                    proof {
                        assert forall|j: int| 0 <= j < i && #[trigger] needs_sync(p, j)
                            implies slot_live(self@.materials, pass_of(p, j).material)
                            && slot_value(self@.materials, pass_of(p, j).material) == pass_material(
                            pass_of(p, j).image,
                            effective_settings(p, p.cameras[j]),
                        ) by {
                            assert(has_pass(p, j) && has_pass(p, i as int));
                        }
                        assert forall|j: int| 0 <= j <= i && #[trigger] needs_sync(p, j)
                            implies written@.contains(j as usize) by {
                            assert(written@ == w0.push(i));
                            if j == i {
                                assert(written@[written@.len() - 1] == i);
                            } else {
                                assert(w0.contains(j as usize));
                                let k = choose|k: int| 0 <= k < w0.len() && w0[k] == j as usize;
                                assert(written@[k] == j as usize);
                            }
                        }
                    }
                }
            }
            proof {
                assert forall|g: Handle| !sync_writes_before(p, g, i + 1)
                    implies (#[trigger] slot_live(self@.materials, g) == slot_live(p.materials, g))
                        && (slot_live(p.materials, g) ==> slot_value(self@.materials, g)
                        == slot_value(p.materials, g)) by {
                    assert(!sync_writes_before(p, g, i as int));
                    assert(slot_live(before.materials, g) == slot_live(p.materials, g));
                    if needs_sync(p, i as int) {
                        assert(pass_of(p, i as int).material != g);
                    }
                    assert(slot_live(self@.materials, g) == slot_live(before.materials, g));
                }
                assert(self@.cameras[i as int] == if needs_sync(p, i as int) {
                    synced_entity(p, i as int)
                } else {
                    p.cameras[i as int]
                });
            }
            i += 1;
        }
        proof {
            let q = self@;
            assert forall|g: Handle| !sync_writes(p, g) implies (#[trigger] slot_live(q.materials, g)
                == slot_live(p.materials, g)) && (slot_live(p.materials, g) ==> slot_value(
                q.materials,
                g,
            ) == slot_value(p.materials, g)) by {
                assert(!sync_writes_before(p, g, n as int));
            }
            assert(sync_done(p, q, written@));
            assert forall|i: int| #[trigger] has_pass(q, i) implies pass_wf(q, i) by {
                assert(q.cameras[i] == if needs_sync(p, i) {
                    synced_entity(p, i)
                } else {
                    p.cameras[i]
                });
                assert(has_pass(p, i));
                assert(pass_wf(p, i));
                let g = pass_of(p, i);
                assert(slot_issued(q.images, g.image));
                assert(q.materials[g.material.index as int].generation == p.materials[g.material.index as int].generation);
                assert(q.cameras[g.relay as int].camera == p.cameras[g.relay as int].camera);
                if !needs_sync(p, i) {
                    assert(!sync_writes(p, g.material)) by {
                        assert forall|j: int| #[trigger] needs_sync(p, j) implies pass_of(p, j).material != g.material by {
                            assert(has_pass(p, j));
                        }
                    }
                }
            }
            assert forall|i: int, j: int|
                #[trigger] has_pass(q, i) && #[trigger] has_pass(q, j) && i != j implies {
                    &&& q.cameras[i].pass.unwrap().image != q.cameras[j].pass.unwrap().image
                    &&& q.cameras[i].pass.unwrap().material != q.cameras[j].pass.unwrap().material
                } by {
                assert(q.cameras[i] == if needs_sync(p, i) {
                    synced_entity(p, i)
                } else {
                    p.cameras[i]
                });
                assert(q.cameras[j] == if needs_sync(p, j) {
                    synced_entity(p, j)
                } else {
                    p.cameras[j]
                });
                assert(has_pass(p, i) && has_pass(p, j));
            }
        }
        Ok(written)
    }
}

/// After a sync, the material of every built pass holds the matrix of the
/// camera's settings: the selected mode's matrix when enabled, the identity
/// when not. It was written exactly when those settings had changed.
pub proof fn lemma_sync_applies_settings(
    p: PipelineModel,
    q: PipelineModel,
    written: Seq<usize>,
    i: usize,
)
    requires
        pipeline_wf(p),
        sync_done(p, q, written),
        has_pass(p, i as int),
        slot_live(p.materials, pass_of(p, i as int).material),
    ensures
        slot_live(q.materials, pass_of(p, i as int).material),
        effective_settings(p, p.cameras[i as int]).enabled ==> slot_value(
            q.materials,
            pass_of(p, i as int).material,
        ).percentages == mix_table(effective_settings(p, p.cameras[i as int]).mode),
        !effective_settings(p, p.cameras[i as int]).enabled ==> slot_value(
            q.materials,
            pass_of(p, i as int).material,
        ).percentages == identity_matrix(),
        written.contains(i) <==> effective_settings(p, p.cameras[i as int]) != pass_of(
            p,
            i as int,
        ).synced,
        effective_settings(p, p.cameras[i as int]) == pass_of(p, i as int).synced ==> slot_value(
            q.materials,
            pass_of(p, i as int).material,
        ) == slot_value(p.materials, pass_of(p, i as int).material),
{
    let k = i as int;
    let g = pass_of(p, k).material;
    let s = effective_settings(p, p.cameras[k]);
    if !needs_sync(p, k) {
        assert(!sync_writes(p, g)) by {
            assert forall|j: int| #[trigger] needs_sync(p, j) implies pass_of(p, j).material
                != g by {
                assert(has_pass(p, j) && has_pass(p, k));
            }
        }
        assert(slot_live(q.materials, g) == slot_live(p.materials, g));
        assert(slot_value(q.materials, g) == slot_value(p.materials, g));
        assert(pass_wf(p, k));
        assert(s == pass_of(p, k).synced);
        assert(slot_value(q.materials, g) == pass_material(pass_of(p, k).image, s));
        if written.contains(i) {
            let w = choose|w: int| 0 <= w < written.len() && written[w] == i;
            assert(needs_sync(p, written[w] as int));
        }
    } else {
        assert(needs_sync(p, k));
        assert(slot_value(q.materials, g) == pass_material(pass_of(p, k).image, s));
    }
    if !s.enabled {
        assert(effective_mode(s) == ColorBlindnessMode::Normal);
    }
}

} // verus!
