//! Keeping offscreen textures at the size of their windows.

use super::{
    has_pass, lemma_wf_kept, pass_of, pipeline_wf, window_known, PipelineError,
    PipelineModel, PostProcessPipeline, Texture, Window, WindowId,
};
use crate::arena::{slot_live, slot_value, Handle};
use vstd::prelude::*;

verus! {

/// Camera `i` has a built pass whose offscreen texture follows window `id`.
pub open spec fn fitted_to(p: PipelineModel, i: int, id: WindowId) -> bool {
    has_pass(p, i) && pass_of(p, i).fit.is_some() && pass_of(p, i).fit.unwrap().window_id == id
}

/// Why a resize of window `id` is refused, if it is.
pub open spec fn resize_error(p: PipelineModel, id: WindowId) -> Option<PipelineError> {
    if !window_known(p, id) {
        Some(PipelineError::WindowNotFound)
    } else if exists|i: int|
        #[trigger] fitted_to(p, i, id) && !slot_live(p.images, pass_of(p, i).image) {
        Some(PipelineError::ImageNotFound)
    } else {
        None
    }
}

/// A texture with a new size and everything else kept.
pub open spec fn resized(t: Texture, width: u32, height: u32) -> Texture {
    Texture { width, height, ..t }
}

/// The texture `g` follows window `id`.
pub open spec fn resize_hits(p: PipelineModel, g: Handle, id: WindowId) -> bool {
    exists|i: int| #[trigger] fitted_to(p, i, id) && pass_of(p, i).image == g
}

spec fn resize_hits_before(p: PipelineModel, g: Handle, id: WindowId, n: int) -> bool {
    exists|j: int| 0 <= j < n && #[trigger] fitted_to(p, j, id) && pass_of(p, j).image == g
}

/// `q` is `p` after window `id` took the size `width` x `height`: every
/// offscreen texture that follows it has that size, and nothing else
/// changed. `modified` names the textures that changed.
pub open spec fn resize_done(
    p: PipelineModel,
    q: PipelineModel,
    id: WindowId,
    width: u32,
    height: u32,
    modified: Seq<Handle>,
) -> bool {
    &&& q.windows.len() == p.windows.len()
    &&& forall|k: int|
        0 <= k < p.windows.len() ==> #[trigger] q.windows[k] == if p.windows[k].id == id {
            Window { id, physical_width: width, physical_height: height }
        } else {
            p.windows[k]
        }
    &&& q.cameras == p.cameras
    &&& q.materials == p.materials
    &&& q.draws == p.draws
    &&& q.shared == p.shared
    &&& q.images.len() == p.images.len()
    &&& forall|k: int|
        0 <= k < p.images.len() ==> #[trigger] q.images[k].generation == p.images[k].generation
    &&& forall|g: Handle|
        #[trigger] resize_hits(p, g, id) ==> slot_live(q.images, g) && slot_value(q.images, g)
            == resized(slot_value(p.images, g), width, height)
    &&& forall|g: Handle|
        !resize_hits(p, g, id) ==> #[trigger] slot_live(q.images, g) == slot_live(p.images, g)
    &&& forall|g: Handle|
        !resize_hits(p, g, id) && slot_live(p.images, g) ==> #[trigger] slot_value(q.images, g)
            == slot_value(p.images, g)
    &&& forall|k: int| 0 <= k < modified.len() ==> resize_hits(p, #[trigger] modified[k], id)
    &&& forall|i: int| #[trigger] fitted_to(p, i, id) ==> modified.contains(pass_of(p, i).image)
}

impl PostProcessPipeline {
    /// Takes the new size of window `id`, and resizes every offscreen
    /// texture that follows that window to it; returns the textures that
    /// changed, whose dependents must be rebuilt. Textures that follow
    /// another window, or none, are left as they are. Refused, with nothing
    /// changed, when the window is unknown or one of the textures is gone.
    pub fn update_image_to_window_size(&mut self, id: WindowId, width: u32, height: u32) -> (r:
        Result<Vec<Handle>, PipelineError>)
        requires
            old(self).wf(),
        ensures
            final(self).wf(),
            r.is_err() == resize_error(old(self)@, id).is_some(),
            r.is_err() ==> Some(r->Err_0) == resize_error(old(self)@, id) && final(self)@ == old(
                self,
            )@,
            r.is_ok() ==> resize_done(old(self)@, final(self)@, id, width, height, r->Ok_0@),
    {
        let ghost p = self@;
        let pos = match self.find_window(id) {
            Some(k) => k,
            None => {
                return Err(PipelineError::WindowNotFound);
            },
        };
        let n = self.cameras.len();
        let mut i: usize = 0;
        while i < n
            invariant
                self@ == p,
                pipeline_wf(p),
                window_known(p, id),
                n == p.cameras.len(),
                0 <= i <= n,
                forall|j: int|
                    0 <= j < i && #[trigger] fitted_to(p, j, id) ==> slot_live(
                        p.images,
                        pass_of(p, j).image,
                    ),
            decreases n - i,
        {
            if let Some(q) = self.cameras[i].pass {
                if let Some(f) = q.fit {
                    if f.window_id == id && self.images.get(q.image).is_none() {
                        assert(fitted_to(p, i as int, id));
                        assert(!slot_live(p.images, pass_of(p, i as int).image));
                        return Err(PipelineError::ImageNotFound);
                    }
                }
            }
            i += 1;
        }
        assert(resize_error(p, id).is_none());
        let mut modified: Vec<Handle> = Vec::new();
        let mut i: usize = 0;
        while i < n
            invariant
                pipeline_wf(p),
                resize_error(p, id).is_none(),
                n == p.cameras.len(),
                0 <= i <= n,
                self@.windows == p.windows,
                self@.cameras == p.cameras,
                self@.materials == p.materials,
                self@.draws == p.draws,
                self@.shared == p.shared,
                self@.images.len() == p.images.len(),
                forall|k: int|
                    0 <= k < p.images.len() ==> #[trigger] self@.images[k].generation
                        == p.images[k].generation,
                forall|j: int|
                    0 <= j < i && #[trigger] fitted_to(p, j, id) ==> slot_live(
                        self@.images,
                        pass_of(p, j).image,
                    ) && slot_value(self@.images, pass_of(p, j).image) == resized(
                        slot_value(p.images, pass_of(p, j).image),
                        width,
                        height,
                    ),
                forall|g: Handle|
                    !resize_hits_before(p, g, id, i as int) ==> #[trigger] slot_live(self@.images, g)
                        == slot_live(p.images, g),
                forall|g: Handle|
                    !resize_hits_before(p, g, id, i as int) && slot_live(p.images, g)
                        ==> #[trigger] slot_value(self@.images, g) == slot_value(p.images, g),
                forall|k: int|
                    0 <= k < modified@.len() ==> resize_hits(p, #[trigger] modified@[k], id),
                forall|j: int|
                    0 <= j < i && #[trigger] fitted_to(p, j, id) ==> modified@.contains(
                        pass_of(p, j).image,
                    ),
            decreases n - i,
        {
            let ghost before = self@;
            let ghost m0 = modified@;
            if let Some(q) = self.cameras[i].pass {
                if let Some(f) = q.fit {
                    if f.window_id == id {
                        proof {
                            assert(fitted_to(p, i as int, id));
                            assert forall|j: int| 0 <= j < i && #[trigger] fitted_to(p, j, id)
                                implies pass_of(p, j).image != q.image by {
                                assert(has_pass(p, j) && has_pass(p, i as int));
                            }
                            assert(!resize_hits_before(p, q.image, id, i as int));
                        }
                        let old_texture = *self.images.get(q.image).unwrap();
                        self.images.replace(
                            q.image,
                            Texture {
                                width,
                                height,
                                mip_level_count: old_texture.mip_level_count,
                                sample_count: old_texture.sample_count,
                                usage: old_texture.usage,
                            },
                        );
                        modified.push(q.image);
                        proof {
                            assert(modified@ == m0.push(q.image));
                            assert forall|j: int| 0 <= j < i && #[trigger] fitted_to(p, j, id)
                                implies slot_live(self@.images, pass_of(p, j).image) && slot_value(
                                self@.images,
                                pass_of(p, j).image,
                            ) == resized(slot_value(p.images, pass_of(p, j).image), width, height) by {
                                assert(has_pass(p, j) && has_pass(p, i as int));
                            }
                            assert forall|j: int| 0 <= j <= i && #[trigger] fitted_to(p, j, id)
                                implies modified@.contains(pass_of(p, j).image) by {
                                if j == i {
                                    assert(modified@[modified@.len() - 1] == q.image);
                                } else {
                                    let k = choose|k: int| 0 <= k < m0.len() && m0[k] == pass_of(p, j).image;
                                    assert(modified@[k] == pass_of(p, j).image);
                                }
                            }
                            assert forall|k: int| 0 <= k < modified@.len() implies resize_hits(
                                p,
                                #[trigger] modified@[k],
                                id,
                            ) by {
                                if k < m0.len() {
                                    assert(resize_hits(p, m0[k], id));
                                } else {
                                    assert(fitted_to(p, i as int, id));
                                }
                            }
                        }
                    }
                }
            }
            proof {
                assert forall|g: Handle| !resize_hits_before(p, g, id, i + 1) implies #[trigger] slot_live(
                    self@.images,
                    g,
                ) == slot_live(p.images, g) && (slot_live(p.images, g) ==> slot_value(self@.images, g)
                    == slot_value(p.images, g)) by {
                    assert(!resize_hits_before(p, g, id, i as int));
                    if fitted_to(p, i as int, id) {
                        assert(pass_of(p, i as int).image != g);
                    }
                }
            }
            i += 1;
        }
        self.windows.set(pos, Window { id, physical_width: width, physical_height: height });
        proof {
            let q = self@;
            assert forall|g: Handle| #[trigger] resize_hits(p, g, id) implies slot_live(q.images, g)
                && slot_value(q.images, g) == resized(slot_value(p.images, g), width, height) by {
                let j = choose|j: int| #[trigger] fitted_to(p, j, id) && pass_of(p, j).image == g;
                assert(0 <= j < n);
            }
            assert forall|g: Handle| !resize_hits(p, g, id) implies !resize_hits_before(
                p,
                g,
                id,
                n as int,
            ) by {}
            assert forall|k: int| 0 <= k < p.windows.len() implies #[trigger] q.windows[k] == if p.windows[k].id == id {
                Window { id, physical_width: width, physical_height: height }
            } else {
                p.windows[k]
            } by {
                if k != pos && p.windows[k].id == id {
                    if k < pos {
                        assert(p.windows[k].id != p.windows[pos as int].id);
                    } else {
                        assert(p.windows[pos as int].id != p.windows[k].id);
                    }
                }
            }
            assert(resize_done(p, q, id, width, height, modified@));
            assert forall|a: int, b: int|
                0 <= a < b < q.windows.len() implies #[trigger] q.windows[a].id != #[trigger] q.windows[b].id by {
                assert(p.windows[a].id != p.windows[b].id);
            }
            lemma_wf_kept(p, q);
        }
        Ok(modified)
    }
}

/// A resize of a window reaches exactly the offscreen textures that follow
/// it: each of them takes the new size and is reported as modified, while
/// a texture that follows another window is neither changed nor reported.
pub proof fn lemma_resize_follows_own_window(
    p: PipelineModel,
    q: PipelineModel,
    id: WindowId,
    width: u32,
    height: u32,
    modified: Seq<Handle>,
    i: int,
)
    requires
        pipeline_wf(p),
        resize_done(p, q, id, width, height, modified),
        has_pass(p, i),
        pass_of(p, i).fit.is_some(),
        slot_live(p.images, pass_of(p, i).image),
    ensures
        pass_of(p, i).fit.unwrap().window_id == id ==> {
            &&& slot_value(q.images, pass_of(p, i).image).width == width
            &&& slot_value(q.images, pass_of(p, i).image).height == height
            &&& modified.contains(pass_of(p, i).image)
        },
        pass_of(p, i).fit.unwrap().window_id != id ==> {
            &&& slot_value(q.images, pass_of(p, i).image) == slot_value(
                p.images,
                pass_of(p, i).image,
            )
            &&& !modified.contains(pass_of(p, i).image)
        },
{
    let g = pass_of(p, i).image;
    if pass_of(p, i).fit.unwrap().window_id == id {
        assert(fitted_to(p, i, id));
        assert(resize_hits(p, g, id));
    } else {
        assert(!resize_hits(p, g, id)) by {
            if resize_hits(p, g, id) {
                let j = choose|j: int| #[trigger] fitted_to(p, j, id) && pass_of(p, j).image == g;
                assert(has_pass(p, i) && has_pass(p, j));
            }
        }
        if modified.contains(g) {
            let k = choose|k: int| 0 <= k < modified.len() && modified[k] == g;
            assert(resize_hits(p, modified[k], id));
        }
    }
}

} // verus!
