use bevy_color_blindness::{
    Camera, ColorBlindnessCamera, ColorBlindnessMode, FitToWindowSize, FullScreenDraw,
    PipelineError, PostProcessPipeline, RenderTarget, Texture, Window, WindowId, MIX_SCALE,
    OFFSCREEN_USAGE, POST_PROCESS_LAYER, RELAY_PRIORITY_OFFSET,
};

const PRIMARY: WindowId = WindowId { id: 0 };
const SECOND: WindowId = WindowId { id: 7 };

fn settings(mode: ColorBlindnessMode, enabled: bool) -> ColorBlindnessCamera {
    ColorBlindnessCamera { mode, enabled }
}

fn scene_camera(target: RenderTarget, priority: i64) -> Camera {
    Camera { target, priority, render_layer: 0, show_ui: true }
}

fn offscreen(width: u32, height: u32) -> Texture {
    Texture { width, height, mip_level_count: 1, sample_count: 1, usage: OFFSCREEN_USAGE }
}

fn host_image(width: u32, height: u32) -> Texture {
    Texture { width, height, mip_level_count: 4, sample_count: 1, usage: 0 }
}

fn window(id: WindowId, w: u32, h: u32) -> Window {
    Window { id, physical_width: w, physical_height: h }
}

/// A pipeline with the primary window at 800x600 and one camera on it.
fn one_camera(own: Option<ColorBlindnessCamera>) -> PostProcessPipeline {
    let mut p = PostProcessPipeline::new(settings(ColorBlindnessMode::Normal, false));
    p.set_window(window(PRIMARY, 800, 600));
    let cam = p.add_camera(scene_camera(RenderTarget::Window(PRIMARY), 0)).unwrap();
    assert_eq!(cam, 0);
    p.tag_camera(cam, own).unwrap();
    p
}

#[test]
fn setup_builds_texture_draw_and_relay() {
    let mut p = one_camera(Some(settings(ColorBlindnessMode::Deuteranopia, true)));
    assert_eq!(p.setup_camera(0), Ok(()));
    let tagged = p.camera(0).unwrap();
    let pass = tagged.pass.unwrap();
    assert_eq!(tagged.camera.target, RenderTarget::Image(pass.image));
    assert!(!tagged.camera.show_ui);
    assert_eq!(
        p.image(pass.image),
        Some(offscreen(800, 600))
    );
    let mat = p.material(pass.material).unwrap();
    assert_eq!(mat.source_image, pass.image);
    assert_eq!(mat.percentages, ColorBlindnessMode::Deuteranopia.percentages());
    assert_eq!(p.draw_count(), 1);
    assert_eq!(
        p.draw(pass.draw),
        Some(FullScreenDraw { material: pass.material, render_layer: POST_PROCESS_LAYER })
    );
    assert_eq!(p.camera_count(), 2);
    let relay = p.camera(pass.relay).unwrap();
    assert_eq!(relay.camera.target, RenderTarget::Window(PRIMARY));
    assert_eq!(relay.camera.priority, RELAY_PRIORITY_OFFSET);
    assert_eq!(relay.camera.render_layer, POST_PROCESS_LAYER);
    assert!(relay.camera.show_ui);
    assert!(!relay.tagged);
    assert_eq!(pass.fit, Some(FitToWindowSize { image: pass.image, window_id: PRIMARY }));
}

#[test]
fn setup_of_disabled_camera_uses_identity() {
    let mut p = one_camera(Some(settings(ColorBlindnessMode::Tritanopia, false)));
    p.setup_camera(0).unwrap();
    let pass = p.camera(0).unwrap().pass.unwrap();
    let mat = p.material(pass.material).unwrap();
    assert_eq!(mat.percentages, ColorBlindnessMode::Normal.percentages());
    assert_eq!(mat.percentages.red.red, MIX_SCALE);
}

#[test]
fn second_setup_is_refused_and_changes_nothing() {
    let mut p = one_camera(None);
    p.setup_camera(0).unwrap();
    assert_eq!(p.setup_camera(0), Err(PipelineError::AlreadySetUp));
    assert_eq!(p.camera_count(), 2);
    assert_eq!(p.draw_count(), 1);
}

#[test]
fn detection_runs_once_per_camera() {
    let mut p = PostProcessPipeline::new(settings(ColorBlindnessMode::Protanopia, true));
    p.set_window(window(PRIMARY, 640, 480));
    let a = p.add_camera(scene_camera(RenderTarget::Window(PRIMARY), 0)).unwrap();
    let b = p.add_camera(scene_camera(RenderTarget::Window(PRIMARY), 3)).unwrap();
    let c = p.add_camera(scene_camera(RenderTarget::Window(PRIMARY), 5)).unwrap();
    p.tag_camera(a, None).unwrap();
    p.tag_camera(c, None).unwrap();
    assert_eq!(p.setup_new_color_blindness_cameras(), Ok(vec![a, c]));
    assert_eq!(p.camera_count(), 5);
    assert_eq!(p.draw_count(), 2);
    assert!(p.camera(b).unwrap().pass.is_none());
    assert_eq!(p.setup_new_color_blindness_cameras(), Ok(vec![]));
    assert_eq!(p.camera_count(), 5);
    assert_eq!(p.draw_count(), 2);
    p.tag_camera(b, None).unwrap();
    assert_eq!(p.setup_new_color_blindness_cameras(), Ok(vec![b]));
    assert_eq!(p.camera_count(), 6);
}

#[test]
fn detection_refuses_all_when_one_camera_is_broken() {
    let mut p = PostProcessPipeline::new(settings(ColorBlindnessMode::Normal, false));
    p.set_window(window(PRIMARY, 640, 480));
    let a = p.add_camera(scene_camera(RenderTarget::Window(PRIMARY), 0)).unwrap();
    let b = p.add_camera(scene_camera(RenderTarget::Window(SECOND), 0)).unwrap();
    p.tag_camera(a, None).unwrap();
    p.tag_camera(b, None).unwrap();
    assert_eq!(p.setup_new_color_blindness_cameras(), Err(PipelineError::WindowNotFound));
    assert_eq!(p.camera_count(), 2);
    assert!(p.camera(a).unwrap().pass.is_none());
}

#[test]
fn relay_priority_is_offset_from_tagged() {
    let mut p = PostProcessPipeline::new(settings(ColorBlindnessMode::Normal, false));
    p.set_window(window(PRIMARY, 10, 10));
    let cam = p.add_camera(scene_camera(RenderTarget::Window(PRIMARY), -4)).unwrap();
    p.tag_camera(cam, None).unwrap();
    p.setup_camera(cam).unwrap();
    let relay = p.camera(p.camera(cam).unwrap().pass.unwrap().relay).unwrap();
    assert_eq!(relay.camera.priority, 6);
    assert!(relay.camera.priority > p.camera(cam).unwrap().camera.priority);
}

#[test]
fn image_target_takes_image_size_and_is_not_fitted() {
    let mut p = PostProcessPipeline::new(settings(ColorBlindnessMode::Normal, false));
    let target = p.add_image(host_image(256, 128));
    let cam = p.add_camera(scene_camera(RenderTarget::Image(target), 1)).unwrap();
    p.tag_camera(cam, None).unwrap();
    p.setup_camera(cam).unwrap();
    let pass = p.camera(cam).unwrap().pass.unwrap();
    assert_eq!(pass.fit, None);
    assert_ne!(pass.image, target);
    assert_eq!(
        p.image(pass.image),
        Some(offscreen(256, 128))
    );
    assert_eq!(p.camera(pass.relay).unwrap().camera.target, RenderTarget::Image(target));
}

#[test]
fn setup_errors() {
    let mut p = PostProcessPipeline::new(settings(ColorBlindnessMode::Normal, false));
    assert_eq!(p.setup_camera(0), Err(PipelineError::UnknownCamera));
    let cam = p.add_camera(scene_camera(RenderTarget::Window(PRIMARY), 0)).unwrap();
    assert_eq!(p.setup_camera(cam), Err(PipelineError::NotTagged));
    p.tag_camera(cam, None).unwrap();
    assert_eq!(p.setup_camera(cam), Err(PipelineError::WindowNotFound));
    let img = p.add_image(host_image(4, 4));
    p.remove_image(img);
    let cam2 = p.add_camera(scene_camera(RenderTarget::Image(img), 0)).unwrap();
    p.tag_camera(cam2, None).unwrap();
    assert_eq!(p.setup_camera(cam2), Err(PipelineError::ImageNotFound));
    p.set_window(window(PRIMARY, 4, 4));
    let cam3 = p.add_camera(scene_camera(RenderTarget::Window(PRIMARY), i64::MAX - 9)).unwrap();
    p.tag_camera(cam3, None).unwrap();
    assert_eq!(p.setup_camera(cam3), Err(PipelineError::PriorityOverflow));
    let cam4 = p.add_camera(scene_camera(RenderTarget::Window(PRIMARY), i64::MAX - 10)).unwrap();
    p.tag_camera(cam4, None).unwrap();
    assert_eq!(p.setup_camera(cam4), Ok(()));
    assert_eq!(p.camera_count(), 5);
}

#[test]
fn reserved_layer_is_refused_for_scene_cameras() {
    let mut p = PostProcessPipeline::new(settings(ColorBlindnessMode::Normal, false));
    let mut cam = scene_camera(RenderTarget::Window(PRIMARY), 0);
    cam.render_layer = POST_PROCESS_LAYER;
    assert_eq!(p.add_camera(cam), Err(PipelineError::ReservedLayer));
    assert_eq!(p.camera_count(), 0);
}

#[test]
fn resize_of_own_window_resizes_texture() {
    let mut p = one_camera(None);
    p.setup_camera(0).unwrap();
    let image = p.camera(0).unwrap().pass.unwrap().image;
    assert_eq!(p.update_image_to_window_size(PRIMARY, 1024, 768), Ok(vec![image]));
    assert_eq!(
        p.image(image),
        Some(offscreen(1024, 768))
    );
    assert_eq!(p.window(PRIMARY), Some(window(PRIMARY, 1024, 768)));
}

#[test]
fn resize_of_other_window_leaves_texture() {
    let mut p = one_camera(None);
    p.set_window(window(SECOND, 300, 200));
    p.setup_camera(0).unwrap();
    let image = p.camera(0).unwrap().pass.unwrap().image;
    assert_eq!(p.update_image_to_window_size(SECOND, 50, 60), Ok(vec![]));
    assert_eq!(
        p.image(image),
        Some(offscreen(800, 600))
    );
    assert_eq!(p.window(SECOND), Some(window(SECOND, 50, 60)));
    assert_eq!(p.window(PRIMARY), Some(window(PRIMARY, 800, 600)));
}

#[test]
fn resize_errors() {
    let mut p = one_camera(None);
    assert_eq!(p.update_image_to_window_size(SECOND, 1, 1), Err(PipelineError::WindowNotFound));
    p.setup_camera(0).unwrap();
    let image = p.camera(0).unwrap().pass.unwrap().image;
    p.remove_image(image);
    assert_eq!(p.update_image_to_window_size(PRIMARY, 1, 1), Err(PipelineError::ImageNotFound));
    assert_eq!(p.window(PRIMARY), Some(window(PRIMARY, 800, 600)));
}

#[test]
fn sync_writes_only_on_change() {
    let mut p = one_camera(Some(settings(ColorBlindnessMode::Protanomaly, true)));
    p.setup_camera(0).unwrap();
    let material = p.camera(0).unwrap().pass.unwrap().material;
    assert_eq!(p.update_percentages(), Ok(vec![]));
    p.tag_camera(0, Some(settings(ColorBlindnessMode::Protanomaly, false))).unwrap();
    assert_eq!(p.update_percentages(), Ok(vec![0]));
    assert_eq!(
        p.material(material).unwrap().percentages,
        ColorBlindnessMode::Normal.percentages()
    );
    assert_eq!(p.update_percentages(), Ok(vec![]));
    p.tag_camera(0, Some(settings(ColorBlindnessMode::Protanomaly, true))).unwrap();
    assert_eq!(p.update_percentages(), Ok(vec![0]));
    assert_eq!(
        p.material(material).unwrap().percentages,
        ColorBlindnessMode::Protanomaly.percentages()
    );
}

#[test]
fn sync_follows_shared_settings_without_own() {
    let mut p = PostProcessPipeline::new(settings(ColorBlindnessMode::Tritanopia, true));
    p.set_window(window(PRIMARY, 8, 8));
    let a = p.add_camera(scene_camera(RenderTarget::Window(PRIMARY), 0)).unwrap();
    let b = p.add_camera(scene_camera(RenderTarget::Window(PRIMARY), 0)).unwrap();
    p.tag_camera(a, None).unwrap();
    p.tag_camera(b, Some(settings(ColorBlindnessMode::Deuteranomaly, true))).unwrap();
    p.setup_new_color_blindness_cameras().unwrap();
    let ma = p.camera(a).unwrap().pass.unwrap().material;
    let mb = p.camera(b).unwrap().pass.unwrap().material;
    assert_eq!(p.material(ma).unwrap().percentages, ColorBlindnessMode::Tritanopia.percentages());
    p.set_shared_settings(settings(ColorBlindnessMode::Achromatopsia, true));
    assert_eq!(p.update_percentages(), Ok(vec![a]));
    assert_eq!(
        p.material(ma).unwrap().percentages,
        ColorBlindnessMode::Achromatopsia.percentages()
    );
    assert_eq!(
        p.material(mb).unwrap().percentages,
        ColorBlindnessMode::Deuteranomaly.percentages()
    );
    assert_eq!(p.shared_settings(), settings(ColorBlindnessMode::Achromatopsia, true));
}

#[test]
fn sync_with_removed_material_is_refused() {
    let mut p = one_camera(Some(settings(ColorBlindnessMode::Protanopia, true)));
    p.setup_camera(0).unwrap();
    let material = p.camera(0).unwrap().pass.unwrap().material;
    assert!(p.remove_material(material).is_some());
    assert_eq!(p.update_percentages(), Ok(vec![]));
    p.tag_camera(0, Some(settings(ColorBlindnessMode::Protanopia, false))).unwrap();
    assert_eq!(p.update_percentages(), Err(PipelineError::MaterialNotFound));
    assert_eq!(p.material(material), None);
}

#[test]
fn detection_builds_full_pass_for_each_camera() {
    let mut p = PostProcessPipeline::new(settings(ColorBlindnessMode::Achromatomaly, true));
    p.set_window(window(PRIMARY, 320, 200));
    let host = p.add_image(host_image(64, 32));
    let a = p.add_camera(scene_camera(RenderTarget::Window(PRIMARY), 2)).unwrap();
    let b = p.add_camera(scene_camera(RenderTarget::Image(host), 7)).unwrap();
    p.tag_camera(a, None).unwrap();
    p.tag_camera(b, Some(settings(ColorBlindnessMode::Protanopia, false))).unwrap();
    assert_eq!(p.setup_new_color_blindness_cameras(), Ok(vec![a, b]));

    let pa = p.camera(a).unwrap().pass.unwrap();
    let pb = p.camera(b).unwrap().pass.unwrap();
    assert_ne!(pa.image, pb.image);
    assert_ne!(pa.material, pb.material);
    assert_eq!(p.image(pa.image), Some(offscreen(320, 200)));
    assert_eq!(p.image(pb.image), Some(offscreen(64, 32)));
    assert_eq!(p.image(host), Some(host_image(64, 32)));
    assert_eq!(
        p.material(pa.material).unwrap().percentages,
        ColorBlindnessMode::Achromatomaly.percentages()
    );
    assert_eq!(
        p.material(pb.material).unwrap().percentages,
        ColorBlindnessMode::Normal.percentages()
    );
    assert_eq!(pa.fit, Some(FitToWindowSize { image: pa.image, window_id: PRIMARY }));
    assert_eq!(pb.fit, None);

    let ca = p.camera(a).unwrap().camera;
    assert_eq!(ca.priority, 2);
    assert_eq!(ca.render_layer, 0);
    assert_eq!(ca.target, RenderTarget::Image(pa.image));
    let ra = p.camera(pa.relay).unwrap().camera;
    let rb = p.camera(pb.relay).unwrap().camera;
    assert_eq!(ra.priority, 2 + RELAY_PRIORITY_OFFSET);
    assert_eq!(rb.priority, 7 + RELAY_PRIORITY_OFFSET);
    assert_eq!(ra.target, RenderTarget::Window(PRIMARY));
    assert_eq!(rb.target, RenderTarget::Image(host));
    assert_eq!(p.draw(pa.draw).unwrap().material, pa.material);
    assert_eq!(p.draw(pb.draw).unwrap().material, pb.material);
}
