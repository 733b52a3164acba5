//! Simulation of color vision deficiencies as a post-processing pass.
//!
//! The library holds the color-mixing model (one channel-mix matrix per
//! deficiency mode) and the bookkeeping of the post-processing pipeline:
//! which camera renders into which offscreen texture, which relay camera
//! presents it, and which material carries the matrix in use.

pub mod arena;
pub mod mode;
pub mod pipeline;

pub use arena::{Arena, Handle, Slot};
pub use mode::{ChannelWeights, ColorBlindnessMode, ColorBlindnessPercentages, MIX_SCALE};
pub use pipeline::{
    mode_in_use, Camera, CameraEntity, ColorBlindnessCamera, ColorBlindnessMaterial,
    FitToWindowSize, FullScreenDraw, PipelineError, PostProcessPass, PostProcessPipeline,
    RenderTarget, Texture, Window, WindowId, OFFSCREEN_USAGE, POST_PROCESS_LAYER,
    RELAY_PRIORITY_OFFSET, TOTAL_LAYERS, USAGE_COPY_DST, USAGE_RENDER_ATTACHMENT, USAGE_TEXTURE_BINDING,
};
