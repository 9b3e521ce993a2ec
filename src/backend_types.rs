//! Plain data types that rendering backends and their plugins exchange:
//! vertex layouts, resource descriptions, pipeline layouts, rectangles and
//! the canvas that a frame fetcher reads.
use vstd::prelude::*;

verus! {

/// The format of one vertex attribute.
#[derive(Debug)]
pub enum BackendVertexFormat {
    /// Four floats.
    Vec4,
    /// Three floats.
    Vec3,
    /// Two floats.
    Vec2,
    /// Four unsigned bytes read as normalized floats.
    UbVec4Normalized,
    /// Two unsigned bytes.
    UbVec2,
    /// Four unsigned bytes.
    UbVec4,
    /// Two unsigned shorts.
    UsVec2,
}

/// Where a vertex attribute is read from.
#[derive(Debug)]
pub struct BackendVertexInputAttributeDescription {
    pub location: u32,
    pub binding: u32,
    pub format: BackendVertexFormat,
    pub offset: u32,
}

/// How texture coordinates outside the texture are handled; each mode has a
/// matching resource description.
#[derive(Debug, Clone, Copy)]
pub enum SamplerAddressMode {
    /// Repeat on u and v.
    Repeat,
    /// Clamp u and v.
    ClampToEdge,
    /// Clamp u and v, mirror repeat r.
    Texture2dArray,
}

/// Predefined sets of descriptors; each uses its own number of sets, which
/// later sets of a shader are offset by.
#[derive(Debug, Clone, Copy)]
pub enum BackendResourceDescription {
    /// A 2d texture: two sets (texture, sampler), one binding.
    Fragment2DTexture,
    /// A 2d array texture: two sets (texture, sampler), one binding.
    Fragment2DArrayTexture,
    /// A uniform buffer of the vertex shader: one set, one binding.
    VertexUniformBuffer,
    /// A uniform buffer of the vertex and fragment shaders: one set, one binding.
    VertexFragmentUniformBuffer,
    /// A shader storage read by the vertex shader: one set, one binding.
    VertexShaderStorage,
}

/// Shader stages as bits: vertex is `0b1`, fragment is `0b10`.
#[derive(Debug, Clone, Copy, PartialEq, Eq, Structural)]
pub struct BackendShaderStage {
    pub bits: u32,
}

/// A push constant range.
#[derive(Debug, Clone, Copy)]
pub struct BackendPushConstant {
    pub stage_flags: BackendShaderStage,
    pub offset: u32,
    pub size: u32,
}

/// A size in device memory.
pub type BackendDeviceSize = u64;

/// The layout of a pipeline.
#[derive(Debug)]
pub struct BackendPipelineLayout {
    pub vertex_attributes: Vec<BackendVertexInputAttributeDescription>,
    pub descriptor_layouts: Vec<BackendResourceDescription>,
    pub push_constants: Vec<BackendPushConstant>,
    pub stride: BackendDeviceSize,
    pub geometry_is_line: bool,
}

/// The pipeline a sub render pass binds.
pub enum SubRenderPassAttributes {
    StandardPipeline,
    StandardLinePipeline,
    StandardBlurPipeline,
    Standard3dPipeline,
    BlurPipeline,
    PrimExPipeline,
    PrimExRotationlessPipeline,
    SpriteMultiPipeline,
    /// A pipeline by its name.
    Additional(u64),
}

/// A size in pixels.
#[derive(Debug)]
pub struct BackendExtent2D {
    pub width: u32,
    pub height: u32,
}

/// A position in pixels.
#[derive(Debug)]
pub struct BackendOffset2D {
    pub x: i32,
    pub y: i32,
}

/// A rectangle in pixels.
#[derive(Debug)]
pub struct BackendRect2D {
    pub offset: BackendOffset2D,
    pub extent: BackendExtent2D,
}

/// A rectangle of some array layers to clear.
#[derive(Debug)]
pub struct BackendClearRect {
    pub rect: BackendRect2D,
    pub base_array_layer: u32,
    pub layer_count: u32,
}

/// The id of an offscreen canvas.
pub type OffscreenCanvasId = u128;

/// The canvas whose content a frame fetcher reads.
#[derive(Debug, Clone, Copy)]
pub enum FetchCanvasIndex {
    Onscreen,
    Offscreen(OffscreenCanvasId),
}

/// Why fetching a frame failed.
#[derive(Debug)]
pub enum FetchCanvasError {
    /// No canvas has the id that the fetcher asked for.
    CanvasNotFound,
    /// The backend failed, with its message.
    DriverErr(String),
}

} // verus!
