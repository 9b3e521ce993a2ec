//! Bookkeeping types of the buffered map renderer: per-tile visuals packed
//! into one word, the visuals of a tile layer, and the render and sound
//! layer lists.
use vstd::prelude::*;

verus! {

/// Bit that marks a tile as drawable.
pub const TILE_DRAWABLE_FLAG: u32 = 0x10000000;

/// Bits that hold the quad offset of a tile.
pub const TILE_QUAD_OFFSET_MASK: u32 = 0xEFFFFFFF;

/// The visual state of one tile: its quad offset in the index buffer and
/// whether it is drawn, packed into one word.
#[derive(Debug, Copy, Clone, Default)]
pub struct TileVisual {
    quad_count_and_is_drawable_flag: u32,
}

impl TileVisual {
    /// The packed word.
    pub closed spec fn bits(&self) -> u32 {
        self.quad_count_and_is_drawable_flag
    }

    /// Whether the tile is drawn.
    pub open spec fn is_drawable(&self) -> bool {
        self.bits() & TILE_DRAWABLE_FLAG != 0
    }

    /// The quad offset of the tile.
    pub open spec fn offset(&self) -> u32 {
        self.bits() & TILE_QUAD_OFFSET_MASK
    }

    /// A tile that is not drawn, at offset zero.
    pub fn empty() -> (r: Self)
        ensures
            r.bits() == 0,
            !r.is_drawable(),
            r.offset() == 0,
    {
        let r = TileVisual { quad_count_and_is_drawable_flag: 0 };
        assert(0u32 & TILE_DRAWABLE_FLAG == 0 && 0u32 & TILE_QUAD_OFFSET_MASK == 0) by (bit_vector);
        r
    }

    /// Whether the tile is drawn.
    pub fn drawable(&self) -> (r: bool)
        ensures
            r == self.is_drawable(),
    {
        (self.quad_count_and_is_drawable_flag & TILE_DRAWABLE_FLAG) != 0
    }

    /// Marks the tile as drawn or not; the offset stays.
    pub fn set_drawable(&mut self, drawable: bool)
        ensures
            final(self).is_drawable() == drawable,
            final(self).offset() == old(self).offset(),
    {
        let w = self.quad_count_and_is_drawable_flag;
        let f: u32 = if drawable {
            TILE_DRAWABLE_FLAG
        } else {
            0
        };
        let n = f | (w & TILE_QUAD_OFFSET_MASK);
        assert(((0x10000000u32 | (w & 0xEFFFFFFFu32)) & 0x10000000u32 != 0) && ((0x10000000u32 | (w
            & 0xEFFFFFFFu32)) & 0xEFFFFFFFu32 == w & 0xEFFFFFFFu32)) by (bit_vector);
        assert(((0u32 | (w & 0xEFFFFFFFu32)) & 0x10000000u32 == 0) && ((0u32 | (w & 0xEFFFFFFFu32))
            & 0xEFFFFFFFu32 == w & 0xEFFFFFFFu32)) by (bit_vector);
        self.quad_count_and_is_drawable_flag = n;
    }

    /// The quad offset of the tile.
    pub fn quad_offset(&self) -> (r: usize)
        ensures
            r == self.offset(),
    {
        (self.quad_count_and_is_drawable_flag & TILE_QUAD_OFFSET_MASK) as usize
    }

    /// Sets the quad offset (its bits outside the offset mask are dropped);
    /// the drawable mark stays.
    pub fn set_index_buffer_offset_quad(&mut self, quad_count: u32)
        ensures
            final(self).offset() == quad_count & TILE_QUAD_OFFSET_MASK,
            final(self).is_drawable() == old(self).is_drawable(),
    {
        let w = self.quad_count_and_is_drawable_flag;
        let n = (quad_count & TILE_QUAD_OFFSET_MASK) | (w & TILE_DRAWABLE_FLAG);
        assert((((quad_count & 0xEFFFFFFFu32) | (w & 0x10000000u32)) & 0xEFFFFFFFu32 == quad_count
            & 0xEFFFFFFFu32) && ((((quad_count & 0xEFFFFFFFu32) | (w & 0x10000000u32))
            & 0x10000000u32 != 0) == (w & 0x10000000u32 != 0))) by (bit_vector);
        self.quad_count_and_is_drawable_flag = n;
    }

    /// Moves the quad offset on by `additional_quad_count`; the drawable
    /// mark stays.
    pub fn add_index_buffer_offset_quad(&mut self, additional_quad_count: u32)
        requires
            old(self).offset() + additional_quad_count <= u32::MAX,
        ensures
            final(self).offset() == (old(self).offset() + additional_quad_count) as u32
                & TILE_QUAD_OFFSET_MASK,
            final(self).is_drawable() == old(self).is_drawable(),
    {
        let w = self.quad_count_and_is_drawable_flag;
        let sum = (w & TILE_QUAD_OFFSET_MASK) + additional_quad_count;
        let n = (sum & TILE_QUAD_OFFSET_MASK) | (w & TILE_DRAWABLE_FLAG);
        assert((((sum & 0xEFFFFFFFu32) | (w & 0x10000000u32)) & 0xEFFFFFFFu32 == sum
            & 0xEFFFFFFFu32) && ((((sum & 0xEFFFFFFFu32) | (w & 0x10000000u32)) & 0x10000000u32
            != 0) == (w & 0x10000000u32 != 0))) by (bit_vector);
        self.quad_count_and_is_drawable_flag = n;
    }
}

/// The visuals of a tile layer and of its borders.
#[derive(Debug, Default, Clone)]
pub struct TileLayerVisualsBase {
    pub tiles_of_layer: Vec<TileVisual>,
    /// Also air tiles were uploaded.
    pub ignored_tile_index_and_is_textured_check: bool,
    pub corner_top_left: TileVisual,
    pub corner_top_right: TileVisual,
    pub corner_bottom_right: TileVisual,
    pub corner_bottom_left: TileVisual,
    /// The kill tile at the end of the map; game layer only.
    pub border_kill_tile: TileVisual,
    pub border_top: Vec<TileVisual>,
    pub border_left: Vec<TileVisual>,
    pub border_right: Vec<TileVisual>,
    pub border_bottom: Vec<TileVisual>,
    pub width: u32,
    pub height: u32,
    pub is_textured: bool,
}

/// `v` resized to `n` entries: entries that stay are kept, new ones empty.
pub open spec fn resized_to(old_v: Seq<TileVisual>, new_v: Seq<TileVisual>, n: int) -> bool {
    &&& new_v.len() == n
    &&& forall|i: int| 0 <= i < n && i < old_v.len() ==> new_v[i] == old_v[i]
    &&& forall|i: int| old_v.len() <= i < n ==> new_v[i].bits() == 0
}

/// Resizes `v` to `n` entries, new ones empty.
fn resize_tiles(v: &mut Vec<TileVisual>, n: usize)
    ensures
        resized_to(old(v)@, final(v)@, n as int),
{
    let e = TileVisual::empty();
    v.resize(n, e);
}

impl TileLayerVisualsBase {
    /// Visuals of an empty layer.
    pub fn new() -> (r: Self)
        ensures
            r.tiles_of_layer@.len() == 0,
            r.border_top@.len() == 0,
            r.border_left@.len() == 0,
            r.border_right@.len() == 0,
            r.border_bottom@.len() == 0,
            r.width == 0,
            r.height == 0,
            !r.is_textured,
            !r.ignored_tile_index_and_is_textured_check,
            !r.corner_top_left.is_drawable() && r.corner_top_left.offset() == 0,
            !r.corner_top_right.is_drawable() && r.corner_top_right.offset() == 0,
            !r.corner_bottom_right.is_drawable() && r.corner_bottom_right.offset() == 0,
            !r.corner_bottom_left.is_drawable() && r.corner_bottom_left.offset() == 0,
            !r.border_kill_tile.is_drawable() && r.border_kill_tile.offset() == 0,
    {
        TileLayerVisualsBase {
            tiles_of_layer: Vec::new(),
            ignored_tile_index_and_is_textured_check: false,
            corner_top_left: TileVisual::empty(),
            corner_top_right: TileVisual::empty(),
            corner_bottom_right: TileVisual::empty(),
            corner_bottom_left: TileVisual::empty(),
            border_kill_tile: TileVisual::empty(),
            border_top: Vec::new(),
            border_left: Vec::new(),
            border_right: Vec::new(),
            border_bottom: Vec::new(),
            width: 0,
            height: 0,
            is_textured: false,
        }
    }

    /// Sizes the layer: records the size, and for a size with tiles whose
    /// tile count stays below `u32::MAX`, gives each tile and border tile an
    /// entry. Returns whether the size was usable.
    pub fn init(&mut self, width: u32, height: u32) -> (r: bool)
        ensures
            final(self).width == width,
            final(self).height == height,
            r == (width != 0 && height != 0 && (width as int) * (height as int) < u32::MAX),
            r ==> {
                &&& resized_to(
                    old(self).tiles_of_layer@,
                    final(self).tiles_of_layer@,
                    (width as int) * (height as int),
                )
                &&& resized_to(old(self).border_top@, final(self).border_top@, width as int)
                &&& resized_to(old(self).border_bottom@, final(self).border_bottom@, width as int)
                &&& resized_to(old(self).border_left@, final(self).border_left@, height as int)
                &&& resized_to(old(self).border_right@, final(self).border_right@, height as int)
            },
            !r ==> {
                &&& final(self).tiles_of_layer == old(self).tiles_of_layer
                &&& final(self).border_top == old(self).border_top
                &&& final(self).border_bottom == old(self).border_bottom
                &&& final(self).border_left == old(self).border_left
                &&& final(self).border_right == old(self).border_right
            },
    {
        self.width = width;
        self.height = height;
        if width == 0 || height == 0 {
            return false;
        }
        assert((width as int) * (height as int) <= 0xffff_ffff_ffff_ffff) by (nonlinear_arith)
            requires
                width <= 0xffff_ffffu32,
                height <= 0xffff_ffffu32,
        ;
        let count = (width as u64) * (height as u64);
        if count >= u32::MAX as u64 {
            return false;
        }
        resize_tiles(&mut self.tiles_of_layer, count as usize);
        resize_tiles(&mut self.border_top, width as usize);
        resize_tiles(&mut self.border_bottom, width as usize);
        resize_tiles(&mut self.border_left, height as usize);
        resize_tiles(&mut self.border_right, height as usize);
        true
    }
}

/// One quad of a quad layer.
#[derive(Copy, Clone, Default)]
pub struct QuadVisual {
    pub index_buffer_byte_offset: usize,
}

/// Where a text overlay of a physics layer is drawn.
#[derive(Debug, Copy, Clone)]
pub enum MapRenderTextOverlayType {
    Top,
    Bottom,
    Center,
}

/// A layer by its group and its place in the group.
#[derive(Debug, Default, Copy, Clone)]
pub struct MapRenderInfo {
    pub group_index: usize,
    pub layer_index: usize,
}

/// A physics layer by its place.
#[derive(Debug, Default, Clone)]
pub struct MapPhysicsRenderInfo {
    pub layer_index: usize,
}

/// A design layer to render.
#[derive(Debug, Copy, Clone)]
pub enum MapRenderLayer {
    Tile(MapRenderInfo),
    Quad(MapRenderInfo),
}

impl MapRenderLayer {
    /// Where the layer is found, whatever its kind.
    pub fn get_render_info(&self) -> (r: &MapRenderInfo)
        ensures
            *r == match *self {
                MapRenderLayer::Tile(i) => i,
                MapRenderLayer::Quad(i) => i,
            },
    {
        match self {
            MapRenderLayer::Tile(render_info) => render_info,
            MapRenderLayer::Quad(render_info) => render_info,
        }
    }
}

/// The layers to render, in order.
#[derive(Default)]
pub struct ClientMapBufferedRenderProcess {
    pub background_render_layers: Vec<MapRenderLayer>,
    pub foreground_render_layers: Vec<MapRenderLayer>,
    pub physics_render_layers: Vec<MapPhysicsRenderInfo>,
}

/// A sound layer by its group and its place in the group.
#[derive(Debug, Default, Copy, Clone)]
pub struct MapSoundProcessInfo {
    pub group_index: usize,
    pub layer_index: usize,
}

/// The sound layers to play, in order.
#[derive(Default)]
pub struct ClientMapBufferedSoundProcess {
    pub background_sound_layers: Vec<MapSoundProcessInfo>,
    pub foreground_sound_layers: Vec<MapSoundProcessInfo>,
}

} // verus!
