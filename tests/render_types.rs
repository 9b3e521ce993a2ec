use demo::backend_types::{FetchCanvasIndex, SamplerAddressMode};
use demo::config_error::{validate_numerical, ConfigFromStrErr, ConfigFromStrOperation, ConfigFromStrPathErr};
use demo::map_render::{MapRenderInfo, MapRenderLayer, TileLayerVisualsBase, TileVisual};

#[test]
fn tile_visual_packs_flag_and_offset() {
    let mut t = TileVisual::empty();
    assert!(!t.drawable());
    assert_eq!(t.quad_offset(), 0);
    t.set_index_buffer_offset_quad(1234);
    t.set_drawable(true);
    assert!(t.drawable());
    assert_eq!(t.quad_offset(), 1234);
    t.add_index_buffer_offset_quad(6);
    assert_eq!(t.quad_offset(), 1240);
    assert!(t.drawable());
    t.set_drawable(false);
    assert!(!t.drawable());
    assert_eq!(t.quad_offset(), 1240);
    // the flag bit of an offset is dropped
    t.set_index_buffer_offset_quad(0x1000_0005);
    assert_eq!(t.quad_offset(), 5);
    assert!(!t.drawable());
}

#[test]
fn layer_init_sizes_buffers() {
    let mut l = TileLayerVisualsBase::new();
    assert!(l.init(4, 3));
    assert_eq!(l.tiles_of_layer.len(), 12);
    assert_eq!(l.border_top.len(), 4);
    assert_eq!(l.border_bottom.len(), 4);
    assert_eq!(l.border_left.len(), 3);
    assert_eq!(l.border_right.len(), 3);
    assert!(l.tiles_of_layer.iter().all(|t| !t.drawable() && t.quad_offset() == 0));
}

#[test]
fn layer_init_refuses_bad_sizes() {
    let mut l = TileLayerVisualsBase::new();
    assert!(!l.init(0, 3));
    assert_eq!(l.width, 0);
    assert_eq!(l.height, 3);
    assert!(l.tiles_of_layer.is_empty());
    assert!(!l.init(65536, 65536));
    assert!(l.tiles_of_layer.is_empty());
}

#[test]
fn render_info_of_either_layer() {
    let i = MapRenderInfo { group_index: 2, layer_index: 5 };
    let t = MapRenderLayer::Tile(i);
    let q = MapRenderLayer::Quad(MapRenderInfo { group_index: 1, layer_index: 0 });
    assert_eq!(t.get_render_info().layer_index, 5);
    assert_eq!(q.get_render_info().group_index, 1);
}

#[test]
fn numerical_validation() {
    assert!(validate_numerical(0, 10, 0).is_ok());
    assert!(validate_numerical(0, 10, 10).is_ok());
    match validate_numerical(-5, 10, 11) {
        Err(ConfigFromStrErr::PathErr(ConfigFromStrPathErr::ValidationError(msg))) => {
            assert_eq!(msg, "Numerical value out of allowed range: 11 not in [-5, 10]")
        }
        _ => panic!("expected a validation error"),
    }
    assert!(validate_numerical(-5, 10, -6).is_err());
}

#[test]
fn plain_values() {
    assert!(matches!(ConfigFromStrOperation::default(), ConfigFromStrOperation::SetValue));
    assert!(matches!(FetchCanvasIndex::Offscreen(7), FetchCanvasIndex::Offscreen(7)));
    assert!(matches!(SamplerAddressMode::Repeat, SamplerAddressMode::Repeat));
}
