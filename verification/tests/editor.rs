use spritedit::codec::{png_to_sprite, sprite_to_png};
use spritedit::command_palette::{Command, CommandPalette};
use spritedit::session::{parse_dimension, shortcut_action, CommandEffect, EditorSession, ShortcutAction, StatusMessage};
use spritedit::sprite::Sprite;
use spritedit::tools::{line_pixels, Tool};
use spritedit::view::{
    checker_parity, grid_visible, is_major_line, iso_tile_center, pixel_to_screen_center,
    screen_to_pixel_flat, screen_to_pixel_iso, CanvasResponse, CanvasState,
};

const RED: [u8; 4] = [255, 0, 0, 255];
const GREEN: [u8; 4] = [0, 255, 0, 255];
const BLUE: [u8; 4] = [0, 0, 255, 255];
const CLEAR: [u8; 4] = [0, 0, 0, 0];

fn filled(width: u32, height: u32, color: [u8; 4]) -> Sprite {
    let mut s = Sprite::new(width, height);
    for y in 0..height {
        for x in 0..width {
            s.set_pixel(x, y, color);
        }
    }
    s
}

#[test]
fn new_sprite_is_transparent() {
    let s = Sprite::new(4, 3);
    assert_eq!(s.width, 4);
    assert_eq!(s.height, 3);
    assert_eq!(s.pixels.len(), 4 * 3 * 4);
    assert!(s.pixels.iter().all(|&b| b == 0));
}

#[test]
fn set_then_get_returns_color() {
    let mut s = Sprite::new(5, 5);
    s.set_pixel(2, 3, RED);
    assert_eq!(s.get_pixel(2, 3), RED);
    s.set_pixel(0, 0, GREEN);
    assert_eq!(s.get_pixel(0, 0), GREEN);
    assert_eq!(s.get_pixel(2, 3), RED);
    s.set_pixel(4, 4, [1, 2, 3, 4]);
    assert_eq!(s.get_pixel(4, 4), [1, 2, 3, 4]);
}

#[test]
fn out_of_bounds_set_changes_nothing() {
    let mut s = Sprite::new(5, 5);
    s.set_pixel(1, 1, RED);
    let before = s.pixels.clone();
    s.set_pixel(5, 0, GREEN);
    s.set_pixel(0, 5, GREEN);
    s.set_pixel(1000, 1000, GREEN);
    assert_eq!(s.pixels, before);
}

#[test]
fn flood_fill_same_color_is_noop() {
    let mut s = filled(4, 4, RED);
    s.set_pixel(2, 2, GREEN);
    let before = s.pixels.clone();
    s.flood_fill(0, 0, RED);
    assert_eq!(s.pixels, before);
}

#[test]
fn flood_fill_covers_connected_region() {
    let mut s = filled(8, 8, RED);
    s.flood_fill(0, 0, BLUE);
    for y in 0..8 {
        for x in 0..8 {
            assert_eq!(s.get_pixel(x, y), BLUE, "pixel ({x}, {y})");
        }
    }
}

#[test]
fn flood_fill_does_not_cross_diagonal_wall() {
    let wall = [9, 9, 9, 255];
    let mut s = filled(8, 8, RED);
    for d in 0..8 {
        s.set_pixel(d, d, wall);
    }
    s.flood_fill(7, 0, BLUE);
    for y in 0..8u32 {
        for x in 0..8u32 {
            let expect = if x == y {
                wall
            } else if x > y {
                BLUE
            } else {
                RED
            };
            assert_eq!(s.get_pixel(x, y), expect, "pixel ({x}, {y})");
        }
    }
}

#[test]
fn flood_fill_from_inner_pocket() {
    // A 3x3 pocket walled off inside a larger sprite only fills itself.
    let wall = [1, 1, 1, 255];
    let mut s = Sprite::new(6, 6);
    for i in 0..5 {
        s.set_pixel(i, 4, wall);
        s.set_pixel(4, i, wall);
    }
    s.flood_fill(1, 1, GREEN);
    assert_eq!(s.get_pixel(3, 3), GREEN);
    assert_eq!(s.get_pixel(0, 0), GREEN);
    assert_eq!(s.get_pixel(5, 5), CLEAR);
    assert_eq!(s.get_pixel(4, 4), wall);
    assert_eq!(s.get_pixel(5, 0), CLEAR);
}

#[test]
fn line_pixels_diagonal() {
    let line = line_pixels(0, 0, 3, 3);
    assert_eq!(line, vec![(0, 0), (1, 1), (2, 2), (3, 3)]);
}

#[test]
fn line_pixels_shallow_and_reverse() {
    let line = line_pixels(0, 0, 4, 2);
    assert_eq!(line.len(), 5);
    assert_eq!(line[0], (0, 0));
    assert_eq!(line[4], (4, 2));
    for w in line.windows(2) {
        assert!((w[1].0 - w[0].0).abs() <= 1 && (w[1].1 - w[0].1).abs() <= 1);
        assert_ne!(w[0], w[1]);
    }
    let back = line_pixels(4, 2, 0, 0);
    assert_eq!(back.len(), 5);
    assert_eq!(back[0], (4, 2));
    assert_eq!(back[4], (0, 0));
    let point = line_pixels(7, -7, 7, -7);
    assert_eq!(point, vec![(7, -7)]);
}

#[test]
fn tool_labels() {
    assert_eq!(Tool::Pencil.name(), "Pencil");
    assert_eq!(Tool::ColorPicker.name(), "Pick Color");
    assert_eq!(Tool::Eraser.shortcut(), "E");
    assert_eq!(Tool::Fill.shortcut(), "F");
    assert_eq!(Tool::Fill.icon(), "\u{2B24}");
}

#[test]
fn flat_round_trip_across_zooms() {
    for zoom in [2_000i64, 20_000, 128_000] {
        let st = CanvasState {
            zoom,
            offset_x: 12_345,
            offset_y: -9_876,
            show_grid: true,
            isometric: false,
            pixels_per_grid: 1,
        };
        for (x, y) in [(0u32, 0u32), (7, 3), (15, 15)] {
            let c = pixel_to_screen_center(400_000, 300_000, &st, 16, 16, x, y);
            let hit = screen_to_pixel_flat(c.0, c.1, 400_000, 300_000, &st, 16, 16);
            assert_eq!(hit, Some((x, y)), "zoom {zoom}, pixel ({x}, {y})");
        }
    }
}

#[test]
fn screen_outside_sprite_hits_nothing() {
    let st = CanvasState::default();
    // Far to the left of the sprite origin: negative relative coordinate.
    let hit = screen_to_pixel_flat(-5_000_000, 0, 0, 0, &st, 16, 16);
    assert_eq!(hit, None);
}

#[test]
fn iso_round_trip_at_tile_center() {
    let st = CanvasState {
        zoom: 20_000,
        offset_x: 4_000,
        offset_y: -2_000,
        show_grid: false,
        isometric: true,
        pixels_per_grid: 1,
    };
    for (x, y) in [(0u32, 0u32), (3, 1), (7, 7), (1, 6)] {
        let (cx, cy) = iso_tile_center(100_000, 50_000, &st, 8, x, y);
        // The middle of the diamond is half a tile height below its top.
        let hit = screen_to_pixel_iso(cx, cy + 5_000, 100_000, 50_000, &st, 8, 8);
        assert_eq!(hit, Some((x, y)), "pixel ({x}, {y})");
    }
}

#[test]
fn zoom_clamp_saturates() {
    let mut st = CanvasState::default();
    st.zoom = 128_000;
    for _ in 0..6 {
        st.zoom_in();
        assert_eq!(st.zoom, 128_000);
    }
    st.zoom = 2_000;
    for _ in 0..6 {
        st.zoom_out();
        assert_eq!(st.zoom, 2_000);
    }
    st.zoom = 20_000;
    st.zoom_in();
    assert_eq!(st.zoom, 30_000);
    st.zoom_out();
    assert_eq!(st.zoom, 20_000);
}

#[test]
fn pencil_stroke_interpolates_bresenham_line() {
    let mut s = EditorSession::new();
    s.handle_canvas_response(CanvasResponse {
        hovered_pixel: None,
        painted_pixels: vec![(0, 0)],
        picked_color: None,
    });
    assert_eq!(s.last_paint_pos, Some((0, 0)));
    s.handle_canvas_response(CanvasResponse {
        hovered_pixel: None,
        painted_pixels: vec![(3, 3)],
        picked_color: None,
    });
    assert_eq!(s.last_paint_pos, Some((3, 3)));
    let white = [255, 255, 255, 255];
    let mut painted = Vec::new();
    for y in 0..16 {
        for x in 0..16 {
            if s.sprite.get_pixel(x, y) == white {
                painted.push((x, y));
            }
        }
    }
    assert_eq!(painted, vec![(0, 0), (1, 1), (2, 2), (3, 3)]);
}

#[test]
fn stroke_anchor_resets_on_idle_frame() {
    let mut s = EditorSession::new();
    s.handle_canvas_response(CanvasResponse {
        hovered_pixel: None,
        painted_pixels: vec![(0, 0)],
        picked_color: None,
    });
    s.handle_canvas_response(CanvasResponse {
        hovered_pixel: None,
        painted_pixels: vec![],
        picked_color: None,
    });
    assert_eq!(s.last_paint_pos, None);
    // A new stroke does not interpolate from the stale anchor.
    s.handle_canvas_response(CanvasResponse {
        hovered_pixel: None,
        painted_pixels: vec![(5, 5)],
        picked_color: None,
    });
    assert_eq!(s.sprite.get_pixel(5, 5), [255, 255, 255, 255]);
    assert_eq!(s.sprite.get_pixel(3, 3), CLEAR);
    assert_eq!(s.sprite.get_pixel(2, 2), CLEAR);
}

#[test]
fn eraser_clears_and_picker_samples() {
    let mut s = EditorSession::new();
    s.sprite.set_pixel(2, 2, RED);
    s.current_tool = Tool::ColorPicker;
    s.apply_tool_at(2, 2);
    assert_eq!(s.primary_color, RED);
    assert_eq!(s.current_tool, Tool::Pencil);
    s.current_tool = Tool::Eraser;
    s.apply_tool_at(2, 2);
    assert_eq!(s.sprite.get_pixel(2, 2), CLEAR);
}

#[test]
fn right_click_pick_updates_primary_and_status() {
    let mut s = EditorSession::new();
    s.sprite.set_pixel(1, 1, GREEN);
    s.handle_canvas_response(CanvasResponse {
        hovered_pixel: Some((1, 1)),
        painted_pixels: vec![],
        picked_color: Some(GREEN),
    });
    assert_eq!(s.primary_color, GREEN);
    assert!(matches!(s.status, StatusMessage::PickedColor { color } if color == GREEN));
}

#[test]
fn hover_reports_coordinates_and_color() {
    let mut s = EditorSession::new();
    s.sprite.set_pixel(4, 9, BLUE);
    s.handle_canvas_response(CanvasResponse {
        hovered_pixel: Some((4, 9)),
        painted_pixels: vec![],
        picked_color: None,
    });
    assert!(
        matches!(s.status, StatusMessage::Hover { x: 4, y: 9, color } if color == BLUE)
    );
}

#[test]
fn palette_open_resets_query_and_selection() {
    let mut p = CommandPalette::default();
    p.query = String::from("left over");
    p.selected_index = 7;
    p.open();
    assert!(p.is_open);
    assert_eq!(p.query, "");
    assert_eq!(p.selected_index, 0);
}

#[test]
fn palette_zoom_query_confirms_first_match() {
    let entries = CommandPalette::commands();
    let mut p = CommandPalette::default();
    p.open();
    p.query = String::from("zoom");
    let r = p.step(&entries, false, false, false, true, None);
    assert_eq!(r, Some(Command::ZoomIn));
    assert!(!p.is_open);
}

#[test]
fn palette_navigation_saturates() {
    let entries = CommandPalette::commands();
    let mut p = CommandPalette::default();
    p.open();
    p.query = String::from("zoom");
    // Two entries match; repeated down must stick at the last one.
    for _ in 0..5 {
        p.step(&entries, false, true, false, false, None);
    }
    assert_eq!(p.selected_index, 1);
    let r = p.step(&entries, false, false, false, true, None);
    assert_eq!(r, Some(Command::ZoomOut));
    // Up saturates at the first entry.
    p.open();
    p.query = String::from("zoom");
    for _ in 0..4 {
        p.step(&entries, false, false, true, false, None);
    }
    assert_eq!(p.selected_index, 0);
}

#[test]
fn palette_filter_is_case_insensitive_and_ordered() {
    let entries = CommandPalette::commands();
    let hits = CommandPalette::filtered_indices(&entries, "ZOOM");
    assert_eq!(hits, vec![10, 11]);
    let all = CommandPalette::filtered_indices(&entries, "");
    assert_eq!(all.len(), 14);
    let none = CommandPalette::filtered_indices(&entries, "no such command");
    assert!(none.is_empty());
    let tools = CommandPalette::filtered_indices(&entries, "tool");
    assert_eq!(tools, vec![6, 7, 8, 9]);
}

#[test]
fn palette_click_executes_entry_directly() {
    let entries = CommandPalette::commands();
    let mut p = CommandPalette::default();
    p.open();
    p.query = String::from("toggle");
    let r = p.step(&entries, false, false, false, false, Some(1));
    assert_eq!(r, Some(Command::ToggleIsometric));
    assert!(!p.is_open);
}

#[test]
fn palette_escape_closes_without_running() {
    let entries = CommandPalette::commands();
    let mut p = CommandPalette::default();
    p.open();
    let r = p.step(&entries, true, false, false, true, None);
    assert_eq!(r, None);
    assert!(!p.is_open);
}

#[test]
fn parse_dimension_fallback_and_clamp() {
    assert_eq!(parse_dimension("abc"), 16);
    assert_eq!(parse_dimension("9999"), 256);
    assert_eq!(parse_dimension("0"), 1);
    assert_eq!(parse_dimension("64"), 64);
    assert_eq!(parse_dimension(""), 16);
    assert_eq!(parse_dimension("+32"), 32);
    assert_eq!(parse_dimension("+"), 16);
    assert_eq!(parse_dimension("12x"), 16);
    assert_eq!(parse_dimension("99999999999999999999"), 16);
    assert_eq!(parse_dimension("-4"), 16);
}

#[test]
fn create_sprite_parses_both_dimensions() {
    let mut s = EditorSession::new();
    s.show_new_dialog = true;
    s.create_sprite("abc", "9999");
    assert_eq!(s.sprite.width, 16);
    assert_eq!(s.sprite.height, 256);
    assert!(!s.show_new_dialog);
    assert!(
        matches!(s.status, StatusMessage::CreatedSprite { width: 16, height: 256 })
    );
}

#[test]
fn execute_command_changes_view_and_tool() {
    let mut s = EditorSession::new();
    assert!(s.canvas.show_grid);
    assert_eq!(s.execute_command(Command::ToggleGrid), CommandEffect::NoEffect);
    assert!(!s.canvas.show_grid);
    s.execute_command(Command::ToggleIsometric);
    assert!(s.canvas.isometric);
    s.execute_command(Command::SetFill);
    assert_eq!(s.current_tool, Tool::Fill);
    s.execute_command(Command::ZoomIn);
    assert_eq!(s.canvas.zoom, 30_000);
    s.canvas.offset_x = 777;
    s.execute_command(Command::ResetView);
    assert_eq!(s.canvas.zoom, 20_000);
    assert_eq!(s.canvas.offset_x, 0);
    assert_eq!(s.execute_command(Command::OpenFile), CommandEffect::OpenFileDialog);
    assert_eq!(s.execute_command(Command::SaveFile), CommandEffect::SaveFileDialog);
    assert_eq!(s.execute_command(Command::NewSprite), CommandEffect::NoEffect);
    assert!(s.show_new_dialog);
    s.execute_command(Command::GenerateAI);
    assert!(s.show_ai_dialog);
    s.ai_generate();
    assert!(!s.show_ai_dialog);
    assert!(matches!(s.status, StatusMessage::AiNotConnected));
}

#[test]
fn shortcut_table_matches_bindings() {
    assert_eq!(shortcut_action('p', true, true, false), Some(ShortcutAction::OpenPalette));
    assert_eq!(
        shortcut_action('n', true, false, false),
        Some(ShortcutAction::Run(Command::NewSprite))
    );
    assert_eq!(
        shortcut_action('s', true, false, false),
        Some(ShortcutAction::Run(Command::SaveFile))
    );
    assert_eq!(
        shortcut_action('p', false, false, false),
        Some(ShortcutAction::Run(Command::SetPencil))
    );
    assert_eq!(
        shortcut_action('g', false, false, false),
        Some(ShortcutAction::Run(Command::ToggleGrid))
    );
    assert_eq!(shortcut_action('p', false, false, true), None);
    assert_eq!(shortcut_action('z', false, false, false), None);
}

#[test]
fn png_round_trip_preserves_sprite() {
    let mut s = Sprite::new(5, 7);
    s.set_pixel(0, 0, RED);
    s.set_pixel(4, 6, GREEN);
    s.set_pixel(2, 3, [10, 20, 30, 40]);
    let bytes = sprite_to_png(&s);
    assert_ne!(bytes, s.pixels, "encoded bytes are a real container format");
    let back = png_to_sprite(&bytes).expect("the encoder's output must decode");
    assert_eq!(back.width, 5);
    assert_eq!(back.height, 7);
    assert_eq!(back.pixels, s.pixels);
}

#[test]
fn decode_failure_reports_and_keeps_buffer() {
    let mut s = EditorSession::new();
    s.sprite.set_pixel(0, 0, RED);
    let before = s.sprite.pixels.clone();
    s.load_file_data(b"this is not an image");
    assert!(matches!(s.status, StatusMessage::DecodeFailed));
    assert_eq!(s.sprite.pixels, before);
}

#[test]
fn load_file_replaces_sprite_and_recenters() {
    let mut donor = Sprite::new(3, 2);
    donor.set_pixel(1, 1, BLUE);
    let bytes = sprite_to_png(&donor);
    let mut s = EditorSession::new();
    s.canvas.offset_x = 500;
    s.canvas.offset_y = -500;
    s.load_file_data(&bytes);
    assert_eq!(s.sprite.width, 3);
    assert_eq!(s.sprite.height, 2);
    assert_eq!(s.sprite.get_pixel(1, 1), BLUE);
    assert_eq!(s.canvas.offset_x, 0);
    assert_eq!(s.canvas.offset_y, 0);
    assert!(matches!(s.status, StatusMessage::Loaded { width: 3, height: 2 }));
}

#[test]
fn url_outcomes_cover_fetch_and_decode_errors() {
    let mut s = EditorSession::new();
    s.load_url_data(Err(String::from("connection refused")));
    assert!(
        matches!(&s.status, StatusMessage::FetchError { message } if message == "connection refused")
    );
    s.load_url_data(Ok(b"garbage".to_vec()));
    assert!(matches!(s.status, StatusMessage::DecodeFailedFromUrl));
    let donor = filled(2, 2, GREEN);
    s.load_url_data(Ok(sprite_to_png(&donor)));
    assert!(matches!(s.status, StatusMessage::LoadedFromUrl { width: 2, height: 2 }));
    assert_eq!(s.sprite.get_pixel(0, 1), GREEN);
}

#[test]
fn save_outcome_is_reported() {
    let mut s = EditorSession::new();
    s.set_save_result(true);
    assert!(matches!(s.status, StatusMessage::SpriteSaved));
    s.set_save_result(false);
    assert!(matches!(s.status, StatusMessage::SaveCancelled));
}

#[test]
fn session_defaults() {
    let s = EditorSession::new();
    assert_eq!(s.sprite.width, 16);
    assert_eq!(s.sprite.height, 16);
    assert_eq!(s.current_tool, Tool::Pencil);
    assert_eq!(s.primary_color, [255, 255, 255, 255]);
    assert_eq!(s.canvas.zoom, 20_000);
    assert!(!s.palette.is_open);
    assert!(matches!(s.status, StatusMessage::Ready));
}

#[test]
fn fill_tool_through_canvas_response() {
    let mut s = EditorSession::new();
    s.current_tool = Tool::Fill;
    s.primary_color = BLUE;
    s.handle_canvas_response(CanvasResponse {
        hovered_pixel: None,
        painted_pixels: vec![(8, 8)],
        picked_color: None,
    });
    for y in 0..16 {
        for x in 0..16 {
            assert_eq!(s.sprite.get_pixel(x, y), BLUE);
        }
    }
}

#[test]
fn scroll_zoom_keeps_cursor_point() {
    let mut st = CanvasState::default();
    st.scroll_zoom(20, 0, 0, 0, 0);
    assert_eq!(st.zoom, 22_000);
    assert_eq!(st.offset_x, 0);
    assert_eq!(st.offset_y, 0);
    let mut st2 = CanvasState::default();
    st2.scroll_zoom(20, 100_000, 0, 0, 0);
    assert_eq!(st2.zoom, 22_000);
    // The cursor sat 100 units right of centre, so the view shifts left
    // by a tenth of that distance.
    assert_eq!(st2.offset_x, -10_000);
    // A huge negative scroll bottoms out at the minimum zoom.
    let mut st3 = CanvasState::default();
    st3.scroll_zoom(-1_000_000, 0, 0, 0, 0);
    assert_eq!(st3.zoom, 2_000);
}

#[test]
fn pan_accumulates_drag_deltas() {
    let mut st = CanvasState::default();
    st.pan(5_000, -2_000);
    st.pan(1_000, 1_000);
    assert_eq!(st.offset_x, 6_000);
    assert_eq!(st.offset_y, -1_000);
}

#[test]
fn grid_helpers_follow_view_rules() {
    let mut st = CanvasState::default();
    st.show_grid = true;
    st.zoom = 4_000;
    assert!(grid_visible(&st));
    st.zoom = 3_999;
    assert!(!grid_visible(&st));
    st.zoom = 50_000;
    st.show_grid = false;
    assert!(!grid_visible(&st));
    assert!(is_major_line(8, 4));
    assert!(!is_major_line(9, 4));
    assert!(!is_major_line(3, 1), "unit spacing draws no major lines");
    assert!(checker_parity(0, 0));
    assert!(!checker_parity(0, 1));
    assert!(checker_parity(1, 1));
}

#[test]
fn set_zoom_clamps_slider_input() {
    let mut st = CanvasState::default();
    st.set_zoom(1);
    assert_eq!(st.zoom, 2_000);
    st.set_zoom(1_000_000);
    assert_eq!(st.zoom, 128_000);
    st.set_zoom(37_500);
    assert_eq!(st.zoom, 37_500);
}

#[test]
fn iso_round_trip_at_odd_zoom() {
    // One zoom-out from the default leaves an odd half-step lattice.
    let mut st = CanvasState::default();
    st.zoom_out();
    assert_eq!(st.zoom, 13_333);
    st.isometric = true;
    st.offset_x = -7_000;
    st.offset_y = 3_500;
    let half_h = st.zoom / 2 / 2;
    for (x, y) in [(0u32, 0u32), (15, 0), (0, 15), (15, 15), (9, 4)] {
        let (cx, cy) = iso_tile_center(250_000, 125_000, &st, 16, x, y);
        let hit = screen_to_pixel_iso(cx, cy + half_h, 250_000, 125_000, &st, 16, 16);
        assert_eq!(hit, Some((x, y)), "pixel ({x}, {y})");
    }
}

#[test]
fn palette_reaches_url_loading() {
    let entries = CommandPalette::commands();
    let mut p = CommandPalette::default();
    p.open();
    p.query = String::from("url");
    let r = p.step(&entries, false, false, false, true, None);
    assert_eq!(r, Some(Command::LoadFromURL));
    let mut s = EditorSession::new();
    s.execute_command(Command::LoadFromURL);
    assert!(s.show_url_dialog);
}

#[test]
fn oversized_image_is_reported_distinctly() {
    // A decodable 20000x1 image exceeds the editor's side limit: the
    // buffer stays untouched and the status names the dimensions.
    let wide = image::RgbaImage::new(20000, 1);
    let mut bytes = Vec::new();
    let encoder = image::codecs::png::PngEncoder::new(&mut bytes);
    image::ImageEncoder::write_image(
        encoder,
        wide.as_raw(),
        20000,
        1,
        image::ExtendedColorType::Rgba8,
    )
    .unwrap();
    assert!(png_to_sprite(&bytes).is_none());
    let mut s = EditorSession::new();
    s.sprite.set_pixel(0, 0, RED);
    let before = s.sprite.pixels.clone();
    s.load_file_data(&bytes);
    assert!(matches!(
        s.status,
        StatusMessage::ImageSizeUnsupported { width: 20000, height: 1 }
    ));
    assert_eq!(s.sprite.pixels, before);
    s.load_url_data(Ok(bytes));
    assert!(matches!(
        s.status,
        StatusMessage::ImageSizeUnsupported { width: 20000, height: 1 }
    ));
    assert_eq!(s.sprite.pixels, before);
}
