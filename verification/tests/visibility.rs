//! Field of view, line of sight, screen projection and the gray transform.

use adventure_core::camera::{Camera, ScreenRect};
use adventure_core::color::{TermColor, TermStyle};
use adventure_core::map::WorldMap;
use adventure_core::structure::{Structure, Wall};

#[test]
fn bresenham_includes_both_endpoints() {
    assert_eq!(Camera::bresenham_line(0, 0, 0, 0), vec![(0, 0)]);
    assert_eq!(Camera::bresenham_line(0, 0, 3, 0), vec![(0, 0), (1, 0), (2, 0), (3, 0)]);
    assert_eq!(Camera::bresenham_line(0, 0, 0, -2), vec![(0, 0), (0, -1), (0, -2)]);
    assert_eq!(Camera::bresenham_line(0, 0, 2, 1), vec![(0, 0), (1, 1), (2, 1)]);
    let diagonal = Camera::bresenham_line(2, 2, -1, -1);
    assert_eq!(diagonal, vec![(2, 2), (1, 1), (0, 0), (-1, -1)]);
}

#[test]
fn visibility_respects_walls_and_feeds_revealed() {
    let mut map = WorldMap::new();
    map.load_chunk(0, 0, 0);
    // an extra wall directly east of the origin point
    assert!(map.add_structure_at((7, 5, 0), Structure::Wall(Wall {})));
    let camera = Camera::new((0, 0, 0));
    camera.update_visibility((5, 5, 0), 4, &mut map);

    // the origin and its open neighbour are visible
    assert!(camera.is_visible_tile((5, 5, 0), &map));
    assert!(camera.is_visible_tile((6, 5, 0), &map));
    // the wall itself is visible: a blocking tile is seen as a wall
    assert!(camera.is_visible_tile((7, 5, 0), &map));
    // the tile directly behind it (collinear, farther) is not
    assert!(!camera.is_visible_tile((8, 5, 0), &map));
    assert!(!camera.is_visible_tile((9, 5, 0), &map));
    // outside the circular mask: distance 5 > range 4
    assert!(!camera.is_visible_tile((5, 0, 0), &map));
    // another layer shows nothing
    assert!(!camera.is_visible_tile((5, 5, 1), &map));
}

#[test]
fn visible_tiles_are_always_revealed_and_revealed_only_grows() {
    let mut map = WorldMap::new();
    map.load_chunk(0, 0, 0);
    let camera = Camera::new((0, 0, 0));
    camera.update_visibility((5, 5, 0), 3, &mut map);
    let layer = &map.chunks[0].layers[0];
    assert!(!layer.visible_tiles.is_empty());
    for p in layer.visible_tiles.iter() {
        assert!(layer.revealed_tiles.contains(p));
    }
    let remembered = layer.revealed_tiles.clone();

    // look somewhere else: old tiles leave the visible set but stay revealed
    camera.update_visibility((20, 20, 0), 3, &mut map);
    let layer = &map.chunks[0].layers[0];
    assert!(!layer.visible_tiles.contains(&(5, 5)));
    for p in remembered.iter() {
        assert!(layer.revealed_tiles.contains(p));
    }
    for p in layer.visible_tiles.iter() {
        assert!(layer.revealed_tiles.contains(p));
    }
}

#[test]
fn unloaded_tiles_are_opaque() {
    let mut map = WorldMap::new();
    map.load_chunk(0, 0, 0);
    let camera = Camera::new((0, 0, 0));
    // standing at the chunk edge: nothing beyond the loaded chunk is visible
    camera.update_visibility((31, 5, 0), 3, &mut map);
    assert!(camera.is_visible_tile((31, 5, 0), &map));
    assert!(!camera.is_visible_tile((33, 5, 0), &map));
}

#[test]
fn world_to_screen_projects_with_strict_bounds() {
    let camera = Camera::new((10, 20, 0));
    let area = ScreenRect::new(2, 1, 80, 25);
    assert_eq!(camera.world_to_screen((10, 20), area), Some((2, 1)));
    assert_eq!(camera.world_to_screen((89, 44), area), Some((81, 25)));
    assert_eq!(camera.world_to_screen((90, 20), area), None);
    assert_eq!(camera.world_to_screen((10, 45), area), None);
    assert_eq!(camera.world_to_screen((9, 20), area), None);
    assert!(camera.is_point_on_screen((10, 20, 7), area));
    assert!(!camera.is_point_on_screen((9, 20, 0), area));
}

#[test]
fn rect_overlap_test_matches_camera_translation() {
    let camera = Camera::new((0, 0, 0));
    let area = ScreenRect::new(0, 0, 80, 25);
    assert!(camera.is_rect_on_screen((-5, -5, 0), (10, 10), area));
    assert!(!camera.is_rect_on_screen((80, 0, 0), (32, 32), area));
    assert!(!camera.is_rect_on_screen((-32, 25, 0), (32, 32), area));
    assert!(camera.is_rect_on_screen((79, 24, 0), (32, 32), area));
}

#[test]
fn camera_centering_offsets_by_half_the_viewport() {
    let camera = Camera::new((0, 0, 0));
    let area = ScreenRect::new(0, 0, 80, 24);
    assert_eq!(camera.get_center((100, 50), area), (60, 38));
    assert_eq!(camera.get_center((0, 0), area), (-40, -12));
}

#[test]
fn grayscale_is_the_floored_channel_average() {
    assert_eq!(
        Camera::grayed_out_color(TermColor::Rgb(30, 60, 90)),
        TermColor::Rgb(60, 60, 60)
    );
    // (10 + 20 + 32) / 3 = 20.67 floors to 20
    assert_eq!(
        Camera::grayed_out_color(TermColor::Rgb(10, 20, 32)),
        TermColor::Rgb(20, 20, 20)
    );
    assert_eq!(
        Camera::grayed_out_color(TermColor::Rgb(255, 255, 255)),
        TermColor::Rgb(255, 255, 255)
    );
    // non-RGB colors map to the fixed gray
    assert_eq!(Camera::grayed_out_color(TermColor::Reset), TermColor::Gray);
    assert_eq!(Camera::grayed_out_color(TermColor::Gray), TermColor::Gray);
}

#[test]
fn graying_a_style_touches_only_a_present_foreground() {
    let style = TermStyle::fg(TermColor::Rgb(90, 0, 0));
    assert_eq!(
        Camera::grayed_out_style(style).fg,
        Some(TermColor::Rgb(30, 30, 30))
    );
    let empty = TermStyle::default();
    assert_eq!(Camera::grayed_out_style(empty).fg, None);
}
