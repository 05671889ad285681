use oxido::font::glyph5x7;
use oxido::gfx::{key_bit, rgba, Frame, Key, Palette, SpriteAtlas, TileMap, GB_DARKEST, GB_DARK, GB_LIGHT, GB_LIGHTEST};

fn frame(w: usize, h: usize) -> Frame {
    Frame { data: vec![0u8; w * h * 4], w, h }
}

fn pixel(f: &Frame, x: usize, y: usize) -> u32 {
    let i = (y * f.w + x) * 4;
    u32::from_le_bytes([f.data[i], f.data[i + 1], f.data[i + 2], f.data[i + 3]])
}

fn test_palette() -> Palette {
    Palette([rgba(10, 0, 0, 255), rgba(20, 0, 0, 255), rgba(30, 0, 0, 255), rgba(40, 0, 0, 255)])
}

#[test]
fn key_bits_follow_button_order() {
    assert_eq!(key_bit(Key::Up), 1);
    assert_eq!(key_bit(Key::Down), 2);
    assert_eq!(key_bit(Key::Left), 4);
    assert_eq!(key_bit(Key::Right), 8);
    assert_eq!(key_bit(Key::A), 16);
    assert_eq!(key_bit(Key::B), 32);
    assert_eq!(key_bit(Key::Start), 64);
    assert_eq!(key_bit(Key::Select), 128);
}

#[test]
fn rgba_packs_little_endian() {
    assert_eq!(rgba(1, 2, 3, 4), 0x0403_0201);
    assert_eq!(rgba(1, 2, 3, 4).to_le_bytes(), [1, 2, 3, 4]);
    assert_eq!(GB_DARKEST, rgba(15, 56, 15, 255));
    assert_eq!(GB_DARK, rgba(48, 98, 48, 255));
    assert_eq!(GB_LIGHT, rgba(139, 172, 15, 255));
    assert_eq!(GB_LIGHTEST, rgba(155, 188, 15, 255));
}

#[test]
fn palette_colors() {
    let p = Palette::gb();
    assert_eq!(p.color(0), GB_DARKEST);
    assert_eq!(p.color(3), GB_LIGHTEST);
    assert_eq!(test_palette().color(2), rgba(30, 0, 0, 255));
}

#[test]
fn clear_fills_every_pixel() {
    let mut f = frame(2, 2);
    f.clear(rgba(1, 2, 3, 4));
    assert_eq!(f.data, vec![1, 2, 3, 4, 1, 2, 3, 4, 1, 2, 3, 4, 1, 2, 3, 4]);
}

#[test]
fn clear_leaves_a_partial_pixel() {
    let mut f = Frame { data: vec![9u8; 6], w: 1, h: 1 };
    f.clear(rgba(1, 2, 3, 4));
    assert_eq!(f.data, vec![1, 2, 3, 4, 9, 9]);
}

#[test]
fn rect_is_clipped_to_the_frame() {
    let mut f = frame(4, 3);
    let c = rgba(7, 7, 7, 7);
    f.rect(-1, 1, 3, 5, c);
    for y in 0..3 {
        for x in 0..4 {
            let inside = x < 2 && y >= 1;
            assert_eq!(pixel(&f, x, y), if inside { c } else { 0 }, "pixel {x},{y}");
        }
    }
}

#[test]
fn rect_outside_or_empty_draws_nothing() {
    let mut f = frame(4, 3);
    f.rect(4, 0, 2, 2, 5);
    f.rect(0, -5, 2, 2, 5);
    f.rect(1, 1, 0, 1, 5);
    f.rect(1, 1, -3, 1, 5);
    f.rect(i32::MAX, i32::MAX, i32::MAX, i32::MAX, 5);
    assert!(f.data.iter().all(|&b| b == 0));
}

fn atlas() -> SpriteAtlas {
    // Two 2x2 tiles side by side: tile 0 = [0 1 / 1 2], tile 1 = [2 3 / 3 0].
    SpriteAtlas::from_indexed(vec![0, 1, 2, 3, 1, 2, 3, 0], 4, 2, 2, 2)
}

#[test]
fn blit_draws_tile_with_transparency() {
    let a = atlas();
    let pal = test_palette();
    let mut f = frame(3, 2);
    f.clear(0xDEAD_BEEF);
    a.blit(&mut f, 1, 0, 1, &pal, false, false, true);
    assert_eq!(pixel(&f, 0, 0), 0xDEAD_BEEF);
    assert_eq!(pixel(&f, 1, 0), pal.color(2));
    assert_eq!(pixel(&f, 2, 0), pal.color(3));
    assert_eq!(pixel(&f, 1, 1), pal.color(3));
    assert_eq!(pixel(&f, 2, 1), 0xDEAD_BEEF);
    a.blit(&mut f, 1, 0, 1, &pal, false, false, false);
    assert_eq!(pixel(&f, 2, 1), pal.color(0));
}

#[test]
fn blit_mirrors_and_clips() {
    let a = atlas();
    let pal = test_palette();
    let mut f = frame(2, 2);
    a.blit(&mut f, 0, 0, 0, &pal, true, false, false);
    assert_eq!(pixel(&f, 0, 0), pal.color(1));
    assert_eq!(pixel(&f, 1, 0), pal.color(0));
    assert_eq!(pixel(&f, 0, 1), pal.color(2));
    assert_eq!(pixel(&f, 1, 1), pal.color(1));
    a.blit(&mut f, -1, -1, 1, &pal, false, true, false);
    // Only the tile's bottom-right pixel lands on the frame; flipped
    // vertically it is the top-right one of tile 1.
    assert_eq!(pixel(&f, 0, 0), pal.color(3));
    assert_eq!(pixel(&f, 1, 1), pal.color(1));
}

#[test]
fn tilemap_wraps_and_scrolls() {
    let a = atlas();
    let pal = test_palette();
    let map = TileMap::new(2, 1, 2, 2, vec![0, 1]);
    let mut f = frame(4, 2);
    map.draw(&mut f, &a, &pal, 0, 0, false);
    let row0: Vec<u32> = (0..4).map(|x| pixel(&f, x, 0)).collect();
    assert_eq!(row0, vec![pal.color(0), pal.color(1), pal.color(2), pal.color(3)]);
    map.draw(&mut f, &a, &pal, 2, 0, false);
    let row0: Vec<u32> = (0..4).map(|x| pixel(&f, x, 0)).collect();
    assert_eq!(row0, vec![pal.color(2), pal.color(3), pal.color(0), pal.color(1)]);
    map.draw(&mut f, &a, &pal, -1, 1, false);
    let row0: Vec<u32> = (0..4).map(|x| pixel(&f, x, 0)).collect();
    // Scroll (-1, 1): the left edge shows the last column of tile 1, row 1.
    assert_eq!(row0, vec![pal.color(0), pal.color(1), pal.color(2), pal.color(3)]);
}

#[test]
fn glyphs_ignore_case_and_reject_unknown() {
    assert_eq!(glyph5x7('a'), glyph5x7('A'));
    assert_eq!(glyph5x7('A'), Some([0b01110, 0b10001, 0b10001, 0b11111, 0b10001, 0b10001, 0b10001]));
    assert_eq!(glyph5x7('7'), Some([0b11111, 0b00001, 0b00010, 0b00100, 0b01000, 0b01000, 0b01000]));
    assert_eq!(glyph5x7(' '), Some([0; 7]));
    assert_eq!(glyph5x7('#'), None);
    assert_eq!(glyph5x7('é'), None);
}

#[test]
fn text_draws_glyph_pixels_six_apart() {
    let mut f = frame(12, 7);
    f.text5x7(0, 0, "#a", 9);
    for x in 0..6 {
        for y in 0..7 {
            assert_eq!(pixel(&f, x, y), 0);
        }
    }
    let a = glyph5x7('A').unwrap();
    for y in 0..7 {
        for x in 0..5 {
            let on = (a[y] >> (4 - x)) & 1 != 0;
            assert_eq!(pixel(&f, 6 + x, y), if on { 9 } else { 0 }, "pixel {x},{y}");
        }
    }
}

#[test]
fn text_is_clipped_at_the_edges() {
    let mut f = frame(3, 3);
    f.text5x7(-2, -3, "-", 4);
    // The dash is row 3 of the glyph: at y = 0, columns -2..3 clip to 0..3.
    for x in 0..3 {
        assert_eq!(pixel(&f, x, 0), 4);
        assert_eq!(pixel(&f, x, 1), 0);
    }
}

#[test]
fn tilemap_pixels_follow_world_coordinates() {
    let a = SpriteAtlas::from_indexed(vec![0, 1, 2, 3, 1, 2, 3, 0], 4, 2, 2, 2);
    let pal = test_palette();
    let map = TileMap::new(3, 2, 2, 2, vec![0, 1, 1, 1, 0, 0]);
    for &(sx, sy) in &[(0, 0), (5, -3), (-7, 11), (123, -456)] {
        let mut f = frame(5, 3);
        f.clear(0x1234_5678);
        map.draw(&mut f, &a, &pal, sx, sy, true);
        for py in 0..3i32 {
            for px in 0..5i32 {
                let wx = px + sx;
                let wy = py + sy;
                let cell = (wy.div_euclid(2).rem_euclid(2) * 3 + wx.div_euclid(2).rem_euclid(3)) as usize;
                let tile = map.tiles[cell];
                let idx = a.pixels[wy.rem_euclid(2) as usize * 4 + tile * 2 + wx.rem_euclid(2) as usize];
                let want = if idx == 0 { 0x1234_5678 } else { pal.color(idx) };
                assert_eq!(pixel(&f, px as usize, py as usize), want, "scroll {sx},{sy} pixel {px},{py}");
            }
        }
    }
}
