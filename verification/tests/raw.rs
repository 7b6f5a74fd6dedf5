use zirvtk::canvas::Canvas;
use zirvtk::fx::box_blur;
use zirvtk::bump::bump_place;
use zirvtk::fbtext::{fb_draw_text_bytes, fb_draw_text_bytes_scaled};
use zirvtk::font::{Font, FONT_H};
use zirvtk::icon::fb_draw_icon;
use zirvtk::lines::fb_draw_line;
use zirvtk::mesh::{cylinder_topology, sphere_topology, torus_topology};
use zirvtk::raster::{fb_fill_rect, fb_hline, fb_set_pixel};

fn lit(fb: &[u32], w: usize) -> Vec<(usize, usize)> {
    let mut out = Vec::new();
    for (i, &p) in fb.iter().enumerate() {
        if p != 0 {
            out.push((i % w, i / w));
        }
    }
    out
}

fn font_with_block() -> Font {
    // 'A' is a single pixel at its top-left corner
    let mut rows = vec![0u8; 128 * FONT_H as usize];
    rows['A' as usize * FONT_H as usize] = 0x80;
    Font::from_rows(rows)
}

#[test]
fn line_flat() {
    let mut fb = vec![0u32; 8 * 4];
    fb_draw_line(&mut fb, 8, 4, 0, 0, 3, 2, 1);
    assert_eq!(lit(&fb, 8), vec![(0, 0), (1, 1), (2, 1), (3, 2)]);
}

#[test]
fn line_steep_and_backwards() {
    let mut fb = vec![0u32; 4 * 4];
    fb_draw_line(&mut fb, 4, 4, 0, 0, 1, 3, 1);
    assert_eq!(lit(&fb, 4), vec![(0, 0), (0, 1), (1, 2), (1, 3)]);
    let mut back = vec![0u32; 4 * 4];
    fb_draw_line(&mut back, 4, 4, 1, 3, 0, 0, 1);
    assert_eq!(lit(&back, 4).len(), 4);
    assert_eq!(back[0], 1);
    assert_eq!(back[3 * 4 + 1], 1);
}

#[test]
fn line_single_point_and_clipping() {
    let mut fb = vec![0u32; 4 * 4];
    fb_draw_line(&mut fb, 4, 4, 2, 2, 2, 2, 7);
    assert_eq!(lit(&fb, 4), vec![(2, 2)]);
    let mut clip = vec![0u32; 4 * 4];
    fb_draw_line(&mut clip, 4, 4, -2, 1, 5, 1, 7);
    assert_eq!(lit(&clip, 4), vec![(0, 1), (1, 1), (2, 1), (3, 1)]);
}

#[test]
fn raw_pixels_and_rects() {
    let mut fb = vec![0u32; 5 * 5];
    fb_set_pixel(&mut fb, 5, 5, 4, 4, 9);
    fb_set_pixel(&mut fb, 5, 5, 5, 0, 9);
    fb_fill_rect(&mut fb, 5, 5, -1, -1, 2, 2, 3);
    fb_hline(&mut fb, 5, 5, 1, 2, 3, 4);
    assert_eq!(lit(&fb, 5), vec![(0, 0), (1, 2), (2, 2), (3, 2), (4, 4)]);
    assert_eq!(fb[0], 3);
    assert_eq!(fb[24], 9);
}

#[test]
fn byte_text_draws_each_byte() {
    let font = font_with_block();
    let mut fb = vec![0u32; 30 * 20];
    fb_draw_text_bytes(&mut fb, 30, 20, &font, 1, 2, b"AxA", 5);
    assert_eq!(lit(&fb, 30), vec![(1, 2), (19, 2)]);
    let mut big = vec![0u32; 40 * 30];
    fb_draw_text_bytes_scaled(&mut big, 40, 30, &font, 0, 0, b"AA", 5, 2);
    assert_eq!(lit(&big, 40), vec![(0, 0), (1, 0), (18, 0), (19, 0), (0, 1), (1, 1), (18, 1), (19, 1)]);
}

#[test]
fn raw_icons() {
    let font = Font::blank();
    // music: three 4-pixel bars the icon's height
    let mut fb = vec![0u32; 40 * 40];
    fb_draw_icon(&mut fb, 40, 40, &font, 20, 20, 12, 11, 1);
    assert_eq!(fb[14 * 40 + 14], 1);
    assert_eq!(fb[14 * 40 + 18], 1);
    assert_eq!(fb[14 * 40 + 22], 1);
    assert_eq!(fb[14 * 40 + 25], 1);
    assert_eq!(fb[14 * 40 + 26], 0);
    assert_eq!(fb[14 * 40 + 13], 0);
    assert_eq!(lit(&fb, 40).len(), 3 * 4 * 12);
    // maps: nine steps of two diagonals
    let mut m = vec![0u32; 40 * 40];
    fb_draw_icon(&mut m, 40, 40, &font, 20, 20, 16, 14, 1);
    assert_eq!(m[28 * 40 + 12], 1);
    assert_eq!(m[28 * 40 + 20], 1);
    assert_eq!(m[20 * 40 + 28], 1);
}

#[test]
fn grid_meshes() {
    let (e, f) = sphere_topology(2, 1);
    let edges: Vec<(usize, usize)> = e.iter().map(|x| (x.a, x.b)).collect();
    assert_eq!(edges, vec![(0, 1), (1, 4), (0, 3), (3, 4), (1, 2), (2, 5), (1, 4), (4, 5)]);
    let faces: Vec<(usize, usize, usize)> = f.iter().map(|t| (t.v0, t.v1, t.v2)).collect();
    assert_eq!(faces, vec![(0, 1, 3), (1, 4, 3), (1, 2, 4), (2, 5, 4)]);
    let (te, tf) = torus_topology(1, 2);
    let tedges: Vec<(usize, usize)> = te.iter().map(|x| (x.a, x.b)).collect();
    assert_eq!(tedges, vec![(0, 1), (0, 3), (1, 4), (3, 4), (1, 2), (1, 4), (2, 5), (4, 5)]);
    assert_eq!(tf.len(), 4);
}

#[test]
fn cylinder_mesh() {
    let (e, f) = cylinder_topology(3);
    let edges: Vec<(usize, usize)> = e.iter().map(|x| (x.a, x.b)).collect();
    assert_eq!(edges, vec![(2, 3), (5, 6), (2, 5), (3, 4), (6, 7), (3, 6), (4, 2), (7, 5), (4, 7)]);
    let faces: Vec<(usize, usize, usize)> = f.iter().map(|t| (t.v0, t.v1, t.v2)).collect();
    assert_eq!(&faces[..4], &[(0, 2, 3), (1, 6, 5), (2, 5, 6), (2, 6, 3)]);
    assert_eq!(faces.len(), 12);
    let (e0, f0) = cylinder_topology(0);
    assert!(e0.is_empty() && f0.is_empty());
}

#[test]
fn bump_placement() {
    assert_eq!(bump_place(5, 8, 10, 100), Some((8, 18)));
    assert_eq!(bump_place(0, 1, 100, 100), Some((0, 100)));
    assert_eq!(bump_place(95, 8, 10, 100), None);
    assert_eq!(bump_place(16, 16, 0, 100), Some((16, 16)));
    assert_eq!(bump_place(101, 1, 0, 100), None);
}

#[test]
fn box_blur_averages_neighbours() {
    // a 3 x 1 strip: black, white, black
    let mut c = Canvas::from_pixels(3, 1, vec![0xFF00_0000, 0xFFFF_FFFF, 0xFF00_0000]);
    box_blur(&mut c, 0, 0, 3, 1, 1);
    // first pixel: (0 + 255) / 2 = 127; then the middle one sees 127, 255, 0
    // so 382 / 3 = 127; the last one sees 127, 0 so 63
    assert_eq!(c.pixels(), &[0xFF7F_7F7F, 0xFF7F_7F7F, 0xFF3F_3F3F][..]);
}

#[test]
fn box_blur_radius_zero_and_off_canvas_do_nothing() {
    let px = vec![0xFF00_0000, 0xFFFF_FFFF, 0xFF00_0000, 0xFF12_3456];
    let mut c = Canvas::from_pixels(2, 2, px.clone());
    box_blur(&mut c, 0, 0, 2, 2, 0);
    assert_eq!(c.pixels(), &px[..]);
    box_blur(&mut c, 5, 5, 2, 2, 1);
    assert_eq!(c.pixels(), &px[..]);
}

#[test]
fn depth_plane_is_writable() {
    let mut c = Canvas::new(2, 2);
    {
        let d = c.depth_ptr();
        assert_eq!(d, &[0xFFFF_u16; 4][..]);
        d[3] = 7;
    }
    assert_eq!(c.depth_ptr()[3], 7);
    assert_eq!(c.pixels(), &[0u32; 4][..]);
}

#[test]
fn box_blur_large_radius_covers_the_whole_strip() {
    let mut c = Canvas::from_pixels(3, 1, vec![0xFF00_0000, 0xFFFF_FFFF, 0xFF00_0000]);
    box_blur(&mut c, 0, 0, 3, 1, 5000);
    // 255 / 3 = 85, then (85 + 255 + 0) / 3 = 113, then (85 + 113 + 0) / 3 = 66
    assert_eq!(c.pixels(), &[0xFF55_5555, 0xFF71_7171, 0xFF42_4242][..]);
}

#[test]
fn box_blur_keeps_a_flat_image() {
    let mut c = Canvas::from_pixels(4, 3, vec![0xFF12_3456; 12]);
    box_blur(&mut c, -1, -1, 10, 10, 2);
    assert_eq!(c.pixels(), &[0xFF12_3456u32; 12][..]);
}

#[test]
fn icons_far_out_or_large_are_clipped() {
    let font = Font::blank();
    // a terminal 1000 pixels across: its black inset covers the whole image
    let mut fb = vec![0u32; 16];
    fb_draw_icon(&mut fb, 4, 4, &font, 2, 2, 1000, 0, 7);
    assert!(fb.iter().all(|&p| p == 0xFF00_0000));
    // centred far off the image: nothing drawn
    let mut far = vec![0u32; 16];
    fb_draw_icon(&mut far, 4, 4, &font, 2_000_000_000, -2_000_000_000, 36, 0, 7);
    assert!(far.iter().all(|&p| p == 0));
}

#[test]
fn bump_blocks_follow_one_another() {
    // three requests in turn: each block starts at or after the previous
    // block's end, on its own alignment; a refused one leaves the offset
    let mut offset = 3usize;
    let mut blocks = Vec::new();
    for &(align, size) in &[(4usize, 10usize), (16, 5), (8, 1000), (2, 3)] {
        if let Some((start, end)) = bump_place(offset, align, size, 64) {
            assert_eq!(start % align, 0);
            blocks.push((start, end));
            offset = end;
        }
    }
    assert_eq!(blocks, vec![(4, 14), (16, 21), (22, 25)]);
}
