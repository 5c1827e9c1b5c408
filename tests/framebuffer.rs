use pxldraw::blit::copy_rect;
use pxldraw::buffer::Framebuffer;
use pxldraw::color::{rgba, Color};
use pxldraw::geom::{Pos, Rect};
use pxldraw::target::DrawTarget;

fn black() -> Color {
    rgba(0x00, 0x00, 0x00, 0xFF)
}

fn white() -> Color {
    rgba(0xFF, 0xFF, 0xFF, 0xFF)
}

fn filled_buffer(width: usize, height: usize, color: Color) -> Framebuffer {
    let mut fb = Framebuffer::new(width, height);
    fb.fill_rect(Rect::from_ltwh(0, 0, width, height), color).unwrap();
    fb
}

fn row(fb: &Framebuffer, y: usize) -> Vec<Color> {
    (0..fb.width()).map(|x| fb.get(Pos::new(x, y)).unwrap()).collect()
}

#[test]
fn new() {
    let fb = Framebuffer::new(100, 100);
    let cells: &[u32] = fb.as_ref().as_ref();
    assert_eq!(cells.len(), 100 * 100);
}

#[test]
fn new_is_zeroed() {
    let fb = Framebuffer::new(3, 2);
    assert_eq!(fb.width(), 3);
    assert_eq!(fb.height(), 2);
    assert_eq!(fb.get(Pos::new(2, 1)), Some(0));
    assert_eq!(fb.get(Pos::new(3, 0)), None);
    assert_eq!(fb.get(Pos::new(0, 2)), None);
}

#[test]
fn rgba_packs_red_in_low_byte() {
    assert_eq!(rgba(0xFF, 0x00, 0x00, 0xFF), 0xFF00_00FF);
    assert_eq!(rgba(0x01, 0x02, 0x03, 0x04), 0x0403_0201);
    assert_eq!(black(), 0xFF00_0000);
    assert_eq!(white(), 0xFFFF_FFFF);
}

#[test]
fn rect_from_ltwh() {
    let r = Rect::from_ltwh(1, 2, 3, 4);
    assert_eq!(r, Rect::from_ltrb(1, 2, 4, 6));
    assert_eq!(r.top_left(), Pos::new(1, 2));
}

#[test]
fn draw_then_read() {
    let mut fb = Framebuffer::new(4, 4);
    fb.draw_pixel(Pos::new(2, 3), 0x1234_5678).unwrap();
    assert_eq!(fb.get(Pos::new(2, 3)), Some(0x1234_5678));
    assert_eq!(fb.get(Pos::new(3, 2)), Some(0));
}

#[test]
fn draw_out_of_bounds_is_skipped() {
    let mut fb = filled_buffer(3, 3, black());
    assert!(fb.draw_pixel(Pos::new(3, 0), white()).is_ok());
    assert!(fb.draw_pixel(Pos::new(0, 3), white()).is_ok());
    assert!(fb.draw_pixel(Pos::new(usize::MAX, usize::MAX), white()).is_ok());
    for y in 0..3 {
        assert_eq!(row(&fb, y), vec![black(); 3]);
    }
}

#[test]
fn fill_rect_inside_sets_exactly_rect() {
    let mut fb = filled_buffer(4, 3, black());
    fb.fill_rect(Rect::from_ltwh(1, 0, 2, 2), white()).unwrap();
    let (b, w) = (black(), white());
    assert_eq!(row(&fb, 0), vec![b, w, w, b]);
    assert_eq!(row(&fb, 1), vec![b, w, w, b]);
    assert_eq!(row(&fb, 2), vec![b, b, b, b]);
}

#[test]
fn fill_rect_partially_outside_sets_intersection() {
    let mut fb = filled_buffer(3, 3, black());
    fb.fill_rect(Rect::from_ltrb(1, 2, 10, 10), white()).unwrap();
    let (b, w) = (black(), white());
    assert_eq!(row(&fb, 0), vec![b, b, b]);
    assert_eq!(row(&fb, 1), vec![b, b, b]);
    assert_eq!(row(&fb, 2), vec![b, w, w]);
}

#[test]
fn fill_rect_empty_changes_nothing() {
    let mut fb = filled_buffer(2, 2, black());
    fb.fill_rect(Rect::from_ltrb(2, 0, 0, 2), white()).unwrap();
    fb.fill_rect(Rect::from_ltrb(0, 1, 2, 1), white()).unwrap();
    assert_eq!(row(&fb, 0), vec![black(); 2]);
    assert_eq!(row(&fb, 1), vec![black(); 2]);
}

#[test]
fn fill_rect_iter_short_colors_leave_rest() {
    let mut fb = Framebuffer::new(3, 2);
    fb.fill_rect_iter(Rect::from_ltwh(0, 0, 3, 2), &[1, 2, 3, 4]).unwrap();
    assert_eq!(row(&fb, 0), vec![1, 2, 3]);
    assert_eq!(row(&fb, 1), vec![4, 0, 0]);
}

#[test]
fn fill_rect_iter_long_colors_ignore_excess() {
    let mut fb = Framebuffer::new(3, 3);
    fb.fill_rect_iter(Rect::from_ltwh(1, 1, 2, 2), &[1, 2, 3, 4, 5, 6, 7]).unwrap();
    assert_eq!(row(&fb, 0), vec![0, 0, 0]);
    assert_eq!(row(&fb, 1), vec![0, 1, 2]);
    assert_eq!(row(&fb, 2), vec![0, 3, 4]);
}

#[test]
fn fill_rect_iter_outside_positions_use_up_colors() {
    let mut fb = Framebuffer::new(2, 2);
    fb.fill_rect_iter(Rect::from_ltwh(1, 0, 2, 2), &[1, 2, 3, 4]).unwrap();
    assert_eq!(row(&fb, 0), vec![0, 1]);
    assert_eq!(row(&fb, 1), vec![0, 3]);
}

#[test]
fn fill_rect_iter_no_colors_changes_nothing() {
    let mut fb = filled_buffer(2, 2, black());
    fb.fill_rect_iter(Rect::from_ltwh(0, 0, 2, 2), &[]).unwrap();
    assert_eq!(row(&fb, 0), vec![black(); 2]);
    assert_eq!(row(&fb, 1), vec![black(); 2]);
}

#[test]
fn fill_rect_iter_single_row_in_bounds() {
    let mut fb = Framebuffer::new(4, 2);
    fb.fill_rect_iter(Rect::from_ltwh(1, 1, 2, 1), &[7, 8, 9]).unwrap();
    assert_eq!(row(&fb, 0), vec![0, 0, 0, 0]);
    assert_eq!(row(&fb, 1), vec![0, 7, 8, 0]);
}

#[test]
fn draw_paired_matches_fill_rect_iter() {
    let mut a = Framebuffer::new(3, 3);
    let mut b = Framebuffer::new(3, 3);
    let colors = [5, 6, 7, 8, 9];
    a.fill_rect_iter(Rect::from_ltwh(0, 1, 3, 2), &colors).unwrap();
    b.draw_paired(Rect::from_ltwh(0, 1, 3, 2), &colors).unwrap();
    for y in 0..3 {
        assert_eq!(row(&a, y), row(&b, y));
    }
    assert_eq!(row(&a, 2), vec![8, 9, 0]);
}

#[test]
fn copy_rect_skips_unreadable_source() {
    let mut src = Framebuffer::new(2, 2);
    src.fill_rect_iter(Rect::from_ltwh(0, 0, 2, 2), &[1, 2, 3, 4]).unwrap();
    let mut dst = filled_buffer(4, 4, 9);
    // The rectangle reaches one column and one row past the source.
    copy_rect(&mut dst, &src, Rect::from_ltwh(1, 1, 2, 2), Pos::new(0, 0)).unwrap();
    assert_eq!(row(&dst, 0), vec![4, 9, 9, 9]);
    assert_eq!(row(&dst, 1), vec![9, 9, 9, 9]);
}

#[test]
fn copy_rect_clips_destination() {
    let mut src = Framebuffer::new(2, 2);
    src.fill_rect_iter(Rect::from_ltwh(0, 0, 2, 2), &[1, 2, 3, 4]).unwrap();
    let mut dst = filled_buffer(3, 3, 9);
    copy_rect(&mut dst, &src, Rect::from_ltwh(0, 0, 2, 2), Pos::new(2, 2)).unwrap();
    assert_eq!(row(&dst, 2), vec![9, 9, 1]);
    copy_rect(&mut dst, &src, Rect::from_ltwh(0, 0, 2, 2), Pos::new(usize::MAX, 0)).unwrap();
    assert_eq!(row(&dst, 0), vec![9, 9, 9]);
}

#[test]
fn fill_rect_centered_square() {
    let mut fb = filled_buffer(5, 5, black());
    fb.fill_rect(Rect::from_ltrb(1, 1, 4, 4), white()).unwrap();
    let (b, w) = (black(), white());
    assert_eq!(row(&fb, 0), vec![b; 5]);
    for y in 1..4 {
        assert_eq!(row(&fb, y), vec![b, w, w, w, b]);
    }
    assert_eq!(row(&fb, 4), vec![b; 5]);
}

#[test]
fn copy_rect_checkerboard() {
    let mut src = Framebuffer::new(3, 3);
    for y in 0..3 {
        for x in 0..3 {
            let c = if (x + y) % 2 == 0 { white() } else { black() };
            src.draw_pixel(Pos::new(x, y), c).unwrap();
        }
    }
    let mut dst = filled_buffer(5, 5, black());
    copy_rect(&mut dst, &src, Rect::from_ltrb(0, 0, 3, 3), Pos::new(1, 1)).unwrap();
    for y in 0..5 {
        for x in 0..5 {
            let inside = (1..4).contains(&x) && (1..4).contains(&y);
            let expected = if inside && (x - 1 + y - 1) % 2 == 0 { white() } else { black() };
            assert_eq!(dst.get(Pos::new(x, y)), Some(expected), "at ({x}, {y})");
        }
    }
}
