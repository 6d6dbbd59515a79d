use nt61::win32k::surface::{GdiSurface, SurfaceTable, EngCreateSurface, EngDeleteSurface, PIXEL_FORMAT_32BPP,
    PIXEL_FORMAT_8BPP};
use nt61::win32k::gdi_ops::{apply_rop, fill_rect_solid, invert_rect, draw_line, GreSetPixel, GreGetPixel, GrePatBlt,
    GreRectangle, EngCopyBits, EngFillRectangle, EngLine, SRCCOPY, SRCINVERT, SRCAND, SRCPAINT};
use nt61::win32k::ellipse::{GreEllipse, draw_ellipse_midpoint, fill_ellipse};
use nt61::win32k::raster::{EngSurface, allocate_surface, eng_bit_blt, get_pixel_from_surface, set_pixel_on_surface};
use nt61::win32k::gdi_ops::polygon_outline;
use nt61::win32k::objects::{GdiState, GdiCreatePen, GdiCreateSolidBrush, PenStyle};
use nt61::win32k::dc::DcObject;

fn surface(w: i32, h: i32) -> GdiSurface {
    GdiSurface::new(w, h, PIXEL_FORMAT_32BPP).unwrap()
}

fn px(s: &GdiSurface, x: i32, y: i32) -> u32 {
    s.get_pixel(x, y).unwrap()
}

fn painted(s: &GdiSurface, c: u32) -> Vec<(i32, i32)> {
    let mut v = Vec::new();
    for y in 0..s.height {
        for x in 0..s.width {
            if px(s, x, y) == c {
                v.push((x, y));
            }
        }
    }
    v
}

#[test]
fn set_then_get_pixel() {
    let mut s = surface(4, 3);
    assert!(s.set_pixel(2, 1, 0xABCDEF));
    assert_eq!(s.get_pixel(2, 1), Some(0xABCDEF));
    assert_eq!(s.get_pixel(1, 1), Some(0));
    assert!(!s.set_pixel(4, 0, 1));
    assert!(!s.set_pixel(-1, 0, 1));
    assert_eq!(s.get_pixel(0, 3), None);
}

#[test]
fn rops_on_one_pixel() {
    assert_eq!(apply_rop(0b1100, 0b1010, 0, SRCCOPY), 0b1010);
    assert_eq!(apply_rop(0b1100, 0b1010, 0, SRCINVERT), 0b0110);
    assert_eq!(apply_rop(0b1100, 0b1010, 0, SRCAND), 0b1000);
    assert_eq!(apply_rop(0b1100, 0b1010, 0, SRCPAINT), 0b1110);
    let d = 0x12345678;
    let s = 0x0F0F0F0F;
    assert_eq!(apply_rop(apply_rop(d, s, 0, SRCINVERT), s, 0, SRCINVERT), d);
}

#[test]
fn fill_is_clipped_and_only_on_32bit() {
    let mut s = surface(5, 5);
    assert!(fill_rect_solid(&mut s, -2, 3, 4, 10, 7));
    assert_eq!(painted(&s, 7), vec![(0, 3), (1, 3), (0, 4), (1, 4)]);
    let mut b = GdiSurface::new(4, 4, PIXEL_FORMAT_8BPP).unwrap();
    assert!(fill_rect_solid(&mut b, 0, 0, 4, 4, 7));
    assert_eq!(painted(&b, 7).len(), 0);
    assert!(invert_rect(&mut s, 0, 4, 1, 1));
    assert_eq!(px(&s, 0, 4), !7u32);
}

#[test]
fn line_follows_bresenham() {
    let mut s = surface(6, 4);
    assert!(draw_line(&mut s, 0, 0, 5, 2, 9));
    assert_eq!(painted(&s, 9), vec![(0, 0), (1, 0), (2, 1), (3, 1), (4, 2), (5, 2)]);
    let mut t = surface(3, 3);
    draw_line(&mut t, 2, 2, 2, 2, 4);
    assert_eq!(painted(&t, 4), vec![(2, 2)]);
    let mut u = surface(3, 3);
    draw_line(&mut u, -5, 1, 5, 1, 6);
    assert_eq!(painted(&u, 6), vec![(0, 1), (1, 1), (2, 1)]);
}

#[test]
fn ellipse_outline_is_symmetric() {
    let mut s = surface(21, 21);
    draw_ellipse_midpoint(&mut s, 10, 10, 6, 4, 3);
    let pts = painted(&s, 3);
    assert!(pts.contains(&(10, 14)) && pts.contains(&(10, 6)));
    assert!(pts.contains(&(16, 10)) && pts.contains(&(4, 10)));
    for &(x, y) in &pts {
        assert!(pts.contains(&(20 - x, y)) && pts.contains(&(x, 20 - y)));
    }
    assert!(!pts.contains(&(10, 10)));
}

#[test]
fn ellipse_with_no_radius_draws_nothing() {
    let mut s = surface(5, 5);
    draw_ellipse_midpoint(&mut s, 2, 2, 0, 3, 3);
    fill_ellipse(&mut s, 2, 2, 3, -1, 3);
    assert_eq!(painted(&s, 3).len(), 0);
}

#[test]
fn fill_ellipse_rows() {
    let mut s = surface(9, 7);
    fill_ellipse(&mut s, 4, 3, 3, 2, 5);
    let pts = painted(&s, 5);
    let row = |y: i32| pts.iter().filter(|p| p.1 == y).map(|p| p.0).collect::<Vec<i32>>();
    assert_eq!(row(3), vec![1, 2, 3, 4, 5, 6, 7]);
    assert_eq!(row(2), vec![2, 3, 4, 5, 6]);
    assert_eq!(row(4), vec![2, 3, 4, 5, 6]);
    assert_eq!(row(1), vec![3, 4, 5]);
    assert_eq!(row(5), vec![3, 4, 5]);
    assert_eq!(row(0), Vec::<i32>::new());
    assert_eq!(row(6), Vec::<i32>::new());
}

#[test]
fn gre_ellipse_through_a_dc() {
    let mut surfaces = SurfaceTable::new();
    let a = EngCreateSurface(&mut surfaces, 30, 30, PIXEL_FORMAT_32BPP);
    let mut gdi = GdiState::new();
    let pen = GdiCreatePen(&mut gdi, PenStyle::Solid, 1, 0x22);
    let brush = GdiCreateSolidBrush(&mut gdi, 0x33);
    let mut dc = DcObject::new();
    dc.surface = a;
    dc.pen = pen;
    dc.brush = brush;
    assert!(GreEllipse(&mut surfaces, &gdi, &dc, 5, 5, 25, 21));
    let s = surfaces.get(a).unwrap();
    let mut outline = 0;
    let mut inside = 0;
    for y in 0..30 {
        for x in 0..30 {
            let v = px(s, x, y);
            if v == 0x33 { inside += 1; }
            if v == 0x22 { outline += 1; }
        }
    }
    assert!(outline > 0);
    assert!(inside > 0);
    assert_eq!(px(s, 15, 13), 0x33);
    assert_eq!(px(s, 0, 0), 0);
    dc.surface = 99;
    assert!(!GreEllipse(&mut surfaces, &gdi, &dc, 5, 5, 25, 21));
}

#[test]
fn set_pixel_through_a_dc() {
    let mut surfaces = SurfaceTable::new();
    let a = EngCreateSurface(&mut surfaces, 3, 3, PIXEL_FORMAT_32BPP);
    let mut dc = DcObject::new();
    dc.surface = a;
    assert!(GreSetPixel(&mut surfaces, &dc, 1, 2, 0x55));
    assert_eq!(GreGetPixel(&surfaces, &dc, 1, 2), 0x55);
    assert_eq!(GreGetPixel(&surfaces, &dc, 3, 0), 0xFFFFFFFF);
    assert!(!GreSetPixel(&mut surfaces, &dc, 3, 0, 1));
    dc.surface = 0;
    assert_eq!(GreGetPixel(&surfaces, &dc, 1, 2), 0xFFFFFFFF);
}

#[test]
fn patblt_and_rectangle() {
    let mut surfaces = SurfaceTable::new();
    let a = EngCreateSurface(&mut surfaces, 6, 6, PIXEL_FORMAT_32BPP);
    let mut gdi = GdiState::new();
    let mut dc = DcObject::new();
    dc.surface = a;
    // WHITENESS fills white, BLACKNESS black, PATCOPY the brush colour.
    assert!(GrePatBlt(&mut surfaces, &gdi, &dc, 0, 0, 2, 2, 0x00FF0062));
    assert_eq!(px(surfaces.get(a).unwrap(), 1, 1), 0x00FFFFFF);
    assert_eq!(px(surfaces.get(a).unwrap(), 2, 2), 0);
    assert!(GrePatBlt(&mut surfaces, &gdi, &dc, 0, 0, 1, 1, 0x00000042));
    assert_eq!(px(surfaces.get(a).unwrap(), 0, 0), 0);
    assert_eq!(px(surfaces.get(a).unwrap(), 1, 0), 0x00FFFFFF);
    let brush = GdiCreateSolidBrush(&mut gdi, 0x66);
    dc.brush = brush;
    assert!(GrePatBlt(&mut surfaces, &gdi, &dc, 4, 4, 1, 1, 0x00F00021));
    assert_eq!(px(surfaces.get(a).unwrap(), 4, 4), 0x66);
    dc.brush = 0;
    let pen = GdiCreatePen(&mut gdi, PenStyle::Solid, 1, 0x44);
    dc.pen = pen;
    assert!(GreRectangle(&mut surfaces, &gdi, &dc, 1, 1, 5, 5));
    let s = surfaces.get(a).unwrap();
    assert_eq!(px(s, 1, 1), 0x44);
    assert_eq!(px(s, 4, 4), 0x44);
    assert_eq!(px(s, 2, 2), 0);
    assert_eq!(px(s, 5, 5), 0);
}

#[test]
fn engine_copy_fill_and_line() {
    let mut surfaces = SurfaceTable::new();
    let a = EngCreateSurface(&mut surfaces, 4, 4, PIXEL_FORMAT_32BPP);
    let b = EngCreateSurface(&mut surfaces, 4, 4, PIXEL_FORMAT_32BPP);
    assert!(EngFillRectangle(&mut surfaces, a, -1, -1, 2, 2, 8));
    assert_eq!(painted(surfaces.get(a).unwrap(), 8), vec![(0, 0), (1, 0), (0, 1), (1, 1)]);
    assert!(EngCopyBits(&mut surfaces, b, a, 2, 2, 0, 0, 2, 2));
    assert_eq!(painted(surfaces.get(b).unwrap(), 8), vec![(2, 2), (3, 2), (2, 3), (3, 3)]);
    assert!(EngCopyBits(&mut surfaces, a, a, 2, 0, 0, 0, 2, 1));
    assert_eq!(px(surfaces.get(a).unwrap(), 3, 0), 8);
    assert!(EngLine(&mut surfaces, b, 0, 3, 3, 0, 9));
    assert_eq!(painted(surfaces.get(b).unwrap(), 9), vec![(3, 0), (2, 1), (1, 2), (0, 3)]);
    assert!(!EngFillRectangle(&mut surfaces, 77, 0, 0, 1, 1, 1));
    assert!(!EngCopyBits(&mut surfaces, 77, a, 0, 0, 0, 0, 1, 1));
    assert!(!EngLine(&mut surfaces, 0, 0, 0, 1, 1, 1));
    assert!(EngDeleteSurface(&mut surfaces, b));
    assert!(!EngDeleteSurface(&mut surfaces, b));
    assert_eq!(EngCreateSurface(&mut surfaces, 0, 4, PIXEL_FORMAT_32BPP), 0);
}

#[test]
fn engine_block_transfer_copies_bytes() {
    let mut src = allocate_surface(8, 2, 32).unwrap();
    let mut dst = allocate_surface(8, 2, 32).unwrap();
    assert!(set_pixel_on_surface(&mut src, 0, 0, 0x44332211));
    assert!(set_pixel_on_surface(&mut src, 1, 0, 0x88776655));
    assert!(eng_bit_blt(&mut dst, 1, 0, 3, 1, &src, 0, 0, 0));
    assert_eq!(get_pixel_from_surface(&dst, 0, 0), Some(0x33221100));
    assert_eq!(get_pixel_from_surface(&dst, 1, 0), Some(0));
    let mut none = EngSurface::new(4, 2, 32);
    assert!(!eng_bit_blt(&mut none, 0, 0, 1, 1, &src, 0, 0, 0));
}

#[test]
fn polygon_outline_closes_the_shape() {
    let mut surfaces = SurfaceTable::new();
    let a = EngCreateSurface(&mut surfaces, 5, 5, PIXEL_FORMAT_32BPP);
    let gdi = GdiState::new();
    let mut dc = DcObject::new();
    dc.surface = a;
    assert!(!polygon_outline(&mut surfaces, &gdi, &dc, &[(0, 0), (4, 0)]));
    assert!(polygon_outline(&mut surfaces, &gdi, &dc, &[(0, 0), (4, 0), (4, 4), (0, 4)]));
    let s = surfaces.get(a).unwrap();
    let zero = painted(s, 0).len();
    assert_eq!(zero, 25);
    let mut gdi2 = GdiState::new();
    let pen = GdiCreatePen(&mut gdi2, PenStyle::Solid, 1, 7);
    dc.pen = pen;
    assert!(polygon_outline(&mut surfaces, &gdi2, &dc, &[(0, 0), (4, 0), (4, 4), (0, 4)]));
    let s = surfaces.get(a).unwrap();
    assert_eq!(painted(s, 7).len(), 16);
    assert_eq!(px(s, 2, 2), 0);
    assert_eq!(px(s, 0, 2), 7);
}

#[test]
fn syscall_defaults() {
    assert_eq!(nt61::win32k::syscall::get_mb_ok(), 0);
    assert_eq!(nt61::win32k::syscall::get_idok(), 1);
}

#[test]
fn surface_rows_hold_four_bytes_a_pixel() {
    let mut s = allocate_surface(100, 100, 0x263).unwrap();
    assert_eq!(s.pitch, 400);
    assert!(set_pixel_on_surface(&mut s, 99, 99, 0x00FF00FF));
    assert_eq!(get_pixel_from_surface(&s, 99, 99), Some(0x00FF00FF));
    assert!(set_pixel_on_surface(&mut s, 99, 0, 5));
    assert_eq!(get_pixel_from_surface(&s, 0, 1), Some(0));
    assert_eq!(EngSurface::new(7, 1, 32).pitch, 28);
}

#[test]
fn thin_line_to_is_drawn_here() {
    let mut surfaces = SurfaceTable::new();
    let a = EngCreateSurface(&mut surfaces, 4, 4, PIXEL_FORMAT_32BPP);
    let mut gdi = GdiState::new();
    let mut dc = DcObject::new();
    dc.surface = a;
    dc.pen = GdiCreatePen(&mut gdi, PenStyle::Solid, 1, 6);
    assert_eq!(nt61::win32k::gdi_ops::line_to_thin(&mut surfaces, &gdi, &dc, 3, 3), Some(true));
    assert_eq!(painted(surfaces.get(a).unwrap(), 6), vec![(0, 0), (1, 1), (2, 2), (3, 3)]);
    dc.pen = GdiCreatePen(&mut gdi, PenStyle::Solid, 3, 8);
    assert_eq!(nt61::win32k::gdi_ops::line_to_thin(&mut surfaces, &gdi, &dc, 3, 0), None);
    assert_eq!(painted(surfaces.get(a).unwrap(), 8).len(), 0);
    dc.pen = 0;
    dc.surface = 55;
    assert_eq!(nt61::win32k::gdi_ops::line_to_thin(&mut surfaces, &gdi, &dc, 3, 0), Some(false));
}
