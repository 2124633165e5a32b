use ecs_change::color::adobe_rgb::ARGB;
use ecs_change::color::alpha::Transparent;
use ecs_change::color::hex::{hex_rgba_u8, HexColorError};
use ecs_change::color::hsl::HSL;
use ecs_change::color::hsv::HSV;
use ecs_change::color::lab::LAB;
use ecs_change::color::lch::LCH;
use ecs_change::color::oklab::Oklab;
use ecs_change::color::oklch::Oklch;
use ecs_change::color::rgb::RGB;
use ecs_change::color::srgb::SRGB;
use ecs_change::color::xyz::XYZ;
use ecs_change::color::{rgb_u8, rgba_u8};

#[test]
fn rgb_channels_and_builders() {
    let c = RGB::new(1u8, 2, 3);
    assert_eq!((c.r(), c.g(), c.b()), (1, 2, 3));
    let c = c.with_r(9).with_b(7);
    assert_eq!((c.r(), c.g(), c.b()), (9, 2, 7));
    let mut c = c;
    c.set_g(5).set_r(4);
    assert_eq!((c.r(), c.g(), c.b()), (4, 5, 7));
}

#[test]
fn rgba_u8_builds_transparent() {
    let c = rgba_u8(10, 20, 30, 40);
    assert_eq!(c.a(), 40);
    let mut c = c.with_a(41);
    c.set_a(42);
    assert_eq!(c.a(), 42);
    let inner = c.color();
    assert_eq!((inner.r(), inner.g(), inner.b()), (10, 20, 30));
    let d = rgb_u8(1, 2, 3);
    assert_eq!(d.g(), 2);
    let mut t = Transparent::new(d, 7u8).with_color(rgb_u8(4, 5, 6));
    t.set_color(rgb_u8(7, 8, 9));
    assert_eq!(t.color().b(), 9);
}

#[test]
fn other_spaces_keep_channels() {
    let a = ARGB::new(1u16, 2, 3).with_g(8);
    assert_eq!((a.r(), a.g(), a.b()), (1, 8, 3));
    let mut h = HSL::new(10u32, 20, 30);
    h.set_h(11).set_s(21).set_l(31);
    assert_eq!((h.h(), h.s(), h.l()), (11, 21, 31));
    let v = HSV::new(1i32, 2, 3).with_v(-3).with_h(4).with_s(5);
    assert_eq!((v.h(), v.s(), v.v()), (4, 5, -3));
    let l = LAB::new(1u8, 2, 3).with_ax(7).with_bx(8).with_l(9);
    assert_eq!((l.l(), l.ax(), l.bx()), (9, 7, 8));
    let mut c = LCH::new(1u8, 2, 3).with_c(4).with_h(5).with_l(6);
    c.set_c(14);
    assert_eq!((c.l(), c.c(), c.h()), (6, 14, 5));
    let mut o = Oklab::new(1u8, 2, 3);
    o.set_ax(20).set_bx(30).set_l(10);
    assert_eq!((o.l(), o.ax(), o.bx()), (10, 20, 30));
    let mut k = Oklch::new(1u8, 2, 3).with_l(0).with_c(0).with_h(0);
    k.set_l(1).set_c(2).set_h(3);
    assert_eq!((k.l(), k.c(), k.h()), (1, 2, 3));
    let mut s = SRGB::new(1u8, 2, 3).with_r(0).with_g(0).with_b(0);
    s.set_r(4).set_g(5).set_b(6);
    assert_eq!((s.r(), s.g(), s.b()), (4, 5, 6));
    let mut x = XYZ::new(1u8, 2, 3).with_x(7).with_y(8).with_z(9);
    x.set_x(1).set_y(2).set_z(3);
    assert_eq!((x.x(), x.y(), x.z()), (1, 2, 3));
    let mut a = ARGB::new(0u8, 0, 0).with_r(1).with_b(3);
    a.set_r(4).set_g(5).set_b(6);
    assert_eq!((a.r(), a.g(), a.b()), (4, 5, 6));
    let mut r = RGB::new(0u8, 0, 0);
    r.set_b(2);
    assert_eq!(r.b(), 2);
    let mut hv = HSV::new(0u8, 0, 0);
    hv.set_h(1).set_s(2).set_v(3);
    assert_eq!((hv.h(), hv.s(), hv.v()), (1, 2, 3));
    let mut lb = LAB::new(0u8, 0, 0);
    lb.set_l(1).set_ax(2).set_bx(3);
    assert_eq!((lb.l(), lb.ax(), lb.bx()), (1, 2, 3));
    let mut lc = LCH::new(0u8, 0, 0);
    lc.set_l(1).set_h(3);
    assert_eq!((lc.l(), lc.h()), (1, 3));
    let ok = Oklab::new(0u8, 0, 0).with_l(1).with_ax(2).with_bx(3);
    assert_eq!((ok.l(), ok.ax(), ok.bx()), (1, 2, 3));
    let hs = HSL::new(0u8, 0, 0).with_h(1).with_s(2).with_l(3);
    assert_eq!((hs.h(), hs.s(), hs.l()), (1, 2, 3));
}

fn rgba(c: &Transparent<RGB<u8>, u8>) -> (u8, u8, u8, u8) {
    let alpha = c.a();
    let (r, g, b) = (c.r(), c.g(), c.b());
    (r, g, b, alpha)
}

#[test]
fn hex_color() {
    assert_eq!(hex_rgba_u8("FFF").map(|c| rgba(&c)), Ok((255, 255, 255, 255)));
    assert_eq!(hex_rgba_u8("FFFF").map(|c| rgba(&c)), Ok((255, 255, 255, 255)));
    assert_eq!(hex_rgba_u8("FFFFFF").map(|c| rgba(&c)), Ok((255, 255, 255, 255)));
    assert_eq!(hex_rgba_u8("FFFFFFFF").map(|c| rgba(&c)), Ok((255, 255, 255, 255)));
    assert_eq!(hex_rgba_u8("000").map(|c| rgba(&c)), Ok((0, 0, 0, 255)));
    assert_eq!(hex_rgba_u8("000F").map(|c| rgba(&c)), Ok((0, 0, 0, 255)));
    assert_eq!(hex_rgba_u8("000000").map(|c| rgba(&c)), Ok((0, 0, 0, 255)));
    assert_eq!(hex_rgba_u8("000000FF").map(|c| rgba(&c)), Ok((0, 0, 0, 255)));
    assert_eq!(hex_rgba_u8("03a9f4").map(|c| rgba(&c)), Ok((3, 169, 244, 255)));
    assert_eq!(hex_rgba_u8("yyy").map(|c| rgba(&c)), Err(HexColorError::Char('y')));
    assert_eq!(hex_rgba_u8("#f2a").map(|c| rgba(&c)), Ok((255, 34, 170, 255)));
    assert_eq!(hex_rgba_u8("#e23030").map(|c| rgba(&c)), Ok((226, 48, 48, 255)));
    assert_eq!(hex_rgba_u8("#ff").map(|c| rgba(&c)), Err(HexColorError::Length));
    assert_eq!(hex_rgba_u8("##fff").map(|c| rgba(&c)), Err(HexColorError::Char('#')));
    assert_eq!(hex_rgba_u8("12345678").map(|c| rgba(&c)), Ok((0x12, 0x34, 0x56, 0x78)));
}
