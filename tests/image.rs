use raytracer::image::Image;

#[test]
fn new_image_is_zeroed() {
    let img = Image::new(3, 2);
    assert_eq!(img.width(), 3);
    assert_eq!(img.height(), 2);
    assert_eq!(img.pixels().len(), 24);
    assert!(img.pixels().iter().all(|&b| b == 0));
}

#[test]
fn empty_image_has_no_bytes() {
    let img = Image::new(0, 5);
    assert_eq!(img.pixels().len(), 0);
}

#[test]
fn draw_writes_one_opaque_pixel_row_major() {
    let mut img = Image::new(3, 2);
    img.draw(1, 1, 10, 20, 30);
    let p = img.pixels();
    assert_eq!(&p[16..20], &[10, 20, 30, 255]);
    for (i, &b) in p.iter().enumerate() {
        if !(16..20).contains(&i) {
            assert_eq!(b, 0, "byte {} changed", i);
        }
    }
}

#[test]
fn draw_top_left_and_bottom_right() {
    let mut img = Image::new(2, 2);
    img.draw(0, 0, 1, 2, 3);
    img.draw(1, 1, 4, 5, 6);
    assert_eq!(
        img.pixels(),
        &[1, 2, 3, 255, 0, 0, 0, 0, 0, 0, 0, 0, 4, 5, 6, 255]
    );
}

#[test]
fn render_fills_every_pixel_from_shader() {
    let mut img = Image::new(3, 2);
    img.render(|x, y| (x as u8, y as u8, 7));
    let p = img.pixels();
    for y in 0..2usize {
        for x in 0..3usize {
            let i = (y * 3 + x) * 4;
            assert_eq!(&p[i..i + 4], &[x as u8, y as u8, 7, 255]);
        }
    }
}

#[test]
fn render_twice_is_byte_identical() {
    let shade = |x: usize, y: usize| ((x * 31 + y) as u8, (y * 17) as u8, (x ^ y) as u8);
    let mut a = Image::new(5, 4);
    let mut b = Image::new(5, 4);
    b.draw(2, 3, 99, 99, 99);
    a.render(shade);
    b.render(shade);
    assert_eq!(a.pixels(), b.pixels());
    a.render(shade);
    assert_eq!(a.pixels(), b.pixels());
}

#[test]
fn render_overwrites_earlier_contents() {
    let mut img = Image::new(2, 1);
    img.draw(0, 0, 200, 200, 200);
    img.render(|_, _| (0, 0, 0));
    assert_eq!(img.pixels(), &[0, 0, 0, 255, 0, 0, 0, 255]);
}
