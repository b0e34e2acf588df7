use roi_pipeline::bbox::BoundingBox;

#[test]
fn clamp_moves_edges_into_the_frame() {
    let b = BoundingBox::new(-10, -20, 700, 500).clamp(640, 480);
    assert_eq!(b, BoundingBox::new(0, 0, 639, 479));
}

#[test]
fn clamp_keeps_a_box_inside_the_frame() {
    let b = BoundingBox::new(10, 20, 30, 40);
    assert_eq!(b.clamp(640, 480), b);
    assert_eq!(b.clamp(31, 41), b);
}

#[test]
fn clamp_pulls_the_high_edge_up_to_the_low_edge() {
    // The low edge is clamped first; the high edge never ends up below it.
    assert_eq!(BoundingBox::new(30, 40, 10, 20).clamp(640, 480), BoundingBox::new(30, 40, 30, 40));
    assert_eq!(BoundingBox::new(5, 5, -3, -3).clamp(8, 8), BoundingBox::new(5, 5, 5, 5));
}

#[test]
fn clamp_of_a_box_beyond_the_frame_is_the_last_pixel() {
    assert_eq!(
        BoundingBox::new(1000, 1000, 2000, 2000).clamp(640, 480),
        BoundingBox::new(639, 479, 639, 479)
    );
    assert_eq!(
        BoundingBox::new(-2000, -2000, -1000, -1000).clamp(640, 480),
        BoundingBox::new(0, 0, 0, 0)
    );
}

#[test]
fn clamp_at_the_limits_of_the_coordinates() {
    let b = BoundingBox::new(i32::MIN, i32::MIN, i32::MAX, i32::MAX);
    assert_eq!(b.clamp(4, 4), BoundingBox::new(0, 0, 3, 3));
    assert_eq!(
        b.clamp(u32::MAX, u32::MAX),
        BoundingBox::new(0, 0, i32::MAX, i32::MAX)
    );
    assert_eq!(b.clamp(1, 1), BoundingBox::new(0, 0, 0, 0));
}

#[test]
fn clamp_is_idempotent() {
    let boxes = [
        BoundingBox::new(-10, -20, 700, 500),
        BoundingBox::new(30, 40, 10, 20),
        BoundingBox::new(1, 1, 2, 2),
        BoundingBox::new(1000, -5, 3, 9000),
    ];
    for b in boxes {
        let once = b.clamp(640, 480);
        assert_eq!(once.clamp(640, 480), once);
    }
}

#[test]
fn clamped_box_is_never_empty() {
    let b = BoundingBox::new(9, 9, 2, 2);
    assert!(b.empty());
    assert!(!b.clamp(16, 16).empty());
}

#[test]
fn empty_means_a_high_edge_below_a_low_edge() {
    assert!(!BoundingBox::new(0, 0, 0, 0).empty());
    assert!(!BoundingBox::new(1, 1, 2, 2).empty());
    assert!(BoundingBox::new(1, 0, 0, 3).empty());
    assert!(BoundingBox::new(0, 3, 3, 2).empty());
}

#[test]
fn contains_is_inclusive_on_both_ends() {
    let b = BoundingBox::new(1, 1, 2, 2);
    assert!(b.contains_pixel(1, 1));
    assert!(b.contains_pixel(2, 2));
    assert!(b.contains_pixel(1, 2));
    assert!(!b.contains_pixel(0, 1));
    assert!(!b.contains_pixel(3, 2));
    assert!(!b.contains_pixel(1, 0));
    assert!(!b.contains_pixel(2, 3));
    assert!(!BoundingBox::new(-4, -4, -1, -1).contains_pixel(0, 0));
    assert!(BoundingBox::new(-4, -4, 0, 0).contains_pixel(0, 0));
    assert!(!BoundingBox::new(0, 0, i32::MAX, i32::MAX).contains_pixel(u32::MAX, 0));
}

#[test]
fn covers_frame_needs_every_pixel() {
    assert!(BoundingBox::new(0, 0, 3, 3).covers_frame(4, 4));
    assert!(BoundingBox::new(-1, -1, 10, 10).covers_frame(4, 4));
    assert!(!BoundingBox::new(0, 0, 3, 2).covers_frame(4, 4));
    assert!(!BoundingBox::new(1, 0, 3, 3).covers_frame(4, 4));
    assert!(!BoundingBox::new(0, 0, i32::MAX, i32::MAX).covers_frame(u32::MAX, 4));
}

#[test]
fn chroma_box_halves_and_rounds_down() {
    assert_eq!(BoundingBox::new(1, 1, 2, 2).chroma_box(), BoundingBox::new(0, 0, 1, 1));
    assert_eq!(BoundingBox::new(2, 2, 3, 3).chroma_box(), BoundingBox::new(1, 1, 1, 1));
    assert_eq!(BoundingBox::new(0, 0, 639, 479).chroma_box(), BoundingBox::new(0, 0, 319, 239));
    assert_eq!(BoundingBox::new(3, 5, 7, 9).chroma_box(), BoundingBox::new(1, 2, 3, 4));
}

#[test]
fn chroma_box_rounds_negative_coordinates_down() {
    assert_eq!(BoundingBox::new(-1, -3, 1, 3).chroma_box(), BoundingBox::new(-1, -2, 0, 1));
    assert_eq!(BoundingBox::new(-5, -4, -1, -2).chroma_box(), BoundingBox::new(-3, -2, -1, -1));
    assert_eq!(
        BoundingBox::new(i32::MIN, i32::MIN, i32::MAX, i32::MAX).chroma_box(),
        BoundingBox::new(-1073741824, -1073741824, 1073741823, 1073741823)
    );
}

#[test]
fn chroma_box_of_an_empty_box_is_empty() {
    // Halving alone would make (1, 0, 0, 3) into (0, 0, 0, 1), which holds samples.
    assert!(BoundingBox::new(1, 0, 0, 3).chroma_box().empty());
    assert!(BoundingBox::new(0, 3, 3, 2).chroma_box().empty());
    assert_eq!(BoundingBox::new(9, 9, 2, 2).chroma_box(), BoundingBox::new(0, 0, -1, -1));
}

#[test]
fn chroma_box_holds_the_sample_of_every_pixel_of_the_box() {
    let b = BoundingBox::new(3, 1, 6, 4);
    let c = b.chroma_box();
    for y in 0..8u32 {
        for x in 0..8u32 {
            if b.contains_pixel(x, y) {
                assert!(c.contains_pixel(x / 2, y / 2));
            }
            let far = (x as i32) < b.x1 - 1 || b.x2 + 1 < x as i32 || (y as i32) < b.y1 - 1
                || b.y2 + 1 < y as i32;
            if far {
                assert!(!c.contains_pixel(x / 2, y / 2));
            }
        }
    }
}
