use roi_pipeline::error::ErrorKind;
use roi_pipeline::frame::Frame;

fn planes(y: usize, uv: usize) -> (Vec<u8>, Vec<u8>, Vec<u8>) {
    (vec![1; y], vec![2; uv], vec![3; uv])
}

#[test]
fn packed_frame_is_accepted() {
    let (y, u, v) = planes(16, 4);
    let frame = Frame::new(4, 4, 4, 2, 2, y, u, v, 7).unwrap();
    assert_eq!(frame.width(), 4);
    assert_eq!(frame.height(), 4);
    assert_eq!(frame.y_stride(), 4);
    assert_eq!(frame.u_stride(), 2);
    assert_eq!(frame.v_stride(), 2);
    assert_eq!(frame.pts(), 7);
    assert_eq!(frame.y_plane(), &vec![1u8; 16]);
    assert_eq!(frame.u_plane(), &vec![2u8; 4]);
    assert_eq!(frame.v_plane(), &vec![3u8; 4]);
}

#[test]
fn samples_are_found_by_row_times_stride_plus_column() {
    let y: Vec<u8> = (0..24).collect();
    let u: Vec<u8> = (100..106).collect();
    let v: Vec<u8> = (200..208).collect();
    let frame = Frame::new(4, 4, 6, 3, 4, y, u, v, 0).unwrap();
    assert_eq!(frame.luma(0, 0), 0);
    assert_eq!(frame.luma(3, 0), 3);
    assert_eq!(frame.luma(0, 1), 6);
    assert_eq!(frame.luma(2, 3), 20);
    assert_eq!(frame.cb(0, 0), 100);
    assert_eq!(frame.cb(1, 1), 104);
    assert_eq!(frame.cr(1, 0), 201);
    assert_eq!(frame.cr(0, 1), 204);
}

#[test]
fn odd_width_or_height_is_refused() {
    let (y, u, v) = planes(64, 64);
    assert_eq!(
        Frame::new(3, 4, 4, 2, 2, y.clone(), u.clone(), v.clone(), 0).err(),
        Some(ErrorKind::CodecError)
    );
    assert_eq!(Frame::new(4, 5, 4, 2, 2, y, u, v, 0).err(), Some(ErrorKind::CodecError));
}

#[test]
fn stride_shorter_than_a_row_is_refused() {
    let (y, u, v) = planes(64, 64);
    assert_eq!(
        Frame::new(4, 4, 3, 2, 2, y.clone(), u.clone(), v.clone(), 0).err(),
        Some(ErrorKind::CodecError)
    );
    assert_eq!(
        Frame::new(4, 4, 4, 1, 2, y.clone(), u.clone(), v.clone(), 0).err(),
        Some(ErrorKind::CodecError)
    );
    assert_eq!(Frame::new(4, 4, 4, 2, 1, y, u, v, 0).err(), Some(ErrorKind::CodecError));
}

#[test]
fn plane_that_is_too_short_is_refused() {
    let (y, u, v) = planes(16, 4);
    assert_eq!(
        Frame::new(4, 4, 4, 2, 2, vec![0; 15], u.clone(), v.clone(), 0).err(),
        Some(ErrorKind::CodecError)
    );
    assert_eq!(
        Frame::new(4, 4, 4, 2, 2, y.clone(), vec![0; 3], v.clone(), 0).err(),
        Some(ErrorKind::CodecError)
    );
    assert_eq!(
        Frame::new(4, 4, 4, 2, 2, y.clone(), u.clone(), vec![0; 3], 0).err(),
        Some(ErrorKind::CodecError)
    );
    assert_eq!(
        Frame::new(4, 4, 6, 2, 2, y, u, v, 0).err(),
        Some(ErrorKind::CodecError)
    );
}

#[test]
fn planes_may_be_longer_than_their_rows() {
    let frame = Frame::new(2, 2, 4, 3, 3, vec![9; 20], vec![8; 10], vec![7; 3], -5).unwrap();
    assert_eq!(frame.luma(1, 1), 9);
    assert_eq!(frame.cb(0, 0), 8);
    assert_eq!(frame.cr(0, 0), 7);
    assert_eq!(frame.pts(), -5);
}

#[test]
fn frame_without_pixels_is_accepted() {
    let frame = Frame::new(0, 0, 0, 0, 0, Vec::new(), Vec::new(), Vec::new(), 0).unwrap();
    assert_eq!(frame.width(), 0);
    assert_eq!(frame.height(), 0);
}

#[test]
fn huge_geometry_does_not_overflow_the_size_check() {
    let r = Frame::new(
        u32::MAX - 1,
        u32::MAX - 1,
        usize::MAX,
        usize::MAX,
        usize::MAX,
        vec![0; 4],
        vec![0; 4],
        vec![0; 4],
        0,
    );
    assert_eq!(r.err(), Some(ErrorKind::CodecError));
}

#[test]
fn set_pts_changes_the_timestamp_only() {
    let (y, u, v) = planes(16, 4);
    let mut frame = Frame::new(4, 4, 4, 2, 2, y, u, v, 7).unwrap();
    frame.set_pts(42);
    assert_eq!(frame.pts(), 42);
    assert_eq!(frame.y_plane(), &vec![1u8; 16]);
    assert_eq!(frame.u_plane(), &vec![2u8; 4]);
    assert_eq!(frame.v_plane(), &vec![3u8; 4]);
    assert_eq!(frame.width(), 4);
}
