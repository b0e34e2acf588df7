use roi_pipeline::encoder::configure;
use roi_pipeline::source::PixelFormat;
use roi_pipeline::source::SourceInfo;
use roi_pipeline::encoder::DEFAULT_BIT_RATE;
use roi_pipeline::error::ErrorKind;
use roi_pipeline::timing::Rational;

fn source() -> SourceInfo {
    SourceInfo {
        width: 640,
        height: 480,
        pixel_format: PixelFormat::Yuv420p,
        aspect_ratio: Rational::new(4, 3),
        time_base: Rational::new(1, 12800),
        frame_rate: Some(Rational::new(25, 1)),
    }
}

#[test]
fn configuration_mirrors_the_source() {
    let config = configure(&source(), Some(2_500_000)).unwrap();
    assert_eq!(config.width, 640);
    assert_eq!(config.height, 480);
    assert_eq!(config.pixel_format, PixelFormat::Yuv420p);
    assert_eq!(config.aspect_ratio, Rational::new(4, 3));
    assert_eq!(config.frame_rate, Rational::new(25, 1));
    assert_eq!(config.time_base, Rational::new(1, 25));
    assert_eq!(config.bit_rate, 2_500_000);
}

#[test]
fn encoder_has_no_reordered_frames_and_a_global_header() {
    let config = configure(&source(), None).unwrap();
    assert_eq!(config.max_b_frames, 0);
    assert!(config.global_header);
}

#[test]
fn bit_rate_defaults_to_one_megabit() {
    assert_eq!(DEFAULT_BIT_RATE, 1_000_000);
    assert_eq!(configure(&source(), None).unwrap().bit_rate, 1_000_000);
    assert_eq!(configure(&source(), Some(0)).unwrap().bit_rate, 0);
}

#[test]
fn missing_frame_rate_defaults_to_thirty() {
    let mut info = source();
    info.frame_rate = None;
    let config = configure(&info, None).unwrap();
    assert_eq!(config.frame_rate, Rational::new(30, 1));
    assert_eq!(config.time_base, Rational::new(1, 30));
    info.frame_rate = Some(Rational::new(0, 1));
    let config = configure(&info, None).unwrap();
    assert_eq!(config.frame_rate, Rational::new(30, 1));
    assert_eq!(config.time_base, Rational::new(1, 30));
}

#[test]
fn time_base_does_not_follow_the_source_time_base() {
    let mut info = source();
    info.time_base = Rational::new(1, 90000);
    assert_eq!(configure(&info, None).unwrap().time_base, Rational::new(1, 25));
}

#[test]
fn other_pixel_formats_are_refused() {
    let mut info = source();
    info.pixel_format = PixelFormat::Other;
    assert_eq!(configure(&info, None).err(), Some(ErrorKind::CodecError));
}

#[test]
fn odd_geometry_is_refused() {
    let mut info = source();
    info.width = 641;
    assert_eq!(configure(&info, None).err(), Some(ErrorKind::CodecError));
    let mut info = source();
    info.height = 479;
    assert_eq!(configure(&info, None).err(), Some(ErrorKind::CodecError));
}
