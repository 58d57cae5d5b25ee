use pixel_stream::convert::{
    check_ipsi_dimensions, crop_to_aspect_bounds, parse_downscale_mode, parse_size, scale_ceil, scale_floor,
    used_palette_entries, DownscaleMode, IpsiSizeError, OutputSize,
};
use pixel_stream::convert_args::{Args, ArgsStep, DitherChoice};
use pixel_stream::ipsi::{encode_ipsi, validate_image, validate_recording, IpsiError};
use pixel_stream::lab_html::{extract_raw_html, player_html, viewer_html, VIEWER_HTML};
use pixel_stream::palette_lab_page::palette_lab_html;
use pixel_stream::stream_state::{
    fallback_token_bytes, hex_encode, make_session_token, valid_custom_dimensions, AudioSyncMode,
    CustomStreamState, DirectStreamAudioSyncConfig,
};
use pixel_stream::swatch::{greyscale_index_for_row, palette_swatch_pixels, SlotGrid};

fn args(raw: &[&str]) -> Result<Args, String> {
    let raw: Vec<String> = raw.iter().map(|s| s.to_string()).collect();
    let mut outcomes: Vec<Result<u32, String>> = Vec::new();
    loop {
        match Args::parse(&raw, &outcomes) {
            ArgsStep::Done(result) => return result,
            ArgsStep::NeedDitherStrength { arg_index } => {
                let outcome = match raw[arg_index].parse::<f32>() {
                    Err(_) => Err("dither strength must be a number".to_owned()),
                    Ok(s) if !s.is_finite() || !(0.0..=1.0).contains(&s) => {
                        Err("dither strength must be a finite number from 0 to 1".to_owned())
                    }
                    Ok(s) => Ok(s.to_bits()),
                };
                outcomes.push(outcome);
            }
        }
    }
}

#[test]
fn positional_paths_and_defaults() {
    let a = args(&["in.png", "out.ipsi", "pal.toml"]).expect("parses");
    assert_eq!((a.input.as_str(), a.output.as_str(), a.palette.as_str()), ("in.png", "out.ipsi", "pal.toml"));
    assert_eq!(a.size, Some(OutputSize { width: 128, height: 128 }));
    assert_eq!(a.dither, DitherChoice::Default);
    assert_eq!(a.downscale_mode, DownscaleMode::OklchAverage);
}

#[test]
fn options_override_positionals() {
    let a = args(&[
        "in.png", "--output", "o.ipsi", "-p", "p.toml", "--size", "64X32", "--dither-strength", "0.5",
        "--downscale", "hue2x2",
    ])
    .expect("parses");
    assert_eq!(a.output, "o.ipsi");
    assert_eq!(a.palette, "p.toml");
    assert_eq!(a.size, Some(OutputSize { width: 64, height: 32 }));
    assert_eq!(a.dither, DitherChoice::Strength(0.5f32.to_bits()));
    assert_eq!(a.downscale_mode, DownscaleMode::Solve2x2Hue);
    let b = args(&["a", "b", "c", "--original-size", "--no-dither"]).expect("parses");
    assert_eq!(b.size, None);
    assert_eq!(b.dither, DitherChoice::Off);
}

#[test]
fn argument_errors() {
    assert_eq!(args(&["--bogus"]).err().as_deref(), Some("unknown option: --bogus"));
    assert_eq!(args(&["-h"]).err().as_deref(), Some("Convert a PNG to an IPSI indexed image."));
    assert_eq!(args(&["a", "--size"]).err().as_deref(), Some("--size needs a value like 128x128"));
    assert_eq!(args(&["a", "--size", "0x5"]).err().as_deref(), Some("size dimensions must be greater than zero"));
    assert_eq!(args(&["a", "--dither-strength", "2"]).err().as_deref(), Some("dither strength must be a finite number from 0 to 1"));
    assert_eq!(args(&["a", "--downscale", "x"]).err().as_deref(), Some("downscale mode must be average, majority, minority, solve2x2, or solve2x2-hue"));
    assert_eq!(args(&[]).err().as_deref(), Some("missing input PNG path"));
    assert_eq!(args(&["a"]).err().as_deref(), Some("missing output IPSI path"));
    assert_eq!(args(&["a", "b"]).err().as_deref(), Some("missing palette TOML path"));
    assert_eq!(args(&["a", "b", "--palette"]).err().as_deref(), Some("missing palette TOML path"));
    assert_eq!(args(&["a", "b", "c", "--palette"]).expect("parses").palette, "c");
}

#[test]
fn sizes_and_modes() {
    assert_eq!(parse_size("128x96"), Ok(OutputSize { width: 128, height: 96 }));
    assert_eq!(parse_size("+3x4"), Ok(OutputSize { width: 3, height: 4 }));
    assert_eq!(parse_size("12"), Err("size must look like 128x128".to_owned()));
    assert_eq!(parse_size("ax1"), Err("size width must be a whole number".to_owned()));
    assert_eq!(parse_size("1x"), Err("size height must be a whole number".to_owned()));
    assert_eq!(parse_size("70000x1"), Err("IPSI images are limited to 65535x65535".to_owned()));
    assert_eq!(parse_downscale_mode("majority-rules"), Ok(DownscaleMode::Majority));
    assert_eq!(DownscaleMode::Minority.name(), "minority");
}

#[test]
fn scaling_and_cropping() {
    assert_eq!(scale_floor(3, 10, 4), 7);
    assert_eq!(scale_ceil(3, 10, 4), 8);
    assert_eq!(scale_ceil(2, 10, 4), 5);
    assert_eq!(crop_to_aspect_bounds(200, 100, OutputSize { width: 1, height: 1 }), (50, 0, 100, 100));
    assert_eq!(crop_to_aspect_bounds(100, 200, OutputSize { width: 1, height: 1 }), (0, 50, 100, 100));
    assert_eq!(crop_to_aspect_bounds(64, 32, OutputSize { width: 2, height: 1 }), (0, 0, 64, 32));
    assert_eq!(check_ipsi_dimensions(0, 4), Err(IpsiSizeError::Empty));
    assert_eq!(check_ipsi_dimensions(70000, 4), Err(IpsiSizeError::TooLarge));
    assert_eq!(check_ipsi_dimensions(7, 4), Ok((7, 4)));
    assert_eq!(used_palette_entries(&[0, 2, 2, 9], 4), 2);
}

#[test]
fn ipsi_images_round_trip_through_validation() {
    let image = encode_ipsi(2, 1, &[[1, 2, 3, 4]], &[0, 0]);
    assert_eq!(image, vec![73, 80, 83, 73, 1, 2, 0, 1, 0, 1, 0, 1, 2, 3, 4, 0, 0]);
    assert_eq!(validate_image(image.clone()), Ok(image.clone()));
    assert_eq!(validate_image(image[..16].to_vec()), Err(IpsiError::Truncated));
    assert_eq!(validate_image(b"PNG.........".to_vec()), Err(IpsiError::MissingHeader));
    assert_eq!(validate_recording(b"IPSC12345678".to_vec()), Ok(b"IPSC12345678".to_vec()));
    assert_eq!(validate_recording(b"IPSC".to_vec()), Err(IpsiError::MissingHeader));
}

#[test]
fn pages_are_assembled() {
    assert_eq!(viewer_html(), VIEWER_HTML);
    let page = player_html(24);
    assert!(page.contains("24"));
    assert!(page.starts_with("<!doctype html>"));
    let lab = palette_lab_html("0.2576833");
    assert!(lab.contains("const oklchMaxChroma = 0.2576833;"));
    assert!(!lab.contains("__OKLCH_MAX_CHROMA__"));
    assert_eq!(extract_raw_html("x r#\"<p>hi</p>\"# y", "r#\"", "\"#"), "<p>hi</p>");
}

#[test]
fn custom_stream_dimensions_and_state() {
    assert!(valid_custom_dimensions(128, 128, 30));
    assert!(!valid_custom_dimensions(128, 120, 30));
    assert!(!valid_custom_dimensions(132, 132, 30));
    assert!(!valid_custom_dimensions(128, 128, 61));
    let mut state = CustomStreamState::new("token".to_owned());
    state.set_fps(0);
    assert_eq!(state.fps(), 1);
    state.set_audio_delay_ms(20_000);
    assert_eq!(state.audio_delay_ms(), 10_000);
    assert_eq!(state.session_token(), "token");
}

#[test]
fn audio_delay_follows_the_mode() {
    let fixed = DirectStreamAudioSyncConfig::default();
    assert_eq!(fixed.effective_delay_ms(50, Some(70)), 1_000);
    let measured = DirectStreamAudioSyncConfig {
        mode: AudioSyncMode::MatchMeasuredVideoLatency,
        fixed_delay_ms: 0,
        extra_delay_ms: -100,
    };
    assert_eq!(measured.effective_delay_ms(50, Some(70)), 0);
    assert_eq!(measured.effective_delay_ms(500, None), 400);
}

#[test]
fn session_tokens_are_hex() {
    assert_eq!(hex_encode(&[0x00, 0xab, 0x7f]), "00ab7f");
    let token = make_session_token(0);
    assert_eq!(token.len(), 48);
    assert!(token.bytes().all(|b| b.is_ascii_hexdigit() && !b.is_ascii_uppercase()));
    let bytes = fallback_token_bytes(0x0102);
    assert_eq!(&bytes[..3], &[2, 1, 0]);
    assert_eq!(bytes[16], 2);

    let random = [0xabu8; 24];
    assert_eq!(pixel_stream::stream_state::session_token_from(true, &random, 0x0102), "ab".repeat(24));
    let fallback = pixel_stream::stream_state::session_token_from(false, &random, 0x0102);
    assert_eq!(&fallback[..6], "020100");
    assert_eq!(&fallback[32..34], "02");
}

#[test]
fn swatch_layout() {
    assert!(SlotGrid::new(vec![true; 10]).is_none());
    let grid = SlotGrid::new(vec![true; 960]).expect("full grid");
    let pixels = palette_swatch_pixels(&grid);
    assert_eq!(pixels.len(), 61 * 16);
    assert_eq!(greyscale_index_for_row(0), 15);
    assert_eq!(greyscale_index_for_row(15), 0);
    assert_eq!(pixels[60], 15);
    assert_eq!(pixels[15 * 61 + 60], 0);
}

#[test]
fn demo_plays_known_video_files() {
    assert!(pixel_stream::demo_video::is_supported_demo_video("clip.MP4"));
    assert!(pixel_stream::demo_video::is_supported_demo_video("a/b/movie.webm"));
    assert!(pixel_stream::demo_video::is_supported_demo_video("archive.tar.avi"));
    assert!(!pixel_stream::demo_video::is_supported_demo_video("song.mp3"));
    assert!(!pixel_stream::demo_video::is_supported_demo_video("noext"));
    assert!(!pixel_stream::demo_video::is_supported_demo_video(".mkv"));
    assert!(pixel_stream::demo_video::is_supported_video_extension("MkV"));
    assert!(!pixel_stream::demo_video::is_supported_video_extension("mkv "));
}
