use pixel_stream::frames::DirectStreamFrame;
use pixel_stream::stream_control::{
    decimal_digit_bytes, start_refusal, StartRefusal, StreamControl, StreamControlInput, StreamKey,
};
use pixel_stream::stream_state::{
    valid_custom_dimensions, AudioSyncMode, DirectStreamAudioSyncConfig, DirectStreamControlAction, DirectStreamMode,
    DirectStreamStartRequest, DirectStreamState,
};

#[test]
fn new_panel_shows_configured_values() {
    let control = StreamControl::new(256, 128, 5);
    assert_eq!(control.field_text(StreamControlInput::CustomWidth), "256");
    assert_eq!(control.field_text(StreamControlInput::CustomHeight), "128");
    assert_eq!(control.field_text(StreamControlInput::CustomFps), "5");
    assert_eq!(control.status(), "Ready");
    assert_eq!(control.focused_input(), None);
}

#[test]
fn typing_keeps_only_digits() {
    let mut control = StreamControl::new(64, 64, 5);
    control.push_focused_text(StreamControlInput::CustomFps, "1a2é3 ");
    assert_eq!(control.field_text(StreamControlInput::CustomFps), "5123");
    control.pop_focused_text(StreamControlInput::CustomFps);
    assert_eq!(control.field_text(StreamControlInput::CustomFps), "512");
    control.pop_focused_text(StreamControlInput::CustomWidth);
    control.pop_focused_text(StreamControlInput::CustomWidth);
    control.pop_focused_text(StreamControlInput::CustomWidth);
    assert_eq!(control.field_text(StreamControlInput::CustomWidth), "");
}

#[test]
fn keys_go_to_the_focused_box_only() {
    let mut control = StreamControl::new(64, 64, 5);
    control.type_key(&StreamKey::Other(Some("9".to_string())), false);
    assert_eq!(control.field_text(StreamControlInput::CustomWidth), "64");

    control.focus(StreamControlInput::CustomWidth);
    control.type_key(&StreamKey::Backspace, false);
    control.type_key(&StreamKey::Backspace, false);
    control.type_key(&StreamKey::Other(Some("12".to_string())), false);
    control.type_key(&StreamKey::Other(Some("8".to_string())), false);
    control.type_key(&StreamKey::Other(Some("7".to_string())), true);
    control.type_key(&StreamKey::Other(None), false);
    assert_eq!(control.field_text(StreamControlInput::CustomWidth), "128");
    control.type_key(&StreamKey::Enter, false);
    assert_eq!(control.focused_input(), None);
    control.type_key(&StreamKey::Other(Some("1".to_string())), false);
    assert_eq!(control.field_text(StreamControlInput::CustomWidth), "128");
}

#[test]
fn paste_fills_the_focused_box_and_reports_it() {
    let mut control = StreamControl::new(64, 64, 5);
    control.paste("100");
    assert_eq!(control.status(), "Ready");
    control.focus(StreamControlInput::CustomHeight);
    control.paste(" 0\n");
    assert_eq!(control.field_text(StreamControlInput::CustomHeight), "640");
    assert_eq!(control.status(), "Pasted");
    control.paste_failed("no clipboard");
    assert_eq!(control.status(), "Clipboard unavailable: no clipboard");
}

#[test]
fn custom_dimensions_need_a_valid_square() {
    let control = StreamControl::new(128, 128, 30);
    assert_eq!(control.custom_dimensions(), Ok((128, 128, 30)));
    assert_eq!(StreamControl::new(128, 120, 30).custom_dimensions(), Err(()));
    assert_eq!(StreamControl::new(130, 130, 30).custom_dimensions(), Err(()));
    assert_eq!(StreamControl::new(256, 256, 61).custom_dimensions(), Err(()));
    assert_eq!(StreamControl::new(64, 64, 0).custom_dimensions(), Err(()));

    let mut overflowing = StreamControl::new(64, 64, 5);
    overflowing.push_focused_text(StreamControlInput::CustomWidth, "99999999999");
    assert_eq!(overflowing.custom_dimensions(), Err(()));
    let mut empty = StreamControl::new(64, 64, 5);
    empty.pop_focused_text(StreamControlInput::CustomFps);
    assert_eq!(empty.custom_dimensions(), Err(()));
}

#[test]
fn valid_dimensions_rule() {
    assert!(valid_custom_dimensions(64, 64, 1));
    assert!(valid_custom_dimensions(256, 256, 60));
    assert!(!valid_custom_dimensions(56, 56, 5));
    assert!(!valid_custom_dimensions(264, 264, 5));
    assert!(!valid_custom_dimensions(100, 100, 5));
    assert!(!valid_custom_dimensions(64, 72, 5));
}

#[test]
fn start_button_requests_or_explains() {
    let mut control = StreamControl::new(128, 128, 12);
    let request = control.press_start().unwrap();
    assert_eq!(request.mode, DirectStreamMode::CustomHost);
    assert_eq!((request.width, request.height, request.fps), (128, 128, 12));
    assert_eq!(control.status(), "Ready");

    let mut bad = StreamControl::new(128, 64, 12);
    assert!(bad.press_start().is_none());
    assert_eq!(bad.status(), "Use an 8-aligned square size 64-256 and fps 1-60");
}

#[test]
fn start_checks_come_in_order() {
    assert_eq!(start_refusal(true, false, 1, 2, 0, false), Some(StartRefusal::AlreadyStreaming));
    assert_eq!(start_refusal(false, false, 1, 2, 0, false), Some(StartRefusal::CustomHostUnavailable));
    assert_eq!(start_refusal(false, true, 1, 2, 0, false), Some(StartRefusal::InvalidDimensions));
    assert_eq!(start_refusal(false, true, 64, 64, 5, false), Some(StartRefusal::GpuPaletteUnavailable));
    assert_eq!(start_refusal(false, true, 64, 64, 5, true), None);

    let mut control = StreamControl::new(64, 64, 5);
    let refused = control.refuse_start(StartRefusal::AlreadyStreaming);
    assert_eq!(refused.action, DirectStreamControlAction::Start);
    assert!(!refused.success);
    assert_eq!(refused.status, "Already streaming");
    let preview = control.refuse_start(StartRefusal::PreviewMode);
    assert_eq!(preview.status, "Preview mode cannot be started through custom host control");
    let started = control.started();
    assert!(started.success);
    assert_eq!(started.status, "Custom host streaming");
}

#[test]
fn stop_reports_its_outcome() {
    let mut control = StreamControl::new(64, 64, 5);
    let not_streaming = control.stop(true, false);
    assert_eq!(not_streaming.action, DirectStreamControlAction::Stop);
    assert!(!not_streaming.success);
    assert_eq!(not_streaming.status, "Not streaming");
    let unavailable = control.stop(false, true);
    assert_eq!(unavailable.status, "Custom host unavailable");
    let stopped = control.stop(true, true);
    assert!(stopped.success);
    assert_eq!(stopped.status, "Custom host stopped");
    assert_eq!(control.control_result(DirectStreamControlAction::Start, true).status, "Custom host stopped");
}

#[test]
fn decimal_digits_of_numbers() {
    assert_eq!(decimal_digit_bytes(0), b"0".to_vec());
    assert_eq!(decimal_digit_bytes(4_294_967_295), b"4294967295".to_vec());
}

#[test]
fn audio_delay_follows_the_sync_mode() {
    let fixed = DirectStreamAudioSyncConfig::default();
    assert_eq!(fixed.effective_delay_ms(300, Some(400)), 1000);

    let estimated = DirectStreamAudioSyncConfig {
        mode: AudioSyncMode::MatchEstimatedVideoLatency,
        fixed_delay_ms: 1000,
        extra_delay_ms: 50,
    };
    assert_eq!(estimated.effective_delay_ms(300, Some(400)), 350);

    let measured = DirectStreamAudioSyncConfig {
        mode: AudioSyncMode::MatchMeasuredVideoLatency,
        fixed_delay_ms: 1000,
        extra_delay_ms: -500,
    };
    assert_eq!(measured.effective_delay_ms(300, Some(400)), 0);
    assert_eq!(measured.effective_delay_ms(900, None), 400);

    let huge = DirectStreamAudioSyncConfig { mode: AudioSyncMode::Fixed, fixed_delay_ms: u32::MAX, extra_delay_ms: 2 };
    assert_eq!(huge.effective_delay_ms(0, None), (u32::MAX as i64 + 2) as u32);
}

#[test]
fn stream_requests_and_state() {
    let request = DirectStreamStartRequest::custom_host(192, 192, 10);
    assert_eq!(request.mode, DirectStreamMode::CustomHost);
    assert_eq!((request.width, request.height, request.fps), (192, 192, 10));
    let state = DirectStreamState { mode: DirectStreamMode::CustomHost, active: true, width: 1, height: 1, fps: 1 };
    assert!(state.is_streaming());
}

#[test]
fn frame_processors_edit_pixels_in_place() {
    let mut pixels = vec![1u8, 2, 3, 4, 5, 6, 7, 8];
    {
        let mut frame = DirectStreamFrame::new(&mut pixels, 2, 1, 8);
        assert_eq!((frame.width(), frame.height(), frame.row_bytes()), (2, 1, 8));
        let bytes = frame.bgra_mut();
        bytes[0] = 9;
    }
    assert_eq!(pixels[0], 9);
}

#[test]
fn clients_take_only_newer_payloads() {
    let mut hub = pixel_stream::frame_hub::LatestPublished::new();
    assert_eq!(hub.after(0), None);
    hub.publish(vec![1, 2]);
    assert_eq!(hub.after(0), Some((1, vec![1, 2])));
    assert_eq!(hub.after(1), None);
    hub.publish(vec![3]);
    assert_eq!(hub.after(0), Some((2, vec![3])));
    assert_eq!(hub.after(1), Some((2, vec![3])));
    assert_eq!(hub.after(2), None);
}
