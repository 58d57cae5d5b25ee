use pixel_stream::local_http::{
    content_length, header_end, lab_page, not_found_response, ok_response_head, palette_lab_serves_page,
    player_fps, player_serves_recording, request_path, viewer_idle, viewer_serves_image, LabPage, ViewerIdle,
};

#[test]
fn header_end_is_just_past_the_blank_line() {
    let request = b"GET / HTTP/1.1\r\nHost: x\r\n\r\nbody";
    assert_eq!(header_end(request), Some(27));
    assert_eq!(header_end(b"GET / HTTP/1.1\r\nHost: x\r\n"), None);
    assert_eq!(header_end(b"\r\n\r\n"), Some(4));
    assert_eq!(header_end(b""), None);
}

#[test]
fn content_length_reads_the_first_usable_header() {
    assert_eq!(content_length(b"POST / HTTP/1.1\r\nContent-Length: 12\r\n\r\n"), 12);
    assert_eq!(content_length(b"POST / HTTP/1.1\r\ncontent-LENGTH:\t 7 \r\n\r\n"), 7);
    assert_eq!(content_length("POST / HTTP/1.1\r\nContent-Length:\u{a0}8\u{3000}\r\n\r\n".as_bytes()), 8);
    assert_eq!(
        content_length(b"POST / HTTP/1.1\r\nContent-Length: x\r\nContent-Length: 5\r\n\r\n"),
        5
    );
    assert_eq!(content_length(b"POST / HTTP/1.1\r\nContent-Length: +4\r\n\r\n"), 4);
    assert_eq!(content_length(b"POST / HTTP/1.1\r\nContent-Length: -3\r\n\r\n"), 0);
    assert_eq!(content_length(b"POST / HTTP/1.1\r\nContent-Lengths: 3\r\n\r\n"), 0);
    assert_eq!(content_length(b"POST / HTTP/1.1\r\nHost: a:b\r\n\r\n"), 0);
    assert_eq!(content_length(b""), 0);
    assert_eq!(content_length(b"Content-Length: 99999999999999999999999"), 0);
}

#[test]
fn request_path_is_the_second_word_of_the_first_line() {
    assert_eq!(request_path(b"GET /palette HTTP/1.1\r\nHost: x\r\n\r\n"), b"/palette".to_vec());
    assert_eq!(request_path(b""), b"/".to_vec());
    assert_eq!(request_path(b"GET\r\n/x y\r\n"), b"/".to_vec());
    assert_eq!(request_path("  GET\u{3000}/x  HTTP/1.1".as_bytes()), b"/x".to_vec());
    assert_eq!(request_path(b"GET /image.ipsi?t=1 HTTP/1.1\r\n"), b"/image.ipsi?t=1".to_vec());
    assert_eq!(request_path(b"\r\nGET /a HTTP/1.1\r\n"), b"/".to_vec());
}

#[test]
fn lab_routes_its_three_pages() {
    assert_eq!(lab_page(b"/"), LabPage::Shell);
    assert_eq!(lab_page(b"/palette"), LabPage::Palette);
    assert_eq!(lab_page(b"/converter"), LabPage::Converter);
    assert_eq!(lab_page(b"/palette/"), LabPage::NotFound);
    assert_eq!(lab_page(b""), LabPage::NotFound);
    assert!(palette_lab_serves_page(b"/"));
    assert!(!palette_lab_serves_page(b"/palette"));
}

#[test]
fn viewer_and_player_send_their_data_by_path_prefix() {
    assert!(viewer_serves_image(b"/image.ipsi"));
    assert!(viewer_serves_image(b"/image.ipsi?nocache=3"));
    assert!(!viewer_serves_image(b"/image.ips"));
    assert!(!viewer_serves_image(b"/"));
    assert!(player_serves_recording(b"/recording.ipsc?x"));
    assert!(!player_serves_recording(b"/recording"));
}

#[test]
fn player_fps_accepts_one_to_sixty() {
    assert_eq!(player_fps(None), 5);
    assert_eq!(player_fps(Some("30")), 30);
    assert_eq!(player_fps(Some("+7")), 7);
    assert_eq!(player_fps(Some("60")), 60);
    assert_eq!(player_fps(Some("61")), 5);
    assert_eq!(player_fps(Some("0")), 5);
    assert_eq!(player_fps(Some("fast")), 5);
}

#[test]
fn viewer_idle_finishes_or_gives_up() {
    assert_eq!(viewer_idle(true, 750_000_000), ViewerIdle::Wait);
    assert_eq!(viewer_idle(true, 750_000_001), ViewerIdle::Finished);
    assert_eq!(viewer_idle(false, 750_000_001), ViewerIdle::Wait);
    assert_eq!(viewer_idle(false, 60_000_000_001), ViewerIdle::GiveUp);
    assert_eq!(viewer_idle(true, 60_000_000_001), ViewerIdle::Finished);
}

#[test]
fn responses_are_framed_exactly() {
    assert_eq!(
        ok_response_head("text/html; charset=utf-8", 1234),
        "HTTP/1.1 200 OK\r\nContent-Type: text/html; charset=utf-8\r\nContent-Length: 1234\r\nCache-Control: no-store\r\nConnection: close\r\n\r\n"
    );
    assert_eq!(
        ok_response_head("application/octet-stream", 0),
        "HTTP/1.1 200 OK\r\nContent-Type: application/octet-stream\r\nContent-Length: 0\r\nCache-Control: no-store\r\nConnection: close\r\n\r\n"
    );
    assert_eq!(
        not_found_response(),
        "HTTP/1.1 404 Not Found\r\nContent-Type: text/plain; charset=utf-8\r\nContent-Length: 9\r\nConnection: close\r\n\r\nnot found"
    );
}
