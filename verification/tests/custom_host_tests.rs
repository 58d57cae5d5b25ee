use pixel_stream::overlay_hub::millis_from_clock;
use pixel_stream::custom_host::{
    CustomHostChatPanelHub, CustomHostLayout, CustomHostPanel, CustomHostPanelAnchor, CustomHostPanelAudience,
    CustomHostPanelElement, CustomHostPanelHub, CustomHostPanelRegion, CustomHostPanelStyle, PanelOverflowMode,
    PanelWhiteSpace,
};
use pixel_stream::overlay_hub::{CustomHostOverlayElement, CustomHostOverlayHub, OverlayCoordinateSpace};

fn test_panel(id: &str, body: &str) -> CustomHostPanel {
    CustomHostPanel {
        id: id.to_owned(),
        title: id.to_owned(),
        body: body.to_owned(),
        elements: vec![CustomHostPanelElement::Text(body.to_owned())],
        revision: 0,
        anchor: CustomHostPanelAnchor::LeftOfStream,
        order: 0,
        size_hint: None,
        style_hint: None,
        audience: CustomHostPanelAudience::All,
    }
}

fn test_overlay(id: &str, x: f32) -> CustomHostOverlayElement<f32> {
    CustomHostOverlayElement {
        id: id.to_owned(),
        audience: CustomHostPanelAudience::All,
        order: 0,
        ttl_ms: None,
        drawing: x,
    }
}

#[test]
fn viewer_panels_with_same_id_do_not_collide() {
    let mut hub = CustomHostPanelHub::default();
    hub.publish_for_viewer_identity(test_panel("selected-town", "viewer-a"), "viewer-a".to_owned());
    hub.publish_for_viewer_identity(test_panel("selected-town", "viewer-b"), "viewer-b".to_owned());
    hub.publish(test_panel("shared", "global"));

    let viewer_a = hub.snapshot_for_viewer(Some("viewer-a"), Some("A"));
    let viewer_b = hub.snapshot_for_viewer(Some("viewer-b"), Some("B"));

    assert!(viewer_a.iter().any(|panel| panel.body == "viewer-a"));
    assert!(!viewer_a.iter().any(|panel| panel.body == "viewer-b"));
    assert!(viewer_b.iter().any(|panel| panel.body == "viewer-b"));
    assert!(!viewer_b.iter().any(|panel| panel.body == "viewer-a"));
    assert!(viewer_a.iter().any(|panel| panel.body == "global"));
    assert!(viewer_b.iter().any(|panel| panel.body == "global"));
}

#[test]
fn viewer_overlays_with_same_id_do_not_collide() {
    let mut hub = CustomHostOverlayHub::default();
    hub.publish_overlay_for_viewer_identity(test_overlay("selected-town", 0.25), "viewer-a".to_owned());
    hub.publish_overlay_for_viewer_identity(test_overlay("selected-town", 0.75), "viewer-b".to_owned());

    let viewer_a = hub.snapshot_for_viewer(Some("viewer-a"), Some("A"));
    let viewer_b = hub.snapshot_for_viewer(Some("viewer-b"), Some("B"));

    assert_eq!(viewer_a.len(), 1);
    assert_eq!(viewer_b.len(), 1);
    assert_eq!(viewer_a[0].drawing, 0.25);
    assert_eq!(viewer_b[0].drawing, 0.75);
}

#[test]
fn republishing_replaces_and_advances_the_revision() {
    let mut hub = CustomHostPanelHub::new();
    hub.publish(test_panel("a", "first"));
    hub.publish(test_panel("a", "second"));
    let panels = hub.snapshot();
    assert_eq!(panels.len(), 1);
    assert_eq!(panels[0].body, "second");
    assert_eq!(panels[0].revision, 2);
}

#[test]
fn blank_ids_are_ignored() {
    let mut hub = CustomHostPanelHub::new();
    hub.publish(test_panel(" \t", "ignored"));
    assert!(hub.snapshot().is_empty());
}

#[test]
fn body_becomes_the_text_element() {
    let mut hub = CustomHostPanelHub::new();
    let mut panel = test_panel("p", "hello");
    panel.elements.clear();
    hub.publish(panel);
    let panels = hub.snapshot();
    assert!(matches!(&panels[0].elements[..], [CustomHostPanelElement::Text(t)] if t == "hello"));
}

#[test]
fn snapshot_is_sorted_by_anchor_order_and_id() {
    let mut hub = CustomHostPanelHub::new();
    hub.publish_text_at("b".to_owned(), "B".to_owned(), "b".to_owned(), CustomHostPanelAnchor::BelowStream, 0);
    hub.publish_text_at("z".to_owned(), "Z".to_owned(), "z".to_owned(), CustomHostPanelAnchor::LeftOfStream, 2);
    hub.publish_text_at("y".to_owned(), "Y".to_owned(), "y".to_owned(), CustomHostPanelAnchor::LeftOfStream, 1);
    hub.publish_text("r".to_owned(), "R".to_owned(), "r".to_owned());
    let ids: Vec<String> = hub.snapshot().into_iter().map(|p| p.id).collect();
    assert_eq!(ids, vec!["y", "z", "r", "b"]);
}

#[test]
fn clearing_by_id_and_region() {
    let mut hub = CustomHostPanelHub::new();
    hub.publish_text_in_region("a".to_owned(), "A".to_owned(), "a".to_owned(), CustomHostPanelRegion::SidePanelDefault);
    hub.publish_for_viewer_name(test_panel("a", "named"), "Bob".to_owned());
    hub.publish(test_panel("left", "left"));
    hub.clear("a");
    let ids: Vec<String> = hub.snapshot().into_iter().map(|p| p.id).collect();
    assert_eq!(ids, vec!["left"]);
    hub.clear_region(CustomHostPanelAnchor::LeftOfStream);
    assert!(hub.snapshot().is_empty());
}

#[test]
fn viewer_names_match_without_ascii_case() {
    let mut hub = CustomHostPanelHub::new();
    hub.publish_for_viewer_name(test_panel("n", "for bob"), "Bob".to_owned());
    assert_eq!(hub.snapshot_for_viewer(None, Some("BOB")).len(), 1);
    assert_eq!(hub.snapshot_for_viewer(Some("Bob"), None).len(), 0);
    hub.publish_for_viewer_name(test_panel("n", "again"), "bob".to_owned());
    let panels = hub.snapshot();
    assert_eq!(panels.len(), 1);
    assert_eq!(panels[0].body, "again");
}

#[test]
fn anchor_names_for_the_browser() {
    assert_eq!(CustomHostPanelAnchor::NamedRegion("top".to_owned()).as_json_str(), "NamedRegion:top");
    assert_eq!(CustomHostPanelAnchor::OverlayBottomRight.as_json_str(), "OverlayBottomRight");
    assert!(matches!(CustomHostPanelRegion::SidePanelDefault.anchor(), CustomHostPanelAnchor::RightOfStream));
    assert_eq!(PanelWhiteSpace::NoWrap.as_json_str(), "NoWrap");
    assert_eq!(PanelOverflowMode::WrapNoScroll.as_json_str(), "WrapNoScroll");
    assert_eq!(OverlayCoordinateSpace::NormalizedStream.as_json_str(), "NormalizedStream");
}

#[test]
fn style_and_layout_builders() {
    let style = CustomHostPanelStyle::headerless().wrap_no_scroll();
    assert!(style.hide_header);
    assert_eq!(style.overflow_mode, Some(PanelOverflowMode::WrapNoScroll));
    assert_eq!(style.body_white_space, Some(PanelWhiteSpace::PreWrap));
    let layout = CustomHostLayout::default().start_player_minimized().with_max_player_width(640);
    assert!(layout.minimizable_player && layout.start_player_minimized);
    assert_eq!(layout.max_player_width_px, Some(640));
}

#[test]
fn chat_panel_title_defaults_to_chat() {
    let mut chat = CustomHostChatPanelHub::new();
    assert!(!chat.snapshot().requested);
    chat.show_with_title("  ".to_owned());
    let snapshot = chat.snapshot();
    assert!(snapshot.requested);
    assert_eq!(snapshot.title, "Chat");
    chat.show_with_title("Talk".to_owned());
    assert_eq!(chat.snapshot().title, "Talk");
    chat.clear();
    assert!(!chat.snapshot().requested);
}

#[test]
fn text_elements_fall_back_to_the_body() {
    let mut panel = test_panel("p", "body text");
    panel.elements.clear();
    assert!(matches!(&panel.text_elements()[..], [CustomHostPanelElement::Text(t)] if t == "body text"));
}

#[test]
fn overlays_expire_after_their_time_to_live() {
    let mut hub = CustomHostOverlayHub::new();
    let mut short = test_overlay("short", 1.0);
    short.ttl_ms = Some(100);
    hub.publish_at(short, 1_000);
    hub.publish_at(test_overlay("long", 2.0), 1_000);
    assert_eq!(hub.snapshot_for_viewer_at(None, None, 1_099).len(), 2);
    let left = hub.snapshot_for_viewer_at(None, None, 1_100);
    assert_eq!(left.len(), 1);
    assert_eq!(left[0].id, "long");
}

#[test]
fn overlays_sort_by_order_then_id_and_clear() {
    let mut hub = CustomHostOverlayHub::new();
    let mut first = test_overlay("b", 1.0);
    first.order = -1;
    hub.publish_at(test_overlay("c", 3.0), 0);
    hub.publish_at(test_overlay("a", 2.0), 0);
    hub.publish_at(first, 0);
    let ids: Vec<String> = hub.snapshot_for_viewer_at(None, None, 0).into_iter().map(|e| e.id).collect();
    assert_eq!(ids, vec!["b", "a", "c"]);
    hub.clear_overlay("a");
    hub.clear_overlay_for_viewer_identity("c", "someone".to_owned());
    assert_eq!(hub.snapshot_for_viewer_at(None, None, 0).len(), 2);
}

#[test]
fn clock_reading_is_cut_to_u64_millis() {
    assert_eq!(millis_from_clock(None), 0);
    assert_eq!(millis_from_clock(Some(1234)), 1234);
    assert_eq!(millis_from_clock(Some(u128::from(u64::MAX) + 5)), u64::MAX);
}
