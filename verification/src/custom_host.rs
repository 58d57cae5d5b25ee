//! Custom-host data models and the hubs through which an app publishes
//! browser panels and overlays.
//!
//! A hub stores what was published under a key made of its audience and id;
//! publishing again under the same key replaces the entry. Snapshots list the
//! entries a viewer may see, sorted.

use vstd::prelude::*;
use vstd::utf8::encode_utf8;
use crate::bytes_order::{
    bytes_less, bytes_lt, eq_ignore_ascii_case, lemma_bytes_lt_asymmetric, lemma_bytes_lt_irreflexive,
    lemma_bytes_lt_total, lemma_bytes_lt_transitive, lower_bytes, lowercase_less,
};
use crate::palette_config::{is_blank, is_blank_spec};
use crate::text::owned;

verus! {

// ---------------------------------------------------------------------------
// Panel contents

fn clone_text(t: &Option<String>) -> (r: Option<String>)
    ensures
        r == *t,
{
    match t {
        Some(s) => Some(s.clone()),
        None => None,
    }
}

/// How a styled text element looks.
#[derive(Debug)]
pub struct CustomHostPanelElementStyle {
    pub text_color: Option<String>,
    pub css_class: Option<String>,
    pub font_weight: Option<String>,
}

impl Clone for CustomHostPanelElementStyle {
    fn clone(&self) -> (r: Self)
        ensures
            r == *self,
    {
        CustomHostPanelElementStyle {
            text_color: clone_text(&self.text_color),
            css_class: clone_text(&self.css_class),
            font_weight: clone_text(&self.font_weight),
        }
    }
}

impl Default for CustomHostPanelElementStyle {
    fn default() -> (r: Self)
        ensures
            r.text_color is None,
            r.css_class is None,
            r.font_weight is None,
    {
        CustomHostPanelElementStyle { text_color: None, css_class: None, font_weight: None }
    }
}

impl CustomHostPanelElementStyle {
    /// The style with this text color.
    pub fn with_text_color(self, color: String) -> (r: Self)
        ensures
            r == (CustomHostPanelElementStyle { text_color: Some(color), ..self }),
    {
        CustomHostPanelElementStyle { text_color: Some(color), ..self }
    }

    /// The style with this CSS class.
    pub fn with_css_class(self, css_class: String) -> (r: Self)
        ensures
            r == (CustomHostPanelElementStyle { css_class: Some(css_class), ..self }),
    {
        CustomHostPanelElementStyle { css_class: Some(css_class), ..self }
    }

    /// The style with this font weight.
    pub fn with_font_weight(self, font_weight: String) -> (r: Self)
        ensures
            r == (CustomHostPanelElementStyle { font_weight: Some(font_weight), ..self }),
    {
        CustomHostPanelElementStyle { font_weight: Some(font_weight), ..self }
    }
}

/// One page of a paged text element.
#[derive(Debug)]
pub struct CustomHostPanelPage {
    pub title: Option<String>,
    pub body: String,
}

impl Clone for CustomHostPanelPage {
    fn clone(&self) -> (r: Self)
        ensures
            r == *self,
    {
        CustomHostPanelPage { title: clone_text(&self.title), body: self.body.clone() }
    }
}

/// Where the page controls of a paged text stand.
#[derive(Clone, Copy, Debug, PartialEq, Eq, Structural)]
pub enum PagedTextControlsPosition {
    BeforePage,
    AfterPage,
}

impl PagedTextControlsPosition {
    /// The name sent to the browser.
    pub fn as_json_str(self) -> (s: &'static str)
        ensures
            s@ == (match self {
                PagedTextControlsPosition::BeforePage => "BeforePage"@,
                PagedTextControlsPosition::AfterPage => "AfterPage"@,
            }),
    {
        match self {
            PagedTextControlsPosition::BeforePage => "BeforePage",
            PagedTextControlsPosition::AfterPage => "AfterPage",
        }
    }
}

/// The page controls of a paged text.
#[derive(Debug)]
pub struct PagedTextControls {
    pub previous_label: String,
    pub next_label: String,
    pub show_page_indicator: bool,
    pub wrap: bool,
    pub position: PagedTextControlsPosition,
}

impl Clone for PagedTextControls {
    fn clone(&self) -> (r: Self)
        ensures
            r == *self,
    {
        PagedTextControls {
            previous_label: self.previous_label.clone(),
            next_label: self.next_label.clone(),
            show_page_indicator: self.show_page_indicator,
            wrap: self.wrap,
            position: self.position,
        }
    }
}

impl Default for PagedTextControls {
    fn default() -> (r: Self)
        ensures
            r.previous_label@ == "<"@,
            r.next_label@ == ">"@,
            r.show_page_indicator,
            !r.wrap,
            r.position == PagedTextControlsPosition::AfterPage,
    {
        PagedTextControls {
            previous_label: owned("<"),
            next_label: owned(">"),
            show_page_indicator: true,
            wrap: false,
            position: PagedTextControlsPosition::AfterPage,
        }
    }
}

/// An element of a panel's body.
#[derive(Debug)]
pub enum CustomHostPanelElement {
    Text(String),
    StyledText { text: String, style: CustomHostPanelElementStyle },
    Button { label: String, action_id: String, disabled: bool },
    PagedText { id: String, pages: Vec<CustomHostPanelPage>, initial_page: usize, controls: PagedTextControls },
}

/// What an element holds, with its pages as a sequence.
pub enum ElementView {
    Text(String),
    StyledText { text: String, style: CustomHostPanelElementStyle },
    Button { label: String, action_id: String, disabled: bool },
    PagedText { id: String, pages: Seq<CustomHostPanelPage>, initial_page: usize, controls: PagedTextControls },
}

impl View for CustomHostPanelElement {
    type V = ElementView;

    open spec fn view(&self) -> ElementView {
        match self {
            CustomHostPanelElement::Text(t) => ElementView::Text(*t),
            CustomHostPanelElement::StyledText { text, style } => ElementView::StyledText {
                text: *text,
                style: *style,
            },
            CustomHostPanelElement::Button { label, action_id, disabled } => ElementView::Button {
                label: *label,
                action_id: *action_id,
                disabled: *disabled,
            },
            CustomHostPanelElement::PagedText { id, pages, initial_page, controls } => ElementView::PagedText {
                id: *id,
                pages: pages@,
                initial_page: *initial_page,
                controls: *controls,
            },
        }
    }
}

fn clone_pages(pages: &Vec<CustomHostPanelPage>) -> (r: Vec<CustomHostPanelPage>)
    ensures
        r@ == pages@,
{
    let mut r: Vec<CustomHostPanelPage> = Vec::new();
    let mut i: usize = 0;
    while i < pages.len()
        invariant
            i <= pages@.len(),
            r@ == pages@.take(i as int),
        decreases pages@.len() - i,
    {
        r.push(pages[i].clone());
        assert(pages@.take(i + 1) =~= pages@.take(i as int).push(pages@[i as int]));
        i = i + 1;
    }
    assert(pages@.take(pages@.len() as int) =~= pages@);
    r
}

impl Clone for CustomHostPanelElement {
    fn clone(&self) -> (r: Self)
        ensures
            r@ == self@,
    {
        match self {
            CustomHostPanelElement::Text(t) => CustomHostPanelElement::Text(t.clone()),
            CustomHostPanelElement::StyledText { text, style } => CustomHostPanelElement::StyledText {
                text: text.clone(),
                style: style.clone(),
            },
            CustomHostPanelElement::Button { label, action_id, disabled } => CustomHostPanelElement::Button {
                label: label.clone(),
                action_id: action_id.clone(),
                disabled: *disabled,
            },
            CustomHostPanelElement::PagedText { id, pages, initial_page, controls } => CustomHostPanelElement::PagedText {
                id: id.clone(),
                pages: clone_pages(pages),
                initial_page: *initial_page,
                controls: controls.clone(),
            },
        }
    }
}

/// The views of a panel's elements.
pub open spec fn elements_view(elements: Seq<CustomHostPanelElement>) -> Seq<ElementView> {
    elements.map_values(|e: CustomHostPanelElement| e@)
}

fn clone_elements(elements: &Vec<CustomHostPanelElement>) -> (r: Vec<CustomHostPanelElement>)
    ensures
        elements_view(r@) == elements_view(elements@),
{
    let mut r: Vec<CustomHostPanelElement> = Vec::new();
    let mut i: usize = 0;
    while i < elements.len()
        invariant
            i <= elements@.len(),
            r@.len() == i,
            elements_view(r@) == elements_view(elements@.take(i as int)),
        decreases elements@.len() - i,
    {
        let ghost prev = r@;
        let c = elements[i].clone();
        r.push(c);
        assert forall|k: int| 0 <= k < i + 1 implies #[trigger] elements_view(r@)[k] == elements_view(
            elements@.take(i + 1),
        )[k] by {
            if k < i {
                assert(elements_view(prev)[k] == elements_view(elements@.take(i as int))[k]);
            }
        }
        assert(elements_view(r@) =~= elements_view(elements@.take(i + 1)));
        i = i + 1;
    }
    assert(elements@.take(elements@.len() as int) =~= elements@);
    r
}

// ---------------------------------------------------------------------------
// Page branding, layout and the chat panel

/// The titles of the hosted page.
#[derive(Debug)]
pub struct CustomHostBranding {
    pub page_title: String,
    pub header_title: String,
}

impl Default for CustomHostBranding {
    fn default() -> (r: Self)
        ensures
            r.page_title@ == "PixelStream"@,
            r.header_title@ == "PixelStream custom palette stream"@,
    {
        CustomHostBranding {
            page_title: owned("PixelStream"),
            header_title: owned("PixelStream custom palette stream"),
        }
    }
}

impl CustomHostBranding {
    /// Branding with these titles.
    pub fn new(page_title: String, header_title: String) -> (r: Self)
        ensures
            r.page_title == page_title,
            r.header_title == header_title,
    {
        CustomHostBranding { page_title, header_title }
    }
}

/// How the hosted page lays out the player.
#[derive(Clone, Copy, Debug, PartialEq, Eq, Structural)]
pub struct CustomHostLayout {
    pub max_player_width_px: Option<u32>,
    pub prefer_larger_player: bool,
    pub minimizable_player: bool,
    pub start_player_minimized: bool,
}

impl Default for CustomHostLayout {
    fn default() -> (r: Self)
        ensures
            r == (CustomHostLayout {
                max_player_width_px: None,
                prefer_larger_player: false,
                minimizable_player: false,
                start_player_minimized: false,
            }),
    {
        CustomHostLayout {
            max_player_width_px: None,
            prefer_larger_player: false,
            minimizable_player: false,
            start_player_minimized: false,
        }
    }
}

impl CustomHostLayout {
    /// The layout with the player at most `width_px` pixels wide.
    pub fn with_max_player_width(self, width_px: u32) -> (r: Self)
        ensures
            r == (CustomHostLayout { max_player_width_px: Some(width_px), ..self }),
    {
        CustomHostLayout { max_player_width_px: Some(width_px), ..self }
    }

    /// The layout that gives the player more room.
    pub fn prefer_larger_player(self) -> (r: Self)
        ensures
            r == (CustomHostLayout { prefer_larger_player: true, ..self }),
    {
        CustomHostLayout { prefer_larger_player: true, ..self }
    }

    /// The layout whose player can be minimized.
    pub fn minimizable_player(self) -> (r: Self)
        ensures
            r == (CustomHostLayout { minimizable_player: true, ..self }),
    {
        CustomHostLayout { minimizable_player: true, ..self }
    }

    /// The layout whose player starts minimized (and so can be minimized).
    pub fn start_player_minimized(self) -> (r: Self)
        ensures
            r == (CustomHostLayout { minimizable_player: true, start_player_minimized: true, ..self }),
    {
        CustomHostLayout { minimizable_player: true, start_player_minimized: true, ..self }
    }
}

/// Whether the page should show its chat panel, and under which title.
#[derive(Debug)]
pub struct CustomHostChatPanelSnapshot {
    pub requested: bool,
    pub title: String,
}

/// The chat panel request of the hosted page.
#[derive(Debug)]
pub struct CustomHostChatPanelHub {
    requested: bool,
    title: String,
}

/// What the chat panel hub holds.
pub struct ChatPanelModel {
    pub requested: bool,
    pub title: Seq<char>,
}

impl View for CustomHostChatPanelHub {
    type V = ChatPanelModel;

    closed spec fn view(&self) -> ChatPanelModel {
        ChatPanelModel { requested: self.requested, title: self.title@ }
    }
}

impl CustomHostChatPanelHub {
    /// No chat panel requested, empty title.
    pub fn new() -> (hub: Self)
        ensures
            !hub@.requested,
            hub@.title == Seq::<char>::empty(),
    {
        CustomHostChatPanelHub { requested: false, title: String::new() }
    }

    /// Requests the chat panel under the title `Chat`.
    pub fn show(&mut self)
        ensures
            final(self)@.requested,
            final(self)@.title == "Chat"@,
    {
        self.show_with_title(owned("Chat"));
    }

    /// Requests the chat panel under `title`.
    pub fn show_with_title(&mut self, title: String)
        ensures
            final(self)@.requested,
            final(self)@.title == title@,
    {
        self.requested = true;
        self.title = title;
    }

    /// Withdraws the request; the title stays.
    pub fn clear(&mut self)
        ensures
            !final(self)@.requested,
            final(self)@.title == old(self)@.title,
    {
        self.requested = false;
    }

    /// The request, with `Chat` as the title when the stored one is blank.
    pub fn snapshot(&self) -> (r: CustomHostChatPanelSnapshot)
        ensures
            r.requested == self@.requested,
            r.title@ == if is_blank_spec(encode_utf8(self@.title)) {
                "Chat"@
            } else {
                self@.title
            },
    {
        let title = if is_blank(self.title.as_str()) {
            owned("Chat")
        } else {
            self.title.clone()
        };
        CustomHostChatPanelSnapshot { requested: self.requested, title }
    }
}

// ---------------------------------------------------------------------------
// Panels

/// Who may see a panel or overlay.
#[derive(Debug)]
pub enum CustomHostPanelAudience {
    All,
    /// The viewer with exactly this identity.
    ViewerIdentity(String),
    /// Viewers with this name, compared without ASCII case.
    ViewerName(String),
}

impl Clone for CustomHostPanelAudience {
    fn clone(&self) -> (r: Self)
        ensures
            r == *self,
    {
        match self {
            CustomHostPanelAudience::All => CustomHostPanelAudience::All,
            CustomHostPanelAudience::ViewerIdentity(s) => CustomHostPanelAudience::ViewerIdentity(s.clone()),
            CustomHostPanelAudience::ViewerName(s) => CustomHostPanelAudience::ViewerName(s.clone()),
        }
    }
}

/// A region of the page beside the stream.
#[derive(Clone, Copy, Debug, PartialEq, Eq, Structural)]
pub enum CustomHostPanelRegion {
    LeftOfStream,
    RightOfStream,
    BelowStream,
    AboveStream,
    SidePanelDefault,
}

/// Where a panel is placed.
#[derive(Debug)]
pub enum CustomHostPanelAnchor {
    LeftOfStream,
    RightOfStream,
    AboveStream,
    BelowStream,
    OverlayTopLeft,
    OverlayTopRight,
    OverlayBottomLeft,
    OverlayBottomRight,
    NamedRegion(String),
}

impl Clone for CustomHostPanelAnchor {
    fn clone(&self) -> (r: Self)
        ensures
            r == *self,
    {
        match self {
            CustomHostPanelAnchor::LeftOfStream => CustomHostPanelAnchor::LeftOfStream,
            CustomHostPanelAnchor::RightOfStream => CustomHostPanelAnchor::RightOfStream,
            CustomHostPanelAnchor::AboveStream => CustomHostPanelAnchor::AboveStream,
            CustomHostPanelAnchor::BelowStream => CustomHostPanelAnchor::BelowStream,
            CustomHostPanelAnchor::OverlayTopLeft => CustomHostPanelAnchor::OverlayTopLeft,
            CustomHostPanelAnchor::OverlayTopRight => CustomHostPanelAnchor::OverlayTopRight,
            CustomHostPanelAnchor::OverlayBottomLeft => CustomHostPanelAnchor::OverlayBottomLeft,
            CustomHostPanelAnchor::OverlayBottomRight => CustomHostPanelAnchor::OverlayBottomRight,
            CustomHostPanelAnchor::NamedRegion(s) => CustomHostPanelAnchor::NamedRegion(s.clone()),
        }
    }
}

impl CustomHostPanelRegion {
    /// The anchor of the region: the default side panel is right of the stream.
    pub fn anchor(self) -> (a: CustomHostPanelAnchor)
        ensures
            a == (match self {
                CustomHostPanelRegion::LeftOfStream => CustomHostPanelAnchor::LeftOfStream,
                CustomHostPanelRegion::RightOfStream => CustomHostPanelAnchor::RightOfStream,
                CustomHostPanelRegion::BelowStream => CustomHostPanelAnchor::BelowStream,
                CustomHostPanelRegion::AboveStream => CustomHostPanelAnchor::AboveStream,
                CustomHostPanelRegion::SidePanelDefault => CustomHostPanelAnchor::RightOfStream,
            }),
    {
        match self {
            CustomHostPanelRegion::LeftOfStream => CustomHostPanelAnchor::LeftOfStream,
            CustomHostPanelRegion::RightOfStream => CustomHostPanelAnchor::RightOfStream,
            CustomHostPanelRegion::BelowStream => CustomHostPanelAnchor::BelowStream,
            CustomHostPanelRegion::AboveStream => CustomHostPanelAnchor::AboveStream,
            CustomHostPanelRegion::SidePanelDefault => CustomHostPanelAnchor::RightOfStream,
        }
    }
}

/// The rank of an anchor in panel order.
pub open spec fn anchor_rank(a: CustomHostPanelAnchor) -> int {
    match a {
        CustomHostPanelAnchor::LeftOfStream => 0,
        CustomHostPanelAnchor::RightOfStream => 1,
        CustomHostPanelAnchor::AboveStream => 2,
        CustomHostPanelAnchor::BelowStream => 3,
        CustomHostPanelAnchor::OverlayTopLeft => 4,
        CustomHostPanelAnchor::OverlayTopRight => 5,
        CustomHostPanelAnchor::OverlayBottomLeft => 6,
        CustomHostPanelAnchor::OverlayBottomRight => 7,
        CustomHostPanelAnchor::NamedRegion(_) => 8,
    }
}

/// The region name of an anchor (empty for the fixed anchors), as bytes.
pub open spec fn anchor_name(a: CustomHostPanelAnchor) -> Seq<u8> {
    match a {
        CustomHostPanelAnchor::NamedRegion(r) => encode_utf8(r@),
        _ => Seq::empty(),
    }
}

/// The name of an anchor as the browser receives it.
pub open spec fn anchor_json(a: CustomHostPanelAnchor) -> Seq<char> {
    match a {
        CustomHostPanelAnchor::LeftOfStream => "LeftOfStream"@,
        CustomHostPanelAnchor::RightOfStream => "RightOfStream"@,
        CustomHostPanelAnchor::AboveStream => "AboveStream"@,
        CustomHostPanelAnchor::BelowStream => "BelowStream"@,
        CustomHostPanelAnchor::OverlayTopLeft => "OverlayTopLeft"@,
        CustomHostPanelAnchor::OverlayTopRight => "OverlayTopRight"@,
        CustomHostPanelAnchor::OverlayBottomLeft => "OverlayBottomLeft"@,
        CustomHostPanelAnchor::OverlayBottomRight => "OverlayBottomRight"@,
        CustomHostPanelAnchor::NamedRegion(r) => "NamedRegion:"@ + r@,
    }
}

fn text_bytes(s: &String) -> (b: &[u8])
    ensures
        b@ == encode_utf8(s@),
{
    s.as_str().as_bytes()
}

impl CustomHostPanelAnchor {
    /// The name sent to the browser; a named region is `NamedRegion:` and its name.
    pub fn as_json_str(&self) -> (s: String)
        ensures
            s@ == anchor_json(*self),
    {
        match self {
            CustomHostPanelAnchor::LeftOfStream => owned("LeftOfStream"),
            CustomHostPanelAnchor::RightOfStream => owned("RightOfStream"),
            CustomHostPanelAnchor::AboveStream => owned("AboveStream"),
            CustomHostPanelAnchor::BelowStream => owned("BelowStream"),
            CustomHostPanelAnchor::OverlayTopLeft => owned("OverlayTopLeft"),
            CustomHostPanelAnchor::OverlayTopRight => owned("OverlayTopRight"),
            CustomHostPanelAnchor::OverlayBottomLeft => owned("OverlayBottomLeft"),
            CustomHostPanelAnchor::OverlayBottomRight => owned("OverlayBottomRight"),
            CustomHostPanelAnchor::NamedRegion(region) => {
                let mut s = owned("NamedRegion:");
                s.append(region.as_str());
                s
            },
        }
    }

    /// The rank of the anchor in panel order.
    pub fn sort_rank(&self) -> (r: u8)
        ensures
            r as int == anchor_rank(*self),
    {
        match self {
            CustomHostPanelAnchor::LeftOfStream => 0,
            CustomHostPanelAnchor::RightOfStream => 1,
            CustomHostPanelAnchor::AboveStream => 2,
            CustomHostPanelAnchor::BelowStream => 3,
            CustomHostPanelAnchor::OverlayTopLeft => 4,
            CustomHostPanelAnchor::OverlayTopRight => 5,
            CustomHostPanelAnchor::OverlayBottomLeft => 6,
            CustomHostPanelAnchor::OverlayBottomRight => 7,
            CustomHostPanelAnchor::NamedRegion(_) => 8,
        }
    }

    /// The region name as bytes (empty for the fixed anchors).
    pub fn name_bytes(&self) -> (b: &[u8])
        ensures
            b@ == anchor_name(*self),
    {
        match self {
            CustomHostPanelAnchor::NamedRegion(r) => text_bytes(r),
            _ => {
                let e: &[u8] = &[];
                assert(e@ =~= Seq::<u8>::empty());
                e
            },
        }
    }

    /// The anchors are the same.
    pub fn same_as(&self, other: &CustomHostPanelAnchor) -> (r: bool)
        ensures
            r == (anchor_rank(*self) == anchor_rank(*other) && anchor_name(*self) == anchor_name(*other)),
    {
        self.sort_rank() == other.sort_rank() && crate::text::bytes_eq(self.name_bytes(), other.name_bytes())
    }
}

/// Size limits of a panel.
#[derive(Clone, Copy, Debug, PartialEq, Eq, Structural)]
pub struct CustomHostPanelSize {
    pub min_width_px: Option<u32>,
    pub max_width_px: Option<u32>,
    pub min_height_px: Option<u32>,
    pub max_height_px: Option<u32>,
}

/// How a panel body wraps.
#[derive(Clone, Copy, Debug, PartialEq, Eq, Structural)]
pub enum PanelWhiteSpace {
    PreWrap,
    NoWrap,
}

impl PanelWhiteSpace {
    /// The name sent to the browser.
    pub fn as_json_str(self) -> (s: &'static str)
        ensures
            s@ == (match self {
                PanelWhiteSpace::PreWrap => "PreWrap"@,
                PanelWhiteSpace::NoWrap => "NoWrap"@,
            }),
    {
        match self {
            PanelWhiteSpace::PreWrap => "PreWrap",
            PanelWhiteSpace::NoWrap => "NoWrap",
        }
    }
}

/// How a panel body overflows.
#[derive(Clone, Copy, Debug, PartialEq, Eq, Structural)]
pub enum PanelOverflowMode {
    Auto,
    WrapNoScroll,
}

impl PanelOverflowMode {
    /// The name sent to the browser.
    pub fn as_json_str(self) -> (s: &'static str)
        ensures
            s@ == (match self {
                PanelOverflowMode::Auto => "Auto"@,
                PanelOverflowMode::WrapNoScroll => "WrapNoScroll"@,
            }),
    {
        match self {
            PanelOverflowMode::Auto => "Auto",
            PanelOverflowMode::WrapNoScroll => "WrapNoScroll",
        }
    }
}

/// How a panel looks.
#[derive(Debug)]
pub struct CustomHostPanelStyle {
    pub css_class: Option<String>,
    pub hide_header: bool,
    pub body_white_space: Option<PanelWhiteSpace>,
    pub overflow_mode: Option<PanelOverflowMode>,
    pub region_css_class: Option<String>,
}

impl Clone for CustomHostPanelStyle {
    fn clone(&self) -> (r: Self)
        ensures
            r == *self,
    {
        CustomHostPanelStyle {
            css_class: clone_text(&self.css_class),
            hide_header: self.hide_header,
            body_white_space: self.body_white_space,
            overflow_mode: self.overflow_mode,
            region_css_class: clone_text(&self.region_css_class),
        }
    }
}

impl Default for CustomHostPanelStyle {
    fn default() -> (r: Self)
        ensures
            r == (CustomHostPanelStyle {
                css_class: None,
                hide_header: false,
                body_white_space: None,
                overflow_mode: None,
                region_css_class: None,
            }),
    {
        CustomHostPanelStyle {
            css_class: None,
            hide_header: false,
            body_white_space: None,
            overflow_mode: None,
            region_css_class: None,
        }
    }
}

impl CustomHostPanelStyle {
    /// The default style without the panel header.
    pub fn headerless() -> (r: Self)
        ensures
            r == (CustomHostPanelStyle {
                css_class: None,
                hide_header: true,
                body_white_space: None,
                overflow_mode: None,
                region_css_class: None,
            }),
    {
        CustomHostPanelStyle { hide_header: true, ..CustomHostPanelStyle::default() }
    }

    /// The style with this CSS class.
    pub fn with_css_class(self, css_class: String) -> (r: Self)
        ensures
            r == (CustomHostPanelStyle { css_class: Some(css_class), ..self }),
    {
        CustomHostPanelStyle { css_class: Some(css_class), ..self }
    }

    /// The style with this body wrapping.
    pub fn with_body_white_space(self, body_white_space: PanelWhiteSpace) -> (r: Self)
        ensures
            r == (CustomHostPanelStyle { body_white_space: Some(body_white_space), ..self }),
    {
        CustomHostPanelStyle { body_white_space: Some(body_white_space), ..self }
    }

    /// The style with this overflow mode.
    pub fn with_overflow_mode(self, overflow_mode: PanelOverflowMode) -> (r: Self)
        ensures
            r == (CustomHostPanelStyle { overflow_mode: Some(overflow_mode), ..self }),
    {
        CustomHostPanelStyle { overflow_mode: Some(overflow_mode), ..self }
    }

    /// The style that wraps the body and does not scroll.
    pub fn wrap_no_scroll(self) -> (r: Self)
        ensures
            r == (CustomHostPanelStyle {
                overflow_mode: Some(PanelOverflowMode::WrapNoScroll),
                body_white_space: Some(PanelWhiteSpace::PreWrap),
                ..self
            }),
    {
        CustomHostPanelStyle {
            overflow_mode: Some(PanelOverflowMode::WrapNoScroll),
            body_white_space: Some(PanelWhiteSpace::PreWrap),
            ..self
        }
    }

    /// The style with this CSS class on the panel's region.
    pub fn with_region_css_class(self, css_class: String) -> (r: Self)
        ensures
            r == (CustomHostPanelStyle { region_css_class: Some(css_class), ..self }),
    {
        CustomHostPanelStyle { region_css_class: Some(css_class), ..self }
    }

    /// The style whose body does not wrap.
    pub fn no_wrap(self) -> (r: Self)
        ensures
            r == (CustomHostPanelStyle { body_white_space: Some(PanelWhiteSpace::NoWrap), ..self }),
    {
        CustomHostPanelStyle { body_white_space: Some(PanelWhiteSpace::NoWrap), ..self }
    }

    /// The style whose body keeps its line breaks and wraps.
    pub fn pre_wrap(self) -> (r: Self)
        ensures
            r == (CustomHostPanelStyle { body_white_space: Some(PanelWhiteSpace::PreWrap), ..self }),
    {
        CustomHostPanelStyle { body_white_space: Some(PanelWhiteSpace::PreWrap), ..self }
    }
}

/// A panel of the hosted page.
#[derive(Debug)]
pub struct CustomHostPanel {
    pub id: String,
    pub title: String,
    pub body: String,
    pub elements: Vec<CustomHostPanelElement>,
    pub revision: u64,
    pub anchor: CustomHostPanelAnchor,
    pub order: i32,
    pub size_hint: Option<CustomHostPanelSize>,
    pub style_hint: Option<CustomHostPanelStyle>,
    pub audience: CustomHostPanelAudience,
}

/// What a panel holds, with its elements as a sequence of views.
pub struct PanelView {
    pub id: String,
    pub title: String,
    pub body: String,
    pub elements: Seq<ElementView>,
    pub revision: u64,
    pub anchor: CustomHostPanelAnchor,
    pub order: i32,
    pub size_hint: Option<CustomHostPanelSize>,
    pub style_hint: Option<CustomHostPanelStyle>,
    pub audience: CustomHostPanelAudience,
}

impl View for CustomHostPanel {
    type V = PanelView;

    open spec fn view(&self) -> PanelView {
        PanelView {
            id: self.id,
            title: self.title,
            body: self.body,
            elements: elements_view(self.elements@),
            revision: self.revision,
            anchor: self.anchor,
            order: self.order,
            size_hint: self.size_hint,
            style_hint: self.style_hint,
            audience: self.audience,
        }
    }
}

impl Clone for CustomHostPanel {
    fn clone(&self) -> (r: Self)
        ensures
            r@ == self@,
    {
        CustomHostPanel {
            id: self.id.clone(),
            title: self.title.clone(),
            body: self.body.clone(),
            elements: clone_elements(&self.elements),
            revision: self.revision,
            anchor: self.anchor.clone(),
            order: self.order,
            size_hint: self.size_hint,
            style_hint: match &self.style_hint {
                Some(style) => Some(style.clone()),
                None => None,
            },
            audience: self.audience.clone(),
        }
    }
}

/// The elements shown for a panel: its body as one text element when it has
/// no elements but a body.
pub open spec fn shown_elements(p: PanelView) -> Seq<ElementView> {
    if p.elements.len() == 0 && p.body@.len() != 0 {
        seq![ElementView::Text(p.body)]
    } else {
        p.elements
    }
}

impl CustomHostPanel {
    /// The elements to show: the body as one text element when the panel has
    /// no elements but a body, else the elements.
    pub fn text_elements(&self) -> (r: Vec<CustomHostPanelElement>)
        ensures
            elements_view(r@) == shown_elements(self@),
    {
        if self.elements.len() == 0 && !self.body.as_str().is_empty() {
            let r = vec![CustomHostPanelElement::Text(self.body.clone())];
            assert(elements_view(r@) =~= shown_elements(self@));
            return r;
        }
        clone_elements(&self.elements)
    }

    /// The panel shown only to the viewer with `identity`.
    pub fn for_viewer_identity(self, identity: String) -> (r: Self)
        ensures
            r@ == (PanelView { audience: CustomHostPanelAudience::ViewerIdentity(identity), ..self@ }),
    {
        CustomHostPanel { audience: CustomHostPanelAudience::ViewerIdentity(identity), ..self }
    }

    /// The panel shown only to viewers named `name` (without ASCII case).
    pub fn for_viewer_name(self, name: String) -> (r: Self)
        ensures
            r@ == (PanelView { audience: CustomHostPanelAudience::ViewerName(name), ..self@ }),
    {
        CustomHostPanel { audience: CustomHostPanelAudience::ViewerName(name), ..self }
    }
}

/// A viewer pressed a panel button.
#[derive(Debug)]
pub struct CustomHostPanelAction {
    pub viewer_identity: String,
    pub viewer_name: String,
    pub panel_id: String,
    pub action_id: String,
}

// ---------------------------------------------------------------------------
// Keys and order

/// The rank of an audience in key order.
pub open spec fn audience_rank(a: CustomHostPanelAudience) -> int {
    match a {
        CustomHostPanelAudience::All => 0,
        CustomHostPanelAudience::ViewerIdentity(_) => 1,
        CustomHostPanelAudience::ViewerName(_) => 2,
    }
}

/// The text of an audience in key order, as bytes: a viewer name is
/// compared in ASCII lower case.
pub open spec fn audience_text(a: CustomHostPanelAudience) -> Seq<u8> {
    match a {
        CustomHostPanelAudience::All => Seq::empty(),
        CustomHostPanelAudience::ViewerIdentity(s) => encode_utf8(s@),
        CustomHostPanelAudience::ViewerName(s) => lower_bytes(encode_utf8(s@)),
    }
}

/// The two audiences give the same key.
pub open spec fn same_audience(a: CustomHostPanelAudience, b: CustomHostPanelAudience) -> bool {
    audience_rank(a) == audience_rank(b) && audience_text(a) == audience_text(b)
}

/// `a` sorts before `b` in audience key order.
pub open spec fn audience_before(a: CustomHostPanelAudience, b: CustomHostPanelAudience) -> bool {
    audience_rank(a) < audience_rank(b) || (audience_rank(a) == audience_rank(b) && bytes_lt(
        audience_text(a),
        audience_text(b),
    ))
}

/// Panels are stored under their audience and id: two panels with the same
/// key replace each other.
pub open spec fn same_key(p: PanelView, q: PanelView) -> bool {
    same_audience(p.audience, q.audience) && p.id@ == q.id@
}

/// Panel order: by anchor (rank, then region name), order, id, and then
/// audience key.
pub open spec fn panel_before(p: PanelView, q: PanelView) -> bool {
    let (ap, aq) = (anchor_rank(p.anchor), anchor_rank(q.anchor));
    let (np, nq) = (anchor_name(p.anchor), anchor_name(q.anchor));
    let (ip, iq) = (encode_utf8(p.id@), encode_utf8(q.id@));
    ||| ap < aq
    ||| ap == aq && bytes_lt(np, nq)
    ||| ap == aq && np == nq && p.order < q.order
    ||| ap == aq && np == nq && p.order == q.order && bytes_lt(ip, iq)
    ||| ap == aq && np == nq && p.order == q.order && ip == iq && audience_before(p.audience, q.audience)
}

proof fn lemma_audience_before_transitive(a: CustomHostPanelAudience, b: CustomHostPanelAudience, c: CustomHostPanelAudience)
    requires
        audience_before(a, b),
        audience_before(b, c),
    ensures
        audience_before(a, c),
{
    if audience_rank(a) == audience_rank(b) && audience_rank(b) == audience_rank(c) {
        lemma_bytes_lt_transitive(audience_text(a), audience_text(b), audience_text(c));
    }
}

/// Panel order is transitive.
pub proof fn lemma_panel_before_transitive(p: PanelView, q: PanelView, r: PanelView)
    requires
        panel_before(p, q),
        panel_before(q, r),
    ensures
        panel_before(p, r),
{
    let (np, nq, nr) = (anchor_name(p.anchor), anchor_name(q.anchor), anchor_name(r.anchor));
    let (ip, iq, ir) = (encode_utf8(p.id@), encode_utf8(q.id@), encode_utf8(r.id@));
    if bytes_lt(np, nq) && bytes_lt(nq, nr) {
        lemma_bytes_lt_transitive(np, nq, nr);
    }
    if bytes_lt(ip, iq) && bytes_lt(iq, ir) {
        lemma_bytes_lt_transitive(ip, iq, ir);
    }
    if audience_before(p.audience, q.audience) && audience_before(q.audience, r.audience) {
        lemma_audience_before_transitive(p.audience, q.audience, r.audience);
    }
}

/// No panel sorts before itself.
pub proof fn lemma_panel_before_irreflexive(p: PanelView)
    ensures
        !panel_before(p, p),
{
    lemma_bytes_lt_irreflexive(anchor_name(p.anchor));
    lemma_bytes_lt_irreflexive(encode_utf8(p.id@));
    lemma_bytes_lt_irreflexive(audience_text(p.audience));
}

/// Panel order is asymmetric.
pub proof fn lemma_panel_before_asymmetric(p: PanelView, q: PanelView)
    requires
        panel_before(p, q),
    ensures
        !panel_before(q, p),
{
    if panel_before(q, p) {
        lemma_panel_before_transitive(p, q, p);
        lemma_panel_before_irreflexive(p);
    }
}

/// Of two panels under different keys, one sorts before the other.
pub proof fn lemma_panel_before_total(p: PanelView, q: PanelView)
    requires
        !same_key(p, q),
    ensures
        panel_before(p, q) || panel_before(q, p),
{
    lemma_bytes_lt_total(anchor_name(p.anchor), anchor_name(q.anchor));
    lemma_bytes_lt_total(encode_utf8(p.id@), encode_utf8(q.id@));
    lemma_bytes_lt_total(audience_text(p.audience), audience_text(q.audience));
    if encode_utf8(p.id@) == encode_utf8(q.id@) {
        vstd::utf8::encode_utf8_decode_utf8(p.id@);
        vstd::utf8::encode_utf8_decode_utf8(q.id@);
    }
}

impl CustomHostPanelAudience {
    /// The rank of the audience in key order.
    pub fn key_rank(&self) -> (r: u8)
        ensures
            r as int == audience_rank(*self),
    {
        match self {
            CustomHostPanelAudience::All => 0,
            CustomHostPanelAudience::ViewerIdentity(_) => 1,
            CustomHostPanelAudience::ViewerName(_) => 2,
        }
    }

    /// The audiences give the same key.
    pub fn same_key_as(&self, other: &CustomHostPanelAudience) -> (r: bool)
        ensures
            r == same_audience(*self, *other),
    {
        match (self, other) {
            (CustomHostPanelAudience::All, CustomHostPanelAudience::All) => true,
            (CustomHostPanelAudience::ViewerIdentity(a), CustomHostPanelAudience::ViewerIdentity(b)) => {
                crate::text::bytes_eq(text_bytes(a), text_bytes(b))
            },
            (CustomHostPanelAudience::ViewerName(a), CustomHostPanelAudience::ViewerName(b)) => {
                eq_ignore_ascii_case(text_bytes(a), text_bytes(b))
            },
            _ => false,
        }
    }

    /// The audience sorts before `other` in key order.
    pub fn key_before(&self, other: &CustomHostPanelAudience) -> (r: bool)
        ensures
            r == audience_before(*self, *other),
    {
        match (self, other) {
            (CustomHostPanelAudience::ViewerIdentity(a), CustomHostPanelAudience::ViewerIdentity(b)) => {
                bytes_less(text_bytes(a), text_bytes(b))
            },
            (CustomHostPanelAudience::ViewerName(a), CustomHostPanelAudience::ViewerName(b)) => {
                lowercase_less(text_bytes(a), text_bytes(b))
            },
            (CustomHostPanelAudience::All, CustomHostPanelAudience::All) => {
                proof {
                    lemma_bytes_lt_irreflexive(Seq::<u8>::empty());
                }
                false
            },
            _ => self.key_rank() < other.key_rank(),
        }
    }
}

fn panels_same_key(p: &CustomHostPanel, q: &CustomHostPanel) -> (r: bool)
    ensures
        r == same_key(p@, q@),
{
    let r = p.audience.same_key_as(&q.audience) && crate::text::bytes_eq(text_bytes(&p.id), text_bytes(&q.id));
    proof {
        vstd::utf8::encode_utf8_decode_utf8(p.id@);
        vstd::utf8::encode_utf8_decode_utf8(q.id@);
    }
    r
}

fn panels_before(p: &CustomHostPanel, q: &CustomHostPanel) -> (r: bool)
    ensures
        r == panel_before(p@, q@),
{
    let (ap, aq) = (p.anchor.sort_rank(), q.anchor.sort_rank());
    if ap != aq {
        return ap < aq;
    }
    let (np, nq) = (p.anchor.name_bytes(), q.anchor.name_bytes());
    if !crate::text::bytes_eq(np, nq) {
        return bytes_less(np, nq);
    }
    proof {
        lemma_bytes_lt_irreflexive(np@);
    }
    if p.order != q.order {
        return p.order < q.order;
    }
    let (ip, iq) = (text_bytes(&p.id), text_bytes(&q.id));
    if !crate::text::bytes_eq(ip, iq) {
        return bytes_less(ip, iq);
    }
    proof {
        lemma_bytes_lt_irreflexive(ip@);
    }
    p.audience.key_before(&q.audience)
}

// ---------------------------------------------------------------------------
// The panel hub

/// The views of a sequence of panels.
pub open spec fn panels_view(s: Seq<CustomHostPanel>) -> Seq<PanelView> {
    s.map_values(|p: CustomHostPanel| p@)
}

/// The panels are in panel order, each under its own key.
pub open spec fn panels_sorted(s: Seq<PanelView>) -> bool {
    forall|i: int, j: int| 0 <= i < j < s.len() ==> panel_before(s[i], s[j]) && !same_key(s[i], s[j])
}

/// The text of an optional viewer field.
pub open spec fn opt_text(o: Option<&str>) -> Option<Seq<char>> {
    match o {
        Some(s) => Some(s@),
        None => None,
    }
}

/// A viewer with this identity and name may see what is published for `audience`.
pub open spec fn viewer_sees(audience: CustomHostPanelAudience, identity: Option<Seq<char>>, name: Option<Seq<char>>) -> bool {
    match audience {
        CustomHostPanelAudience::All => true,
        CustomHostPanelAudience::ViewerIdentity(id) => identity == Some(id@),
        CustomHostPanelAudience::ViewerName(n) => match name {
            Some(v) => lower_bytes(encode_utf8(v)) == lower_bytes(encode_utf8(n@)),
            None => false,
        },
    }
}

/// Whether a viewer with this identity and name sees the panel.
pub open spec fn panel_visible(identity: Option<Seq<char>>, name: Option<Seq<char>>) -> spec_fn(PanelView) -> bool {
    |q: PanelView| viewer_sees(q.audience, identity, name)
}

/// Whether a panel has another id than `id`.
pub open spec fn panel_id_differs(id: Seq<char>) -> spec_fn(PanelView) -> bool {
    |q: PanelView| q.id@ != id
}

/// Whether a panel is placed elsewhere than at `anchor`.
pub open spec fn panel_anchor_differs(anchor: CustomHostPanelAnchor) -> spec_fn(PanelView) -> bool {
    |q: PanelView| !(anchor_rank(q.anchor) == anchor_rank(anchor) && anchor_name(q.anchor) == anchor_name(anchor))
}

/// `s` with `p` in its place in panel order, replacing the panel under the
/// same key.
pub open spec fn inserted(s: Seq<PanelView>, p: PanelView) -> Seq<PanelView> {
    s.filter(|q: PanelView| panel_before(q, p) && !same_key(q, p)) + seq![p] + s.filter(
        |q: PanelView| panel_before(p, q) && !same_key(q, p),
    )
}

/// A panel as published with revision `rev`: with its body as its one
/// element when it has no elements but a body.
pub open spec fn published(p: PanelView, rev: u64) -> PanelView {
    PanelView { elements: shown_elements(p), revision: rev, ..p }
}

/// The revision after `rev`, wrapping.
pub open spec fn next_rev(rev: u64) -> u64 {
    if rev == u64::MAX {
        0
    } else {
        (rev + 1) as u64
    }
}

/// What the panel hub holds: its panels in panel order and the last
/// revision handed out.
pub struct PanelHubModel {
    pub panels: Seq<PanelView>,
    pub next_revision: u64,
}

/// The hub after publishing `p`: a panel with a blank id is ignored.
pub open spec fn after_publish(m: PanelHubModel, p: PanelView) -> PanelHubModel {
    if is_blank_spec(encode_utf8(p.id@)) {
        m
    } else {
        PanelHubModel {
            panels: inserted(m.panels, published(p, next_rev(m.next_revision))),
            next_revision: next_rev(m.next_revision),
        }
    }
}

/// The panels a hub publishes to viewers.
#[derive(Debug)]
pub struct CustomHostPanelHub {
    panels: Vec<CustomHostPanel>,
    next_revision: u64,
}

impl View for CustomHostPanelHub {
    type V = PanelHubModel;

    closed spec fn view(&self) -> PanelHubModel {
        PanelHubModel { panels: panels_view(self.panels@), next_revision: self.next_revision }
    }
}

enum PanelFilter<'a> {
    OtherIds(&'a str),
    OtherAnchors(&'a CustomHostPanelAnchor),
    Viewer(Option<&'a str>, Option<&'a str>),
    Before(&'a CustomHostPanel),
    After(&'a CustomHostPanel),
}

spec fn keeps(f: PanelFilter, q: PanelView) -> bool {
    match f {
        PanelFilter::OtherIds(id) => panel_id_differs(id@)(q),
        PanelFilter::OtherAnchors(a) => panel_anchor_differs(*a)(q),
        PanelFilter::Viewer(identity, name) => panel_visible(opt_text(identity), opt_text(name))(q),
        PanelFilter::Before(p) => panel_before(q, p@) && !same_key(q, p@),
        PanelFilter::After(p) => panel_before(p@, q) && !same_key(q, p@),
    }
}

spec fn keep_pred(f: PanelFilter) -> spec_fn(PanelView) -> bool {
    |q: PanelView| keeps(f, q)
}

fn opt_eq(a: Option<&str>, b: &String) -> (r: bool)
    ensures
        r == (opt_text(a) == Some(b@)),
{
    match a {
        Some(s) => crate::text::str_eq(s, b.as_str()),
        None => false,
    }
}

fn keeps_exec(f: &PanelFilter, q: &CustomHostPanel) -> (r: bool)
    ensures
        r == keeps(*f, q@),
{
    match f {
        PanelFilter::OtherIds(id) => !crate::text::str_eq(q.id.as_str(), id),
        PanelFilter::OtherAnchors(a) => !q.anchor.same_as(a),
        PanelFilter::Viewer(identity, name) => match &q.audience {
            CustomHostPanelAudience::All => true,
            CustomHostPanelAudience::ViewerIdentity(id) => opt_eq(*identity, id),
            CustomHostPanelAudience::ViewerName(n) => match name {
                Some(v) => eq_ignore_ascii_case(v.as_bytes(), text_bytes(n)),
                None => false,
            },
        },
        PanelFilter::Before(p) => panels_before(q, p) && !panels_same_key(q, p),
        PanelFilter::After(p) => panels_before(p, q) && !panels_same_key(q, p),
    }
}

/// Keeps the panels that pass `f`, in order, returning for each the index it
/// had.
fn filter_panels(panels: &Vec<CustomHostPanel>, f: &PanelFilter) -> (r: (Vec<CustomHostPanel>, Ghost<Seq<int>>))
    requires
        panels_sorted(panels_view(panels@)),
    ensures
        panels_view(r.0@) == panels_view(panels@).filter(keep_pred(*f)),
        panels_sorted(panels_view(r.0@)),
        r.1@.len() == r.0@.len(),
        forall|k: int| 0 <= k < r.1@.len() ==> 0 <= #[trigger] r.1@[k] < panels@.len(),
        forall|k: int| 0 <= k < r.1@.len() ==> panels_view(r.0@)[k] == panels_view(panels@)[#[trigger] r.1@[k]],
        forall|k: int| 0 <= k < r.1@.len() ==> keeps(*f, panels_view(panels@)[#[trigger] r.1@[k]]),
{
    let ghost s = panels_view(panels@);
    let mut out: Vec<CustomHostPanel> = Vec::new();
    let ghost mut idx: Seq<int> = Seq::empty();
    let mut i: usize = 0;
    assert(s.take(0) =~= Seq::<PanelView>::empty());
    assert(Seq::<PanelView>::empty().filter(keep_pred(*f)) =~= Seq::<PanelView>::empty()) by {
        reveal(Seq::filter);
    }
    while i < panels.len()
        invariant
            i <= panels@.len(),
            s == panels_view(panels@),
            panels_sorted(s),
            panels_view(out@) == s.take(i as int).filter(keep_pred(*f)),
            idx.len() == out@.len(),
            forall|k: int| 0 <= k < idx.len() ==> 0 <= #[trigger] idx[k] < i,
            forall|k: int, l: int| 0 <= k < l < idx.len() ==> #[trigger] idx[k] < #[trigger] idx[l],
            forall|k: int| 0 <= k < idx.len() ==> panels_view(out@)[k] == s[#[trigger] idx[k]],
            forall|k: int| 0 <= k < idx.len() ==> keeps(*f, s[#[trigger] idx[k]]),
        decreases panels@.len() - i,
    {
        assert(s.take(i + 1) =~= s.take(i as int).push(s[i as int]));
        proof {
            s.take(i as int).lemma_filter_push(s[i as int], keep_pred(*f));
        }
        if keeps_exec(f, &panels[i]) {
            let ghost prev = out@;
            out.push(panels[i].clone());
            proof {
                idx = idx.push(i as int);
                assert forall|k: int| 0 <= k < idx.len() implies panels_view(out@)[k] == s[#[trigger] idx[k]] by {
                    if k < idx.len() - 1 {
                        assert(panels_view(out@)[k] == panels_view(prev)[k]);
                    }
                }
                assert(panels_view(out@) =~= panels_view(prev).push(s[i as int]));
            }
        }
        i = i + 1;
    }
    assert(s.take(panels@.len() as int) =~= s);
    proof {
        assert forall|k: int, l: int| 0 <= k < l < panels_view(out@).len() implies panel_before(
            panels_view(out@)[k],
            panels_view(out@)[l],
        ) && !same_key(panels_view(out@)[k], panels_view(out@)[l]) by {
            assert(idx[k] < idx[l]);
            assert(panels_view(out@)[k] == s[idx[k]]);
            assert(panels_view(out@)[l] == s[idx[l]]);
        }
    }
    (out, Ghost(idx))
}

proof fn lemma_panels_view_concat(a: Seq<CustomHostPanel>, b: Seq<CustomHostPanel>)
    ensures
        panels_view(a + b) == panels_view(a) + panels_view(b),
{
    assert(panels_view(a + b) =~= panels_view(a) + panels_view(b));
}

/// `panels` with `p` in its place in panel order, replacing the panel under
/// the same key.
fn insert_panel(panels: &Vec<CustomHostPanel>, p: CustomHostPanel) -> (out: Vec<CustomHostPanel>)
    requires
        panels_sorted(panels_view(panels@)),
    ensures
        panels_view(out@) == inserted(panels_view(panels@), p@),
        panels_sorted(panels_view(out@)),
{
    let ghost s = panels_view(panels@);
    let ghost pv = p@;
    let (mut out, Ghost(ia)) = filter_panels(panels, &PanelFilter::Before(&p));
    let (mut tail, Ghost(ib)) = filter_panels(panels, &PanelFilter::After(&p));
    let ghost a = panels_view(out@);
    let ghost b = panels_view(tail@);
    assert(keep_pred(PanelFilter::Before(&p)) =~= (|q: PanelView| panel_before(q, pv) && !same_key(q, pv)));
    assert(keep_pred(PanelFilter::After(&p)) =~= (|q: PanelView| panel_before(pv, q) && !same_key(q, pv)));
    out.push(p);
    let ghost with_p = out@;
    assert(panels_view(with_p) =~= a.push(pv));
    out.append(&mut tail);
    proof {
        lemma_panels_view_concat(with_p, tail@);
        assert(a.push(pv) =~= a + seq![pv]);
        let r = panels_view(out@);
        assert(r =~= a + seq![pv] + b);
        let n1 = a.len() as int;
        assert forall|i: int, j: int| 0 <= i < j < r.len() implies panel_before(r[i], r[j]) && !same_key(
            r[i],
            r[j],
        ) by {
            if j < n1 {
                assert(r[i] == a[i] && r[j] == a[j]);
            } else if j == n1 {
                assert(r[i] == a[i] && r[j] == pv);
                assert(keeps(PanelFilter::Before(&p), s[ia[i]]));
            } else if i > n1 {
                assert(r[i] == b[i - n1 - 1] && r[j] == b[j - n1 - 1]);
            } else if i == n1 {
                assert(r[j] == b[j - n1 - 1]);
                assert(keeps(PanelFilter::After(&p), s[ib[j - n1 - 1]]));
            } else {
                let x = ia[i];
                let y = ib[j - n1 - 1];
                assert(r[i] == s[x]);
                assert(r[j] == s[y]);
                assert(keeps(PanelFilter::Before(&p), s[x]));
                assert(keeps(PanelFilter::After(&p), s[y]));
                lemma_panel_before_transitive(s[x], pv, s[y]);
                if x == y {
                    lemma_panel_before_asymmetric(s[x], pv);
                } else if x < y {
                    assert(!same_key(s[x], s[y]));
                } else {
                    assert(!same_key(s[y], s[x]));
                }
            }
        }
    }
    out
}

impl CustomHostPanelHub {
    #[verifier::type_invariant]
    spec fn inv(self) -> bool {
        panels_sorted(panels_view(self.panels@))
    }

    /// An empty hub.
    pub fn new() -> (hub: Self)
        ensures
            hub@.panels == Seq::<PanelView>::empty(),
            hub@.next_revision == 0,
    {
        let hub = CustomHostPanelHub { panels: Vec::new(), next_revision: 0 };
        assert(panels_view(hub.panels@) =~= Seq::<PanelView>::empty());
        hub
    }

    /// Publishes `panel` under its audience and id, replacing what was
    /// published under the same key; a panel with a blank id is ignored. A
    /// panel without elements but with a body gets the body as its one text
    /// element, and every published panel gets the next revision.
    pub fn publish(&mut self, panel: CustomHostPanel)
        ensures
            final(self)@ == after_publish(old(self)@, panel@),
            panels_sorted(final(self)@.panels),
    {
        proof {
            use_type_invariant(&*self);
        }
        if is_blank(panel.id.as_str()) {
            return;
        }
        let mut panel = panel;
        let ghost given = panel@;
        if panel.elements.len() == 0 && !panel.body.as_str().is_empty() {
            let text = panel.body.clone();
            panel.elements.push(CustomHostPanelElement::Text(text));
            assert(elements_view(panel.elements@) =~= seq![ElementView::Text(given.body)]);
        }
        let rev = self.next_revision.wrapping_add(1);
        panel.revision = rev;
        assert(panel@ == published(given, next_rev(self.next_revision)));
        let new_panels = insert_panel(&self.panels, panel);
        self.panels = new_panels;
        self.next_revision = rev;
    }

    /// Publishes `panel` for the viewer with `identity` only.
    pub fn publish_for_viewer_identity(&mut self, panel: CustomHostPanel, identity: String)
        ensures
            final(self)@ == after_publish(
                old(self)@,
                PanelView { audience: CustomHostPanelAudience::ViewerIdentity(identity), ..panel@ },
            ),
    {
        self.publish(panel.for_viewer_identity(identity));
    }

    /// Publishes `panel` for viewers named `name` only.
    pub fn publish_for_viewer_name(&mut self, panel: CustomHostPanel, name: String)
        ensures
            final(self)@ == after_publish(
                old(self)@,
                PanelView { audience: CustomHostPanelAudience::ViewerName(name), ..panel@ },
            ),
    {
        self.publish(panel.for_viewer_name(name));
    }

    /// The panels, in panel order.
    pub fn snapshot(&self) -> (r: Vec<CustomHostPanel>)
        ensures
            panels_view(r@) == self@.panels,
            panels_sorted(panels_view(r@)),
    {
        proof {
            use_type_invariant(self);
        }
        let mut r: Vec<CustomHostPanel> = Vec::new();
        let mut i: usize = 0;
        while i < self.panels.len()
            invariant
                i <= self.panels@.len(),
                r@.len() == i,
                forall|k: int| 0 <= k < i ==> #[trigger] r@[k]@ == self.panels@[k]@,
            decreases self.panels@.len() - i,
        {
            r.push(self.panels[i].clone());
            i = i + 1;
        }
        assert(panels_view(r@) =~= panels_view(self.panels@));
        r
    }

    /// The panels a viewer with this identity and name may see, in panel order.
    pub fn snapshot_for_viewer(&self, viewer_identity: Option<&str>, viewer_name: Option<&str>) -> (r: Vec<CustomHostPanel>)
        ensures
            panels_view(r@) == self@.panels.filter(panel_visible(opt_text(viewer_identity), opt_text(viewer_name))),
            panels_sorted(panels_view(r@)),
    {
        proof {
            use_type_invariant(self);
        }
        let f = PanelFilter::Viewer(viewer_identity, viewer_name);
        assert(keep_pred(f) =~= panel_visible(opt_text(viewer_identity), opt_text(viewer_name)));
        let (r, _) = filter_panels(&self.panels, &f);
        r
    }

    /// Removes the panels with this id, for every audience, and advances the
    /// revision.
    pub fn clear(&mut self, id: &str)
        ensures
            final(self)@.panels == old(self)@.panels.filter(panel_id_differs(id@)),
            final(self)@.next_revision == next_rev(old(self)@.next_revision),
    {
        proof {
            use_type_invariant(&*self);
        }
        let f = PanelFilter::OtherIds(id);
        assert(keep_pred(f) =~= panel_id_differs(id@));
        let (kept, _) = filter_panels(&self.panels, &f);
        self.panels = kept;
        self.next_revision = self.next_revision.wrapping_add(1);
    }

    /// Removes the panels placed at `anchor` and advances the revision.
    pub fn clear_region(&mut self, anchor: CustomHostPanelAnchor)
        ensures
            final(self)@.panels == old(self)@.panels.filter(panel_anchor_differs(anchor)),
            final(self)@.next_revision == next_rev(old(self)@.next_revision),
    {
        proof {
            use_type_invariant(&*self);
        }
        let f = PanelFilter::OtherAnchors(&anchor);
        assert(keep_pred(f) =~= panel_anchor_differs(anchor));
        let (kept, _) = filter_panels(&self.panels, &f);
        self.panels = kept;
        self.next_revision = self.next_revision.wrapping_add(1);
    }
}

impl Default for CustomHostPanelHub {
    fn default() -> (hub: Self)
        ensures
            hub@.panels == Seq::<PanelView>::empty(),
            hub@.next_revision == 0,
    {
        CustomHostPanelHub::new()
    }
}

/// A text panel for every viewer: its body is also its one text element.
pub open spec fn text_panel(id: String, title: String, body: String, anchor: CustomHostPanelAnchor, order: i32) -> PanelView {
    PanelView {
        id: id,
        title: title,
        body: body,
        elements: seq![ElementView::Text(body)],
        revision: 0,
        anchor: anchor,
        order: order,
        size_hint: None,
        style_hint: None,
        audience: CustomHostPanelAudience::All,
    }
}

fn make_text_panel(id: String, title: String, body: String, anchor: CustomHostPanelAnchor, order: i32) -> (p: CustomHostPanel)
    ensures
        p@ == text_panel(id, title, body, anchor, order),
{
    let text = body.clone();
    let p = CustomHostPanel {
        id,
        title,
        body,
        elements: vec![CustomHostPanelElement::Text(text)],
        revision: 0,
        anchor,
        order,
        size_hint: None,
        style_hint: None,
        audience: CustomHostPanelAudience::All,
    };
    assert(elements_view(p.elements@) =~= seq![ElementView::Text(p.body)]);
    p
}

impl CustomHostPanelHub {
    /// Publishes a text panel for every viewer, right of the stream.
    pub fn publish_text(&mut self, id: String, title: String, body: String)
        ensures
            final(self)@ == after_publish(
                old(self)@,
                text_panel(id, title, body, CustomHostPanelAnchor::RightOfStream, 0),
            ),
    {
        self.publish(make_text_panel(id, title, body, CustomHostPanelAnchor::RightOfStream, 0));
    }

    /// Publishes a text panel for every viewer in `region`.
    pub fn publish_text_in_region(&mut self, id: String, title: String, body: String, region: CustomHostPanelRegion)
        ensures
            final(self)@ == after_publish(
                old(self)@,
                text_panel(
                    id,
                    title,
                    body,
                    match region {
                        CustomHostPanelRegion::LeftOfStream => CustomHostPanelAnchor::LeftOfStream,
                        CustomHostPanelRegion::RightOfStream => CustomHostPanelAnchor::RightOfStream,
                        CustomHostPanelRegion::BelowStream => CustomHostPanelAnchor::BelowStream,
                        CustomHostPanelRegion::AboveStream => CustomHostPanelAnchor::AboveStream,
                        CustomHostPanelRegion::SidePanelDefault => CustomHostPanelAnchor::RightOfStream,
                    },
                    0,
                ),
            ),
    {
        self.publish(make_text_panel(id, title, body, region.anchor(), 0));
    }

    /// Publishes a text panel for every viewer at `anchor`, at `order` among
    /// the panels there.
    pub fn publish_text_at(&mut self, id: String, title: String, body: String, anchor: CustomHostPanelAnchor, order: i32)
        ensures
            final(self)@ == after_publish(old(self)@, text_panel(id, title, body, anchor, order)),
    {
        self.publish(make_text_panel(id, title, body, anchor, order));
    }
}

proof fn lemma_filter_index<A>(s: Seq<A>, pred: spec_fn(A) -> bool, x: A)
    requires
        s.filter(pred).contains(x),
    ensures
        pred(x),
        s.contains(x),
{
    let i = choose|i: int| 0 <= i < s.filter(pred).len() && s.filter(pred)[i] == x;
    s.lemma_filter_pred(pred, i);
    s.lemma_filter_contains_rev(pred, x);
}

/// A panel just published (with a non-blank id) is in the snapshot of every
/// viewer its audience admits.
pub proof fn lemma_published_panel_is_visible(
    m: PanelHubModel,
    p: PanelView,
    identity: Option<Seq<char>>,
    name: Option<Seq<char>>,
)
    requires
        !is_blank_spec(encode_utf8(p.id@)),
        viewer_sees(p.audience, identity, name),
    ensures
        after_publish(m, p).panels.filter(panel_visible(identity, name)).contains(
            published(p, next_rev(m.next_revision)),
        ),
{
    let pp = published(p, next_rev(m.next_revision));
    let s = after_publish(m, p).panels;
    let a = m.panels.filter(|q: PanelView| panel_before(q, pp) && !same_key(q, pp));
    assert(s[a.len() as int] == pp);
    s.lemma_filter_contains(panel_visible(identity, name), a.len() as int);
}

/// Publishing keeps every panel stored under another key.
pub proof fn lemma_publish_keeps_other_keys(m: PanelHubModel, p: PanelView, q: PanelView)
    requires
        m.panels.contains(q),
        !same_key(q, p),
    ensures
        after_publish(m, p).panels.contains(q),
{
    if !is_blank_spec(encode_utf8(p.id@)) {
        let pp = published(p, next_rev(m.next_revision));
        let pa = |x: PanelView| panel_before(x, pp) && !same_key(x, pp);
        let pb = |x: PanelView| panel_before(pp, x) && !same_key(x, pp);
        let a = m.panels.filter(pa);
        let b = m.panels.filter(pb);
        let s = after_publish(m, p).panels;
        assert(s == a + seq![pp] + b);
        let k = choose|k: int| 0 <= k < m.panels.len() && m.panels[k] == q;
        lemma_panel_before_total(q, pp);
        if panel_before(q, pp) {
            m.panels.lemma_filter_contains(pa, k);
            let i = choose|i: int| 0 <= i < a.len() && a[i] == q;
            assert(s[i] == q);
        } else {
            m.panels.lemma_filter_contains(pb, k);
            let i = choose|i: int| 0 <= i < b.len() && b[i] == q;
            assert(s[a.len() + 1 + i] == q);
        }
    }
}

/// After publishing (with a non-blank id), the published panel is the only
/// one stored under its key.
pub proof fn lemma_publish_replaces_same_key(m: PanelHubModel, p: PanelView, q: PanelView)
    requires
        !is_blank_spec(encode_utf8(p.id@)),
        after_publish(m, p).panels.contains(q),
        same_key(q, p),
    ensures
        q == published(p, next_rev(m.next_revision)),
{
    let pp = published(p, next_rev(m.next_revision));
    let pa = |x: PanelView| panel_before(x, pp) && !same_key(x, pp);
    let pb = |x: PanelView| panel_before(pp, x) && !same_key(x, pp);
    let a = m.panels.filter(pa);
    let b = m.panels.filter(pb);
    let s = after_publish(m, p).panels;
    assert(s == a + seq![pp] + b);
    let i = choose|i: int| 0 <= i < s.len() && s[i] == q;
    if i < a.len() {
        assert(a.contains(q));
        lemma_filter_index(m.panels, pa, q);
    } else if i > a.len() {
        assert(b[i - a.len() - 1] == q);
        assert(b.contains(q));
        lemma_filter_index(m.panels, pb, q);
    }
}

/// Every panel in a viewer's snapshot is published for that viewer: for
/// every viewer, for the viewer's identity, or for the viewer's name.
pub proof fn lemma_snapshot_only_admitted(
    m: PanelHubModel,
    identity: Option<Seq<char>>,
    name: Option<Seq<char>>,
    q: PanelView,
)
    requires
        m.panels.filter(panel_visible(identity, name)).contains(q),
    ensures
        viewer_sees(q.audience, identity, name),
        m.panels.contains(q),
{
    lemma_filter_index(m.panels, panel_visible(identity, name), q);
}

} // verus!
