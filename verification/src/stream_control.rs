//! The stream control panel: three text boxes for the custom-host stream's
//! width, height and frame rate, which take only decimal digits, the status
//! line, and the decisions of the start and stop buttons.

use vstd::prelude::*;
use vstd::string::StringExecFns;
use vstd::string::StringSliceAdditionalSpecFns;
use crate::lab_html::digit_text;
use crate::stream_state::{
    spec_valid_custom_dimensions, valid_custom_dimensions, DirectStreamControlAction, DirectStreamControlResult,
    DirectStreamMode, DirectStreamStartRequest,
};
use crate::text::{all_digits, decimal_value, is_digit, owned, parse_u32, spec_parse_u32};

verus! {

/// One of the panel's text boxes.
#[derive(Clone, Copy, Debug, PartialEq, Eq, Structural)]
pub enum StreamControlInput {
    CustomWidth,
    CustomHeight,
    CustomFps,
}

/// A key typed into the focused text box.
#[derive(Clone, Debug)]
pub enum StreamKey {
    Backspace,
    Enter,
    /// Any other key, with the text it produces, if any.
    Other(Option<String>),
}

/// Why a start request was refused.
#[derive(Clone, Copy, Debug, PartialEq, Eq, Structural)]
pub enum StartRefusal {
    AlreadyStreaming,
    CustomHostUnavailable,
    InvalidDimensions,
    GpuPaletteUnavailable,
    CameraRetargetFailed,
    PipelineRetargetFailed,
    PreviewMode,
}

/// The ASCII digits of `s`, in order.
pub open spec fn digits_of(s: Seq<u8>) -> Seq<u8>
    decreases s.len(),
{
    if s.len() == 0 {
        Seq::empty()
    } else if is_digit(s.last()) {
        digits_of(s.drop_last()).push(s.last())
    } else {
        digits_of(s.drop_last())
    }
}

/// The decimal digits of `v`, as ASCII bytes, without leading zeros.
pub open spec fn decimal_bytes(v: nat) -> Seq<u8>
    decreases v,
{
    if v < 10 {
        seq![(48 + v) as u8]
    } else {
        decimal_bytes(v / 10).push((48 + v % 10) as u8)
    }
}

/// ASCII bytes read as characters.
pub open spec fn ascii_chars(s: Seq<u8>) -> Seq<char> {
    s.map_values(|b: u8| b as char)
}

/// The status line shown for a refused start.
pub open spec fn refusal_text(r: StartRefusal) -> Seq<char> {
    match r {
        StartRefusal::AlreadyStreaming => "Already streaming"@,
        StartRefusal::CustomHostUnavailable => "Custom host unavailable"@,
        StartRefusal::InvalidDimensions => "Use an 8-aligned square size 64-256 and fps 1-60"@,
        StartRefusal::GpuPaletteUnavailable => "GPU palette pipeline unavailable"@,
        StartRefusal::CameraRetargetFailed => "Could not retarget stream camera"@,
        StartRefusal::PipelineRetargetFailed => "Could not retarget GPU output pipeline"@,
        StartRefusal::PreviewMode => "Preview mode cannot be started through custom host control"@,
    }
}

/// The first check a start request fails, in the order the panel makes
/// them: already streaming, no custom host, invalid size or rate, no GPU
/// palette pipeline.
pub open spec fn spec_start_refusal(
    streaming: bool,
    custom_host_available: bool,
    width: u32,
    height: u32,
    fps: u32,
    gpu_palette_available: bool,
) -> Option<StartRefusal> {
    if streaming {
        Some(StartRefusal::AlreadyStreaming)
    } else if !custom_host_available {
        Some(StartRefusal::CustomHostUnavailable)
    } else if !spec_valid_custom_dimensions(width, height, fps) {
        Some(StartRefusal::InvalidDimensions)
    } else if !gpu_palette_available {
        Some(StartRefusal::GpuPaletteUnavailable)
    } else {
        None
    }
}

/// Why a start request cannot go ahead, if it cannot.
pub fn start_refusal(
    streaming: bool,
    custom_host_available: bool,
    width: u32,
    height: u32,
    fps: u32,
    gpu_palette_available: bool,
) -> (r: Option<StartRefusal>)
    ensures
        r == spec_start_refusal(streaming, custom_host_available, width, height, fps, gpu_palette_available),
{
    if streaming {
        Some(StartRefusal::AlreadyStreaming)
    } else if !custom_host_available {
        Some(StartRefusal::CustomHostUnavailable)
    } else if !valid_custom_dimensions(width, height, fps) {
        Some(StartRefusal::InvalidDimensions)
    } else if !gpu_palette_available {
        Some(StartRefusal::GpuPaletteUnavailable)
    } else {
        None
    }
}

/// The decimal digits of a value, as ASCII bytes.
pub fn decimal_digit_bytes(v: u32) -> (out: Vec<u8>)
    ensures
        out@ == decimal_bytes(v as nat),
    decreases v,
{
    let mut out = if v >= 10 {
        decimal_digit_bytes(v / 10)
    } else {
        Vec::new()
    };
    out.push((48 + v % 10) as u8);
    proof {
        if v < 10 {
            assert(out@ =~= seq![(48 + v) as u8]);
        }
    }
    out
}

/// The digits of a value are digits, and read back as the value.
pub proof fn lemma_decimal_bytes_parse(v: nat)
    requires
        v <= u32::MAX,
    ensures
        all_digits(decimal_bytes(v)),
        decimal_bytes(v).len() > 0,
        decimal_value(decimal_bytes(v)) == v,
        spec_parse_u32(decimal_bytes(v)) == Some(v as u32),
    decreases v,
{
    let s = decimal_bytes(v);
    if v >= 10 {
        lemma_decimal_bytes_parse(v / 10);
        let p = decimal_bytes(v / 10);
        assert(s == p.push((48 + v % 10) as u8));
        assert(s.drop_last() =~= p);
        assert forall|i: int| 0 <= i < s.len() implies is_digit(#[trigger] s[i]) by {
            if i < p.len() {
                assert(s[i] == p[i]);
            }
        }
        assert(decimal_value(s) == decimal_value(p) * 10 + (v % 10));
        assert(decimal_value(s) == v);
    } else {
        assert(s =~= seq![(48 + v) as u8]);
        assert(s.drop_last() =~= Seq::<u8>::empty());
        assert(decimal_value(s.drop_last()) == 0);
        assert(decimal_value(s) == v);
    }
    assert(is_digit(s[0]));
}

/// Keeping the digits of a text and then of more text keeps the digits of
/// both.
proof fn lemma_digits_of_push(s: Seq<u8>, b: u8)
    ensures
        digits_of(s.push(b)) == if is_digit(b) {
            digits_of(s).push(b)
        } else {
            digits_of(s)
        },
{
    assert(s.push(b).drop_last() =~= s);
}

proof fn lemma_digits_are_digits(s: Seq<u8>)
    ensures
        all_digits(digits_of(s)),
    decreases s.len(),
{
    if s.len() > 0 {
        lemma_digits_are_digits(s.drop_last());
    }
}

/// What the panel holds.
pub struct StreamControlView {
    pub width_text: Seq<u8>,
    pub height_text: Seq<u8>,
    pub fps_text: Seq<u8>,
    pub focused: Option<StreamControlInput>,
    pub status: Seq<char>,
}

/// The text of one box.
pub open spec fn field_of(m: StreamControlView, input: StreamControlInput) -> Seq<u8> {
    match input {
        StreamControlInput::CustomWidth => m.width_text,
        StreamControlInput::CustomHeight => m.height_text,
        StreamControlInput::CustomFps => m.fps_text,
    }
}

/// The panel with one box's text replaced.
pub open spec fn with_field(m: StreamControlView, input: StreamControlInput, text: Seq<u8>) -> StreamControlView {
    match input {
        StreamControlInput::CustomWidth => StreamControlView { width_text: text, ..m },
        StreamControlInput::CustomHeight => StreamControlView { height_text: text, ..m },
        StreamControlInput::CustomFps => StreamControlView { fps_text: text, ..m },
    }
}

/// What the start button finds in the boxes: the three numbers, when each
/// box reads as a `u32` and together they make a valid stream.
pub open spec fn spec_custom_dimensions(m: StreamControlView) -> Result<(u32, u32, u32), ()> {
    match (spec_parse_u32(m.width_text), spec_parse_u32(m.height_text), spec_parse_u32(m.fps_text)) {
        (Some(w), Some(h), Some(f)) => if spec_valid_custom_dimensions(w, h, f) {
            Ok((w, h, f))
        } else {
            Err(())
        },
        _ => Err(()),
    }
}

/// The control panel.
pub struct StreamControl {
    custom_width: Vec<u8>,
    custom_height: Vec<u8>,
    custom_fps: Vec<u8>,
    focused_input: Option<StreamControlInput>,
    status: String,
}

impl View for StreamControl {
    type V = StreamControlView;

    closed spec fn view(&self) -> StreamControlView {
        StreamControlView {
            width_text: self.custom_width@,
            height_text: self.custom_height@,
            fps_text: self.custom_fps@,
            focused: self.focused_input,
            status: self.status@,
        }
    }
}

impl StreamControl {
    /// The boxes only ever hold decimal digits.
    #[verifier::type_invariant]
    closed spec fn digits_only(&self) -> bool {
        &&& all_digits(self.custom_width@)
        &&& all_digits(self.custom_height@)
        &&& all_digits(self.custom_fps@)
    }

    /// A panel showing the configured size and rate, nothing focused, and
    /// the status `Ready`.
    pub fn new(stream_width: u32, stream_height: u32, stream_fps: u32) -> (c: Self)
        ensures
            c@.width_text == decimal_bytes(stream_width as nat),
            c@.height_text == decimal_bytes(stream_height as nat),
            c@.fps_text == decimal_bytes(stream_fps as nat),
            c@.focused == None::<StreamControlInput>,
            c@.status == "Ready"@,
    {
        proof {
            lemma_decimal_bytes_parse(stream_width as nat);
            lemma_decimal_bytes_parse(stream_height as nat);
            lemma_decimal_bytes_parse(stream_fps as nat);
        }
        StreamControl {
            custom_width: decimal_digit_bytes(stream_width),
            custom_height: decimal_digit_bytes(stream_height),
            custom_fps: decimal_digit_bytes(stream_fps),
            focused_input: None,
            status: owned("Ready"),
        }
    }

    /// The box that has the keyboard, if any.
    pub fn focused_input(&self) -> (f: Option<StreamControlInput>)
        ensures
            f == self@.focused,
    {
        self.focused_input
    }

    /// Gives the keyboard to a box (it was clicked).
    pub fn focus(&mut self, input: StreamControlInput)
        ensures
            final(self)@ == (StreamControlView { focused: Some(input), ..old(self)@ }),
    {
        proof {
            use_type_invariant(&*self);
        }
        self.focused_input = Some(input);
    }

    /// The status line.
    pub fn status(&self) -> (s: &str)
        ensures
            s@ == self@.status,
    {
        self.status.as_str()
    }

    /// Replaces the status line.
    pub fn set_status(&mut self, status: &str)
        ensures
            final(self)@ == (StreamControlView { status: status@, ..old(self)@ }),
    {
        proof {
            use_type_invariant(&*self);
        }
        self.status = owned(status);
    }

    /// The text a box shows.
    pub fn field_text(&self, input: StreamControlInput) -> (s: String)
        ensures
            s@ == ascii_chars(field_of(self@, input)),
    {
        proof {
            use_type_invariant(self);
        }
        let bytes = match input {
            StreamControlInput::CustomWidth => &self.custom_width,
            StreamControlInput::CustomHeight => &self.custom_height,
            StreamControlInput::CustomFps => &self.custom_fps,
        };
        let mut s = String::new();
        let mut k: usize = 0;
        while k < bytes.len()
            invariant
                k <= bytes@.len(),
                all_digits(bytes@),
                s@ == ascii_chars(bytes@.take(k as int)),
            decreases bytes@.len() - k,
        {
            let b = bytes[k];
            assert(is_digit(bytes@[k as int]));
            s.append(digit_text((b - 48) as u32));
            assert(ascii_chars(bytes@.take(k + 1)) =~= ascii_chars(bytes@.take(k as int)).push(b as char));
            k = k + 1;
        }
        assert(bytes@.take(bytes@.len() as int) =~= bytes@);
        s
    }

    /// Appends the ASCII digits of `text` to a box; other characters are
    /// dropped.
    pub fn push_focused_text(&mut self, focused_input: StreamControlInput, text: &str)
        ensures
            final(self)@ == with_field(
                old(self)@,
                focused_input,
                field_of(old(self)@, focused_input) + digits_of(text.spec_bytes()),
            ),
    {
        let ghost before = self@;
        let bytes = text.as_bytes();
        let n = bytes.len();
        let mut digits: Vec<u8> = Vec::new();
        let mut k: usize = 0;
        while k < n
            invariant
                k <= n,
                n == bytes@.len(),
                digits@ == digits_of(bytes@.take(k as int)),
            decreases n - k,
        {
            let b = bytes[k];
            proof {
                lemma_digits_of_push(bytes@.take(k as int), b);
                assert(bytes@.take(k + 1) =~= bytes@.take(k as int).push(b));
            }
            if 48 <= b && b <= 57 {
                digits.push(b);
            }
            k = k + 1;
        }
        assert(bytes@.take(n as int) =~= bytes@);
        proof {
            lemma_digits_are_digits(bytes@);
            use_type_invariant(&*self);
        }
        match focused_input {
            StreamControlInput::CustomWidth => {
                let mut field: Vec<u8> = Vec::new();
                std::mem::swap(&mut field, &mut self.custom_width);
                field.append(&mut digits);
                assert(all_digits(field@));
                self.custom_width = field;
            },
            StreamControlInput::CustomHeight => {
                let mut field: Vec<u8> = Vec::new();
                std::mem::swap(&mut field, &mut self.custom_height);
                field.append(&mut digits);
                assert(all_digits(field@));
                self.custom_height = field;
            },
            StreamControlInput::CustomFps => {
                let mut field: Vec<u8> = Vec::new();
                std::mem::swap(&mut field, &mut self.custom_fps);
                field.append(&mut digits);
                assert(all_digits(field@));
                self.custom_fps = field;
            },
        }
    }

    /// Removes the last character of a box, if it has one.
    pub fn pop_focused_text(&mut self, focused_input: StreamControlInput)
        ensures
            final(self)@ == with_field(
                old(self)@,
                focused_input,
                if field_of(old(self)@, focused_input).len() > 0 {
                    field_of(old(self)@, focused_input).drop_last()
                } else {
                    field_of(old(self)@, focused_input)
                },
            ),
    {
        proof {
            use_type_invariant(&*self);
        }
        match focused_input {
            StreamControlInput::CustomWidth => {
                let mut field: Vec<u8> = Vec::new();
                std::mem::swap(&mut field, &mut self.custom_width);
                if field.len() > 0 {
                    field.pop();
                }
                assert(all_digits(field@));
                self.custom_width = field;
            },
            StreamControlInput::CustomHeight => {
                let mut field: Vec<u8> = Vec::new();
                std::mem::swap(&mut field, &mut self.custom_height);
                if field.len() > 0 {
                    field.pop();
                }
                assert(all_digits(field@));
                self.custom_height = field;
            },
            StreamControlInput::CustomFps => {
                let mut field: Vec<u8> = Vec::new();
                std::mem::swap(&mut field, &mut self.custom_fps);
                if field.len() > 0 {
                    field.pop();
                }
                assert(all_digits(field@));
                self.custom_fps = field;
            },
        }
    }

    /// A key typed while a box may have the keyboard: Backspace deletes,
    /// Enter lets go of the keyboard, and any other key adds its text unless
    /// Control is held. Without a focused box nothing happens.
    pub fn type_key(&mut self, key: &StreamKey, control_held: bool)
        ensures
            match old(self)@.focused {
                None => final(self)@ == old(self)@,
                Some(input) => match key {
                    StreamKey::Backspace => final(self)@ == with_field(
                        old(self)@,
                        input,
                        if field_of(old(self)@, input).len() > 0 {
                            field_of(old(self)@, input).drop_last()
                        } else {
                            field_of(old(self)@, input)
                        },
                    ),
                    StreamKey::Enter => final(self)@ == (StreamControlView { focused: None, ..old(self)@ }),
                    StreamKey::Other(text) => match text {
                        Some(t) => if control_held {
                            final(self)@ == old(self)@
                        } else {
                            final(self)@ == with_field(
                                old(self)@,
                                input,
                                field_of(old(self)@, input) + digits_of(vstd::utf8::encode_utf8(t@)),
                            )
                        },
                        None => final(self)@ == old(self)@,
                    },
                },
            },
    {
        proof {
            use_type_invariant(&*self);
        }
        let focused = match self.focused_input {
            Some(input) => input,
            None => return,
        };
        match key {
            StreamKey::Backspace => self.pop_focused_text(focused),
            StreamKey::Enter => self.focused_input = None,
            StreamKey::Other(text) => {
                if !control_held {
                    if let Some(t) = text {
                        self.push_focused_text(focused, t.as_str());
                    }
                }
            },
        }
    }

    /// Text pasted from the clipboard goes into the focused box (its digits
    /// only), and the status says so. Without a focused box nothing happens.
    pub fn paste(&mut self, text: &str)
        ensures
            match old(self)@.focused {
                None => final(self)@ == old(self)@,
                Some(input) => final(self)@ == (StreamControlView {
                    status: "Pasted"@,
                    ..with_field(old(self)@, input, field_of(old(self)@, input) + digits_of(text.spec_bytes()))
                }),
            },
    {
        proof {
            use_type_invariant(&*self);
        }
        if let Some(focused) = self.focused_input {
            self.push_focused_text(focused, text);
            proof {
                use_type_invariant(&*self);
            }
            self.status = owned("Pasted");
        }
    }

    /// The clipboard could not be read; `reason` says why. Without a focused
    /// box nothing happens.
    pub fn paste_failed(&mut self, reason: &str)
        ensures
            match old(self)@.focused {
                None => final(self)@ == old(self)@,
                Some(_) => final(self)@ == (StreamControlView {
                    status: "Clipboard unavailable: "@ + reason@,
                    ..old(self)@
                }),
            },
    {
        proof {
            use_type_invariant(&*self);
        }
        if self.focused_input.is_some() {
            let mut status = owned("Clipboard unavailable: ");
            status.append(reason);
            self.status = status;
        }
    }

    /// The size and rate the boxes ask for, if they read as numbers that make
    /// a valid stream.
    pub fn custom_dimensions(&self) -> (r: Result<(u32, u32, u32), ()>)
        ensures
            r == spec_custom_dimensions(self@),
    {
        let width = match parse_u32(self.custom_width.as_slice()) {
            Some(v) => v,
            None => return Err(()),
        };
        let height = match parse_u32(self.custom_height.as_slice()) {
            Some(v) => v,
            None => return Err(()),
        };
        let fps = match parse_u32(self.custom_fps.as_slice()) {
            Some(v) => v,
            None => return Err(()),
        };
        if !valid_custom_dimensions(width, height, fps) {
            return Err(());
        }
        Ok((width, height, fps))
    }

    /// The start button was pressed: a custom-host start request for the
    /// boxes' size and rate, or, when they do not make a valid stream, none,
    /// with the status saying what is allowed.
    pub fn press_start(&mut self) -> (r: Option<DirectStreamStartRequest>)
        ensures
            match spec_custom_dimensions(old(self)@) {
                Ok((w, h, f)) => r == Some(
                    DirectStreamStartRequest { mode: DirectStreamMode::CustomHost, width: w, height: h, fps: f },
                ) && final(self)@ == old(self)@,
                Err(_) => r is None && final(self)@ == (StreamControlView {
                    status: refusal_text(StartRefusal::InvalidDimensions),
                    ..old(self)@
                }),
            },
    {
        proof {
            use_type_invariant(&*self);
        }
        match self.custom_dimensions() {
            Ok((width, height, fps)) => Some(DirectStreamStartRequest::custom_host(width, height, fps)),
            Err(()) => {
                self.status = owned("Use an 8-aligned square size 64-256 and fps 1-60");
                proof {
                    reveal_strlit("Use an 8-aligned square size 64-256 and fps 1-60");
                }
                None
            },
        }
    }

    /// The result of a control action, carrying the current status line.
    pub fn control_result(&self, action: DirectStreamControlAction, success: bool) -> (r: DirectStreamControlResult)
        ensures
            r.action == action,
            r.success == success,
            r.status@ == self@.status,
    {
        DirectStreamControlResult { action, success, status: self.status.clone() }
    }

    /// A start request was refused: the status says why, and the result
    /// reports a failed start.
    pub fn refuse_start(&mut self, refusal: StartRefusal) -> (r: DirectStreamControlResult)
        ensures
            final(self)@ == (StreamControlView { status: refusal_text(refusal), ..old(self)@ }),
            r.action == DirectStreamControlAction::Start,
            !r.success,
            r.status@ == refusal_text(refusal),
    {
        proof {
            use_type_invariant(&*self);
        }
        let text = match refusal {
            StartRefusal::AlreadyStreaming => "Already streaming",
            StartRefusal::CustomHostUnavailable => "Custom host unavailable",
            StartRefusal::InvalidDimensions => "Use an 8-aligned square size 64-256 and fps 1-60",
            StartRefusal::GpuPaletteUnavailable => "GPU palette pipeline unavailable",
            StartRefusal::CameraRetargetFailed => "Could not retarget stream camera",
            StartRefusal::PipelineRetargetFailed => "Could not retarget GPU output pipeline",
            StartRefusal::PreviewMode => "Preview mode cannot be started through custom host control",
        };
        self.status = owned(text);
        self.control_result(DirectStreamControlAction::Start, false)
    }

    /// The custom-host stream started.
    pub fn started(&mut self) -> (r: DirectStreamControlResult)
        ensures
            final(self)@ == (StreamControlView { status: "Custom host streaming"@, ..old(self)@ }),
            r.action == DirectStreamControlAction::Start,
            r.success,
            r.status@ == "Custom host streaming"@,
    {
        proof {
            use_type_invariant(&*self);
        }
        self.status = owned("Custom host streaming");
        self.control_result(DirectStreamControlAction::Start, true)
    }

    /// A stop request: refused with `Not streaming` when nothing streams
    /// (or `Custom host unavailable` without the custom host), otherwise
    /// the stream stops.
    pub fn stop(&mut self, custom_host_available: bool, streaming: bool) -> (r: DirectStreamControlResult)
        ensures
            r.action == DirectStreamControlAction::Stop,
            r.success == (custom_host_available && streaming),
            r.status@ == final(self)@.status,
            final(self)@ == (StreamControlView {
                status: if !custom_host_available {
                    "Custom host unavailable"@
                } else if !streaming {
                    "Not streaming"@
                } else {
                    "Custom host stopped"@
                },
                ..old(self)@
            }),
    {
        proof {
            use_type_invariant(&*self);
        }
        if !custom_host_available {
            self.status = owned("Custom host unavailable");
            return self.control_result(DirectStreamControlAction::Stop, false);
        }
        if !streaming {
            self.status = owned("Not streaming");
            return self.control_result(DirectStreamControlAction::Stop, false);
        }
        self.status = owned("Custom host stopped");
        self.control_result(DirectStreamControlAction::Stop, true)
    }
}

/// A panel made from a valid size and rate starts a stream of exactly that
/// size and rate: what `new` writes into the boxes, the start button reads
/// back.
pub proof fn lemma_configured_dimensions_read_back(m: StreamControlView, width: u32, height: u32, fps: u32)
    requires
        m.width_text == decimal_bytes(width as nat),
        m.height_text == decimal_bytes(height as nat),
        m.fps_text == decimal_bytes(fps as nat),
        spec_valid_custom_dimensions(width, height, fps),
    ensures
        spec_custom_dimensions(m) == Ok::<(u32, u32, u32), ()>((width, height, fps)),
{
    lemma_decimal_bytes_parse(width as nat);
    lemma_decimal_bytes_parse(height as nat);
    lemma_decimal_bytes_parse(fps as nat);
}

/// Typing a digit and then Backspace into the focused box leaves the box as
/// it was.
pub proof fn lemma_backspace_undoes_a_digit(m: StreamControlView, input: StreamControlInput, d: u8)
    requires
        is_digit(d),
    ensures
        ({
            let typed = with_field(m, input, field_of(m, input) + digits_of(seq![d]));
            with_field(typed, input, field_of(typed, input).drop_last()) == m
        }),
{
    assert(seq![d] =~= Seq::<u8>::empty().push(d));
    assert(digits_of(Seq::<u8>::empty()) =~= Seq::<u8>::empty());
    lemma_digits_of_push(Seq::<u8>::empty(), d);
    assert((field_of(m, input) + seq![d]).drop_last() =~= field_of(m, input));
}

} // verus!
