//! Stream modes, start requests, audio delay and the custom-host session state.

use vstd::prelude::*;
use vstd::string::StringExecFns;

verus! {

/// The active PixelStream operating mode.
#[derive(Clone, Copy, Debug, PartialEq, Eq, Structural)]
pub enum DirectStreamMode {
    Preview,
    CustomHost,
}

/// Public stream state for systems that should pause or adapt when
/// custom-host streaming is stopped.
#[derive(Clone, Copy, Debug, PartialEq, Eq, Structural)]
pub struct DirectStreamState {
    pub mode: DirectStreamMode,
    pub active: bool,
    pub width: u32,
    pub height: u32,
    pub fps: u32,
}

impl DirectStreamState {
    /// Whether a stream is running.
    pub fn is_streaming(&self) -> (b: bool)
        ensures
            b == self.active,
    {
        self.active
    }
}

/// A programmatic request to start a stream.
#[derive(Clone, Copy, Debug, PartialEq, Eq, Structural)]
pub struct DirectStreamStartRequest {
    pub mode: DirectStreamMode,
    pub width: u32,
    pub height: u32,
    pub fps: u32,
}

impl DirectStreamStartRequest {
    /// A request to start a custom-host stream of the given size and rate.
    pub fn custom_host(width: u32, height: u32, fps: u32) -> (r: Self)
        ensures
            r == (DirectStreamStartRequest { mode: DirectStreamMode::CustomHost, width, height, fps }),
    {
        DirectStreamStartRequest { mode: DirectStreamMode::CustomHost, width, height, fps }
    }
}

/// Selects whether a stream-space overlay uses the direct or the altered
/// palette lookup table.
#[derive(Clone, Copy, Debug, PartialEq, Eq, Structural)]
pub enum DirectColorLookup {
    Direct,
    Altered,
}

/// A request to stop streaming.
#[derive(Clone, Copy, Debug)]
pub struct DirectStreamStopRequest;

/// Start or stop, as a control result reports it.
#[derive(Clone, Copy, Debug, PartialEq, Eq, Structural)]
pub enum DirectStreamControlAction {
    Start,
    Stop,
}

/// What became of a start or stop request.
#[derive(Clone, Debug)]
pub struct DirectStreamControlResult {
    pub action: DirectStreamControlAction,
    pub success: bool,
    pub status: String,
}

/// Custom-host streams are square, 8-aligned, 64 to 256 pixels wide, at 1 to 60 fps.
pub open spec fn spec_valid_custom_dimensions(width: u32, height: u32, fps: u32) -> bool {
    &&& width == height
    &&& 64 <= width <= 256
    &&& 64 <= height <= 256
    &&& width % 8 == 0
    &&& 1 <= fps <= 60
}

/// Whether a custom-host stream may use this size and frame rate.
pub fn valid_custom_dimensions(width: u32, height: u32, fps: u32) -> (b: bool)
    ensures
        b == spec_valid_custom_dimensions(width, height, fps),
{
    width == height && 64 <= width && width <= 256 && 64 <= height && height <= 256 && width % 8
        == 0 && 1 <= fps && fps <= 60
}

/// How browser audio is delayed relative to video playback.
#[derive(Clone, Copy, Debug, PartialEq, Eq, Structural)]
pub enum AudioSyncMode {
    Fixed,
    MatchEstimatedVideoLatency,
    MatchMeasuredVideoLatency,
}

/// Runtime audio synchronization settings.
#[derive(Clone, Copy, Debug, PartialEq, Eq, Structural)]
pub struct DirectStreamAudioSyncConfig {
    pub mode: AudioSyncMode,
    pub fixed_delay_ms: u32,
    pub extra_delay_ms: i32,
}

impl Default for DirectStreamAudioSyncConfig {
    fn default() -> (c: Self)
        ensures
            c == (DirectStreamAudioSyncConfig {
                mode: AudioSyncMode::Fixed,
                fixed_delay_ms: 1_000,
                extra_delay_ms: 0,
            }),
    {
        DirectStreamAudioSyncConfig { mode: AudioSyncMode::Fixed, fixed_delay_ms: 1_000, extra_delay_ms: 0 }
    }
}

impl DirectStreamAudioSyncConfig {
    /// The delay before the extra offset: the fixed delay, the estimated video
    /// latency, or the measured one when there is a measurement.
    pub open spec fn base_delay(&self, estimated: u32, measured: Option<u32>) -> u32 {
        match self.mode {
            AudioSyncMode::Fixed => self.fixed_delay_ms,
            AudioSyncMode::MatchEstimatedVideoLatency => estimated,
            AudioSyncMode::MatchMeasuredVideoLatency => match measured {
                Some(m) => m,
                None => estimated,
            },
        }
    }

    /// The audio delay: the base delay plus the extra offset, at least zero,
    /// truncated to 32 bits.
    pub fn effective_delay_ms(
        &self,
        estimated_video_latency_ms: u32,
        measured_video_latency_ms: Option<u32>,
    ) -> (delay: u32)
        ensures
            delay == (if self.base_delay(estimated_video_latency_ms, measured_video_latency_ms)
                + self.extra_delay_ms < 0 {
                0
            } else {
                self.base_delay(estimated_video_latency_ms, measured_video_latency_ms)
                    + self.extra_delay_ms
            }) as u32,
    {
        let base = match self.mode {
            AudioSyncMode::Fixed => self.fixed_delay_ms,
            AudioSyncMode::MatchEstimatedVideoLatency => estimated_video_latency_ms,
            AudioSyncMode::MatchMeasuredVideoLatency => match measured_video_latency_ms {
                Some(m) => m,
                None => estimated_video_latency_ms,
            },
        };
        let total = base as i64 + self.extra_delay_ms as i64;
        if total < 0 {
            0
        } else {
            total as u32
        }
    }
}

/// The longest audio delay a custom-host stream applies, in milliseconds.
pub const MAX_AUDIO_DELAY_MS: u32 = 10_000;

/// The settings a running custom-host stream shares with its transport:
/// whether it is active, its size, rate and batch size (each at least 1), its
/// audio delay (at most 10 s) and its session token.
pub struct CustomStreamState {
    active: bool,
    width: u32,
    height: u32,
    fps: u32,
    batch_size: usize,
    audio_delay_ms: u32,
    session_token: String,
}

/// The value of a [`CustomStreamState`].
pub struct CustomStreamModel {
    pub active: bool,
    pub width: u32,
    pub height: u32,
    pub fps: u32,
    pub batch_size: usize,
    pub audio_delay_ms: u32,
    pub session_token: Seq<char>,
}

impl View for CustomStreamState {
    type V = CustomStreamModel;

    closed spec fn view(&self) -> CustomStreamModel {
        CustomStreamModel {
            active: self.active,
            width: self.width,
            height: self.height,
            fps: self.fps,
            batch_size: self.batch_size,
            audio_delay_ms: self.audio_delay_ms,
            session_token: self.session_token@,
        }
    }
}

impl CustomStreamState {
    /// An inactive 1x1 stream at 1 fps, batch size 1, one second of audio delay.
    pub fn new(session_token: String) -> (s: Self)
        ensures
            !s@.active,
            s@.width == 1 && s@.height == 1 && s@.fps == 1 && s@.batch_size == 1,
            s@.audio_delay_ms == 1_000,
            s@.session_token == session_token@,
    {
        CustomStreamState {
            active: false,
            width: 1,
            height: 1,
            fps: 1,
            batch_size: 1,
            audio_delay_ms: 1_000,
            session_token,
        }
    }

    pub fn is_active(&self) -> (b: bool)
        ensures
            b == self@.active,
    {
        self.active
    }

    pub fn set_active(&mut self, active: bool)
        ensures
            final(self)@ == (CustomStreamModel { active, ..old(self)@ }),
    {
        self.active = active;
    }

    pub fn fps(&self) -> (fps: u32)
        ensures
            fps == if self@.fps < 1 {
                1
            } else {
                self@.fps
            },
    {
        if self.fps < 1 {
            1
        } else {
            self.fps
        }
    }

    pub fn batch_size(&self) -> (n: usize)
        ensures
            n == if self@.batch_size < 1 {
                1
            } else {
                self@.batch_size
            },
    {
        if self.batch_size < 1 {
            1
        } else {
            self.batch_size
        }
    }

    pub fn width(&self) -> (w: u32)
        ensures
            w == if self@.width < 1 {
                1
            } else {
                self@.width
            },
    {
        if self.width < 1 {
            1
        } else {
            self.width
        }
    }

    pub fn height(&self) -> (h: u32)
        ensures
            h == if self@.height < 1 {
                1
            } else {
                self@.height
            },
    {
        if self.height < 1 {
            1
        } else {
            self.height
        }
    }

    /// Stores the stream size, each dimension at least 1.
    pub fn set_dimensions(&mut self, width: u32, height: u32)
        ensures
            final(self)@ == (CustomStreamModel {
                width: if width < 1 {
                    1
                } else {
                    width
                },
                height: if height < 1 {
                    1
                } else {
                    height
                },
                ..old(self)@
            }),
    {
        self.width = if width < 1 {
            1
        } else {
            width
        };
        self.height = if height < 1 {
            1
        } else {
            height
        };
    }

    /// Stores the frame rate, at least 1.
    pub fn set_fps(&mut self, fps: u32)
        ensures
            final(self)@ == (CustomStreamModel {
                fps: if fps < 1 {
                    1
                } else {
                    fps
                },
                ..old(self)@
            }),
    {
        self.fps = if fps < 1 {
            1
        } else {
            fps
        };
    }

    /// Stores the frame batch size, at least 1.
    pub fn set_batch_size(&mut self, batch_size: usize)
        ensures
            final(self)@ == (CustomStreamModel {
                batch_size: if batch_size < 1 {
                    1
                } else {
                    batch_size
                },
                ..old(self)@
            }),
    {
        self.batch_size = if batch_size < 1 {
            1
        } else {
            batch_size
        };
    }

    pub fn audio_delay_ms(&self) -> (d: u32)
        ensures
            d == self@.audio_delay_ms,
    {
        self.audio_delay_ms
    }

    /// Stores the audio delay, at most 10 seconds.
    pub fn set_audio_delay_ms(&mut self, audio_delay_ms: u32)
        ensures
            final(self)@ == (CustomStreamModel {
                audio_delay_ms: if audio_delay_ms > MAX_AUDIO_DELAY_MS {
                    MAX_AUDIO_DELAY_MS
                } else {
                    audio_delay_ms
                },
                ..old(self)@
            }),
    {
        self.audio_delay_ms = if audio_delay_ms > MAX_AUDIO_DELAY_MS {
            MAX_AUDIO_DELAY_MS
        } else {
            audio_delay_ms
        };
    }

    pub fn session_token(&self) -> (t: &str)
        ensures
            t@ == self@.session_token,
    {
        self.session_token.as_str()
    }
}

/// The lowercase hex digit of a nibble.
pub open spec fn hex_digit(n: u8) -> char {
    if n < 10 {
        (48 + n) as char
    } else {
        (87 + n) as char
    }
}

/// Two lowercase hex digits per byte, most significant first.
pub open spec fn hex_lower(bytes: Seq<u8>) -> Seq<char>
    decreases bytes.len(),
{
    if bytes.len() == 0 {
        Seq::empty()
    } else {
        hex_lower(bytes.drop_last()) + seq![
            hex_digit(bytes.last() / 16),
            hex_digit(bytes.last() % 16),
        ]
    }
}

fn hex_digit_text(n: u8) -> (s: &'static str)
    requires
        n < 16,
    ensures
        s@ == seq![hex_digit(n)],
{
    let s = match n {
        0 => "0",
        1 => "1",
        2 => "2",
        3 => "3",
        4 => "4",
        5 => "5",
        6 => "6",
        7 => "7",
        8 => "8",
        9 => "9",
        10 => "a",
        11 => "b",
        12 => "c",
        13 => "d",
        14 => "e",
        _ => "f",
    };
    proof {
        reveal_strlit("0");
        reveal_strlit("1");
        reveal_strlit("2");
        reveal_strlit("3");
        reveal_strlit("4");
        reveal_strlit("5");
        reveal_strlit("6");
        reveal_strlit("7");
        reveal_strlit("8");
        reveal_strlit("9");
        reveal_strlit("a");
        reveal_strlit("b");
        reveal_strlit("c");
        reveal_strlit("d");
        reveal_strlit("e");
        reveal_strlit("f");
    }
    assert(s@ =~= seq![hex_digit(n)]);
    s
}

/// Formats bytes as lowercase hex, two digits per byte.
pub fn hex_encode(bytes: &[u8]) -> (s: String)
    ensures
        s@ == hex_lower(bytes@),
{
    let mut s = String::from_str("");
    proof {
        reveal_strlit("");
    }
    let n = bytes.len();
    let mut i: usize = 0;
    assert(bytes@.take(0) =~= Seq::<u8>::empty());
    while i < n
        invariant
            i <= n,
            n == bytes@.len(),
            s@ == hex_lower(bytes@.take(i as int)),
        decreases n - i,
    {
        let b = bytes[i];
        s.append(hex_digit_text(b / 16));
        s.append(hex_digit_text(b % 16));
        assert(bytes@.take(i + 1).drop_last() =~= bytes@.take(i as int));
        assert(s@ =~= hex_lower(bytes@.take(i + 1)));
        i = i + 1;
    }
    assert(bytes@.take(n as int) =~= bytes@);
    s
}

/// Length of a session token in bytes before hex encoding.
pub const SESSION_TOKEN_BYTES: usize = 24;

/// Byte `i` of the fallback token bytes derived from `seed`: byte `i % 16` of
/// the seed, least significant first.
pub open spec fn fallback_token_byte(seed: u128, i: int) -> u8 {
    ((seed >> (((i % 16) * 8) as u128)) & 0xff) as u8
}

/// Fills `bytes` from the operating system's random source
/// (`getrandom::fill`); `true` when it succeeded. Nothing is promised about
/// the values written, only that the length does not change.
#[verifier::external_body]
fn fill_random(bytes: &mut [u8]) -> (ok: bool)
    ensures
        final(bytes)@.len() == old(bytes)@.len(),
{
    getrandom::fill(bytes).is_ok()
}

/// The fallback token bytes of a seed: byte `i` is byte `i % 16` of the
/// seed, least significant first.
pub open spec fn fallback_token_seq(seed: u128) -> Seq<u8> {
    Seq::new(SESSION_TOKEN_BYTES as nat, |i: int| fallback_token_byte(seed, i))
}

/// The token text for what the random source gave.
pub open spec fn token_text(random_ok: bool, random: Seq<u8>, seed: u128) -> Seq<char> {
    hex_lower(
        if random_ok {
            random
        } else {
            fallback_token_seq(seed)
        },
    )
}

/// The session token made from what the random source gave: its bytes when
/// it succeeded, else the fallback bytes of `fallback_seed`, each written as
/// two lowercase hex digits.
pub fn session_token_from(random_ok: bool, random_bytes: &[u8], fallback_seed: u128) -> (token: String)
    requires
        random_bytes@.len() == SESSION_TOKEN_BYTES,
    ensures
        token@ == token_text(random_ok, random_bytes@, fallback_seed),
        token@.len() == 2 * SESSION_TOKEN_BYTES,
{
    if random_ok {
        proof {
            lemma_hex_lower_len(random_bytes@);
        }
        hex_encode(random_bytes)
    } else {
        let bytes = fallback_token_bytes(fallback_seed);
        assert(bytes@ =~= fallback_token_seq(fallback_seed));
        proof {
            lemma_hex_lower_len(bytes@);
        }
        hex_encode(bytes.as_slice())
    }
}

/// A new session token: 24 bytes from the system random source, or, when that
/// source fails, the bytes of `fallback_seed`, each formatted as two lowercase
/// hex digits. Which bytes the random source gives is not known here.
pub fn make_session_token(fallback_seed: u128) -> (token: String)
    ensures
        token@.len() == 2 * SESSION_TOKEN_BYTES,
        exists|random_ok: bool, random: Seq<u8>|
            random.len() == SESSION_TOKEN_BYTES && token@ == #[trigger] token_text(random_ok, random, fallback_seed),
{
    let mut bytes: Vec<u8> = Vec::new();
    let mut k: usize = 0;
    while k < SESSION_TOKEN_BYTES
        invariant
            k <= SESSION_TOKEN_BYTES,
            bytes@.len() == k,
        decreases SESSION_TOKEN_BYTES - k,
    {
        bytes.push(0);
        k = k + 1;
    }
    let ok = fill_random(bytes.as_mut_slice());
    session_token_from(ok, bytes.as_slice(), fallback_seed)
}

/// The fallback token bytes derived from a seed.
pub fn fallback_token_bytes(seed: u128) -> (bytes: Vec<u8>)
    ensures
        bytes@.len() == SESSION_TOKEN_BYTES,
        forall|i: int| 0 <= i < SESSION_TOKEN_BYTES ==> #[trigger] bytes@[i] == fallback_token_byte(seed, i),
{
    let mut bytes: Vec<u8> = Vec::new();
    let mut i: usize = 0;
    while i < SESSION_TOKEN_BYTES
        invariant
            i <= SESSION_TOKEN_BYTES,
            bytes@.len() == i,
            forall|j: int| 0 <= j < i ==> #[trigger] bytes@[j] == fallback_token_byte(seed, j),
        decreases SESSION_TOKEN_BYTES - i,
    {
        let shift = ((i % 16) * 8) as u128;
        bytes.push(((seed >> shift) & 0xff) as u8);
        i = i + 1;
    }
    bytes
}

pub proof fn lemma_hex_lower_len(bytes: Seq<u8>)
    ensures
        hex_lower(bytes).len() == 2 * bytes.len(),
    decreases bytes.len(),
{
    if bytes.len() > 0 {
        lemma_hex_lower_len(bytes.drop_last());
    }
}

} // verus!
