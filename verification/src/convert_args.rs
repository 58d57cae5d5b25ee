//! The command line of the PNG to IPSI converter.
//!
//! A `--dither-strength` value is a decimal float. Its parsing and range
//! check are a standard-library float conversion that this module does not
//! perform: the parser stops with [`ArgsStep::NeedDitherStrength`] at the
//! first such value it has no outcome for, and resumes, from the start, once
//! the caller supplies it.

use vstd::prelude::*;
use vstd::string::StringSliceAdditionalSpecFns;
use vstd::utf8::encode_utf8;
use crate::convert::{
    parse_downscale_mode, parse_size, size_error_text, spec_downscale_mode, spec_parse_size, DownscaleMode,
    OutputSize,
};
use crate::text::{owned, str_eq};

verus! {

/// The dither strength the command line chose.
#[derive(Clone, Copy, Debug, PartialEq, Eq, Structural)]
pub enum DitherChoice {
    /// No dither option: the converter's default strength.
    Default,
    /// `--no-dither`.
    Off,
    /// `--dither-strength`, as the bits of the `f32` strength.
    Strength(u32),
}

/// The converter's options.
#[derive(Debug)]
pub struct Args {
    pub input: String,
    pub output: String,
    pub palette: String,
    /// `None` keeps the source size.
    pub size: Option<OutputSize>,
    pub dither: DitherChoice,
    pub downscale_mode: DownscaleMode,
}

/// Where parsing a command line stands.
#[derive(Debug)]
pub enum ArgsStep {
    /// The options, or the error message.
    Done(Result<Args, String>),
    /// The dither strength text at this argument index has no outcome yet.
    NeedDitherStrength { arg_index: usize },
}

/// The options read so far.
pub struct ArgsState {
    pub input: Option<Seq<char>>,
    pub output: Option<Seq<char>>,
    pub palette: Option<Seq<char>>,
    pub size: Option<OutputSize>,
    pub dither: DitherChoice,
    pub mode: DownscaleMode,
    pub positional: Seq<Seq<char>>,
    /// How many dither strength outcomes have been used.
    pub used: nat,
}

/// Before the first argument: 128x128, default dither, OKLCH averaging.
pub open spec fn initial_args() -> ArgsState {
    ArgsState {
        input: None,
        output: None,
        palette: None,
        size: Some(OutputSize { width: 128, height: 128 }),
        dither: DitherChoice::Default,
        mode: DownscaleMode::OklchAverage,
        positional: Seq::empty(),
        used: 0,
    }
}

/// Where scanning the arguments stands.
pub enum ArgsScan {
    Continue(ArgsState),
    Fail(Seq<char>),
    /// The dither strength at this argument index has no outcome yet.
    Need(int),
}

/// The argument at `i`, if there is one.
pub open spec fn arg_at(raw: Seq<Seq<char>>, i: int) -> Option<Seq<char>> {
    if 0 <= i < raw.len() {
        Some(raw[i])
    } else {
        None
    }
}

/// The argument starts with `-`.
pub open spec fn is_option(a: Seq<char>) -> bool {
    encode_utf8(a).len() > 0 && encode_utf8(a)[0] == 45
}

/// Scans the arguments from index `i`; `outcomes[k]` is what parsing the
/// `k`-th dither strength gave (its bits, or its error message).
pub open spec fn args_scan(raw: Seq<Seq<char>>, i: int, st: ArgsState, outcomes: Seq<Result<u32, String>>) -> ArgsScan
    decreases raw.len() - i,
{
    if i < 0 || i >= raw.len() {
        ArgsScan::Continue(st)
    } else {
        let a = raw[i];
        if a == "--palette"@ || a == "-p"@ {
            if i + 1 >= raw.len() {
                ArgsScan::Continue(ArgsState { palette: None, ..st })
            } else {
                args_scan(raw, i + 2, ArgsState { palette: Some(raw[i + 1]), ..st }, outcomes)
            }
        } else if a == "--output"@ || a == "-o"@ {
            if i + 1 >= raw.len() {
                ArgsScan::Continue(ArgsState { output: None, ..st })
            } else {
                args_scan(raw, i + 2, ArgsState { output: Some(raw[i + 1]), ..st }, outcomes)
            }
        } else if a == "--size"@ || a == "-s"@ {
            if i + 1 >= raw.len() {
                ArgsScan::Fail("--size needs a value like 128x128"@)
            } else {
                match spec_parse_size(encode_utf8(raw[i + 1])) {
                    Ok(size) => args_scan(raw, i + 2, ArgsState { size: Some(size), ..st }, outcomes),
                    Err(e) => ArgsScan::Fail(size_error_text(e)),
                }
            }
        } else if a == "--original-size"@ {
            args_scan(raw, i + 1, ArgsState { size: None, ..st }, outcomes)
        } else if a == "--dither-strength"@ {
            if i + 1 >= raw.len() {
                ArgsScan::Fail("--dither-strength needs a number from 0 to 1"@)
            } else if st.used >= outcomes.len() {
                ArgsScan::Need(i + 1)
            } else {
                match outcomes[st.used as int] {
                    Ok(bits) => args_scan(
                        raw,
                        i + 2,
                        ArgsState { dither: DitherChoice::Strength(bits), used: st.used + 1, ..st },
                        outcomes,
                    ),
                    Err(msg) => ArgsScan::Fail(msg@),
                }
            }
        } else if a == "--no-dither"@ {
            args_scan(raw, i + 1, ArgsState { dither: DitherChoice::Off, ..st }, outcomes)
        } else if a == "--downscale"@ {
            if i + 1 >= raw.len() {
                ArgsScan::Fail("--downscale needs average, majority, minority, solve2x2, or solve2x2-hue"@)
            } else {
                match spec_downscale_mode(raw[i + 1]) {
                    Some(mode) => args_scan(raw, i + 2, ArgsState { mode: mode, ..st }, outcomes),
                    None => ArgsScan::Fail(
                        "downscale mode must be average, majority, minority, solve2x2, or solve2x2-hue"@,
                    ),
                }
            }
        } else if a == "--help"@ || a == "-h"@ {
            ArgsScan::Fail("Convert a PNG to an IPSI indexed image."@)
        } else if is_option(a) {
            ArgsScan::Fail("unknown option: "@ + a)
        } else {
            args_scan(raw, i + 1, ArgsState { positional: st.positional.push(a), ..st }, outcomes)
        }
    }
}

/// The options as text and values.
pub struct ArgsModel {
    pub input: Seq<char>,
    pub output: Seq<char>,
    pub palette: Seq<char>,
    pub size: Option<OutputSize>,
    pub dither: DitherChoice,
    pub mode: DownscaleMode,
}

/// The outcome of parsing a whole command line.
pub enum ArgsOutcome {
    Done(Result<ArgsModel, Seq<char>>),
    Need(int),
}

/// A path option, else the positional argument at `k`.
pub open spec fn or_positional(given: Option<Seq<char>>, positional: Seq<Seq<char>>, k: int) -> Option<Seq<char>> {
    if given is Some {
        given
    } else {
        arg_at(positional, k)
    }
}

/// What parsing the command line `raw` gives, with `outcomes` as the
/// outcomes of its dither strength values in order.
pub open spec fn spec_parse_args(raw: Seq<Seq<char>>, outcomes: Seq<Result<u32, String>>) -> ArgsOutcome {
    match args_scan(raw, 0, initial_args(), outcomes) {
        ArgsScan::Fail(msg) => ArgsOutcome::Done(Err(msg)),
        ArgsScan::Need(i) => ArgsOutcome::Need(i),
        ArgsScan::Continue(st) => {
            let input = or_positional(st.input, st.positional, 0);
            let output = or_positional(st.output, st.positional, 1);
            let palette = or_positional(st.palette, st.positional, 2);
            if input is None {
                ArgsOutcome::Done(Err("missing input PNG path"@))
            } else if output is None {
                ArgsOutcome::Done(Err("missing output IPSI path"@))
            } else if palette is None {
                ArgsOutcome::Done(Err("missing palette TOML path"@))
            } else {
                ArgsOutcome::Done(
                    Ok(
                        ArgsModel {
                            input: input->0,
                            output: output->0,
                            palette: palette->0,
                            size: st.size,
                            dither: st.dither,
                            mode: st.mode,
                        },
                    ),
                )
            }
        },
    }
}

/// The views of the arguments.
pub open spec fn args_view(raw: Seq<String>) -> Seq<Seq<char>> {
    raw.map_values(|s: String| s@)
}

fn is_option_exec(a: &String) -> (r: bool)
    ensures
        r == is_option(a@),
{
    let b = a.as_str().as_bytes();
    b.len() > 0 && b[0] == 45
}

fn arg_text(raw: &[String], i: usize) -> (r: Option<String>)
    ensures
        match r {
            Some(s) => arg_at(args_view(raw@), i as int) == Some(s@),
            None => arg_at(args_view(raw@), i as int) is None,
        },
{
    if i < raw.len() {
        Some(raw[i].clone())
    } else {
        None
    }
}

spec fn opt_view(o: Option<String>) -> Option<Seq<char>> {
    match o {
        Some(s) => Some(s@),
        None => None,
    }
}

impl Args {
    /// Reads the converter's command line: `--palette`/`-p`, `--output`/`-o`,
    /// `--size`/`-s`, `--original-size`, `--dither-strength`, `--no-dither`,
    /// `--downscale`, `--help`/`-h`, and positional input, output and palette
    /// paths for those not given as options. `dither_outcomes[k]` is what
    /// parsing the `k`-th `--dither-strength` value gave.
    pub fn parse(raw: &[String], dither_outcomes: &[Result<u32, String>]) -> (r: ArgsStep)
        ensures
            match r {
                ArgsStep::Done(Ok(a)) => spec_parse_args(args_view(raw@), dither_outcomes@) == ArgsOutcome::Done(
                    Ok(
                        ArgsModel {
                            input: a.input@,
                            output: a.output@,
                            palette: a.palette@,
                            size: a.size,
                            dither: a.dither,
                            mode: a.downscale_mode,
                        },
                    ),
                ),
                ArgsStep::Done(Err(m)) => spec_parse_args(args_view(raw@), dither_outcomes@) == ArgsOutcome::Done(
                    Err(m@),
                ),
                ArgsStep::NeedDitherStrength { arg_index } => spec_parse_args(args_view(raw@), dither_outcomes@)
                    == ArgsOutcome::Need(arg_index as int),
            },
    {
        let ghost rv = args_view(raw@);
        let mut input: Option<String> = None;
        let mut output: Option<String> = None;
        let mut palette: Option<String> = None;
        let mut size: Option<OutputSize> = Some(OutputSize { width: 128, height: 128 });
        let mut dither = DitherChoice::Default;
        let mut mode = DownscaleMode::OklchAverage;
        let mut positional: Vec<String> = Vec::new();
        let mut used: usize = 0;
        let mut index: usize = 0;
        let n = raw.len();
        assert(args_view(positional@) =~= Seq::<Seq<char>>::empty());
        while index < n
            invariant_except_break
                index <= n,
                args_scan(rv, 0, initial_args(), dither_outcomes@) == args_scan(
                    rv,
                    index as int,
                    ArgsState {
                        input: opt_view(input),
                        output: opt_view(output),
                        palette: opt_view(palette),
                        size: size,
                        dither: dither,
                        mode: mode,
                        positional: args_view(positional@),
                        used: used as nat,
                    },
                    dither_outcomes@,
                ),
            invariant
                n == raw@.len(),
                rv == args_view(raw@),
                used <= dither_outcomes@.len(),
            ensures
                args_scan(rv, 0, initial_args(), dither_outcomes@) == ArgsScan::Continue(
                    ArgsState {
                        input: opt_view(input),
                        output: opt_view(output),
                        palette: opt_view(palette),
                        size: size,
                        dither: dither,
                        mode: mode,
                        positional: args_view(positional@),
                        used: used as nat,
                    },
                ),
            decreases n - index,
        {
            let a = &raw[index];
            let s = a.as_str();
            assert(rv[index as int] == a@);
            if str_eq(s, "--palette") || str_eq(s, "-p") {
                palette = arg_text(raw, index + 1);
                if index + 1 >= n {
                    break;
                }
                index = index + 2;
            } else if str_eq(s, "--output") || str_eq(s, "-o") {
                output = arg_text(raw, index + 1);
                if index + 1 >= n {
                    break;
                }
                index = index + 2;
            } else if str_eq(s, "--size") || str_eq(s, "-s") {
                if index + 1 >= n {
                    return ArgsStep::Done(Err(owned("--size needs a value like 128x128")));
                }
                match parse_size(raw[index + 1].as_str()) {
                    Ok(sz) => {
                        size = Some(sz);
                    },
                    Err(m) => {
                        return ArgsStep::Done(Err(m));
                    },
                }
                index = index + 2;
            } else if str_eq(s, "--original-size") {
                size = None;
                index = index + 1;
            } else if str_eq(s, "--dither-strength") {
                if index + 1 >= n {
                    return ArgsStep::Done(Err(owned("--dither-strength needs a number from 0 to 1")));
                }
                if used >= dither_outcomes.len() {
                    return ArgsStep::NeedDitherStrength { arg_index: index + 1 };
                }
                match &dither_outcomes[used] {
                    Ok(bits) => {
                        dither = DitherChoice::Strength(*bits);
                    },
                    Err(m) => {
                        return ArgsStep::Done(Err(m.clone()));
                    },
                }
                used = used + 1;
                index = index + 2;
            } else if str_eq(s, "--no-dither") {
                dither = DitherChoice::Off;
                index = index + 1;
            } else if str_eq(s, "--downscale") {
                if index + 1 >= n {
                    return ArgsStep::Done(
                        Err(owned("--downscale needs average, majority, minority, solve2x2, or solve2x2-hue")),
                    );
                }
                match parse_downscale_mode(raw[index + 1].as_str()) {
                    Ok(m) => {
                        mode = m;
                    },
                    Err(m) => {
                        return ArgsStep::Done(Err(m));
                    },
                }
                index = index + 2;
            } else if str_eq(s, "--help") || str_eq(s, "-h") {
                return ArgsStep::Done(Err(owned("Convert a PNG to an IPSI indexed image.")));
            } else if is_option_exec(a) {
                let mut m = owned("unknown option: ");
                m.append(s);
                return ArgsStep::Done(Err(m));
            } else {
                let ghost before = positional@;
                positional.push(a.clone());
                assert(args_view(positional@) =~= args_view(before).push(a@));
                index = index + 1;
            }
        }
        if input.is_none() {
            input = arg_text(positional.as_slice(), 0);
        }
        if output.is_none() {
            output = arg_text(positional.as_slice(), 1);
        }
        if palette.is_none() {
            palette = arg_text(positional.as_slice(), 2);
        }
        let input = match input {
            Some(p) => p,
            None => return ArgsStep::Done(Err(owned("missing input PNG path"))),
        };
        let output = match output {
            Some(p) => p,
            None => return ArgsStep::Done(Err(owned("missing output IPSI path"))),
        };
        let palette = match palette {
            Some(p) => p,
            None => return ArgsStep::Done(Err(owned("missing palette TOML path"))),
        };
        ArgsStep::Done(Ok(Args { input, output, palette, size, dither, downscale_mode: mode }))
    }
}

} // verus!
