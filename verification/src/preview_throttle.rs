//! The frame pacing of the palette preview: when to render the next frame,
//! and which earlier output to display once the preview's delay of a batch of
//! frames has filled.
//!
//! Time is counted in nanoseconds, as `std::time::Duration` holds it.

use vstd::prelude::*;

verus! {

/// The largest number of nanoseconds a `Duration` holds.
pub const DURATION_MAX_NANOS: u128 = 18_446_744_073_709_551_615_999_999_999;

/// The pacing state.
#[derive(Debug)]
pub struct PreviewPaletteThrottle {
    frame_interval_ns: u128,
    frame_accumulator_ns: u128,
    batch_size: usize,
    queued_output_indices: Vec<usize>,
    warmup_frames_remaining: usize,
    delay_filled: bool,
}

/// What the pacing state holds.
pub struct ThrottleModel {
    pub frame_interval_ns: u128,
    pub frame_accumulator_ns: u128,
    pub batch_size: usize,
    /// Rendered outputs waiting to be displayed, oldest first.
    pub queued: Seq<usize>,
    pub warmup_frames_remaining: usize,
    pub delay_filled: bool,
}

impl View for PreviewPaletteThrottle {
    type V = ThrottleModel;

    closed spec fn view(&self) -> ThrottleModel {
        ThrottleModel {
            frame_interval_ns: self.frame_interval_ns,
            frame_accumulator_ns: self.frame_accumulator_ns,
            batch_size: self.batch_size,
            queued: self.queued_output_indices@,
            warmup_frames_remaining: self.warmup_frames_remaining,
            delay_filled: self.delay_filled,
        }
    }
}

/// What one frame of pacing decided.
#[derive(Clone, Copy, Debug, PartialEq, Eq, Structural)]
pub struct ThrottleStep {
    /// The cameras render this frame.
    pub should_render: bool,
    /// The output image rendered into, when rendering with images.
    pub render_output: Option<usize>,
    /// The earlier output to display now, if any.
    pub display_index: Option<usize>,
    /// The delay just filled: the preview becomes visible.
    pub reveal_preview: bool,
    /// The output image to render into next.
    pub next_output_index: usize,
}

/// The pacing state and decision after a frame that took `delta_ns`, with
/// `image_count` output images and `current` the one to render into.
pub open spec fn throttle_after(m: ThrottleModel, delta_ns: u128, image_count: usize, current: usize) -> (
    ThrottleModel,
    ThrottleStep,
) {
    let acc = m.frame_accumulator_ns + delta_ns;
    let should_render = acc >= m.frame_interval_ns;
    let acc2 = if should_render {
        (acc % m.frame_interval_ns as int) as u128
    } else {
        acc as u128
    };
    if !should_render || image_count == 0 {
        (
            ThrottleModel { frame_accumulator_ns: acc2, ..m },
            ThrottleStep {
                should_render,
                render_output: None,
                display_index: None,
                reveal_preview: false,
                next_output_index: current,
            },
        )
    } else {
        let next = ((current + 1) % image_count as int) as usize;
        if m.warmup_frames_remaining > 0 {
            (
                ThrottleModel {
                    frame_accumulator_ns: acc2,
                    warmup_frames_remaining: (m.warmup_frames_remaining - 1) as usize,
                    ..m
                },
                ThrottleStep {
                    should_render,
                    render_output: Some(current),
                    display_index: None,
                    reveal_preview: false,
                    next_output_index: next,
                },
            )
        } else {
            let pushed = m.queued.push(current);
            if pushed.len() >= m.batch_size {
                (
                    ThrottleModel {
                        frame_accumulator_ns: acc2,
                        queued: pushed.drop_first(),
                        delay_filled: true,
                        ..m
                    },
                    ThrottleStep {
                        should_render,
                        render_output: Some(current),
                        display_index: Some(pushed[0]),
                        reveal_preview: !m.delay_filled,
                        next_output_index: next,
                    },
                )
            } else {
                (
                    ThrottleModel { frame_accumulator_ns: acc2, queued: pushed, ..m },
                    ThrottleStep {
                        should_render,
                        render_output: Some(current),
                        display_index: None,
                        reveal_preview: false,
                        next_output_index: next,
                    },
                )
            }
        }
    }
}

impl PreviewPaletteThrottle {
    /// The pacing state is consistent: a positive interval, a batch of at
    /// least one frame, and fewer queued outputs than a batch.
    pub closed spec fn wf(&self) -> bool {
        &&& self.frame_interval_ns > 0
        &&& self.batch_size >= 1
        &&& self.queued_output_indices@.len() < self.batch_size
        &&& self.frame_accumulator_ns <= DURATION_MAX_NANOS
    }

    /// Pacing at one frame per `frame_interval_ns` that shows outputs
    /// `batch_size` frames late (at least one): the first frame renders at
    /// once, and the first batch of frames only warms up.
    pub fn new(frame_interval_ns: u128, batch_size: usize) -> (t: Self)
        requires
            0 < frame_interval_ns <= DURATION_MAX_NANOS,
        ensures
            t.wf(),
            t@ == (ThrottleModel {
                frame_interval_ns,
                frame_accumulator_ns: frame_interval_ns,
                batch_size: if batch_size < 1 {
                    1
                } else {
                    batch_size
                },
                queued: Seq::empty(),
                warmup_frames_remaining: if batch_size < 1 {
                    1
                } else {
                    batch_size
                },
                delay_filled: false,
            }),
    {
        let batch = if batch_size < 1 {
            1
        } else {
            batch_size
        };
        let t = PreviewPaletteThrottle {
            frame_interval_ns,
            frame_accumulator_ns: frame_interval_ns,
            batch_size: batch,
            queued_output_indices: Vec::new(),
            warmup_frames_remaining: batch,
            delay_filled: false,
        };
        assert(t@.queued =~= Seq::<usize>::empty());
        t
    }

    /// Paces one frame that took `delta_ns`: renders once a frame interval
    /// has accumulated (keeping the remainder), into output `current_output`
    /// of `image_count`; after the warm-up frames, queues each rendered
    /// output and displays the oldest once a batch is queued.
    pub fn step(&mut self, delta_ns: u128, image_count: usize, current_output: usize) -> (s: ThrottleStep)
        requires
            old(self).wf(),
            old(self)@.frame_accumulator_ns + delta_ns <= DURATION_MAX_NANOS,
            image_count == 0 || current_output < image_count,
        ensures
            final(self).wf(),
            (final(self)@, s) == throttle_after(old(self)@, delta_ns, image_count, current_output),
    {
        let ghost before = self@;
        let acc = self.frame_accumulator_ns + delta_ns;
        let should_render = acc >= self.frame_interval_ns;
        self.frame_accumulator_ns = if should_render {
            acc % self.frame_interval_ns
        } else {
            acc
        };
        if !should_render || image_count == 0 {
            return ThrottleStep {
                should_render,
                render_output: None,
                display_index: None,
                reveal_preview: false,
                next_output_index: current_output,
            };
        }
        let next = (current_output + 1) % image_count;
        if self.warmup_frames_remaining > 0 {
            self.warmup_frames_remaining = self.warmup_frames_remaining - 1;
            return ThrottleStep {
                should_render,
                render_output: Some(current_output),
                display_index: None,
                reveal_preview: false,
                next_output_index: next,
            };
        }
        self.queued_output_indices.push(current_output);
        if self.queued_output_indices.len() >= self.batch_size {
            let reveal = !self.delay_filled;
            self.delay_filled = true;
            let shown = self.queued_output_indices.remove(0);
            assert(self.queued_output_indices@ =~= before.queued.push(current_output).drop_first());
            ThrottleStep {
                should_render,
                render_output: Some(current_output),
                display_index: Some(shown),
                reveal_preview: reveal,
                next_output_index: next,
            }
        } else {
            ThrottleStep {
                should_render,
                render_output: Some(current_output),
                display_index: None,
                reveal_preview: false,
                next_output_index: next,
            }
        }
    }
}

/// After a frame that rendered, less than one frame interval is left
/// accumulated.
pub proof fn lemma_render_leaves_less_than_an_interval(m: ThrottleModel, delta_ns: u128, image_count: usize, current: usize)
    requires
        m.frame_interval_ns > 0,
        throttle_after(m, delta_ns, image_count, current).1.should_render,
    ensures
        throttle_after(m, delta_ns, image_count, current).0.frame_accumulator_ns < m.frame_interval_ns,
{
}

/// A displayed output is the oldest one queued: outputs are displayed in the
/// order they were rendered.
pub proof fn lemma_display_is_oldest_queued(m: ThrottleModel, delta_ns: u128, image_count: usize, current: usize)
    requires
        throttle_after(m, delta_ns, image_count, current).1.display_index is Some,
    ensures
        throttle_after(m, delta_ns, image_count, current).1.display_index == Some(m.queued.push(current)[0]),
        throttle_after(m, delta_ns, image_count, current).0.queued == m.queued.push(current).drop_first(),
{
}

} // verus!
