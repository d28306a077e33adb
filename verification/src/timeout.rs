//! Deadline tracking for streamed response bodies.
//!
//! A streamed body on the forward path is guarded by two deadlines: a
//! per-frame chunk timeout and a whole-stream total timeout. The runtime
//! wraps the body, polls it, and asks [`TimeoutState::poll_step`] what each
//! poll outcome means: pass the frame through, keep waiting, or fail with
//! the deadline that fired. All times are milliseconds on one monotonic
//! clock, supplied by the caller.

use vstd::prelude::*;

verus! {

/// Timeout configuration for a streamed body, in milliseconds.
#[derive(Debug, Clone, Copy, PartialEq, Eq, Structural)]
pub struct TimeoutConfig {
    /// Time allowed for each frame to arrive.
    pub chunk_timeout: u64,
    /// Time allowed for the whole stream.
    pub total_timeout: u64,
}

impl TimeoutConfig {
    /// Creates a timeout configuration from the two deadlines in
    /// milliseconds.
    pub fn new(chunk_timeout: u64, total_timeout: u64) -> (c: Self)
        ensures
            c.chunk_timeout == chunk_timeout,
            c.total_timeout == total_timeout,
    {
        TimeoutConfig { chunk_timeout, total_timeout }
    }
}

/// What one poll of the wrapped source produced.
#[derive(Debug, Clone, Copy, PartialEq, Eq, Structural)]
pub enum SourcePoll {
    /// A frame is ready.
    Frame,
    /// The source ended.
    End,
    /// The source failed.
    Failed,
    /// Nothing is ready yet.
    Pending,
}

/// What the guarded body must do after one poll.
#[derive(Debug, Clone, Copy, PartialEq, Eq, Structural)]
pub enum PollDecision {
    /// Pass the ready frame through to the client.
    Yield,
    /// Report end of stream.
    End,
    /// Map the source's error through.
    Fail,
    /// Fail the stream: the total deadline has passed.
    TimedOutTotal,
    /// Fail the frame: the chunk deadline passed while the source was
    /// pending.
    TimedOutChunk,
    /// Keep waiting for the source or a deadline.
    Pending,
}

/// Deadline state of one guarded stream.
///
/// `total_deadline` is armed exactly once, on the first read attempt.
/// `chunk_deadline` is armed anew for each frame request: `awaiting` says
/// whether a frame request is in flight, so later polls of the same request
/// leave the chunk deadline where the first poll put it.
#[derive(Debug, Clone, Copy, PartialEq, Eq, Structural)]
pub struct TimeoutState {
    /// The two deadlines this stream is guarded by.
    pub config: TimeoutConfig,
    /// Whether the first read attempt has armed the total deadline.
    pub started: bool,
    /// Whether a frame request is in flight and its chunk deadline armed.
    pub awaiting: bool,
    /// Absolute time the whole stream must end by; meaningful once
    /// `started`.
    pub total_deadline: u64,
    /// Absolute time the current frame must arrive by; meaningful while
    /// `awaiting`.
    pub chunk_deadline: u64,
}

/// The state after the first read attempt arms the total deadline.
/// Deadlines saturate at the end of the clock's range rather than wrap.
pub open spec fn spec_arm_total(s: TimeoutState, now: u64) -> TimeoutState {
    if !s.started {
        TimeoutState {
            started: true,
            total_deadline: now.saturating_add(s.config.total_timeout),
            ..s
        }
    } else {
        s
    }
}

/// The state after a new frame request arms its chunk deadline.
pub open spec fn spec_arm_chunk(s: TimeoutState, now: u64) -> TimeoutState {
    if !s.awaiting {
        TimeoutState { awaiting: true, chunk_deadline: now.saturating_add(s.config.chunk_timeout), ..s }
    } else {
        s
    }
}

/// One poll of the guarded stream: the state afterwards and what the poll
/// decided, per the protocol of [`TimeoutState::poll_step`].
pub open spec fn spec_poll_step(s: TimeoutState, now: u64, src: SourcePoll) -> (
    TimeoutState,
    PollDecision,
) {
    let s1 = spec_arm_total(s, now);
    if now >= s1.total_deadline {
        (s1, PollDecision::TimedOutTotal)
    } else {
        let armed = spec_arm_chunk(s1, now);
        match src {
            SourcePoll::Frame => (
                TimeoutState { awaiting: false, ..armed },
                PollDecision::Yield,
            ),
            SourcePoll::End => (armed, PollDecision::End),
            SourcePoll::Failed => (armed, PollDecision::Fail),
            SourcePoll::Pending => {
                if now >= armed.chunk_deadline {
                    (TimeoutState { awaiting: false, ..armed }, PollDecision::TimedOutChunk)
                } else {
                    (armed, PollDecision::Pending)
                }
            },
        }
    }
}

impl TimeoutState {
    /// A fresh guard for one stream; nothing is armed until the first read
    /// attempt.
    pub fn new(config: TimeoutConfig) -> (s: Self)
        ensures
            s == (TimeoutState {
                config,
                started: false,
                awaiting: false,
                total_deadline: 0,
                chunk_deadline: 0,
            }),
    {
        TimeoutState { config, started: false, awaiting: false, total_deadline: 0, chunk_deadline: 0 }
    }

    /// The timeout configuration this stream is guarded by.
    pub fn config(&self) -> (c: &TimeoutConfig)
        ensures
            c == self.config,
    {
        &self.config
    }

    /// Decides what one poll of the guarded stream means.
    ///
    /// Protocol, per read attempt at time `now`:
    /// 1. the first attempt ever arms the total deadline;
    /// 2. if the total deadline has passed, the stream fails with
    ///    [`PollDecision::TimedOutTotal`], whatever the source did;
    /// 3. the first poll of each frame request arms the chunk deadline;
    /// 4. a ready frame, end, or failure of the source passes through; a
    ///    pending source past the chunk deadline fails the frame with
    ///    [`PollDecision::TimedOutChunk`], and otherwise the caller keeps
    ///    waiting.
    pub fn poll_step(&mut self, now: u64, src: SourcePoll) -> (d: PollDecision)
        ensures
            (*final(self), d) == spec_poll_step(*old(self), now, src),
    {
        if !self.started {
            self.started = true;
            self.total_deadline = now.saturating_add(self.config.total_timeout);
        }
        if now >= self.total_deadline {
            return PollDecision::TimedOutTotal;
        }
        if !self.awaiting {
            self.awaiting = true;
            self.chunk_deadline = now.saturating_add(self.config.chunk_timeout);
        }
        match src {
            SourcePoll::Frame => {
                self.awaiting = false;
                PollDecision::Yield
            },
            SourcePoll::End => PollDecision::End,
            SourcePoll::Failed => PollDecision::Fail,
            SourcePoll::Pending => {
                if now >= self.chunk_deadline {
                    self.awaiting = false;
                    PollDecision::TimedOutChunk
                } else {
                    PollDecision::Pending
                }
            },
        }
    }
}

/// The state a sequence of polls, each an instant and a source outcome,
/// leaves the guard in.
pub open spec fn spec_poll_run(s: TimeoutState, evs: Seq<(u64, SourcePoll)>) -> TimeoutState
    decreases evs.len(),
{
    if evs.len() == 0 {
        s
    } else {
        spec_poll_run(spec_poll_step(s, evs[0].0, evs[0].1).0, evs.drop_first())
    }
}

/// Law: no frame outlives the total deadline. Once the stream has started
/// and the total deadline has passed, every poll fails with
/// [`PollDecision::TimedOutTotal`] — in particular, none yields a frame.
pub proof fn lemma_no_frame_after_total_deadline(s: TimeoutState, now: u64, src: SourcePoll)
    requires
        s.started,
        now >= s.total_deadline,
    ensures
        spec_poll_step(s, now, src).1 == PollDecision::TimedOutTotal,
        spec_poll_step(s, now, src).1 != PollDecision::Yield,
{
}

/// Law: the total deadline is armed exactly once. After the first read
/// attempt, no sequence of polls moves it, and the stream stays started;
/// the configuration never changes either.
pub proof fn lemma_total_deadline_armed_once(s: TimeoutState, evs: Seq<(u64, SourcePoll)>)
    requires
        s.started,
    ensures
        spec_poll_run(s, evs).started,
        spec_poll_run(s, evs).total_deadline == s.total_deadline,
        spec_poll_run(s, evs).config == s.config,
    decreases evs.len(),
{
    if evs.len() > 0 {
        lemma_total_deadline_armed_once(spec_poll_step(s, evs[0].0, evs[0].1).0, evs.drop_first());
    }
}

/// Law: with a chunk timeout of zero, the first read attempt of a stream
/// whose source is pending fails at once with
/// [`PollDecision::TimedOutChunk`], provided the total deadline itself
/// still lies ahead.
pub proof fn lemma_chunk_timeout_zero(s: TimeoutState, now: u64)
    requires
        !s.started,
        !s.awaiting,
        s.config.chunk_timeout == 0,
        s.config.total_timeout > 0,
        now < u64::MAX,
    ensures
        spec_poll_step(s, now, SourcePoll::Pending).1 == PollDecision::TimedOutChunk,
{
}

} // verus!
