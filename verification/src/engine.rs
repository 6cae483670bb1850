//! The rollback netcode engine. Once per rendered frame the engine advances
//! the simulation by one tick, pairing the local player's input with the
//! best knowledge of the remote player's input: the remote's real input for
//! this tick if it has arrived, a buffered future input that has come due,
//! or a duplicate of the last observed remote input (a prediction).
//!
//! A bounded newest-first history of `(inputs, state_after)` records is
//! retained. When a remote input for a past tick arrives, the engine rewrites
//! that record's remote input, invalidates the predictions made after it
//! (they duplicate the corrected input forward), and resimulates exactly the
//! affected suffix of history. An input older than the whole history is
//! logged and dropped, never allowed to corrupt the retained records.

use vstd::prelude::*;
use crate::codec::PongInputState;
use crate::sim::{lemma_replay_push, sp_replay, PlayerInputs, PongGameState};

verus! {

/// How many ticks of history are retained for rollback.
pub const MAX_ROLLBACK_FRAMES: usize = 128;

/// What the engine asks of the render loop after a tick: run a whisker
/// faster when the peer is ahead of us, a whisker slower when its inputs
/// arrive late, nominal when they arrive on time.
#[derive(Clone, Copy, PartialEq, Eq, Structural, Debug)]
pub enum TickRate {
    Nominal,
    SpeedUp,
    SlowDown,
}

/// One retained tick: the two inputs that advanced it, and the state after.
#[derive(Clone, Copy, PartialEq, Eq, Structural, Debug)]
pub struct FrameRecord {
    pub player_inputs: PlayerInputs,
    pub game_after_inputs: PongGameState,
}

/// The abstract state of the engine.
#[verifier::ext_equal]
pub struct EngineView {
    pub cur_frame: u32,
    pub hist: Seq<FrameRecord>,
    pub future: Seq<PongInputState>,
    pub left_side: bool,
    pub rolled_back: u32,
    pub oldest_delay: u32,
    pub late_drops: u32,
    pub rate: TickRate,
}

/// The engine's invariant over its history, for a given current frame and
/// side: the history is never empty and bounded; at most one record per tick
/// taken so far, plus the initial record; every retained state is
/// well-formed; the local-side input of the record `j` ticks back is
/// labelled with frame `cur_frame - 1 - j` (remote-side labels may be older:
/// predictions keep the label of the input they duplicate); and each record's
/// state is exactly one simulation tick after the next older record's state
/// under the record's own inputs.
pub open spec fn sp_hist_wf(hist: Seq<FrameRecord>, cur_frame: u32, left_side: bool) -> bool {
    &&& 1 <= hist.len() <= MAX_ROLLBACK_FRAMES
    &&& hist.len() <= cur_frame + 1
    &&& forall|j: int|
        0 <= j < hist.len() ==> (#[trigger] hist[j]).game_after_inputs.wf()
    &&& forall|j: int|
        0 <= j < hist.len() && j < cur_frame ==> (#[trigger] hist[j]).player_inputs.sp_side(
            left_side,
        ).frame == cur_frame - 1 - j
    &&& forall|j: int|
        0 <= j && j + 1 < hist.len() ==> (#[trigger] hist[j]).game_after_inputs == hist[
            j + 1
        ].game_after_inputs.sp_step(
            hist[j].player_inputs.left.input,
            hist[j].player_inputs.right.input,
        )
}

impl EngineView {
    pub open spec fn wf(self) -> bool {
        sp_hist_wf(self.hist, self.cur_frame, self.left_side)
    }
}

/// The engine's state in the middle of draining this tick's remote inputs:
/// the history and future buffer so far, the input staged for this very
/// tick (if one arrived), and the diagnostics gathered so far.
#[verifier::ext_equal]
pub struct DrainState {
    pub hist: Seq<FrameRecord>,
    pub future: Seq<PongInputState>,
    pub staged: Option<PongInputState>,
    pub rolled_back: u32,
    pub oldest_delay: u32,
    pub late_drops: u32,
    pub rate: TickRate,
}

/// One more dropped input, saturating.
pub open spec fn sp_count_drop(d: u32) -> u32 {
    if d < u32::MAX {
        (d + 1) as u32
    } else {
        d
    }
}

/// Recompute the states of records `j` down to `0` from the next older
/// record's state and the record's own inputs, walking newestward.
pub open spec fn sp_rebuild(h: Seq<FrameRecord>, j: int) -> Seq<FrameRecord>
    decreases j + 1,
{
    if j < 0 {
        h
    } else {
        let h2 = h.update(
            j,
            FrameRecord {
                player_inputs: h[j].player_inputs,
                game_after_inputs: h[j + 1].game_after_inputs.sp_step(
                    h[j].player_inputs.left.input,
                    h[j].player_inputs.right.input,
                ),
            },
        );
        sp_rebuild(h2, j - 1)
    }
}

/// Rollback: the remote-side input of records `0..=j` becomes `r` (record
/// `j` is the corrected tick; the newer records duplicated a prediction that
/// the correction invalidates), and the states of those records are
/// recomputed in order.
pub open spec fn sp_resim(
    h: Seq<FrameRecord>,
    remote_left: bool,
    r: PongInputState,
    j: int,
) -> Seq<FrameRecord> {
    let h1 = Seq::new(
        h.len(),
        |i: int|
            if 0 <= i <= j {
                FrameRecord {
                    player_inputs: h[i].player_inputs.sp_with_side(remote_left, r),
                    game_after_inputs: h[i].game_after_inputs,
                }
            } else {
                h[i]
            },
    );
    sp_rebuild(h1, j)
}

/// Classify and apply one remote input `r`, preserving arrival order:
/// a future input is buffered (and the peer being ahead asks for a faster
/// tick); an input for this very tick is staged; a past input either
/// already matches its history slot (a duplicate: nothing happens), or
/// rewrites the slot and resimulates the suffix; an input older than the
/// history, or whose predecessor state is already gone, is counted and
/// dropped.
pub open spec fn sp_classify(
    st: DrainState,
    cur_frame: u32,
    left_side: bool,
    r: PongInputState,
) -> DrainState {
    let remote_left = !left_side;
    if r.frame > cur_frame {
        DrainState { future: st.future.push(r), rate: TickRate::SpeedUp, ..st }
    } else if r.frame == cur_frame {
        DrainState { staged: Some(r), rate: TickRate::Nominal, ..st }
    } else {
        let k = cur_frame - r.frame;
        if k - 1 >= st.hist.len() {
            DrainState { late_drops: sp_count_drop(st.late_drops), ..st }
        } else {
            let st1 = DrainState {
                oldest_delay: if k > st.oldest_delay {
                    k as u32
                } else {
                    st.oldest_delay
                },
                rate: if k > 1 {
                    TickRate::SlowDown
                } else {
                    st.rate
                },
                ..st
            };
            if st.hist[k - 1].player_inputs.sp_side(remote_left) == r {
                st1
            } else if k >= st.hist.len() {
                DrainState { late_drops: sp_count_drop(st1.late_drops), ..st1 }
            } else {
                DrainState {
                    hist: sp_resim(st.hist, remote_left, r, k - 1),
                    rolled_back: k as u32,
                    ..st1
                }
            }
        }
    }
}

/// Apply a batch of remote inputs in arrival order.
pub open spec fn sp_drain(
    st: DrainState,
    cur_frame: u32,
    left_side: bool,
    rs: Seq<PongInputState>,
) -> DrainState
    decreases rs.len(),
{
    if rs.len() == 0 {
        st
    } else {
        sp_drain(sp_classify(st, cur_frame, left_side, rs[0]), cur_frame, left_side, rs.drop_first())
    }
}

/// This tick's remote input and the future buffer after choosing it: the
/// staged input if one arrived for this tick; else the head of the future
/// buffer, consumed, if it has come due; else a duplicate of the last
/// observed remote input.
pub open spec fn sp_choose_remote(st: DrainState, cur_frame: u32, left_side: bool) -> (
    PongInputState,
    Seq<PongInputState>,
) {
    match st.staged {
        Some(r) => (r, st.future),
        None => {
            if st.future.len() > 0 && st.future[0].frame == cur_frame {
                (st.future[0], st.future.drop_first())
            } else {
                (st.hist[0].player_inputs.sp_side(!left_side), st.future)
            }
        },
    }
}

/// One whole engine tick: reset the per-tick diagnostics, drain the remote
/// batch, choose this tick's remote input, advance the simulation by one
/// tick under the local and remote inputs, prepend the new record and drop
/// the oldest if the history is over its bound, and move to the next frame.
pub open spec fn sp_tick(v: EngineView, local_bits: u32, rs: Seq<PongInputState>) -> EngineView {
    let st0 = DrainState {
        hist: v.hist,
        future: v.future,
        staged: None,
        rolled_back: 0u32,
        oldest_delay: 0u32,
        late_drops: 0u32,
        rate: v.rate,
    };
    let st = sp_drain(st0, v.cur_frame, v.left_side, rs);
    let chosen = sp_choose_remote(st, v.cur_frame, v.left_side);
    let local = PongInputState { frame: v.cur_frame, input: local_bits };
    let inputs = if v.left_side {
        PlayerInputs { left: local, right: chosen.0 }
    } else {
        PlayerInputs { left: chosen.0, right: local }
    };
    let new_state = st.hist[0].game_after_inputs.sp_step(inputs.left.input, inputs.right.input);
    let h2 = seq![FrameRecord { player_inputs: inputs, game_after_inputs: new_state }] + st.hist;
    let h3 = if h2.len() > MAX_ROLLBACK_FRAMES {
        h2.drop_last()
    } else {
        h2
    };
    EngineView {
        cur_frame: (v.cur_frame + 1) as u32,
        hist: h3,
        future: chosen.1,
        left_side: v.left_side,
        rolled_back: st.rolled_back,
        oldest_delay: st.oldest_delay,
        late_drops: st.late_drops,
        rate: st.rate,
    }
}

/// The rollback engine. The host plays the left paddle, the joiner the
/// right.
pub struct PongGame {
    cur_frame: u32,
    last_frames: Vec<FrameRecord>,
    future_inputs: Vec<PongInputState>,
    playing_on_left_side: bool,
    frames_rolled_back: u32,
    oldest_frame_delay: u32,
    late_drops: u32,
    rate_request: TickRate,
}

impl View for PongGame {
    type V = EngineView;

    closed spec fn view(&self) -> EngineView {
        EngineView {
            cur_frame: self.cur_frame,
            hist: self.last_frames@,
            future: self.future_inputs@,
            left_side: self.playing_on_left_side,
            rolled_back: self.frames_rolled_back,
            oldest_delay: self.oldest_frame_delay,
            late_drops: self.late_drops,
            rate: self.rate_request,
        }
    }
}

impl PongGame {
    spec fn drain_view(self, staged: Option<PongInputState>) -> DrainState {
        DrainState {
            hist: self.last_frames@,
            future: self.future_inputs@,
            staged: staged,
            rolled_back: self.frames_rolled_back,
            oldest_delay: self.oldest_frame_delay,
            late_drops: self.late_drops,
            rate: self.rate_request,
        }
    }

    /// A fresh engine at frame 0, whose history holds the zero-input initial
    /// record. The host is the left player.
    pub fn new(is_host: bool) -> (r: PongGame)
        ensures
            r@.wf(),
            r@.cur_frame == 0,
            r@.left_side == is_host,
            r@.hist.len() == 1,
            r@.hist[0].player_inputs == (PlayerInputs {
                left: PongInputState { frame: 0u32, input: 0u32 },
                right: PongInputState { frame: 0u32, input: 0u32 },
            }),
            r@.hist[0].game_after_inputs == PongGameState::sp_new(),
            r@.future.len() == 0,
            r@.rolled_back == 0,
            r@.oldest_delay == 0,
            r@.late_drops == 0,
            r@.rate == TickRate::Nominal,
    {
        let mut last_frames: Vec<FrameRecord> = Vec::new();
        last_frames.push(
            FrameRecord {
                player_inputs: PlayerInputs {
                    left: PongInputState::new(),
                    right: PongInputState::new(),
                },
                game_after_inputs: PongGameState::new(),
            },
        );
        PongGame {
            cur_frame: 0,
            last_frames,
            future_inputs: Vec::new(),
            playing_on_left_side: is_host,
            frames_rolled_back: 0,
            oldest_frame_delay: 0,
            late_drops: 0,
            rate_request: TickRate::Nominal,
        }
    }

    /// The input frame to send to the peer this tick: the current frame
    /// number with the sampled analog bits.
    pub fn local_input(&self, input_bits: u32) -> (r: PongInputState)
        ensures
            r == (PongInputState { frame: self@.cur_frame, input: input_bits }),
    {
        PongInputState { frame: self.cur_frame, input: input_bits }
    }

    pub fn current_frame(&self) -> (r: u32)
        ensures
            r == self@.cur_frame,
    {
        self.cur_frame
    }

    pub fn frames_rolled_back(&self) -> (r: u32)
        ensures
            r == self@.rolled_back,
    {
        self.frames_rolled_back
    }

    pub fn oldest_frame_delay(&self) -> (r: u32)
        ensures
            r == self@.oldest_delay,
    {
        self.oldest_frame_delay
    }

    pub fn late_drops(&self) -> (r: u32)
        ensures
            r == self@.late_drops,
    {
        self.late_drops
    }

    pub fn rate_request(&self) -> (r: TickRate)
        ensures
            r == self@.rate,
    {
        self.rate_request
    }

    pub fn playing_on_left_side(&self) -> (r: bool)
        ensures
            r == self@.left_side,
    {
        self.playing_on_left_side
    }

    pub fn history_len(&self) -> (r: usize)
        ensures
            r == self@.hist.len(),
    {
        self.last_frames.len()
    }

    pub fn future_len(&self) -> (r: usize)
        ensures
            r == self@.future.len(),
    {
        self.future_inputs.len()
    }

    /// The record `i` ticks back, newest first, if the history reaches that
    /// far.
    pub fn record(&self, i: usize) -> (r: Option<FrameRecord>)
        ensures
            i < self@.hist.len() ==> r == Some(self@.hist[i as int]),
            i >= self@.hist.len() ==> r is None,
    {
        if i < self.last_frames.len() {
            Some(self.last_frames[i])
        } else {
            None
        }
    }

    /// The newest retained world state.
    pub fn current_state(&self) -> (r: PongGameState)
        requires
            self@.wf(),
        ensures
            r == self@.hist[0].game_after_inputs,
    {
        self.last_frames[0].game_after_inputs
    }

    /// Rewrite records `0..=j` with the corrected remote input and
    /// resimulate their states, oldest first.
    #[verifier::loop_isolation(false)]
    #[verifier::rlimit(100)]
    #[verifier::spinoff_prover]
    fn resimulate(&mut self, j: usize, remote_left: bool, r: PongInputState)
        requires
            sp_hist_wf(
                old(self).last_frames@,
                old(self).cur_frame,
                old(self).playing_on_left_side,
            ),
            j + 1 < old(self).last_frames@.len(),
        ensures
            final(self).last_frames@ == sp_resim(
                old(self).last_frames@,
                remote_left,
                r,
                j as int,
            ),
            final(self).last_frames@.len() == old(self).last_frames@.len(),
            forall|m: int|
                0 <= m < final(self).last_frames@.len() ==> (#[trigger] final(self).last_frames@[m]).game_after_inputs.wf(),
            forall|m: int|
                0 <= m <= j ==> (#[trigger] final(self).last_frames@[m]).player_inputs == old(self).last_frames@[m].player_inputs.sp_with_side(remote_left, r),
            forall|m: int|
                j < m < final(self).last_frames@.len() ==> (#[trigger] final(self).last_frames@[m]) == old(self).last_frames@[m],
            forall|m: int|
                0 <= m && m + 1 < final(self).last_frames@.len() ==> (#[trigger] final(self).last_frames@[m]).game_after_inputs == final(self).last_frames@[m + 1].game_after_inputs.sp_step(
                    final(self).last_frames@[m].player_inputs.left.input,
                    final(self).last_frames@[m].player_inputs.right.input,
                ),
            final(self).cur_frame == old(self).cur_frame,
            final(self).future_inputs@ == old(self).future_inputs@,
            final(self).playing_on_left_side == old(self).playing_on_left_side,
            final(self).frames_rolled_back == old(self).frames_rolled_back,
            final(self).oldest_frame_delay == old(self).oldest_frame_delay,
            final(self).late_drops == old(self).late_drops,
            final(self).rate_request == old(self).rate_request,
    {
        let ghost h0 = self.last_frames@;
        let ghost len = h0.len() as int;
        let _hist_len = self.last_frames.len();
        let ghost h1 = Seq::new(
            h0.len(),
            |i: int|
                if 0 <= i <= j {
                    FrameRecord {
                        player_inputs: h0[i].player_inputs.sp_with_side(remote_left, r),
                        game_after_inputs: h0[i].game_after_inputs,
                    }
                } else {
                    h0[i]
                },
        );

        let mut i: usize = 0;
        while i <= j
            invariant
                i <= j + 1,
                j + 1 < self.last_frames@.len(),
                self.last_frames@.len() == len,
                h1.len() == len,
                forall|m: int| 0 <= m < i ==> (#[trigger] self.last_frames@[m]) == h1[m],
                forall|m: int| i <= m < len ==> (#[trigger] self.last_frames@[m]) == h0[m],
                self.cur_frame == old(self).cur_frame,
                self.future_inputs@ == old(self).future_inputs@,
                self.playing_on_left_side == old(self).playing_on_left_side,
                self.frames_rolled_back == old(self).frames_rolled_back,
                self.oldest_frame_delay == old(self).oldest_frame_delay,
                self.late_drops == old(self).late_drops,
                self.rate_request == old(self).rate_request,
            decreases j + 1 - i,
        {
            let mut rec = self.last_frames[i];
            rec.player_inputs = rec.player_inputs.with_side(remote_left, r);
            self.last_frames.set(i, rec);
            i = i + 1;
        }
        proof {
            assert(self.last_frames@ =~= h1);
        }

        let ghost rebuilt = sp_rebuild(h1, j as int);
        let mut t: usize = j + 1;
        while t > 0
            invariant
                t <= j + 1,
                j + 1 < self.last_frames@.len(),
                self.last_frames@.len() == len,
                h1.len() == len,
                sp_rebuild(self.last_frames@, t as int - 1) == rebuilt,
                forall|m: int| 0 <= m < t ==> (#[trigger] self.last_frames@[m]) == h1[m],
                forall|m: int| j < m < len ==> (#[trigger] self.last_frames@[m]) == h1[m],
                forall|m: int|
                    t <= m <= j ==> (#[trigger] self.last_frames@[m]).player_inputs == h1[
                        m
                    ].player_inputs,
                forall|m: int|
                    t <= m <= j ==> (#[trigger] self.last_frames@[m]).game_after_inputs
                        == self.last_frames@[m + 1].game_after_inputs.sp_step(
                        self.last_frames@[m].player_inputs.left.input,
                        self.last_frames@[m].player_inputs.right.input,
                    ),
                forall|m: int|
                    t <= m <= j ==> (#[trigger] self.last_frames@[m]).game_after_inputs.wf(),
                forall|m: int|
                    0 <= m < len ==> (#[trigger] h1[m]).game_after_inputs == h0[
                        m
                    ].game_after_inputs,
                forall|m: int|
                    0 <= m < len ==> (#[trigger] h0[m]).game_after_inputs.wf(),
                self.cur_frame == old(self).cur_frame,
                self.future_inputs@ == old(self).future_inputs@,
                self.playing_on_left_side == old(self).playing_on_left_side,
                self.frames_rolled_back == old(self).frames_rolled_back,
                self.oldest_frame_delay == old(self).oldest_frame_delay,
                self.late_drops == old(self).late_drops,
                self.rate_request == old(self).rate_request,
            decreases t,
        {
            let jj = t - 1;
            let inp = self.last_frames[jj].player_inputs;
            let mut ns = self.last_frames[jj + 1].game_after_inputs;
            ns.process_logic(&inp);
            let mut rec = self.last_frames[jj];
            rec.game_after_inputs = ns;
            self.last_frames.set(jj, rec);
            t = jj;
        }
        proof {
            assert(sp_rebuild(self.last_frames@, -1) == self.last_frames@);
            assert(self.last_frames@ == rebuilt);
            assert(h1 =~= Seq::new(
                h0.len(),
                |i: int|
                    if 0 <= i <= j {
                        FrameRecord {
                            player_inputs: h0[i].player_inputs.sp_with_side(remote_left, r),
                            game_after_inputs: h0[i].game_after_inputs,
                        }
                    } else {
                        h0[i]
                    },
            ));
        }
    }

    /// Classify and apply one remote input, as `sp_classify` describes.
    fn apply_remote(&mut self, r: PongInputState, staged: &mut Option<PongInputState>)
        requires
            sp_hist_wf(
                old(self).last_frames@,
                old(self).cur_frame,
                old(self).playing_on_left_side,
            ),
        ensures
            final(self).cur_frame == old(self).cur_frame,
            final(self).playing_on_left_side == old(self).playing_on_left_side,
            final(self).drain_view(*final(staged)) == sp_classify(
                old(self).drain_view(*old(staged)),
                old(self).cur_frame,
                old(self).playing_on_left_side,
                r,
            ),
            sp_hist_wf(
                final(self).last_frames@,
                final(self).cur_frame,
                final(self).playing_on_left_side,
            ),
    {
        let remote_left = !self.playing_on_left_side;
        if r.frame > self.cur_frame {
            self.future_inputs.push(r);
            self.rate_request = TickRate::SpeedUp;
            proof {
                assert(self.drain_view(*staged) =~= sp_classify(
                    old(self).drain_view(*old(staged)),
                    old(self).cur_frame,
                    old(self).playing_on_left_side,
                    r,
                ));
            }
        } else if r.frame == self.cur_frame {
            *staged = Some(r);
            self.rate_request = TickRate::Nominal;
            proof {
                assert(self.drain_view(*staged) =~= sp_classify(
                    old(self).drain_view(*old(staged)),
                    old(self).cur_frame,
                    old(self).playing_on_left_side,
                    r,
                ));
            }
        } else {
            let k = self.cur_frame - r.frame;
            let j = (k - 1) as usize;
            if j >= self.last_frames.len() {
                if self.late_drops < u32::MAX {
                    self.late_drops = self.late_drops + 1;
                }
                proof {
                    assert(self.drain_view(*staged) =~= sp_classify(
                        old(self).drain_view(*old(staged)),
                        old(self).cur_frame,
                        old(self).playing_on_left_side,
                        r,
                    ));
                }
            } else {
                if k > self.oldest_frame_delay {
                    self.oldest_frame_delay = k;
                }
                if k > 1 {
                    self.rate_request = TickRate::SlowDown;
                }
                let slot = self.last_frames[j].player_inputs.side(remote_left);
                if slot == r {
                    proof {
                        assert(self.drain_view(*staged) =~= sp_classify(
                            old(self).drain_view(*old(staged)),
                            old(self).cur_frame,
                            old(self).playing_on_left_side,
                            r,
                        ));
                    }
                } else if k as usize >= self.last_frames.len() {
                    if self.late_drops < u32::MAX {
                        self.late_drops = self.late_drops + 1;
                    }
                    proof {
                        assert(self.drain_view(*staged) =~= sp_classify(
                            old(self).drain_view(*old(staged)),
                            old(self).cur_frame,
                            old(self).playing_on_left_side,
                            r,
                        ));
                    }
                } else {
                    self.resimulate(j, remote_left, r);
                    self.frames_rolled_back = k;
                    proof {
                        assert(self.drain_view(*staged) =~= sp_classify(
                            old(self).drain_view(*old(staged)),
                            old(self).cur_frame,
                            old(self).playing_on_left_side,
                            r,
                        ));
                        assert(sp_hist_wf(
                            self.last_frames@,
                            self.cur_frame,
                            self.playing_on_left_side,
                        ));
                    }
                }
            }
        }
    }

    /// One engine tick, exactly as `sp_tick` describes: drain the remote
    /// batch (rolling back where it corrects the past), choose this tick's
    /// remote input, advance the simulation, retain the new record.
    #[verifier::loop_isolation(false)]
    #[verifier::rlimit(100)]
    #[verifier::spinoff_prover]
    pub fn process(&mut self, local_input_bits: u32, remote_inputs: &Vec<PongInputState>)
        requires
            old(self)@.wf(),
            old(self)@.cur_frame < u32::MAX,
        ensures
            final(self)@ == sp_tick(old(self)@, local_input_bits, remote_inputs@),
            final(self)@.wf(),
    {
        let ghost v0 = self@;
        self.frames_rolled_back = 0;
        self.oldest_frame_delay = 0;
        self.late_drops = 0;
        let mut staged: Option<PongInputState> = None;
        let ghost st0 = DrainState {
            hist: v0.hist,
            future: v0.future,
            staged: None,
            rolled_back: 0u32,
            oldest_delay: 0u32,
            late_drops: 0u32,
            rate: v0.rate,
        };
        proof {
            assert(self.drain_view(staged) =~= st0);
            assert(remote_inputs@.skip(0) =~= remote_inputs@);
        }

        let n = remote_inputs.len();
        let mut i: usize = 0;
        while i < n
            invariant
                i <= n,
                n == remote_inputs.len(),
                self.cur_frame == v0.cur_frame,
                self.playing_on_left_side == v0.left_side,
                sp_hist_wf(self.last_frames@, self.cur_frame, self.playing_on_left_side),
                sp_drain(
                    self.drain_view(staged),
                    v0.cur_frame,
                    v0.left_side,
                    remote_inputs@.skip(i as int),
                ) == sp_drain(st0, v0.cur_frame, v0.left_side, remote_inputs@),
            decreases n - i,
        {
            let r = remote_inputs[i];
            proof {
                assert(remote_inputs@.skip(i as int)[0] == r);
                assert(remote_inputs@.skip(i as int).drop_first() =~= remote_inputs@.skip(
                    i as int + 1,
                ));
            }
            self.apply_remote(r, &mut staged);
            i = i + 1;
        }
        let ghost st = sp_drain(st0, v0.cur_frame, v0.left_side, remote_inputs@);
        proof {
            assert(remote_inputs@.skip(n as int).len() == 0);
            assert(self.drain_view(staged) == st);
        }

        let remote_left = !self.playing_on_left_side;
        let chosen: PongInputState;
        match staged {
            Some(r) => {
                chosen = r;
            },
            None => {
                let mut used_future = false;
                if self.future_inputs.len() > 0 {
                    let head = self.future_inputs[0];
                    if head.frame == self.cur_frame {
                        used_future = true;
                    }
                }
                if used_future {
                    chosen = self.future_inputs.remove(0);
                    proof {
                        assert(self.future_inputs@ =~= st.future.drop_first());
                    }
                } else {
                    chosen = self.last_frames[0].player_inputs.side(remote_left);
                }
            },
        }
        proof {
            assert(chosen == sp_choose_remote(st, v0.cur_frame, v0.left_side).0);
            assert(self.future_inputs@ == sp_choose_remote(st, v0.cur_frame, v0.left_side).1);
        }

        let local = PongInputState { frame: self.cur_frame, input: local_input_bits };
        let inputs = if self.playing_on_left_side {
            PlayerInputs { left: local, right: chosen }
        } else {
            PlayerInputs { left: chosen, right: local }
        };
        let mut new_state = self.last_frames[0].game_after_inputs;
        new_state.process_logic(&inputs);
        self.last_frames.insert(
            0,
            FrameRecord { player_inputs: inputs, game_after_inputs: new_state },
        );
        proof {
            assert(self.last_frames@ =~= seq![
                FrameRecord { player_inputs: inputs, game_after_inputs: new_state },
            ] + st.hist);
        }
        if self.last_frames.len() > MAX_ROLLBACK_FRAMES {
            self.last_frames.pop();
        }
        self.cur_frame = self.cur_frame + 1;
        proof {
            assert(self@ =~= sp_tick(v0, local_input_bits, remote_inputs@));
            assert(self@.wf());
        }
    }
}

/// The history invariant that holds after every tick: the history holds
/// between one and `MAX_ROLLBACK_FRAMES` records, and the newest record's
/// local input is labelled with the frame just taken.
pub proof fn lemma_history_invariant(v: EngineView)
    requires
        v.wf(),
        v.cur_frame >= 1,
    ensures
        1 <= v.hist.len() <= MAX_ROLLBACK_FRAMES,
        v.hist[0].player_inputs.sp_side(v.left_side).frame == v.cur_frame - 1,
{
}

/// Rebuilding states touches neither the inputs nor the records older than
/// the corrected one, and keeps the history's length.
pub proof fn lemma_rebuild_shape(h: Seq<FrameRecord>, j: int)
    requires
        j < h.len(),
    ensures
        sp_rebuild(h, j).len() == h.len(),
        forall|m: int|
            0 <= m < h.len() ==> (#[trigger] sp_rebuild(h, j)[m]).player_inputs == h[
                m
            ].player_inputs,
        forall|m: int| j < m < h.len() ==> (#[trigger] sp_rebuild(h, j)[m]) == h[m],
    decreases j + 1,
{
    if j < 0 {
    } else {
        let h2 = h.update(
            j,
            FrameRecord {
                player_inputs: h[j].player_inputs,
                game_after_inputs: h[j + 1].game_after_inputs.sp_step(
                    h[j].player_inputs.left.input,
                    h[j].player_inputs.right.input,
                ),
            },
        );
        lemma_rebuild_shape(h2, j - 1);
    }
}

/// Duplicate suppression: a late remote input that already matches its
/// history slot rewrites nothing, reports no rollback, and leaves the
/// future buffer and staged input alone.
pub proof fn lemma_duplicate_suppression(
    st: DrainState,
    cur_frame: u32,
    left_side: bool,
    r: PongInputState,
)
    requires
        r.frame < cur_frame,
        cur_frame - r.frame - 1 < st.hist.len(),
        st.hist[cur_frame - r.frame - 1].player_inputs.sp_side(!left_side) == r,
    ensures
        sp_classify(st, cur_frame, left_side, r).hist == st.hist,
        sp_classify(st, cur_frame, left_side, r).rolled_back == st.rolled_back,
        sp_classify(st, cur_frame, left_side, r).future == st.future,
        sp_classify(st, cur_frame, left_side, r).staged == st.staged,
        sp_classify(st, cur_frame, left_side, r).late_drops == st.late_drops,
{
}

/// Applying the same late remote input a second time resimulates nothing:
/// the first application left the slot holding exactly that input (or
/// dropped it), so the second changes no record and reports no rollback.
pub proof fn lemma_classify_idempotent(
    st: DrainState,
    cur_frame: u32,
    left_side: bool,
    r: PongInputState,
)
    requires
        r.frame < cur_frame,
    ensures
        ({
            let st1 = sp_classify(st, cur_frame, left_side, r);
            let st2 = sp_classify(st1, cur_frame, left_side, r);
            &&& st2.hist == st1.hist
            &&& st2.rolled_back == st1.rolled_back
            &&& st2.future == st1.future
            &&& st2.staged == st1.staged
        }),
{
    let k = cur_frame - r.frame;
    let st1 = sp_classify(st, cur_frame, left_side, r);
    if k - 1 < st.hist.len() && st.hist[k - 1].player_inputs.sp_side(!left_side) != r && k
        < st.hist.len() {
        let h1 = Seq::new(
            st.hist.len(),
            |i: int|
                if 0 <= i <= k - 1 {
                    FrameRecord {
                        player_inputs: st.hist[i].player_inputs.sp_with_side(!left_side, r),
                        game_after_inputs: st.hist[i].game_after_inputs,
                    }
                } else {
                    st.hist[i]
                },
        );
        lemma_rebuild_shape(h1, k - 1);
        assert(st1.hist[k - 1].player_inputs.sp_side(!left_side) == r);
    }
}

/// The inputs of the retained records in frame order, oldest first; the
/// oldest record itself serves as the replay's base state.
pub open spec fn sp_hist_inputs_chrono(hist: Seq<FrameRecord>) -> Seq<PlayerInputs> {
    Seq::new((hist.len() - 1) as nat, |m: int| hist[hist.len() - 2 - m].player_inputs)
}

proof fn lemma_replay_suffix(hist: Seq<FrameRecord>, idx: int)
    requires
        forall|m: int|
            0 <= m && m + 1 < hist.len() ==> (#[trigger] hist[m]).game_after_inputs == hist[
                m + 1
            ].game_after_inputs.sp_step(
                hist[m].player_inputs.left.input,
                hist[m].player_inputs.right.input,
            ),
        0 <= idx < hist.len(),
    ensures
        hist[idx].game_after_inputs == sp_replay(
            hist[hist.len() - 1].game_after_inputs,
            Seq::new(
                (hist.len() - 1 - idx) as nat,
                |m: int| hist[hist.len() - 2 - m].player_inputs,
            ),
        ),
    decreases hist.len() - idx,
{
    let base = hist[hist.len() - 1].game_after_inputs;
    let s = Seq::new((hist.len() - 1 - idx) as nat, |m: int| hist[hist.len() - 2 - m].player_inputs);
    if idx == hist.len() - 1 {
        assert(s.len() == 0);
    } else {
        lemma_replay_suffix(hist, idx + 1);
        let s2 = Seq::new(
            (hist.len() - 2 - idx) as nat,
            |m: int| hist[hist.len() - 2 - m].player_inputs,
        );
        assert(s =~= s2.push(hist[idx].player_inputs));
        lemma_replay_push(base, s2, hist[idx].player_inputs);
    }
}

/// Rollback equivalence: whatever order the remote inputs arrived in and
/// however many rollbacks they caused, the newest retained state always
/// equals one single forward replay, in frame order, of the retained
/// inputs from the oldest retained state.
pub proof fn lemma_history_is_replay(v: EngineView)
    requires
        v.wf(),
    ensures
        v.hist[0].game_after_inputs == sp_replay(
            v.hist[v.hist.len() - 1].game_after_inputs,
            sp_hist_inputs_chrono(v.hist),
        ),
{
    lemma_replay_suffix(v.hist, 0);
}

} // verus!
