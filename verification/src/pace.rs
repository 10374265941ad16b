//! Adapts the transmit frame rate to what the link can actually carry.
//!
//! Frames go out through blocking writes, so when the connection degrades
//! (packet loss, saturated uplink) the write+flush stalls: that stall is the
//! backpressure signal. `note()` takes the time of each frame's write; on an overrun
//! the next frames are skipped in proportion (the emulator keeps running and input
//! stays responsive) before probing the link again.

use vstd::prelude::*;

verus! {

/// The longest that frames are skipped after a stall, ns.
pub const SKIP_LIMIT_NS: u64 = 2_000_000_000;

#[derive(Clone, Copy, PartialEq, Eq, Debug, Structural)]
pub struct LinkPace {
    /// the per-frame transmit time slice, ns
    pub budget: u64,
    /// frames left to skip before the next probe write
    pub skip: u32,
}

/// Frames to skip after a write that overran: as many as its time `d` holds budgets,
/// at most two seconds' worth.
pub open spec fn skips_after(budget: int, d: int) -> int {
    let slice = if budget < 1 {
        1
    } else {
        budget
    };
    let skips = d / slice;
    let limit = SKIP_LIMIT_NS as int / slice;
    if skips > limit {
        limit
    } else {
        skips
    }
}

/// The pacer after a write that took `d`.
pub open spec fn noted(p: LinkPace, d: int) -> LinkPace {
    if d <= p.budget * 2 {
        p
    } else {
        LinkPace { skip: skips_after(p.budget as int, d) as u32, ..p }
    }
}

impl LinkPace {
    pub fn new(budget: u64) -> (r: Self)
        ensures
            r == (LinkPace { budget, skip: 0 }),
    {
        LinkPace { budget, skip: 0 }
    }

    /// True while frames are deliberately dropped to let the link recover.
    pub fn skipping(&self) -> (r: bool)
        ensures
            r == (self.skip > 0),
    {
        self.skip > 0
    }

    /// Reports whether the caller should skip transmitting this frame.
    pub fn skip_frame(&mut self) -> (r: bool)
        ensures
            r == (old(self).skip > 0),
            *final(self) == (if old(self).skip > 0 {
                LinkPace { skip: (old(self).skip - 1) as u32, ..*old(self) }
            } else {
                *old(self)
            }),
            *final(self) == after_frames(*old(self), 1),
    {
        proof {
            reveal_with_fuel(after_frames, 2);
        }
        if self.skip > 0 {
            self.skip = self.skip - 1;
            true
        } else {
            false
        }
    }

    /// Record how long a frame's write+flush took. Anything within 2x budget
    /// counts as keeping up (a little jitter shouldn't throttle us); past that,
    /// skip upcoming frames in proportion to the overrun, capped at ~2s so a
    /// long stall doesn't park the renderer once the link recovers.
    pub fn note(&mut self, d: u64)
        ensures
            *final(self) == noted(*old(self), d as int),
    {
        if d as u128 <= self.budget as u128 * 2 {
            return;
        }
        let slice: u64 = if self.budget < 1 {
            1
        } else {
            self.budget
        };
        let skips: u64 = d / slice;
        let limit: u64 = SKIP_LIMIT_NS / slice;
        proof {
            lemma_limit(slice as int);
        }
        self.skip = if skips > limit {
            limit as u32
        } else {
            skips as u32
        };
    }
}

proof fn lemma_limit(slice: int)
    requires
        slice >= 1,
    ensures
        0 <= SKIP_LIMIT_NS as int / slice <= SKIP_LIMIT_NS,
        slice * (SKIP_LIMIT_NS as int / slice) <= SKIP_LIMIT_NS,
{
    let q = SKIP_LIMIT_NS as int / slice;
    assert(0 <= q && slice * q <= SKIP_LIMIT_NS) by (nonlinear_arith)
        requires
            slice >= 1,
            q == SKIP_LIMIT_NS as int / slice,
    ;
    assert(q <= slice * q) by (nonlinear_arith)
        requires
            slice >= 1,
            q >= 0,
    ;
}

/// The pacer after `n` frames came up for transmission.
pub open spec fn after_frames(p: LinkPace, n: nat) -> LinkPace
    decreases n,
{
    if n == 0 {
        p
    } else {
        let q = after_frames(p, (n - 1) as nat);
        if q.skip > 0 {
            LinkPace { skip: (q.skip - 1) as u32, ..q }
        } else {
            q
        }
    }
}

/// However long a write stalled, the frames skipped for it fill at most two seconds,
/// and then the link is tried again.
pub proof fn law_stall_is_forgotten(p: LinkPace, d: int)
    requires
        d > p.budget * 2,
    ensures
        noted(p, d).skip * p.budget <= SKIP_LIMIT_NS,
        forall|n: nat|
            #![trigger after_frames(noted(p, d), n)]
            (after_frames(noted(p, d), n).skip > 0) <==> n < noted(p, d).skip,
{
    let slice = if p.budget < 1 {
        1
    } else {
        p.budget as int
    };
    lemma_limit(slice);
    let skip = noted(p, d).skip as int;
    let limit = SKIP_LIMIT_NS as int / slice;
    let turns = d / slice;
    assert(0 <= turns) by (nonlinear_arith)
        requires
            d >= 0,
            slice >= 1,
            turns == d / slice,
    ;
    assert(skip * p.budget <= slice * limit) by (nonlinear_arith)
        requires
            0 <= skip <= limit,
            0 <= p.budget <= slice,
    ;
    assert forall|n: nat|
        #![trigger after_frames(noted(p, d), n)]
        (after_frames(noted(p, d), n).skip > 0) <==> n < noted(p, d).skip by {
        lemma_skips_count_down(noted(p, d), n);
    }
}

proof fn lemma_skips_count_down(p: LinkPace, n: nat)
    ensures
        after_frames(p, n).skip == (if n < p.skip {
            p.skip - n
        } else {
            0
        }),
    decreases n,
{
    if n > 0 {
        lemma_skips_count_down(p, (n - 1) as nat);
    }
}

/// A write within twice its budget throttles nothing.
pub proof fn law_jitter_is_tolerated(p: LinkPace, d: int)
    requires
        d <= p.budget * 2,
    ensures
        noted(p, d) == p,
{
}

/// A stall is answered in proportion: the frames that are skipped are as many whole
/// budgets as the write took, or as two seconds hold where it took longer.
pub proof fn law_skips_match_the_stall(p: LinkPace, d: int)
    requires
        p.budget >= 1,
        d > p.budget * 2,
    ensures
        ({
            let stalled = if d < 2_000_000_000 {
                d
            } else {
                2_000_000_000
            };
            &&& noted(p, d).skip * p.budget <= stalled < (noted(p, d).skip + 1) * p.budget
            &&& noted(p, d).budget == p.budget
        }),
{
    let slice = p.budget as int;
    lemma_limit(slice);
    let limit = 2_000_000_000int / slice;
    vstd::arithmetic::div_mod::lemma_fundamental_div_mod(d, slice);
    vstd::arithmetic::div_mod::lemma_fundamental_div_mod(2_000_000_000, slice);
    vstd::arithmetic::div_mod::lemma_mod_bound(d, slice);
    vstd::arithmetic::div_mod::lemma_mod_bound(2_000_000_000, slice);
    if d < 2_000_000_000 {
        vstd::arithmetic::div_mod::lemma_div_is_ordered(d, 2_000_000_000, slice);
    } else {
        vstd::arithmetic::div_mod::lemma_div_is_ordered(2_000_000_000, d, slice);
    }
    let skip = noted(p, d).skip as int;
    assert(0 <= d / slice) by (nonlinear_arith)
        requires
            d >= 0,
            slice >= 1,
    ;
    assert(skip * slice == slice * skip) by (nonlinear_arith);
    assert((skip + 1) * slice == slice * skip + slice) by (nonlinear_arith);
}

} // verus!
