//! The generation-stamp model of the sequential-lock protocol.
//!
//! Appends are numbered 1, 2, 3, ...; append number `g` writes the slot
//! `(g - 1) % CAPACITY` and stamps it with `g`. [`latest_stamp`] gives, after
//! a number of appends, the stamp currently sitting in a slot: the number of
//! the most recent append that landed there, or 0 if the slot was never
//! written. Every contract of the buffer and of its readers is stated over
//! this function, and the laws of the protocol — in-order delivery while a
//! reader stays within capacity, bounded staleness after an overrun, and
//! exclusive claims — are proved of it here.

use vstd::prelude::*;
use vstd::arithmetic::div_mod::lemma_fundamental_div_mod;
use vstd::arithmetic::div_mod::lemma_mod_add_multiples_vanish;

verus! {

/// Number of slots in a ring buffer, fixed at compile time.
pub const CAPACITY: usize = 256;

/// The stamp held by `slot` after `appends` messages have been appended:
/// the number of the last append that wrote this slot, or 0 if none did.
pub open spec fn latest_stamp(appends: nat, slot: nat) -> nat
    decreases appends,
{
    if appends == 0 {
        0
    } else if ((appends - 1) as nat) % (CAPACITY as nat) == slot {
        appends
    } else {
        latest_stamp((appends - 1) as nat, slot)
    }
}

/// A slot's stamp never exceeds the number of appends performed.
pub proof fn lemma_stamp_bounds(appends: nat, slot: nat)
    ensures
        latest_stamp(appends, slot) <= appends,
    decreases appends,
{
    if appends > 0 {
        lemma_stamp_bounds((appends - 1) as nat, slot);
    }
}

/// A nonzero stamp names an append that really landed in this slot:
/// the slot written by append `g` is `(g - 1) % CAPACITY`.
pub proof fn lemma_stamp_names_slot(appends: nat, slot: nat)
    ensures
        latest_stamp(appends, slot) > 0 ==> ((latest_stamp(appends, slot) - 1) as nat) % (
        CAPACITY as nat) == slot,
    decreases appends,
{
    if appends > 0 {
        lemma_stamp_names_slot((appends - 1) as nat, slot);
    }
}

/// Two appends landing in the same slot are at least `CAPACITY` apart.
proof fn lemma_same_slot_gap(a: nat, b: nat)
    requires
        b < a,
        a % (CAPACITY as nat) == b % (CAPACITY as nat),
    ensures
        a - b >= CAPACITY,
{
    lemma_fundamental_div_mod(a as int, CAPACITY as int);
    lemma_fundamental_div_mod(b as int, CAPACITY as int);
    assert(a - b == (CAPACITY as int) * (a as int / (CAPACITY as int) - b as int / (
    CAPACITY as int)));
}

/// Once append `g + 1` has happened, the stamp in its slot is at least
/// `g + 1`: a reader awaiting generation `g + 1` never finds its slot stale.
pub proof fn lemma_stamp_at_least(appends: nat, g: nat)
    requires
        g < appends,
    ensures
        latest_stamp(appends, g % (CAPACITY as nat)) >= g + 1,
    decreases appends,
{
    let s = g % (CAPACITY as nat);
    if ((appends - 1) as nat) % (CAPACITY as nat) == s {
        // the most recent append wrote this very slot
    } else {
        // then `appends - 1 != g`, so the claim follows one step earlier
        lemma_stamp_at_least((appends - 1) as nat, g);
    }
}

/// In-order delivery: while a reader at generation `g` is at most `CAPACITY`
/// appends behind, the slot it awaits holds exactly append `g + 1` — no
/// message is lost, duplicated or reordered within capacity.
pub proof fn lemma_delivery_in_order(appends: nat, g: nat)
    requires
        g < appends <= g + CAPACITY,
    ensures
        latest_stamp(appends, g % (CAPACITY as nat)) == g + 1,
    decreases appends,
{
    let s = g % (CAPACITY as nat);
    if appends == g + 1 {
        assert(((appends - 1) as nat) % (CAPACITY as nat) == s);
    } else {
        if ((appends - 1) as nat) % (CAPACITY as nat) == s {
            // impossible: a second append into this slot would be at least
            // CAPACITY past g, but appends - 1 <= g + CAPACITY - 1
            lemma_same_slot_gap((appends - 1) as nat, g);
            assert(false);
        }
        lemma_delivery_in_order((appends - 1) as nat, g);
    }
}

/// Graceful degradation under overrun: whatever stamp a lapped reader finds,
/// it names one of the most recent `CAPACITY` appends — never anything older,
/// never anything not yet published.
pub proof fn lemma_overrun_freshness(appends: nat, g: nat)
    requires
        g < appends,
    ensures
        latest_stamp(appends, g % (CAPACITY as nat)) <= appends,
        appends < latest_stamp(appends, g % (CAPACITY as nat)) + CAPACITY,
    decreases appends,
{
    let s = g % (CAPACITY as nat);
    lemma_stamp_bounds(appends, s);
    if ((appends - 1) as nat) % (CAPACITY as nat) == s {
        // the slot was written by the very last append
    } else {
        // `appends - 1 != g` here, so g < appends - 1
        lemma_overrun_freshness((appends - 1) as nat, g);
        let c = latest_stamp((appends - 1) as nat, s);
        if c + CAPACITY == appends {
            // then the slot's next write would be due exactly now, i.e. the
            // last append hit this slot after all — contradiction
            lemma_stamp_at_least((appends - 1) as nat, g);
            lemma_stamp_names_slot((appends - 1) as nat, s);
            lemma_mod_add_multiples_vanish((c - 1) as int, CAPACITY as int);
            assert(false);
        }
    }
}

/// Independent broadcast: consumption is a function of a cursor's own
/// position alone. Any cursor standing at generation `start` — wherever it
/// came from, and whatever other cursors do — finds the whole stream
/// `start + 1, start + 2, ...` laid out in its slots, in push order, as long
/// as the buffer has not yet run more than `CAPACITY` past it.
pub proof fn lemma_independent_broadcast(appends: nat, start: nat)
    requires
        start <= appends <= start + CAPACITY,
    ensures
        forall|j: nat|
            start + j < appends ==> #[trigger] latest_stamp(
                appends,
                ((start + j) as nat) % (CAPACITY as nat),
            ) == start + j + 1,
{
    assert forall|j: nat| start + j < appends implies #[trigger] latest_stamp(
        appends,
        ((start + j) as nat) % (CAPACITY as nat),
    ) == start + j + 1 by {
        lemma_delivery_in_order(appends, (start + j) as nat);
    }
}

/// Work-stealing exclusivity: a claim made from generation `g` advances the
/// cursor strictly past `g`, so the next claim — from the new position,
/// against the same or a later buffer state — names a strictly later
/// generation. No two claims through one cursor ever deliver the same append.
pub proof fn lemma_claims_exclusive(appends1: nat, appends2: nat, g: nat)
    requires
        g < appends1 <= appends2,
        latest_stamp(appends1, g % (CAPACITY as nat)) < appends2,
    ensures
        g < latest_stamp(appends1, g % (CAPACITY as nat)),
        latest_stamp(appends1, g % (CAPACITY as nat)) < latest_stamp(
            appends2,
            latest_stamp(appends1, g % (CAPACITY as nat)) % (CAPACITY as nat),
        ),
{
    lemma_stamp_at_least(appends1, g);
    lemma_stamp_at_least(appends2, latest_stamp(appends1, g % (CAPACITY as nat)));
}

} // verus!
