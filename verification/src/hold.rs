//! The entry-verification hold.
//!
//! The hold is armed before a batch that carries cross-chain entries is sent to
//! L1, and cleared once derivation has verified the block that carries them.
//! While it is armed no block is built and no further batch is submitted.

use vstd::prelude::*;

verus! {

/// The deferral count at which verification gives up and rewinds. The
/// consumption of an entry can land one or two L1 blocks after the batch, so a
/// mismatch is first given time.
pub const MAX_ENTRY_VERIFY_DEFERRALS: u32 = 3;

/// Outcome of [`EntryVerificationHold::defer`].
#[derive(Clone, Copy, Debug, PartialEq, Eq, Structural)]
pub enum DeferralResult {
    /// Retry later. `deferrals` counts this deferral too.
    Continue { deferrals: u32 },
    /// Deferrals are used up: rewind to `target`, the parent of the entry
    /// block, so that the entry block itself is derived anew.
    MustRewind { target: u64 },
    /// The hold was not armed, and nothing happened.
    NotArmed,
}

/// The state of the hold.
#[derive(Clone, Copy, Debug, PartialEq, Eq, Structural)]
pub enum EntryVerificationHold {
    /// Building and submitting are free.
    Clear,
    /// Building and submitting wait for `entry_block` to be verified.
    Armed { entry_block: u64, deferrals: u32 },
}

impl Default for EntryVerificationHold {
    fn default() -> (hold: Self)
        ensures
            hold == EntryVerificationHold::Clear,
    {
        EntryVerificationHold::Clear
    }
}

/// The hold after it was armed for `entry_block`.
pub open spec fn armed(hold: EntryVerificationHold, entry_block: u64) -> EntryVerificationHold {
    if hold.held_block() == Some(entry_block) {
        hold
    } else {
        EntryVerificationHold::Armed { entry_block, deferrals: 0 }
    }
}

impl EntryVerificationHold {
    /// The block that the hold waits for.
    pub open spec fn held_block(self) -> Option<u64> {
        match self {
            EntryVerificationHold::Clear => None,
            EntryVerificationHold::Armed { entry_block, .. } => Some(entry_block),
        }
    }

    /// How often verification of the held block was deferred.
    pub open spec fn deferral_count(self) -> u32 {
        match self {
            EntryVerificationHold::Clear => 0,
            EntryVerificationHold::Armed { deferrals, .. } => deferrals,
        }
    }

    /// The hold after one deferral.
    pub open spec fn after_defer(self) -> EntryVerificationHold {
        match self {
            EntryVerificationHold::Clear => EntryVerificationHold::Clear,
            EntryVerificationHold::Armed { entry_block, deferrals } =>
                EntryVerificationHold::Armed { entry_block, deferrals: (deferrals + 1) as u32 },
        }
    }

    /// What one deferral answers.
    pub open spec fn defer_result(self) -> DeferralResult {
        match self {
            EntryVerificationHold::Clear => DeferralResult::NotArmed,
            EntryVerificationHold::Armed { entry_block, deferrals } =>
                if deferrals + 1 < MAX_ENTRY_VERIFY_DEFERRALS {
                    DeferralResult::Continue { deferrals: (deferrals + 1) as u32 }
                } else {
                    DeferralResult::MustRewind {
                        target: if entry_block == 0 { 0 } else { (entry_block - 1) as u64 },
                    }
                },
        }
    }

    /// Arms the hold for `entry_block`. A hold that is armed for that block
    /// already stays as it is; any other starts anew with no deferrals spent.
    pub fn arm(&mut self, entry_block: u64)
        ensures
            *final(self) == armed(*old(self), entry_block),
            final(self).held_block() == Some(entry_block),
    {
        match *self {
            EntryVerificationHold::Armed { entry_block: current, .. } if current == entry_block => {
            },
            _ => {
                *self = EntryVerificationHold::Armed { entry_block, deferrals: 0 };
            },
        }
    }

    /// Records that verification of the held block was put off once more.
    pub fn defer(&mut self) -> (result: DeferralResult)
        requires
            old(self).deferral_count() < u32::MAX,
        ensures
            *final(self) == old(self).after_defer(),
            result == old(self).defer_result(),
    {
        match *self {
            EntryVerificationHold::Clear => DeferralResult::NotArmed,
            EntryVerificationHold::Armed { entry_block, deferrals } => {
                let spent: u32 = deferrals + 1;
                *self = EntryVerificationHold::Armed { entry_block, deferrals: spent };
                if spent < MAX_ENTRY_VERIFY_DEFERRALS {
                    DeferralResult::Continue { deferrals: spent }
                } else {
                    DeferralResult::MustRewind { target: entry_block.saturating_sub(1) }
                }
            },
        }
    }

    /// Releases the hold.
    pub fn clear(&mut self)
        ensures
            *final(self) == EntryVerificationHold::Clear,
    {
        *self = EntryVerificationHold::Clear;
    }

    /// Whether the hold waits for some block.
    pub fn is_armed(&self) -> (is_armed: bool)
        ensures
            is_armed == (self.held_block() is Some),
    {
        matches!(self, EntryVerificationHold::Armed { .. })
    }

    /// Whether block production has to stand still.
    pub fn is_blocking_build(&self) -> (blocking: bool)
        ensures
            blocking == (self.held_block() is Some),
    {
        self.is_armed()
    }

    /// The block the hold waits for, if any.
    pub fn armed_for(&self) -> (block: Option<u64>)
        ensures
            block == self.held_block(),
    {
        match *self {
            EntryVerificationHold::Clear => None,
            EntryVerificationHold::Armed { entry_block, .. } => Some(entry_block),
        }
    }

    /// How often verification of the held block was deferred; zero when clear.
    pub fn deferrals(&self) -> (count: u32)
        ensures
            count == self.deferral_count(),
    {
        match *self {
            EntryVerificationHold::Clear => 0,
            EntryVerificationHold::Armed { deferrals, .. } => deferrals,
        }
    }

    /// Whether the hold waits for exactly `block`.
    pub fn is_armed_for(&self, block: u64) -> (is_armed: bool)
        ensures
            is_armed == (self.held_block() == Some(block)),
    {
        match *self {
            EntryVerificationHold::Clear => false,
            EntryVerificationHold::Armed { entry_block, .. } => entry_block == block,
        }
    }
}

/// The hold after `count` deferrals in a row.
pub open spec fn deferred(hold: EntryVerificationHold, count: nat) -> EntryVerificationHold
    decreases count,
{
    if count == 0 {
        hold
    } else {
        deferred(hold, (count - 1) as nat).after_defer()
    }
}

/// Arming twice for one block is arming once, however often verification was
/// deferred between.
pub proof fn arm_is_idempotent(hold: EntryVerificationHold, entry_block: u64, count: nat)
    ensures
        armed(deferred(armed(hold, entry_block), count), entry_block) == deferred(
            armed(hold, entry_block),
            count,
        ),
{
    deferrals_keep_held_block(armed(hold, entry_block), count);
}

proof fn deferrals_keep_held_block(hold: EntryVerificationHold, count: nat)
    ensures
        deferred(hold, count).held_block() == hold.held_block(),
    decreases count,
{
    if count > 0 {
        deferrals_keep_held_block(hold, (count - 1) as nat);
    }
}

/// A deferral never moves the hold to another block and never releases it.
pub proof fn deferral_keeps_held_block(hold: EntryVerificationHold)
    ensures
        hold.after_defer().held_block() == hold.held_block(),
{
}

/// A freshly armed hold grants `MAX_ENTRY_VERIFY_DEFERRALS - 1` retries, counted
/// up from one, and every later deferral demands a rewind to the parent of the
/// entry block.
pub proof fn fresh_hold_deferral_schedule(entry_block: u64, spent: u32)
    requires
        spent < u32::MAX,
    ensures
        ({
            let fresh = EntryVerificationHold::Armed { entry_block, deferrals: 0 };
            let result = deferred(fresh, spent as nat).defer_result();
            &&& deferred(fresh, spent as nat) == (EntryVerificationHold::Armed {
                entry_block,
                deferrals: spent,
            })
            &&& spent < MAX_ENTRY_VERIFY_DEFERRALS - 1 ==> result == (DeferralResult::Continue {
                deferrals: (spent + 1) as u32,
            })
            &&& spent >= MAX_ENTRY_VERIFY_DEFERRALS - 1 ==> result == (DeferralResult::MustRewind {
                target: if entry_block == 0 {
                    0
                } else {
                    (entry_block - 1) as u64
                },
            })
        }),
    decreases spent,
{
    if spent > 0 {
        fresh_hold_deferral_schedule(entry_block, (spent - 1) as u32);
    }
}

/// A hold that is armed for another block, or none, starts with no deferrals spent;
/// one that waits for the block already keeps those it has spent.
pub proof fn arming_starts_anew(hold: EntryVerificationHold, entry_block: u64)
    ensures
        armed(hold, entry_block).held_block() == Some(entry_block),
        hold.held_block() == Some(entry_block) ==> armed(hold, entry_block).deferral_count()
            == hold.deferral_count(),
        hold.held_block() != Some(entry_block) ==> armed(hold, entry_block).deferral_count() == 0,
{
}

/// Two deferrals of a fresh hold are let pass, and the third demands a rewind below
/// the block. A clear hold cannot be deferred.
pub proof fn third_deferral_demands_rewind(entry_block: u64)
    ensures
        ({
            let fresh = armed(EntryVerificationHold::Clear, entry_block);
            let second = fresh.after_defer();
            let third = second.after_defer();
            &&& fresh.defer_result() == (DeferralResult::Continue { deferrals: 1 })
            &&& second.defer_result() == (DeferralResult::Continue { deferrals: 2 })
            &&& third.defer_result() matches DeferralResult::MustRewind { target } && (entry_block
                > 0 ==> target + 1 == entry_block) && (entry_block == 0 ==> target == 0)
        }),
        EntryVerificationHold::Clear.defer_result() == DeferralResult::NotArmed,
        EntryVerificationHold::Clear.after_defer() == EntryVerificationHold::Clear,
        EntryVerificationHold::Clear.held_block() is None,
{
}

} // verus!
