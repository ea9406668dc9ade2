//! Discovery: dialing the configured bootstrap peer at startup and
//! re-dialing it, with capped exponential backoff, whenever it
//! disconnects.

use vstd::prelude::*;

verus! {

/// The backoff ceiling, in seconds.
pub const MAX_BACKOFF_SECS: u64 = 60;

/// The first backoff after a failure, in seconds.
pub const INITIAL_BACKOFF_SECS: u64 = 1;

/// Tracks the bootstrap peer and when to dial it again. With no
/// bootstrap peer configured, discovery never asks for anything.
pub struct Discovery {
    bootstrap: Option<String>,
    /// The delay before the next re-dial, in seconds; doubles on every
    /// failure up to [`MAX_BACKOFF_SECS`].
    backoff: u64,
    /// The time (manager clock) at which the next dial is due, when one
    /// is pending.
    next_dial_at: Option<u64>,
}

impl Discovery {
    /// The backoff stays within its documented bounds, and a dial is
    /// only ever pending when a bootstrap peer is configured.
    pub closed spec fn wf(self) -> bool {
        &&& INITIAL_BACKOFF_SECS <= self.backoff <= MAX_BACKOFF_SECS
        &&& (self.bootstrap is None ==> self.next_dial_at is None)
    }

    /// The configured bootstrap multiaddress.
    pub closed spec fn spec_bootstrap(self) -> Option<String> {
        self.bootstrap
    }

    /// The current re-dial delay in seconds.
    pub closed spec fn spec_backoff(self) -> u64 {
        self.backoff
    }

    /// When the next dial is due, if one is pending.
    pub closed spec fn pending_dial(self) -> Option<u64> {
        self.next_dial_at
    }

    /// Sets discovery up: with a bootstrap peer configured, the first
    /// dial is due at once (time zero).
    pub fn new(bootstrap: Option<String>) -> (d: Discovery)
        ensures
            d.wf(),
            d.spec_bootstrap() == bootstrap,
            d.spec_backoff() == INITIAL_BACKOFF_SECS,
            d.pending_dial() == (match bootstrap {
                Some(_) => Some(0u64),
                None => None::<u64>,
            }),
    {
        let next_dial_at: Option<u64> = match &bootstrap {
            Some(_) => Some(0),
            None => None,
        };
        Discovery { bootstrap, backoff: INITIAL_BACKOFF_SECS, next_dial_at }
    }

    /// Reports that the bootstrap peer connected: the pending dial is
    /// dropped and the backoff resets.
    pub fn on_bootstrap_connected(&mut self)
        requires
            old(self).wf(),
        ensures
            final(self).wf(),
            final(self).spec_bootstrap() == old(self).spec_bootstrap(),
            final(self).spec_backoff() == INITIAL_BACKOFF_SECS,
            final(self).pending_dial() is None,
    {
        self.backoff = INITIAL_BACKOFF_SECS;
        self.next_dial_at = None;
    }

    /// Reports that the bootstrap peer disconnected (or that a dial
    /// failed) at time `now`: the next dial is due one backoff later, and
    /// the backoff doubles, capped at [`MAX_BACKOFF_SECS`].
    pub fn on_bootstrap_disconnected(&mut self, now: u64)
        requires
            old(self).wf(),
        ensures
            final(self).wf(),
            final(self).spec_bootstrap() == old(self).spec_bootstrap(),
            old(self).spec_bootstrap() is Some ==> ({
                &&& final(self).pending_dial() == Some(
                    (if now + old(self).spec_backoff() > u64::MAX {
                        u64::MAX
                    } else {
                        (now + old(self).spec_backoff()) as u64
                    }),
                )
                &&& final(self).spec_backoff() == (if old(self).spec_backoff() * 2
                    > MAX_BACKOFF_SECS {
                    MAX_BACKOFF_SECS
                } else {
                    (old(self).spec_backoff() * 2) as u64
                })
            }),
            old(self).spec_bootstrap() is None ==> *final(self) == *old(self),
    {
        if self.bootstrap.is_none() {
            return ;
        }
        let due = match now.checked_add(self.backoff) {
            Some(t) => t,
            None => u64::MAX,
        };
        self.next_dial_at = Some(due);
        self.backoff = if self.backoff > MAX_BACKOFF_SECS / 2 {
            MAX_BACKOFF_SECS
        } else {
            self.backoff * 2
        };
    }

    /// Asks whether a dial is due at time `now`: when it is, the pending
    /// dial is consumed and the bootstrap multiaddress to dial is
    /// returned.
    pub fn dial_due(&mut self, now: u64) -> (r: Option<String>)
        requires
            old(self).wf(),
        ensures
            final(self).wf(),
            final(self).spec_bootstrap() == old(self).spec_bootstrap(),
            final(self).spec_backoff() == old(self).spec_backoff(),
            match r {
                Some(addr) => {
                    &&& old(self).pending_dial() matches Some(t) && t <= now
                    &&& old(self).spec_bootstrap() == Some(addr)
                    &&& final(self).pending_dial() is None
                },
                None => {
                    &&& *final(self) == *old(self)
                    &&& (match old(self).pending_dial() {
                        Some(t) => t > now,
                        None => true,
                    })
                },
            },
    {
        match &self.next_dial_at {
            Some(t) => {
                if *t <= now {
                    let addr = match &self.bootstrap {
                        Some(a) => a.clone(),
                        None => {
                            proof {
                                assert(false);
                            }
                            String::new()
                        },
                    };
                    self.next_dial_at = None;
                    Some(addr)
                } else {
                    None
                }
            },
            None => None,
        }
    }
}

} // verus!
