//! The single-slot watch subscription model: at most one filesystem
//! watch is active per process, and starting a new watch supersedes the
//! previous one. Each successfully started watch receives a fresh
//! token; change events are delivered only for the token of the watch
//! that is currently installed, so replacing a watch silences every
//! token handed out before.

use vstd::prelude::*;

verus! {

/// One active watch subscription: the token it was issued and the root
/// directory it covers.
pub struct WatchSub {
    pub token: u64,
    pub root: String,
}

/// The process-wide watch state: the one active subscription, if any,
/// and the next token to issue. Holding the active subscription in an
/// `Option` makes "at most one active watch" hold by construction.
pub struct WatchManager {
    pub active: Option<WatchSub>,
    pub next_token: u64,
}

impl WatchManager {
    /// Well-formed watch state: the active subscription, if any, holds
    /// a token that was issued before the next one.
    pub open spec fn wf(self) -> bool {
        self.active matches Some(s) ==> s.token < self.next_token
    }

    /// The manager after a successful start of a watch on `root`,
    /// paired with the token issued for it: the new subscription stands
    /// alone in the slot, whatever was there before.
    pub open spec fn install_spec(self, root: String) -> (WatchManager, u64) {
        (
            WatchManager {
                active: Some(WatchSub { token: self.next_token, root }),
                next_token: (self.next_token + 1) as u64,
            },
            self.next_token,
        )
    }

    /// True when an event carrying `token` is still delivered: only the
    /// currently installed subscription's token is.
    pub open spec fn delivers(self, token: u64) -> bool {
        self.active matches Some(s) && s.token == token
    }

    /// A fresh manager: no watch is active.
    pub fn new() -> (r: WatchManager)
        ensures
            r.active is None,
            r.next_token == 0,
            r.wf(),
    {
        WatchManager { active: None, next_token: 0 }
    }

    /// Records that a watch on `root` was successfully established:
    /// the previous subscription, if any, is dropped, the new one takes
    /// the slot, and its fresh token is returned. No token issued
    /// earlier is delivered to afterwards.
    pub fn install(&mut self, root: String) -> (token: u64)
        requires
            old(self).wf(),
            old(self).next_token < u64::MAX,
        ensures
            (*final(self), token) == old(self).install_spec(root),
            final(self).wf(),
            final(self).active == Some(WatchSub { token, root }),
            forall|t: u64| final(self).delivers(t) <==> t == token,
    {
        let token = self.next_token;
        self.next_token = self.next_token + 1;
        self.active = Some(WatchSub { token, root });
        token
    }

    /// Records that establishing a new watch failed: the state is left
    /// untouched, so the previously active watch, if any, stays active.
    pub fn keep_on_failure(&mut self)
        ensures
            *final(self) == *old(self),
    {
    }

    /// Returns whether an event carrying `token` should still be
    /// forwarded: true only for the currently installed watch.
    pub fn should_deliver(&self, token: u64) -> (r: bool)
        ensures
            r == self.delivers(token),
    {
        match &self.active {
            Some(s) => s.token == token,
            None => false,
        }
    }
}

/// Starting a watch on `a` and then one on `b` leaves exactly one
/// subscription active, the one on `b`: the token issued for `a` is no
/// longer delivered to, while the token issued for `b` still is.
pub proof fn lemma_watch_superseded(m0: WatchManager, a: String, b: String)
    requires
        m0.wf(),
        m0.next_token + 2 <= u64::MAX,
    ensures
        ({
            let (m1, ta) = m0.install_spec(a);
            let (m2, tb) = m1.install_spec(b);
            &&& m2.wf()
            &&& m2.active == Some(WatchSub { token: tb, root: b })
            &&& !m2.delivers(ta)
            &&& m2.delivers(tb)
            &&& ta != tb
        }),
{
}

} // verus!
