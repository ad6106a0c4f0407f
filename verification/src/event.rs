//! The portable readiness vocabulary.
//!
//! [`Interest`] says *what* readiness a caller cares about, [`PollOpt`] says
//! *how* it wants to be notified, and [`IoEvent`] is the uniform record a
//! wait returns: the interest set that fired plus the caller's token.

use vstd::prelude::*;

verus! {

/// A set of readiness categories.
///
/// Values are combined with [`Interest::union`] and tested with
/// [`Interest::contains`]. In a delivered event, `hup` and `error` may appear
/// with or without `readable`/`writable`.
#[derive(Clone, Copy, Debug, PartialEq, Eq, Structural)]
pub struct Interest {
    /// A read will not block for lack of data (including end-of-file).
    pub readable: bool,
    /// A write will not block for lack of buffer space.
    pub writable: bool,
    /// The remote end has closed; reads may still drain buffered bytes.
    pub hup: bool,
    /// The descriptor carries a pending error.
    pub error: bool,
    /// Urgent or priority data is available.
    pub oob: bool,
}

impl Interest {
    /// True when no category is set.
    pub open spec fn spec_is_empty(self) -> bool {
        !self.readable && !self.writable && !self.hup && !self.error && !self.oob
    }

    /// The union of two interest sets, category by category.
    pub open spec fn spec_union(self, o: Interest) -> Interest {
        Interest {
            readable: self.readable || o.readable,
            writable: self.writable || o.writable,
            hup: self.hup || o.hup,
            error: self.error || o.error,
            oob: self.oob || o.oob,
        }
    }

    /// The intersection of two interest sets, category by category.
    pub open spec fn spec_intersect(self, o: Interest) -> Interest {
        Interest {
            readable: self.readable && o.readable,
            writable: self.writable && o.writable,
            hup: self.hup && o.hup,
            error: self.error && o.error,
            oob: self.oob && o.oob,
        }
    }

    /// True when every category of `o` is also set in `self`.
    pub open spec fn spec_contains(self, o: Interest) -> bool {
        (o.readable ==> self.readable) && (o.writable ==> self.writable) && (o.hup ==> self.hup)
            && (o.error ==> self.error) && (o.oob ==> self.oob)
    }

    /// The empty interest set.
    pub fn none() -> (r: Interest)
        ensures
            r == (Interest { readable: false, writable: false, hup: false, error: false, oob: false }),
    {
        Interest { readable: false, writable: false, hup: false, error: false, oob: false }
    }

    /// The set holding only the readable category.
    pub fn readable() -> (r: Interest)
        ensures
            r == (Interest { readable: true, writable: false, hup: false, error: false, oob: false }),
    {
        Interest { readable: true, writable: false, hup: false, error: false, oob: false }
    }

    /// The set holding only the writable category.
    pub fn writable() -> (r: Interest)
        ensures
            r == (Interest { readable: false, writable: true, hup: false, error: false, oob: false }),
    {
        Interest { readable: false, writable: true, hup: false, error: false, oob: false }
    }

    /// The set holding only the hangup category.
    pub fn hup() -> (r: Interest)
        ensures
            r == (Interest { readable: false, writable: false, hup: true, error: false, oob: false }),
    {
        Interest { readable: false, writable: false, hup: true, error: false, oob: false }
    }

    /// The set holding only the error category.
    pub fn error() -> (r: Interest)
        ensures
            r == (Interest { readable: false, writable: false, hup: false, error: true, oob: false }),
    {
        Interest { readable: false, writable: false, hup: false, error: true, oob: false }
    }

    /// The set holding only the out-of-band category.
    pub fn oob() -> (r: Interest)
        ensures
            r == (Interest { readable: false, writable: false, hup: false, error: false, oob: true }),
    {
        Interest { readable: false, writable: false, hup: false, error: false, oob: true }
    }

    /// The union of two interest sets.
    pub fn union(self, o: Interest) -> (r: Interest)
        ensures
            r == self.spec_union(o),
    {
        Interest {
            readable: self.readable || o.readable,
            writable: self.writable || o.writable,
            hup: self.hup || o.hup,
            error: self.error || o.error,
            oob: self.oob || o.oob,
        }
    }

    /// The intersection of two interest sets.
    pub fn intersect(self, o: Interest) -> (r: Interest)
        ensures
            r == self.spec_intersect(o),
    {
        Interest {
            readable: self.readable && o.readable,
            writable: self.writable && o.writable,
            hup: self.hup && o.hup,
            error: self.error && o.error,
            oob: self.oob && o.oob,
        }
    }

    /// True when every category of `o` is also set in `self`.
    pub fn contains(self, o: Interest) -> (r: bool)
        ensures
            r == self.spec_contains(o),
    {
        (!o.readable || self.readable) && (!o.writable || self.writable) && (!o.hup || self.hup)
            && (!o.error || self.error) && (!o.oob || self.oob)
    }

    /// True when no category is set.
    pub fn is_empty(self) -> (r: bool)
        ensures
            r == self.spec_is_empty(),
    {
        !self.readable && !self.writable && !self.hup && !self.error && !self.oob
    }

    /// True when the readable category is set.
    pub fn is_readable(self) -> (r: bool)
        ensures
            r == self.readable,
    {
        self.readable
    }

    /// True when the writable category is set.
    pub fn is_writable(self) -> (r: bool)
        ensures
            r == self.writable,
    {
        self.writable
    }

    /// True when the hangup category is set.
    pub fn is_hup(self) -> (r: bool)
        ensures
            r == self.hup,
    {
        self.hup
    }

    /// True when the error category is set.
    pub fn is_error(self) -> (r: bool)
        ensures
            r == self.error,
    {
        self.error
    }

    /// True when the out-of-band category is set.
    pub fn is_oob(self) -> (r: bool)
        ensures
            r == self.oob,
    {
        self.oob
    }
}

/// The delivery policy of a registration.
///
/// Exactly one of `edge` and `level` must be chosen; `oneshot` may combine
/// with either.
#[derive(Clone, Copy, Debug, PartialEq, Eq, Structural)]
pub struct PollOpt {
    /// Notify once per readiness transition; the caller must drain fully.
    pub edge: bool,
    /// Re-notify on every wait while readiness persists.
    pub level: bool,
    /// Deliver exactly one event, then auto-disable the registration.
    pub oneshot: bool,
}

impl PollOpt {
    /// A coherent policy names exactly one of edge and level.
    pub open spec fn spec_trigger_valid(self) -> bool {
        self.edge != self.level
    }

    /// The intersection of two policies, flag by flag.
    pub open spec fn spec_intersect(self, o: PollOpt) -> PollOpt {
        PollOpt {
            edge: self.edge && o.edge,
            level: self.level && o.level,
            oneshot: self.oneshot && o.oneshot,
        }
    }

    /// The union of two policies, flag by flag.
    pub open spec fn spec_union(self, o: PollOpt) -> PollOpt {
        PollOpt {
            edge: self.edge || o.edge,
            level: self.level || o.level,
            oneshot: self.oneshot || o.oneshot,
        }
    }

    /// The empty policy.
    pub fn none() -> (r: PollOpt)
        ensures
            r == (PollOpt { edge: false, level: false, oneshot: false }),
    {
        PollOpt { edge: false, level: false, oneshot: false }
    }

    /// The edge-triggered policy.
    pub fn edge() -> (r: PollOpt)
        ensures
            r == (PollOpt { edge: true, level: false, oneshot: false }),
    {
        PollOpt { edge: true, level: false, oneshot: false }
    }

    /// The level-triggered policy.
    pub fn level() -> (r: PollOpt)
        ensures
            r == (PollOpt { edge: false, level: true, oneshot: false }),
    {
        PollOpt { edge: false, level: true, oneshot: false }
    }

    /// The one-shot flag alone; combine it with edge or level.
    pub fn oneshot() -> (r: PollOpt)
        ensures
            r == (PollOpt { edge: false, level: false, oneshot: true }),
    {
        PollOpt { edge: false, level: false, oneshot: true }
    }

    /// The union of two policies.
    pub fn union(self, o: PollOpt) -> (r: PollOpt)
        ensures
            r == self.spec_union(o),
    {
        PollOpt {
            edge: self.edge || o.edge,
            level: self.level || o.level,
            oneshot: self.oneshot || o.oneshot,
        }
    }

    /// The intersection of two policies.
    pub fn intersect(self, o: PollOpt) -> (r: PollOpt)
        ensures
            r == self.spec_intersect(o),
    {
        PollOpt {
            edge: self.edge && o.edge,
            level: self.level && o.level,
            oneshot: self.oneshot && o.oneshot,
        }
    }

    /// True when every flag of `o` is also set in `self`.
    pub fn contains(self, o: PollOpt) -> (r: bool)
        ensures
            r == ((o.edge ==> self.edge) && (o.level ==> self.level) && (o.oneshot
                ==> self.oneshot)),
    {
        (!o.edge || self.edge) && (!o.level || self.level) && (!o.oneshot || self.oneshot)
    }

    /// True when the policy names exactly one of edge and level.
    pub fn trigger_valid(self) -> (r: bool)
        ensures
            r == self.spec_trigger_valid(),
    {
        self.edge != self.level
    }
}

/// One readiness delivery: the interest set that fired and the caller's token.
#[derive(Clone, Copy, Debug, PartialEq, Eq, Structural)]
pub struct IoEvent {
    /// The categories that fired; never empty in a delivered event.
    pub kind: Interest,
    /// The caller-chosen identifier of the registration, carried verbatim.
    pub token: usize,
}

impl IoEvent {
    /// Builds an event record.
    pub fn new(kind: Interest, token: usize) -> (r: IoEvent)
        ensures
            r == (IoEvent { kind, token }),
    {
        IoEvent { kind, token }
    }

    /// The interest set that fired.
    pub fn kind(&self) -> (r: Interest)
        ensures
            r == self.kind,
    {
        self.kind
    }

    /// The token of the registration this event belongs to.
    pub fn token(&self) -> (r: usize)
        ensures
            r == self.token,
    {
        self.token
    }
}

} // verus!
