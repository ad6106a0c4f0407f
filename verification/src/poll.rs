//! The event demultiplexer.
//!
//! A [`Selector`] owns one kernel polling descriptor. Callers mutate
//! registrations through [`Selector::register`], [`Selector::reregister`] and
//! [`Selector::deregister`]; each mutation is staged in a bounded change
//! buffer and submitted to the kernel on [`Selector::select`], or earlier
//! when the buffer would overflow. A wait fills an [`Events`] container with
//! at most one event per registration, each carrying the caller's token.
//!
//! The selector keeps its own table of live registrations, one per
//! descriptor. Events reported by the kernel are translated against that
//! table: a record for a descriptor with no live registration is stale and
//! is dropped, and a second record for the same descriptor within one batch
//! is coalesced away.

use vstd::prelude::*;

use crate::error::{MioError, MioResult, ERRNO_EBADF, ERRNO_EINTR};
use crate::event::{Interest, IoEvent, PollOpt};
use crate::os;

verus! {

/// Kernel mask bit: a read will not block.
pub const EP_IN: u32 = 0x1;
/// Kernel mask bit: priority (out-of-band) data is available.
pub const EP_PRI: u32 = 0x2;
/// Kernel mask bit: a write will not block.
pub const EP_OUT: u32 = 0x4;
/// Kernel mask bit: the descriptor carries a pending error.
pub const EP_ERR: u32 = 0x8;
/// Kernel mask bit: hangup.
pub const EP_HUP: u32 = 0x10;
/// Kernel mask bit: the peer closed its writing half.
pub const EP_RDHUP: u32 = 0x2000;
/// Kernel mask bit: disable the registration after one delivery.
pub const EP_ONESHOT: u32 = 0x40000000;
/// Kernel mask bit: edge-triggered delivery.
pub const EP_ET: u32 = 0x80000000;

/// The default capacity of the change buffer.
pub const DEFAULT_CHANGE_CAPACITY: usize = 1024;

/// The default capacity of an [`Events`] container.
pub const DEFAULT_EVENTS_CAPACITY: usize = 1024;

/// The kind of a staged kernel mutation.
#[derive(Clone, Copy, Debug, PartialEq, Eq, Structural)]
pub enum ChangeOp {
    /// Install a new registration.
    Add,
    /// Replace the mask of an existing registration.
    Mod,
    /// Remove a registration.
    Del,
}

/// One staged kernel mutation: descriptor, operation, and the event mask to
/// install (zero for a removal).
#[derive(Clone, Copy, Debug, PartialEq, Eq, Structural)]
pub struct Change {
    /// The operation to submit.
    pub op: ChangeOp,
    /// The descriptor the operation addresses.
    pub fd: i32,
    /// The kernel event mask to install.
    pub mask: u32,
}

/// One live logical registration, as the caller described it.
#[derive(Clone, Copy, Debug, PartialEq, Eq, Structural)]
pub struct Registration {
    /// The registered descriptor.
    pub fd: i32,
    /// The caller's opaque identifier, returned verbatim with each event.
    pub token: usize,
    /// The readiness categories the caller asked for.
    pub interests: Interest,
    /// The delivery policy.
    pub opts: PollOpt,
}

/// The kernel event mask that installs `interests` under policy `opts`:
/// readable and writable map to their kernel bits, hangup of the peer's
/// writing half is always watched, out-of-band maps to the priority bit, and
/// the edge and one-shot policy flags map to theirs.
pub open spec fn spec_event_mask(interests: Interest, opts: PollOpt) -> u32 {
    (if interests.readable {
        EP_IN
    } else {
        0
    }) | (if interests.writable {
        EP_OUT
    } else {
        0
    }) | EP_RDHUP | (if interests.oob {
        EP_PRI
    } else {
        0
    }) | (if opts.edge {
        EP_ET
    } else {
        0
    }) | (if opts.oneshot {
        EP_ONESHOT
    } else {
        0
    })
}

/// The readiness categories named by a kernel event mask: readable on data
/// or peer close, writable on buffer space, hangup on either hangup bit,
/// error and out-of-band on theirs. Unknown bits are ignored.
pub open spec fn spec_decode_mask(m: u32) -> Interest {
    Interest {
        readable: m & (EP_IN | EP_RDHUP) != 0,
        writable: m & EP_OUT != 0,
        hup: m & (EP_HUP | EP_RDHUP) != 0,
        error: m & EP_ERR != 0,
        oob: m & EP_PRI != 0,
    }
}

/// The staged change that a registration mutation appends.
pub open spec fn spec_change(op: ChangeOp, fd: i32, interests: Interest, opts: PollOpt) -> Change {
    Change { op, fd, mask: spec_event_mask(interests, opts) }
}

/// Computes the kernel event mask for a registration.
pub fn event_mask(interests: Interest, opts: PollOpt) -> (r: u32)
    ensures
        r == spec_event_mask(interests, opts),
{
    (if interests.readable {
        EP_IN
    } else {
        0
    }) | (if interests.writable {
        EP_OUT
    } else {
        0
    }) | EP_RDHUP | (if interests.oob {
        EP_PRI
    } else {
        0
    }) | (if opts.edge {
        EP_ET
    } else {
        0
    }) | (if opts.oneshot {
        EP_ONESHOT
    } else {
        0
    })
}

/// Translates a kernel event mask into the portable readiness vocabulary.
pub fn decode_mask(m: u32) -> (r: Interest)
    ensures
        r == spec_decode_mask(m),
{
    Interest {
        readable: m & (EP_IN | EP_RDHUP) != 0,
        writable: m & EP_OUT != 0,
        hup: m & (EP_HUP | EP_RDHUP) != 0,
        error: m & EP_ERR != 0,
        oob: m & EP_PRI != 0,
    }
}

/// A delivered batch `evts` is sound for the registration table `regs` when
/// the events pair off with source descriptors `fds` and table positions
/// `src` such that: the descriptors are pairwise distinct (at most one
/// event per registration, so `(fd, token)` pairs are unique in the batch);
/// every event carries the token of the live registration at its table
/// position, which registers its descriptor; and no event has an empty
/// interest set.
pub open spec fn sound_batch(
    regs: Seq<Registration>,
    evts: Seq<IoEvent>,
    fds: Seq<i32>,
    src: Seq<int>,
) -> bool {
    &&& fds.len() == evts.len()
    &&& src.len() == evts.len()
    &&& forall|i: int, j: int| 0 <= i < j < fds.len() ==> fds[i] != fds[j]
    &&& forall|i: int|
        #![trigger src[i]]
        0 <= i < src.len() ==> 0 <= src[i] < regs.len() && regs[src[i]].fd == fds[i]
            && regs[src[i]].token == evts[i].token
    &&& forall|i: int| 0 <= i < evts.len() ==> !(#[trigger] evts[i]).kind.spec_is_empty()
}

/// The position of the live registration for `fd` in the table, `-1` when
/// none is live.
pub open spec fn spec_reg_index(regs: Seq<Registration>, fd: i32) -> int
    decreases regs.len(),
{
    if regs.len() == 0 {
        -1
    } else if regs[0].fd == fd {
        0
    } else {
        let r = spec_reg_index(regs.drop_first(), fd);
        if r < 0 {
            -1
        } else {
            r + 1
        }
    }
}

/// The translation of a kernel batch, record by record in kernel order,
/// having already delivered the descriptors in `taken`: the first record
/// per live, not-yet-delivered descriptor whose decoded interest set is
/// nonempty yields exactly the event pairing that set with the
/// registration's token; every other record is dropped.
pub open spec fn spec_translate_rec(
    regs: Seq<Registration>,
    raw: Seq<(u32, u64)>,
    taken: Set<i32>,
) -> Seq<IoEvent>
    decreases raw.len(),
{
    if raw.len() == 0 {
        Seq::empty()
    } else {
        let mask = raw.first().0;
        let fd = raw.first().1 as i32;
        let rest = raw.drop_first();
        let k = spec_reg_index(regs, fd);
        let kind = spec_decode_mask(mask);
        if fd >= 0 && !taken.contains(fd) && k >= 0 && !kind.spec_is_empty() {
            seq![IoEvent { kind, token: regs[k].token }] + spec_translate_rec(
                regs,
                rest,
                taken.insert(fd),
            )
        } else {
            spec_translate_rec(regs, rest, taken)
        }
    }
}

/// The complete translation of a kernel batch against a registration
/// table: the value [`translate_batch`] computes for each value of the raw
/// sequence.
pub open spec fn spec_translate(regs: Seq<Registration>, raw: Seq<(u32, u64)>) -> Seq<IoEvent> {
    spec_translate_rec(regs, raw, Set::empty())
}

/// The table position found for `fd` is in bounds and registers `fd`, or
/// `-1` exactly when no registration for `fd` is live.
proof fn lemma_reg_index(regs: Seq<Registration>, fd: i32)
    ensures
        spec_reg_index(regs, fd) == -1 ==> forall|i: int|
            0 <= i < regs.len() ==> (#[trigger] regs[i]).fd != fd,
        spec_reg_index(regs, fd) != -1 ==> 0 <= spec_reg_index(regs, fd) < regs.len()
            && regs[spec_reg_index(regs, fd)].fd == fd,
    decreases regs.len(),
{
    if regs.len() == 0 {
    } else if regs[0].fd == fd {
    } else {
        lemma_reg_index(regs.drop_first(), fd);
        let r = spec_reg_index(regs.drop_first(), fd);
        if r < 0 {
            assert forall|i: int| 0 <= i < regs.len() implies (#[trigger] regs[i]).fd != fd by {
                if i > 0 {
                    assert(regs.drop_first()[i - 1] == regs[i]);
                }
            }
        } else {
            assert(regs.drop_first()[r] == regs[r + 1]);
        }
    }
}

/// A reusable bounded container for delivered events.
pub struct Events {
    items: Vec<IoEvent>,
    cap: usize,
}

impl View for Events {
    type V = Seq<IoEvent>;

    closed spec fn view(&self) -> Seq<IoEvent> {
        self.items@
    }
}

impl Events {
    /// The fixed capacity chosen at construction.
    pub closed spec fn spec_capacity(self) -> int {
        self.cap as int
    }

    /// The container never holds more events than its capacity.
    pub open spec fn wf(self) -> bool {
        self@.len() <= self.spec_capacity() && 1 <= self.spec_capacity()
    }

    /// Builds an empty container with the default capacity.
    pub fn new() -> (r: Events)
        ensures
            r.wf(),
            r@.len() == 0,
            r.spec_capacity() == DEFAULT_EVENTS_CAPACITY,
    {
        Events { items: Vec::new(), cap: DEFAULT_EVENTS_CAPACITY }
    }

    /// Builds an empty container that a wait fills with at most `cap` events.
    pub fn with_capacity(cap: usize) -> (r: Events)
        requires
            1 <= cap,
        ensures
            r.wf(),
            r@.len() == 0,
            r.spec_capacity() == cap,
    {
        Events { items: Vec::new(), cap }
    }

    /// The number of events delivered by the last wait.
    pub fn len(&self) -> (r: usize)
        ensures
            r == self@.len(),
    {
        self.items.len()
    }

    /// True when the last wait delivered no events.
    pub fn is_empty(&self) -> (r: bool)
        ensures
            r == (self@.len() == 0),
    {
        self.items.len() == 0
    }

    /// The capacity chosen at construction.
    pub fn capacity(&self) -> (r: usize)
        ensures
            r == self.spec_capacity(),
    {
        self.cap
    }

    /// The event at position `idx` of the last batch.
    pub fn get(&self, idx: usize) -> (r: IoEvent)
        requires
            idx < self@.len(),
        ensures
            r == self@[idx as int],
    {
        self.items[idx]
    }
}

/// The event demultiplexer: one kernel polling descriptor, the table of live
/// registrations, and the bounded buffer of staged changes.
pub struct Selector {
    epfd: i32,
    registered: Vec<Registration>,
    changes: Vec<Change>,
    chg_cap: usize,
}

impl Selector {
    /// The table of live registrations, in registration order.
    pub closed spec fn regs(self) -> Seq<Registration> {
        self.registered@
    }

    /// The staged changes not yet submitted to the kernel.
    pub closed spec fn pending(self) -> Seq<Change> {
        self.changes@
    }

    /// The capacity of the change buffer.
    pub closed spec fn change_capacity(self) -> int {
        self.chg_cap as int
    }

    /// The kernel polling descriptor.
    pub closed spec fn spec_handle(self) -> i32 {
        self.epfd
    }

    /// Well-formedness: the change buffer never exceeds its capacity, and
    /// the table holds at most one registration per descriptor, each with a
    /// nonnegative descriptor and a coherent delivery policy.
    pub open spec fn wf(self) -> bool {
        &&& 1 <= self.change_capacity()
        &&& self.pending().len() <= self.change_capacity()
        &&& forall|i: int, j: int|
            0 <= i < j < self.regs().len() ==> (#[trigger] self.regs()[i]).fd != (
            #[trigger] self.regs()[j]).fd
        &&& forall|i: int|
            0 <= i < self.regs().len() ==> (#[trigger] self.regs()[i]).fd >= 0
                && self.regs()[i].opts.spec_trigger_valid()
    }

    /// True when a registration for `fd` is live.
    pub open spec fn spec_is_registered(self, fd: i32) -> bool {
        exists|i: int| 0 <= i < self.regs().len() && (#[trigger] self.regs()[i]).fd == fd
    }

    /// Builds a selector with the default change-buffer capacity.
    ///
    /// Fails when the kernel refuses a polling descriptor.
    pub fn new() -> (r: MioResult<Selector>)
        ensures
            r is Ok ==> r->Ok_0.wf() && r->Ok_0.regs().len() == 0 && r->Ok_0.pending().len() == 0
                && r->Ok_0.change_capacity() == DEFAULT_CHANGE_CAPACITY,
    {
        Selector::with_change_capacity(DEFAULT_CHANGE_CAPACITY)
    }

    /// Builds a selector whose change buffer holds at most `cap` staged
    /// changes before an overflow forces an early flush.
    pub fn with_change_capacity(cap: usize) -> (r: MioResult<Selector>)
        requires
            1 <= cap,
        ensures
            r is Ok ==> r->Ok_0.wf() && r->Ok_0.regs().len() == 0 && r->Ok_0.pending().len() == 0
                && r->Ok_0.change_capacity() == cap,
    {
        match os::sys_epoll_create() {
            Ok(epfd) => Ok(
                Selector { epfd, registered: Vec::new(), changes: Vec::new(), chg_cap: cap },
            ),
            Err(e) => Err(MioError::from_errno(e)),
        }
    }

    /// Submits every staged change to the kernel, in order.
    ///
    /// A change refused with `EBADF` addresses a descriptor the kernel has
    /// already forgotten: the change is dropped and the flush continues.
    /// The registration table is deliberately left alone in that case — at
    /// kernel level the registration is gone either way, stale records are
    /// filtered at translation, and the table entry, if one is still live,
    /// remains the caller's to remove with a deregistration. On any other
    /// refusal the applied prefix is dropped, the refused change and those
    /// after it stay staged for a retry, and the error is surfaced. This
    /// deliberately keeps only the *unapplied* part rather than the whole
    /// buffer: each change reaches this kernel exactly once, and retrying
    /// an already applied install would be refused as already present, so
    /// the unapplied suffix is the only retry-safe remainder.
    pub fn flush(&mut self) -> (r: MioResult<()>)
        requires
            old(self).wf(),
        ensures
            final(self).wf(),
            final(self).spec_handle() == old(self).spec_handle(),
            final(self).change_capacity() == old(self).change_capacity(),
            final(self).regs() == old(self).regs(),
            r is Ok ==> final(self).pending().len() == 0,
            final(self).pending().len() <= old(self).pending().len(),
            r is Err ==> exists|i: int|
                0 <= i < old(self).pending().len() && final(self).pending() == old(self).pending().subrange(i, old(self).pending().len() as int),
    {
        let mut i: usize = 0;
        while i < self.changes.len()
            invariant
                i <= self.changes@.len(),
                self.wf(),
                self.epfd == old(self).epfd,
                self.chg_cap == old(self).chg_cap,
                self.registered@ == old(self).registered@,
                self.changes@ == old(self).changes@,
            decreases self.changes@.len() - i,
        {
            let c = self.changes[i];
            match os::sys_epoll_ctl(self.epfd, c.op, c.fd, c.mask, #[verifier::truncate] (c.fd as u64)) {
                Ok(_) => {
                    i += 1;
                }
                Err(e) => {
                    if e == ERRNO_EBADF {
                        // That registration is gone at kernel level; purge
                        // the change.
                        i += 1;
                    } else {
                        let mut rest: Vec<Change> = Vec::new();
                        let mut j: usize = i;
                        while j < self.changes.len()
                            invariant
                                i <= j <= self.changes@.len(),
                                self.changes@ == old(self).changes@,
                                rest@ == self.changes@.subrange(i as int, j as int),
                            decreases self.changes@.len() - j,
                        {
                            rest.push(self.changes[j]);
                            j += 1;
                        }
                        let ghost pre = *self;
                        self.changes = rest;
                        proof {
                            lemma_regs_wf_transfer(pre, *self);
                            assert(self.changes@ == old(self).changes@.subrange(
                                i as int,
                                old(self).changes@.len() as int,
                            ));
                        }
                        return Err(MioError::from_errno(e));
                    }
                }
            }
        }
        let ghost pre = *self;
        self.changes.clear();
        proof {
            lemma_regs_wf_transfer(pre, *self);
        }
        Ok(())
    }

    /// Stages one change, flushing first when the buffer is full, so that
    /// the buffer never exceeds its capacity.
    fn push_change(&mut self, c: Change) -> (r: MioResult<()>)
        requires
            old(self).wf(),
        ensures
            final(self).wf(),
            final(self).spec_handle() == old(self).spec_handle(),
            final(self).change_capacity() == old(self).change_capacity(),
            final(self).regs() == old(self).regs(),
            r is Ok ==> final(self).pending().len() >= 1 && final(self).pending().last() == c,
            old(self).pending().len() < old(self).change_capacity() ==> r is Ok && final(self).pending() == old(self).pending().push(c),
            old(self).pending().len() >= old(self).change_capacity() && r is Ok ==> final(self).pending().len() == 1,
            r is Err ==> exists|i: int|
                0 <= i < old(self).pending().len() && final(self).pending() == old(self).pending().subrange(i, old(self).pending().len() as int),
    {
        if self.changes.len() >= self.chg_cap {
            match self.flush() {
                Err(e) => {
                    return Err(e);
                }
                Ok(_) => {}
            }
        }
        self.changes.push(c);
        proof {
            lemma_regs_wf_transfer(*old(self), *self);
        }
        Ok(())
    }

    /// Installs a new registration for `fd` under `token`.
    ///
    /// The options must name exactly one of edge and level, else
    /// `InvalidArgument`; a live registration for `fd` must not exist, else
    /// `AlreadyExists`. On success the registration is live and the install
    /// change is staged; no kernel entry is guaranteed before the next wait
    /// unless the change buffer overflows. When the buffer had room, success
    /// is certain.
    pub fn register(&mut self, fd: i32, token: usize, interests: Interest, opts: PollOpt) -> (r:
        MioResult<()>)
        requires
            old(self).wf(),
            fd >= 0,
        ensures
            final(self).wf(),
            final(self).spec_handle() == old(self).spec_handle(),
            final(self).change_capacity() == old(self).change_capacity(),
            !opts.spec_trigger_valid() ==> r == Err::<(), MioError>(MioError::InvalidArgument)
                && final(self).regs() == old(self).regs() && final(self).pending() == old(self).pending(),
            opts.spec_trigger_valid() && old(self).spec_is_registered(fd) ==> r == Err::<
                (),
                MioError,
            >(MioError::AlreadyExists) && final(self).regs() == old(self).regs() && final(self).pending() == old(self).pending(),
            opts.spec_trigger_valid() && !old(self).spec_is_registered(fd) && r is Ok ==> final(self).regs() == old(self).regs().push((Registration { fd, token, interests, opts }))
                && final(self).pending().len() >= 1 && final(self).pending().last() == spec_change(
                ChangeOp::Add,
                fd,
                interests,
                opts,
            ),
            opts.spec_trigger_valid() && !old(self).spec_is_registered(fd) && r is Err ==> final(self).regs() == old(self).regs(),
            opts.spec_trigger_valid() && !old(self).spec_is_registered(fd) && old(self).pending().len() < old(self).change_capacity() ==> r is Ok && final(self).pending()
                == old(self).pending().push(spec_change(ChangeOp::Add, fd, interests, opts)),
    {
        if !opts.trigger_valid() {
            return Err(MioError::InvalidArgument);
        }
        match find_reg_index(&self.registered, fd) {
            Some(_) => {
                return Err(MioError::AlreadyExists);
            }
            None => {}
        }
        let mask = event_mask(interests, opts);
        match self.push_change(Change { op: ChangeOp::Add, fd, mask }) {
            Err(e) => {
                return Err(e);
            }
            Ok(_) => {}
        }
        self.registered.push(Registration { fd, token, interests, opts });
        Ok(())
    }

    /// Replaces the interests, options and token of the live registration
    /// for `fd`, atomically from the caller's perspective.
    ///
    /// The options must name exactly one of edge and level, else
    /// `InvalidArgument`; a live registration for `fd` must exist, else
    /// `NotFound`. On success the table holds the new description and the
    /// modify change is staged. When the buffer had room, success is
    /// certain.
    pub fn reregister(&mut self, fd: i32, token: usize, interests: Interest, opts: PollOpt) -> (r:
        MioResult<()>)
        requires
            old(self).wf(),
            fd >= 0,
        ensures
            final(self).wf(),
            final(self).spec_handle() == old(self).spec_handle(),
            final(self).change_capacity() == old(self).change_capacity(),
            !opts.spec_trigger_valid() ==> r == Err::<(), MioError>(MioError::InvalidArgument)
                && final(self).regs() == old(self).regs() && final(self).pending() == old(self).pending(),
            opts.spec_trigger_valid() && !old(self).spec_is_registered(fd) ==> r == Err::<
                (),
                MioError,
            >(MioError::NotFound) && final(self).regs() == old(self).regs() && final(self).pending()
                == old(self).pending(),
            opts.spec_trigger_valid() && old(self).spec_is_registered(fd) && r is Ok ==> exists|
                k: int,
            |
                0 <= k < old(self).regs().len() && (#[trigger] old(self).regs()[k]).fd == fd
                    && final(self).regs() == old(self).regs().update(
                    k,
                    (Registration { fd, token, interests, opts }),
                ),
            opts.spec_trigger_valid() && old(self).spec_is_registered(fd) && r is Ok ==> final(self).pending().len() >= 1 && final(self).pending().last() == spec_change(
                ChangeOp::Mod,
                fd,
                interests,
                opts,
            ),
            opts.spec_trigger_valid() && old(self).spec_is_registered(fd) && r is Err ==> final(self).regs() == old(self).regs(),
            opts.spec_trigger_valid() && old(self).spec_is_registered(fd) && old(self).pending().len() < old(self).change_capacity() ==> r is Ok && final(self).pending()
                == old(self).pending().push(spec_change(ChangeOp::Mod, fd, interests, opts)),
    {
        if !opts.trigger_valid() {
            return Err(MioError::InvalidArgument);
        }
        let k = match find_reg_index(&self.registered, fd) {
            None => {
                return Err(MioError::NotFound);
            }
            Some(k) => k,
        };
        let mask = event_mask(interests, opts);
        match self.push_change(Change { op: ChangeOp::Mod, fd, mask }) {
            Err(e) => {
                return Err(e);
            }
            Ok(_) => {}
        }
        let ghost pre = *self;
        self.registered[k] = Registration { fd, token, interests, opts };
        proof {
            assert(self.regs() == pre.regs().update(
                k as int,
                (Registration { fd, token, interests, opts }),
            ));
            assert forall|i: int, j: int| 0 <= i < j < self.regs().len() implies (
            #[trigger] self.regs()[i]).fd != (#[trigger] self.regs()[j]).fd by {
                assert(pre.regs()[i].fd != pre.regs()[j].fd);
                assert(pre.regs()[k as int].fd == fd);
            }
        }
        Ok(())
    }

    /// Removes the live registration for `fd`, else `NotFound`.
    ///
    /// On success the registration is no longer live — once the staged
    /// delete change is flushed, no further event for `fd` reaches the
    /// caller, and until then the translation pass drops stale records.
    /// When the buffer had room, success is certain.
    pub fn deregister(&mut self, fd: i32) -> (r: MioResult<()>)
        requires
            old(self).wf(),
        ensures
            final(self).wf(),
            final(self).spec_handle() == old(self).spec_handle(),
            final(self).change_capacity() == old(self).change_capacity(),
            !old(self).spec_is_registered(fd) ==> r == Err::<(), MioError>(MioError::NotFound)
                && final(self).regs() == old(self).regs() && final(self).pending() == old(self).pending(),
            old(self).spec_is_registered(fd) && r is Ok ==> exists|k: int|
                0 <= k < old(self).regs().len() && (#[trigger] old(self).regs()[k]).fd == fd
                    && final(self).regs() == old(self).regs().remove(k),
            old(self).spec_is_registered(fd) && r is Ok ==> !final(self).spec_is_registered(fd)
                && final(self).pending().len() >= 1 && final(self).pending().last() == (Change {
                op: ChangeOp::Del,
                fd,
                mask: 0,
            }),
            old(self).spec_is_registered(fd) && r is Err ==> final(self).regs() == old(self).regs(),
            old(self).spec_is_registered(fd) && old(self).pending().len() < old(self).change_capacity() ==> r is Ok && final(self).pending() == old(self).pending().push(
                (Change { op: ChangeOp::Del, fd, mask: 0 }),
            ),
    {
        let k = match find_reg_index(&self.registered, fd) {
            None => {
                return Err(MioError::NotFound);
            }
            Some(k) => k,
        };
        match self.push_change(Change { op: ChangeOp::Del, fd, mask: 0 }) {
            Err(e) => {
                return Err(e);
            }
            Ok(_) => {}
        }
        let ghost pre = *self;
        self.registered.remove(k);
        proof {
            assert(self.regs() == pre.regs().remove(k as int));
            assert forall|i: int| 0 <= i < self.regs().len() implies (
            #[trigger] self.regs()[i]).fd != fd by {
                if i < k as int {
                    assert(self.regs()[i] == pre.regs()[i]);
                    assert(pre.regs()[i].fd != pre.regs()[k as int].fd);
                } else {
                    assert(self.regs()[i] == pre.regs()[i + 1]);
                    assert(pre.regs()[i + 1].fd != pre.regs()[k as int].fd);
                }
            }
            assert forall|i: int, j: int| 0 <= i < j < self.regs().len() implies (
            #[trigger] self.regs()[i]).fd != (#[trigger] self.regs()[j]).fd by {
                let a = if i < k as int { i } else { i + 1 };
                let b = if j < k as int { j } else { j + 1 };
                assert(self.regs()[i] == pre.regs()[a]);
                assert(self.regs()[j] == pre.regs()[b]);
                assert(pre.regs()[a].fd != pre.regs()[b].fd);
            }
            assert forall|i: int| 0 <= i < self.regs().len() implies (
            #[trigger] self.regs()[i]).fd >= 0 && self.regs()[i].opts.spec_trigger_valid() by {
                let a = if i < k as int { i } else { i + 1 };
                assert(self.regs()[i] == pre.regs()[a]);
            }
        }
        Ok(())
    }

    /// Submits every staged change, waits up to `timeout_ms` milliseconds
    /// for readiness (`usize::MAX`: indefinitely; `0`: poll), and fills
    /// `evts` with the translated batch.
    ///
    /// On success the change buffer is empty, the delivered batch is the
    /// complete translation ([`spec_translate`]) of the kernel's raw batch
    /// against the table of live registrations, and it is sound: at most
    /// one event per registration, every event carrying the token of a
    /// live registration's descriptor, no event with an empty interest
    /// set. An interrupted wait delivers an empty batch and success. On a
    /// refused flush the unapplied changes stay staged for a retry.
    pub fn select(&mut self, evts: &mut Events, timeout_ms: usize) -> (r: MioResult<()>)
        requires
            old(self).wf(),
            old(evts).wf(),
        ensures
            final(self).wf(),
            final(evts).wf(),
            final(self).spec_handle() == old(self).spec_handle(),
            final(self).change_capacity() == old(self).change_capacity(),
            final(self).regs() == old(self).regs(),
            final(evts).spec_capacity() == old(evts).spec_capacity(),
            r is Ok ==> final(self).pending().len() == 0,
            r is Ok ==> exists|raw: Seq<(u32, u64)>|
                final(evts)@ == #[trigger] spec_translate(final(self).regs(), raw),
            r is Ok ==> exists|fds: Seq<i32>, src: Seq<int>|
                #[trigger] sound_batch(final(self).regs(), final(evts)@, fds, src),
            r is Err ==> final(evts)@.len() == 0,
            r is Err ==> exists|i: int|
                0 <= i <= old(self).pending().len() && final(self).pending() == old(self).pending().subrange(i, old(self).pending().len() as int),
    {
        evts.items.clear();
        match self.flush() {
            Err(e) => {
                return Err(e);
            }
            Ok(_) => {}
        }
        let timeout: i32 = if timeout_ms == usize::MAX {
            -1
        } else if timeout_ms > 0x7fff_ffff {
            0x7fff_ffff
        } else {
            timeout_ms as i32
        };
        let ghost n0 = old(self).pending().len() as int;
        let raw = match os::sys_epoll_wait(self.epfd, evts.cap, timeout) {
            Ok(v) => v,
            Err(e) => {
                if e == ERRNO_EINTR {
                    // The wait was interrupted: deliver an empty batch and
                    // let the event loop call again.
                    proof {
                        assert(spec_translate(self.regs(), Seq::<(u32, u64)>::empty())
                            =~= Seq::<IoEvent>::empty());
                        assert(sound_batch(
                            self.regs(),
                            evts@,
                            Seq::<i32>::empty(),
                            Seq::<int>::empty(),
                        ));
                    }
                    return Ok(());
                }
                proof {
                    assert(self.changes@ =~= old(self).changes@.subrange(n0, n0));
                }
                return Err(MioError::from_errno(e));
            }
        };
        translate_batch(&self.registered, &raw, evts);
        Ok(())
    }

    /// Closes the selector, releasing the kernel polling descriptor. The
    /// registered descriptors are not owned by the selector and stay open.
    pub fn close(self) -> (r: MioResult<()>) {
        match os::sys_close(self.epfd) {
            Ok(_) => Ok(()),
            Err(e) => Err(MioError::from_errno(e)),
        }
    }
}

/// Translates one kernel batch against a registration table with unique
/// descriptors, replacing the contents of `evts` with exactly
/// [`spec_translate`] of the raw records: the first record per live,
/// not-yet-delivered descriptor whose decoded interest set is nonempty
/// becomes that registration's event; stale, duplicate and empty records
/// are dropped.
pub fn translate_batch(regs: &Vec<Registration>, raw: &Vec<(u32, u64)>, evts: &mut Events)
    requires
        forall|i: int, j: int|
            0 <= i < j < regs@.len() ==> (#[trigger] regs@[i]).fd != (#[trigger] regs@[j]).fd,
        raw@.len() <= old(evts).spec_capacity(),
        old(evts).wf(),
    ensures
        final(evts).wf(),
        final(evts).spec_capacity() == old(evts).spec_capacity(),
        final(evts)@ == spec_translate(regs@, raw@),
        exists|fds: Seq<i32>, src: Seq<int>|
            #[trigger] sound_batch(regs@, final(evts)@, fds, src),
{
    evts.items.clear();
    let mut seen: Vec<i32> = Vec::new();
    let ghost mut taken: Set<i32> = Set::empty();
    let ghost mut widx: Seq<int> = Seq::empty();
    let mut idx: usize = 0;
    proof {
        assert(raw@.skip(0) =~= raw@);
        assert(evts@ + spec_translate_rec(regs@, raw@, taken) =~= spec_translate_rec(
            regs@,
            raw@,
            taken,
        ));
    }
    while idx < raw.len()
        invariant
            idx <= raw@.len(),
            raw@.len() <= evts.spec_capacity(),
            evts.spec_capacity() == old(evts).spec_capacity(),
            seen@.len() == evts@.len(),
            widx.len() == evts@.len(),
            evts@.len() <= idx,
            forall|i: int, j: int|
                0 <= i < j < regs@.len() ==> (#[trigger] regs@[i]).fd != (#[trigger] regs@[j]).fd,
            forall|a: int, b: int| 0 <= a < b < seen@.len() ==> seen@[a] != seen@[b],
            forall|x: i32|
                taken.contains(x) <==> exists|t: int| 0 <= t < seen@.len() && seen@[t] == x,
            forall|a: int|
                #![trigger widx[a]]
                0 <= a < widx.len() ==> 0 <= widx[a] < regs@.len() && regs@[widx[a]].fd == seen@[a]
                    && regs@[widx[a]].token == evts@[a].token,
            forall|a: int| 0 <= a < evts@.len() ==> !(#[trigger] evts@[a]).kind.spec_is_empty(),
            spec_translate(regs@, raw@) == evts@ + spec_translate_rec(
                regs@,
                raw@.skip(idx as int),
                taken,
            ),
        decreases raw@.len() - idx,
    {
        let (mask, data) = raw[idx];
        let fd = #[verifier::truncate] (data as i32);
        let ghost pre_evts = evts@;
        let ghost pre_seen = seen@;
        let ghost pre_taken = taken;
        proof {
            assert(raw@.skip(idx as int).first() == raw@[idx as int]);
            assert(raw@.skip(idx as int).drop_first() =~= raw@.skip(idx as int + 1));
            lemma_reg_index(regs@, fd);
        }
        let delivered = contains_fd(&seen, fd);
        let step = if fd >= 0 && !delivered {
            match find_reg_index(regs, fd) {
                None => None,
                Some(k) => {
                    let kind = decode_mask(mask);
                    if !kind.is_empty() {
                        Some((k, kind))
                    } else {
                        None
                    }
                },
            }
        } else {
            None
        };
        match step {
            Some((k, kind)) => {
                proof {
                    let sri = spec_reg_index(regs@, fd);
                    if (k as int) < sri {
                        assert(regs@[k as int].fd != regs@[sri].fd);
                    } else if sri < k as int {
                        assert(regs@[sri].fd != regs@[k as int].fd);
                    }
                    assert(k as int == sri);
                }
                let token = regs[k].token;
                evts.items.push(IoEvent { kind, token });
                seen.push(fd);
                proof {
                    widx = widx.push(k as int);
                    taken = taken.insert(fd);
                    assert forall|x: i32| taken.contains(x) implies exists|t: int|
                        0 <= t < seen@.len() && seen@[t] == x by {
                        if x == fd {
                            assert(seen@[seen@.len() - 1] == x);
                        } else {
                            let t0 = choose|t: int| 0 <= t < pre_seen.len() && pre_seen[t] == x;
                            assert(seen@[t0] == x);
                        }
                    }
                    assert forall|x: i32|
                        (exists|t: int| 0 <= t < seen@.len() && seen@[t] == x) implies #[trigger] taken.contains(
                        x,
                    ) by {
                        let t0 = choose|t: int| 0 <= t < seen@.len() && seen@[t] == x;
                        if t0 < seen@.len() - 1 {
                            assert(pre_seen[t0] == x);
                        }
                    }
                    assert(spec_translate_rec(regs@, raw@.skip(idx as int), pre_taken) == seq![
                        IoEvent { kind, token },
                    ] + spec_translate_rec(regs@, raw@.skip(idx as int + 1), taken));
                    assert(evts@ + spec_translate_rec(regs@, raw@.skip(idx as int + 1), taken)
                        =~= pre_evts + spec_translate_rec(regs@, raw@.skip(idx as int), pre_taken));
                }
            },
            None => {
                proof {
                    assert(spec_translate_rec(regs@, raw@.skip(idx as int), taken)
                        == spec_translate_rec(regs@, raw@.skip(idx as int + 1), taken));
                }
            },
        }
        idx += 1;
    }
    proof {
        assert(raw@.skip(raw@.len() as int) =~= Seq::<(u32, u64)>::empty());
        assert(spec_translate_rec(regs@, Seq::<(u32, u64)>::empty(), taken)
            =~= Seq::<IoEvent>::empty());
        assert(evts@ =~= spec_translate(regs@, raw@));
        assert(sound_batch(regs@, evts@, seen@, widx));
    }
}

/// Law: every delivered event's token corresponds to a live registration —
/// one whose most recent operation was not a deregistration. In a sound
/// batch, event `i` carries the token of the registration at table position
/// `src[i]`, which registers the batch's source descriptor `fds[i]`.
pub proof fn lemma_delivered_token_registered(
    regs: Seq<Registration>,
    evts: Seq<IoEvent>,
    fds: Seq<i32>,
    src: Seq<int>,
    i: int,
)
    requires
        sound_batch(regs, evts, fds, src),
        0 <= i < evts.len(),
    ensures
        exists|k: int|
            0 <= k < regs.len() && (#[trigger] regs[k]).token == evts[i].token && regs[k].fd
                == fds[i],
{
    assert(0 <= src[i] < regs.len() && regs[src[i]].token == evts[i].token && regs[src[i]].fd
        == fds[i]);
}

/// Law: within one batch, `(descriptor, token)` pairs are unique — two
/// distinct events of a sound batch never share both their source
/// descriptor and their token, because the descriptors alone already
/// differ.
pub proof fn lemma_batch_pairs_unique(
    regs: Seq<Registration>,
    evts: Seq<IoEvent>,
    fds: Seq<i32>,
    src: Seq<int>,
    i: int,
    j: int,
)
    requires
        sound_batch(regs, evts, fds, src),
        0 <= i < j < evts.len(),
    ensures
        !(fds[i] == fds[j] && evts[i].token == evts[j].token),
{
}

/// Law: a readiness category that a caller asked for and that the kernel
/// reports is present in the delivered interest set — the translation never
/// drops a requested category that fired.
pub proof fn lemma_requested_categories_delivered(interests: Interest, m: u32)
    ensures
        interests.readable && m & EP_IN != 0 ==> spec_decode_mask(m).readable,
        interests.writable && m & EP_OUT != 0 ==> spec_decode_mask(m).writable,
        interests.oob && m & EP_PRI != 0 ==> spec_decode_mask(m).oob,
{
    assert(m & 0x1u32 != 0 ==> m & (0x1u32 | 0x2000u32) != 0) by (bit_vector);
}

/// Law: deregistering a descriptor right after registering it restores the
/// registration table. The position that the removal addresses — any table
/// position holding the descriptor — can only be the one the registration
/// appended.
pub proof fn lemma_register_deregister_roundtrip(regs: Seq<Registration>, r: Registration, k: int)
    requires
        forall|i: int| 0 <= i < regs.len() ==> (#[trigger] regs[i]).fd != r.fd,
        0 <= k < regs.push(r).len(),
        regs.push(r)[k].fd == r.fd,
    ensures
        regs.push(r).remove(k) == regs,
{
    assert(k == regs.len());
    assert(regs.push(r).remove(k) =~= regs);
}

/// Transfers the registration-table conjuncts of well-formedness between
/// two selector states that share the table, once the bounds on the change
/// buffer are known for the second state.
proof fn lemma_regs_wf_transfer(a: Selector, b: Selector)
    requires
        a.wf(),
        b.regs() == a.regs(),
        b.pending().len() <= b.change_capacity(),
        1 <= b.change_capacity(),
    ensures
        b.wf(),
{
    assert(forall|i: int|
        0 <= i < b.regs().len() ==> (#[trigger] b.regs()[i]).fd >= 0
            && b.regs()[i].opts.spec_trigger_valid()) by {
        assert(forall|i: int|
            0 <= i < a.regs().len() ==> (#[trigger] a.regs()[i]).fd >= 0
                && a.regs()[i].opts.spec_trigger_valid());
    }
}

/// True when `fd` occurs in `v`.
fn contains_fd(v: &Vec<i32>, fd: i32) -> (r: bool)
    ensures
        r == exists|i: int| 0 <= i < v@.len() && v@[i] == fd,
{
    let mut i: usize = 0;
    while i < v.len()
        invariant
            i <= v@.len(),
            forall|k: int| 0 <= k < i ==> v@[k] != fd,
        decreases v@.len() - i,
    {
        if v[i] == fd {
            return true;
        }
        i += 1;
    }
    false
}

/// Finds the position of the live registration for `fd`, if any.
fn find_reg_index(regs: &Vec<Registration>, fd: i32) -> (r: Option<usize>)
    ensures
        r is Some ==> r->Some_0 < regs@.len() && regs@[r->Some_0 as int].fd == fd,
        r is None ==> forall|i: int| 0 <= i < regs@.len() ==> (#[trigger] regs@[i]).fd != fd,
{
    let mut i: usize = 0;
    while i < regs.len()
        invariant
            i <= regs@.len(),
            forall|k: int| 0 <= k < i ==> (#[trigger] regs@[k]).fd != fd,
        decreases regs@.len() - i,
    {
        if regs[i].fd == fd {
            return Some(i);
        }
        i += 1;
    }
    None
}

} // verus!
