//! The bridge's bookkeeping: which discord-ipc slot it holds and whether it
//! is running.

use vstd::prelude::*;

verus! {

/// discord-ipc slots tried, 0 through 9.
pub const MAX_SLOTS: u32 = 10;

/// Where a started bridge listens.
#[derive(Debug)]
pub struct BridgeStarted {
    /// The pipe or socket path bound, shown in settings.
    pub path: String,
    /// Which discord-ipc slot it is. Anything above 0 means another RPC
    /// server holds a lower one and is handed activity first.
    pub index: u32,
}

impl BridgeStarted {
    pub open spec fn spec_path(&self) -> Seq<char> {
        self.path@
    }

    /// A copy of the report.
    pub fn copied(&self) -> (r: BridgeStarted)
        ensures
            r.path@ == self.path@,
            r.index == self.index,
    {
        BridgeStarted { path: self.path.clone(), index: self.index }
    }
}

/// The slots in the order they are tried: the lowest free one is taken, so a
/// Discord instance that owns a lower slot is never displaced.
pub struct SlotSearch {
    next: u32,
}

impl SlotSearch {
    /// The slot tried next, counting from 0.
    pub closed spec fn next(&self) -> u32 {
        self.next
    }

    pub fn new() -> (r: Self)
        ensures
            r.next() == 0,
    {
        SlotSearch { next: 0 }
    }

    /// The slot to probe next, or `None` once all ten were busy.
    pub fn candidate(&self) -> (r: Option<u32>)
        ensures
            r == (if self.next() < MAX_SLOTS { Some(self.next()) } else { None::<u32> }),
    {
        if self.next < MAX_SLOTS { Some(self.next) } else { None }
    }

    /// The probed slot is served by someone else: move to the next one.
    pub fn on_busy(&mut self)
        requires
            old(self).next() < MAX_SLOTS,
        ensures
            final(self).next() == old(self).next() + 1,
    {
        self.next = self.next + 1;
    }
}

/// The running bridge, if any: where it listens and the handle that stops it.
pub struct RichPresenceBridge<H> {
    running: Option<(BridgeStarted, H)>,
}

impl<H> RichPresenceBridge<H> {
    /// The slot held, if a bridge is running.
    pub closed spec fn bound(&self) -> Option<(Seq<char>, u32)> {
        match &self.running {
            Some((b, _)) => Some((b.path@, b.index)),
            None => None,
        }
    }

    /// The handle of the running bridge, if any.
    pub closed spec fn handle(&self) -> Option<H> {
        match &self.running {
            Some((_, h)) => Some(*h),
            None => None,
        }
    }

    /// Nothing running.
    pub fn new() -> (r: Self)
        ensures
            r.bound() is None,
            r.handle() is None,
    {
        RichPresenceBridge { running: None }
    }

    /// The slot held, if a bridge is running. A start request that finds
    /// one running reports it instead of binding a second slot.
    pub fn current(&self) -> (r: Option<BridgeStarted>)
        ensures
            match r {
                Some(b) => self.bound() == Some((b.path@, b.index)),
                None => self.bound() is None,
            },
    {
        match &self.running {
            Some((b, _)) => Some(b.copied()),
            None => None,
        }
    }

    /// Stores a bridge that was just started. When two starts raced and one
    /// is already stored, that one is kept: the new handle comes back to be
    /// stopped, together with the slot that is held, so the number of slots
    /// held never grows past one.
    pub fn install(&mut self, started: BridgeStarted, handle: H) -> (r: Result<BridgeStarted, (H, BridgeStarted)>)
        ensures
            match old(self).bound() {
                None => r matches Ok(b) && b.path@ == started.path@ && b.index == started.index
                    && final(self).bound() == Some((started.path@, started.index))
                    && final(self).handle() == Some(handle),
                Some(held) => r matches Err((h, b)) && h == handle && (b.path@, b.index) == held
                    && final(self).bound() == old(self).bound() && final(self).handle() == old(self).handle(),
            },
            old(self).bound() is Some <==> old(self).handle() is Some,
            final(self).bound() is Some <==> final(self).handle() is Some,
    {
        match &self.running {
            Some((b, _)) => Err((handle, b.copied())),
            None => {
                let report = started.copied();
                self.running = Some((started, handle));
                Ok(report)
            },
        }
    }

    /// Takes the running bridge's handle out, so it can be stopped; nothing
    /// is running afterwards.
    pub fn take(&mut self) -> (r: Option<H>)
        ensures
            final(self).bound() is None,
            final(self).handle() is None,
            r == old(self).handle(),
            r is Some <==> old(self).bound() is Some,
    {
        match self.running.take() {
            Some((_, h)) => Some(h),
            None => None,
        }
    }
}

} // verus!
