//! Caching proxy for one integer hardware control (gamma or brightness).
//!
//! The proxy tracks the control's device-reported range and the last value it
//! applied, clamps every request into the allowed range, and skips device
//! writes that would not change the applied value. A control the device does
//! not expose degrades to an inert proxy whose mutating operations are no-ops.
//!
//! The proxy itself performs no device I/O: each mutating operation returns
//! the value that is now owed to the hardware (`Some(v)` means one write of
//! `v`; `None` means no write), and the caller carries it out.

use vstd::prelude::*;

verus! {

/// Range and metadata of one integer control, as the device reports it:
/// bounds, the value currently applied, the step granularity, and the default.
#[derive(Clone, Copy, PartialEq, Eq, Structural, Debug)]
pub struct ControlInfo {
    pub min: i64,
    pub max: i64,
    pub value: i64,
    pub step: i64,
    pub default: i64,
}

impl ControlInfo {
    /// The device-reported current value and default both lie in the range.
    pub open spec fn wf(self) -> bool {
        &&& self.min <= self.default <= self.max
        &&& self.min <= self.value <= self.max
    }
}

/// Proxy for one hardware control: the range as queried once at startup
/// (`None` when the device does not expose the control) and the last value
/// applied to the device.
#[derive(Clone, Copy, Debug)]
pub struct ControlController {
    pub info: Option<ControlInfo>,
    pub current: i64,
}

impl ControlController {
    /// Whether the device exposes this control at all.
    pub open spec fn is_present(self) -> bool {
        self.info is Some
    }

    pub open spec fn spec_min(self) -> i64 {
        self.info->Some_0.min
    }

    pub open spec fn spec_max(self) -> i64 {
        self.info->Some_0.max
    }

    pub open spec fn spec_default(self) -> i64 {
        self.info->Some_0.default
    }

    /// The last value applied to the device (the cached value).
    pub open spec fn spec_current(self) -> i64 {
        self.current
    }

    /// A present control keeps its cached value inside the device range.
    pub open spec fn wf(self) -> bool {
        self.is_present() ==> {
            &&& self.info->Some_0.wf()
            &&& self.spec_min() <= self.current <= self.spec_max()
        }
    }

    /// `v` bounded into the device range, computed over unbounded integers so
    /// that callers can speak about out-of-range requests exactly.
    pub open spec fn spec_clamp(self, v: int) -> i64 {
        if v < self.spec_min() {
            self.spec_min()
        } else if v > self.spec_max() {
            self.spec_max()
        } else {
            v as i64
        }
    }

    /// The whole effect of `set`: the proxy afterwards, and the single device
    /// write that is owed (`None` when the control is absent or the clamped
    /// value equals the cached one).
    pub open spec fn spec_set(self, v: int) -> (ControlController, Option<i64>) {
        if !self.is_present() {
            (self, None)
        } else {
            let clamped = self.spec_clamp(v);
            if clamped == self.current {
                (self, None)
            } else {
                (ControlController { info: self.info, current: clamped }, Some(clamped))
            }
        }
    }

    /// The whole effect of `reset`: drive the control back to its default.
    pub open spec fn spec_reset(self) -> (ControlController, Option<i64>) {
        if !self.is_present() {
            (self, None)
        } else {
            self.spec_set(self.spec_default() as int)
        }
    }

    /// The whole effect of `set_max`: drive the control to its maximum.
    pub open spec fn spec_set_max(self) -> (ControlController, Option<i64>) {
        if !self.is_present() {
            (self, None)
        } else {
            self.spec_set(self.spec_max() as int)
        }
    }

    /// Builds the proxy from the range queried at startup. An absent control
    /// yields an inert proxy; a present one starts at the device's current
    /// value.
    pub fn new(info: Option<ControlInfo>) -> (r: ControlController)
        requires
            info matches Some(i) ==> i.wf(),
        ensures
            r.wf(),
            r.info == info,
            info matches Some(i) ==> r.spec_current() == i.value,
            info is None ==> r.spec_current() == 0,
    {
        match info {
            Some(i) => ControlController { info, current: i.value },
            None => ControlController { info: None, current: 0 },
        }
    }

    /// Last known applied value (cached, never re-queried).
    pub fn current(&self) -> (r: i64)
        ensures
            r == self.spec_current(),
    {
        self.current
    }

    /// Bounds `value` into the device range of a present control.
    pub fn clamp(&self, value: i64) -> (r: i64)
        requires
            self.is_present(),
            self.wf(),
        ensures
            r == self.spec_clamp(value as int),
    {
        let info = self.info.unwrap();
        if value < info.min {
            info.min
        } else if value > info.max {
            info.max
        } else {
            value
        }
    }

    /// Clamps `value` and caches it; returns the device write that is owed.
    /// A request that leaves the clamped value unchanged issues no write.
    pub fn set(&mut self, value: i64) -> (write: Option<i64>)
        requires
            old(self).wf(),
        ensures
            final(self).wf(),
            (*final(self), write) == old(self).spec_set(value as int),
    {
        if self.info.is_none() {
            return None;
        }
        let clamped = self.clamp(value);
        if clamped == self.current {
            return None;
        }
        self.current = clamped;
        Some(clamped)
    }

    /// Sets the control back to its device default.
    pub fn reset(&mut self) -> (write: Option<i64>)
        requires
            old(self).wf(),
        ensures
            final(self).wf(),
            (*final(self), write) == old(self).spec_reset(),
            old(self).is_present() ==> final(self).spec_current() == old(self).spec_default(),
    {
        let info = self.info;
        match info {
            None => None,
            Some(i) => self.set(i.default),
        }
    }

    /// Sets the control to its device maximum.
    pub fn set_max(&mut self) -> (write: Option<i64>)
        requires
            old(self).wf(),
        ensures
            final(self).wf(),
            (*final(self), write) == old(self).spec_set_max(),
            old(self).is_present() ==> final(self).spec_current() == old(self).spec_max(),
    {
        let info = self.info;
        match info {
            None => None,
            Some(i) => self.set(i.max),
        }
    }
}

/// Law: after `set(v)` the cached value is `clamp(v, min, max)`, and a second
/// `set` with that same clamped value changes nothing and owes no device
/// write (write deduplication).
pub proof fn lemma_second_set_is_deduplicated(c: ControlController, v: int)
    requires
        c.wf(),
        c.is_present(),
    ensures
        ({
            let (c1, w1) = c.spec_set(v);
            let (c2, w2) = c1.spec_set(c1.spec_current() as int);
            &&& c1.spec_current() == c.spec_clamp(v)
            &&& c2 == c1
            &&& w2 is None
        }),
{
}

/// Law: resetting a control twice in a row lands on the same state both
/// times, so toggling the exposure mode there and back leaves the hardware
/// exactly where one toggle left it: at the device defaults.
pub proof fn lemma_reset_idempotent(c: ControlController)
    requires
        c.wf(),
    ensures
        ({
            let (c1, w1) = c.spec_reset();
            let (c2, w2) = c1.spec_reset();
            &&& c2 == c1
            &&& w2 is None
            &&& (c.is_present() ==> c1.spec_current() == c.spec_default())
        }),
{
}

} // verus!
