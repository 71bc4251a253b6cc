//! The background monitor's decisions: find the first process with
//! high CPU load in an enumeration and decide, under a cooldown,
//! whether to raise a notification.
//!
//! The enumeration itself and the printing of the notification stay
//! outside; this module only decides, from plain values.

use crate::record::RawProcess;
use crate::sort::{lemma_filter_empty, lemma_filter_push};
use crate::text::copy_bytes;
use vstd::prelude::*;

verus! {

/// CPU load, in hundredths of a percent, above which a process counts
/// as hot.
pub const HIGH_CPU_CENTI: u32 = 8000;

/// How long after one notification the monitor stays quiet.
pub const NOTIFICATION_COOLDOWN_MS: u64 = 60000;

/// The hot-process test as a predicate value.
pub open spec fn high_cpu_pred() -> spec_fn(RawProcess) -> bool {
    |r: RawProcess| r.cpu_centi > HIGH_CPU_CENTI
}

/// The hot processes of an enumeration, in enumeration order.
pub open spec fn high_cpu(raw: Seq<RawProcess>) -> Seq<RawProcess> {
    raw.filter(high_cpu_pred())
}

/// What a raised notification reports: the first hot process's name
/// and load.
pub struct CpuAlert {
    pub name: Vec<u8>,
    pub cpu_centi: u32,
}

/// The background monitor's own state: when it last notified and how
/// long it then stays quiet.
pub struct MonitorState {
    pub last_notification_ms: u64,
    pub cooldown_ms: u64,
}

impl MonitorState {
    /// A fresh monitor: the cooldown clock starts now, with the
    /// default cooldown.
    pub fn new(now_ms: u64) -> (m: MonitorState)
        ensures
            m.last_notification_ms == now_ms,
            m.cooldown_ms == NOTIFICATION_COOLDOWN_MS,
    {
        MonitorState { last_notification_ms: now_ms, cooldown_ms: NOTIFICATION_COOLDOWN_MS }
    }

    /// One monitoring pass over an enumeration. Raises an alert for
    /// the first hot process exactly when there is one and the
    /// cooldown has passed; raising one restarts the cooldown, and
    /// anything else leaves the state untouched.
    pub fn monitor_step(&mut self, now_ms: u64, raw: &Vec<RawProcess>) -> (alert: Option<CpuAlert>)
        requires
            now_ms >= old(self).last_notification_ms,
        ensures
            ({
                let fire = now_ms - old(self).last_notification_ms > old(self).cooldown_ms
                    && high_cpu(raw@).len() > 0;
                if fire {
                    &&& alert is Some
                    &&& alert->0.name@ == high_cpu(raw@)[0].name@
                    &&& alert->0.cpu_centi == high_cpu(raw@)[0].cpu_centi
                    &&& final(self).last_notification_ms == now_ms
                    &&& final(self).cooldown_ms == old(self).cooldown_ms
                } else {
                    alert is None && *final(self) == *old(self)
                }
            }),
    {
        if now_ms - self.last_notification_ms <= self.cooldown_ms {
            return None;
        }
        let ghost rawv = raw@;
        let ghost pred = high_cpu_pred();
        let n = raw.len();
        let mut i: usize = 0;
        proof {
            assert(rawv.take(0) =~= Seq::<RawProcess>::empty());
            lemma_filter_empty(pred);
        }
        while i < n
            invariant
                rawv == raw@,
                n == rawv.len(),
                i <= n,
                pred == high_cpu_pred(),
                rawv.take(i as int).filter(pred) == Seq::<RawProcess>::empty(),
                *self == *old(self),
                now_ms - old(self).last_notification_ms > old(self).cooldown_ms,
            decreases n - i,
        {
            proof {
                assert(rawv.take(i as int + 1) =~= rawv.take(i as int).push(rawv[i as int]));
                lemma_filter_push(rawv.take(i as int), rawv[i as int], pred);
            }
            if raw[i].cpu_centi > HIGH_CPU_CENTI {
                proof {
                    assert(rawv =~= rawv.take(i as int + 1) + rawv.skip(i as int + 1));
                    Seq::<RawProcess>::filter_distributes_over_add(
                        rawv.take(i as int + 1),
                        rawv.skip(i as int + 1),
                        pred,
                    );
                    assert(rawv.take(i as int + 1).filter(pred) =~= seq![rawv[i as int]]);
                    assert(high_cpu(rawv) == seq![rawv[i as int]] + rawv.skip(i as int + 1).filter(
                        pred,
                    ));
                    assert(high_cpu(rawv).len() > 0);
                    assert(high_cpu(rawv)[0] == rawv[i as int]);
                }
                let name = copy_bytes(&raw[i].name);
                let cpu = raw[i].cpu_centi;
                self.last_notification_ms = now_ms;
                return Some(CpuAlert { name, cpu_centi: cpu });
            }
            i += 1;
        }
        proof {
            assert(rawv.take(n as int) =~= rawv);
            assert(high_cpu(rawv) == rawv.take(n as int).filter(pred));
            assert(high_cpu(rawv).len() == 0);
        }
        None
    }
}

} // verus!
