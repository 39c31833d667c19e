//! In-TUI notification messages and their bounded log.
use crate::animation::{elapsed_ms, now};
use std::collections::VecDeque;
use std::time::Instant;
use vstd::prelude::*;

verus! {

/// Maximum number of notifications to keep in the log at once.
pub const MAX_NOTIFICATIONS: usize = 5;

/// How long (seconds) before a notification expires from the display.
pub const NOTIF_TTL_SECS: u64 = 8;

/// Severity level for an in-TUI notification.
#[derive(Clone, Copy, Debug, PartialEq, Eq, Structural)]
pub enum NotifLevel {
    Info,
    Warn,
    Error,
}

/// A single in-TUI notification message.
pub struct Notification {
    pub message: String,
    pub level: NotifLevel,
    pub created_at: Instant,
}

/// The log after posting one more entry: when it already holds
/// `MAX_NOTIFICATIONS` or more, the oldest entry is dropped first.
pub open spec fn posted<T>(log: Seq<T>, item: T) -> Seq<T> {
    if log.len() >= MAX_NOTIFICATIONS {
        log.subrange(1, log.len() as int).push(item)
    } else {
        log.push(item)
    }
}

/// Post a notification stamped with the current time.
///
/// If the log is at capacity, the oldest entry is dropped to make room.
pub fn notify(log: &mut VecDeque<Notification>, level: NotifLevel, message: String)
    ensures
        exists|n: Notification| #[trigger] posted(old(log)@, n) == final(log)@ && n.level == level
            && n.message@ == message@,
{
    if log.len() >= MAX_NOTIFICATIONS {
        log.pop_front();
    }
    let ghost before = log@;
    let n = Notification { message, level, created_at: now() };
    let ghost nn = n;
    log.push_back(n);
    assert(posted(old(log)@, nn) =~= log@);
}

/// A log that starts within its bound stays within it, and the newest entry
/// is always the last one.
pub proof fn law_posting_keeps_bound<T>(log: Seq<T>, item: T)
    requires
        log.len() <= MAX_NOTIFICATIONS,
    ensures
        posted(log, item).len() <= MAX_NOTIFICATIONS,
        posted(log, item).last() == item,
        log.len() < MAX_NOTIFICATIONS ==> posted(log, item).drop_last() == log,
{
    if log.len() < MAX_NOTIFICATIONS {
        assert(log.push(item).drop_last() =~= log);
    }
}

/// The entries of `log` whose age (the matching entry of `ages`) is under
/// `ttl_ms`, in their order.
pub open spec fn fresh_entries<T>(log: Seq<T>, ages: Seq<u64>, ttl_ms: u64) -> Seq<T>
    decreases log.len(),
{
    if log.len() == 0 {
        seq![]
    } else {
        let rest = fresh_entries(log.drop_last(), ages.take(log.len() - 1), ttl_ms);
        if ages[log.len() - 1] < ttl_ms {
            rest.push(log.last())
        } else {
            rest
        }
    }
}

proof fn lemma_fresh_entries_step<T>(log: Seq<T>, ages: Seq<u64>, ttl_ms: u64, i: int)
    requires
        0 <= i < log.len(),
        ages.len() == log.len(),
    ensures
        fresh_entries(log.take(i + 1), ages.take(i + 1), ttl_ms) == if ages[i] < ttl_ms {
            fresh_entries(log.take(i), ages.take(i), ttl_ms).push(log[i])
        } else {
            fresh_entries(log.take(i), ages.take(i), ttl_ms)
        },
{
    assert(log.take(i + 1).drop_last() =~= log.take(i));
    assert(ages.take(i + 1).take(i) =~= ages.take(i));
}

/// Drop every entry whose age (the matching entry of `ages`, in
/// milliseconds) has reached `ttl_ms`, keeping the rest in order.
pub fn expire_by_age(log: &mut VecDeque<Notification>, ages: &Vec<u64>, ttl_ms: u64)
    requires
        ages@.len() == old(log)@.len(),
    ensures
        final(log)@ == fresh_entries(old(log)@, ages@, ttl_ms),
{
    let ghost start = log@;
    let n = log.len();
    let mut kept: VecDeque<Notification> = VecDeque::new();
    let mut i: usize = 0;
    assert(start.take(0) =~= Seq::<Notification>::empty());
    assert(ages@.take(0) =~= Seq::<u64>::empty());
    while i < n
        invariant
            n == start.len(),
            ages@.len() == n,
            i <= n,
            log@ == start.skip(i as int),
            kept@ == fresh_entries(start.take(i as int), ages@.take(i as int), ttl_ms),
        decreases n - i,
    {
        proof {
            lemma_fresh_entries_step(start, ages@, ttl_ms, i as int);
        }
        let front = log.pop_front();
        match front {
            Some(entry) => {
                if ages[i] < ttl_ms {
                    kept.push_back(entry);
                }
            },
            None => {},
        }
        assert(log@ =~= start.skip(i + 1));
        i = i + 1;
    }
    assert(start.take(n as int) =~= start);
    assert(ages@.take(n as int) =~= ages@);
    *log = kept;
}

/// Expire notifications that are `ttl_ms` milliseconds old or older.
///
/// Each entry's age is read from the clock, so which entries go depends on
/// the time of the call; the log keeps, in order, exactly the entries whose
/// age was under `ttl_ms`.
pub fn expire_notifications(log: &mut VecDeque<Notification>, ttl_ms: u64)
    ensures
        exists|ages: Seq<u64>| ages.len() == old(log)@.len() && #[trigger] fresh_entries(old(log)@, ages, ttl_ms) == final(log)@,
{
    let mut ages: Vec<u64> = Vec::new();
    let mut i: usize = 0;
    while i < log.len()
        invariant
            i <= log@.len(),
            ages@.len() == i,
        decreases log@.len() - i,
    {
        ages.push(elapsed_ms(&log[i].created_at));
        i = i + 1;
    }
    let ghost a = ages@;
    expire_by_age(log, &ages, ttl_ms);
    assert(fresh_entries(old(log)@, a, ttl_ms) == log@);
}

} // verus!
