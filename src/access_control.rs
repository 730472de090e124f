use vstd::prelude::*;
use crate::text::{lit, same_text, owned_text, decimal_of, decimal_text, push_text};

verus! {

/// Kinds of security issue that are monitored.
#[derive(Debug, Clone, Copy, PartialEq, Eq, Structural)]
pub enum SecurityEventType {
    UnauthorizedAccessAttempt,
    SuspiciousWithdrawal,
    RapidTransactionSequence,
    LargeUnexpectedTransfer,
    AccountStateChange,
}

/// How serious a security event is: `Low < Medium < High < Critical`.
#[derive(Debug, Clone, Copy, PartialEq, Eq, Structural, PartialOrd, Ord)]
pub enum AlertSeverity {
    Low,
    Medium,
    High,
    Critical,
}

pub open spec fn rank_of(s: AlertSeverity) -> int {
    match s {
        AlertSeverity::Low => 1,
        AlertSeverity::Medium => 2,
        AlertSeverity::High => 3,
        AlertSeverity::Critical => 4,
    }
}

impl AlertSeverity {
    /// 1 for `Low` up to 4 for `Critical`.
    pub fn rank(&self) -> (r: u8)
        ensures
            r as int == rank_of(*self),
    {
        match self {
            AlertSeverity::Low => 1,
            AlertSeverity::Medium => 2,
            AlertSeverity::High => 3,
            AlertSeverity::Critical => 4,
        }
    }
}

/// An append-only record of a security event; `timestamp` is unix seconds.
#[derive(Debug, Clone)]
pub struct SecurityEvent {
    pub event_type: SecurityEventType,
    pub user: String,
    pub vault: String,
    pub timestamp: i64,
    pub details: String,
    pub severity: AlertSeverity,
}

pub struct SecurityEventView {
    pub event_type: SecurityEventType,
    pub user: Seq<char>,
    pub vault: Seq<char>,
    pub timestamp: int,
    pub details: Seq<char>,
    pub severity: AlertSeverity,
}

impl View for SecurityEvent {
    type V = SecurityEventView;

    open spec fn view(&self) -> SecurityEventView {
        SecurityEventView {
            event_type: self.event_type,
            user: self.user@,
            vault: self.vault@,
            timestamp: self.timestamp as int,
            details: self.details@,
            severity: self.severity,
        }
    }
}

impl SecurityEvent {
    pub fn duplicate(&self) -> (r: SecurityEvent)
        ensures
            r@ == self@,
    {
        SecurityEvent {
            event_type: self.event_type,
            user: self.user.clone(),
            vault: self.vault.clone(),
            timestamp: self.timestamp,
            details: self.details.clone(),
            severity: self.severity,
        }
    }
}

/// The users allowed on one vault, in the order they were added.
struct VaultUsers {
    vault: String,
    users: Vec<String>,
}

/// Failed access attempts of one user.
struct AttemptCount {
    user: String,
    count: u32,
}

/// Attempts at which a user counts as blocked.
pub const BLOCK_THRESHOLD: u32 = 5;

/// Per-vault authorised users, the security event log and the failed-attempt
/// counters.
pub struct AccessControlManager {
    authorized_users: Vec<VaultUsers>,
    security_events: Vec<SecurityEvent>,
    failed_attempts: Vec<AttemptCount>,
}

impl AccessControlManager {
    /// The users authorised on `vault`, in insertion order (duplicates kept).
    pub closed spec fn users_of(&self, vault: Seq<char>) -> Seq<Seq<char>> {
        if exists|i: int| 0 <= i < self.authorized_users@.len() && self.authorized_users@[i].vault@ == vault {
            let i = choose|i: int| 0 <= i < self.authorized_users@.len() && self.authorized_users@[i].vault@ == vault;
            self.authorized_users@[i].users@.map_values(|u: String| u@)
        } else {
            Seq::empty()
        }
    }

    /// The failed-attempt count of `user`, 0 when there is none.
    pub closed spec fn attempts_of(&self, user: Seq<char>) -> nat {
        if exists|i: int| 0 <= i < self.failed_attempts@.len() && self.failed_attempts@[i].user@ == user {
            let i = choose|i: int| 0 <= i < self.failed_attempts@.len() && self.failed_attempts@[i].user@ == user;
            self.failed_attempts@[i].count as nat
        } else {
            0
        }
    }

    /// The security events, oldest first.
    pub closed spec fn events(&self) -> Seq<SecurityEventView> {
        self.security_events@.map_values(|e: SecurityEvent| e@)
    }

    /// Vaults and users are each keyed once.
    pub closed spec fn wf(&self) -> bool {
        &&& forall|i: int, j: int|
            0 <= i < self.authorized_users@.len() && 0 <= j < self.authorized_users@.len() && i != j
                ==> self.authorized_users@[i].vault@ != self.authorized_users@[j].vault@
        &&& forall|i: int, j: int|
            0 <= i < self.failed_attempts@.len() && 0 <= j < self.failed_attempts@.len() && i != j
                ==> self.failed_attempts@[i].user@ != self.failed_attempts@[j].user@
    }

    pub fn new() -> (r: AccessControlManager)
        ensures
            r.wf(),
            forall|v: Seq<char>| r.users_of(v) == Seq::<Seq<char>>::empty(),
            forall|u: Seq<char>| r.attempts_of(u) == 0,
            r.events() == Seq::<SecurityEventView>::empty(),
    {
        let r = AccessControlManager {
            authorized_users: Vec::new(),
            security_events: Vec::new(),
            failed_attempts: Vec::new(),
        };
        assert(r.events() =~= Seq::<SecurityEventView>::empty());
        r
    }

    fn vault_position(&self, vault: &str) -> (r: Option<usize>)
        requires
            self.wf(),
        ensures
            match r {
                Some(i) => i < self.authorized_users@.len() && self.authorized_users@[i as int].vault@ == vault@,
                None => forall|i: int| 0 <= i < self.authorized_users@.len() ==> self.authorized_users@[i].vault@ != vault@,
            },
    {
        let mut i: usize = 0;
        while i < self.authorized_users.len()
            invariant
                0 <= i <= self.authorized_users@.len(),
                forall|j: int| 0 <= j < i ==> self.authorized_users@[j].vault@ != vault@,
            decreases self.authorized_users@.len() - i,
        {
            if same_text(self.authorized_users[i].vault.as_str(), vault) {
                return Some(i);
            }
            i = i + 1;
        }
        None
    }

    fn user_position(&self, user: &str) -> (r: Option<usize>)
        requires
            self.wf(),
        ensures
            match r {
                Some(i) => i < self.failed_attempts@.len() && self.failed_attempts@[i as int].user@ == user@,
                None => forall|i: int| 0 <= i < self.failed_attempts@.len() ==> self.failed_attempts@[i].user@ != user@,
            },
    {
        let mut i: usize = 0;
        while i < self.failed_attempts.len()
            invariant
                0 <= i <= self.failed_attempts@.len(),
                forall|j: int| 0 <= j < i ==> self.failed_attempts@[j].user@ != user@,
            decreases self.failed_attempts@.len() - i,
        {
            if same_text(self.failed_attempts[i].user.as_str(), user) {
                return Some(i);
            }
            i = i + 1;
        }
        None
    }

    /// Allows `user` on `vault`, appended after the users already there.
    pub fn authorize_user(&mut self, vault: &str, user: &str)
        requires
            old(self).wf(),
        ensures
            final(self).wf(),
            final(self).users_of(vault@) == old(self).users_of(vault@).push(user@),
            forall|v: Seq<char>| v != vault@ ==> final(self).users_of(v) == old(self).users_of(v),
            forall|u: Seq<char>| final(self).attempts_of(u) == old(self).attempts_of(u),
            final(self).events() == old(self).events(),
    {
        match self.vault_position(vault) {
            Some(i) => {
                let ghost before = self.authorized_users@;
                let mut entry = self.authorized_users.remove(i);
                let ghost old_users = entry.users@;
                entry.users.push(owned_text(user));
                self.authorized_users.insert(i, entry);
                assert(self.authorized_users@ == before.update(i as int, self.authorized_users@[i as int]));
                assert(self.authorized_users@[i as int].users@.map_values(|u: String| u@) =~= old_users.map_values(|u: String| u@).push(user@));
                assert forall|v: Seq<char>| v != vault@ implies #[trigger] self.users_of(v) == old(self).users_of(v) by {
                    assert forall|k: int| 0 <= k < before.len() implies (#[trigger] self.authorized_users@[k]).vault@ == before[k].vault@ by {};
                    if exists|k: int| 0 <= k < before.len() && before[k].vault@ == v {
                        let k = choose|k: int| 0 <= k < before.len() && before[k].vault@ == v;
                        assert(self.authorized_users@[k].vault@ == v);
                    }
                };
                let ghost c = choose|k: int| 0 <= k < self.authorized_users@.len() && self.authorized_users@[k].vault@ == vault@;
                assert(c == i);
                let ghost c0 = choose|k: int| 0 <= k < before.len() && before[k].vault@ == vault@;
                assert(before[i as int].vault@ == vault@);
                assert(c0 == i);
            },
            None => {
                let ghost before = self.authorized_users@;
                let mut users: Vec<String> = Vec::new();
                users.push(owned_text(user));
                self.authorized_users.push(VaultUsers { vault: owned_text(vault), users });
                let n = self.authorized_users.len() - 1;
                assert(self.authorized_users@[n as int].users@.map_values(|u: String| u@) =~= seq![user@]);
                let ghost c = choose|k: int| 0 <= k < self.authorized_users@.len() && self.authorized_users@[k].vault@ == vault@;
                assert(c == n);
                assert(old(self).users_of(vault@) =~= Seq::<Seq<char>>::empty());
                assert forall|v: Seq<char>| v != vault@ implies #[trigger] self.users_of(v) == old(self).users_of(v) by {
                    if exists|k: int| 0 <= k < before.len() && before[k].vault@ == v {
                        let k = choose|k: int| 0 <= k < before.len() && before[k].vault@ == v;
                        assert(self.authorized_users@[k].vault@ == v);
                    }
                    if exists|k: int| 0 <= k < self.authorized_users@.len() && self.authorized_users@[k].vault@ == v {
                        let k = choose|k: int| 0 <= k < self.authorized_users@.len() && self.authorized_users@[k].vault@ == v;
                        assert(k < before.len());
                    }
                };
            },
        }
    }

    /// Whether `user` is among the users authorised on `vault`.
    pub fn is_authorized(&self, vault: &str, user: &str) -> (r: bool)
        requires
            self.wf(),
        ensures
            r == self.users_of(vault@).contains(user@),
    {
        match self.vault_position(vault) {
            None => {
                assert(self.users_of(vault@) =~= Seq::<Seq<char>>::empty());
                false
            },
            Some(i) => {
                let ghost c = choose|k: int| 0 <= k < self.authorized_users@.len() && self.authorized_users@[k].vault@ == vault@;
                assert(c == i);
                let users = &self.authorized_users[i].users;
                let ghost us = users@.map_values(|u: String| u@);
                assert(self.users_of(vault@) == us);
                let mut j: usize = 0;
                while j < users.len()
                    invariant
                        0 <= j <= users@.len(),
                        us == users@.map_values(|u: String| u@),
                        self.users_of(vault@) == us,
                        forall|k: int| 0 <= k < j ==> us[k] != user@,
                    decreases users@.len() - j,
                {
                    if same_text(users[j].as_str(), user) {
                        assert(us[j as int] == user@);
                        assert(us.contains(user@));
                        return true;
                    }
                    j = j + 1;
                }
                false
            },
        }
    }

    fn log_event(&mut self, ev: SecurityEvent)
        ensures
            final(self).events() == old(self).events().push(ev@),
            final(self).authorized_users == old(self).authorized_users,
            final(self).failed_attempts == old(self).failed_attempts,
    {
        let ghost before = self.security_events@;
        self.security_events.push(ev);
        assert(self.events() =~= before.map_values(|e: SecurityEvent| e@).push(ev@));
    }

    /// Logs an unauthorised access attempt with `High` severity and counts it
    /// against the user (the count stops at `u32::MAX`).
    pub fn record_unauthorized_attempt(&mut self, user: &str, vault: &str, details: &str, now: i64)
        requires
            old(self).wf(),
        ensures
            final(self).wf(),
            final(self).events() == old(self).events().push(
                SecurityEventView {
                    event_type: SecurityEventType::UnauthorizedAccessAttempt,
                    user: user@,
                    vault: vault@,
                    timestamp: now as int,
                    details: details@,
                    severity: AlertSeverity::High,
                },
            ),
            final(self).attempts_of(user@) == if old(self).attempts_of(user@) < u32::MAX {
                old(self).attempts_of(user@) + 1
            } else {
                u32::MAX as nat
            },
            forall|u: Seq<char>| u != user@ ==> final(self).attempts_of(u) == old(self).attempts_of(u),
            forall|v: Seq<char>| final(self).users_of(v) == old(self).users_of(v),
    {
        let ev = SecurityEvent {
            event_type: SecurityEventType::UnauthorizedAccessAttempt,
            user: owned_text(user),
            vault: owned_text(vault),
            timestamp: now,
            details: owned_text(details),
            severity: AlertSeverity::High,
        };
        self.log_event(ev);
        let ghost before = self.failed_attempts@;
        match self.user_position(user) {
            Some(i) => {
                let c = self.failed_attempts[i].count;
                let next = if c < u32::MAX { c + 1 } else { c };
                let entry = AttemptCount { user: owned_text(user), count: next };
                self.failed_attempts.set(i, entry);
                assert(self.failed_attempts@[i as int].user@ == user@);
                assert(self.failed_attempts@[i as int].count == next);
                assert forall|a: int, b: int|
                    0 <= a < self.failed_attempts@.len() && 0 <= b < self.failed_attempts@.len() && a != b
                        implies self.failed_attempts@[a].user@ != self.failed_attempts@[b].user@ by {
                    if a != i && b != i {
                        assert(self.failed_attempts@[a] == before[a]);
                        assert(self.failed_attempts@[b] == before[b]);
                    } else if a == i {
                        assert(self.failed_attempts@[b] == before[b]);
                    } else {
                        assert(self.failed_attempts@[a] == before[a]);
                    }
                };
                let ghost c0 = choose|k: int| 0 <= k < before.len() && before[k].user@ == user@;
                assert(before[i as int].user@ == user@);
                assert(c0 == i);
                let ghost c1 = choose|k: int| 0 <= k < self.failed_attempts@.len() && self.failed_attempts@[k].user@ == user@;
                assert(c1 == i);
                assert forall|u: Seq<char>| u != user@ implies #[trigger] self.attempts_of(u) == old(self).attempts_of(u) by {
                    if exists|k: int| 0 <= k < before.len() && before[k].user@ == u {
                        let k = choose|k: int| 0 <= k < before.len() && before[k].user@ == u;
                        assert(self.failed_attempts@[k].user@ == u);
                    }
                };
            },
            None => {
                self.failed_attempts.push(AttemptCount { user: owned_text(user), count: 1 });
                let n = self.failed_attempts.len() - 1;
                assert(self.failed_attempts@[n as int].user@ == user@);
                assert(old(self).attempts_of(user@) == 0);
                assert forall|a: int, b: int|
                    0 <= a < self.failed_attempts@.len() && 0 <= b < self.failed_attempts@.len() && a != b
                        implies self.failed_attempts@[a].user@ != self.failed_attempts@[b].user@ by {
                    if a < n && b < n {
                        assert(self.failed_attempts@[a] == before[a]);
                        assert(self.failed_attempts@[b] == before[b]);
                    } else if a == n {
                        assert(self.failed_attempts@[b] == before[b]);
                    } else {
                        assert(self.failed_attempts@[a] == before[a]);
                    }
                };
                let ghost c1 = choose|k: int| 0 <= k < self.failed_attempts@.len() && self.failed_attempts@[k].user@ == user@;
                assert(c1 == n);
                assert forall|u: Seq<char>| u != user@ implies #[trigger] self.attempts_of(u) == old(self).attempts_of(u) by {
                    if exists|k: int| 0 <= k < before.len() && before[k].user@ == u {
                        let k = choose|k: int| 0 <= k < before.len() && before[k].user@ == u;
                        assert(self.failed_attempts@[k].user@ == u);
                    }
                    if exists|k: int| 0 <= k < self.failed_attempts@.len() && self.failed_attempts@[k].user@ == u {
                        let k = choose|k: int| 0 <= k < self.failed_attempts@.len() && self.failed_attempts@[k].user@ == u;
                        assert(k < before.len());
                    }
                };
            },
        }
        assert(self.authorized_users == old(self).authorized_users);
        assert forall|v: Seq<char>| #[trigger] self.users_of(v) == old(self).users_of(v) by {};
    }

    /// Logs an unusual withdrawal: `Critical` when `amount` exceeds ten times
    /// the usual amount, `Medium` otherwise.
    pub fn record_suspicious_withdrawal(&mut self, user: &str, vault: &str, amount: u64, average_withdrawal: u64, now: i64)
        requires
            old(self).wf(),
        ensures
            final(self).wf(),
            final(self).events() == old(self).events().push(
                SecurityEventView {
                    event_type: SecurityEventType::SuspiciousWithdrawal,
                    user: user@,
                    vault: vault@,
                    timestamp: now as int,
                    details: lit("Withdrawal: ") + decimal_of(amount as nat) + lit(" (usually around ")
                        + decimal_of(average_withdrawal as nat) + lit(")"),
                    severity: if amount > average_withdrawal * 10 {
                        AlertSeverity::Critical
                    } else {
                        AlertSeverity::Medium
                    },
                },
            ),
            forall|u: Seq<char>| final(self).attempts_of(u) == old(self).attempts_of(u),
            forall|v: Seq<char>| final(self).users_of(v) == old(self).users_of(v),
    {
        let mut details = owned_text("Withdrawal: ");
        push_text(&mut details, decimal_text(amount).as_str());
        push_text(&mut details, " (usually around ");
        push_text(&mut details, decimal_text(average_withdrawal).as_str());
        push_text(&mut details, ")");
        let severity = if (amount as u128) > (average_withdrawal as u128) * 10 {
            AlertSeverity::Critical
        } else {
            AlertSeverity::Medium
        };
        let ev = SecurityEvent {
            event_type: SecurityEventType::SuspiciousWithdrawal,
            user: owned_text(user),
            vault: owned_text(vault),
            timestamp: now,
            details,
            severity,
        };
        self.log_event(ev);
    }

    /// Logs a burst of transactions with `High` severity.
    pub fn record_rapid_transactions(&mut self, user: &str, vault: &str, transaction_count: u32, time_window_secs: u64, now: i64)
        requires
            old(self).wf(),
        ensures
            final(self).wf(),
            final(self).events() == old(self).events().push(
                SecurityEventView {
                    event_type: SecurityEventType::RapidTransactionSequence,
                    user: user@,
                    vault: vault@,
                    timestamp: now as int,
                    details: decimal_of(transaction_count as nat) + lit(" transactions in ")
                        + decimal_of(time_window_secs as nat) + lit(" seconds"),
                    severity: AlertSeverity::High,
                },
            ),
            forall|u: Seq<char>| final(self).attempts_of(u) == old(self).attempts_of(u),
            forall|v: Seq<char>| final(self).users_of(v) == old(self).users_of(v),
    {
        let mut details = decimal_text(transaction_count as u64);
        push_text(&mut details, " transactions in ");
        push_text(&mut details, decimal_text(time_window_secs).as_str());
        push_text(&mut details, " seconds");
        let ev = SecurityEvent {
            event_type: SecurityEventType::RapidTransactionSequence,
            user: owned_text(user),
            vault: owned_text(vault),
            timestamp: now,
            details,
            severity: AlertSeverity::High,
        };
        self.log_event(ev);
    }

    /// A copy of the event log, oldest first.
    pub fn get_security_events(&self) -> (r: Vec<SecurityEvent>)
        ensures
            r@.map_values(|e: SecurityEvent| e@) == self.events(),
    {
        let mut out: Vec<SecurityEvent> = Vec::new();
        let mut i: usize = 0;
        while i < self.security_events.len()
            invariant
                0 <= i <= self.security_events@.len(),
                out@.map_values(|e: SecurityEvent| e@) == self.events().subrange(0, i as int),
            decreases self.security_events@.len() - i,
        {
            let ghost prev = out@;
            out.push(self.security_events[i].duplicate());
            assert(out@.map_values(|e: SecurityEvent| e@) =~= prev.map_values(|e: SecurityEvent| e@).push(self.events()[i as int]));
            i = i + 1;
            assert(out@.map_values(|e: SecurityEvent| e@) =~= self.events().subrange(0, i as int));
        }
        assert(self.events().subrange(0, i as int) =~= self.events());
        out
    }

    /// Copies of the events of severity `min_severity` or higher, oldest first.
    pub fn get_alerts_by_severity(&self, min_severity: AlertSeverity) -> (r: Vec<SecurityEvent>)
        ensures
            r@.map_values(|e: SecurityEvent| e@) == self.events().filter(
                |e: SecurityEventView| rank_of(e.severity) >= rank_of(min_severity),
            ),
    {
        let ghost f = |e: SecurityEventView| rank_of(e.severity) >= rank_of(min_severity);
        let mut out: Vec<SecurityEvent> = Vec::new();
        let mut i: usize = 0;
        while i < self.security_events.len()
            invariant
                0 <= i <= self.security_events@.len(),
                f == (|e: SecurityEventView| rank_of(e.severity) >= rank_of(min_severity)),
                out@.map_values(|e: SecurityEvent| e@) == self.events().subrange(0, i as int).filter(f),
            decreases self.security_events@.len() - i,
        {
            let ghost prev = out@;
            assert(self.events().subrange(0, i + 1).drop_last() =~= self.events().subrange(0, i as int));
            reveal(Seq::filter);
            if self.security_events[i].severity.rank() >= min_severity.rank() {
                out.push(self.security_events[i].duplicate());
                assert(out@.map_values(|e: SecurityEvent| e@) =~= prev.map_values(|e: SecurityEvent| e@).push(self.events()[i as int]));
            }
            i = i + 1;
        }
        assert(self.events().subrange(0, i as int) =~= self.events());
        out
    }

    /// Removes the failed-attempt count of `user`.
    pub fn clear_failed_attempts(&mut self, user: &str)
        requires
            old(self).wf(),
        ensures
            final(self).wf(),
            final(self).attempts_of(user@) == 0,
            forall|u: Seq<char>| u != user@ ==> final(self).attempts_of(u) == old(self).attempts_of(u),
            forall|v: Seq<char>| final(self).users_of(v) == old(self).users_of(v),
            final(self).events() == old(self).events(),
    {
        match self.user_position(user) {
            None => {},
            Some(i) => {
                let ghost before = self.failed_attempts@;
                self.failed_attempts.remove(i);
                assert forall|u: Seq<char>| u != user@ implies #[trigger] self.attempts_of(u) == old(self).attempts_of(u) by {
                    if exists|k: int| 0 <= k < before.len() && before[k].user@ == u {
                        let k = choose|k: int| 0 <= k < before.len() && before[k].user@ == u;
                        assert(k != i);
                        if k < i {
                            assert(self.failed_attempts@[k].user@ == u);
                        } else {
                            assert(self.failed_attempts@[k - 1].user@ == u);
                        }
                    }
                    if exists|k: int| 0 <= k < self.failed_attempts@.len() && self.failed_attempts@[k].user@ == u {
                        let k = choose|k: int| 0 <= k < self.failed_attempts@.len() && self.failed_attempts@[k].user@ == u;
                        if k < i {
                            assert(before[k].user@ == u);
                        } else {
                            assert(before[k + 1].user@ == u);
                        }
                    }
                };
                assert(!exists|k: int| 0 <= k < self.failed_attempts@.len() && self.failed_attempts@[k].user@ == user@) by {
                    if exists|k: int| 0 <= k < self.failed_attempts@.len() && self.failed_attempts@[k].user@ == user@ {
                        let k = choose|k: int| 0 <= k < self.failed_attempts@.len() && self.failed_attempts@[k].user@ == user@;
                        if k < i {
                            assert(before[k].user@ == user@);
                        } else {
                            assert(before[k + 1].user@ == user@);
                        }
                    }
                };
            },
        }
        assert(self.authorized_users == old(self).authorized_users);
        assert forall|v: Seq<char>| #[trigger] self.users_of(v) == old(self).users_of(v) by {};
    }

    /// The failed-attempt count of `user`, 0 when there is none.
    pub fn get_failed_attempts(&self, user: &str) -> (r: u32)
        requires
            self.wf(),
        ensures
            r as nat == self.attempts_of(user@),
    {
        match self.user_position(user) {
            None => 0,
            Some(i) => {
                let ghost c = choose|k: int| 0 <= k < self.failed_attempts@.len() && self.failed_attempts@[k].user@ == user@;
                assert(c == i);
                self.failed_attempts[i].count
            },
        }
    }

    /// A user is blocked after five or more failed attempts.
    pub fn is_user_blocked(&self, user: &str) -> (r: bool)
        requires
            self.wf(),
        ensures
            r == (self.attempts_of(user@) >= BLOCK_THRESHOLD),
    {
        self.get_failed_attempts(user) >= BLOCK_THRESHOLD
    }
}

} // verus!
