//! `SyncService` (per account): the decision points of the IMAP engine that
//! the tuning knobs of [`SyncConfig`] govern.

use vstd::prelude::*;

use crate::config::SyncConfig;
use crate::text::{
    ascii_lower, law_ascii_lower_moves_capitals_alone, same_ignoring_ascii_case, views,
};

verus! {

/// Whether `host` is among `hosts`, up to the case of ASCII letters.
pub open spec fn lists_host(hosts: Seq<Seq<char>>, host: Seq<char>) -> bool {
    exists|i: int| 0 <= i < hosts.len() && ascii_lower(#[trigger] hosts[i]) == ascii_lower(host)
}

/// IMAP sync service (one instance per account): its host and its tuning.
#[derive(Debug)]
pub struct SyncService {
    host: String,
    config: SyncConfig,
}

impl SyncService {
    /// The account's host.
    pub closed spec fn spec_host(self) -> Seq<char> {
        self.host@
    }

    /// The tuning.
    pub closed spec fn spec_config(self) -> SyncConfig {
        self.config
    }

    /// Creates the service.
    #[must_use]
    pub fn new(host: String, config: SyncConfig) -> (r: Self)
        ensures
            r.spec_host() == host@,
            r.spec_config() == config,
    {
        Self { host, config }
    }

    /// Whether the engine polls instead of waiting in IDLE: where the server
    /// does not support IDLE, and on hosts where IDLE is known broken.
    #[must_use]
    pub fn should_poll(&self, idle_supported: bool) -> (r: bool)
        ensures
            r == (!idle_supported || lists_host(
                views(self.spec_config().idle_poll_only_hosts@),
                self.spec_host(),
            )),
    {
        if !idle_supported {
            return true;
        }
        let hosts = &self.config.idle_poll_only_hosts;
        let ghost listed = views(hosts@);
        let mut i: usize = 0;
        while i < hosts.len()
            invariant
                i <= hosts@.len(),
                listed == views(hosts@),
                hosts@ == self.config.idle_poll_only_hosts@,
                forall|j: int|
                    0 <= j < i ==> ascii_lower(#[trigger] listed[j]) != ascii_lower(self.host@),
            decreases hosts@.len() - i,
        {
            assert(listed[i as int] == hosts@[i as int]@);
            if same_ignoring_ascii_case(hosts[i].as_str(), self.host.as_str()) {
                return true;
            }
            i += 1;
        }
        false
    }

    /// How long one IDLE lasts before it is issued anew, in seconds.
    #[must_use]
    pub fn idle_timeout(&self) -> (r: u64)
        requires
            self.spec_config().idle_timeout_mins * 60 <= u64::MAX,
        ensures
            r == self.spec_config().idle_timeout_mins * 60,
    {
        self.config.idle_timeout_mins * 60
    }

    /// The pause between two polling passes, in seconds.
    #[must_use]
    pub fn poll_interval(&self) -> (r: u64)
        ensures
            r == self.spec_config().poll_interval_secs,
    {
        self.config.poll_interval_secs
    }

    /// How many recent bodies per folder are prefetched.
    #[must_use]
    pub fn prefetch_limit(&self) -> (r: usize)
        ensures
            r == self.spec_config().body_prefetch_recent,
    {
        self.config.body_prefetch_recent
    }
}

/// The list of poll-only hosts is matched without regard to the case of
/// ASCII letters.
pub proof fn law_poll_only_hosts_ignore_case(
    hosts: Seq<Seq<char>>,
    host: Seq<char>,
    other: Seq<char>,
)
    requires
        ascii_lower(host) == ascii_lower(other),
    ensures
        lists_host(hosts, host) == lists_host(hosts, other),
{
    if lists_host(hosts, host) {
        let i = choose|i: int|
            0 <= i < hosts.len() && ascii_lower(#[trigger] hosts[i]) == ascii_lower(host);
        assert(ascii_lower(hosts[i]) == ascii_lower(other));
    }
}

/// Whether two texts are the same but for the case of ASCII letters: of the
/// same length, and each pair of characters equal or 32 apart as letters.
pub open spec fn same_but_for_case(a: Seq<char>, b: Seq<char>) -> bool {
    &&& a.len() == b.len()
    &&& forall|i: int|
        0 <= i < a.len() ==> {
            let x = #[trigger] a[i] as u32;
            let y = b[i] as u32;
            x == y || (65 <= x <= 90 && y == x + 32) || (65 <= y <= 90 && x == y + 32)
        }
}

/// A host counts as poll-only exactly where the list names it, in whatever
/// case.
pub proof fn law_poll_only_hosts_are_the_listed_ones(hosts: Seq<Seq<char>>, host: Seq<char>)
    ensures
        lists_host(hosts, host) <==> exists|i: int|
            0 <= i < hosts.len() && same_but_for_case(#[trigger] hosts[i], host),
{
    assert forall|i: int| 0 <= i < hosts.len() implies (ascii_lower(#[trigger] hosts[i])
        == ascii_lower(host) <==> same_but_for_case(hosts[i], host)) by {
        let h = hosts[i];
        law_ascii_lower_moves_capitals_alone(h);
        law_ascii_lower_moves_capitals_alone(host);
        if ascii_lower(h) == ascii_lower(host) {
            assert forall|j: int| 0 <= j < h.len() implies {
                let x = #[trigger] h[j] as u32;
                let y = host[j] as u32;
                x == y || (65 <= x <= 90 && y == x + 32) || (65 <= y <= 90 && x == y + 32)
            } by {
                assert(ascii_lower(h)[j] as u32 == ascii_lower(host)[j] as u32);
            }
        }
        if same_but_for_case(h, host) {
            assert forall|j: int| 0 <= j < h.len() implies #[trigger] ascii_lower(h)[j]
                == ascii_lower(host)[j] by {
                assert(h[j] as u32 >= 0);
                assert(ascii_lower(h)[j] as u32 == ascii_lower(host)[j] as u32);
            }
            assert(ascii_lower(h) =~= ascii_lower(host));
        }
    }
    if lists_host(hosts, host) {
        let i = choose|i: int|
            0 <= i < hosts.len() && ascii_lower(#[trigger] hosts[i]) == ascii_lower(host);
        assert(same_but_for_case(hosts[i], host));
    }
}

}
