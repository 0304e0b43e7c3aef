//! Address-family filtering, endpoint pinning and probe URLs.
//!
//! The cache hostname resolves to a set of addresses. A process-wide filter
//! restricts every resolution to one address family (or passes both), and
//! the run pins all probes to the first filtered address on port 443. The
//! lookups themselves happen outside the library, which receives the
//! addresses as plain values.

use vstd::prelude::*;

verus! {

use vstd::string::StringExecFns;

/// An IP address as plain values: the four octets of an IPv4 address, or
/// the eight 16-bit segments of an IPv6 address.
#[derive(Clone, Copy, Debug, PartialEq, Eq, Structural)]
pub enum IpAddress {
    V4(u8, u8, u8, u8),
    V6(u16, u16, u16, u16, u16, u16, u16, u16),
}

/// Process-wide restriction on the address families a resolution may
/// return. Chosen once at startup and applied to every lookup of the run.
#[derive(Clone, Copy, Debug, PartialEq, Eq, Structural)]
pub enum AddressFamilyFilter {
    Both,
    OnlyIPv4,
    OnlyIPv6,
}

impl Default for AddressFamilyFilter {
    /// Without an explicit restriction, both families pass.
    fn default() -> (r: Self)
        ensures
            r == AddressFamilyFilter::Both,
    {
        AddressFamilyFilter::Both
    }
}

impl AddressFamilyFilter {
    /// Whether an address's family passes this filter.
    pub open spec fn admits(self, address: IpAddress) -> bool {
        match self {
            AddressFamilyFilter::Both => true,
            AddressFamilyFilter::OnlyIPv4 => address is V4,
            AddressFamilyFilter::OnlyIPv6 => address is V6,
        }
    }

    /// Test one address against the filter.
    pub fn matches(&self, address: &IpAddress) -> (r: bool)
        ensures
            r == self.admits(*address),
    {
        match self {
            AddressFamilyFilter::Both => true,
            AddressFamilyFilter::OnlyIPv4 => matches!(address, IpAddress::V4(..)),
            AddressFamilyFilter::OnlyIPv6 => matches!(address, IpAddress::V6(..)),
        }
    }

    /// Drop every address whose family the filter refuses, keeping the
    /// rest in their original relative order. `Both` returns the input
    /// unchanged; the result may be empty.
    pub fn filter_addresses(&self, addresses: &Vec<IpAddress>) -> (r: Vec<IpAddress>)
        ensures
            r@ == addresses@.filter(|a: IpAddress| self.admits(a)),
            forall|i: int| 0 <= i < r@.len() ==> self.admits(#[trigger] r@[i]),
            *self is Both ==> r@ == addresses@,
    {
        let ghost pred = |a: IpAddress| self.admits(a);
        let mut r: Vec<IpAddress> = Vec::new();
        let mut i: usize = 0;
        while i < addresses.len()
            invariant
                i <= addresses@.len(),
                r@ == addresses@.take(i as int).filter(pred),
                pred == (|a: IpAddress| self.admits(a)),
            decreases addresses@.len() - i,
        {
            let ghost prefix = addresses@.take(i as int);
            let ghost next_prefix = addresses@.take(i as int + 1);
            proof {
                assert(next_prefix.drop_last() =~= prefix);
                reveal(Seq::filter);
            }
            if self.matches(&addresses[i]) {
                r.push(addresses[i]);
            }
            i = i + 1;
        }
        proof {
            assert(addresses@.take(addresses@.len() as int) =~= addresses@);
            if self is Both {
                lemma_filter_all(addresses@, pred);
            }
            assert forall|i: int| 0 <= i < r@.len() implies self.admits(#[trigger] r@[i]) by {
                addresses@.lemma_filter_pred(pred, i);
            }
        }
        r
    }
}

/// Filtering with a predicate every element satisfies returns the sequence
/// unchanged.
pub proof fn lemma_filter_all<A>(s: Seq<A>, pred: spec_fn(A) -> bool)
    requires
        forall|i: int| 0 <= i < s.len() ==> pred(#[trigger] s[i]),
    ensures
        s.filter(pred) == s,
    decreases s.len(),
{
    reveal(Seq::filter);
    if s.len() > 0 {
        lemma_filter_all(s.drop_last(), pred);
        assert(s.filter(pred) =~= s);
    } else {
        assert(s.filter(pred) =~= s);
    }
}

/// The single endpoint every probe of the run connects to: the cache
/// hostname, one address chosen once, and the HTTPS port.
pub struct PinnedEndpoint {
    pub host: String,
    pub address: IpAddress,
    pub port: u16,
}

/// Pin the run's endpoint: the first address that survived filtering, on
/// port 443. An empty address sequence leaves nothing to pin — the fatal
/// "no cache address reachable under the requested family" case — and
/// yields `None`.
pub fn pin_endpoint(host: &str, addresses: &Vec<IpAddress>) -> (r: Option<PinnedEndpoint>)
    ensures
        r is Some <==> addresses@.len() > 0,
        match r {
            Some(endpoint) => {
                &&& endpoint.host@ == host@
                &&& endpoint.address == addresses@[0]
                &&& endpoint.port == 443
            },
            None => true,
        },
{
    if addresses.len() == 0 {
        None
    } else {
        Some(
            PinnedEndpoint {
                host: String::from_str(host),
                address: addresses[0],
                port: 443,
            },
        )
    }
}

/// The URL probed for one artifact: `https://{host}/{artifact}.narinfo`.
pub open spec fn narinfo_url_spec(host: Seq<char>, artifact: Seq<char>) -> Seq<char> {
    "https://"@ + host + "/"@ + artifact + ".narinfo"@
}

/// Build the presence-probe URL for one artifact identifier.
pub fn narinfo_url(host: &str, artifact: &str) -> (r: String)
    ensures
        r@ == narinfo_url_spec(host@, artifact@),
{
    let mut url = String::from_str("https://");
    url.append(host);
    url.append("/");
    url.append(artifact);
    url.append(".narinfo");
    url
}

} // verus!
