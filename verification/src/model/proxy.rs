use chrono::NaiveDateTime;
use vstd::prelude::*;
use vstd::string::StringExecFns;

verus! {

/// The ratio 1.0. Success rates, stability, scores and weights are counted
/// in millionths.
pub const ONE: u64 = 1_000_000;

/// `chrono::NaiveDateTime`, a date and time without a time zone. Nothing is
/// claimed of what a value holds: the library only carries it from where the
/// clock was read to the record that is stored.
#[verifier::external_type_specification]
#[verifier::external_body]
pub struct ExNaiveDateTime(chrono::NaiveDateTime);

/// A candidate proxy: an address and a port, both kept as text.
///
/// The pair `(ip, port)` is the identity of a candidate.
#[derive(Debug)]
pub struct ProxyBasic {
    pub ip: String,
    pub port: String,
}

impl ProxyBasic {
    /// The identity of the candidate as a pair of character sequences.
    pub open spec fn key(&self) -> (Seq<char>, Seq<char>) {
        (self.ip@, self.port@)
    }

    pub fn new(ip: &str, port: &str) -> (r: Self)
        ensures
            r.ip@ == ip@,
            r.port@ == port@,
    {
        ProxyBasic { ip: String::from_str(ip), port: String::from_str(port) }
    }

    /// True when both the address and the port are empty.
    pub fn is_none_empty(&self) -> (r: bool)
        ensures
            r == (self.ip@.len() == 0 && self.port@.len() == 0),
    {
        self.ip.as_str().is_empty() && self.port.as_str().is_empty()
    }

    /// True when `self` and `other` name the same candidate.
    pub fn same_key(&self, other: &ProxyBasic) -> (r: bool)
        ensures
            r == (self.key() == other.key()),
    {
        self.ip == other.ip && self.port == other.port
    }
}

impl Clone for ProxyBasic {
    fn clone(&self) -> (r: Self)
        ensures
            r == *self,
    {
        ProxyBasic { ip: self.ip.clone(), port: self.port.clone() }
    }
}

/// The quality figures of one verification pass.
///
/// `speed` is the mean latency in hundredths of a second; the three ratios
/// are in millionths.
#[derive(Debug)]
pub struct ProxyCheckResult {
    pub speed: Option<u64>,
    pub success_rate: Option<u64>,
    pub stability: Option<u64>,
    pub score: Option<u64>,
    pub last_checked: Option<NaiveDateTime>,
}

impl ProxyCheckResult {
    /// Either nothing has been computed yet, or every field has.
    pub open spec fn is_total(&self) -> bool {
        &&& self.speed is Some
        &&& self.success_rate is Some
        &&& self.stability is Some
        &&& self.score is Some
        &&& self.last_checked is Some
    }

    /// The three ratios, where present, lie between 0 and 1.
    pub open spec fn in_bounds(&self) -> bool {
        &&& self.success_rate matches Some(r) ==> r <= ONE
        &&& self.stability matches Some(s) ==> s <= ONE
        &&& self.score matches Some(s) ==> s <= ONE
    }
}

impl Default for ProxyCheckResult {
    fn default() -> (r: Self)
        ensures
            r == (ProxyCheckResult {
                speed: None,
                success_rate: None,
                stability: None,
                score: None,
                last_checked: None,
            }),
    {
        ProxyCheckResult {
            speed: None,
            success_rate: None,
            stability: None,
            score: None,
            last_checked: None,
        }
    }
}

impl Clone for ProxyCheckResult {
    fn clone(&self) -> (r: Self)
        ensures
            r == *self,
    {
        ProxyCheckResult {
            speed: self.speed,
            success_rate: self.success_rate,
            stability: self.stability,
            score: self.score,
            last_checked: self.last_checked,
        }
    }
}

/// A stored proxy: a candidate together with its latest quality figures.
#[derive(Debug)]
pub struct Proxy {
    pub ip: String,
    pub port: String,
    pub speed: Option<u64>,
    pub success_rate: Option<u64>,
    pub stability: Option<u64>,
    pub score: Option<u64>,
    pub last_checked: Option<NaiveDateTime>,
}

impl Proxy {
    /// The identity of the record as a pair of character sequences.
    pub open spec fn key(&self) -> (Seq<char>, Seq<char>) {
        (self.ip@, self.port@)
    }

    /// The candidate part of the record.
    pub open spec fn spec_basic(&self) -> ProxyBasic {
        ProxyBasic { ip: self.ip, port: self.port }
    }

    /// The quality part of the record.
    pub open spec fn spec_result(&self) -> ProxyCheckResult {
        ProxyCheckResult {
            speed: self.speed,
            success_rate: self.success_rate,
            stability: self.stability,
            score: self.score,
            last_checked: self.last_checked,
        }
    }

    /// A record for a candidate that has not been probed yet.
    pub fn new(ip: String, port: String) -> (r: Self)
        ensures
            r.ip == ip,
            r.port == port,
            r.spec_result() == (ProxyCheckResult {
                speed: None,
                success_rate: None,
                stability: None,
                score: None,
                last_checked: None,
            }),
    {
        Proxy {
            ip,
            port,
            speed: None,
            success_rate: None,
            stability: None,
            score: None,
            last_checked: None,
        }
    }

    pub fn basic(&self) -> (r: ProxyBasic)
        ensures
            r == self.spec_basic(),
    {
        ProxyBasic { ip: self.ip.clone(), port: self.port.clone() }
    }

    pub fn result(&self) -> (r: ProxyCheckResult)
        ensures
            r == self.spec_result(),
    {
        ProxyCheckResult {
            speed: self.speed,
            success_rate: self.success_rate,
            stability: self.stability,
            score: self.score,
            last_checked: self.last_checked,
        }
    }

    pub fn from_parts(basic: ProxyBasic, result: ProxyCheckResult) -> (r: Self)
        ensures
            r.spec_basic() == basic,
            r.spec_result() == result,
    {
        Proxy {
            ip: basic.ip,
            port: basic.port,
            speed: result.speed,
            success_rate: result.success_rate,
            stability: result.stability,
            score: result.score,
            last_checked: result.last_checked,
        }
    }
}

impl Clone for Proxy {
    fn clone(&self) -> (r: Self)
        ensures
            r == *self,
    {
        Proxy {
            ip: self.ip.clone(),
            port: self.port.clone(),
            speed: self.speed,
            success_rate: self.success_rate,
            stability: self.stability,
            score: self.score,
            last_checked: self.last_checked,
        }
    }
}

} // verus!
