//! What the serving layer hands out from the list of stored proxies.

use crate::model::proxy::{Proxy, ProxyBasic};
use rand::Rng;
use vstd::prelude::*;

verus! {

/// `rand::Rng::random_range` on the thread-local generator `rand::rng()`,
/// with the range `0..n`. The generator is seeded by the operating system, so
/// the contract claims only what holds of every draw: the number lies in the
/// range. An empty range makes the call panic, so `n` must not be 0.
#[verifier::external_body]
fn random_index(n: usize) -> (r: usize)
    requires
        n > 0,
    ensures
        r < n,
{
    rand::rng().random_range(0..n)
}

/// The candidate part of the record at `index`.
pub fn proxy_at(proxies: &Vec<Proxy>, index: usize) -> (r: ProxyBasic)
    requires
        index < proxies@.len(),
    ensures
        r == proxies@[index as int].spec_basic(),
{
    proxies[index].basic()
}

/// Picks one of the stored proxies at random.
pub fn pick_proxy(proxies: &Vec<Proxy>) -> (r: ProxyBasic)
    requires
        proxies@.len() > 0,
    ensures
        exists|i: int| 0 <= i < proxies@.len() && r == (#[trigger] proxies@[i]).spec_basic(),
{
    let index: usize = random_index(proxies.len());
    proxy_at(proxies, index)
}

/// The candidate parts of all stored proxies, in the order of the list.
pub fn list_basics(proxies: &Vec<Proxy>) -> (r: Vec<ProxyBasic>)
    ensures
        r@.len() == proxies@.len(),
        forall|i: int| 0 <= i < proxies@.len() ==> r@[i] == (#[trigger] proxies@[i]).spec_basic(),
{
    let mut out: Vec<ProxyBasic> = Vec::new();
    let mut i: usize = 0;
    while i < proxies.len()
        invariant
            i <= proxies@.len(),
            out@.len() == i,
            forall|j: int| 0 <= j < i ==> out@[j] == (#[trigger] proxies@[j]).spec_basic(),
        decreases proxies@.len() - i,
    {
        out.push(proxies[i].basic());
        i = i + 1;
    }
    out
}

} // verus!
