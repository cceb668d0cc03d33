//! The shared rotating egress-proxy pool: uniform random selection and
//! failure-driven eviction with a floor of one surviving entry, so the pool
//! never becomes empty once it was non-empty.
use vstd::prelude::*;

use crate::names::{bytes_eq, has_name};

verus! {

/// Relies on rand::random_range over `0..len`: it returns a value of the
/// given range, and panics only when the range is empty.
#[verifier::external_body]
fn random_below(len: usize) -> (r: usize)
    requires
        len > 0,
    ensures
        r < len,
{
    rand::random_range(0..len)
}

/// An ordered collection of SOCKS5 proxy endpoints (each an address byte
/// string), shared by all sessions.
pub struct ProxyPool {
    pub entries: Vec<Vec<u8>>,
}

impl ProxyPool {
    /// A pool seeded with the configured endpoints.
    pub fn new(entries: Vec<Vec<u8>>) -> (pool: ProxyPool)
        ensures
            pool.entries == entries,
    {
        ProxyPool { entries }
    }

    /// Whether any endpoint is left to route through.
    pub fn is_empty(&self) -> (r: bool)
        ensures
            r == (self.entries@.len() == 0),
    {
        self.entries.len() == 0
    }

    /// One endpoint of the pool, picked uniformly at random; `None` exactly
    /// when the pool is empty.
    pub fn pick(&self) -> (r: Option<Vec<u8>>)
        ensures
            (r is Some) == (self.entries@.len() > 0),
            r matches Some(p) ==> has_name(self.entries@, p@),
    {
        if self.entries.len() == 0 {
            None
        } else {
            let i = random_below(self.entries.len());
            let p = self.entries[i].clone();
            proof {
                assert(p@ =~= self.entries@[i as int]@);
            }
            Some(p)
        }
    }

    /// Drop the first occurrence of a failing endpoint, but only while at
    /// least two entries remain: eviction never empties a non-empty pool.
    pub fn evict(&mut self, addr: &Vec<u8>) -> (evicted: bool)
        ensures
            old(self).entries@.len() >= 1 ==> final(self).entries@.len() >= 1,
            evicted == (old(self).entries@.len() >= 2 && has_name(old(self).entries@, addr@)),
            !evicted ==> final(self).entries@ == old(self).entries@,
            evicted ==> exists|k: int|
                {
                    &&& 0 <= k < old(self).entries@.len()
                    &&& old(self).entries@[k]@ == addr@
                    &&& (forall|j: int| 0 <= j < k ==> old(self).entries@[j]@ != addr@)
                    &&& final(self).entries@ == old(self).entries@.remove(k)
                },
    {
        if self.entries.len() < 2 {
            return false;
        }
        let mut i: usize = 0;
        while i < self.entries.len()
            invariant
                i <= self.entries@.len(),
                old(self).entries@.len() >= 2,
                self.entries@ == old(self).entries@,
                forall|j: int| 0 <= j < i ==> self.entries@[j]@ != addr@,
            decreases self.entries@.len() - i,
        {
            if bytes_eq(&self.entries[i], addr) {
                self.entries.remove(i);
                proof {
                    assert(self.entries@ == old(self).entries@.remove(i as int));
                }
                return true;
            }
            i += 1;
        }
        false
    }
}

/// How the next connection attempt reaches the server: through a randomly
/// picked proxy while the pool holds one, directly otherwise.
pub enum TransportChoice {
    Direct,
    Proxied(Vec<u8>),
}

/// Pick the transport for one connection attempt.
pub fn choose_transport(pool: &ProxyPool) -> (c: TransportChoice)
    ensures
        (c is Direct) == (pool.entries@.len() == 0),
        c matches TransportChoice::Proxied(addr) ==> has_name(pool.entries@, addr@),
{
    match pool.pick() {
        Some(addr) => TransportChoice::Proxied(addr),
        None => TransportChoice::Direct,
    }
}

} // verus!
