//! The certificate trust policy: either every certificate is accepted
//! (explicitly insecure trust-on-first-use in its permissive form), or a
//! fingerprint is pinned per host on first contact and every later
//! certificate for that host must match it.

use crate::text::str_eq;
use vstd::prelude::*;

verus! {

/// How server certificates are judged.
#[derive(Debug, Clone, Copy, PartialEq, Eq, Structural)]
pub enum TrustPolicy {
    /// Accept every certificate unconditionally. Insecure; an explicit
    /// opt-in only.
    AcceptAll,
    /// Pin the first fingerprint seen per host and reject any later
    /// mismatch.
    PinnedByHost,
}

/// A verdict on one certificate.
#[derive(Debug, Clone, Copy, PartialEq, Eq, Structural)]
pub enum TrustDecision {
    Accepted,
    Rejected,
}

/// The fingerprint pinned for `host`, if any: the first entry wins.
pub open spec fn find_pin(pins: Seq<(String, Vec<u8>)>, host: Seq<char>) -> Option<Seq<u8>>
    decreases pins.len(),
{
    if pins.len() == 0 {
        None
    } else if pins[0].0@ == host {
        Some(pins[0].1@)
    } else {
        find_pin(pins.skip(1), host)
    }
}

/// In-memory store of the first-seen fingerprint per host.
#[derive(Debug)]
pub struct TrustStore {
    pub pins: Vec<(String, Vec<u8>)>,
}

impl TrustStore {
    /// Well-formed: at most one pin per host.
    pub open spec fn wf(&self) -> bool {
        forall|i: int, j: int|
            0 <= i < j < self.pins@.len() ==> (#[trigger] self.pins@[i]).0@ != (
            #[trigger] self.pins@[j]).0@
    }

    /// A store with no pins.
    pub fn new() -> (r: TrustStore)
        ensures
            r.wf(),
            r.pins@ =~= Seq::<(String, Vec<u8>)>::empty(),
    {
        TrustStore { pins: Vec::new() }
    }

    /// The fingerprint pinned for `host`, if any.
    pub fn lookup(&self, host: &str) -> (r: Option<&Vec<u8>>)
        ensures
            r is Some <==> find_pin(self.pins@, host@) is Some,
            r is Some ==> r->0@ == find_pin(self.pins@, host@)->0,
    {
        let n = self.pins.len();
        let mut i: usize = 0;
        proof {
            assert(self.pins@.skip(0) =~= self.pins@);
        }
        while i < n
            invariant
                0 <= i <= n,
                n == self.pins@.len(),
                find_pin(self.pins@, host@) == find_pin(self.pins@.skip(i as int), host@),
            decreases n - i,
        {
            proof {
                assert(self.pins@.skip(i as int)[0] == self.pins@[i as int]);
                assert(self.pins@.skip(i as int).skip(1) =~= self.pins@.skip(i + 1));
            }
            if str_eq(self.pins[i].0.as_str(), host) {
                return Some(&self.pins[i].1);
            }
            i += 1;
        }
        proof {
            assert(self.pins@.skip(n as int) =~= Seq::<(String, Vec<u8>)>::empty());
        }
        None
    }

    /// Judges one certificate for `host` under `policy`. Under `AcceptAll`
    /// everything is accepted and nothing is stored. Under `PinnedByHost` a
    /// host seen for the first time has the fingerprint pinned and is
    /// accepted; a host with a pin is accepted exactly when the fingerprint
    /// matches it.
    pub fn evaluate(
        &mut self,
        policy: TrustPolicy,
        host: &str,
        fingerprint: &Vec<u8>,
    ) -> (r: TrustDecision)
        requires
            old(self).wf(),
        ensures
            final(self).wf(),
            policy == TrustPolicy::AcceptAll ==> r == TrustDecision::Accepted && final(self).pins
                == old(self).pins,
            policy == TrustPolicy::PinnedByHost ==> match find_pin(old(self).pins@, host@) {
                None => {
                    &&& r == TrustDecision::Accepted
                    &&& final(self).pins@.len() == old(self).pins@.len() + 1
                    &&& forall|k: int|
                        0 <= k < old(self).pins@.len() ==> final(self).pins@[k] == old(
                            self,
                        ).pins@[k]
                    &&& final(self).pins@.last().0@ == host@
                    &&& final(self).pins@.last().1@ == fingerprint@
                },
                Some(p) => (r == TrustDecision::Accepted <==> p == fingerprint@) && final(self).pins
                    == old(self).pins,
            },
    {
        match policy {
            TrustPolicy::AcceptAll => TrustDecision::Accepted,
            TrustPolicy::PinnedByHost => {
                let found = self.lookup(host);
                match found {
                    None => {
                        proof {
                            lemma_find_pin_none_means_absent(self.pins@, host@);
                        }
                        self.pins.push((String::from_str(host), fingerprint.clone()));
                        proof {
                            assert forall|i: int, j: int|
                                0 <= i < j < self.pins@.len() implies (
                            #[trigger] self.pins@[i]).0@ != (#[trigger] self.pins@[j]).0@ by {
                                if j == self.pins@.len() - 1 {
                                    assert(self.pins@[i] == old(self).pins@[i]);
                                }
                            }
                            assert(self.pins@[self.pins@.len() - 1].0@ == host@);
                            assert(self.pins@[self.pins@.len() - 1].1@ == fingerprint@);
                        }
                        TrustDecision::Accepted
                    },
                    Some(pinned) => {
                        if eq_bytes(pinned, fingerprint) {
                            TrustDecision::Accepted
                        } else {
                            TrustDecision::Rejected
                        }
                    },
                }
            },
        }
    }
}

/// With no pin found, no entry names the host.
proof fn lemma_find_pin_none_means_absent(pins: Seq<(String, Vec<u8>)>, host: Seq<char>)
    requires
        find_pin(pins, host) is None,
    ensures
        forall|k: int| 0 <= k < pins.len() ==> (#[trigger] pins[k]).0@ != host,
    decreases pins.len(),
{
    if pins.len() > 0 {
        lemma_find_pin_none_means_absent(pins.skip(1), host);
        assert forall|k: int| 0 <= k < pins.len() implies (#[trigger] pins[k]).0@ != host by {
            if k > 0 {
                assert(pins.skip(1)[k - 1] == pins[k]);
            }
        }
    }
}

/// Equality of two byte strings.
fn eq_bytes(a: &Vec<u8>, b: &Vec<u8>) -> (r: bool)
    ensures
        r == (a@ == b@),
{
    if a.len() != b.len() {
        return false;
    }
    let n = a.len();
    let mut i: usize = 0;
    while i < n
        invariant
            0 <= i <= n,
            n == a@.len() == b@.len(),
            forall|k: int| 0 <= k < i ==> a@[k] == b@[k],
        decreases n - i,
    {
        if a[i] != b[i] {
            return false;
        }
        i += 1;
    }
    proof {
        assert(a@ =~= b@);
    }
    true
}

} // verus!
