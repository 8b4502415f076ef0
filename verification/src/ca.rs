//! Root CA manager: owns the root-certificate material, validates or
//! regenerates it at startup, and issues per-hostname leaf certificates on
//! demand. Issued leaves are cached by normalized hostname; a cached leaf
//! is never regenerated except on CA rotation or explicit invalidation, and
//! repeated requests for one hostname cost exactly one signing operation.
//!
//! Certificate material is modeled as plain values (serials, validity
//! windows, a key-usage flag); reading and writing the key files is the
//! caller's business.

use vstd::prelude::*;
use crate::acl::{normalize_host, normalize_hostname};
use crate::error::ProxyError;

verus! {

/// The root certificate: a self-signed CA with a signing-capable key.
#[derive(Clone, Copy, Debug, PartialEq, Eq, Structural)]
pub struct RootCa {
    pub serial: u64,
    pub not_before: u64,
    pub not_after: u64,
    /// Key-usage extension allows certificate signing.
    pub can_sign: bool,
}

impl RootCa {
    /// The root is usable for signing at time `now`.
    pub open spec fn valid_at(self, now: u64) -> bool {
        self.can_sign && self.not_before <= now <= self.not_after
    }
}

/// A per-hostname leaf certificate together with its key, signed by the
/// root. The hostname it names is the cache key it sits under.
#[derive(Clone, Copy, Debug, PartialEq, Eq, Structural)]
pub struct LeafCert {
    pub serial: u64,
    pub not_before: u64,
    pub not_after: u64,
    pub issuer_serial: u64,
}

/// `a + b` capped at the largest representable value.
pub open spec fn sat_add64(a: u64, b: u64) -> u64 {
    if a + b > u64::MAX {
        u64::MAX
    } else {
        (a + b) as u64
    }
}

/// What the caller found on disk when loading the persisted root CA.
pub enum LoadedRootCa {
    /// No persisted material.
    Absent,
    /// Material present but unparseable.
    Corrupt,
    /// Material present and parsed.
    Present(RootCa),
}

/// Decide the root CA to run with. Absent material is generated afresh;
/// present material is validated (expiry window, signing key usage);
/// corrupt or invalid material fails with `CertificateError` unless the
/// regenerate-on-invalid policy is set, in which case a fresh root replaces
/// it. The `bool` in the result tells the caller to persist a new root.
pub fn init_root_ca(
    loaded: LoadedRootCa,
    now: u64,
    regenerate_on_invalid: bool,
    fresh_serial: u64,
    root_validity: u64,
) -> (r: Result<(RootCa, bool), ProxyError>)
    ensures
        ({
            let fresh = RootCa {
                serial: fresh_serial,
                not_before: now,
                not_after: sat_add64(now, root_validity),
                can_sign: true,
            };
            match loaded {
                LoadedRootCa::Absent => r == Ok::<(RootCa, bool), ProxyError>((fresh, true)),
                LoadedRootCa::Corrupt => if regenerate_on_invalid {
                    r == Ok::<(RootCa, bool), ProxyError>((fresh, true))
                } else {
                    r == Err::<(RootCa, bool), ProxyError>(ProxyError::CertificateError)
                },
                LoadedRootCa::Present(ca) => if ca.valid_at(now) {
                    r == Ok::<(RootCa, bool), ProxyError>((ca, false))
                } else if regenerate_on_invalid {
                    r == Ok::<(RootCa, bool), ProxyError>((fresh, true))
                } else {
                    r == Err::<(RootCa, bool), ProxyError>(ProxyError::CertificateError)
                },
            }
        }),
{
    let not_after = if now > u64::MAX - root_validity {
        u64::MAX
    } else {
        now + root_validity
    };
    let fresh = RootCa { serial: fresh_serial, not_before: now, not_after, can_sign: true };
    match loaded {
        LoadedRootCa::Absent => Ok((fresh, true)),
        LoadedRootCa::Corrupt => {
            if regenerate_on_invalid {
                Ok((fresh, true))
            } else {
                Err(ProxyError::CertificateError)
            }
        },
        LoadedRootCa::Present(ca) => {
            if ca.can_sign && ca.not_before <= now && now <= ca.not_after {
                Ok((ca, false))
            } else if regenerate_on_invalid {
                Ok((fresh, true))
            } else {
                Err(ProxyError::CertificateError)
            }
        },
    }
}

/// The three subdirectories the SSL directory must hold, in this order:
/// issued certificates, private key material, and the additional trusted
/// CA certificates. This layout is a persisted-state contract the CA
/// manager honors on every restart; the driver creates the directories
/// and reads and writes the files.
pub fn ssl_subdirectories() -> (r: (&'static str, &'static str, &'static str))
    ensures
        r.0@ =~= "certs"@,
        r.1@ =~= "private"@,
        r.2@ =~= "trusted_certs"@,
{
    ("certs", "private", "trusted_certs")
}

/// An additional trusted CA certificate, used when the proxy validates
/// upstream TLS.
#[derive(Clone, Copy, Debug, PartialEq, Eq, Structural)]
pub struct TrustedCert {
    pub serial: u64,
    pub not_before: u64,
    pub not_after: u64,
}

/// The certificates among `entries` that parsed, in order.
pub open spec fn valid_parses(entries: Seq<Option<TrustedCert>>) -> Seq<TrustedCert>
    decreases entries.len(),
{
    if entries.len() == 0 {
        Seq::empty()
    } else {
        let prefix = valid_parses(entries.drop_last());
        match entries.last() {
            Some(c) => prefix.push(c),
            None => prefix,
        }
    }
}

/// Build the trusted set from per-file parse results: every certificate
/// that parsed is kept in order, every malformed entry (`None`) is skipped
/// and counted, and loading never fails.
pub fn load_trusted_certificates(entries: &Vec<Option<TrustedCert>>) -> (r: (
    Vec<TrustedCert>,
    usize,
))
    ensures
        r.0@ == valid_parses(entries@),
        r.0@.len() + r.1 == entries@.len(),
{
    let mut kept: Vec<TrustedCert> = Vec::new();
    let mut skipped: usize = 0;
    let mut i: usize = 0;
    while i < entries.len()
        invariant
            i <= entries@.len(),
            kept@ == valid_parses(entries@.take(i as int)),
            kept@.len() + skipped == i,
        decreases entries@.len() - i,
    {
        proof {
            assert(entries@.take(i as int + 1).drop_last() =~= entries@.take(i as int));
            assert(entries@.take(i as int + 1).last() == entries@[i as int]);
        }
        match entries[i] {
            Some(c) => {
                kept.push(c);
            },
            None => {
                skipped = skipped + 1;
            },
        }
        i = i + 1;
    }
    proof {
        assert(entries@.take(entries@.len() as int) =~= entries@);
    }
    (kept, skipped)
}

/// Mathematical model of a `CaManager`: the root, the cache as parallel
/// sequences of hostnames and leaves, and the issuance counters.
#[verifier::ext_equal]
pub struct CaModel {
    pub root: RootCa,
    pub hosts: Seq<Seq<u8>>,
    pub certs: Seq<LeafCert>,
    pub signing_ops: u64,
    pub next_serial: u64,
    pub leaf_validity: u64,
}

impl CaModel {
    /// Cache well-formedness: parallel sequences, unique hostnames, every
    /// leaf signed by the current root, serials unique and below the next
    /// one to be drawn, and the signing counter strictly below it too.
    pub open spec fn wf(self) -> bool {
        &&& self.hosts.len() == self.certs.len()
        &&& forall|i: int, j: int|
            0 <= i < j < self.hosts.len() ==> self.hosts[i] != self.hosts[j]
        &&& forall|i: int|
            0 <= i < self.certs.len() ==> (#[trigger] self.certs[i]).issuer_serial
                == self.root.serial
        &&& forall|i: int|
            0 <= i < self.certs.len() ==> (#[trigger] self.certs[i]).serial < self.next_serial
        &&& forall|i: int, j: int|
            0 <= i < j < self.certs.len() ==> self.certs[i].serial != self.certs[j].serial
        &&& self.signing_ops < self.next_serial
        &&& self.root.serial < self.next_serial
    }

    /// A leaf for `h` is cached.
    pub open spec fn has(self, h: Seq<u8>) -> bool {
        exists|i: int| 0 <= i < self.hosts.len() && self.hosts[i] == h
    }

    /// The cache index of `h` (meaningful when `has(h)`).
    pub open spec fn index_of(self, h: Seq<u8>) -> int {
        choose|i: int| 0 <= i < self.hosts.len() && self.hosts[i] == h
    }

    /// The cached leaf for `h` (meaningful when `has(h)`).
    pub open spec fn cert_for(self, h: Seq<u8>) -> LeafCert {
        self.certs[self.index_of(h)]
    }

    /// The leaf a signing operation at time `now` would produce: the next
    /// serial, a bounded validity window, signed by the current root.
    pub open spec fn fresh_cert(self, now: u64) -> LeafCert {
        LeafCert {
            serial: self.next_serial,
            not_before: now,
            not_after: sat_add64(now, self.leaf_validity),
            issuer_serial: self.root.serial,
        }
    }
}

/// One issuance request against the model: a cache hit returns the cached
/// leaf and changes nothing; a miss signs a fresh leaf and caches it, or
/// fails with `CertificateError` when the root cannot sign at `now` or the
/// serial space is exhausted.
pub open spec fn issue_step(v: CaModel, h: Seq<u8>, now: u64) -> (CaModel, Result<
    LeafCert,
    ProxyError,
>) {
    if v.has(h) {
        (v, Ok(v.cert_for(h)))
    } else if !v.root.valid_at(now) || v.next_serial == u64::MAX {
        (v, Err(ProxyError::CertificateError))
    } else {
        let c = v.fresh_cert(now);
        (issue_push(v, h, c), Ok(c))
    }
}

/// The model after `n` issuance requests for `h`, all at time `now`.
pub open spec fn issue_n(v: CaModel, h: Seq<u8>, now: u64, n: nat) -> CaModel
    decreases n,
{
    if n == 0 {
        v
    } else {
        issue_step(issue_n(v, h, now, (n - 1) as nat), h, now).0
    }
}

/// The result handed to the `k`-th of those callers (`k >= 1`).
pub open spec fn issue_result_at(v: CaModel, h: Seq<u8>, now: u64, k: nat) -> Result<
    LeafCert,
    ProxyError,
> {
    issue_step(issue_n(v, h, now, (k - 1) as nat), h, now).1
}

/// After pushing an uncached hostname, the cache maps it to the pushed leaf.
proof fn lemma_cert_for_pushed(v: CaModel, h: Seq<u8>, c: LeafCert)
    requires
        v.hosts.len() == v.certs.len(),
        !v.has(h),
    ensures
        ({
            let v1 = issue_push(v, h, c);
            v1.has(h) && v1.cert_for(h) == c
        }),
{
    let v1 = issue_push(v, h, c);
    assert(v1.hosts[v.hosts.len() as int] == h);
    assert(v1.has(h));
    let i = v1.index_of(h);
    assert(0 <= i < v1.hosts.len() && v1.hosts[i] == h);
    if i < v.hosts.len() {
        assert(v.hosts[i] == h);
        assert(v.has(h));
    }
    assert(i == v.hosts.len());
}

/// The model with `(h, c)` appended to the cache, counters advanced.
pub open spec fn issue_push(v: CaModel, h: Seq<u8>, c: LeafCert) -> CaModel {
    CaModel {
        root: v.root,
        hosts: v.hosts.push(h),
        certs: v.certs.push(c),
        signing_ops: (v.signing_ops + 1) as u64,
        next_serial: (v.next_serial + 1) as u64,
        leaf_validity: v.leaf_validity,
    }
}

/// From the second request on, the model no longer moves: every later
/// request hits the cache built by the first.
proof fn lemma_issue_settles(v: CaModel, h: Seq<u8>, now: u64, n: nat)
    requires
        v.hosts.len() == v.certs.len(),
        !v.has(h),
        v.root.valid_at(now),
        v.next_serial < u64::MAX,
        n >= 1,
    ensures
        issue_n(v, h, now, n) == issue_step(v, h, now).0,
    decreases n,
{
    if n == 1 {
        assert(issue_n(v, h, now, 0) == v);
        assert(issue_n(v, h, now, 1) == issue_step(v, h, now).0);
    } else {
        lemma_issue_settles(v, h, now, (n - 1) as nat);
        let v1 = issue_step(v, h, now).0;
        lemma_cert_for_pushed(v, h, v.fresh_cert(now));
        assert(v1.has(h));
        assert(issue_n(v, h, now, n) == issue_step(v1, h, now).0);
    }
}

/// Law (single-flight issuance): starting with no cache entry for `h` and a
/// root able to sign, any number `n >= 1` of issuance requests for `h`
/// performs exactly one signing operation, and every one of the `n` callers
/// receives exactly the one leaf the first request signed.
pub proof fn lemma_single_flight_issuance(v: CaModel, h: Seq<u8>, now: u64, n: nat)
    requires
        v.wf(),
        !v.has(h),
        v.root.valid_at(now),
        v.next_serial < u64::MAX,
        n >= 1,
    ensures
        issue_n(v, h, now, n).signing_ops == v.signing_ops + 1,
        forall|k: nat|
            1 <= k <= n ==> #[trigger] issue_result_at(v, h, now, k)
                == Ok::<LeafCert, ProxyError>(v.fresh_cert(now)),
{
    let c = v.fresh_cert(now);
    let v1 = issue_step(v, h, now).0;
    lemma_cert_for_pushed(v, h, c);
    lemma_issue_settles(v, h, now, n);
    assert(issue_n(v, h, now, n).signing_ops == v.signing_ops + 1);
    assert forall|k: nat| 1 <= k <= n implies #[trigger] issue_result_at(v, h, now, k)
        == Ok::<LeafCert, ProxyError>(c) by {
        if k == 1 {
            assert(issue_n(v, h, now, 0) == v);
        } else {
            lemma_issue_settles(v, h, now, (k - 1) as nat);
            assert(issue_n(v, h, now, (k - 1) as nat) == v1);
            assert(v1.has(h) && v1.cert_for(h) == c);
        }
    }
}

/// Dropping the cache entry at `i` removes exactly its hostname: the model
/// stays well formed, that hostname is gone, and every other hostname
/// keeps its leaf.
proof fn lemma_invalidate_model(v: CaModel, i: int, h: Seq<u8>)
    requires
        v.wf(),
        0 <= i < v.hosts.len(),
        v.hosts[i] == h,
    ensures
        ({
            let v1 = CaModel {
                root: v.root,
                hosts: v.hosts.remove(i),
                certs: v.certs.remove(i),
                signing_ops: v.signing_ops,
                next_serial: v.next_serial,
                leaf_validity: v.leaf_validity,
            };
            &&& v1.wf()
            &&& !v1.has(h)
            &&& forall|h2: Seq<u8>| h2 != h ==> (#[trigger] v1.has(h2) <==> v.has(h2))
            &&& forall|h2: Seq<u8>|
                h2 != h && v.has(h2) ==> #[trigger] v1.cert_for(h2) == v.cert_for(h2)
        }),
{
    let v1 = CaModel {
        root: v.root,
        hosts: v.hosts.remove(i),
        certs: v.certs.remove(i),
        signing_ops: v.signing_ops,
        next_serial: v.next_serial,
        leaf_validity: v.leaf_validity,
    };
    assert(v1.hosts.len() == v.hosts.len() - 1);
    assert(forall|k: int| 0 <= k < i ==> #[trigger] v1.hosts[k] == v.hosts[k]);
    assert(forall|k: int| i <= k < v1.hosts.len() ==> #[trigger] v1.hosts[k] == v.hosts[k + 1]);
    assert(forall|k: int| 0 <= k < i ==> #[trigger] v1.certs[k] == v.certs[k]);
    assert(forall|k: int| i <= k < v1.certs.len() ==> #[trigger] v1.certs[k] == v.certs[k + 1]);
    assert forall|k: int| 0 <= k < v1.hosts.len() implies #[trigger] v1.hosts[k] != h by {
        if k < i {
            assert(v.hosts[k] != v.hosts[i]);
        } else {
            assert(v.hosts[k + 1] != v.hosts[i]);
        }
    }
    assert(!v1.has(h));
    assert forall|a: int, b: int|
        0 <= a < b < v1.hosts.len() implies v1.hosts[a] != v1.hosts[b] by {
        let a2 = if a < i {
            a
        } else {
            a + 1
        };
        let b2 = if b < i {
            b
        } else {
            b + 1
        };
        assert(v.hosts[a2] != v.hosts[b2]);
    }
    assert forall|a: int, b: int|
        0 <= a < b < v1.certs.len() implies v1.certs[a].serial != v1.certs[b].serial by {
        let a2 = if a < i {
            a
        } else {
            a + 1
        };
        let b2 = if b < i {
            b
        } else {
            b + 1
        };
        assert(v.certs[a2].serial != v.certs[b2].serial);
    }
    assert forall|k: int|
        0 <= k < v1.certs.len() implies (#[trigger] v1.certs[k]).issuer_serial == v1.root.serial
            && v1.certs[k].serial < v1.next_serial by {
        if k < i {
            assert(v.certs[k].issuer_serial == v.root.serial);
        } else {
            assert(v.certs[k + 1].issuer_serial == v.root.serial);
        }
    }
    assert(v1.wf());
    assert forall|h2: Seq<u8>| h2 != h && v.has(h2) implies v1.has(h2) by {
        let j = choose|j: int| 0 <= j < v.hosts.len() && v.hosts[j] == h2;
        if j < i {
            assert(v1.hosts[j] == h2);
        } else {
            assert(j != i);
            assert(v1.hosts[j - 1] == h2);
        }
    }
    assert forall|h2: Seq<u8>| h2 != h && v1.has(h2) implies v.has(h2) by {
        let k = choose|k: int| 0 <= k < v1.hosts.len() && v1.hosts[k] == h2;
        if k < i {
            assert(v.hosts[k] == h2);
        } else {
            assert(v.hosts[k + 1] == h2);
        }
    }
    assert forall|h2: Seq<u8>|
        h2 != h && v.has(h2) implies #[trigger] v1.cert_for(h2) == v.cert_for(h2) by {
        let j = v.index_of(h2);
        assert(0 <= j < v.hosts.len() && v.hosts[j] == h2);
        assert(j != i);
        let jn = if j < i {
            j
        } else {
            j - 1
        };
        assert(v1.hosts[jn] == h2);
        assert(v1.has(h2));
        let k = v1.index_of(h2);
        assert(0 <= k < v1.hosts.len() && v1.hosts[k] == h2);
        if k != jn {
            assert(v1.hosts[k] != v1.hosts[jn]);
        }
        assert(v1.certs[jn] == v.certs[j]);
    }
}

/// The certificate authority: root material plus the leaf cache, keyed by
/// normalized hostname, and the issuance counters.
pub struct CaManager {
    pub root: RootCa,
    pub hosts: Vec<Vec<u8>>,
    pub certs: Vec<LeafCert>,
    pub signing_ops: u64,
    pub next_serial: u64,
    pub leaf_validity: u64,
}

impl CaManager {
    /// The mathematical model of this manager.
    pub open spec fn model(self) -> CaModel {
        CaModel {
            root: self.root,
            hosts: self.hosts@.map_values(|h: Vec<u8>| h@),
            certs: self.certs@,
            signing_ops: self.signing_ops,
            next_serial: self.next_serial,
            leaf_validity: self.leaf_validity,
        }
    }

    /// A manager around an initialized root, with an empty cache. Leaf
    /// serials are drawn starting just above the root's serial.
    pub fn new(root: RootCa, leaf_validity: u64) -> (m: CaManager)
        requires
            root.serial < u64::MAX,
        ensures
            m.model().wf(),
            m.root == root,
            m.leaf_validity == leaf_validity,
            m.signing_ops == 0,
            m.next_serial == root.serial + 1,
            forall|h: Seq<u8>| !m.model().has(h),
    {
        let m = CaManager {
            root,
            hosts: Vec::new(),
            certs: Vec::new(),
            signing_ops: 0,
            next_serial: root.serial + 1,
            leaf_validity,
        };
        m
    }

    /// The cache index holding `nh`, if any.
    fn find(&self, nh: &Vec<u8>) -> (r: Option<usize>)
        requires
            self.hosts@.len() == self.certs@.len(),
        ensures
            match r {
                Some(i) => 0 <= i < self.model().hosts.len() && self.model().hosts[i as int]
                    == nh@,
                None => !self.model().has(nh@),
            },
    {
        let mut i: usize = 0;
        while i < self.hosts.len()
            invariant
                i <= self.hosts@.len(),
                forall|k: int| 0 <= k < i ==> self.model().hosts[k] != nh@,
            decreases self.hosts@.len() - i,
        {
            if crate::acl::bytes_eq(self.hosts[i].as_slice(), nh.as_slice()) {
                return Some(i);
            }
            i = i + 1;
        }
        None
    }

    /// Issue (or fetch) the leaf certificate for `hostname`, at time `now`.
    ///
    /// The hostname is normalized first; a cache hit returns the cached
    /// leaf and leaves the manager untouched, a miss signs a fresh leaf and
    /// caches it. Fails with `CertificateError` exactly when the cache
    /// misses while the root cannot sign at `now` or the serial space is
    /// exhausted.
    pub fn issue_leaf_certificate(&mut self, hostname: &[u8], now: u64) -> (r: Result<
        LeafCert,
        ProxyError,
    >)
        requires
            old(self).model().wf(),
        ensures
            final(self).model().wf(),
            final(self).model() == issue_step(old(self).model(), normalize_host(hostname@), now).0,
            r == issue_step(old(self).model(), normalize_host(hostname@), now).1,
            old(self).model().has(normalize_host(hostname@)) ==> *final(self) == *old(self),
            r is Err <==> (!old(self).model().has(normalize_host(hostname@))
                && (!old(self).root.valid_at(now) || old(self).next_serial == u64::MAX)),
    {
        let nh = normalize_hostname(hostname);
        match self.find(&nh) {
            Some(i) => {
                let c = self.certs[i];
                proof {
                    let v = self.model();
                    let j = v.index_of(nh@);
                    assert(0 <= j < v.hosts.len() && v.hosts[j] == nh@);
                    if i as int != j {
                        assert(v.hosts[i as int] != v.hosts[j]);
                    }
                    assert(v.cert_for(nh@) == c);
                }
                Ok(c)
            },
            None => {
                if !(self.root.can_sign && self.root.not_before <= now
                    && now <= self.root.not_after) {
                    return Err(ProxyError::CertificateError);
                }
                if self.next_serial == u64::MAX {
                    return Err(ProxyError::CertificateError);
                }
                let not_after = if now > u64::MAX - self.leaf_validity {
                    u64::MAX
                } else {
                    now + self.leaf_validity
                };
                let c = LeafCert {
                    serial: self.next_serial,
                    not_before: now,
                    not_after,
                    issuer_serial: self.root.serial,
                };
                let ghost v0 = self.model();
                self.hosts.push(nh);
                self.certs.push(c);
                self.signing_ops = self.signing_ops + 1;
                self.next_serial = self.next_serial + 1;
                proof {
                    let v1 = issue_step(v0, normalize_host(hostname@), now).0;
                    assert(self.model() =~= v1);
                    assert forall|i: int, j: int|
                        0 <= i < j < v1.hosts.len() implies v1.hosts[i] != v1.hosts[j] by {
                        if j == v1.hosts.len() - 1 {
                            assert(v0.hosts[i] != normalize_host(hostname@)) by {
                                if v0.hosts[i] == normalize_host(hostname@) {
                                    assert(v0.has(normalize_host(hostname@)));
                                }
                            }
                        }
                    }
                    assert(self.model().wf());
                }
                Ok(c)
            },
        }
    }

    /// Rotate the CA: a fresh signing root replaces the old one and the
    /// whole leaf cache is dropped, so every hostname is re-issued under
    /// the new root on next use. Fails only on serial exhaustion.
    pub fn rotate_ca(&mut self, now: u64, root_validity: u64) -> (r: Result<RootCa, ProxyError>)
        requires
            old(self).model().wf(),
        ensures
            final(self).model().wf(),
            r is Err <==> old(self).next_serial == u64::MAX,
            match r {
                Ok(root) => {
                    &&& final(self).root == root
                    &&& root.serial == old(self).next_serial
                    &&& root.can_sign
                    &&& root.not_before == now
                    &&& root.not_after == sat_add64(now, root_validity)
                    &&& forall|h: Seq<u8>| !final(self).model().has(h)
                    &&& final(self).signing_ops == old(self).signing_ops
                    &&& final(self).next_serial == old(self).next_serial + 1
                    &&& final(self).leaf_validity == old(self).leaf_validity
                },
                Err(e) => e == ProxyError::CertificateError && *final(self) == *old(self),
            },
    {
        if self.next_serial == u64::MAX {
            return Err(ProxyError::CertificateError);
        }
        let not_after = if now > u64::MAX - root_validity {
            u64::MAX
        } else {
            now + root_validity
        };
        let root = RootCa { serial: self.next_serial, not_before: now, not_after, can_sign: true };
        self.root = root;
        self.hosts = Vec::new();
        self.certs = Vec::new();
        self.next_serial = self.next_serial + 1;
        Ok(root)
    }

    /// Explicitly drop the cached leaf for `hostname` (normalized), if
    /// any: the next request for it is issued afresh. Every other hostname
    /// keeps exactly the leaf it had.
    pub fn invalidate(&mut self, hostname: &[u8])
        requires
            old(self).model().wf(),
        ensures
            final(self).model().wf(),
            !final(self).model().has(normalize_host(hostname@)),
            forall|h: Seq<u8>|
                h != normalize_host(hostname@) ==> (#[trigger] final(self).model().has(h)
                    <==> old(self).model().has(h)),
            forall|h: Seq<u8>|
                h != normalize_host(hostname@) && old(self).model().has(h)
                    ==> #[trigger] final(self).model().cert_for(h) == old(self).model().cert_for(h),
            final(self).root == old(self).root,
            final(self).signing_ops == old(self).signing_ops,
            final(self).next_serial == old(self).next_serial,
            final(self).leaf_validity == old(self).leaf_validity,
    {
        let nh = normalize_hostname(hostname);
        match self.find(&nh) {
            Some(i) => {
                let ghost v0 = self.model();
                let ghost ii = i as int;
                self.hosts.remove(i);
                self.certs.remove(i);
                proof {
                    assert(self.model().hosts =~= v0.hosts.remove(ii));
                    assert(self.model().certs =~= v0.certs.remove(ii));
                    lemma_invalidate_model(v0, ii, nh@);
                }
            },
            None => {},
        }
    }

    /// How many leaves are cached right now.
    pub fn cached_count(&self) -> (n: usize)
        requires
            self.model().wf(),
        ensures
            n == self.model().hosts.len(),
    {
        self.hosts.len()
    }
}

} // verus!
