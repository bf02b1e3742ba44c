//! Trust on first use: a store that pins each host to the fingerprint of the
//! certificate it first presented, and the verifier that decides on a
//! handshake with it.

use crate::text::{matches_at, starts_at};
use sha2::{Digest, Sha256};
use vstd::prelude::*;
use vstd::string::*;

verus! {

/// The result of a TOFU verification.
#[derive(Debug, Clone, Copy, PartialEq, Eq, Structural)]
pub enum TofuResult {
    /// The host is known and the certificate matches.
    Match,
    /// The host is known but the certificate does not match.
    Mismatch,
    /// The host is unknown.
    Unknown,
    /// The host was just learned.
    New,
}

/// A host and the fingerprint it is pinned to.
#[derive(Debug, Clone, PartialEq, Eq)]
pub struct KnownHost {
    pub hostname: String,
    pub fingerprint: String,
}

/// The mapping that a list of pinned hosts stands for: each hostname goes to
/// the fingerprint of its last entry.
pub open spec fn map_of(hosts: Seq<KnownHost>) -> Map<Seq<char>, Seq<char>>
    decreases hosts.len(),
{
    if hosts.len() == 0 {
        Map::empty()
    } else {
        map_of(hosts.drop_last()).insert(hosts.last().hostname@, hosts.last().fingerprint@)
    }
}

/// What a store says of a host that presents a fingerprint.
pub open spec fn verdict(
    known: Map<Seq<char>, Seq<char>>,
    hostname: Seq<char>,
    fingerprint: Seq<char>,
) -> TofuResult {
    if !known.contains_key(hostname) {
        TofuResult::Unknown
    } else if known[hostname] == fingerprint {
        TofuResult::Match
    } else {
        TofuResult::Mismatch
    }
}

/// What verifying or learning answers: a known host is judged by its pinned
/// fingerprint; an unknown host is new where the store with it was saved, and
/// the failure to save it otherwise.
pub open spec fn outcome(
    known: Map<Seq<char>, Seq<char>>,
    hostname: Seq<char>,
    fingerprint: Seq<char>,
    saved: Result<(), String>,
) -> Result<TofuResult, String> {
    match verdict(known, hostname, fingerprint) {
        TofuResult::Unknown => match saved {
            Ok(_) => Ok(TofuResult::New),
            Err(e) => Err(e),
        },
        judged => Ok(judged),
    }
}

/// What verifying or learning leaves in the store: an unknown host is pinned
/// where the store with it was saved, and nothing changes otherwise.
pub open spec fn after(
    known: Map<Seq<char>, Seq<char>>,
    hostname: Seq<char>,
    fingerprint: Seq<char>,
    saved: Result<(), String>,
) -> Map<Seq<char>, Seq<char>> {
    if !known.contains_key(hostname) && saved.is_ok() {
        known.insert(hostname, fingerprint)
    } else {
        known
    }
}

/// `s` ends with `suffix`.
pub open spec fn ends_with(s: Seq<char>, suffix: Seq<char>) -> bool {
    s.len() >= suffix.len() && starts_at(s, s.len() - suffix.len(), suffix)
}

/// The digest that SHA-256 gives for a sequence of bytes.
pub uninterp spec fn sha256_digest(data: Seq<u8>) -> Seq<u8>;

/// Calls `Sha256::digest` of the crate `sha2` and copies the output into a
/// vector. The result is the SHA-256 digest of `data`, named
/// [`sha256_digest`], which is 32 bytes long.
#[verifier::external_body]
fn sha256(data: &[u8]) -> (digest: Vec<u8>)
    ensures
        digest@ == sha256_digest(data@),
        digest@.len() == 32,
{
    Sha256::digest(data).to_vec()
}

/// The lowercase hexadecimal digit of a value below sixteen.
pub open spec fn hex_digit(v: int) -> char {
    if v == 0 {
        '0'
    } else if v == 1 {
        '1'
    } else if v == 2 {
        '2'
    } else if v == 3 {
        '3'
    } else if v == 4 {
        '4'
    } else if v == 5 {
        '5'
    } else if v == 6 {
        '6'
    } else if v == 7 {
        '7'
    } else if v == 8 {
        '8'
    } else if v == 9 {
        '9'
    } else if v == 10 {
        'a'
    } else if v == 11 {
        'b'
    } else if v == 12 {
        'c'
    } else if v == 13 {
        'd'
    } else if v == 14 {
        'e'
    } else {
        'f'
    }
}

/// Bytes in lowercase hexadecimal: two digits for each byte, the high half
/// first.
pub open spec fn hex_text(data: Seq<u8>) -> Seq<char> {
    Seq::new(
        2 * data.len(),
        |i: int|
            if i % 2 == 0 {
                hex_digit(data[i / 2] as int / 16)
            } else {
                hex_digit(data[i / 2] as int % 16)
            },
    )
}

/// Calls `hex::encode`. The result writes each byte of `data` as two
/// lowercase hexadecimal digits, the high half first, in the order of the
/// bytes.
#[verifier::external_body]
fn hex_encode(data: &[u8]) -> (text: String)
    ensures
        text@ == hex_text(data@),
{
    hex::encode(data)
}

/// The fingerprint of a certificate: its SHA-256 digest in lowercase
/// hexadecimal.
pub fn fingerprint(certificate: &[u8]) -> (text: String)
    ensures
        text@ == hex_text(sha256_digest(certificate@)),
        text@.len() == 64,
{
    let digest = sha256(certificate);
    hex_encode(digest.as_slice())
}

/// No two entries of the list name the same host.
pub open spec fn distinct_hosts(hosts: Seq<KnownHost>) -> bool {
    forall|i: int, j: int|
        0 <= i < j < hosts.len() ==> (#[trigger] hosts[i]).hostname@ != (#[trigger] hosts[j]).hostname@
}

/// The hosts of the mapping are those of the list.
pub proof fn lemma_map_of_keys(hosts: Seq<KnownHost>, hostname: Seq<char>)
    ensures
        map_of(hosts).contains_key(hostname) <==> exists|i: int|
            0 <= i < hosts.len() && (#[trigger] hosts[i]).hostname@ == hostname,
    decreases hosts.len(),
{
    if hosts.len() > 0 {
        let rest = hosts.drop_last();
        lemma_map_of_keys(rest, hostname);
        if map_of(hosts).contains_key(hostname) {
            if hosts.last().hostname@ == hostname {
                assert(hosts[hosts.len() - 1].hostname@ == hostname);
            } else {
                let i = choose|i: int| 0 <= i < rest.len() && (#[trigger] rest[i]).hostname@ == hostname;
                assert(hosts[i].hostname@ == hostname);
            }
        }
        if exists|i: int| 0 <= i < hosts.len() && (#[trigger] hosts[i]).hostname@ == hostname {
            let i = choose|i: int| 0 <= i < hosts.len() && (#[trigger] hosts[i]).hostname@ == hostname;
            if i < rest.len() {
                assert(rest[i].hostname@ == hostname);
            }
        }
    }
}

/// In a list without a host twice, a new fingerprint in the place of a host's
/// entry is a new fingerprint for that host in the mapping.
pub proof fn lemma_map_of_update(hosts: Seq<KnownHost>, at: int, entry: KnownHost)
    requires
        distinct_hosts(hosts),
        0 <= at < hosts.len(),
        hosts[at].hostname@ == entry.hostname@,
    ensures
        map_of(hosts.update(at, entry)) == map_of(hosts).insert(
            entry.hostname@,
            entry.fingerprint@,
        ),
        distinct_hosts(hosts.update(at, entry)),
    decreases hosts.len(),
{
    let rest = hosts.drop_last();
    let changed = hosts.update(at, entry);
    if at == hosts.len() - 1 {
        assert(changed.drop_last() =~= rest);
        assert(map_of(changed) =~= map_of(hosts).insert(entry.hostname@, entry.fingerprint@));
    } else {
        assert(distinct_hosts(rest)) by {
            assert forall|i: int, j: int| 0 <= i < j < rest.len() implies (#[trigger] rest[i]).hostname@
                != (#[trigger] rest[j]).hostname@ by {
                assert(hosts[i].hostname@ != hosts[j].hostname@);
            }
        }
        lemma_map_of_update(rest, at, entry);
        assert(changed.drop_last() =~= rest.update(at, entry));
        assert(changed.last() == hosts.last());
        assert(hosts[at].hostname@ != hosts[hosts.len() - 1].hostname@);
        assert(map_of(changed) =~= map_of(hosts).insert(entry.hostname@, entry.fingerprint@));
    }
    assert forall|i: int, j: int| 0 <= i < j < changed.len() implies (#[trigger] changed[i]).hostname@
        != (#[trigger] changed[j]).hostname@ by {
        assert(hosts[i].hostname@ != hosts[j].hostname@);
    }
}

/// What was found at the place where a store is kept.
#[derive(Debug, Clone, PartialEq, Eq)]
pub enum StoredHosts {
    /// Nothing is there yet.
    Missing,
    /// Something is there that cannot be read as a store; says why.
    Unreadable(String),
    /// The hosts that were read.
    Hosts(Vec<KnownHost>),
}

/// A trust-on-first-use (TOFU) store for hostnames and their certificate fingerprints.
#[derive(Debug, Clone)]
pub struct TofuStore {
    path: String,
    known_hosts: Vec<KnownHost>,
}

impl View for TofuStore {
    type V = Map<Seq<char>, Seq<char>>;

    /// The mapping from hostname to fingerprint.
    closed spec fn view(&self) -> Map<Seq<char>, Seq<char>> {
        map_of(self.known_hosts@)
    }
}

impl TofuStore {
    /// The store is well formed: no host is pinned twice.
    pub closed spec fn wf(&self) -> bool {
        distinct_hosts(self.known_hosts@)
    }

    /// The place where the store is kept.
    pub closed spec fn spec_path(&self) -> Seq<char> {
        self.path@
    }

    /// The pinned hosts in the order in which they were first learned.
    pub closed spec fn spec_entries(&self) -> Seq<KnownHost> {
        self.known_hosts@
    }

    /// The mapping of a store is that of its entries.
    pub proof fn lemma_view_is_map_of_entries(&self)
        ensures
            self@ == map_of(self.spec_entries()),
    {
    }

    /// Create an empty TOFU store kept at `path`, which must end with `.json`.
    pub fn new(path: String) -> (r: Result<Self, String>)
        ensures
            r.is_ok() <==> ends_with(path@, ".json"@),
            match r {
                Ok(store) => store.wf() && store@ == Map::<Seq<char>, Seq<char>>::empty()
                    && store.spec_path() == path@ && store.spec_entries().len() == 0,
                Err(e) => e@ == "Tofu store path must end with .json"@,
            },
    {
        let n: usize = path.as_str().unicode_len();
        let m: usize = ".json".unicode_len();
        if n < m || !matches_at(path.as_str(), n, n - m, ".json") {
            return Err(String::from_str("Tofu store path must end with .json"));
        }
        Ok(Self { path, known_hosts: Vec::new() })
    }

    /// Create a TOFU store kept at `path`, which must end with `.json`, that
    /// holds the hosts that were read from it. Of two entries for one host
    /// the later one counts.
    pub fn with_known_hosts(path: String, known_hosts: Vec<KnownHost>) -> (r: Result<Self, String>)
        ensures
            r.is_ok() <==> ends_with(path@, ".json"@),
            match r {
                Ok(store) => store.wf() && store@ == map_of(known_hosts@) && store.spec_path()
                    == path@,
                Err(e) => e@ == "Tofu store path must end with .json"@,
            },
    {
        let mut store = match Self::new(path) {
            Ok(store) => store,
            Err(e) => {
                return Err(e);
            },
        };
        let mut i: usize = 0;
        proof {
            assert(known_hosts@.subrange(0, 0) =~= Seq::<KnownHost>::empty());
        }
        while i < known_hosts.len()
            invariant
                i <= known_hosts.len(),
                store.wf(),
                store@ == map_of(known_hosts@.subrange(0, i as int)),
                store.spec_path() == path@,
            decreases known_hosts.len() - i,
        {
            proof {
                let head = known_hosts@.subrange(0, i + 1);
                assert(head.drop_last() =~= known_hosts@.subrange(0, i as int));
                assert(head.last() == known_hosts@[i as int]);
            }
            store.learn_host(known_hosts[i].hostname.clone(), known_hosts[i].fingerprint.clone());
            i += 1;
        }
        proof {
            assert(known_hosts@.subrange(0, i as int) =~= known_hosts@);
        }
        Ok(store)
    }

    /// Load the TOFU store kept at `path`, which must end with `.json`, from
    /// what was found there: an empty store where nothing is there yet, the
    /// hosts that were read where there are any. What cannot be read as a
    /// store is an error and never an empty store, which would drop the
    /// pinned hosts in silence.
    pub fn load(path: String, found: StoredHosts) -> (r: Result<Self, String>)
        ensures
            r.is_ok() <==> ends_with(path@, ".json"@) && !(found is Unreadable),
            match r {
                Ok(store) => {
                    &&& store.wf()
                    &&& store.spec_path() == path@
                    &&& store@ == match found {
                        StoredHosts::Hosts(hosts) => map_of(hosts@),
                        _ => Map::<Seq<char>, Seq<char>>::empty(),
                    }
                },
                Err(e) => if !ends_with(path@, ".json"@) {
                    e@ == "Tofu store path must end with .json"@
                } else {
                    (found matches StoredHosts::Unreadable(why) && e@ == why@)
                },
            },
    {
        match found {
            StoredHosts::Missing => Self::new(path),
            StoredHosts::Hosts(hosts) => Self::with_known_hosts(path, hosts),
            StoredHosts::Unreadable(why) => match Self::new(path) {
                Ok(_) => Err(why),
                Err(e) => Err(e),
            },
        }
    }

    /// The place where the store is kept.
    pub fn path(&self) -> (p: &String)
        ensures
            p@ == self.spec_path(),
    {
        &self.path
    }

    /// The pinned hosts in the order in which they were first learned, each
    /// host once.
    pub fn known_hosts(&self) -> (hosts: &Vec<KnownHost>)
        ensures
            hosts@ == self.spec_entries(),
            self@ == map_of(hosts@),
            self.wf() ==> distinct_hosts(hosts@),
    {
        &self.known_hosts
    }

    /// Pin a host to a fingerprint, in place of the one it had, if any.
    pub fn learn_host(&mut self, hostname: String, fingerprint: String)
        requires
            old(self).wf(),
        ensures
            final(self).wf(),
            final(self)@ == old(self)@.insert(hostname@, fingerprint@),
            final(self).spec_path() == old(self).spec_path(),
            final(self).spec_entries().len() == if old(self)@.contains_key(hostname@) {
                old(self).spec_entries().len()
            } else {
                old(self).spec_entries().len() + 1
            },
    {
        let mut i: usize = 0;
        while i < self.known_hosts.len()
            invariant
                i <= self.known_hosts.len(),
                *self == *old(self),
                self.wf(),
                forall|j: int| 0 <= j < i ==> (#[trigger] self.known_hosts@[j]).hostname@ != hostname@,
            decreases self.known_hosts.len() - i,
        {
            if self.known_hosts[i].hostname == hostname {
                let entry = KnownHost { hostname, fingerprint };
                proof {
                    lemma_map_of_keys(self.known_hosts@, hostname@);
                    lemma_map_of_update(self.known_hosts@, i as int, entry);
                }
                self.known_hosts.set(i, entry);
                return;
            }
            i += 1;
        }
        let ghost before = self.known_hosts@;
        self.known_hosts.push(KnownHost { hostname, fingerprint });
        proof {
            lemma_map_of_keys(before, hostname@);
            assert(self.known_hosts@.drop_last() =~= before);
            let hosts = self.known_hosts@;
            assert forall|a: int, b: int| 0 <= a < b < hosts.len() implies (#[trigger] hosts[a]).hostname@
                != (#[trigger] hosts[b]).hostname@ by {
                if b < before.len() {
                    assert(before[a].hostname@ != before[b].hostname@);
                } else {
                    assert(before[a].hostname@ != hostname@);
                }
            }
        }
    }

    /// A store of its own with the same path and the same hosts.
    pub fn duplicate(&self) -> (copy: Self)
        requires
            self.wf(),
        ensures
            copy.wf(),
            copy@ == self@,
            copy.spec_path() == self.spec_path(),
            copy.spec_entries() == self.spec_entries(),
    {
        let mut known_hosts: Vec<KnownHost> = Vec::new();
        let mut i: usize = 0;
        while i < self.known_hosts.len()
            invariant
                i <= self.known_hosts.len(),
                known_hosts@ == self.known_hosts@.subrange(0, i as int),
            decreases self.known_hosts.len() - i,
        {
            let host = &self.known_hosts[i];
            known_hosts.push(
                KnownHost { hostname: host.hostname.clone(), fingerprint: host.fingerprint.clone() },
            );
            i += 1;
            proof {
                assert(known_hosts@ =~= self.known_hosts@.subrange(0, i as int));
            }
        }
        proof {
            assert(known_hosts@ =~= self.known_hosts@);
        }
        Self { path: self.path.clone(), known_hosts }
    }

    /// The store to save before a host that presents a fingerprint is
    /// verified or learned: for an unknown host, this store with the host
    /// pinned to the fingerprint, which is what learning leaves once it was
    /// saved; for a known host nothing, as nothing is written for it.
    pub fn to_persist(&self, hostname: &String, fingerprint: &String) -> (r: Option<Self>)
        requires
            self.wf(),
        ensures
            r.is_some() <==> !self@.contains_key(hostname@),
            match r {
                Some(next) => {
                    &&& next.wf()
                    &&& next@ == self@.insert(hostname@, fingerprint@)
                    &&& next@ == after(self@, hostname@, fingerprint@, Ok(()))
                    &&& next.spec_path() == self.spec_path()
                },
                None => true,
            },
    {
        match self.verify_host(hostname, fingerprint) {
            TofuResult::Unknown => {
                let mut next = self.duplicate();
                next.learn_host(hostname.clone(), fingerprint.clone());
                Some(next)
            },
            _ => None,
        }
    }

    /// Verify that the fingerprint of the received certificate matches the known fingerprint for the hostname.
    pub fn verify_host(&self, hostname: &String, claimed_fingerprint: &String) -> (r: TofuResult)
        ensures
            r == verdict(self@, hostname@, claimed_fingerprint@),
    {
        let mut i: usize = self.known_hosts.len();
        proof {
            assert(self.known_hosts@.subrange(0, i as int) =~= self.known_hosts@);
        }
        while i > 0
            invariant
                i <= self.known_hosts.len(),
                verdict(self@, hostname@, claimed_fingerprint@) == verdict(
                    map_of(self.known_hosts@.subrange(0, i as int)),
                    hostname@,
                    claimed_fingerprint@,
                ),
            decreases i,
        {
            proof {
                let head = self.known_hosts@.subrange(0, i as int);
                assert(head.drop_last() =~= self.known_hosts@.subrange(0, i - 1));
                assert(head.last() == self.known_hosts@[i - 1]);
            }
            i -= 1;
            if self.known_hosts[i].hostname == *hostname {
                if self.known_hosts[i].fingerprint == *claimed_fingerprint {
                    return TofuResult::Match;
                } else {
                    return TofuResult::Mismatch;
                }
            }
        }
        TofuResult::Unknown
    }

    /// Verify that the fingerprint of the received certificate matches the known fingerprint for the hostname, or learn the host if it is unknown.
    ///
    /// A host is learned only once the store with it has been saved: `saved`
    /// is the outcome of saving it, and is looked at for an unknown host
    /// alone. A known host is never written: what does not match is a
    /// mismatch, and the store stays as it was.
    pub fn verify_or_learn_host(
        &mut self,
        hostname: &String,
        claimed_fingerprint: &String,
        saved: Result<(), String>,
    ) -> (r: Result<TofuResult, String>)
        requires
            old(self).wf(),
        ensures
            final(self).wf(),
            r == outcome(old(self)@, hostname@, claimed_fingerprint@, saved),
            final(self)@ == after(old(self)@, hostname@, claimed_fingerprint@, saved),
            final(self).spec_path() == old(self).spec_path(),
            r != Ok::<TofuResult, String>(TofuResult::New) ==> final(self).spec_entries() == old(
                self,
            ).spec_entries(),
    {
        match self.verify_host(hostname, claimed_fingerprint) {
            TofuResult::Match => Ok(TofuResult::Match),
            TofuResult::Mismatch => Ok(TofuResult::Mismatch),
            _ => match saved {
                Ok(_) => {
                    self.learn_host(hostname.clone(), claimed_fingerprint.clone());
                    Ok(TofuResult::New)
                },
                Err(e) => Err(e),
            },
        }
    }
}

/// An unknown host whose store is saved is new. From then on the same
/// fingerprint matches and any other is a mismatch, whether or not a store
/// can be saved, and neither changes what is pinned.
pub proof fn lemma_learn_then_verify(
    known: Map<Seq<char>, Seq<char>>,
    hostname: Seq<char>,
    fingerprint: Seq<char>,
    other: Seq<char>,
    saved: Result<(), String>,
)
    requires
        !known.contains_key(hostname),
        other != fingerprint,
    ensures
        outcome(known, hostname, fingerprint, Ok(())) == Ok::<TofuResult, String>(TofuResult::New),
        ({
            let learned = after(known, hostname, fingerprint, Ok(()));
            &&& learned.contains_key(hostname) && learned[hostname] == fingerprint
            &&& outcome(learned, hostname, fingerprint, saved) == Ok::<TofuResult, String>(
                TofuResult::Match,
            )
            &&& after(learned, hostname, fingerprint, saved) == learned
            &&& outcome(learned, hostname, other, saved) == Ok::<TofuResult, String>(
                TofuResult::Mismatch,
            )
            &&& after(learned, hostname, other, saved) == learned
        }),
{
}

/// A known host is never written: whatever fingerprint it presents, the store
/// stays as it was.
pub proof fn lemma_known_host_unchanged(
    known: Map<Seq<char>, Seq<char>>,
    hostname: Seq<char>,
    fingerprint: Seq<char>,
    saved: Result<(), String>,
)
    requires
        known.contains_key(hostname),
    ensures
        after(known, hostname, fingerprint, saved) == known,
        outcome(known, hostname, fingerprint, saved).is_ok(),
        outcome(known, hostname, fingerprint, saved) != Ok::<TofuResult, String>(TofuResult::New),
{
}

/// An unknown host whose store cannot be saved is not kept.
pub proof fn lemma_unsaved_host_not_kept(
    known: Map<Seq<char>, Seq<char>>,
    hostname: Seq<char>,
    fingerprint: Seq<char>,
    failure: String,
)
    requires
        !known.contains_key(hostname),
    ensures
        outcome(known, hostname, fingerprint, Err(failure)) == Err::<TofuResult, String>(failure),
        after(known, hostname, fingerprint, Err(failure)) == known,
{
}

/// Whether the outcome of a verification lets the handshake go on: only a
/// match and a host just learned do.
pub open spec fn accepts(outcome: Result<TofuResult, String>) -> bool {
    outcome == Ok::<TofuResult, String>(TofuResult::Match) || outcome == Ok::<TofuResult, String>(
        TofuResult::New,
    )
}

/// The TLS number of the signature scheme RSA PKCS#1 with SHA-256.
pub const RSA_PKCS1_SHA256: u16 = 0x0401;

/// The TLS number of the signature scheme RSA PKCS#1 with SHA-384.
pub const RSA_PKCS1_SHA384: u16 = 0x0501;

/// The TLS number of the signature scheme RSA PKCS#1 with SHA-512.
pub const RSA_PKCS1_SHA512: u16 = 0x0601;

/// The TLS number of the signature scheme ECDSA on P-256 with SHA-256.
pub const ECDSA_NISTP256_SHA256: u16 = 0x0403;

/// The TLS number of the signature scheme ECDSA on P-384 with SHA-384.
pub const ECDSA_NISTP384_SHA384: u16 = 0x0503;

/// The TLS number of the signature scheme ECDSA on P-521 with SHA-512.
pub const ECDSA_NISTP521_SHA512: u16 = 0x0603;

/// The TLS number of the signature scheme Ed25519.
pub const ED25519: u16 = 0x0807;

/// The TLS number of the signature scheme Ed448.
pub const ED448: u16 = 0x0808;

/// A TOFU certificate verifier for TLS connections.
#[derive(Debug)]
pub struct TofuVerifier {
    store: TofuStore,
}

impl TofuVerifier {
    /// The store that the verifier decides with.
    pub closed spec fn spec_store(&self) -> TofuStore {
        self.store
    }

    /// Create a verifier that decides with `store`.
    pub fn new(store: TofuStore) -> (v: Self)
        ensures
            v.spec_store() == store,
    {
        Self { store }
    }

    /// The store that the verifier decides with.
    pub fn store(&self) -> (s: &TofuStore)
        ensures
            *s == self.spec_store(),
    {
        &self.store
    }

    /// Decide on a server by its name and the fingerprint of its certificate.
    ///
    /// A server without a DNS name is rejected. Otherwise the store verifies
    /// or learns the host, and the server is accepted on a match and where it
    /// was just learned.
    pub fn decide(
        &mut self,
        server_name: Option<&String>,
        fingerprint: &String,
        saved: Result<(), String>,
    ) -> (accepted: bool)
        requires
            old(self).spec_store().wf(),
        ensures
            final(self).spec_store().wf(),
            accepted == match server_name {
                None => false,
                Some(hostname) => accepts(
                    outcome(old(self).spec_store()@, hostname@, fingerprint@, saved),
                ),
            },
            final(self).spec_store()@ == match server_name {
                None => old(self).spec_store()@,
                Some(hostname) => after(old(self).spec_store()@, hostname@, fingerprint@, saved),
            },
            final(self).spec_store().spec_path() == old(self).spec_store().spec_path(),
    {
        let hostname = match server_name {
            Some(hostname) => hostname,
            None => {
                return false;
            },
        };
        match self.store.verify_or_learn_host(hostname, fingerprint, saved) {
            Ok(TofuResult::Match) => true,
            Ok(TofuResult::New) => true,
            Ok(TofuResult::Mismatch) => false,
            Ok(TofuResult::Unknown) => false,
            Err(_) => false,
        }
    }

    /// Approve the signature of a TLS 1.2 handshake. Trust rests on the
    /// pinned fingerprint alone, so every signature is approved.
    pub fn verify_tls12_signature(message: &[u8], cert: &[u8], signature: &[u8]) -> (valid: bool)
        ensures
            valid,
    {
        true
    }

    /// Approve the signature of a TLS 1.3 handshake. Trust rests on the
    /// pinned fingerprint alone, so every signature is approved.
    pub fn verify_tls13_signature(message: &[u8], cert: &[u8], signature: &[u8]) -> (valid: bool)
        ensures
            valid,
    {
        true
    }

    /// The signature schemes that the verifier vouches for, by their TLS
    /// numbers.
    pub fn supported_verify_schemes() -> (schemes: Vec<u16>)
        ensures
            schemes@ == seq![
                RSA_PKCS1_SHA256,
                RSA_PKCS1_SHA384,
                RSA_PKCS1_SHA512,
                ECDSA_NISTP256_SHA256,
                ECDSA_NISTP384_SHA384,
                ECDSA_NISTP521_SHA512,
                ED25519,
                ED448,
            ],
    {
        let mut schemes: Vec<u16> = Vec::new();
        schemes.push(RSA_PKCS1_SHA256);
        schemes.push(RSA_PKCS1_SHA384);
        schemes.push(RSA_PKCS1_SHA512);
        schemes.push(ECDSA_NISTP256_SHA256);
        schemes.push(ECDSA_NISTP384_SHA384);
        schemes.push(ECDSA_NISTP521_SHA512);
        schemes.push(ED25519);
        schemes.push(ED448);
        proof {
            assert(schemes@ =~= seq![
                RSA_PKCS1_SHA256,
                RSA_PKCS1_SHA384,
                RSA_PKCS1_SHA512,
                ECDSA_NISTP256_SHA256,
                ECDSA_NISTP384_SHA384,
                ECDSA_NISTP521_SHA512,
                ED25519,
                ED448,
            ]);
        }
        schemes
    }

    /// The store to save before a server is decided on by its name and its
    /// certificate: for an unknown host, the verifier's store with the host
    /// pinned to the certificate's fingerprint; nothing for a known host or a
    /// server without a DNS name.
    pub fn to_persist(&self, server_name: Option<&String>, end_entity: &[u8]) -> (r: Option<
        TofuStore,
    >)
        requires
            self.spec_store().wf(),
        ensures
            r.is_some() <==> match server_name {
                Some(hostname) => !self.spec_store()@.contains_key(hostname@),
                None => false,
            },
            match (r, server_name) {
                (Some(next), Some(hostname)) => {
                    &&& next.wf()
                    &&& next@ == self.spec_store()@.insert(
                        hostname@,
                        hex_text(sha256_digest(end_entity@)),
                    )
                    &&& next.spec_path() == self.spec_store().spec_path()
                },
                _ => true,
            },
    {
        match server_name {
            Some(hostname) => {
                let claimed = fingerprint(end_entity);
                self.store.to_persist(hostname, &claimed)
            },
            None => None,
        }
    }

    /// Decide on a server by its name and its certificate: the certificate's
    /// fingerprint is computed, and [`TofuVerifier::decide`] decides with it.
    pub fn verify_server_cert(
        &mut self,
        server_name: Option<&String>,
        end_entity: &[u8],
        saved: Result<(), String>,
    ) -> (accepted: bool)
        requires
            old(self).spec_store().wf(),
        ensures
            final(self).spec_store().wf(),
            accepted == match server_name {
                None => false,
                Some(hostname) => accepts(
                    outcome(old(self).spec_store()@, hostname@, hex_text(sha256_digest(end_entity@)), saved),
                ),
            },
            final(self).spec_store()@ == match server_name {
                None => old(self).spec_store()@,
                Some(hostname) => after(old(self).spec_store()@, hostname@, hex_text(sha256_digest(end_entity@)), saved),
            },
            final(self).spec_store().spec_path() == old(self).spec_store().spec_path(),
    {
        let claimed = fingerprint(end_entity);
        self.decide(server_name, &claimed, saved)
    }
}

} // verus!
