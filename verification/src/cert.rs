use vstd::prelude::*;
use vstd::string::StrSliceExecFns;
use vstd::string::StringExecFns;

verus! {

/// One minted per-host leaf identity: the presentation chain (leaf then
/// root, DER, in wire order), the leaf private key, and the validity window
/// in Unix seconds.
pub struct LeafEntry {
    /// The hostname the leaf was minted for.
    pub hostname: String,
    /// Leaf and root certificate, DER, concatenated in wire order.
    pub chain_der: Vec<u8>,
    /// The leaf private key, DER.
    pub private_key_der: Vec<u8>,
    /// Start of validity, Unix seconds.
    pub not_before: u64,
    /// End of validity, Unix seconds.
    pub not_after: u64,
}

/// The ghost value of a leaf entry.
pub struct LeafModel {
    pub hostname: Seq<char>,
    pub chain_der: Seq<u8>,
    pub private_key_der: Seq<u8>,
    pub not_before: u64,
    pub not_after: u64,
}

impl LeafEntry {
    /// The ghost value of this entry.
    pub open spec fn model(&self) -> LeafModel {
        LeafModel {
            hostname: self.hostname@,
            chain_der: self.chain_der@,
            private_key_der: self.private_key_der@,
            not_before: self.not_before,
            not_after: self.not_after,
        }
    }

    /// A byte-identical copy of this entry.
    pub fn duplicate(&self) -> (r: LeafEntry)
        ensures
            r.model() == self.model(),
    {
        LeafEntry {
            hostname: self.hostname.clone(),
            chain_der: copy_bytes(&self.chain_der),
            private_key_der: copy_bytes(&self.private_key_der),
            not_before: self.not_before,
            not_after: self.not_after,
        }
    }
}

/// A copy of a byte buffer.
fn copy_bytes(v: &Vec<u8>) -> (r: Vec<u8>)
    ensures
        r@ == v@,
{
    let n = v.len();
    let mut out: Vec<u8> = Vec::new();
    for i in 0..n
        invariant
            n == v.len(),
            out@ =~= v@.take(i as int),
    {
        out.push(v[i]);
        assert(out@ =~= v@.take(i + 1));
    }
    assert(v@.take(n as int) =~= v@);
    out
}

/// One slot of the certificate cache.
pub enum Slot {
    /// The leaf has been minted; it is never replaced for the rest of the run.
    Ready(LeafEntry),
    /// A mint is in flight; concurrent callers wait on its rendezvous.
    Pending,
}

/// The ghost value of a slot.
pub enum SlotModel {
    Ready(LeafModel),
    Pending,
}

/// The ghost value of an exec slot.
pub open spec fn slot_model(s: Slot) -> SlotModel {
    match s {
        Slot::Ready(e) => SlotModel::Ready(e.model()),
        Slot::Pending => SlotModel::Pending,
    }
}

/// What a cache lookup decided for a caller.
pub enum CacheDecision {
    /// The leaf exists; here is a byte-identical copy.
    Ready(LeafEntry),
    /// Another task is minting this hostname; wait for its result.
    Wait,
    /// No slot existed; the caller now owns the one mint for this hostname.
    Mint,
}

/// The map an association list denotes, later entries shadowing none since
/// keys are unique.
pub open spec fn map_of(entries: Seq<(Seq<char>, SlotModel)>) -> Map<Seq<char>, SlotModel>
    decreases entries.len(),
{
    if entries.len() == 0 {
        Map::empty()
    } else {
        map_of(entries.drop_last()).insert(entries.last().0, entries.last().1)
    }
}

/// An entry's key is in the map and, with unique keys, carries its slot.
proof fn lemma_map_of_index(entries: Seq<(Seq<char>, SlotModel)>, i: int)
    requires
        0 <= i < entries.len(),
        forall|p: int, q: int|
            0 <= p < q < entries.len() ==> (#[trigger] entries[p]).0 != (#[trigger] entries[q]).0,
    ensures
        map_of(entries).dom().contains(entries[i].0),
        map_of(entries)[entries[i].0] == entries[i].1,
    decreases entries.len(),
{
    if i == entries.len() - 1 {
    } else {
        lemma_map_of_index(entries.drop_last(), i);
        assert(entries[entries.len() - 1].0 != entries[i].0);
    }
}

/// A key under no entry is not in the map.
proof fn lemma_map_of_absent(entries: Seq<(Seq<char>, SlotModel)>, h: Seq<char>)
    requires
        forall|i: int| 0 <= i < entries.len() ==> (#[trigger] entries[i]).0 != h,
    ensures
        !map_of(entries).dom().contains(h),
    decreases entries.len(),
{
    if entries.len() > 0 {
        lemma_map_of_absent(entries.drop_last(), h);
    }
}

/// Replacing the slot at one index updates the map at that key alone.
proof fn lemma_map_of_update(
    entries: Seq<(Seq<char>, SlotModel)>,
    i: int,
    s: SlotModel,
)
    requires
        0 <= i < entries.len(),
        forall|p: int, q: int|
            0 <= p < q < entries.len() ==> (#[trigger] entries[p]).0 != (#[trigger] entries[q]).0,
    ensures
        map_of(entries.update(i, (entries[i].0, s))) == map_of(entries).insert(entries[i].0, s),
    decreases entries.len(),
{
    let updated = entries.update(i, (entries[i].0, s));
    if i == entries.len() - 1 {
        assert(updated.drop_last() =~= entries.drop_last());
        assert(map_of(updated) =~= map_of(entries).insert(entries[i].0, s));
    } else {
        lemma_map_of_update(entries.drop_last(), i, s);
        assert(updated.drop_last() =~= entries.drop_last().update(i, (entries[i].0, s)));
        assert(updated.last() == entries.last());
        assert(entries.last().0 != entries[i].0);
        assert(map_of(updated) =~= map_of(entries).insert(entries[i].0, s));
    }
}

/// Removing the entry at one index removes its key from the map alone.
proof fn lemma_map_of_remove(entries: Seq<(Seq<char>, SlotModel)>, i: int)
    requires
        0 <= i < entries.len(),
        forall|p: int, q: int|
            0 <= p < q < entries.len() ==> (#[trigger] entries[p]).0 != (#[trigger] entries[q]).0,
    ensures
        map_of(entries.remove(i)) == map_of(entries).remove(entries[i].0),
    decreases entries.len(),
{
    let removed = entries.remove(i);
    if i == entries.len() - 1 {
        assert(removed =~= entries.drop_last());
        lemma_map_of_absent_when_unique(entries.drop_last(), entries[i].0);
        assert(map_of(removed) =~= map_of(entries).remove(entries[i].0));
    } else {
        lemma_map_of_remove(entries.drop_last(), i);
        assert(removed.drop_last() =~= entries.drop_last().remove(i));
        assert(removed.last() == entries.last());
        assert(entries.last().0 != entries[i].0);
        assert(map_of(removed) =~= map_of(entries).remove(entries[i].0));
    }
}

/// With unique keys, a key of one entry is under no earlier entry.
proof fn lemma_map_of_absent_when_unique(entries: Seq<(Seq<char>, SlotModel)>, h: Seq<char>)
    requires
        forall|i: int| 0 <= i < entries.len() ==> (#[trigger] entries[i]).0 != h,
    ensures
        map_of(entries).remove(h) == map_of(entries),
        !map_of(entries).dom().contains(h),
    decreases entries.len(),
{
    lemma_map_of_absent(entries, h);
    assert(map_of(entries).remove(h) =~= map_of(entries));
}

/// The certificate cache: hostname to slot, minted on miss, never evicted,
/// with at most one mint in flight per hostname.
pub struct CertCache {
    entries: Vec<(String, Slot)>,
}

impl CertCache {
    /// The entries as ghost pairs.
    pub closed spec fn entries_model(&self) -> Seq<(Seq<char>, SlotModel)> {
        Seq::new(self.entries@.len(), |i: int| (self.entries@[i].0@, slot_model(self.entries@[i].1)))
    }

    /// The mapping the cache holds.
    pub closed spec fn model(&self) -> Map<Seq<char>, SlotModel> {
        map_of(self.entries_model())
    }

    /// Hostnames are unique.
    pub closed spec fn wf(&self) -> bool {
        forall|p: int, q: int|
            0 <= p < q < self.entries_model().len() ==> (#[trigger] self.entries_model()[p]).0 != (
            #[trigger] self.entries_model()[q]).0
    }

    /// An empty cache.
    pub fn new() -> (r: Self)
        ensures
            r.wf(),
            r.model() == Map::<Seq<char>, SlotModel>::empty(),
    {
        let r = CertCache { entries: Vec::new() };
        proof {
            assert(r.entries_model() =~= Seq::<(Seq<char>, SlotModel)>::empty());
        }
        r
    }

    /// Drops every entry: used when the CA material itself has changed.
    pub fn flush(&mut self)
        ensures
            final(self).wf(),
            final(self).model() == Map::<Seq<char>, SlotModel>::empty(),
    {
        self.entries.clear();
        proof {
            assert(self.entries_model() =~= Seq::<(Seq<char>, SlotModel)>::empty());
        }
    }

    /// The index holding this hostname, if any.
    fn find(&self, host: &str) -> (r: Option<usize>)
        ensures
            r matches Some(i) ==> i < self.entries_model().len() && self.entries_model()[i as int].0
                == host@,
            r is None ==> forall|i: int|
                0 <= i < self.entries_model().len() ==> (#[trigger] self.entries_model()[i]).0
                    != host@,
    {
        let n = self.entries.len();
        for i in 0..n
            invariant
                n == self.entries.len(),
                forall|k: int| 0 <= k < i ==> (#[trigger] self.entries_model()[k]).0 != host@,
        {
            if str_eq(self.entries[i].0.as_str(), host) {
                return Some(i);
            }
        }
        None
    }

    /// Looks the hostname up; on a miss the caller is granted the one mint
    /// and the slot turns pending. All concurrent callers for one hostname
    /// thus coalesce onto a single mint.
    pub fn get_or_reserve(&mut self, host: &str) -> (r: CacheDecision)
        requires
            old(self).wf(),
        ensures
            final(self).wf(),
            old(self).model().dom().contains(host@) ==> final(self).model() == old(self).model()
                && (match old(self).model()[host@] {
                SlotModel::Ready(e) => r matches CacheDecision::Ready(entry) && entry.model() == e,
                SlotModel::Pending => r is Wait,
            }),
            !old(self).model().dom().contains(host@) ==> r is Mint,
            final(self).model() == apply_op(old(self).model(), CacheOp::Reserve(host@)),
    {
        match self.find(host) {
            Some(i) => {
                proof {
                    lemma_map_of_index(self.entries_model(), i as int);
                }
                match &self.entries[i].1 {
                    Slot::Ready(entry) => CacheDecision::Ready(entry.duplicate()),
                    Slot::Pending => CacheDecision::Wait,
                }
            },
            None => {
                proof {
                    lemma_map_of_absent(self.entries_model(), host@);
                }
                let ghost before = self.entries_model();
                self.entries.push((host.to_owned(), Slot::Pending));
                proof {
                    assert(self.entries_model() =~= before.push((host@, SlotModel::Pending)));
                    assert(self.entries_model().drop_last() =~= before);
                }
                CacheDecision::Mint
            },
        }
    }

    /// Publishes the minted leaf: the pending slot becomes ready and stays
    /// so for the rest of the run. A slot that is already ready, or gone, is
    /// left alone: a ready entry is never replaced.
    pub fn fulfill(&mut self, host: &str, entry: LeafEntry)
        requires
            old(self).wf(),
        ensures
            final(self).wf(),
            final(self).model() == apply_op(
                old(self).model(),
                CacheOp::Fulfill(host@, entry.model()),
            ),
    {
        match self.find(host) {
            Some(i) => {
                proof {
                    lemma_map_of_index(self.entries_model(), i as int);
                }
                match &self.entries[i].1 {
                    Slot::Pending => {
                        let ghost before = self.entries_model();
                        let ghost slot = SlotModel::Ready(entry.model());
                        let host_owned = host.to_owned();
                        self.entries.set(i, (host_owned, Slot::Ready(entry)));
                        proof {
                            assert(self.entries_model() =~= before.update(
                                i as int,
                                (host@, slot),
                            ));
                            lemma_map_of_update(before, i as int, slot);
                        }
                    },
                    Slot::Ready(_) => {},
                }
            },
            None => {
                proof {
                    lemma_map_of_absent(self.entries_model(), host@);
                }
            },
        }
    }

    /// Abandons a failed mint: the pending slot is removed so a later
    /// caller may retry. A ready slot is left alone.
    pub fn fail(&mut self, host: &str)
        requires
            old(self).wf(),
        ensures
            final(self).wf(),
            final(self).model() == apply_op(old(self).model(), CacheOp::Fail(host@)),
    {
        match self.find(host) {
            Some(i) => {
                proof {
                    lemma_map_of_index(self.entries_model(), i as int);
                }
                match &self.entries[i].1 {
                    Slot::Pending => {
                        let ghost before = self.entries_model();
                        self.entries.remove(i);
                        proof {
                            assert(self.entries_model() =~= before.remove(i as int));
                            lemma_map_of_remove(before, i as int);
                        }
                    },
                    Slot::Ready(_) => {},
                }
            },
            None => {
                proof {
                    lemma_map_of_absent(self.entries_model(), host@);
                }
            },
        }
    }
}

/// String slice equality.
fn str_eq(a: &str, b: &str) -> (r: bool)
    ensures
        r == (a@ == b@),
{
    let an = a.unicode_len();
    let bn = b.unicode_len();
    if an != bn {
        return false;
    }
    for i in 0..an
        invariant
            an == a@.len(),
            an == b@.len(),
            forall|k: int| 0 <= k < i ==> a@[k] == b@[k],
    {
        if a.get_char(i) != b.get_char(i) {
            return false;
        }
    }
    proof {
        assert(a@ =~= b@);
    }
    true
}

// ---------------------------------------------------------------------------
// The cache's story over a whole run: mint uniqueness.
// ---------------------------------------------------------------------------

/// One operation some task performs on the cache.
pub enum CacheOp {
    /// `get_or_reserve` for a hostname.
    Reserve(Seq<char>),
    /// `fulfill` for a hostname with a minted leaf.
    Fulfill(Seq<char>, LeafModel),
    /// `fail` for a hostname.
    Fail(Seq<char>),
}

/// The map after one operation, with the guards the exec operations carry:
/// a reserve inserts a pending slot only on a miss, and only a pending slot
/// is ever fulfilled or abandoned.
pub open spec fn apply_op(m: Map<Seq<char>, SlotModel>, op: CacheOp) -> Map<Seq<char>, SlotModel> {
    match op {
        CacheOp::Reserve(h) => if m.dom().contains(h) {
            m
        } else {
            m.insert(h, SlotModel::Pending)
        },
        CacheOp::Fulfill(h, leaf) => if m.dom().contains(h) && m[h] is Pending {
            m.insert(h, SlotModel::Ready(leaf))
        } else {
            m
        },
        CacheOp::Fail(h) => if m.dom().contains(h) && m[h] is Pending {
            m.remove(h)
        } else {
            m
        },
    }
}

/// The map after a sequence of operations.
pub open spec fn apply_ops(m: Map<Seq<char>, SlotModel>, ops: Seq<CacheOp>) -> Map<
    Seq<char>,
    SlotModel,
>
    decreases ops.len(),
{
    if ops.len() == 0 {
        m
    } else {
        apply_ops(apply_op(m, ops[0]), ops.drop_first())
    }
}

/// Mint uniqueness, first half: once a hostname's slot is ready, no later
/// operation replaces it, so every later lookup returns the identical leaf
/// for the lifetime of the process.
pub proof fn lemma_ready_entries_are_stable(
    m: Map<Seq<char>, SlotModel>,
    ops: Seq<CacheOp>,
    h: Seq<char>,
)
    requires
        m.dom().contains(h),
        m[h] is Ready,
    ensures
        apply_ops(m, ops).dom().contains(h),
        apply_ops(m, ops)[h] == m[h],
    decreases ops.len(),
{
    if ops.len() > 0 {
        lemma_ready_entries_are_stable(apply_op(m, ops[0]), ops.drop_first(), h);
    }
}

/// Mint uniqueness, second half: while a mint for a hostname is in flight,
/// no further operation on that hostname grants another mint, so the CA
/// signer sees at most one request for it at a time.
pub proof fn lemma_pending_excludes_second_mint(m: Map<Seq<char>, SlotModel>, h: Seq<char>)
    requires
        m.dom().contains(h),
        m[h] is Pending,
    ensures
        apply_op(m, CacheOp::Reserve(h)) == m,
{
}

// ---------------------------------------------------------------------------
// What a minted leaf must look like.
// ---------------------------------------------------------------------------

/// Seconds in one day.
pub open spec fn day() -> int {
    86400
}

/// The leaf's subject common name: the hostname, or a fixed fallback when
/// the hostname would not fit the 64-character bound of the field.
pub open spec fn spec_common_name(hostname: Seq<char>) -> Seq<char> {
    if hostname.len() <= 64 {
        hostname
    } else {
        "cn_too_long.local"@
    }
}

/// The parameters of one leaf mint, handed to the signer.
pub struct LeafParams {
    /// The subject common name.
    pub common_name: String,
    /// The subject alternative name entry, `DNS:` then the hostname.
    pub san_dns: String,
    /// Start of validity: one minute before the mint.
    pub not_before: u64,
    /// End of validity: 365 days after the mint.
    pub not_after: u64,
}

/// Computes the parameters of a leaf mint at the given time. The validity
/// window runs from one minute before the mint to 365 days after it, so it
/// is always at least 364 days long.
pub fn leaf_params(hostname: &str, now: u64) -> (r: LeafParams)
    requires
        60 <= now,
        now + 365 * 86400 <= u64::MAX,
    ensures
        r.common_name@ == spec_common_name(hostname@),
        r.san_dns@ == "DNS:"@ + hostname@,
        r.not_before == now - 60,
        r.not_after == now + 365 * 86400,
        r.not_after - r.not_before >= 364 * day(),
{
    let n = hostname.unicode_len();
    let common_name = if n <= 64 {
        hostname.to_owned()
    } else {
        String::from_str("cn_too_long.local")
    };
    let mut san_dns = String::from_str("DNS:");
    san_dns.append(hostname);
    LeafParams { common_name, san_dns, not_before: now - 60, not_after: now + 365 * 86400 }
}

/// Whether a configuration reload may keep the minted leaves: it may unless
/// the CA material itself changed, in which case the cache must be flushed.
pub fn reload_keeps_cache(
    old_cert_pem: &str,
    old_key_pem: &str,
    new_cert_pem: &str,
    new_key_pem: &str,
) -> (r: bool)
    ensures
        r == (old_cert_pem@ == new_cert_pem@ && old_key_pem@ == new_key_pem@),
{
    str_eq(old_cert_pem, new_cert_pem) && str_eq(old_key_pem, new_key_pem)
}


// ---------------------------------------------------------------------------
// Splitting the presentation chain back into its certificates.
// ---------------------------------------------------------------------------

/// Big-endian value of a byte string.
pub open spec fn bytes_be(s: Seq<u8>) -> int
    decreases s.len(),
{
    if s.len() == 0 {
        0
    } else {
        bytes_be(s.drop_last()) * 256 + s.last()
    }
}

/// A big-endian value is never negative.
proof fn lemma_bytes_be_nonneg(s: Seq<u8>)
    ensures
        bytes_be(s) >= 0,
    decreases s.len(),
{
    if s.len() > 0 {
        lemma_bytes_be_nonneg(s.drop_last());
    }
}

/// The total length of the leading DER element, for the headers this
/// splitter accepts: a SEQUENCE tag with a short length, or a long form of
/// one to four length bytes.
pub open spec fn der_total_len(s: Seq<u8>) -> Option<int> {
    if s.len() < 2 || s[0] != 0x30 {
        None
    } else if s[1] < 0x80 {
        Some(2 + s[1])
    } else {
        let n = (s[1] - 0x80) as int;
        if n == 0 || n > 4 || s.len() < 2 + n {
            None
        } else {
            Some(2 + n + bytes_be(s.subrange(2, 2 + n)))
        }
    }
}

/// The DER elements at the front of a byte string, split by their headers;
/// splitting stops at the first malformed or truncated element.
pub open spec fn spec_der_parts(s: Seq<u8>) -> Seq<Seq<u8>>
    decreases s.len(),
    via spec_der_parts_decreases
{
    match der_total_len(s) {
        Some(t) => if t <= s.len() {
            seq![s.take(t)] + spec_der_parts(s.skip(t))
        } else {
            Seq::empty()
        },
        None => Seq::empty(),
    }
}

#[via_fn]
proof fn spec_der_parts_decreases(s: Seq<u8>) {
    if s.len() >= 2 && s[0] == 0x30 && s[1] >= 0x80 {
        let n = (s[1] - 0x80) as int;
        if 1 <= n <= 4 && s.len() >= 2 + n {
            lemma_bytes_be_nonneg(s.subrange(2, 2 + n));
        }
    }
}

/// Splits a concatenation of DER certificates, as a leaf-then-root
/// presentation chain is stored, back into the single certificates.
pub fn der_certificates(chain: &Vec<u8>) -> (r: Vec<Vec<u8>>)
    ensures
        r.deep_view() == spec_der_parts(chain@),
{
    let n = chain.len();
    let mut out: Vec<Vec<u8>> = Vec::new();
    let mut pos: usize = 0;
    proof {
        assert(chain@.skip(0) =~= chain@);
        assert(out.deep_view() + spec_der_parts(chain@.skip(0)) =~~= spec_der_parts(chain@));
    }
    loop
        invariant
            n == chain@.len(),
            pos <= n,
            out.deep_view() + spec_der_parts(chain@.skip(pos as int)) =~~= spec_der_parts(chain@),
        ensures
            out.deep_view() =~~= spec_der_parts(chain@),
        decreases n - pos,
    {
        let ghost rest = chain@.skip(pos as int);
        if n - pos < 2 || chain[pos] != 0x30 {
            proof {
                assert(der_total_len(rest) is None) by {
                    if rest.len() >= 2 {
                        assert(rest[0] == chain@[pos as int]);
                    }
                }
                assert(spec_der_parts(rest) =~~= Seq::<Seq<u8>>::empty());
            }
            return out;
        }
        let l = chain[pos + 1];
        proof {
            assert(rest[0] == chain@[pos as int]);
            assert(rest[1] == chain@[pos + 1]);
        }
        let total: usize;
        if l < 0x80 {
            total = 2 + l as usize;
            proof {
                assert(der_total_len(rest) == Some(2 + l as int));
            }
        } else {
            let n_bytes = (l - 0x80) as usize;
            if n_bytes == 0 || n_bytes > 4 || n - pos < 2 + n_bytes {
                proof {
                    assert(der_total_len(rest) is None);
                    assert(spec_der_parts(rest) =~~= Seq::<Seq<u8>>::empty());
                }
                return out;
            }
            let mut val: u64 = 0;
            let mut k: usize = 0;
            proof {
                assert(rest.subrange(2, 2) =~= Seq::<u8>::empty());
            }
            while k < n_bytes
                invariant
                    n == chain@.len(),
                    pos + 2 + n_bytes <= n,
                    n_bytes <= 4,
                    k <= n_bytes,
                    rest == chain@.skip(pos as int),
                    val == bytes_be(rest.subrange(2, 2 + k)),
                    val < 0x1_0000_0000u64,
                decreases n_bytes - k,
            {
                let b = chain[pos + 2 + k];
                proof {
                    assert(rest[2 + k] == chain@[pos + 2 + k]);
                    assert(rest.subrange(2, 2 + (k + 1)).drop_last() =~= rest.subrange(
                        2,
                        2 + k as int,
                    ));
                    assert(rest.subrange(2, 2 + (k + 1)).last() == rest[2 + k]);
                    assert(bytes_be(rest.subrange(2, 2 + k as int)) < 0x100_0000) by {
                        lemma_bytes_be_bound(rest.subrange(2, 2 + k as int));
                    }
                }
                val = val * 256 + b as u64;
                k = k + 1;
            }
            let total64: u64 = 2 + n_bytes as u64 + val;
            if total64 > (n - pos) as u64 {
                proof {
                    assert(der_total_len(rest) == Some(2 + n_bytes as int + bytes_be(
                        rest.subrange(2, 2 + n_bytes as int),
                    )));
                    assert(spec_der_parts(rest) =~~= Seq::<Seq<u8>>::empty());
                }
                return out;
            }
            total = total64 as usize;
            proof {
                assert(der_total_len(rest) == Some(total as int));
            }
        }
        if total > n - pos {
            proof {
                assert(spec_der_parts(rest) =~~= Seq::<Seq<u8>>::empty());
            }
            return out;
        }
        let mut part: Vec<u8> = Vec::new();
        let mut j: usize = 0;
        while j < total
            invariant
                n == chain@.len(),
                pos + total <= n,
                j <= total,
                part@ =~= chain@.subrange(pos as int, pos + j),
            decreases total - j,
        {
            part.push(chain[pos + j]);
            j = j + 1;
            assert(part@ =~= chain@.subrange(pos as int, pos + j));
        }
        let ghost before = out.deep_view();
        out.push(part);
        proof {
            assert(rest.take(total as int) =~= chain@.subrange(pos as int, pos + total));
            assert(rest.skip(total as int) =~= chain@.skip(pos + total));
            assert(out.deep_view() =~~= before.push(rest.take(total as int)));
            assert(before.push(rest.take(total as int)) + spec_der_parts(chain@.skip(pos + total))
                =~~= before + (seq![rest.take(total as int)] + spec_der_parts(
                rest.skip(total as int),
            )));
        }
        pos = pos + total;
    }
}

/// Bounds of short big-endian values: one byte below two to the eighth,
/// and so on.
proof fn lemma_bytes_be_bound(s: Seq<u8>)
    ensures
        bytes_be(s) >= 0,
        s.len() <= 1 ==> bytes_be(s) < 0x100,
        s.len() <= 2 ==> bytes_be(s) < 0x1_0000,
        s.len() <= 3 ==> bytes_be(s) < 0x100_0000,
    decreases s.len(),
{
    if s.len() > 0 {
        lemma_bytes_be_bound(s.drop_last());
    }
}

} // verus!
