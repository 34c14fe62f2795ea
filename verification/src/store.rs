//! An in-memory entry store: at most one entry per (namespace, subspace,
//! path) slot, every entry authorised. Ingestion resolves conflicts by the
//! (timestamp, digest, payload length) order; reads compute counts,
//! XOR-homomorphic fingerprints and entry listings over a range, and
//! `split_range` subdivides a mismatched range for reconciliation.

use vstd::prelude::*;
use crate::grouping::ByteRange;
use crate::grouping::RangeEnd;
use crate::grouping::ThreeDRange;
use crate::grouping::TimeRange;
use crate::grouping::range_includes;
use crate::keys::NamespaceId;
use crate::util::bytes_eq;
use crate::util::bytes_less;
use crate::util::clone_bytes;
use crate::wgps::Fingerprint;
use crate::wgps::fp_of_seq;
use crate::willow::AuthorisedEntry;
use crate::willow::Entry;
use crate::willow::entry_eqv;
use crate::willow::entry_key_eq;
use crate::willow::entry_newer;

verus! {

/// Thresholds steering `split_range`: ranges holding at most
/// `max_entries_per_announce` entries (or fewer than
/// `min_fingerprint_range`) are announced outright; larger ones are
/// subdivided, to at most `max_split_depth` protocol rounds.
#[derive(Debug, Clone, Copy)]
pub struct SyncConfig {
    pub max_entries_per_announce: u64,
    pub max_split_depth: u32,
    pub min_fingerprint_range: u64,
}

impl Default for SyncConfig {
    fn default() -> (r: SyncConfig)
        ensures
            r.max_entries_per_announce == 1,
            r.max_split_depth == 32,
            r.min_fingerprint_range == 2,
    {
        SyncConfig { max_entries_per_announce: 1, max_split_depth: 32, min_fingerprint_range: 2 }
    }
}

/// What to do with one subrange of a split: announce and send its entries,
/// or send its fingerprint for further comparison.
#[derive(Debug)]
pub enum SplitAction {
    SendEntries(u64),
    SendFingerprint(Fingerprint),
}

/// Whether an authorised entry belongs to a namespace and range.
pub open spec fn entry_in(ae: AuthorisedEntry, namespace: Seq<u8>, r: ThreeDRange) -> bool {
    ae.entry.namespace_id.bytes@ == namespace && range_includes(
        r,
        ae.entry.subspace_id.bytes@,
        ae.entry.path@,
        ae.entry.timestamp,
    )
}

/// The subsequence of `s` inside the namespace and range, in store order.
pub open spec fn included_seq(s: Seq<AuthorisedEntry>, namespace: Seq<u8>, r: ThreeDRange) -> Seq<
    AuthorisedEntry,
>
    decreases s.len(),
{
    if s.len() == 0 {
        Seq::empty()
    } else {
        let rest = included_seq(s.drop_last(), namespace, r);
        if entry_in(s.last(), namespace, r) {
            rest.push(s.last())
        } else {
            rest
        }
    }
}

/// The index of the first entry of `s` sharing a slot with `e`.
pub open spec fn find_key(s: Seq<AuthorisedEntry>, e: Entry) -> Option<int>
    decreases s.len(),
{
    if s.len() == 0 {
        Option::None
    } else if entry_key_eq(s[0].entry, e) {
        Option::Some(0int)
    } else {
        match find_key(s.skip(1), e) {
            Option::None => Option::None,
            Option::Some(i) => Option::Some(i + 1),
        }
    }
}

pub proof fn lemma_find_key_props(s: Seq<AuthorisedEntry>, e: Entry)
    ensures
        match find_key(s, e) {
            Option::None => forall|j: int|
                0 <= j < s.len() ==> !entry_key_eq(#[trigger] s[j].entry, e),
            Option::Some(i) => 0 <= i < s.len() && entry_key_eq(s[i].entry, e) && forall|j: int|
                0 <= j < i ==> !entry_key_eq(#[trigger] s[j].entry, e),
        },
    decreases s.len(),
{
    if s.len() > 0 && !entry_key_eq(s[0].entry, e) {
        lemma_find_key_props(s.skip(1), e);
        match find_key(s.skip(1), e) {
            Option::None => {
                assert forall|j: int| 0 <= j < s.len() implies !entry_key_eq(
                    #[trigger] s[j].entry,
                    e,
                ) by {
                    if j >= 1 {
                        assert(s[j] == s.skip(1)[j - 1]);
                    }
                }
            },
            Option::Some(i) => {
                assert(s[i + 1] == s.skip(1)[i]);
                assert forall|j: int| 0 <= j < i + 1 implies !entry_key_eq(
                    #[trigger] s[j].entry,
                    e,
                ) by {
                    if j >= 1 {
                        assert(s[j] == s.skip(1)[j - 1]);
                    }
                }
            },
        }
    }
}

/// Ranges with equal views select the same entries.
pub proof fn lemma_included_seq_range_eqv(
    s: Seq<AuthorisedEntry>,
    namespace: Seq<u8>,
    r1: ThreeDRange,
    r2: ThreeDRange,
)
    requires
        crate::grouping::range_eqv(r1, r2),
    ensures
        included_seq(s, namespace, r1) == included_seq(s, namespace, r2),
    decreases s.len(),
{
    if s.len() > 0 {
        lemma_included_seq_range_eqv(s.drop_last(), namespace, r1, r2);
        crate::grouping::lemma_byte_range_eqv_same_members(
            r1.subspaces,
            r2.subspaces,
            s.last().entry.subspace_id.bytes@,
        );
        crate::grouping::lemma_byte_range_eqv_same_members(
            r1.paths,
            r2.paths,
            s.last().entry.path@,
        );
        assert(entry_in(s.last(), namespace, r1) == entry_in(s.last(), namespace, r2));
    }
}

/// What one ingestion does to the stored entries: a fresh slot is
/// appended; an occupied slot keeps whichever of the old and new entries
/// wins the (timestamp, digest, payload length) order.
pub open spec fn ingest_post(
    pre: Seq<AuthorisedEntry>,
    post: Seq<AuthorisedEntry>,
    ae: AuthorisedEntry,
) -> bool {
    match find_key(pre, ae.entry) {
        Option::None => {
            &&& post.len() == pre.len() + 1
            &&& forall|k: int| 0 <= k < pre.len() ==> post[k] == pre[k]
            &&& entry_eqv(post[pre.len() as int].entry, ae.entry)
        },
        Option::Some(j) => {
            if entry_newer(ae.entry, pre[j].entry) {
                &&& post.len() == pre.len()
                &&& forall|k: int| 0 <= k < pre.len() && k != j ==> post[k] == pre[k]
                &&& entry_eqv(post[j].entry, ae.entry)
            } else {
                post == pre
            }
        },
    }
}

/// The in-memory store: a vector of authorised entries with unique slots.
#[derive(Debug)]
pub struct Store {
    pub entries: Vec<AuthorisedEntry>,
}

impl Store {
    /// Every entry is authorised and no two entries share a slot.
    pub open spec fn wf(&self) -> bool {
        &&& forall|i: int| 0 <= i < self.entries@.len() ==> (#[trigger] self.entries@[i]).wf()
        &&& forall|i: int, j: int|
            0 <= i < j < self.entries@.len() ==> !entry_key_eq(
                (#[trigger] self.entries@[i]).entry,
                (#[trigger] self.entries@[j]).entry,
            )
    }

    /// An empty store.
    pub fn new() -> (r: Store)
        ensures
            r.entries@.len() == 0,
            r.wf(),
    {
        Store { entries: Vec::new() }
    }

    /// How many entries the store holds in all.
    pub fn len(&self) -> (r: usize)
        ensures
            r == self.entries@.len(),
    {
        self.entries.len()
    }

    /// A copy of the store with the same entries, slot for slot.
    pub fn snapshot(&self) -> (r: Store)
        requires
            self.wf(),
        ensures
            r.wf(),
            r.entries@.len() == self.entries@.len(),
            forall|i: int|
                0 <= i < self.entries@.len() ==> entry_eqv(
                    (#[trigger] r.entries@[i]).entry,
                    self.entries@[i].entry,
                ),
    {
        let n: usize = self.entries.len();
        let mut entries: Vec<AuthorisedEntry> = Vec::new();
        let mut i: usize = 0;
        while i < n
            invariant
                i <= n,
                n == self.entries@.len(),
                self.wf(),
                entries@.len() == i,
                forall|k: int|
                    0 <= k < i ==> entry_eqv(
                        (#[trigger] entries@[k]).entry,
                        self.entries@[k].entry,
                    ),
                forall|k: int| 0 <= k < i ==> (#[trigger] entries@[k]).wf(),
            decreases n - i,
        {
            entries.push(self.entries[i].clone());
            i = i + 1;
        }
        let r = Store { entries };
        proof {
            assert forall|i: int, j: int| 0 <= i < j < r.entries@.len() implies !entry_key_eq(
                (#[trigger] r.entries@[i]).entry,
                (#[trigger] r.entries@[j]).entry,
            ) by {
                assert(!entry_key_eq(self.entries@[i].entry, self.entries@[j].entry));
            }
        }
        r
    }

    /// Ingests one authorised entry. A fresh slot is appended; an occupied
    /// slot keeps whichever of the old and new entries wins the
    /// (timestamp, digest, payload length) order, so ingestion of an equal
    /// or losing entry changes nothing.
    pub fn ingest_entry(&mut self, ae: &AuthorisedEntry)
        requires
            ae.wf(),
            old(self).wf(),
        ensures
            final(self).wf(),
            ingest_post(old(self).entries@, final(self).entries@, *ae),
    {
        proof {
            lemma_find_key_props(self.entries@, ae.entry);
        }
        let n: usize = self.entries.len();
        let mut i: usize = 0;
        while i < n
            invariant
                i <= n,
                n == self.entries@.len(),
                *self == *old(self),
                ae.wf(),
                old(self).wf(),
                forall|j: int|
                    0 <= j < i ==> !entry_key_eq((#[trigger] self.entries@[j]).entry, ae.entry),
            decreases n - i,
        {
            if self.entries[i].entry.same_key(&ae.entry) {
                proof {
                    lemma_find_key_props(self.entries@, ae.entry);
                    assert(find_key(self.entries@, ae.entry) == Option::Some(i as int));
                }
                if ae.entry.is_newer_than(&self.entries[i].entry) {
                    self.entries.set(i, ae.clone());
                    proof {
                        assert forall|a: int, b: int|
                            0 <= a < b < self.entries@.len() implies !entry_key_eq(
                            (#[trigger] self.entries@[a]).entry,
                            (#[trigger] self.entries@[b]).entry,
                        ) by {
                            assert(!entry_key_eq(
                                old(self).entries@[a].entry,
                                old(self).entries@[b].entry,
                            ));
                        }
                    }
                }
                return ;
            }
            i = i + 1;
        }
        proof {
            lemma_find_key_props(self.entries@, ae.entry);
            if find_key(self.entries@, ae.entry) is Some {
                let k = find_key(self.entries@, ae.entry)->Some_0;
                assert(!entry_key_eq(self.entries@[k].entry, ae.entry));
            }
        }
        self.entries.push(ae.clone());
        proof {
            assert forall|a: int, b: int| 0 <= a < b < self.entries@.len() implies !entry_key_eq(
                (#[trigger] self.entries@[a]).entry,
                (#[trigger] self.entries@[b]).entry,
            ) by {
                if b < old(self).entries@.len() {
                    assert(!entry_key_eq(old(self).entries@[a].entry, old(self).entries@[b].entry));
                } else {
                    assert(!entry_key_eq(old(self).entries@[a].entry, ae.entry));
                }
            }
        }
    }

    /// How many entries lie in the namespace and range.
    pub fn count(&self, namespace: &NamespaceId, range: &ThreeDRange) -> (r: u64)
        ensures
            r == included_seq(self.entries@, namespace.bytes@, *range).len(),
    {
        let n: usize = self.entries.len();
        let mut cnt: u64 = 0;
        let mut i: usize = 0;
        while i < n
            invariant
                i <= n,
                n == self.entries@.len(),
                cnt <= i,
                cnt == included_seq(self.entries@.take(i as int), namespace.bytes@, *range).len(),
            decreases n - i,
        {
            let ae = &self.entries[i];
            proof {
                assert(self.entries@.take(i + 1).drop_last() =~= self.entries@.take(i as int));
                assert(self.entries@.take(i + 1).last() == self.entries@[i as int]);
            }
            if bytes_eq(&ae.entry.namespace_id.bytes, &namespace.bytes) && range.includes(
                &ae.entry.subspace_id,
                &ae.entry.path,
                ae.entry.timestamp,
            ) {
                cnt = cnt + 1;
            }
            i = i + 1;
        }
        proof {
            assert(self.entries@.take(n as int) =~= self.entries@);
        }
        cnt
    }

    /// The XOR of the fingerprints of the entries in the namespace and
    /// range; all-zero when there are none.
    pub fn fingerprint(&self, namespace: &NamespaceId, range: &ThreeDRange) -> (r: Fingerprint)
        requires
            self.wf(),
        ensures
            r.wf(),
            r.bytes@ == fp_of_seq(included_seq(self.entries@, namespace.bytes@, *range)),
    {
        let n: usize = self.entries.len();
        let mut acc = Fingerprint::empty();
        let mut i: usize = 0;
        while i < n
            invariant
                i <= n,
                n == self.entries@.len(),
                self.wf(),
                acc.wf(),
                acc.bytes@ == fp_of_seq(
                    included_seq(self.entries@.take(i as int), namespace.bytes@, *range),
                ),
            decreases n - i,
        {
            let ae = &self.entries[i];
            proof {
                assert(self.entries@.take(i + 1).drop_last() =~= self.entries@.take(i as int));
                assert(self.entries@.take(i + 1).last() == self.entries@[i as int]);
            }
            if bytes_eq(&ae.entry.namespace_id.bytes, &namespace.bytes) && range.includes(
                &ae.entry.subspace_id,
                &ae.entry.path,
                ae.entry.timestamp,
            ) {
                let part = Fingerprint::of_entry(&ae.entry);
                acc.combine(&part);
                proof {
                    let q = included_seq(
                        self.entries@.take(i + 1),
                        namespace.bytes@,
                        *range,
                    );
                    assert(q.drop_last() =~= included_seq(
                        self.entries@.take(i as int),
                        namespace.bytes@,
                        *range,
                    ));
                }
            }
            i = i + 1;
        }
        proof {
            assert(self.entries@.take(n as int) =~= self.entries@);
        }
        acc
    }

    /// Copies of the entries in the namespace and range, with their
    /// authorisation tokens, in store order.
    pub fn get_entries_with_authorisation(&self, namespace: &NamespaceId, range: &ThreeDRange)
        -> (r: Vec<AuthorisedEntry>)
        requires
            self.wf(),
        ensures
            ({
                let inc = included_seq(self.entries@, namespace.bytes@, *range);
                &&& r@.len() == inc.len()
                &&& forall|k: int|
                    0 <= k < inc.len() ==> entry_eqv((#[trigger] r@[k]).entry, inc[k].entry)
                &&& forall|k: int|
                    0 <= k < inc.len() ==> crate::meadowcap::cap_eqv(
                        (#[trigger] r@[k]).token.capability,
                        inc[k].token.capability,
                    )
                &&& forall|k: int|
                    0 <= k < inc.len() ==> (#[trigger] r@[k]).token.signature.bytes@
                        == inc[k].token.signature.bytes@
                &&& forall|k: int| 0 <= k < inc.len() ==> (#[trigger] r@[k]).wf()
                &&& forall|k: int|
                    0 <= k < inc.len() ==> entry_in(#[trigger] inc[k], namespace.bytes@, *range)
            }),
    {
        let n: usize = self.entries.len();
        let mut r: Vec<AuthorisedEntry> = Vec::new();
        let mut i: usize = 0;
        while i < n
            invariant
                i <= n,
                n == self.entries@.len(),
                self.wf(),
                ({
                    let inc = included_seq(
                        self.entries@.take(i as int),
                        namespace.bytes@,
                        *range,
                    );
                    &&& r@.len() == inc.len()
                    &&& forall|k: int|
                        0 <= k < inc.len() ==> entry_eqv((#[trigger] r@[k]).entry, inc[k].entry)
                    &&& forall|k: int|
                        0 <= k < inc.len() ==> crate::meadowcap::cap_eqv(
                            (#[trigger] r@[k]).token.capability,
                            inc[k].token.capability,
                        )
                    &&& forall|k: int|
                        0 <= k < inc.len() ==> (#[trigger] r@[k]).token.signature.bytes@
                            == inc[k].token.signature.bytes@
                    &&& forall|k: int| 0 <= k < inc.len() ==> (#[trigger] r@[k]).wf()
                    &&& forall|k: int|
                        0 <= k < inc.len() ==> entry_in(
                            #[trigger] inc[k],
                            namespace.bytes@,
                            *range,
                        )
                }),
            decreases n - i,
        {
            let ae = &self.entries[i];
            proof {
                assert(self.entries@.take(i + 1).drop_last() =~= self.entries@.take(i as int));
                assert(self.entries@.take(i + 1).last() == self.entries@[i as int]);
            }
            if bytes_eq(&ae.entry.namespace_id.bytes, &namespace.bytes) && range.includes(
                &ae.entry.subspace_id,
                &ae.entry.path,
                ae.entry.timestamp,
            ) {
                r.push(ae.clone());
            }
            i = i + 1;
        }
        proof {
            assert(self.entries@.take(n as int) =~= self.entries@);
        }
        r
    }

    /// Splits a mismatched range into at most two parts, each labelled with
    /// the action to take: announce the part's entries outright when it is
    /// small enough, otherwise compare by fingerprint. Each label is
    /// consistent with this store's contents of the part.
    pub fn split_range(
        &self,
        namespace: &NamespaceId,
        range: &ThreeDRange,
        config: &SyncConfig,
    ) -> (r: Vec<(ThreeDRange, SplitAction)>)
        requires
            self.wf(),
        ensures
            1 <= r@.len() <= 2,
            forall|k: int|
                0 <= k < r@.len() ==> match (#[trigger] r@[k]).1 {
                    SplitAction::SendEntries(c) => c == included_seq(
                        self.entries@,
                        namespace.bytes@,
                        r@[k].0,
                    ).len(),
                    SplitAction::SendFingerprint(fp) => fp.wf() && fp.bytes@ == fp_of_seq(
                        included_seq(self.entries@, namespace.bytes@, r@[k].0),
                    ),
                },
    {
        let total = self.count(namespace, range);
        let mut parts: Vec<(ThreeDRange, SplitAction)> = Vec::new();
        if total <= config.max_entries_per_announce || total < config.min_fingerprint_range {
            let part_range = range.clone();
            proof {
                lemma_included_seq_range_eqv(self.entries@, namespace.bytes@, part_range, *range);
            }
            parts.push((part_range, SplitAction::SendEntries(total)));
            return parts;
        }
        let included = self.get_entries_with_authorisation(namespace, range);
        match self.pick_split(&included, range) {
            Option::Some((left, right)) => {
                let left_action = self.action_for(namespace, &left, config);
                let right_action = self.action_for(namespace, &right, config);
                parts.push((left, left_action));
                parts.push((right, right_action));
                parts
            },
            Option::None => {
                let part_range = range.clone();
                proof {
                    lemma_included_seq_range_eqv(
                        self.entries@,
                        namespace.bytes@,
                        part_range,
                        *range,
                    );
                }
                parts.push((part_range, SplitAction::SendEntries(total)));
                parts
            },
        }
    }

    /// The action for one part: its count when small enough, else its
    /// fingerprint.
    fn action_for(&self, namespace: &NamespaceId, part: &ThreeDRange, config: &SyncConfig) -> (r:
        SplitAction)
        requires
            self.wf(),
        ensures
            match r {
                SplitAction::SendEntries(c) => c == included_seq(
                    self.entries@,
                    namespace.bytes@,
                    *part,
                ).len(),
                SplitAction::SendFingerprint(fp) => fp.wf() && fp.bytes@ == fp_of_seq(
                    included_seq(self.entries@, namespace.bytes@, *part),
                ),
            },
    {
        let c = self.count(namespace, part);
        if c <= config.max_entries_per_announce || c < config.min_fingerprint_range {
            SplitAction::SendEntries(c)
        } else {
            SplitAction::SendFingerprint(self.fingerprint(namespace, part))
        }
    }

    /// Chooses a split point from the included entries: the first axis
    /// (subspace, path, time) on which they differ is cut at its largest
    /// value, aiming to leave entries on both sides. The choice is a
    /// heuristic; callers rely only on the labels `split_range` attaches
    /// to the parts. `None` when no axis differs.
    fn pick_split(&self, included: &Vec<AuthorisedEntry>, range: &ThreeDRange) -> (r: Option<
        (ThreeDRange, ThreeDRange),
    >)
    {
        if included.len() < 2 {
            return Option::None;
        }
        let n: usize = included.len();
        let mut max_ss: usize = 0;
        let mut min_ss: usize = 0;
        let mut max_path: usize = 0;
        let mut min_path: usize = 0;
        let mut max_ts: usize = 0;
        let mut min_ts: usize = 0;
        let mut i: usize = 1;
        while i < n
            invariant
                1 <= i <= n,
                n == included@.len(),
                max_ss < i && min_ss < i && max_path < i && min_path < i && max_ts < i && min_ts
                    < i,
            decreases n - i,
        {
            if bytes_less(&included[max_ss].entry.subspace_id.bytes, &included[i].entry.subspace_id.bytes) {
                max_ss = i;
            }
            if bytes_less(&included[i].entry.subspace_id.bytes, &included[min_ss].entry.subspace_id.bytes) {
                min_ss = i;
            }
            if bytes_less(&included[max_path].entry.path, &included[i].entry.path) {
                max_path = i;
            }
            if bytes_less(&included[i].entry.path, &included[min_path].entry.path) {
                min_path = i;
            }
            if included[max_ts].entry.timestamp < included[i].entry.timestamp {
                max_ts = i;
            }
            if included[i].entry.timestamp < included[min_ts].entry.timestamp {
                min_ts = i;
            }
            i = i + 1;
        }
        if !bytes_eq(
            &included[min_ss].entry.subspace_id.bytes,
            &included[max_ss].entry.subspace_id.bytes,
        ) {
            let pivot = clone_bytes(&included[max_ss].entry.subspace_id.bytes);
            let left = ThreeDRange {
                subspaces: ByteRange {
                    start: clone_bytes(&range.subspaces.start),
                    end: RangeEnd::Closed(clone_bytes(&pivot)),
                },
                paths: range.paths.clone(),
                times: range.times.clone(),
            };
            let right = ThreeDRange {
                subspaces: ByteRange {
                    start: pivot,
                    end: match &range.subspaces.end {
                        RangeEnd::Open => RangeEnd::Open,
                        RangeEnd::Closed(e) => RangeEnd::Closed(clone_bytes(e)),
                    },
                },
                paths: range.paths.clone(),
                times: range.times.clone(),
            };
            return Option::Some((left, right));
        }
        if !bytes_eq(&included[min_path].entry.path, &included[max_path].entry.path) {
            let pivot = clone_bytes(&included[max_path].entry.path);
            let left = ThreeDRange {
                subspaces: range.subspaces.clone(),
                paths: ByteRange {
                    start: clone_bytes(&range.paths.start),
                    end: RangeEnd::Closed(clone_bytes(&pivot)),
                },
                times: range.times.clone(),
            };
            let right = ThreeDRange {
                subspaces: range.subspaces.clone(),
                paths: ByteRange {
                    start: pivot,
                    end: match &range.paths.end {
                        RangeEnd::Open => RangeEnd::Open,
                        RangeEnd::Closed(e) => RangeEnd::Closed(clone_bytes(e)),
                    },
                },
                times: range.times.clone(),
            };
            return Option::Some((left, right));
        }
        if included[min_ts].entry.timestamp != included[max_ts].entry.timestamp {
            let pivot = included[max_ts].entry.timestamp;
            let left = ThreeDRange {
                subspaces: range.subspaces.clone(),
                paths: range.paths.clone(),
                times: TimeRange { start: range.times.start, end: RangeEnd::Closed(pivot) },
            };
            let right = ThreeDRange {
                subspaces: range.subspaces.clone(),
                paths: range.paths.clone(),
                times: TimeRange {
                    start: pivot,
                    end: match range.times.end {
                        RangeEnd::Open => RangeEnd::Open,
                        RangeEnd::Closed(e) => RangeEnd::Closed(e),
                    },
                },
            };
            return Option::Some((left, right));
        }
        Option::None
    }
}

} // verus!
