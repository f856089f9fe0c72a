//! Signing: the zone-cut-aware traversal, the canonical signing input,
//! and RRSIG production.

use vstd::prelude::*;
use crate::name::{name_wf, rrsig_label_count_spec, Name};
use crate::order::name_ends_with;
use crate::record::{
    in_zone_spec, record_wf, FamilyName, FamilyNameSpec, Record, RecordSpec, RTYPE_DS,
    RTYPE_NSEC, RTYPE_RRSIG,
};
use crate::store::{views_of, SortedRecords};
use crate::views::{
    family_end, family_is_cut_spec, family_run_end, lemma_family_end, skip_pos, type_run_end,
};
use crate::wire::{be16, be32, name_wire, push_be16, push_be32, push_bytes, push_name, push_record,
    records_wire};

verus! {

/// A failure reported by the external signing capability.
#[derive(Debug)]
pub struct SigningError {
    pub message: String,
}

/// DNSKEY rdata as the signing capability exposes it.
#[derive(Debug)]
pub struct DnskeyRdata {
    pub flags: u16,
    pub protocol: u8,
    pub algorithm: u8,
    pub public_key: Vec<u8>,
}

/// DS rdata as the signing capability computes it.
#[derive(Debug)]
pub struct DsRdata {
    pub key_tag: u16,
    pub algorithm: u8,
    pub digest_type: u8,
    pub digest: Vec<u8>,
}

/// The external signing capability: software keys, hardware tokens, or
/// remote services implement it.  Its answers are taken as they come; any
/// failure is handed back unchanged.
pub trait SigningKey {
    /// The key's algorithm identifier.
    fn algorithm(&self) -> Result<u8, SigningError>;

    /// The key's numeric tag.
    fn key_tag(&self) -> Result<u16, SigningError>;

    /// Signs the given bytes, returning raw signature bytes.
    fn sign(&self, data: &Vec<u8>) -> Result<Vec<u8>, SigningError>;

    /// The published public-key rdata.
    fn dnskey(&self) -> Result<DnskeyRdata, SigningError>;

    /// The delegation-signer digest for the given owner.
    fn ds(&self, owner: &Name) -> Result<DsRdata, SigningError>;
}

/// A DNSKEY record produced for a family name.
#[derive(Debug)]
pub struct DnskeyRecord {
    pub owner: Name,
    pub class: u16,
    pub ttl: u32,
    pub data: DnskeyRdata,
}

/// A DS record produced for a family name.
#[derive(Debug)]
pub struct DsRecord {
    pub owner: Name,
    pub class: u16,
    pub ttl: u32,
    pub data: DsRdata,
}

impl FamilyName {
    /// A DNSKEY record at this family name, with the capability's key
    /// material; its failures are handed back unchanged.
    pub fn dnskey<K: SigningKey>(&self, ttl: u32, key: K) -> (r: Result<
        DnskeyRecord,
        SigningError,
    >)
        ensures
            r matches Ok(rec) ==> rec.owner@ == self@.owner && rec.class == self@.class
                && rec.ttl == ttl,
    {
        match key.dnskey() {
            Ok(data) => Ok(
                DnskeyRecord { owner: self.owner().clone(), class: self.class(), ttl, data },
            ),
            Err(e) => Err(e),
        }
    }

    /// A DS record at this family name, with the capability's digest for
    /// this owner; its failures are handed back unchanged.
    pub fn ds<K: SigningKey>(&self, ttl: u32, key: K) -> (r: Result<DsRecord, SigningError>)
        ensures
            r matches Ok(rec) ==> rec.owner@ == self@.owner && rec.class == self@.class
                && rec.ttl == ttl,
    {
        match key.ds(self.owner()) {
            Ok(data) => Ok(DsRecord { owner: self.owner().clone(), class: self.class(), ttl, data }),
            Err(e) => Err(e),
        }
    }
}

/// One family yielded by the zone-cut-aware traversal: its record range
/// and whether it is itself a zone cut.
pub struct YieldInfo {
    pub start: int,
    pub end: int,
    pub cut: bool,
}

/// The zone-cut-aware traversal, from position `i` with `cut` the owner of
/// the nearest active delegation point.  A family out of zone ends the
/// walk; one below the active cut is passed over; every other family is
/// yielded, and becomes the active cut exactly when it is one.
pub open spec fn walk(
    s: Seq<RecordSpec>,
    ap: FamilyNameSpec,
    i: int,
    cut: Option<Seq<Seq<u8>>>,
) -> Seq<YieldInfo>
    decreases s.len() - i,
    when 0 <= i
    via walk_decreases
{
    if i >= s.len() {
        Seq::empty()
    } else if !in_zone_spec(s[i], ap) {
        Seq::empty()
    } else {
        let end = family_end(s, s[i], i + 1);
        if cut is Some && name_ends_with(s[i].owner, cut->0) {
            walk(s, ap, end, cut)
        } else {
            let isc = family_is_cut_spec(s, i, end, ap);
            let ncut: Option<Seq<Seq<u8>>> = if isc {
                Some(s[i].owner)
            } else {
                None
            };
            Seq::empty().push(YieldInfo { start: i, end, cut: isc }) + walk(s, ap, end, ncut)
        }
    }
}

#[via_fn]
proof fn walk_decreases(s: Seq<RecordSpec>, ap: FamilyNameSpec, i: int, cut: Option<Seq<Seq<u8>>>) {
    if 0 <= i < s.len() {
        lemma_family_end(s, s[i], i + 1);
    }
}

/// Every yielded family is a run within bounds, and the runs advance.
pub proof fn lemma_walk_bounds(
    s: Seq<RecordSpec>,
    ap: FamilyNameSpec,
    i: int,
    cut: Option<Seq<Seq<u8>>>,
)
    requires
        0 <= i,
    ensures
        forall|k: int|
            0 <= k < walk(s, ap, i, cut).len() ==> {
                let y = #[trigger] walk(s, ap, i, cut)[k];
                &&& i <= y.start < y.end <= s.len()
                &&& y.end == family_end(s, s[y.start], y.start + 1)
                &&& y.cut == family_is_cut_spec(s, y.start, y.end, ap)
            },
    decreases s.len() - i,
{
    if i >= s.len() {
        assert(walk(s, ap, i, cut).len() == 0);
    } else if !in_zone_spec(s[i], ap) {
        assert(walk(s, ap, i, cut).len() == 0);
    } else {
        lemma_family_end(s, s[i], i + 1);
        let end = family_end(s, s[i], i + 1);
        if cut is Some && name_ends_with(s[i].owner, cut->0) {
            lemma_walk_bounds(s, ap, end, cut);
            assert(walk(s, ap, i, cut) == walk(s, ap, end, cut));
        } else {
            let isc = family_is_cut_spec(s, i, end, ap);
            let ncut: Option<Seq<Seq<u8>>> = if isc {
                Some(s[i].owner)
            } else {
                None
            };
            lemma_walk_bounds(s, ap, end, ncut);
            let w = walk(s, ap, i, cut);
            let rest = walk(s, ap, end, ncut);
            assert forall|k: int| 0 <= k < w.len() implies {
                let y = #[trigger] w[k];
                &&& i <= y.start < y.end <= s.len()
                &&& y.end == family_end(s, s[y.start], y.start + 1)
                &&& y.cut == family_is_cut_spec(s, y.start, y.end, ap)
            } by {
                if k > 0 {
                    assert(w[k] == rest[k - 1]);
                }
            }
        }
    }
}

/// An index range yielded by the traversal, in executable form.
#[derive(Clone, Copy)]
pub struct FamilyRange {
    pub start: usize,
    pub end: usize,
    pub cut: bool,
}

impl View for FamilyRange {
    type V = YieldInfo;

    open spec fn view(&self) -> YieldInfo {
        YieldInfo { start: self.start as int, end: self.end as int, cut: self.cut }
    }
}

/// The ranges of a range vector, as their mathematical contents.
pub open spec fn ranges_view(v: Seq<FamilyRange>) -> Seq<YieldInfo> {
    Seq::new(v.len(), |i: int| v[i]@)
}

/// The owner name the active cut stands for: the first record of the cut
/// family.
pub open spec fn cut_name(s: Seq<RecordSpec>, c: Option<usize>) -> Option<Seq<Seq<u8>>> {
    match c {
        Some(ci) => Some(s[ci as int].owner),
        None => None,
    }
}

/// Whether the records in `[lo, hi)` include an NS record.
fn has_ns(records: &Vec<Record>, lo: usize, hi: usize) -> (r: bool)
    requires
        lo <= hi <= records@.len(),
    ensures
        r == exists|k: int|
            lo <= k < hi && (#[trigger] views_of(records@)[k]).rtype == crate::record::RTYPE_NS,
{
    let ghost s = views_of(records@);
    let mut k: usize = lo;
    while k < hi
        invariant
            lo <= k <= hi <= s.len(),
            s == views_of(records@),
            s.len() == records@.len(),
            forall|m: int| lo <= m < k ==> (#[trigger] s[m]).rtype != crate::record::RTYPE_NS,
        decreases hi - k,
    {
        proof {
            assert(s[k as int] == records@[k as int]@);
        }
        if records[k].rtype == crate::record::RTYPE_NS {
            return true;
        }
        k = k + 1;
    }
    false
}

/// Runs the zone-cut-aware traversal from `start`, collecting the yielded
/// family ranges.
pub(crate) fn traverse(records: &Vec<Record>, apex: &FamilyName, start: usize) -> (r: Vec<
    FamilyRange,
>)
    requires
        start <= records@.len(),
    ensures
        ranges_view(r@) == walk(views_of(records@), apex@, start as int, None::<Seq<Seq<u8>>>),
        forall|k: int|
            0 <= k < r@.len() ==> (#[trigger] r@[k]).start < r@[k].end && r@[k].end
                <= records@.len(),
{
    let ghost s = views_of(records@);
    let n = records.len();
    let mut out: Vec<FamilyRange> = Vec::new();
    let mut i: usize = start;
    let mut cutidx: Option<usize> = None;
    loop
        invariant
            start <= i <= n,
            s == views_of(records@),
            s.len() == n == records@.len(),
            match cutidx {
                Some(ci) => ci < n,
                None => true,
            },
            walk(s, apex@, start as int, None::<Seq<Seq<u8>>>) == ranges_view(out@) + walk(
                s,
                apex@,
                i as int,
                cut_name(s, cutidx),
            ),
            forall|k: int|
                0 <= k < out@.len() ==> (#[trigger] out@[k]).start < out@[k].end && out@[k].end
                    <= n,
        ensures
            walk(s, apex@, start as int, None::<Seq<Seq<u8>>>) == ranges_view(out@),
            forall|k: int|
                0 <= k < out@.len() ==> (#[trigger] out@[k]).start < out@[k].end && out@[k].end
                    <= n,
        decreases n - i,
    {
        if i >= n {
            proof {
                assert(walk(s, apex@, i as int, cut_name(s, cutidx)) =~= Seq::<YieldInfo>::empty());
                assert(ranges_view(out@) + Seq::<YieldInfo>::empty() =~= ranges_view(out@));
            }
            break;
        }
        proof {
            assert(s[i as int] == records@[i as int]@);
        }
        if !(records[i].owner.ends_with(apex.owner()) && records[i].class == apex.class()) {
            proof {
                assert(!in_zone_spec(s[i as int], apex@));
                assert(walk(s, apex@, i as int, cut_name(s, cutidx)) =~= Seq::<
                    YieldInfo,
                >::empty());
                assert(ranges_view(out@) + Seq::<YieldInfo>::empty() =~= ranges_view(out@));
            }
            break;
        }
        let end = family_run_end(records, i);
        let mut below_cut = false;
        match cutidx {
            Some(ci) => {
                proof {
                    assert(s[ci as int] == records@[ci as int]@);
                }
                if records[i].owner.ends_with(&records[ci].owner) {
                    below_cut = true;
                }
            },
            None => {},
        }
        if below_cut {
            i = end;
            continue;
        }
        let isc = !apex.matches_record(&records[i]) && has_ns(records, i, end);
        proof {
            assert(isc == family_is_cut_spec(s, i as int, end as int, apex@));
        }
        let ghost out_before = out@;
        out.push(FamilyRange { start: i, end, cut: isc });
        let ghost ncut: Option<Seq<Seq<u8>>> = if isc {
            Some(s[i as int].owner)
        } else {
            None
        };
        proof {
            assert(ranges_view(out@) =~= ranges_view(out_before) + Seq::empty().push(
                YieldInfo { start: i as int, end: end as int, cut: isc },
            ));
            assert(walk(s, apex@, i as int, cut_name(s, cutidx)) == Seq::empty().push(
                YieldInfo { start: i as int, end: end as int, cut: isc },
            ) + walk(s, apex@, end as int, ncut));
            assert(ranges_view(out_before) + walk(s, apex@, i as int, cut_name(s, cutidx)) =~= (
            ranges_view(out_before) + Seq::empty().push(
                YieldInfo { start: i as int, end: end as int, cut: isc },
            )) + walk(s, apex@, end as int, ncut));
        }
        cutidx = if isc {
            Some(i)
        } else {
            None
        };
        i = end;
    }
    out
}

/// One eligible rrset: the index of its family's first record and the
/// rrset's own range.
pub struct EligSpec {
    pub fam: int,
    pub start: int,
    pub end: int,
}

pub(crate) proof fn lemma_type_run_lb(s: Seq<RecordSpec>, end: int, t: u16, j: int)
    ensures
        type_run_end(s, end, t, j) >= j,
        j <= end ==> type_run_end(s, end, t, j) <= end,
    decreases end - j,
{
    if j < end && j < s.len() && s[j].rtype == t {
        lemma_type_run_lb(s, end, t, j + 1);
    }
}

/// Which rrsets are signed: at a zone cut only DS and NSEC; elsewhere
/// everything but existing RRSIGs.
pub open spec fn rrset_keep(t: u16, cut: bool) -> bool {
    if cut {
        t == RTYPE_DS || t == RTYPE_NSEC
    } else {
        t != RTYPE_RRSIG
    }
}

/// The eligible rrsets of one yielded family, scanning its type runs from
/// `j`.
pub open spec fn eligible_in_family(
    s: Seq<RecordSpec>,
    fam: int,
    j: int,
    end: int,
    cut: bool,
) -> Seq<EligSpec>
    decreases end - j,
    via eligible_in_family_decreases
{
    if j >= end {
        Seq::empty()
    } else {
        let re = type_run_end(s, end, s[j].rtype, j + 1);
        if rrset_keep(s[j].rtype, cut) {
            Seq::empty().push(EligSpec { fam, start: j, end: re }) + eligible_in_family(
                s,
                fam,
                re,
                end,
                cut,
            )
        } else {
            eligible_in_family(s, fam, re, end, cut)
        }
    }
}

#[via_fn]
proof fn eligible_in_family_decreases(s: Seq<RecordSpec>, fam: int, j: int, end: int, cut: bool) {
    if j < end {
        lemma_type_run_lb(s, end, s[j].rtype, j + 1);
    }
}

/// The eligible rrsets of all yielded families from the `k`-th on.
pub open spec fn eligible_list(s: Seq<RecordSpec>, ys: Seq<YieldInfo>, k: int) -> Seq<EligSpec>
    decreases ys.len() - k,
{
    if k < 0 || k >= ys.len() {
        Seq::empty()
    } else {
        eligible_in_family(s, ys[k].start, ys[k].start, ys[k].end, ys[k].cut) + eligible_list(
            s,
            ys,
            k + 1,
        )
    }
}

/// Everything a signing run covers: the eligible rrsets of the zone-cut
/// aware traversal, started at the apex.
pub open spec fn eligible_of(s: Seq<RecordSpec>, ap: FamilyNameSpec) -> Seq<EligSpec> {
    eligible_list(s, walk(s, ap, skip_pos(s, ap, 0), None), 0)
}

/// The mathematical content of RRSIG rdata.
pub struct RrsigDataSpec {
    pub type_covered: u16,
    pub algorithm: u8,
    pub labels: u8,
    pub original_ttl: u32,
    pub expiration: u32,
    pub inception: u32,
    pub key_tag: u16,
    pub signer_name: Seq<Seq<u8>>,
    pub signature: Seq<u8>,
}

/// RRSIG rdata: the covered type, signing parameters, signer name, and
/// the raw signature bytes.
#[derive(Debug)]
pub struct RrsigData {
    pub type_covered: u16,
    pub algorithm: u8,
    pub labels: u8,
    pub original_ttl: u32,
    pub expiration: u32,
    pub inception: u32,
    pub key_tag: u16,
    pub signer_name: Name,
    pub signature: Vec<u8>,
}

impl View for RrsigData {
    type V = RrsigDataSpec;

    open spec fn view(&self) -> RrsigDataSpec {
        RrsigDataSpec {
            type_covered: self.type_covered,
            algorithm: self.algorithm,
            labels: self.labels,
            original_ttl: self.original_ttl,
            expiration: self.expiration,
            inception: self.inception,
            key_tag: self.key_tag,
            signer_name: self.signer_name@,
            signature: self.signature@,
        }
    }
}

/// The mathematical content of an RRSIG record.
pub struct RrsigRecordSpec {
    pub owner: Seq<Seq<u8>>,
    pub class: u16,
    pub ttl: u32,
    pub data: RrsigDataSpec,
}

/// A produced RRSIG record.
#[derive(Debug)]
pub struct RrsigRecord {
    pub owner: Name,
    pub class: u16,
    pub ttl: u32,
    pub data: RrsigData,
}

impl View for RrsigRecord {
    type V = RrsigRecordSpec;

    open spec fn view(&self) -> RrsigRecordSpec {
        RrsigRecordSpec { owner: self.owner@, class: self.class, ttl: self.ttl, data: self.data@ }
    }
}

/// What a signing run promises of the `k`-th RRSIG produced for the
/// eligible rrset `e`: every field but those the capability supplies.
pub open spec fn rrsig_matches(
    s: Seq<RecordSpec>,
    e: EligSpec,
    ap: FamilyNameSpec,
    expiration: u32,
    inception: u32,
    rec: RrsigRecordSpec,
) -> bool {
    &&& rec.owner == s[e.fam].owner
    &&& rec.class == s[e.fam].class
    &&& rec.ttl == s[e.start].ttl
    &&& rec.data.type_covered == s[e.start].rtype
    &&& rec.data.labels as int == rrsig_label_count_spec(s[e.fam].owner)
    &&& rec.data.original_ttl == s[e.start].ttl
    &&& rec.data.expiration == expiration
    &&& rec.data.inception == inception
    &&& rec.data.signer_name == ap.owner
}

/// The RRSIG records of a vector, as their mathematical contents.
pub open spec fn rrsigs_view(v: Seq<RrsigRecord>) -> Seq<RrsigRecordSpec> {
    Seq::new(v.len(), |i: int| v[i]@)
}

/// The canonical form of RRSIG rdata.
pub open spec fn rrsig_rdata_wire(d: RrsigDataSpec) -> Seq<u8> {
    be16(d.type_covered) + seq![d.algorithm] + seq![d.labels] + be32(d.original_ttl) + be32(
        d.expiration,
    ) + be32(d.inception) + be16(d.key_tag) + name_wire(d.signer_name, 0) + d.signature
}

/// RRSIG rdata serialized to its canonical form.
pub fn rrsig_rdata_canonical(d: &RrsigData) -> (r: Vec<u8>)
    requires
        name_wf(d.signer_name@),
    ensures
        r@ == rrsig_rdata_wire(d@),
{
    let mut buf: Vec<u8> = Vec::new();
    push_be16(&mut buf, d.type_covered);
    buf.push(d.algorithm);
    buf.push(d.labels);
    push_be32(&mut buf, d.original_ttl);
    push_be32(&mut buf, d.expiration);
    push_be32(&mut buf, d.inception);
    push_be16(&mut buf, d.key_tag);
    push_name(&mut buf, &d.signer_name);
    push_bytes(&mut buf, &d.signature);
    proof {
        assert(buf@ =~= rrsig_rdata_wire(d@));
    }
    buf
}

/// The canonical signing input for one rrset: the RRSIG rdata up to the
/// signer name, followed by the canonical form of every member record.
pub open spec fn signing_input_spec(
    s: Seq<RecordSpec>,
    owner: Seq<Seq<u8>>,
    start: int,
    end: int,
    ap_owner: Seq<Seq<u8>>,
    alg: u8,
    tag: u16,
    expiration: u32,
    inception: u32,
) -> Seq<u8> {
    be16(s[start].rtype) + seq![alg] + seq![(rrsig_label_count_spec(owner) as u8)] + be32(
        s[start].ttl,
    ) + be32(expiration) + be32(inception) + be16(tag) + name_wire(ap_owner, 0) + records_wire(
        s,
        start,
        end,
    )
}

/// Builds the canonical signing input for the rrset `[start, end)` of the
/// family whose first record carries `owner`.
pub fn rrsig_signing_input(
    records: &Vec<Record>,
    start: usize,
    end: usize,
    owner: &Name,
    apex_owner: &Name,
    algorithm: u8,
    key_tag: u16,
    expiration: u32,
    inception: u32,
) -> (r: Vec<u8>)
    requires
        start < end <= records@.len(),
        owner.wf(),
        apex_owner.wf(),
        forall|k: int| start <= k < end ==> record_wf(#[trigger] views_of(records@)[k]),
    ensures
        r@ == signing_input_spec(
            views_of(records@),
            owner@,
            start as int,
            end as int,
            apex_owner@,
            algorithm,
            key_tag,
            expiration,
            inception,
        ),
{
    let ghost s = views_of(records@);
    proof {
        assert(s[start as int] == records@[start as int]@);
    }
    let mut buf: Vec<u8> = Vec::new();
    push_be16(&mut buf, records[start].rtype);
    buf.push(algorithm);
    buf.push(owner.rrsig_label_count());
    push_be32(&mut buf, records[start].ttl);
    push_be32(&mut buf, expiration);
    push_be32(&mut buf, inception);
    push_be16(&mut buf, key_tag);
    push_name(&mut buf, apex_owner);
    let ghost prefix = buf@;
    let mut i: usize = start;
    while i < end
        invariant
            start <= i <= end <= s.len(),
            s == views_of(records@),
            s.len() == records@.len(),
            forall|k: int| start <= k < end ==> record_wf(#[trigger] s[k]),
            buf@ + records_wire(s, i as int, end as int) == prefix + records_wire(
                s,
                start as int,
                end as int,
            ),
        decreases end - i,
    {
        proof {
            assert(s[i as int] == records@[i as int]@);
        }
        let ghost before = buf@;
        push_record(&mut buf, &records[i]);
        proof {
            assert(buf@ + records_wire(s, i + 1 as int, end as int) =~= before + records_wire(
                s,
                i as int,
                end as int,
            ));
        }
        i = i + 1;
    }
    proof {
        assert(records_wire(s, end as int, end as int) =~= Seq::<u8>::empty());
        assert(buf@ + Seq::<u8>::empty() =~= buf@);
        assert(buf@ =~= signing_input_spec(
            s,
            owner@,
            start as int,
            end as int,
            apex_owner@,
            algorithm,
            key_tag,
            expiration,
            inception,
        ));
    }
    buf
}

/// Computes `type_run_end` within `[j, end)`.
pub(crate) fn type_run_exec(records: &Vec<Record>, j: usize, end: usize) -> (r: usize)
    requires
        j < end <= records@.len(),
    ensures
        r as int == type_run_end(
            views_of(records@),
            end as int,
            views_of(records@)[j as int].rtype,
            j as int + 1,
        ),
        j < r <= end,
{
    let ghost s = views_of(records@);
    let ghost t = s[j as int].rtype;
    proof {
        assert(s[j as int] == records@[j as int]@);
    }
    let mut m: usize = j + 1;
    loop
        invariant
            j < m <= end <= s.len(),
            s == views_of(records@),
            s.len() == records@.len(),
            t == s[j as int].rtype,
            t == records@[j as int]@.rtype,
            type_run_end(s, end as int, t, j as int + 1) == type_run_end(
                s,
                end as int,
                t,
                m as int,
            ),
        ensures
            j < m <= end,
            type_run_end(s, end as int, t, j as int + 1) == m as int,
        decreases end - m,
    {
        if m >= end {
            break;
        }
        proof {
            assert(s[m as int] == records@[m as int]@);
        }
        if records[m].rtype != records[j].rtype {
            break;
        }
        m = m + 1;
    }
    m
}


proof fn lemma_eligible_in_family_keep(s: Seq<RecordSpec>, fam: int, j: int, end: int, cut: bool)
    ensures
        forall|k: int|
            0 <= k < eligible_in_family(s, fam, j, end, cut).len() ==> {
                let e = #[trigger] eligible_in_family(s, fam, j, end, cut)[k];
                e.fam == fam && rrset_keep(s[e.start].rtype, cut)
            },
    decreases end - j,
{
    if j < end {
        let re = type_run_end(s, end, s[j].rtype, j + 1);
        lemma_type_run_lb(s, end, s[j].rtype, j + 1);
        lemma_eligible_in_family_keep(s, fam, re, end, cut);
        let w = eligible_in_family(s, fam, j, end, cut);
        let rest = eligible_in_family(s, fam, re, end, cut);
        if rrset_keep(s[j].rtype, cut) {
            assert forall|k: int| 0 <= k < w.len() implies {
                let e = #[trigger] w[k];
                e.fam == fam && rrset_keep(s[e.start].rtype, cut)
            } by {
                if k > 0 {
                    assert(w[k] == rest[k - 1]);
                }
            }
        }
    }
}

proof fn lemma_eligible_list_keep(s: Seq<RecordSpec>, ap: FamilyNameSpec, ys: Seq<YieldInfo>, k: int)
    requires
        0 <= k,
        forall|m: int|
            0 <= m < ys.len() ==> {
                let y = #[trigger] ys[m];
                y.end == family_end(s, s[y.start], y.start + 1) && y.cut == family_is_cut_spec(
                    s,
                    y.start,
                    y.end,
                    ap,
                )
            },
    ensures
        forall|w: int|
            0 <= w < eligible_list(s, ys, k).len() ==> {
                let e = #[trigger] eligible_list(s, ys, k)[w];
                rrset_keep(
                    s[e.start].rtype,
                    family_is_cut_spec(s, e.fam, family_end(s, s[e.fam], e.fam + 1), ap),
                )
            },
    decreases ys.len() - k,
{
    if k < ys.len() {
        let y = ys[k];
        let fl = eligible_in_family(s, y.start, y.start, y.end, y.cut);
        let rest = eligible_list(s, ys, k + 1);
        lemma_eligible_in_family_keep(s, y.start, y.start, y.end, y.cut);
        lemma_eligible_list_keep(s, ap, ys, k + 1);
        let whole = eligible_list(s, ys, k);
        assert forall|w: int| 0 <= w < whole.len() implies {
            let e = #[trigger] whole[w];
            rrset_keep(
                s[e.start].rtype,
                family_is_cut_spec(s, e.fam, family_end(s, s[e.fam], e.fam + 1), ap),
            )
        } by {
            if w < fl.len() {
                assert(whole[w] == fl[w]);
                assert(fl[w].fam == y.start && rrset_keep(s[fl[w].start].rtype, y.cut));
            } else {
                assert(whole[w] == rest[w - fl.len()]);
            }
        }
    }
}

/// Zone-cut exclusion: a signing run covers no rrset of the RRSIG type,
/// and at a family that is itself a zone cut it covers only DS and NSEC
/// rrsets.
pub proof fn lemma_eligible_exclusion(s: Seq<RecordSpec>, ap: FamilyNameSpec)
    ensures
        forall|k: int|
            0 <= k < eligible_of(s, ap).len() ==> {
                let e = #[trigger] eligible_of(s, ap)[k];
                &&& s[e.start].rtype != RTYPE_RRSIG
                &&& family_is_cut_spec(s, e.fam, family_end(s, s[e.fam], e.fam + 1), ap) ==> (
                s[e.start].rtype == RTYPE_DS || s[e.start].rtype == RTYPE_NSEC)
            },
{
    let start = skip_pos(s, ap, 0);
    crate::views::lemma_skip_pos(s, ap, 0);
    let ys = walk(s, ap, start, None::<Seq<Seq<u8>>>);
    lemma_walk_bounds(s, ap, start, None::<Seq<Seq<u8>>>);
    lemma_eligible_list_keep(s, ap, ys, 0);
}


impl SortedRecords {
    /// Walks the zone from the apex, builds the canonical signing input of
    /// every eligible rrset, asks the capability to sign it, and collects
    /// the RRSIG records in traversal order.  The first capability failure
    /// aborts the run with no partial output.
    pub fn sign<K: SigningKey>(
        &self,
        apex: &FamilyName,
        expiration: u32,
        inception: u32,
        key: K,
    ) -> (r: Result<Vec<RrsigRecord>, SigningError>)
        requires
            self.wf(),
            name_wf(apex@.owner),
        ensures
            r matches Ok(v) ==> ({
                let el = eligible_of(self@, apex@);
                &&& v@.len() == el.len()
                &&& forall|k: int|
                    0 <= k < el.len() ==> rrsig_matches(
                        self@,
                        #[trigger] el[k],
                        apex@,
                        expiration,
                        inception,
                        v@[k]@,
                    )
            }),
            eligible_of(self@, apex@).len() == 0 ==> r is Ok,
    {
        let mut it = self.families();
        let recs = it.records;
        let ghost s = self@;
        it.skip_before(apex);
        let start = it.pos;
        let list = traverse(recs, apex, start);
        let ghost ys = ranges_view(list@);
        let ghost el = eligible_of(s, apex@);
        proof {
            assert(el == eligible_list(s, ys, 0));
        }
        let mut res: Vec<RrsigRecord> = Vec::new();
        let mut fi: usize = 0;
        while fi < list.len()
            invariant
                fi <= list@.len(),
                s == views_of(recs@),
                s == self@,
                self.wf(),
                name_wf(apex@.owner),
                ys == ranges_view(list@),
                el == eligible_of(s, apex@),
                forall|k: int|
                    0 <= k < list@.len() ==> (#[trigger] list@[k]).start < list@[k].end
                        && list@[k].end <= s.len(),
                eligible_list(s, ys, fi as int) == el.skip(res@.len() as int),
                res@.len() <= el.len(),
                forall|k: int|
                    0 <= k < res@.len() ==> rrsig_matches(
                        s,
                        el[k],
                        apex@,
                        expiration,
                        inception,
                        (#[trigger] res@[k])@,
                    ),
            decreases list@.len() - fi,
        {
            let fam = list[fi].start;
            let fend = list[fi].end;
            let cut = list[fi].cut;
            proof {
                assert(ys[fi as int] == list@[fi as int]@);
                assert(eligible_list(s, ys, fi as int) == eligible_in_family(
                    s,
                    fam as int,
                    fam as int,
                    fend as int,
                    cut,
                ) + eligible_list(s, ys, fi as int + 1));
            }
            let mut j: usize = fam;
            while j < fend
                invariant
                    fam <= j <= fend,
                    fam < fend <= s.len(),
                    s == views_of(recs@),
                    s == self@,
                    self.wf(),
                    name_wf(apex@.owner),
                    el == eligible_of(s, apex@),
                    eligible_in_family(s, fam as int, j as int, fend as int, cut) + eligible_list(
                        s,
                        ys,
                        fi as int + 1,
                    ) == el.skip(res@.len() as int),
                    res@.len() <= el.len(),
                    forall|k: int|
                        0 <= k < res@.len() ==> rrsig_matches(
                            s,
                            el[k],
                            apex@,
                            expiration,
                            inception,
                            (#[trigger] res@[k])@,
                        ),
                decreases fend - j,
            {
                let re = type_run_exec(recs, j, fend);
                proof {
                    assert(s[j as int] == recs@[j as int]@);
                    assert(s[fam as int] == recs@[fam as int]@);
                }
                let keep = if cut {
                    recs[j].rtype == RTYPE_DS || recs[j].rtype == RTYPE_NSEC
                } else {
                    recs[j].rtype != RTYPE_RRSIG
                };
                let ghost head = EligSpec { fam: fam as int, start: j as int, end: re as int };
                let ghost tail = eligible_in_family(s, fam as int, re as int, fend as int, cut)
                    + eligible_list(s, ys, fi as int + 1);
                if keep {
                    proof {
                        let m = res@.len() as int;
                        assert(eligible_in_family(s, fam as int, j as int, fend as int, cut)
                            == Seq::empty().push(head) + eligible_in_family(
                            s,
                            fam as int,
                            re as int,
                            fend as int,
                            cut,
                        ));
                        assert(el.skip(m) =~= Seq::empty().push(head) + tail);
                        assert(el.skip(m).len() > 0);
                        assert(el.len() > 0);
                        assert(el.skip(m)[0] == el[m]);
                        assert(el[m] == head);
                        assert forall|t: int| 0 <= t < tail.len() implies tail[t] == el[m + 1
                            + t] by {
                            assert(tail[t] == (Seq::empty().push(head) + tail)[t + 1]);
                            assert((Seq::empty().push(head) + tail)[t + 1] == el.skip(m)[t + 1]);
                            assert(el.skip(m)[t + 1] == el[m + 1 + t]);
                        }
                        assert(el.skip(m + 1) =~= tail);
                    }
                    let alg = match key.algorithm() {
                        Ok(a) => a,
                        Err(e) => {
                            return Err(e);
                        },
                    };
                    let tag = match key.key_tag() {
                        Ok(t) => t,
                        Err(e) => {
                            return Err(e);
                        },
                    };
                    let buf = rrsig_signing_input(
                        recs,
                        j,
                        re,
                        &recs[fam].owner,
                        apex.owner(),
                        alg,
                        tag,
                        expiration,
                        inception,
                    );
                    let sig = match key.sign(&buf) {
                        Ok(sg) => sg,
                        Err(e) => {
                            return Err(e);
                        },
                    };
                    let lc = recs[fam].owner.rrsig_label_count();
                    let rec = RrsigRecord {
                        owner: recs[fam].owner.clone(),
                        class: recs[fam].class,
                        ttl: recs[j].ttl,
                        data: RrsigData {
                            type_covered: recs[j].rtype,
                            algorithm: alg,
                            labels: lc,
                            original_ttl: recs[j].ttl,
                            expiration,
                            inception,
                            key_tag: tag,
                            signer_name: apex.owner().clone(),
                            signature: sig,
                        },
                    };
                    proof {
                        let m = res@.len() as int;
                        assert(rrsig_matches(s, el[m], apex@, expiration, inception, rec@));
                    }
                    res.push(rec);
                } else {
                    proof {
                        assert(eligible_in_family(s, fam as int, j as int, fend as int, cut)
                            == eligible_in_family(s, fam as int, re as int, fend as int, cut));
                    }
                }
                j = re;
            }
            proof {
                assert(eligible_in_family(s, fam as int, fend as int, fend as int, cut) =~= Seq::<
                    EligSpec,
                >::empty());
                assert(Seq::<EligSpec>::empty() + eligible_list(s, ys, fi as int + 1)
                    =~= eligible_list(s, ys, fi as int + 1));
            }
            fi = fi + 1;
        }
        proof {
            assert(eligible_list(s, ys, list@.len() as int) =~= Seq::<EligSpec>::empty());
            assert(el.skip(res@.len() as int).len() == 0);
        }
        Ok(res)
    }
}


} // verus!
