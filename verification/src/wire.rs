//! Canonical wire-form serialization: names lower-cased, integers big
//! endian, records as owner, type, class, TTL, rdata length, rdata.

use vstd::prelude::*;
use crate::name::Name;
use crate::order::fold_byte_spec;
use crate::record::{record_wf, Record, RecordSpec};

verus! {

/// A 16-bit integer, big endian.
pub open spec fn be16(x: u16) -> Seq<u8> {
    seq![(x / 256) as u8, (x % 256) as u8]
}

/// A 32-bit integer, big endian.
pub open spec fn be32(x: u32) -> Seq<u8> {
    seq![
        (x / 0x1000000) as u8,
        ((x / 0x10000) % 256) as u8,
        ((x / 256) % 256) as u8,
        (x % 256) as u8,
    ]
}

/// A label in its canonical, lower-cased form.
pub open spec fn label_canon(l: Seq<u8>) -> Seq<u8> {
    Seq::new(l.len(), |i: int| fold_byte_spec(l[i]))
}

/// The canonical wire form of a name from label `i` on: each label behind
/// its length byte, closed by the root's zero byte.
pub open spec fn name_wire(labels: Seq<Seq<u8>>, i: int) -> Seq<u8>
    decreases labels.len() - i,
{
    if i >= labels.len() {
        seq![0u8]
    } else {
        seq![labels[i].len() as u8] + label_canon(labels[i]) + name_wire(labels, i + 1)
    }
}

/// The canonical wire form of a whole record.
pub open spec fn record_wire(r: RecordSpec) -> Seq<u8> {
    name_wire(r.owner, 0) + be16(r.rtype) + be16(r.class) + be32(r.ttl) + be16(
        r.rdata.len() as u16,
    ) + r.rdata
}

/// The canonical wire forms of the records in `[i, end)`, concatenated.
pub open spec fn records_wire(s: Seq<RecordSpec>, i: int, end: int) -> Seq<u8>
    decreases end - i,
{
    if i >= end {
        Seq::empty()
    } else {
        record_wire(s[i]) + records_wire(s, i + 1, end)
    }
}

/// Appends a 16-bit integer, big endian.
pub fn push_be16(out: &mut Vec<u8>, x: u16)
    ensures
        final(out)@ == old(out)@ + be16(x),
{
    out.push((x / 256) as u8);
    out.push((x % 256) as u8);
    proof {
        assert(out@ =~= old(out)@ + be16(x));
    }
}

/// Appends a 32-bit integer, big endian.
pub fn push_be32(out: &mut Vec<u8>, x: u32)
    ensures
        final(out)@ == old(out)@ + be32(x),
{
    out.push((x / 0x1000000) as u8);
    out.push(((x / 0x10000) % 256) as u8);
    out.push(((x / 256) % 256) as u8);
    out.push((x % 256) as u8);
    proof {
        assert(out@ =~= old(out)@ + be32(x));
    }
}

/// Appends a name in canonical wire form.
pub fn push_name(out: &mut Vec<u8>, n: &Name)
    requires
        n.wf(),
    ensures
        final(out)@ == old(out)@ + name_wire(n@, 0),
{
    let count = n.label_count();
    let mut i: usize = 0;
    while i < count
        invariant
            i <= count,
            count == n@.len(),
            n.wf(),
            out@ + name_wire(n@, i as int) == old(out)@ + name_wire(n@, 0),
        decreases count - i,
    {
        let label = n.label_at(i);
        let ghost before = out@;
        out.push(label.len() as u8);
        let mut k: usize = 0;
        while k < label.len()
            invariant
                k <= label@.len(),
                label@ == n@[i as int],
                out@ == before + seq![label@.len() as u8] + label_canon(label@).take(k as int),
            decreases label@.len() - k,
        {
            out.push(crate::order::fold_byte(label[k]));
            proof {
                assert(out@ =~= before + seq![label@.len() as u8] + label_canon(label@).take(
                    k + 1 as int,
                ));
            }
            k = k + 1;
        }
        proof {
            assert(label_canon(label@).take(label@.len() as int) =~= label_canon(label@));
            assert(out@ + name_wire(n@, i + 1 as int) =~= before + name_wire(n@, i as int));
        }
        i = i + 1;
    }
    let ghost prev = out@;
    out.push(0);
    proof {
        assert(name_wire(n@, count as int) =~= seq![0u8]);
        assert(out@ =~= prev + seq![0u8]);
    }
}

/// Appends a byte sequence.
pub fn push_bytes(out: &mut Vec<u8>, data: &Vec<u8>)
    ensures
        final(out)@ == old(out)@ + data@,
{
    let mut k: usize = 0;
    while k < data.len()
        invariant
            k <= data@.len(),
            out@ == old(out)@ + data@.take(k as int),
        decreases data@.len() - k,
    {
        out.push(data[k]);
        proof {
            assert(out@ =~= old(out)@ + data@.take(k + 1 as int));
        }
        k = k + 1;
    }
    proof {
        assert(old(out)@ + data@.take(data@.len() as int) =~= old(out)@ + data@);
    }
}

/// Appends a whole record in canonical wire form.
pub fn push_record(out: &mut Vec<u8>, rec: &Record)
    requires
        record_wf(rec@),
    ensures
        final(out)@ == old(out)@ + record_wire(rec@),
{
    push_name(out, &rec.owner);
    push_be16(out, rec.rtype);
    push_be16(out, rec.class);
    push_be32(out, rec.ttl);
    push_be16(out, rec.rdata.len() as u16);
    push_bytes(out, &rec.rdata);
    proof {
        assert(out@ =~= old(out)@ + record_wire(rec@));
    }
}

} // verus!
