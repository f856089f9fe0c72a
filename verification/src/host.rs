//! The result of a host-address lookup: the answers to the two address
//! queries, and iterators over the addresses they carry.

use vstd::prelude::*;
use crate::name::Name;
use crate::order::name_eq_spec;

verus! {

/// A failure reported by the resolver or its transport.
#[derive(Debug)]
pub struct LookupError {
    pub message: String,
}

/// An address returned by a lookup.
#[derive(Clone, Copy, PartialEq, Eq, Structural, Debug)]
pub enum HostAddr {
    V4(u32),
    V6(u128),
}

/// A socket address: an address and a port.
#[derive(Clone, Copy, PartialEq, Eq, Structural, Debug)]
pub struct HostSocketAddr {
    pub addr: HostAddr,
    pub port: u16,
}

/// The mathematical content of an address record.
pub struct AddrRecordSpec {
    pub owner: Seq<Seq<u8>>,
    pub addr: HostAddr,
}

/// One address record of an answer: its owner name and its address.
#[derive(Debug)]
pub struct AddrRecord {
    pub owner: Name,
    pub addr: HostAddr,
}

impl View for AddrRecord {
    type V = AddrRecordSpec;

    open spec fn view(&self) -> AddrRecordSpec {
        AddrRecordSpec { owner: self.owner@, addr: self.addr }
    }
}

impl Clone for AddrRecord {
    /// A clone carries the same owner and address.
    fn clone(&self) -> (r: Self)
        ensures
            r@ == self@,
    {
        AddrRecord { owner: self.owner.clone(), addr: self.addr }
    }
}

/// The mathematical content of an answer.
pub struct HostAnswerSpec {
    pub ancount: u16,
    pub qname: Seq<Seq<u8>>,
    pub canonical_name: Seq<Seq<u8>>,
    pub records: Seq<AddrRecordSpec>,
}

/// What a lookup reads out of one answer message: the answer count from
/// its header, the question name, the canonical name, and the address
/// records of the sought type.
#[derive(Debug)]
pub struct HostAnswer {
    pub ancount: u16,
    pub qname: Name,
    pub canonical_name: Name,
    pub records: Vec<AddrRecord>,
}

/// The records of a vector, as their mathematical contents.
pub open spec fn addr_views(v: Seq<AddrRecord>) -> Seq<AddrRecordSpec> {
    Seq::new(v.len(), |i: int| v[i]@)
}

impl View for HostAnswer {
    type V = HostAnswerSpec;

    open spec fn view(&self) -> HostAnswerSpec {
        HostAnswerSpec {
            ancount: self.ancount,
            qname: self.qname@,
            canonical_name: self.canonical_name@,
            records: addr_views(self.records@),
        }
    }
}

/// An exact copy of a record vector.
fn copy_addr_records(v: &Vec<AddrRecord>) -> (r: Vec<AddrRecord>)
    ensures
        r@.len() == v@.len(),
        forall|i: int| 0 <= i < v@.len() ==> (#[trigger] r@[i])@ == v@[i]@,
{
    let mut r: Vec<AddrRecord> = Vec::new();
    let mut i: usize = 0;
    while i < v.len()
        invariant
            i <= v@.len(),
            r@.len() == i,
            forall|k: int| 0 <= k < i ==> (#[trigger] r@[k])@ == v@[k]@,
        decreases v@.len() - i,
    {
        r.push(v[i].clone());
        i = i + 1;
    }
    r
}

/// The value a successful host lookup returns: the answers to the IPv6
/// and IPv4 address queries, at least one of which succeeded.
#[derive(Debug)]
pub struct FoundHosts {
    pub aaaa: Result<HostAnswer, LookupError>,
    pub a: Result<HostAnswer, LookupError>,
}

impl FoundHosts {
    /// At least one of the two answers is there.
    pub open spec fn wf(&self) -> bool {
        self.aaaa is Ok || self.a is Ok
    }

    /// The answer the common fields are read from: the IPv6 one if it is
    /// there, else the IPv4 one.
    pub open spec fn answer_spec(&self) -> HostAnswerSpec {
        if self.aaaa is Ok {
            self.aaaa->Ok_0@
        } else {
            self.a->Ok_0@
        }
    }

    /// Combines the two query outcomes.  Only when both failed does the
    /// lookup fail as a whole, with the IPv6 query's error.
    pub fn new(aaaa: Result<HostAnswer, LookupError>, a: Result<HostAnswer, LookupError>) -> (r:
        Result<FoundHosts, LookupError>)
        ensures
            match r {
                Ok(fh) => (aaaa is Ok || a is Ok) && fh.aaaa == aaaa && fh.a == a && fh.wf(),
                Err(e) => aaaa is Err && a is Err && e == aaaa->Err_0,
            },
    {
        if aaaa.is_err() && a.is_err() {
            match aaaa {
                Err(err) => return Err(err),
                Ok(_) => {},
            }
        }
        Ok(FoundHosts { aaaa, a })
    }

    /// Whether the lookup found no addresses: no available answer counts
    /// any answer records.
    pub fn is_empty(&self) -> (r: bool)
        ensures
            r == !((self.aaaa matches Ok(x) && x@.ancount > 0) || (self.a matches Ok(y)
                && y@.ancount > 0)),
    {
        if let Ok(ref aaaa) = self.aaaa {
            if aaaa.ancount > 0 {
                return false;
            }
        }
        if let Ok(ref a) = self.a {
            if a.ancount > 0 {
                return false;
            }
        }
        true
    }

    /// The answer the common fields are read from.
    fn answer(&self) -> (r: &HostAnswer)
        requires
            self.wf(),
        ensures
            r@ == self.answer_spec(),
    {
        match &self.aaaa {
            Ok(ans) => ans,
            Err(_) => {
                match &self.a {
                    Ok(ans) => ans,
                    Err(_) => vstd::pervasive::unreached(),
                }
            },
        }
    }

    /// The name the lookup asked for.
    pub fn qname(&self) -> (r: &Name)
        requires
            self.wf(),
        ensures
            r@ == self.answer_spec().qname,
    {
        &self.answer().qname
    }

    /// The canonical name of the host.
    pub fn canonical_name(&self) -> (r: &Name)
        requires
            self.wf(),
        ensures
            r@ == self.answer_spec().canonical_name,
    {
        &self.answer().canonical_name
    }

    /// An iterator over the addresses the lookup returned: the IPv6 ones
    /// first, then the IPv4 ones, each carried by a record whose owner is
    /// the canonical name.
    pub fn iter(&self) -> (r: FoundHostsIter)
        requires
            self.wf(),
        ensures
            r.name@ == self.answer_spec().canonical_name,
            addr_views(r.aaaa@) == (if self.aaaa is Ok {
                self.aaaa->Ok_0@.records
            } else {
                Seq::<AddrRecordSpec>::empty()
            }),
            addr_views(r.a@) == (if self.a is Ok {
                self.a->Ok_0@.records
            } else {
                Seq::<AddrRecordSpec>::empty()
            }),
            r.aaaa_pos == 0 && r.a_pos == 0,
            r.wf(),
    {
        let name = self.answer().canonical_name.clone();
        let aaaa = match &self.aaaa {
            Ok(ans) => copy_addr_records(&ans.records),
            Err(_) => Vec::new(),
        };
        let a = match &self.a {
            Ok(ans) => copy_addr_records(&ans.records),
            Err(_) => Vec::new(),
        };
        let r = FoundHostsIter { name, aaaa, a, aaaa_pos: 0, a_pos: 0 };
        proof {
            assert(addr_views(r.aaaa@) =~= (if self.aaaa is Ok {
                self.aaaa->Ok_0@.records
            } else {
                Seq::<AddrRecordSpec>::empty()
            }));
            assert(addr_views(r.a@) =~= (if self.a is Ok {
                self.a->Ok_0@.records
            } else {
                Seq::<AddrRecordSpec>::empty()
            }));
        }
        r
    }

    /// An iterator over socket addresses: each found address with `port`.
    pub fn port_iter(&self, port: u16) -> (r: FoundHostsSocketIter)
        requires
            self.wf(),
        ensures
            r.iter.name@ == self.answer_spec().canonical_name,
            addr_views(r.iter.aaaa@) == (if self.aaaa is Ok {
                self.aaaa->Ok_0@.records
            } else {
                Seq::<AddrRecordSpec>::empty()
            }),
            addr_views(r.iter.a@) == (if self.a is Ok {
                self.a->Ok_0@.records
            } else {
                Seq::<AddrRecordSpec>::empty()
            }),
            r.iter.aaaa_pos == 0 && r.iter.a_pos == 0,
            r.iter.wf(),
            r.port == port,
    {
        FoundHostsSocketIter { iter: self.iter(), port }
    }
}

/// The addresses still to come: those records from `i` on whose owner is
/// the sought name.
pub open spec fn matches_from(recs: Seq<AddrRecordSpec>, name: Seq<Seq<u8>>, i: int) -> Seq<
    HostAddr,
>
    decreases recs.len() - i,
{
    if i < 0 || i >= recs.len() {
        Seq::empty()
    } else if name_eq_spec(recs[i].owner, name) {
        Seq::empty().push(recs[i].addr) + matches_from(recs, name, i + 1)
    } else {
        matches_from(recs, name, i + 1)
    }
}

/// An iterator over the addresses a host lookup returned.
pub struct FoundHostsIter {
    pub name: Name,
    pub aaaa: Vec<AddrRecord>,
    pub a: Vec<AddrRecord>,
    pub aaaa_pos: usize,
    pub a_pos: usize,
}

impl FoundHostsIter {
    pub open spec fn wf(&self) -> bool {
        self.aaaa_pos <= self.aaaa@.len() && self.a_pos <= self.a@.len()
    }

    /// The addresses this iterator will still yield, in order.
    pub open spec fn remaining(&self) -> Seq<HostAddr> {
        matches_from(addr_views(self.aaaa@), self.name@, self.aaaa_pos as int) + matches_from(
            addr_views(self.a@),
            self.name@,
            self.a_pos as int,
        )
    }

    /// The next address whose record owner is the sought name: IPv6
    /// addresses first, then IPv4.
    pub fn next(&mut self) -> (r: Option<HostAddr>)
        requires
            old(self).wf(),
        ensures
            final(self).wf(),
            final(self).name@ == old(self).name@,
            final(self).aaaa@ == old(self).aaaa@,
            final(self).a@ == old(self).a@,
            match r {
                Some(ad) => old(self).remaining() == Seq::empty().push(ad)
                    + final(self).remaining(),
                None => old(self).remaining().len() == 0 && final(self).remaining().len() == 0,
            },
    {
        let ghost av = addr_views(self.aaaa@);
        let ghost bv = addr_views(self.a@);
        let ghost nm = self.name@;
        while self.aaaa_pos < self.aaaa.len()
            invariant
                self.aaaa_pos <= self.aaaa@.len(),
                self.a_pos == old(self).a_pos,
                self.a@ == old(self).a@,
                self.aaaa@ == old(self).aaaa@,
                self.name@ == old(self).name@,
                av == addr_views(self.aaaa@),
                bv == addr_views(self.a@),
                nm == self.name@,
                self.a_pos <= self.a@.len(),
                matches_from(av, nm, self.aaaa_pos as int) == matches_from(
                    av,
                    nm,
                    old(self).aaaa_pos as int,
                ),
            decreases self.aaaa@.len() - self.aaaa_pos,
        {
            proof {
                assert(av[self.aaaa_pos as int] == self.aaaa@[self.aaaa_pos as int]@);
            }
            let i = self.aaaa_pos;
            if self.aaaa[i].owner.name_eq(&self.name) {
                self.aaaa_pos = i + 1;
                return Some(self.aaaa[i].addr);
            }
            self.aaaa_pos = i + 1;
        }
        while self.a_pos < self.a.len()
            invariant
                self.aaaa_pos == self.aaaa@.len(),
                self.a_pos <= self.a@.len(),
                self.a@ == old(self).a@,
                self.aaaa@ == old(self).aaaa@,
                self.name@ == old(self).name@,
                av == addr_views(self.aaaa@),
                bv == addr_views(self.a@),
                nm == self.name@,
                matches_from(av, nm, old(self).aaaa_pos as int).len() == 0,
                matches_from(bv, nm, self.a_pos as int) == matches_from(
                    bv,
                    nm,
                    old(self).a_pos as int,
                ),
            decreases self.a@.len() - self.a_pos,
        {
            proof {
                assert(bv[self.a_pos as int] == self.a@[self.a_pos as int]@);
            }
            let i = self.a_pos;
            if self.a[i].owner.name_eq(&self.name) {
                self.a_pos = i + 1;
                return Some(self.a[i].addr);
            }
            self.a_pos = i + 1;
        }
        None
    }
}

/// An iterator over socket addresses derived from a host lookup.
pub struct FoundHostsSocketIter {
    pub iter: FoundHostsIter,
    pub port: u16,
}

impl FoundHostsSocketIter {
    pub open spec fn wf(&self) -> bool {
        self.iter.wf()
    }

    /// The next socket address: the next found address with this port.
    pub fn next(&mut self) -> (r: Option<HostSocketAddr>)
        requires
            old(self).wf(),
        ensures
            final(self).wf(),
            final(self).port == old(self).port,
            match r {
                Some(sa) => sa.port == old(self).port && old(self).iter.remaining() == Seq::empty()
                    .push(sa.addr) + final(self).iter.remaining(),
                None => old(self).iter.remaining().len() == 0
                    && final(self).iter.remaining().len() == 0,
            },
    {
        match self.iter.next() {
            Some(addr) => Some(HostSocketAddr { addr, port: self.port }),
            None => None,
        }
    }
}

} // verus!
