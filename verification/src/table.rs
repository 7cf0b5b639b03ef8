//! The table of resolved hosts: at most one hardware address per IPv4
//! address, the last one recorded.

use vstd::prelude::*;
use crate::addr::{Ipv4Address, MacAddr};

verus! {

/// One resolved host.
#[derive(Clone, Copy, Debug, PartialEq, Eq, Structural)]
pub struct HostEntry {
    pub ip: Ipv4Address,
    pub mac: MacAddr,
}

/// No address stands in two rows.
pub open spec fn distinct_ips(rows: Seq<HostEntry>) -> bool {
    forall|i: int, j: int|
        0 <= i < rows.len() && 0 <= j < rows.len() && i != j ==> (#[trigger] rows[i]).ip != (
        #[trigger] rows[j]).ip
}

/// Some row is for `ip`.
pub open spec fn has_ip(rows: Seq<HostEntry>, ip: Ipv4Address) -> bool {
    exists|i: int| 0 <= i < rows.len() && (#[trigger] rows[i]).ip == ip
}

/// The index of a row for `ip`.
pub open spec fn row_of(rows: Seq<HostEntry>, ip: Ipv4Address) -> int {
    choose|i: int| 0 <= i < rows.len() && (#[trigger] rows[i]).ip == ip
}

/// The mapping that the rows stand for.
pub open spec fn table_of(rows: Seq<HostEntry>) -> Map<Ipv4Address, MacAddr> {
    Map::new(|ip: Ipv4Address| has_ip(rows, ip), |ip: Ipv4Address| rows[row_of(rows, ip)].mac)
}

/// The rows after `e` was recorded: it takes the place of the row for its
/// address, or comes last where there was none.
pub open spec fn recorded(rows: Seq<HostEntry>, e: HostEntry) -> Seq<HostEntry> {
    if has_ip(rows, e.ip) {
        rows.update(row_of(rows, e.ip), e)
    } else {
        rows.push(e)
    }
}

/// With distinct addresses, the row of an address is found by the address.
pub proof fn lemma_row_found(rows: Seq<HostEntry>, j: int)
    requires
        distinct_ips(rows),
        0 <= j < rows.len(),
    ensures
        has_ip(rows, rows[j].ip),
        row_of(rows, rows[j].ip) == j,
        table_of(rows).contains_key(rows[j].ip),
        table_of(rows)[rows[j].ip] == rows[j].mac,
{
    let ip = rows[j].ip;
    assert(0 <= j < rows.len() && rows[j].ip == ip);
    let k = row_of(rows, ip);
    assert(0 <= k < rows.len() && rows[k].ip == ip);
}

/// Replacing the row of an address records the new hardware address for it
/// and touches no other.
pub proof fn lemma_table_update(rows: Seq<HostEntry>, i: int, e: HostEntry)
    requires
        distinct_ips(rows),
        0 <= i < rows.len(),
        rows[i].ip == e.ip,
    ensures
        distinct_ips(rows.update(i, e)),
        table_of(rows.update(i, e)) == table_of(rows).insert(e.ip, e.mac),
{
    let after = rows.update(i, e);
    assert forall|a: int, b: int|
        0 <= a < after.len() && 0 <= b < after.len() && a != b implies (#[trigger] after[a]).ip != (
        #[trigger] after[b]).ip by {
        assert(after[a].ip == rows[a].ip);
        assert(after[b].ip == rows[b].ip);
    }
    let want = table_of(rows).insert(e.ip, e.mac);
    assert forall|ip: Ipv4Address| table_of(after).contains_key(ip) <==> want.contains_key(ip) by {
        if has_ip(after, ip) {
            let k = row_of(after, ip);
            assert(rows[k].ip == ip);
        }
        if has_ip(rows, ip) {
            let k = row_of(rows, ip);
            assert(after[k].ip == ip);
        }
        if ip == e.ip {
            assert(after[i].ip == ip);
        }
    }
    assert forall|ip: Ipv4Address| table_of(after).contains_key(ip) implies table_of(after)[ip]
        == want[ip] by {
        let k = row_of(after, ip);
        lemma_row_found(after, k);
        if ip == e.ip {
            lemma_row_found(after, i);
        } else {
            assert(rows[k].ip == ip);
            lemma_row_found(rows, k);
        }
    }
    assert(table_of(after) =~= want);
}

/// Adding a row for an address that has none records it and touches no other.
pub proof fn lemma_table_push(rows: Seq<HostEntry>, e: HostEntry)
    requires
        distinct_ips(rows),
        !has_ip(rows, e.ip),
    ensures
        distinct_ips(rows.push(e)),
        table_of(rows.push(e)) == table_of(rows).insert(e.ip, e.mac),
{
    let after = rows.push(e);
    assert forall|a: int, b: int|
        0 <= a < after.len() && 0 <= b < after.len() && a != b implies (#[trigger] after[a]).ip != (
        #[trigger] after[b]).ip by {
        if a < rows.len() {
            assert(after[a] == rows[a]);
        }
        if b < rows.len() {
            assert(after[b] == rows[b]);
        }
    }
    let want = table_of(rows).insert(e.ip, e.mac);
    let last = rows.len() as int;
    assert(after[last] == e);
    assert forall|ip: Ipv4Address| table_of(after).contains_key(ip) <==> want.contains_key(ip) by {
        if has_ip(after, ip) {
            let k = row_of(after, ip);
            if k < rows.len() {
                assert(rows[k].ip == ip);
            }
        }
        if has_ip(rows, ip) {
            let k = row_of(rows, ip);
            assert(after[k].ip == ip);
        }
        if ip == e.ip {
            assert(after[last].ip == ip);
        }
    }
    assert forall|ip: Ipv4Address| table_of(after).contains_key(ip) implies table_of(after)[ip]
        == want[ip] by {
        let k = row_of(after, ip);
        lemma_row_found(after, k);
        if ip == e.ip {
            lemma_row_found(after, last);
        } else {
            assert(rows[k].ip == ip);
            lemma_row_found(rows, k);
        }
    }
    assert(table_of(after) =~= want);
}

/// The mapping after the replies were recorded into `table` one by one, the
/// first of them first: a later reply for an address replaces an earlier one.
pub open spec fn apply_replies(table: Map<Ipv4Address, MacAddr>, replies: Seq<HostEntry>) -> Map<
    Ipv4Address,
    MacAddr,
>
    decreases replies.len(),
{
    if replies.len() == 0 {
        table
    } else {
        apply_replies(table, replies.drop_last()).insert(replies.last().ip, replies.last().mac)
    }
}

/// What is shown in place of a table when no host answered.
pub const NO_HOSTS_MESSAGE: &'static str = "No hosts found...";

/// The hosts found by a scan. Written while the collection window is open,
/// frozen when it closes.
#[derive(Debug)]
pub struct ScanResult {
    entries: Vec<HostEntry>,
    frozen: bool,
}

impl View for ScanResult {
    type V = Map<Ipv4Address, MacAddr>;

    /// The mapping from address to hardware address.
    closed spec fn view(&self) -> Map<Ipv4Address, MacAddr> {
        table_of(self.entries@)
    }
}

impl ScanResult {
    /// The rows, in the order in which their addresses were first seen.
    pub closed spec fn rows(self) -> Seq<HostEntry> {
        self.entries@
    }

    /// Whether writes are refused.
    pub closed spec fn is_frozen(self) -> bool {
        self.frozen
    }

    /// No address stands in two rows.
    pub closed spec fn wf(self) -> bool {
        distinct_ips(self.entries@)
    }

    /// The rows and the mapping say the same.
    pub proof fn lemma_rows_are_table(self)
        requires
            self.wf(),
        ensures
            self@ == table_of(self.rows()),
            distinct_ips(self.rows()),
            self@.dom().finite(),
            self@.len() == self.rows().len(),
            forall|i: int|
                0 <= i < self.rows().len() ==> self@.contains_key((#[trigger] self.rows()[i]).ip)
                    && self@[self.rows()[i].ip] == self.rows()[i].mac,
            forall|ip: Ipv4Address| #[trigger] self@.contains_key(ip) ==> has_ip(self.rows(), ip),
    {
        assert forall|i: int| 0 <= i < self.rows().len() implies self@.contains_key(
            (#[trigger] self.rows()[i]).ip,
        ) && self@[self.rows()[i].ip] == self.rows()[i].mac by {
            lemma_row_found(self.rows(), i);
        }
        lemma_table_size(self.rows());
    }

    /// An empty result that accepts writes.
    pub fn new() -> (r: ScanResult)
        ensures
            r.wf(),
            r@ == Map::<Ipv4Address, MacAddr>::empty(),
            r.rows() == Seq::<HostEntry>::empty(),
            !r.is_frozen(),
    {
        let r = ScanResult { entries: Vec::new(), frozen: false };
        proof {
            assert(r@ =~= Map::<Ipv4Address, MacAddr>::empty());
        }
        r
    }

    /// Records that `ip` answered from `mac`, replacing what was recorded for
    /// `ip` before. A frozen result refuses the write and says so by `false`.
    pub fn record(&mut self, ip: Ipv4Address, mac: MacAddr) -> (accepted: bool)
        requires
            old(self).wf(),
        ensures
            final(self).wf(),
            accepted == !old(self).is_frozen(),
            final(self).is_frozen() == old(self).is_frozen(),
            accepted ==> final(self)@ == old(self)@.insert(ip, mac),
            accepted ==> final(self).rows() == recorded(old(self).rows(), (HostEntry { ip, mac })),
            !accepted ==> final(self)@ == old(self)@ && final(self).rows() == old(self).rows(),
    {
        if self.frozen {
            return false;
        }
        let e = HostEntry { ip, mac };
        let mut i: usize = 0;
        while i < self.entries.len()
            invariant
                *self == *old(self),
                self.wf(),
                !self.frozen,
                e.ip == ip && e.mac == mac,
                i <= self.entries@.len(),
                forall|j: int| 0 <= j < i ==> (#[trigger] self.entries@[j]).ip != ip,
            decreases self.entries@.len() - i,
        {
            if self.entries[i].ip == ip {
                proof {
                    lemma_table_update(self.entries@, i as int, e);
                    lemma_row_found(self.entries@, i as int);
                }
                self.entries.set(i, e);
                return true;
            }
            i = i + 1;
        }
        proof {
            lemma_table_push(self.entries@, e);
        }
        self.entries.push(e);
        true
    }

    /// Records the replies in the order given. A frozen result stays as it is.
    pub fn record_all(&mut self, replies: &Vec<HostEntry>)
        requires
            old(self).wf(),
        ensures
            final(self).wf(),
            final(self).is_frozen() == old(self).is_frozen(),
            final(self)@ == if old(self).is_frozen() {
                old(self)@
            } else {
                apply_replies(old(self)@, replies@)
            },
    {
        let mut i: usize = 0;
        while i < replies.len()
            invariant
                i <= replies@.len(),
                self.wf(),
                self.is_frozen() == old(self).is_frozen(),
                self@ == if old(self).is_frozen() {
                    old(self)@
                } else {
                    apply_replies(old(self)@, replies@.take(i as int))
                },
            decreases replies@.len() - i,
        {
            let e: HostEntry = replies[i];
            let _accepted: bool = self.record(e.ip, e.mac);
            proof {
                let upto = replies@.take(i + 1);
                assert(upto.drop_last() =~= replies@.take(i as int));
                assert(upto.last() == e);
            }
            i = i + 1;
        }
        proof {
            assert(replies@.take(replies@.len() as int) =~= replies@);
        }
    }

    /// The message to show in place of the table: there is one exactly when
    /// no host was found.
    pub fn notice(&self) -> (r: Option<&'static str>)
        ensures
            r.is_some() <==> self.rows().len() == 0,
            r matches Some(text) ==> text == NO_HOSTS_MESSAGE,
    {
        if self.entries.len() == 0 {
            Some(NO_HOSTS_MESSAGE)
        } else {
            None
        }
    }

    /// Closes the result: from now on `record` changes nothing.
    pub fn freeze(&mut self)
        ensures
            final(self).is_frozen(),
            final(self)@ == old(self)@,
            final(self).rows() == old(self).rows(),
            final(self).wf() == old(self).wf(),
    {
        self.frozen = true;
    }

    pub fn frozen(&self) -> (r: bool)
        ensures
            r == self.is_frozen(),
    {
        self.frozen
    }

    /// The hardware address recorded for `ip`, if any.
    pub fn get(&self, ip: Ipv4Address) -> (r: Option<MacAddr>)
        requires
            self.wf(),
        ensures
            r == if self@.contains_key(ip) {
                Some(self@[ip])
            } else {
                None
            },
    {
        let mut i: usize = 0;
        while i < self.entries.len()
            invariant
                i <= self.entries@.len(),
                self.wf(),
                forall|j: int| 0 <= j < i ==> (#[trigger] self.entries@[j]).ip != ip,
            decreases self.entries@.len() - i,
        {
            if self.entries[i].ip == ip {
                proof {
                    lemma_row_found(self.entries@, i as int);
                }
                return Some(self.entries[i].mac);
            }
            i = i + 1;
        }
        None
    }

    /// The number of resolved addresses.
    pub fn len(&self) -> (r: usize)
        requires
            self.wf(),
        ensures
            r == self.rows().len(),
            r == self@.len(),
    {
        proof {
            lemma_table_size(self.entries@);
        }
        self.entries.len()
    }

    /// Whether no host was found.
    pub fn is_empty(&self) -> (r: bool)
        ensures
            r == (self@ == Map::<Ipv4Address, MacAddr>::empty()),
            r == (self.rows().len() == 0),
    {
        let r = self.entries.len() == 0;
        proof {
            if r {
                assert(self@ =~= Map::<Ipv4Address, MacAddr>::empty());
            } else {
                assert(self.entries@[0].ip == self.entries@[0].ip);
                assert(has_ip(self.entries@, self.entries@[0].ip));
                assert(self@.contains_key(self.entries@[0].ip));
            }
        }
        r
    }

    /// The rows: one per resolved address, in the order in which the
    /// addresses were first seen.
    pub fn to_rows(&self) -> (out: Vec<HostEntry>)
        ensures
            out@ == self.rows(),
    {
        let mut out: Vec<HostEntry> = Vec::new();
        let mut i: usize = 0;
        while i < self.entries.len()
            invariant
                i <= self.entries@.len(),
                out@ == self.entries@.take(i as int),
            decreases self.entries@.len() - i,
        {
            out.push(self.entries[i]);
            proof {
                assert(out@ =~= self.entries@.take(i + 1));
            }
            i = i + 1;
        }
        proof {
            assert(out@ =~= self.entries@);
        }
        out
    }
}

/// Rows with distinct addresses stand for a finite mapping with one key per row.
pub proof fn lemma_table_size(rows: Seq<HostEntry>)
    requires
        distinct_ips(rows),
    ensures
        table_of(rows).dom().finite(),
        table_of(rows).len() == rows.len(),
    decreases rows.len(),
{
    if rows.len() == 0 {
        assert(table_of(rows) =~= Map::<Ipv4Address, MacAddr>::empty());
    } else {
        let init = rows.drop_last();
        let e = rows.last();
        assert forall|i: int, j: int|
            0 <= i < init.len() && 0 <= j < init.len() && i != j implies (#[trigger] init[i]).ip
            != (#[trigger] init[j]).ip by {
            assert(init[i] == rows[i]);
            assert(init[j] == rows[j]);
        }
        lemma_table_size(init);
        if has_ip(init, e.ip) {
            let k = row_of(init, e.ip);
            assert(rows[k] == init[k]);
            assert(rows[rows.len() - 1] == e);
        }
        lemma_table_push(init, e);
        assert(init.push(e) =~= rows);
        assert(!table_of(init).contains_key(e.ip));
    }
}

} // verus!
