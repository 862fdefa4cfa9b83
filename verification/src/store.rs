//! The queryable snapshot store: a table of package records keyed by
//! attribute, loaded with last-write-wins semantics, plus the helpers the
//! bulk loader uses (bounded batches and CSV rows).

use vstd::prelude::*;
use crate::records::{records_view, PackageRecord, PackageRecordV};
use crate::strutil::{eq_str, contains_char};

verus! {

/// The map a row list denotes, keyed by attribute, later rows overriding
/// earlier ones.
pub open spec fn rows_map(rs: Seq<PackageRecordV>) -> Map<Seq<char>, PackageRecordV>
    decreases rs.len(),
{
    if rs.len() == 0 {
        Map::empty()
    } else {
        rows_map(rs.drop_last()).insert(rs.last().attribute, rs.last())
    }
}

/// The attributes of a row list are pairwise distinct.
pub open spec fn distinct_attributes(rs: Seq<PackageRecordV>) -> bool {
    forall|i: int, j: int| 0 <= i < j < rs.len() ==> rs[i].attribute != rs[j].attribute
}

/// Updating the row that holds an attribute changes the denoted map as an
/// insert for that attribute does.
proof fn lemma_rows_map_update(rs: Seq<PackageRecordV>, i: int, r: PackageRecordV)
    requires
        0 <= i < rs.len(),
        distinct_attributes(rs),
        rs[i].attribute == r.attribute,
    ensures
        rows_map(rs.update(i, r)) == rows_map(rs).insert(r.attribute, r),
    decreases rs.len(),
{
    let upd = rs.update(i, r);
    if i == rs.len() - 1 {
        assert(upd.drop_last() =~= rs.drop_last());
        assert(upd.last() == r);
        assert(rows_map(rs.drop_last()).insert(r.attribute, r) =~= rows_map(rs).insert(
            r.attribute,
            r,
        ));
    } else {
        assert(distinct_attributes(rs.drop_last()));
        assert(rs.drop_last()[i] == rs[i]);
        lemma_rows_map_update(rs.drop_last(), i, r);
        assert(upd.drop_last() =~= rs.drop_last().update(i, r));
        assert(upd.last() == rs.last());
        assert(r.attribute != rs.last().attribute);
        assert(rows_map(rs.drop_last()).insert(r.attribute, r).insert(
            rs.last().attribute,
            rs.last(),
        ) =~= rows_map(rs.drop_last()).insert(rs.last().attribute, rs.last()).insert(
            r.attribute,
            r,
        ));
    }
}

/// A row list with distinct attributes denotes a map that holds each row
/// under its attribute.
proof fn lemma_rows_map_index(rs: Seq<PackageRecordV>, i: int)
    requires
        0 <= i < rs.len(),
        distinct_attributes(rs),
    ensures
        rows_map(rs).contains_key(rs[i].attribute),
        rows_map(rs)[rs[i].attribute] == rs[i],
    decreases rs.len(),
{
    if i == rs.len() - 1 {
    } else {
        assert(distinct_attributes(rs.drop_last()));
        assert(rs.drop_last()[i] == rs[i]);
        lemma_rows_map_index(rs.drop_last(), i);
        assert(rs[i].attribute != rs.last().attribute);
    }
}

/// An attribute no row holds is absent from the denoted map.
proof fn lemma_rows_map_absent(rs: Seq<PackageRecordV>, a: Seq<char>)
    requires
        forall|i: int| 0 <= i < rs.len() ==> rs[i].attribute != a,
    ensures
        !rows_map(rs).contains_key(a),
    decreases rs.len(),
{
    if rs.len() > 0 {
        lemma_rows_map_absent(rs.drop_last(), a);
    }
}

/// The snapshot store's table: rows with pairwise distinct attributes,
/// supporting point lookups by attribute.
pub struct StoreTable {
    rows: Vec<PackageRecord>,
}

impl StoreTable {
    /// The rows hold pairwise distinct attributes.
    pub closed spec fn wf(&self) -> bool {
        distinct_attributes(records_view(self.rows@))
    }

    /// The attribute-to-row map the table holds.
    pub closed spec fn as_map(&self) -> Map<Seq<char>, PackageRecordV> {
        rows_map(records_view(self.rows@))
    }

    /// An empty table.
    pub fn new() -> (t: StoreTable)
        ensures
            t.wf(),
            t.as_map() == Map::<Seq<char>, PackageRecordV>::empty(),
    {
        let t = StoreTable { rows: Vec::new() };
        proof {
            assert(records_view(t.rows@) =~~= Seq::<PackageRecordV>::empty());
        }
        t
    }

    /// Inserts a row, replacing any row that already holds its attribute.
    pub fn upsert(&mut self, rec: PackageRecord)
        requires
            old(self).wf(),
        ensures
            final(self).wf(),
            final(self).as_map() == old(self).as_map().insert(rec@.attribute, rec@),
    {
        let ghost rv = records_view(self.rows@);
        let n = self.rows.len();
        let mut k: usize = 0;
        while k < n
            invariant
                0 <= k <= n,
                n == self.rows@.len(),
                rv == records_view(self.rows@),
                old(self).wf(),
                *self == *old(self),
                forall|j: int| 0 <= j < k ==> rv[j].attribute != rec@.attribute,
            decreases n - k,
        {
            if eq_str(self.rows[k].attribute.as_str(), rec.attribute.as_str()) {
                proof {
                    lemma_rows_map_update(rv, k as int, rec@);
                }
                self.rows.set(k, rec);
                proof {
                    assert(records_view(self.rows@) =~~= rv.update(k as int, rec@));
                }
                return ;
            }
            k += 1;
        }
        let ghost pre = records_view(self.rows@);
        self.rows.push(rec);
        proof {
            assert(records_view(self.rows@) =~~= pre.push(rec@));
            assert(records_view(self.rows@).drop_last() =~~= pre);
            assert(distinct_attributes(records_view(self.rows@)));
        }
    }

    /// Loads a record list, later records overriding earlier ones with
    /// the same attribute.
    pub fn load(records: &Vec<PackageRecord>) -> (t: StoreTable)
        ensures
            t.wf(),
            t.as_map() == rows_map(records_view(records@)),
    {
        let ghost rv = records_view(records@);
        let mut t = StoreTable::new();
        let n = records.len();
        let mut i: usize = 0;
        proof {
            assert(rows_map(rv.take(0)) =~= Map::<Seq<char>, PackageRecordV>::empty());
        }
        while i < n
            invariant
                0 <= i <= n,
                n == records@.len(),
                rv == records_view(records@),
                t.wf(),
                t.as_map() == rows_map(rv.take(i as int)),
            decreases n - i,
        {
            let rec = records[i].duplicate();
            t.upsert(rec);
            proof {
                assert(rv.take(i + 1).drop_last() =~~= rv.take(i as int));
                assert(rv.take(i + 1).last() == rv[i as int]);
            }
            i += 1;
        }
        proof {
            assert(rv.take(n as int) =~~= rv);
        }
        t
    }

    /// Looks the row for an attribute up: exactly the entry the table's
    /// map holds for it.
    pub fn lookup(&self, attr: &str) -> (r: Option<&PackageRecord>)
        requires
            self.wf(),
        ensures
            match r {
                Some(rec) => self.as_map().contains_key(attr@) && rec@ == self.as_map()[attr@],
                None => !self.as_map().contains_key(attr@),
            },
    {
        let ghost rv = records_view(self.rows@);
        let n = self.rows.len();
        let mut k: usize = 0;
        while k < n
            invariant
                0 <= k <= n,
                n == self.rows@.len(),
                rv == records_view(self.rows@),
                self.wf(),
                forall|j: int| 0 <= j < k ==> rv[j].attribute != attr@,
            decreases n - k,
        {
            if eq_str(self.rows[k].attribute.as_str(), attr) {
                proof {
                    lemma_rows_map_index(rv, k as int);
                }
                return Some(&self.rows[k]);
            }
            k += 1;
        }
        proof {
            lemma_rows_map_absent(rv, attr@);
        }
        None
    }
}

/// The rows of a batch list, in order.
pub open spec fn batches_flat(bs: Seq<Vec<PackageRecord>>) -> Seq<PackageRecordV>
    decreases bs.len(),
{
    if bs.len() == 0 {
        Seq::empty()
    } else {
        batches_flat(bs.drop_last()) + records_view(bs.last()@)
    }
}

/// Cuts a record list into batches of at most `size` rows, keeping the
/// order: all batches but the last are exactly `size` rows, none is
/// empty, and concatenating them restores the list. The bulk loader
/// issues one statement per batch to bound memory and statement size.
pub fn into_batches(records: &Vec<PackageRecord>, size: usize) -> (r: Vec<Vec<PackageRecord>>)
    requires
        size > 0,
    ensures
        batches_flat(r@) == records_view(records@),
        forall|i: int| 0 <= i < r@.len() ==> 0 < (#[trigger] r@[i])@.len() <= size,
        forall|i: int| 0 <= i < r@.len() - 1 ==> (#[trigger] r@[i])@.len() == size,
{
    let ghost rv = records_view(records@);
    let mut out: Vec<Vec<PackageRecord>> = Vec::new();
    let mut cur: Vec<PackageRecord> = Vec::new();
    let n = records.len();
    let mut i: usize = 0;
    proof {
        assert(batches_flat(out@) + records_view(cur@) =~~= rv.take(0));
    }
    while i < n
        invariant
            0 <= i <= n,
            n == records@.len(),
            rv == records_view(records@),
            cur@.len() < size,
            batches_flat(out@) + records_view(cur@) == rv.take(i as int),
            forall|k: int| 0 <= k < out@.len() ==> out@[k]@.len() == size,
        decreases n - i,
    {
        let ghost pre_cur = records_view(cur@);
        cur.push(records[i].duplicate());
        proof {
            assert(records_view(cur@) =~~= pre_cur.push(rv[i as int]));
            assert(rv.take(i + 1) =~~= rv.take(i as int).push(rv[i as int]));
            assert(batches_flat(out@) + records_view(cur@) =~~= rv.take(i + 1));
        }
        if cur.len() == size {
            let ghost pre_out = out@;
            let full = cur;
            cur = Vec::new();
            out.push(full);
            proof {
                assert(out@.drop_last() =~~= pre_out);
                assert(batches_flat(out@) =~~= batches_flat(pre_out) + records_view(
                    out@.last()@,
                ));
                assert(records_view(cur@) =~~= Seq::<PackageRecordV>::empty());
                assert(batches_flat(out@) + records_view(cur@) =~~= rv.take(i + 1));
            }
        }
        i += 1;
    }
    if cur.len() > 0 {
        let ghost pre_out = out@;
        out.push(cur);
        proof {
            assert(out@.drop_last() =~~= pre_out);
            assert(batches_flat(out@) =~~= batches_flat(pre_out) + records_view(out@.last()@));
            assert(rv.take(n as int) =~~= rv);
        }
    } else {
        proof {
            assert(records_view(cur@) =~~= Seq::<PackageRecordV>::empty());
            assert(batches_flat(out@) =~~= batches_flat(out@) + records_view(cur@));
            assert(rv.take(n as int) =~~= rv);
        }
    }
    out
}

/// A CSV field body with every double quote doubled.
pub open spec fn spec_csv_escaped(s: Seq<char>) -> Seq<char>
    decreases s.len(),
{
    if s.len() == 0 {
        Seq::empty()
    } else {
        spec_csv_escaped(s.drop_last()) + (if s.last() == '"' {
            seq!['"', '"']
        } else {
            seq![s.last()]
        })
    }
}

/// Whether a CSV field must be quoted: it holds a separator, a quote or a
/// line break.
pub open spec fn spec_csv_needs_quotes(s: Seq<char>) -> bool {
    s.contains(',') || s.contains('"') || s.contains('\n') || s.contains('\r')
}

/// A CSV field: quoted, with inner quotes doubled, exactly when its text
/// requires it.
pub open spec fn spec_csv_field(s: Seq<char>) -> Seq<char> {
    if spec_csv_needs_quotes(s) {
        seq!['"'] + spec_csv_escaped(s) + seq!['"']
    } else {
        s
    }
}

/// Encodes one CSV field.
pub fn csv_field(s: &str) -> (r: String)
    ensures
        r@ == spec_csv_field(s@),
{
    let needs = contains_char(s, ',') || contains_char(s, '"') || contains_char(s, '\n')
        || contains_char(s, '\r');
    if !needs {
        return String::from_str(s);
    }
    let len = s.unicode_len();
    let mut out = String::new();
    out.push('"');
    let mut i: usize = 0;
    proof {
        assert(spec_csv_escaped(s@.take(0)) =~= Seq::<char>::empty());
        assert(out@ =~= seq!['"'] + spec_csv_escaped(s@.take(0)));
    }
    while i < len
        invariant
            0 <= i <= len,
            len == s@.len(),
            out@ == seq!['"'] + spec_csv_escaped(s@.take(i as int)),
        decreases len - i,
    {
        let c = s.get_char(i);
        let ghost pre = out@;
        if c == '"' {
            out.push('"');
            out.push('"');
        } else {
            out.push(c);
        }
        proof {
            assert(s@.take(i + 1).drop_last() =~= s@.take(i as int));
            assert(s@.take(i + 1).last() == s@[i as int]);
            if s@[i as int] == '"' {
                assert(out@ =~= pre + seq!['"', '"']);
            } else {
                assert(out@ =~= pre + seq![s@[i as int]]);
            }
            assert(out@ =~= seq!['"'] + spec_csv_escaped(s@.take(i + 1)));
        }
        i += 1;
    }
    out.push('"');
    proof {
        assert(s@.take(len as int) =~= s@);
        assert(out@ =~= seq!['"'] + spec_csv_escaped(s@) + seq!['"']);
    }
    out
}

/// One record as a CSV row of the bulk-load stream, in the store's
/// column order: attribute, system (empty when absent), package name,
/// version, and the record terminator.
pub fn csv_record(rec: &PackageRecord) -> (r: String)
    ensures
        r@ == spec_csv_field(rec.attribute@) + seq![','] + spec_csv_field(
            match rec.system {
                Some(s) => s@,
                None => Seq::<char>::empty(),
            },
        ) + seq![','] + spec_csv_field(rec.pname@) + seq![','] + spec_csv_field(rec.version@)
            + seq!['\n'],
{
    let mut out = csv_field(rec.attribute.as_str());
    out.push(',');
    let system = match &rec.system {
        Some(s) => csv_field(s.as_str()),
        None => String::new(),
    };
    proof {
        if rec.system is None {
            assert(!spec_csv_needs_quotes(Seq::<char>::empty()));
        }
    }
    out.append(system.as_str());
    out.push(',');
    let pname = csv_field(rec.pname.as_str());
    out.append(pname.as_str());
    out.push(',');
    let version = csv_field(rec.version.as_str());
    out.append(version.as_str());
    out.push('\n');
    proof {
        assert(out@ =~= spec_csv_field(rec.attribute@) + seq![','] + spec_csv_field(
            match rec.system {
                Some(s) => s@,
                None => Seq::<char>::empty(),
            },
        ) + seq![','] + spec_csv_field(rec.pname@) + seq![','] + spec_csv_field(rec.version@)
            + seq!['\n']);
    }
    out
}

} // verus!
