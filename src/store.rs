use vstd::prelude::*;

verus! {

/// A record that an upsert store holds, keyed by its merchant reference.
pub trait StoredRecord: Sized {
    /// The natural key.
    spec fn key(&self) -> Seq<char>;

    /// The row that is stored when `self` is upserted onto an existing row.
    spec fn merged(&self, existing: Self) -> Self;

    /// Merging keeps the incoming key and settles after one step.
    proof fn lemma_merged(&self, existing: Self)
        ensures
            self.merged(existing).key() == self.key(),
            self.merged(self.merged(existing)) == self.merged(existing),
            self.merged(*self) == *self,
    ;

    fn reference(&self) -> (r: &String)
        ensures
            r@ == self.key(),
    ;

    fn merge_onto(self, existing: &Self) -> (r: Self)
        ensures
            r == self.merged(*existing),
    ;

    fn duplicate(&self) -> (r: Self)
        ensures
            r == *self,
    ;
}

/// The table after upserting one record: a new key gets the record itself, an
/// existing key gets the record merged onto the row it held.
pub open spec fn upsert_one<R: StoredRecord>(t: Map<Seq<char>, R>, r: R) -> Map<Seq<char>, R> {
    if t.contains_key(r.key()) {
        t.insert(r.key(), r.merged(t[r.key()]))
    } else {
        t.insert(r.key(), r)
    }
}

/// The table after upserting a batch, record by record in order.
pub open spec fn upsert_all<R: StoredRecord>(t: Map<Seq<char>, R>, batch: Seq<R>) -> Map<
    Seq<char>,
    R,
>
    decreases batch.len(),
{
    if batch.len() == 0 {
        t
    } else {
        upsert_one(upsert_all(t, batch.drop_last()), batch.last())
    }
}

/// The table that rows with distinct keys stand for.
pub open spec fn table_of<R: StoredRecord>(rows: Seq<R>) -> Map<Seq<char>, R>
    decreases rows.len(),
{
    if rows.len() == 0 {
        Map::empty()
    } else {
        table_of(rows.drop_last()).insert(rows.last().key(), rows.last())
    }
}

pub open spec fn keys_distinct<R: StoredRecord>(rows: Seq<R>) -> bool {
    forall|i: int, j: int|
        0 <= i < rows.len() && 0 <= j < rows.len() && i != j ==> rows[i].key() != rows[j].key()
}

proof fn lemma_table_dom<R: StoredRecord>(rows: Seq<R>, k: Seq<char>)
    ensures
        table_of(rows).contains_key(k) <==> exists|i: int| 0 <= i < rows.len() && rows[i].key() == k,
    decreases rows.len(),
{
    if rows.len() > 0 {
        let p = rows.drop_last();
        lemma_table_dom(p, k);
        if table_of(p).contains_key(k) {
            let i = choose|i: int| 0 <= i < p.len() && p[i].key() == k;
            assert(rows[i] == p[i]);
        }
        if exists|i: int| 0 <= i < rows.len() && rows[i].key() == k {
            let i = choose|i: int| 0 <= i < rows.len() && rows[i].key() == k;
            if i < p.len() {
                assert(p[i] == rows[i]);
            }
        }
    }
}

proof fn lemma_table_lookup<R: StoredRecord>(rows: Seq<R>, i: int)
    requires
        keys_distinct(rows),
        0 <= i < rows.len(),
    ensures
        table_of(rows).contains_key(rows[i].key()),
        table_of(rows)[rows[i].key()] == rows[i],
    decreases rows.len(),
{
    let p = rows.drop_last();
    if i < rows.len() - 1 {
        assert(keys_distinct(p)) by {
            assert forall|a: int, b: int|
                0 <= a < p.len() && 0 <= b < p.len() && a != b implies p[a].key() != p[b].key() by {
                assert(p[a] == rows[a] && p[b] == rows[b]);
            }
        }
        assert(p[i] == rows[i]);
        lemma_table_lookup(p, i);
    }
}

proof fn lemma_table_update<R: StoredRecord>(rows: Seq<R>, i: int, r: R)
    requires
        0 <= i < rows.len(),
        keys_distinct(rows),
        r.key() == rows[i].key(),
    ensures
        table_of(rows.update(i, r)) == table_of(rows).insert(r.key(), r),
    decreases rows.len(),
{
    let p = rows.drop_last();
    let u = rows.update(i, r);
    if i == rows.len() - 1 {
        assert(u.drop_last() =~= p);
        assert(table_of(u) =~= table_of(rows).insert(r.key(), r));
    } else {
        assert(keys_distinct(p)) by {
            assert forall|a: int, b: int|
                0 <= a < p.len() && 0 <= b < p.len() && a != b implies p[a].key() != p[b].key() by {
                assert(p[a] == rows[a] && p[b] == rows[b]);
            }
        }
        assert(u.drop_last() =~= p.update(i, r));
        lemma_table_update(p, i, r);
        assert(rows.last().key() != r.key());
        assert(table_of(u) =~= table_of(rows).insert(r.key(), r));
    }
}

proof fn lemma_table_len<R: StoredRecord>(rows: Seq<R>)
    requires
        keys_distinct(rows),
    ensures
        table_of(rows).dom().finite(),
        table_of(rows).dom().len() == rows.len(),
    decreases rows.len(),
{
    if rows.len() > 0 {
        let p = rows.drop_last();
        assert(keys_distinct(p)) by {
            assert forall|a: int, b: int|
                0 <= a < p.len() && 0 <= b < p.len() && a != b implies p[a].key() != p[b].key() by {
                assert(p[a] == rows[a] && p[b] == rows[b]);
            }
        }
        lemma_table_len(p);
        lemma_table_dom(p, rows.last().key());
        if table_of(p).contains_key(rows.last().key()) {
            let i = choose|i: int| 0 <= i < p.len() && p[i].key() == rows.last().key();
            assert(rows[i] == p[i]);
        }
    }
}

/// An in-memory upsert store: at most one row per merchant reference.
pub struct UpsertStore<R> {
    rows: Vec<R>,
}

impl<R: StoredRecord> View for UpsertStore<R> {
    type V = Map<Seq<char>, R>;

    closed spec fn view(&self) -> Map<Seq<char>, R> {
        table_of(self.rows@)
    }
}

impl<R: StoredRecord> UpsertStore<R> {
    /// The store's own invariant: one row per key.
    pub closed spec fn wf(&self) -> bool {
        keys_distinct(self.rows@)
    }

    pub fn new() -> (r: Self)
        ensures
            r.wf(),
            r@ == Map::<Seq<char>, R>::empty(),
    {
        UpsertStore { rows: Vec::new() }
    }

    /// The number of rows.
    pub fn len(&self) -> (r: usize)
        requires
            self.wf(),
        ensures
            self@.dom().finite(),
            r == self@.dom().len(),
    {
        proof {
            lemma_table_len(self.rows@);
        }
        self.rows.len()
    }

    fn position(&self, key: &String) -> (r: Option<usize>)
        requires
            self.wf(),
        ensures
            match r {
                Some(i) => i < self.rows@.len() && self.rows@[i as int].key() == key@,
                None => !self@.contains_key(key@),
            },
    {
        let mut j: usize = 0;
        while j < self.rows.len()
            invariant
                j <= self.rows@.len(),
                forall|a: int| 0 <= a < j ==> self.rows@[a].key() != key@,
            decreases self.rows@.len() - j,
        {
            let rk: &String = self.rows[j].reference();
            if *rk == *key {
                return Some(j);
            }
            j += 1;
        }
        proof {
            lemma_table_dom(self.rows@, key@);
        }
        None
    }

    /// The row stored under `key`, if any.
    pub fn get(&self, key: &String) -> (r: Option<&R>)
        requires
            self.wf(),
        ensures
            r == if self@.contains_key(key@) {
                Some(&self@[key@])
            } else {
                None
            },
    {
        match self.position(key) {
            Some(i) => {
                proof {
                    lemma_table_lookup(self.rows@, i as int);
                }
                Some(&self.rows[i])
            },
            None => None,
        }
    }

    /// Inserts `rec`, or merges it onto the row that holds its key.
    pub fn upsert(&mut self, rec: R)
        requires
            old(self).wf(),
        ensures
            final(self).wf(),
            final(self)@ == upsert_one(old(self)@, rec),
    {
        let ghost k = rec.key();
        match self.position(rec.reference()) {
            Some(i) => {
                proof {
                    lemma_table_lookup(self.rows@, i as int);
                }
                let row = rec.merge_onto(&self.rows[i]);
                proof {
                    rec.lemma_merged(self.rows@[i as int]);
                    lemma_table_update(self.rows@, i as int, row);
                }
                self.rows.set(i, row);
                assert(self.wf()) by {
                    assert forall|a: int, b: int|
                        0 <= a < self.rows@.len() && 0 <= b < self.rows@.len() && a != b implies
                        self.rows@[a].key() != self.rows@[b].key() by {
                        if a != i && b != i {
                        }
                    }
                }
            },
            None => {
                let ghost before = self.rows@;
                self.rows.push(rec);
                assert(self.rows@.drop_last() =~= before);
                proof {
                    assert forall|a: int| 0 <= a < before.len() implies before[a].key() != k by {
                        lemma_table_dom(before, k);
                    }
                }
            },
        }
    }
}

/// Writes a batch into the store, record by record in order; an empty batch
/// changes nothing.
pub fn upsert_merchants<R: StoredRecord>(store: &mut UpsertStore<R>, merchants: &Vec<R>)
    requires
        old(store).wf(),
    ensures
        final(store).wf(),
        final(store)@ == upsert_all(old(store)@, merchants@),
{
    let ghost start = store@;
    let mut i: usize = 0;
    while i < merchants.len()
        invariant
            i <= merchants@.len(),
            store.wf(),
            store@ == upsert_all(start, merchants@.subrange(0, i as int)),
        decreases merchants@.len() - i,
    {
        let rec = merchants[i].duplicate();
        store.upsert(rec);
        assert(merchants@.subrange(0, i + 1).drop_last() =~= merchants@.subrange(0, i as int));
        i += 1;
    }
    assert(merchants@.subrange(0, merchants@.len() as int) =~= merchants@);
}

/// Upserting the same record twice leaves the table as upserting it once.
pub proof fn lemma_upsert_idempotent<R: StoredRecord>(t: Map<Seq<char>, R>, r: R)
    ensures
        upsert_one(upsert_one(t, r), r) == upsert_one(t, r),
{
    if t.contains_key(r.key()) {
        r.lemma_merged(t[r.key()]);
        assert(upsert_one(upsert_one(t, r), r) =~= upsert_one(t, r));
    } else {
        r.lemma_merged(r);
        assert(upsert_one(upsert_one(t, r), r) =~= upsert_one(t, r));
    }
}

/// After an upsert the row under the record's key is the record, merged onto
/// the row that was there, and no other row changes.
pub proof fn lemma_upsert_overwrites<R: StoredRecord>(t: Map<Seq<char>, R>, r: R)
    ensures
        upsert_one(t, r).contains_key(r.key()),
        upsert_one(t, r)[r.key()] == (if t.contains_key(r.key()) {
            r.merged(t[r.key()])
        } else {
            r
        }),
        upsert_one(t, r).dom() == t.dom().insert(r.key()),
        forall|k: Seq<char>| k != r.key() && t.contains_key(k) ==> upsert_one(t, r)[k] == t[k],
{
}

/// The references that a batch holds.
pub open spec fn keys_of<R: StoredRecord>(batch: Seq<R>) -> Set<Seq<char>> {
    Set::new(|k: Seq<char>| exists|i: int| 0 <= i < batch.len() && batch[i].key() == k)
}

/// After a batch the table holds a row for exactly the references it held
/// before and those of the batch.
pub proof fn lemma_upsert_all_keys<R: StoredRecord>(t: Map<Seq<char>, R>, batch: Seq<R>)
    ensures
        upsert_all(t, batch).dom() == t.dom().union(keys_of(batch)),
    decreases batch.len(),
{
    if batch.len() > 0 {
        let p = batch.drop_last();
        lemma_upsert_all_keys(t, p);
        assert forall|k: Seq<char>| #[trigger] keys_of(batch).contains(k) <==> (keys_of(p).contains(k)
            || k == batch.last().key()) by {
            if keys_of(batch).contains(k) {
                let i = choose|i: int| 0 <= i < batch.len() && batch[i].key() == k;
                if i < p.len() {
                    assert(p[i] == batch[i]);
                }
            }
            if keys_of(p).contains(k) {
                let i = choose|i: int| 0 <= i < p.len() && p[i].key() == k;
                assert(batch[i] == p[i]);
            }
            if k == batch.last().key() {
                assert(batch[batch.len() - 1].key() == k);
            }
        }
        assert(upsert_all(t, batch).dom() =~= t.dom().union(keys_of(batch)));
    }
}

} // verus!
