//! Selecting rows by a predicate.

use vstd::prelude::*;
use crate::basic_elements::record::Record;
use crate::basic_elements::table::Table;
use crate::picking::picked;

verus! {

impl Table {
    /// The rows for which `query` holds, in the order of the table. The
    /// table is left as it is.
    pub fn select<F: Fn(&Record) -> bool>(&self, query: &F) -> (r: Vec<Record>)
        requires
            forall|i: int|
                0 <= i < self.rows().len() ==> call_requires(*query, (&#[trigger] self.rows()[i],)),
        ensures
            exists|keep: Seq<bool>|
                {
                    &&& keep.len() == self.rows().len()
                    &&& forall|i: int|
                        0 <= i < keep.len() ==> call_ensures(
                            *query,
                            (&self.rows()[i],),
                            #[trigger] keep[i],
                        )
                    &&& r.deep_view() == #[trigger] picked(self@.records, keep)
                },
    {
        let records = self.records();
        let ghost items = self@.records;
        let mut results: Vec<Record> = Vec::new();
        let ghost mut keep: Seq<bool> = Seq::empty();
        let mut i: usize = 0;
        proof {
            self.lemma_rows();
            assert(results.deep_view() =~= Seq::empty());
            assert(items.take(0) =~= Seq::empty());
        }
        while i < records.len()
            invariant
                i <= records.len(),
                records@ == self.rows(),
                records.deep_view() == items,
                items == self@.records,
                keep.len() == i,
                forall|k: int|
                    0 <= k < self.rows().len() ==> call_requires(
                        *query,
                        (&#[trigger] self.rows()[k],),
                    ),
                forall|k: int|
                    0 <= k < i ==> call_ensures(*query, (&self.rows()[k],), #[trigger] keep[k]),
                results.deep_view() == picked(items.take(i as int), keep),
            decreases records.len() - i,
        {
            let rec = &records[i];
            let ghost so_far = results.deep_view();
            let hit = query(rec);
            if hit {
                results.push(rec.clone());
            }
            proof {
                let ghost marks = keep.push(hit);
                assert(marks.drop_last() =~= keep);
                assert(items.take(i + 1).drop_last() =~= items.take(i as int));
                assert(items.take(i + 1).last() == rec@);
                if hit {
                    assert(results.deep_view() =~= so_far.push(rec@));
                }
                keep = marks;
            }
            i = i + 1;
        }
        proof {
            assert(items.take(records.len() as int) =~= items);
        }
        results
    }
}

} // verus!
