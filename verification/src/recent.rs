//! The bounded most-recently-used list of databases the user saved into:
//! capped at ten entries, deduplicated by id, newest first.

use vstd::prelude::*;

verus! {

/// How many entries the recent list keeps.
pub const RECENT_LIMIT: usize = 10;

/// One remembered database: its id and display name.
pub struct RecentDatabase {
    pub id: String,
    pub name: String,
}

impl View for RecentDatabase {
    type V = (Seq<char>, Seq<char>);

    open spec fn view(&self) -> (Seq<char>, Seq<char>) {
        (self.id@, self.name@)
    }
}

/// The id-and-name views of a sequence of records.
pub open spec fn recent_views(rs: Seq<RecentDatabase>) -> Seq<(Seq<char>, Seq<char>)> {
    Seq::new(rs.len(), |i: int| rs[i]@)
}

/// The records whose id differs from the given one, in order.
pub open spec fn without_id(rs: Seq<(Seq<char>, Seq<char>)>, id: Seq<char>) -> Seq<
    (Seq<char>, Seq<char>),
>
    decreases rs.len(),
{
    if rs.len() == 0 {
        Seq::empty()
    } else {
        let rest = without_id(rs.skip(1), id);
        if rs[0].0 == id {
            rest
        } else {
            seq![rs[0]] + rest
        }
    }
}

/// What the recent list holds after an insertion: the new record in front
/// of every record with another id, cut to the limit.
pub open spec fn inserted(
    rs: Seq<(Seq<char>, Seq<char>)>,
    db: (Seq<char>, Seq<char>),
) -> Seq<(Seq<char>, Seq<char>)> {
    let full = seq![db] + without_id(rs, db.0);
    if full.len() <= 10 {
        full
    } else {
        full.take(10)
    }
}

/// Law: dropping an id leaves no record with that id.
pub proof fn lemma_without_id_excludes(rs: Seq<(Seq<char>, Seq<char>)>, id: Seq<char>)
    ensures
        forall|j: int| 0 <= j < without_id(rs, id).len() ==> (#[trigger] without_id(rs, id)[j]).0
            != id,
    decreases rs.len(),
{
    if rs.len() > 0 {
        lemma_without_id_excludes(rs.skip(1), id);
        let rest = without_id(rs.skip(1), id);
        if rs[0].0 != id {
            assert forall|j: int|
                0 <= j < without_id(rs, id).len() implies (#[trigger] without_id(rs, id)[j]).0
                != id by {
                if j > 0 {
                    assert(without_id(rs, id)[j] == rest[j - 1]);
                } else {
                    assert(without_id(rs, id)[0] == rs[0]);
                }
            }
        }
    }
}

/// No two records carry the same id.
pub open spec fn distinct_ids(rs: Seq<(Seq<char>, Seq<char>)>) -> bool {
    forall|i: int, j: int|
        0 <= i < j < rs.len() ==> (#[trigger] rs[i]).0 != (#[trigger] rs[j]).0
}

/// An id of any record surviving the drop was an id of the list.
proof fn lemma_without_id_ids(rs: Seq<(Seq<char>, Seq<char>)>, cut: Seq<char>, id: Seq<char>)
    requires
        exists|k: int|
            0 <= k < without_id(rs, cut).len() && (#[trigger] without_id(rs, cut)[k]).0 == id,
    ensures
        exists|k: int| 0 <= k < rs.len() && (#[trigger] rs[k]).0 == id,
    decreases rs.len(),
{
    let w = without_id(rs, cut);
    let rest = without_id(rs.skip(1), cut);
    let k = choose|k: int| 0 <= k < w.len() && (#[trigger] w[k]).0 == id;
    if rs[0].0 == cut {
        assert(0 <= k < rest.len() && rest[k].0 == id);
        lemma_without_id_ids(rs.skip(1), cut, id);
        let k2 = choose|k2: int| 0 <= k2 < rs.skip(1).len() && (#[trigger] rs.skip(1)[k2]).0 == id;
        assert(rs.skip(1)[k2] == rs[k2 + 1]);
        assert(0 <= k2 + 1 < rs.len() && rs[k2 + 1].0 == id);
    } else {
        if k == 0 {
            assert(rs[0].0 == id);
        } else {
            assert(w[k] == rest[k - 1]);
            assert(0 <= k - 1 < rest.len() && rest[k - 1].0 == id);
            lemma_without_id_ids(rs.skip(1), cut, id);
            let k2 = choose|k2: int|
                0 <= k2 < rs.skip(1).len() && (#[trigger] rs.skip(1)[k2]).0 == id;
            assert(rs.skip(1)[k2] == rs[k2 + 1]);
            assert(0 <= k2 + 1 < rs.len() && rs[k2 + 1].0 == id);
        }
    }
}

/// Dropping an id keeps pairwise-distinct ids pairwise distinct.
proof fn lemma_without_id_distinct(rs: Seq<(Seq<char>, Seq<char>)>, cut: Seq<char>)
    requires
        distinct_ids(rs),
    ensures
        distinct_ids(without_id(rs, cut)),
    decreases rs.len(),
{
    if rs.len() > 0 {
        assert forall|i: int, j: int|
            0 <= i < j < rs.skip(1).len() implies (#[trigger] rs.skip(1)[i]).0 != (
        #[trigger] rs.skip(1)[j]).0 by {
            assert(rs.skip(1)[i] == rs[i + 1]);
            assert(rs.skip(1)[j] == rs[j + 1]);
        }
        lemma_without_id_distinct(rs.skip(1), cut);
        let rest = without_id(rs.skip(1), cut);
        if rs[0].0 != cut {
            let w = seq![rs[0]] + rest;
            assert forall|i: int, j: int|
                0 <= i < j < w.len() implies (#[trigger] w[i]).0 != (#[trigger] w[j]).0 by {
                if i == 0 {
                    assert(w[j] == rest[j - 1]);
                    if w[j].0 == rs[0].0 {
                        assert(0 <= j - 1 < rest.len() && rest[j - 1].0 == rs[0].0);
                        lemma_without_id_ids(rs.skip(1), cut, rs[0].0);
                        let k = choose|k: int|
                            0 <= k < rs.skip(1).len() && (#[trigger] rs.skip(1)[k]).0 == rs[0].0;
                        assert(rs.skip(1)[k] == rs[k + 1]);
                        assert(rs[0].0 != rs[k + 1].0);
                    }
                } else {
                    assert(w[i] == rest[i - 1]);
                    assert(w[j] == rest[j - 1]);
                }
            }
            assert(without_id(rs, cut) == w);
        }
    }
}

/// Law: an insertion keeps the stored ids pairwise distinct — so a list
/// grown by insertions alone, however many, never holds an id twice.
pub proof fn lemma_inserted_distinct(rs: Seq<(Seq<char>, Seq<char>)>, db: (Seq<char>, Seq<char>))
    requires
        distinct_ids(rs),
    ensures
        distinct_ids(inserted(rs, db)),
{
    lemma_without_id_excludes(rs, db.0);
    lemma_without_id_distinct(rs, db.0);
    let dropped = without_id(rs, db.0);
    let full = seq![db] + dropped;
    assert forall|i: int, j: int|
        0 <= i < j < full.len() implies (#[trigger] full[i]).0 != (#[trigger] full[j]).0 by {
        assert(full[j] == dropped[j - 1]);
        if i > 0 {
            assert(full[i] == dropped[i - 1]);
        }
    }
    assert forall|i: int, j: int|
        0 <= i < j < inserted(rs, db).len() implies (#[trigger] inserted(rs, db)[i]).0 != (
    #[trigger] inserted(rs, db)[j]).0 by {
        assert(inserted(rs, db)[i] == full[i]);
        assert(inserted(rs, db)[j] == full[j]);
    }
}

/// Law: after an insertion the new record stands in front, no other record
/// carries its id — inserting a present id moves it without duplicating —
/// and the list never exceeds ten entries, however often this is applied.
pub proof fn lemma_inserted_front_unique_bounded(
    rs: Seq<(Seq<char>, Seq<char>)>,
    db: (Seq<char>, Seq<char>),
)
    ensures
        inserted(rs, db).len() <= 10,
        inserted(rs, db).len() >= 1,
        inserted(rs, db)[0] == db,
        forall|j: int| 1 <= j < inserted(rs, db).len() ==> (#[trigger] inserted(rs, db)[j]).0
            != db.0,
{
    lemma_without_id_excludes(rs, db.0);
    let full = seq![db] + without_id(rs, db.0);
    assert forall|j: int| 1 <= j < inserted(rs, db).len() implies (#[trigger] inserted(
        rs,
        db,
    )[j]).0 != db.0 by {
        assert(inserted(rs, db)[j] == full[j]);
        assert(full[j] == without_id(rs, db.0)[j - 1]);
    }
}

/// Put a record at the front of the recent list: any record with the same
/// id is removed, the rest keep their order, and the list is cut to ten.
pub fn add_recent(list: &Vec<RecentDatabase>, db: RecentDatabase) -> (r: Vec<RecentDatabase>)
    ensures
        recent_views(r@) == inserted(recent_views(list@), db@),
{
    let ghost lv = recent_views(list@);
    let ghost dbv = db@;
    let mut out: Vec<RecentDatabase> = Vec::new();
    let id = db.id.clone();
    out.push(db);
    let n = list.len();
    proof {
        assert(lv.skip(0) =~= lv);
        assert(recent_views(out@) =~= seq![dbv]);
        assert(seq![dbv] + without_id(lv.skip(0), dbv.0) =~= recent_views(out@) + without_id(
            lv.skip(0),
            dbv.0,
        ));
    }
    for i in 0..n
        invariant
            lv == recent_views(list@),
            n == list@.len(),
            lv.len() == n,
            id@ == dbv.0,
            1 <= out@.len() <= i + 1,
            out@.len() <= 10,
            seq![dbv] + without_id(lv, dbv.0) == recent_views(out@) + without_id(
                lv.skip(i as int),
                dbv.0,
            ) || (out@.len() == 10 && (seq![dbv] + without_id(lv, dbv.0)).len() > 10 && (seq![dbv]
                + without_id(lv, dbv.0)).take(10) =~= recent_views(out@)),
    {
        proof {
            assert(lv.skip(i as int)[0] == lv[i as int]);
            assert(lv[i as int] == list@[i as int]@);
            assert(lv.skip(i as int).skip(1) =~= lv.skip(i as int + 1));
        }
        let same = crate::text::str_eq(list[i].id.as_str(), id.as_str());
        let ghost old_out = recent_views(out@);
        if !same && out.len() < RECENT_LIMIT {
            out.push(
                RecentDatabase { id: list[i].id.clone(), name: list[i].name.clone() },
            );
            proof {
                assert(recent_views(out@) =~= old_out.push(lv[i as int]));
                assert(old_out + (seq![lv[i as int]] + without_id(lv.skip(i as int + 1), dbv.0))
                    =~= old_out.push(lv[i as int]) + without_id(lv.skip(i as int + 1), dbv.0));
            }
        } else if !same {
            proof {
                if seq![dbv] + without_id(lv, dbv.0) == old_out + without_id(
                    lv.skip(i as int),
                    dbv.0,
                ) {
                    assert(without_id(lv.skip(i as int), dbv.0).len() >= 1);
                    assert((old_out + without_id(lv.skip(i as int), dbv.0)).take(10)
                        =~= old_out);
                }
            }
        }
    }
    proof {
        assert(lv.skip(n as int) =~= Seq::<(Seq<char>, Seq<char>)>::empty());
        let full = seq![dbv] + without_id(lv, dbv.0);
        if full == recent_views(out@) + without_id(lv.skip(n as int), dbv.0) {
            assert(recent_views(out@) + Seq::<(Seq<char>, Seq<char>)>::empty() =~= recent_views(
                out@,
            ));
            assert(full == recent_views(out@));
            assert(full.len() <= 10);
        } else {
            assert(full.len() > 10);
            assert(full.take(10) =~= recent_views(out@));
        }
        assert(recent_views(out@) == inserted(lv, dbv));
    }
    out
}

} // verus!
