//! The users who are let in without verification.

use vstd::prelude::*;
use crate::number::{decimal, decimal_nat, i64_text, push_i64, push_u64};

verus! {

/// The table that is left after the rows have been put into an empty one, from
/// first to last: for each user the time of the last row.
pub open spec fn table_of(rows: Seq<(i64, i64)>) -> Map<i64, i64>
    decreases rows.len(),
{
    if rows.len() == 0 {
        Map::empty()
    } else {
        table_of(rows.drop_last()).insert(rows.last().0, rows.last().1)
    }
}

/// Whether the first components are in strictly ascending order.
pub open spec fn ascending(rows: Seq<(i64, i64)>) -> bool {
    forall|i: int, j: int| 0 <= i < j < rows.len() ==> #[trigger] rows[i].0 < #[trigger] rows[j].0
}

proof fn lemma_table_finite(rows: Seq<(i64, i64)>)
    ensures
        table_of(rows).dom().finite(),
    decreases rows.len(),
{
    if rows.len() > 0 {
        lemma_table_finite(rows.drop_last());
    }
}

/// What an ascending sequence of rows holds.
proof fn lemma_table(rows: Seq<(i64, i64)>)
    requires
        ascending(rows),
    ensures
        forall|i: int|
            0 <= i < rows.len() ==> table_of(rows).dom().contains(#[trigger] rows[i].0)
                && table_of(rows)[rows[i].0] == rows[i].1,
        forall|id: i64|
            #![trigger table_of(rows).dom().contains(id)]
            table_of(rows).dom().contains(id) ==> exists|i: int|
                0 <= i < rows.len() && (#[trigger] rows[i]).0 == id,
        table_of(rows).dom().finite(),
        table_of(rows).dom().len() == rows.len(),
    decreases rows.len(),
{
    lemma_table_finite(rows);
    if rows.len() > 0 {
        let rest = rows.drop_last();
        lemma_table(rest);
        assert forall|i: int| 0 <= i < rows.len() implies table_of(rows).dom().contains(
            #[trigger] rows[i].0,
        ) && table_of(rows)[rows[i].0] == rows[i].1 by {
            if i < rows.len() - 1 {
                assert(rest[i] == rows[i]);
                assert(rows[i].0 < rows[rows.len() - 1].0);
            }
        }
        assert forall|id: i64|
            #![trigger table_of(rows).dom().contains(id)]
            table_of(rows).dom().contains(id) implies exists|i: int|
            0 <= i < rows.len() && (#[trigger] rows[i]).0 == id by {
            if id != rows.last().0 {
                assert(table_of(rest).dom().contains(id));
                let i = choose|i: int| 0 <= i < rest.len() && (#[trigger] rest[i]).0 == id;
                assert(rows[i].0 == id);
            } else {
                assert(rows[rows.len() - 1].0 == id);
            }
        }
        if table_of(rest).dom().contains(rows.last().0) {
            let i = choose|i: int| 0 <= i < rest.len() && (#[trigger] rest[i]).0 == rows.last().0;
            assert(rows[i].0 < rows[rows.len() - 1].0);
        }
        assert(table_of(rows).dom() =~= table_of(rest).dom().insert(rows.last().0));
    } else {
        assert(table_of(rows).dom() =~= Set::<i64>::empty());
    }
}

/// Giving a row a new time keeps the order and changes just that time.
proof fn lemma_update(rows: Seq<(i64, i64)>, i: int, time: i64)
    requires
        ascending(rows),
        0 <= i < rows.len(),
    ensures
        ascending(rows.update(i, (rows[i].0, time))),
        table_of(rows.update(i, (rows[i].0, time))) == table_of(rows).insert(rows[i].0, time),
{
    let id = rows[i].0;
    let after = rows.update(i, (id, time));
    assert forall|a: int, b: int| 0 <= a < b < after.len() implies #[trigger] after[a].0
        < #[trigger] after[b].0 by {
        assert(rows[a].0 < rows[b].0);
    }
    lemma_table(rows);
    lemma_table(after);
    let want = table_of(rows).insert(id, time);
    assert(after[i].0 == id && after[i].1 == time);
    assert forall|x: i64| want.dom().contains(x) implies #[trigger] table_of(after).dom().contains(
        x,
    ) && table_of(after)[x] == want[x] by {
        if x != id {
            assert(table_of(rows).dom().contains(x));
            let k = choose|k: int| 0 <= k < rows.len() && (#[trigger] rows[k]).0 == x;
            assert(after[k].0 == x && after[k].1 == rows[k].1);
            assert(table_of(rows)[rows[k].0] == rows[k].1);
        }
    }
    assert forall|x: i64| #[trigger] table_of(after).dom().contains(x) implies want.dom().contains(
        x,
    ) by {
        let k = choose|k: int| 0 <= k < after.len() && (#[trigger] after[k]).0 == x;
        if k != i {
            assert(after[k] == rows[k]);
        }
    }
    assert(table_of(after) =~= want);
}

/// Putting a new row where it belongs keeps the order and adds just that row.
proof fn lemma_insert(rows: Seq<(i64, i64)>, i: int, id: i64, time: i64)
    requires
        ascending(rows),
        0 <= i <= rows.len(),
        forall|k: int| 0 <= k < i ==> #[trigger] rows[k].0 < id,
        forall|k: int| i <= k < rows.len() ==> #[trigger] rows[k].0 > id,
    ensures
        ascending(rows.insert(i, (id, time))),
        table_of(rows.insert(i, (id, time))) == table_of(rows).insert(id, time),
{
    let after = rows.insert(i, (id, time));
    assert(after[i].0 == id && after[i].1 == time);
    assert forall|k: int| 0 <= k < rows.len() implies after[if k < i { k } else { k + 1 }]
        == #[trigger] rows[k] by {}
    assert forall|a: int, b: int| 0 <= a < b < after.len() implies #[trigger] after[a].0
        < #[trigger] after[b].0 by {
        if a < i {
            assert(after[a] == rows[a]);
        } else if a > i {
            assert(after[a] == rows[a - 1]);
        }
        if b < i {
            assert(after[b] == rows[b]);
        } else if b > i {
            assert(after[b] == rows[b - 1]);
        }
    }
    lemma_table(rows);
    lemma_table(after);
    let want = table_of(rows).insert(id, time);
    assert forall|x: i64| want.dom().contains(x) implies #[trigger] table_of(after).dom().contains(
        x,
    ) && table_of(after)[x] == want[x] by {
        if x != id {
            assert(table_of(rows).dom().contains(x));
            let k = choose|k: int| 0 <= k < rows.len() && (#[trigger] rows[k]).0 == x;
            let j = if k < i { k } else { k + 1 };
            assert(after[j].0 == x && after[j].1 == rows[k].1);
            assert(table_of(rows)[rows[k].0] == rows[k].1);
        }
    }
    assert forall|x: i64| #[trigger] table_of(after).dom().contains(x) implies want.dom().contains(
        x,
    ) by {
        let k = choose|k: int| 0 <= k < after.len() && (#[trigger] after[k]).0 == x;
        if k < i {
            assert(after[k] == rows[k]);
        } else if k > i {
            assert(after[k] == rows[k - 1]);
        }
    }
    assert(table_of(after) =~= want);
}

/// The users who are let in without verification, each with the time at which
/// they were entered.
pub struct Whitelist {
    rows: Vec<(i64, i64)>,
}

impl View for Whitelist {
    type V = Map<i64, i64>;

    closed spec fn view(&self) -> Map<i64, i64> {
        table_of(self.rows@)
    }
}

impl Whitelist {
    /// The rows are in ascending order, so that no user occurs twice.
    pub closed spec fn wf(&self) -> bool {
        ascending(self.rows@)
    }

    /// A list without users.
    pub fn new() -> (r: Whitelist)
        ensures
            r.wf(),
            r@ == Map::<i64, i64>::empty(),
    {
        Whitelist { rows: Vec::new() }
    }

    /// The list that holds the rows; of several for one user, the last.
    pub fn from_rows(rows: &Vec<(i64, i64)>) -> (r: Whitelist)
        ensures
            r.wf(),
            r@ == table_of(rows@),
    {
        let mut list = Whitelist::new();
        let mut i: usize = 0;
        assert(rows@.take(0) =~= Seq::<(i64, i64)>::empty());
        while i < rows.len()
            invariant
                i <= rows@.len(),
                list.wf(),
                list@ == table_of(rows@.take(i as int)),
            decreases rows@.len() - i,
        {
            whitelist_add(&mut list, rows[i].0, rows[i].1);
            proof {
                let next = rows@.take(i + 1);
                assert(next.drop_last() =~= rows@.take(i as int));
                assert(next.last() == rows@[i as int]);
            }
            i += 1;
        }
        assert(rows@.take(rows@.len() as int) =~= rows@);
        list
    }

    /// The rows, by ascending user.
    pub fn rows(&self) -> (r: &Vec<(i64, i64)>)
        requires
            self.wf(),
        ensures
            ascending(r@),
            table_of(r@) == self@,
    {
        &self.rows
    }

    /// The position of the first row that is not below `tg_id`.
    fn position(&self, tg_id: i64) -> (r: usize)
        requires
            self.wf(),
        ensures
            r <= self.rows@.len(),
            forall|i: int| 0 <= i < r ==> #[trigger] self.rows@[i].0 < tg_id,
            forall|i: int| r <= i < self.rows@.len() ==> #[trigger] self.rows@[i].0 >= tg_id,
    {
        let mut i: usize = 0;
        while i < self.rows.len() && self.rows[i].0 < tg_id
            invariant
                i <= self.rows@.len(),
                forall|k: int| 0 <= k < i ==> #[trigger] self.rows@[k].0 < tg_id,
            decreases self.rows@.len() - i,
        {
            i += 1;
        }
        i
    }
}

/// Whether a user is on the list.
pub fn is_whitelisted(list: &Whitelist, tg_id: i64) -> (r: bool)
    requires
        list.wf(),
    ensures
        r == list@.dom().contains(tg_id),
{
    proof {
        lemma_table(list.rows@);
    }
    let i = list.position(tg_id);
    if i < list.rows.len() && list.rows[i].0 == tg_id {
        true
    } else {
        false
    }
}

/// Enters a user; one who is on the list gets the new time.
pub fn whitelist_add(list: &mut Whitelist, tg_id: i64, created_at: i64)
    requires
        old(list).wf(),
    ensures
        final(list).wf(),
        final(list)@ == old(list)@.insert(tg_id, created_at),
{
    let ghost before = list.rows@;
    let i = list.position(tg_id);
    if i < list.rows.len() && list.rows[i].0 == tg_id {
        list.rows.set(i, (tg_id, created_at));
        proof {
            lemma_update(before, i as int, created_at);
        }
    } else {
        list.rows.insert(i, (tg_id, created_at));
        proof {
            lemma_insert(before, i as int, tg_id, created_at);
        }
    }
}

/// Takes a user off the list; the result is the number of rows that went.
pub fn whitelist_delete(list: &mut Whitelist, tg_id: i64) -> (r: usize)
    requires
        old(list).wf(),
    ensures
        final(list).wf(),
        final(list)@ == old(list)@.remove(tg_id),
        r == (if old(list)@.dom().contains(tg_id) { 1int } else { 0 }),
{
    let ghost before = list.rows@;
    let i = list.position(tg_id);
    proof {
        lemma_table(before);
    }
    if i < list.rows.len() && list.rows[i].0 == tg_id {
        list.rows.remove(i);
        proof {
            let after = list.rows@;
            assert forall|a: int, b: int| 0 <= a < b < after.len() implies #[trigger] after[a].0
                < #[trigger] after[b].0 by {
                assert(after[a] == before[if a < i { a } else { a + 1 }]);
                assert(after[b] == before[if b < i { b } else { b + 1 }]);
            }
            lemma_table(after);
            let want = table_of(before).remove(tg_id);
            assert forall|id: i64| want.dom().contains(id) implies #[trigger] table_of(after).dom().contains(id)
                && table_of(after)[id] == want[id] by {
                let k = choose|k: int| 0 <= k < before.len() && (#[trigger] before[k]).0 == id;
                if k < i {
                    assert(after[k] == before[k]);
                } else {
                    assert(after[k - 1] == before[k]);
                }
            }
            assert forall|id: i64| #[trigger] table_of(after).dom().contains(id) implies want.dom().contains(id) by {
                let k = choose|k: int| 0 <= k < after.len() && (#[trigger] after[k]).0 == id;
                assert(after[k] == before[if k < i { k } else { k + 1 }]);
                assert(before[i as int].0 == tg_id);
            }
            assert(table_of(after) =~= want);
        }
        1
    } else {
        assert(!table_of(before).dom().contains(tg_id));
        assert(table_of(before).remove(tg_id) =~= table_of(before));
        0
    }
}

/// Takes all users off the list; the result is the number of rows that went.
pub fn whitelist_clear(list: &mut Whitelist) -> (r: usize)
    requires
        old(list).wf(),
    ensures
        final(list).wf(),
        final(list)@ == Map::<i64, i64>::empty(),
        r == old(list)@.dom().len(),
{
    proof {
        lemma_table(list.rows@);
    }
    let n = list.rows.len();
    list.rows = Vec::new();
    n
}

/// The users on the list, in ascending order.
pub fn whitelist_list(list: &Whitelist) -> (r: Vec<i64>)
    requires
        list.wf(),
    ensures
        forall|i: int, j: int| 0 <= i < j < r@.len() ==> #[trigger] r@[i] < #[trigger] r@[j],
        forall|id: i64| #[trigger] r@.contains(id) <==> list@.dom().contains(id),
        r@.len() == list@.dom().len(),
{
    let mut out: Vec<i64> = Vec::new();
    let mut i: usize = 0;
    while i < list.rows.len()
        invariant
            i <= list.rows@.len(),
            out@.len() == i,
            forall|k: int| 0 <= k < i ==> #[trigger] out@[k] == list.rows@[k].0,
        decreases list.rows@.len() - i,
    {
        out.push(list.rows[i].0);
        i += 1;
    }
    proof {
        lemma_table(list.rows@);
        assert forall|a: int, b: int| 0 <= a < b < out@.len() implies #[trigger] out@[a]
            < #[trigger] out@[b] by {
            assert(list.rows@[a].0 < list.rows@[b].0);
        }
        assert forall|id: i64| #[trigger] out@.contains(id) <==> list@.dom().contains(id) by {
            if out@.contains(id) {
                let k = choose|k: int| 0 <= k < out@.len() && out@[k] == id;
                assert(list.rows@[k].0 == id);
            }
            if list@.dom().contains(id) {
                let k = choose|k: int|
                    0 <= k < list.rows@.len() && (#[trigger] list.rows@[k]).0 == id;
                assert(out@[k] == id);
            }
        }
    }
    out
}

/// The lines that show a list of users.
pub fn whitelist_lines(ids: &Vec<i64>) -> (r: Vec<String>)
    ensures
        ids@.len() == 0 ==> r@.len() == 1 && r@[0]@ == "白名单为空"@,
        ids@.len() > 0 ==> r@.len() == ids@.len(),
        ids@.len() > 0 ==> forall|i: int|
            0 <= i < r@.len() ==> (#[trigger] r@[i])@ == decimal(ids@[i] as int),
{
    let mut out: Vec<String> = Vec::new();
    if ids.is_empty() {
        out.push("白名单为空".to_string());
        return out;
    }
    let mut i: usize = 0;
    while i < ids.len()
        invariant
            i <= ids@.len(),
            out@.len() == i,
            forall|k: int| 0 <= k < i ==> (#[trigger] out@[k])@ == decimal(ids@[k] as int),
        decreases ids@.len() - i,
    {
        out.push(i64_text(ids[i]));
        i += 1;
    }
    out
}

/// What is said when a user has been entered.
pub open spec fn added_spec(tg_id: i64) -> Seq<char> {
    "已添加白名单 TG ID: "@ + decimal(tg_id as int)
}

/// What is said when a user has been entered.
pub fn added_text(tg_id: i64) -> (r: String)
    ensures
        r@ == added_spec(tg_id),
{
    let mut out = "已添加白名单 TG ID: ".to_owned();
    push_i64(&mut out, tg_id);
    out
}

/// What is said when `deleted` rows of a user have been taken off.
pub open spec fn deleted_spec(deleted: nat, tg_id: i64) -> Seq<char> {
    (if deleted == 0 {
        "白名单中没有 TG ID: "@
    } else {
        "已删除白名单 TG ID: "@
    }) + decimal(tg_id as int)
}

/// What is said when `deleted` rows of a user have been taken off.
pub fn deleted_text(deleted: usize, tg_id: i64) -> (r: String)
    ensures
        r@ == deleted_spec(deleted as nat, tg_id),
{
    let mut out = if deleted == 0 {
        "白名单中没有 TG ID: ".to_owned()
    } else {
        "已删除白名单 TG ID: ".to_owned()
    };
    push_i64(&mut out, tg_id);
    out
}

/// What is said when all rows, `deleted` of them, have been taken off.
pub open spec fn cleared_spec(deleted: nat) -> Seq<char> {
    "已删除全部白名单 TG ID，共 "@ + decimal_nat(deleted) + " 个"@
}

/// What is said when all rows, `deleted` of them, have been taken off.
pub fn cleared_text(deleted: usize) -> (r: String)
    ensures
        r@ == cleared_spec(deleted as nat),
{
    let mut out = "已删除全部白名单 TG ID，共 ".to_owned();
    push_u64(&mut out, deleted as u64);
    out.append(" 个");
    out
}

/// A user who has been entered is on the list, and nobody else is who was not.
pub proof fn law_added_is_listed(list: Map<i64, i64>, tg_id: i64, created_at: i64, other: i64)
    ensures
        list.insert(tg_id, created_at).dom().contains(tg_id),
        other != tg_id ==> (list.insert(tg_id, created_at).dom().contains(other)
            <==> list.dom().contains(other)),
{
}

/// A user who has been taken off is not on the list, and everybody else is who
/// was.
pub proof fn law_deleted_is_gone(list: Map<i64, i64>, tg_id: i64, other: i64)
    ensures
        !list.remove(tg_id).dom().contains(tg_id),
        other != tg_id ==> (list.remove(tg_id).dom().contains(other) <==> list.dom().contains(
            other,
        )),
{
}

/// Entering a user and taking them off again leaves the list as it was without
/// them.
pub proof fn law_delete_undoes_add(list: Map<i64, i64>, tg_id: i64, created_at: i64)
    requires
        !list.dom().contains(tg_id),
    ensures
        list.insert(tg_id, created_at).remove(tg_id) == list,
{
    assert(list.insert(tg_id, created_at).remove(tg_id) =~= list);
}

/// A table holds just the users that its rows name, each with the time of the last
/// of their rows.
pub proof fn law_rows_make_the_table(rows: Seq<(i64, i64)>, tg_id: i64)
    ensures
        table_of(rows).dom().contains(tg_id) <==> exists|i: int|
            0 <= i < rows.len() && (#[trigger] rows[i]).0 == tg_id,
        forall|i: int|
            0 <= i < rows.len() && (#[trigger] rows[i]).0 == tg_id && (forall|j: int|
                i < j < rows.len() ==> (#[trigger] rows[j]).0 != tg_id) ==> table_of(rows)[tg_id]
                == rows[i].1,
    decreases rows.len(),
{
    if rows.len() > 0 {
        let rest = rows.drop_last();
        law_rows_make_the_table(rest, tg_id);
        assert(rows[rows.len() - 1] == rows.last());
        assert forall|i: int| 0 <= i < rest.len() implies rest[i] == #[trigger] rows[i] by {}
        if exists|i: int| 0 <= i < rest.len() && (#[trigger] rest[i]).0 == tg_id {
            let i = choose|i: int| 0 <= i < rest.len() && (#[trigger] rest[i]).0 == tg_id;
            assert(rows[i].0 == tg_id);
        }
        assert forall|i: int|
            0 <= i < rows.len() && (#[trigger] rows[i]).0 == tg_id && (forall|j: int|
                i < j < rows.len() ==> (#[trigger] rows[j]).0 != tg_id) implies table_of(
            rows,
        )[tg_id] == rows[i].1 by {
            if i < rest.len() {
                assert(rows.last().0 != tg_id);
                assert(rest[i].0 == tg_id);
                assert forall|j: int| i < j < rest.len() implies (#[trigger] rest[j]).0
                    != tg_id by {
                    assert(rows[j].0 != tg_id);
                }
            }
        }
    }
}

/// What is said names the user, or how many there were, and says of a user who was
/// not on the list that they were not.
pub proof fn law_what_is_said(tg_id: i64, deleted: nat)
    ensures
        added_spec(tg_id) == "已添加白名单 TG ID: "@ + decimal(tg_id as int),
        deleted_spec(0, tg_id) == "白名单中没有 TG ID: "@ + decimal(tg_id as int),
        deleted > 0 ==> deleted_spec(deleted, tg_id) == "已删除白名单 TG ID: "@ + decimal(
            tg_id as int,
        ),
        cleared_spec(deleted) == "已删除全部白名单 TG ID，共 "@ + decimal_nat(deleted) + " 个"@,
{
}

} // verus!
