//! The members who have yet to verify themselves.

use vstd::prelude::*;

verus! {

/// A member of a chat who has yet to verify themselves.
#[derive(Debug, Clone, Copy, PartialEq, Eq, Structural)]
pub struct PendingRow {
    pub user_id: i64,
    pub chat_id: i64,
    /// When the time for the verification is over.
    pub deadline: i64,
    /// How many attempts have failed.
    pub failures: i64,
    /// One while an attempt is under way, else zero.
    pub busy: i64,
}

/// Whether a row is that of a user in a chat.
pub open spec fn is_row(row: PendingRow, user: i64, chat: i64) -> bool {
    row.user_id == user && row.chat_id == chat
}

/// Whether no user occurs twice in a chat.
pub open spec fn distinct(rows: Seq<PendingRow>) -> bool {
    forall|i: int, j: int|
        0 <= i < j < rows.len() ==> !is_row(
            #[trigger] rows[i],
            (#[trigger] rows[j]).user_id,
            rows[j].chat_id,
        )
}

/// The rows without that of a user in a chat.
pub open spec fn without(rows: Seq<PendingRow>, user: i64, chat: i64) -> Seq<PendingRow> {
    rows.filter(|row: PendingRow| !is_row(row, user, chat))
}

/// The rows with `row` at the end, in place of the one of its user in its chat.
pub open spec fn with_row(rows: Seq<PendingRow>, row: PendingRow) -> Seq<PendingRow> {
    without(rows, row.user_id, row.chat_id).push(row)
}

/// The rows, that of a user in a chat having new failures and being free.
pub open spec fn with_failures(
    rows: Seq<PendingRow>,
    user: i64,
    chat: i64,
    failures: i64,
) -> Seq<PendingRow> {
    rows.map_values(
        |row: PendingRow|
            if is_row(row, user, chat) {
                PendingRow { failures, busy: 0, ..row }
            } else {
                row
            },
    )
}

/// The rows, that of a user in a chat being busy or free.
pub open spec fn with_busy(rows: Seq<PendingRow>, user: i64, chat: i64, busy: i64) -> Seq<
    PendingRow,
> {
    rows.map_values(
        |row: PendingRow|
            if is_row(row, user, chat) {
                PendingRow { busy, ..row }
            } else {
                row
            },
    )
}

/// The rows that remain after the rows have been put into an empty table, from
/// first to last.
pub open spec fn rows_of(rows: Seq<PendingRow>) -> Seq<PendingRow>
    decreases rows.len(),
{
    if rows.len() == 0 {
        Seq::empty()
    } else {
        with_row(rows_of(rows.drop_last()), rows.last())
    }
}

/// How many attempts are under way.
pub open spec fn busy_count(rows: Seq<PendingRow>) -> nat
    decreases rows.len(),
{
    if rows.len() == 0 {
        0
    } else {
        busy_count(rows.drop_last()) + if rows.last().busy == 1 {
            1nat
        } else {
            0
        }
    }
}

/// Whether there is a row of a user in a chat.
pub open spec fn has_row(rows: Seq<PendingRow>, user: i64, chat: i64) -> bool {
    exists|i: int| 0 <= i < rows.len() && is_row(#[trigger] rows[i], user, chat)
}

/// Whether an attempt of a user in a chat may begin: there is a row that is free,
/// and fewer than `limit` attempts are under way.
pub open spec fn can_claim(rows: Seq<PendingRow>, user: i64, chat: i64, limit: int) -> bool {
    &&& exists|i: int|
        0 <= i < rows.len() && is_row(#[trigger] rows[i], user, chat) && rows[i].busy == 0
    &&& busy_count(rows) < limit
}

/// The rows whose time is over.
pub open spec fn expired_rows(rows: Seq<PendingRow>, now: int) -> Seq<PendingRow> {
    rows.filter(|row: PendingRow| row.deadline < now)
}

/// Of the rows of a user the one whose time is over last, the first of these
/// where there are several.
pub open spec fn latest_row(rows: Seq<PendingRow>, user: i64) -> Option<PendingRow>
    decreases rows.len(),
{
    if rows.len() == 0 {
        None
    } else {
        let before = latest_row(rows.drop_last(), user);
        let last = rows.last();
        if last.user_id == user && (before is None || before->0.deadline < last.deadline) {
            Some(last)
        } else {
            before
        }
    }
}

/// A change of the table.
#[derive(Debug, Clone, Copy, PartialEq, Eq, Structural)]
pub enum StoreOp {
    /// Enters a row, in place of the one of its user in its chat.
    Insert(PendingRow),
    /// Removes the row of a user in a chat.
    Delete { user: i64, chat: i64 },
    /// Sets the failures of a user in a chat, whose attempt is over.
    SetFailures { user: i64, chat: i64, failures: i64 },
    /// Ends the attempt of a user in a chat.
    Release { user: i64, chat: i64 },
}

/// The rows after a change.
pub open spec fn apply_spec(rows: Seq<PendingRow>, op: StoreOp) -> Seq<PendingRow> {
    match op {
        StoreOp::Insert(row) => with_row(rows, row),
        StoreOp::Delete { user, chat } => without(rows, user, chat),
        StoreOp::SetFailures { user, chat, failures } => with_failures(rows, user, chat, failures),
        StoreOp::Release { user, chat } => with_busy(rows, user, chat, 0),
    }
}

/// What holds of the rows of a table without that of a user in a chat.
proof fn lemma_without(rows: Seq<PendingRow>, user: i64, chat: i64)
    requires
        distinct(rows),
    ensures
        distinct(without(rows, user, chat)),
        !has_row(without(rows, user, chat), user, chat),
        forall|row: PendingRow| #[trigger]
            without(rows, user, chat).contains(row) <==> rows.contains(row) && !is_row(
                row,
                user,
                chat,
            ),
    decreases rows.len(),
{
    reveal(Seq::filter);
    let kept = without(rows, user, chat);
    if rows.len() > 0 {
        let rest = rows.drop_last();
        let last = rows.last();
        assert forall|i: int, j: int| 0 <= i < j < rest.len() implies !is_row(
            #[trigger] rest[i],
            (#[trigger] rest[j]).user_id,
            rest[j].chat_id,
        ) by {
            assert(rest[i] == rows[i] && rest[j] == rows[j]);
        }
        lemma_without(rest, user, chat);
        let kept_rest = without(rest, user, chat);
        assert forall|row: PendingRow| #[trigger] kept.contains(row) <==> rows.contains(row)
            && !is_row(row, user, chat) by {
            if kept.contains(row) {
                let i = choose|i: int| 0 <= i < kept.len() && kept[i] == row;
                if i < kept_rest.len() {
                    assert(kept_rest[i] == row);
                    assert(kept_rest.contains(row));
                    let k = choose|k: int| 0 <= k < rest.len() && rest[k] == row;
                    assert(rows[k] == row);
                } else {
                    assert(rows[rows.len() - 1] == row);
                }
            }
            if rows.contains(row) && !is_row(row, user, chat) {
                let k = choose|k: int| 0 <= k < rows.len() && rows[k] == row;
                if k < rest.len() {
                    assert(rest[k] == row);
                    assert(rest.contains(row));
                    assert(kept_rest.contains(row));
                    let i = choose|i: int| 0 <= i < kept_rest.len() && kept_rest[i] == row;
                    assert(kept[i] == row);
                } else {
                    assert(kept[kept.len() - 1] == row);
                }
            }
        }
        assert forall|i: int, j: int| 0 <= i < j < kept.len() implies !is_row(
            #[trigger] kept[i],
            (#[trigger] kept[j]).user_id,
            kept[j].chat_id,
        ) by {
            assert(kept_rest[i] == kept[i]);
            if j < kept_rest.len() {
                assert(kept_rest[j] == kept[j]);
            } else {
                assert(kept_rest.contains(kept_rest[i]));
                let k = choose|k: int| 0 <= k < rest.len() && rest[k] == kept[i];
                assert(rows[k] == kept[i]);
                assert(rows[rows.len() - 1] == kept[j]);
            }
        }
    }
    if has_row(kept, user, chat) {
        let i = choose|i: int| 0 <= i < kept.len() && is_row(#[trigger] kept[i], user, chat);
        assert(kept.contains(kept[i]));
    }
}

/// A row entered in place of the one of its user in its chat keeps the rows
/// distinct.
proof fn lemma_with_row(rows: Seq<PendingRow>, row: PendingRow)
    requires
        distinct(rows),
    ensures
        distinct(with_row(rows, row)),
{
    lemma_without(rows, row.user_id, row.chat_id);
    let kept = without(rows, row.user_id, row.chat_id);
    let after = kept.push(row);
    assert forall|i: int, j: int| 0 <= i < j < after.len() implies !is_row(
        #[trigger] after[i],
        (#[trigger] after[j]).user_id,
        after[j].chat_id,
    ) by {
        assert(after[i] == kept[i]);
        if j < kept.len() {
            assert(after[j] == kept[j]);
        }
    }
}

/// Every change keeps the rows distinct.
pub proof fn law_changes_keep_rows_distinct(rows: Seq<PendingRow>, op: StoreOp)
    requires
        distinct(rows),
    ensures
        distinct(apply_spec(rows, op)),
{
    match op {
        StoreOp::Insert(row) => {
            lemma_with_row(rows, row);
        },
        StoreOp::Delete { user, chat } => {
            lemma_without(rows, user, chat);
        },
        StoreOp::SetFailures { user, chat, failures } => {
            let after = with_failures(rows, user, chat, failures);
            assert forall|i: int, j: int| 0 <= i < j < after.len() implies !is_row(
                #[trigger] after[i],
                (#[trigger] after[j]).user_id,
                after[j].chat_id,
            ) by {
                assert(!is_row(rows[i], rows[j].user_id, rows[j].chat_id));
            }
        },
        StoreOp::Release { user, chat } => {
            lemma_with_busy(rows, user, chat, 0);
        },
    }
}

/// Whether rows are busy does not matter to their being distinct.
pub(crate) proof fn lemma_with_busy(rows: Seq<PendingRow>, user: i64, chat: i64, busy: i64)
    requires
        distinct(rows),
    ensures
        distinct(with_busy(rows, user, chat, busy)),
{
    let after = with_busy(rows, user, chat, busy);
    assert forall|i: int, j: int| 0 <= i < j < after.len() implies !is_row(
        #[trigger] after[i],
        (#[trigger] after[j]).user_id,
        after[j].chat_id,
    ) by {
        assert(!is_row(rows[i], rows[j].user_id, rows[j].chat_id));
    }
}

/// The members who have yet to verify themselves.
pub struct Pending {
    rows: Vec<PendingRow>,
}

impl View for Pending {
    type V = Seq<PendingRow>;

    closed spec fn view(&self) -> Seq<PendingRow> {
        self.rows@
    }
}

impl Pending {
    /// No user occurs twice in a chat.
    pub open spec fn wf(&self) -> bool {
        distinct(self@)
    }

    /// A table without rows.
    pub fn new() -> (r: Pending)
        ensures
            r.wf(),
            r@ == Seq::<PendingRow>::empty(),
    {
        Pending { rows: Vec::new() }
    }

    /// The table that holds the rows; of several for a user in a chat, the last.
    pub fn from_rows(rows: &Vec<PendingRow>) -> (r: Pending)
        ensures
            r.wf(),
            r@ == rows_of(rows@),
    {
        let mut table = Pending::new();
        let mut i: usize = 0;
        assert(rows@.take(0) =~= Seq::<PendingRow>::empty());
        while i < rows.len()
            invariant
                i <= rows@.len(),
                table.wf(),
                table@ == rows_of(rows@.take(i as int)),
            decreases rows@.len() - i,
        {
            table.apply(StoreOp::Insert(rows[i]));
            proof {
                let next = rows@.take(i + 1);
                assert(next.drop_last() =~= rows@.take(i as int));
                assert(next.last() == rows@[i as int]);
            }
            i += 1;
        }
        assert(rows@.take(rows@.len() as int) =~= rows@);
        table
    }

    /// The rows, in the order in which they were entered.
    pub fn rows(&self) -> (r: &Vec<PendingRow>)
        ensures
            r@ == self@,
    {
        &self.rows
    }

    fn remove(&mut self, user: i64, chat: i64)
        ensures
            final(self)@ == without(old(self)@, user, chat),
    {
        let ghost all = self.rows@;
        let ghost keep = |row: PendingRow| !is_row(row, user, chat);
        let mut out: Vec<PendingRow> = Vec::new();
        let mut i: usize = 0;
        assert(all.take(0).filter(keep) =~= Seq::<PendingRow>::empty()) by {
            reveal(Seq::filter);
        }
        while i < self.rows.len()
            invariant
                i <= self.rows@.len(),
                all == self.rows@,
                keep == (|row: PendingRow| !is_row(row, user, chat)),
                out@ == all.take(i as int).filter(keep),
            decreases self.rows@.len() - i,
        {
            let row = self.rows[i];
            proof {
                reveal(Seq::filter);
                assert(all.take(i + 1).drop_last() =~= all.take(i as int));
                assert(all.take(i + 1).last() == row);
            }
            if !(row.user_id == user && row.chat_id == chat) {
                out.push(row);
            }
            i += 1;
        }
        assert(all.take(all.len() as int) =~= all);
        self.rows = out;
    }

    fn set_busy(&mut self, user: i64, chat: i64, busy: i64)
        ensures
            final(self)@ == with_busy(old(self)@, user, chat, busy),
    {
        let ghost all = self.rows@;
        let mut i: usize = 0;
        while i < self.rows.len()
            invariant
                i <= self.rows@.len(),
                self.rows@.len() == all.len(),
                forall|k: int|
                    0 <= k < i ==> #[trigger] self.rows@[k] == with_busy(all, user, chat, busy)[k],
                forall|k: int| i <= k < all.len() ==> #[trigger] self.rows@[k] == all[k],
            decreases self.rows@.len() - i,
        {
            let row = self.rows[i];
            if row.user_id == user && row.chat_id == chat {
                self.rows.set(i, PendingRow { busy, ..row });
            }
            i += 1;
        }
        assert(self.rows@ =~= with_busy(all, user, chat, busy));
    }

    fn set_failures(&mut self, user: i64, chat: i64, failures: i64)
        ensures
            final(self)@ == with_failures(old(self)@, user, chat, failures),
    {
        let ghost all = self.rows@;
        let mut i: usize = 0;
        while i < self.rows.len()
            invariant
                i <= self.rows@.len(),
                self.rows@.len() == all.len(),
                forall|k: int|
                    0 <= k < i ==> #[trigger] self.rows@[k] == with_failures(
                        all,
                        user,
                        chat,
                        failures,
                    )[k],
                forall|k: int| i <= k < all.len() ==> #[trigger] self.rows@[k] == all[k],
            decreases self.rows@.len() - i,
        {
            let row = self.rows[i];
            if row.user_id == user && row.chat_id == chat {
                self.rows.set(i, PendingRow { failures, busy: 0, ..row });
            }
            i += 1;
        }
        assert(self.rows@ =~= with_failures(all, user, chat, failures));
    }

    /// Makes a change.
    pub fn apply(&mut self, op: StoreOp)
        requires
            old(self).wf(),
        ensures
            final(self).wf(),
            final(self)@ == apply_spec(old(self)@, op),
    {
        proof {
            law_changes_keep_rows_distinct(self@, op);
        }
        match op {
            StoreOp::Insert(row) => {
                self.remove(row.user_id, row.chat_id);
                self.rows.push(row);
            },
            StoreOp::Delete { user, chat } => {
                self.remove(user, chat);
            },
            StoreOp::SetFailures { user, chat, failures } => {
                self.set_failures(user, chat, failures);
            },
            StoreOp::Release { user, chat } => {
                self.set_busy(user, chat, 0);
            },
        }
    }

    /// The rows whose time is over at `now`.
    pub fn expired(&self, now: i64) -> (r: Vec<PendingRow>)
        ensures
            r@ == expired_rows(self@, now as int),
    {
        let ghost all = self.rows@;
        let ghost over = |row: PendingRow| row.deadline < now as int;
        let mut out: Vec<PendingRow> = Vec::new();
        let mut i: usize = 0;
        assert(all.take(0).filter(over) =~= Seq::<PendingRow>::empty()) by {
            reveal(Seq::filter);
        }
        while i < self.rows.len()
            invariant
                i <= self.rows@.len(),
                all == self.rows@,
                over == (|row: PendingRow| row.deadline < now as int),
                out@ == all.take(i as int).filter(over),
            decreases self.rows@.len() - i,
        {
            let row = self.rows[i];
            proof {
                reveal(Seq::filter);
                assert(all.take(i + 1).drop_last() =~= all.take(i as int));
                assert(all.take(i + 1).last() == row);
            }
            if row.deadline < now {
                out.push(row);
            }
            i += 1;
        }
        assert(all.take(all.len() as int) =~= all);
        out
    }

    /// Of the rows of a user the one whose time is over last.
    pub fn latest(&self, user: i64) -> (r: Option<PendingRow>)
        ensures
            r == latest_row(self@, user),
    {
        let ghost all = self.rows@;
        let mut best: Option<PendingRow> = None;
        let mut i: usize = 0;
        while i < self.rows.len()
            invariant
                i <= self.rows@.len(),
                all == self.rows@,
                best == latest_row(all.take(i as int), user),
            decreases self.rows@.len() - i,
        {
            let row = self.rows[i];
            proof {
                assert(all.take(i + 1).drop_last() =~= all.take(i as int));
                assert(all.take(i + 1).last() == row);
            }
            let later = match best {
                Some(b) => b.deadline < row.deadline,
                None => true,
            };
            if row.user_id == user && later {
                best = Some(row);
            }
            i += 1;
        }
        assert(all.take(all.len() as int) =~= all);
        best
    }
}

/// How many rows are busy, and whether that of a user in a chat is free.
fn survey(table: &Pending, user: i64, chat: i64) -> (r: (usize, bool))
    ensures
        r.0 == busy_count(table@),
        r.1 == exists|i: int|
            0 <= i < table@.len() && is_row(#[trigger] table@[i], user, chat) && table@[i].busy
                == 0,
{
    let ghost all = table.rows@;
    let mut count: usize = 0;
    let mut free = false;
    let mut i: usize = 0;
    while i < table.rows.len()
        invariant
            i <= table.rows@.len(),
            all == table.rows@,
            count <= i,
            count == busy_count(all.take(i as int)),
            free == exists|k: int|
                0 <= k < i && is_row(#[trigger] all[k], user, chat) && all[k].busy == 0,
        decreases table.rows@.len() - i,
    {
        let row = table.rows[i];
        proof {
            assert(all.take(i + 1).drop_last() =~= all.take(i as int));
            assert(all.take(i + 1).last() == row);
        }
        if row.busy == 1 {
            count += 1;
        }
        if row.user_id == user && row.chat_id == chat && row.busy == 0 {
            assert(is_row(all[i as int], user, chat));
            free = true;
        }
        i += 1;
    }
    proof {
        assert(all.take(all.len() as int) =~= all);
        assert(table@ == all);
        if free {
            let k = choose|k: int|
                0 <= k < i && is_row(#[trigger] all[k], user, chat) && all[k].busy == 0;
            assert(is_row(table@[k], user, chat));
        }
    }
    (count, free)
}

/// Begins an attempt of a user in a chat, if it may begin: its row becomes busy.
pub fn claim_slot(table: &mut Pending, user: i64, chat: i64, limit: u32) -> (r: bool)
    requires
        old(table).wf(),
    ensures
        final(table).wf(),
        r == can_claim(old(table)@, user, chat, limit as int),
        final(table)@ == (if r {
            with_busy(old(table)@, user, chat, 1)
        } else {
            old(table)@
        }),
{
    let (count, free) = survey(table, user, chat);
    if free && count < limit as usize {
        proof {
            lemma_with_busy(table@, user, chat, 1);
        }
        table.set_busy(user, chat, 1);
        true
    } else {
        false
    }
}

proof fn lemma_distinct_rest(rows: Seq<PendingRow>)
    requires
        distinct(rows),
        rows.len() > 0,
    ensures
        distinct(rows.drop_last()),
        !has_row(rows.drop_last(), rows.last().user_id, rows.last().chat_id),
{
    let rest = rows.drop_last();
    assert forall|i: int, j: int| 0 <= i < j < rest.len() implies !is_row(
        #[trigger] rest[i],
        (#[trigger] rest[j]).user_id,
        rest[j].chat_id,
    ) by {
        assert(rest[i] == rows[i] && rest[j] == rows[j]);
    }
    if has_row(rest, rows.last().user_id, rows.last().chat_id) {
        let i = choose|i: int|
            0 <= i < rest.len() && is_row(
                #[trigger] rest[i],
                rows.last().user_id,
                rows.last().chat_id,
            );
        assert(rest[i] == rows[i]);
        assert(rows[rows.len() - 1] == rows.last());
    }
}

/// Without a row of a user in a chat there is nothing to make busy.
proof fn lemma_with_busy_absent(rows: Seq<PendingRow>, user: i64, chat: i64, busy: i64)
    requires
        !has_row(rows, user, chat),
    ensures
        with_busy(rows, user, chat, busy) == rows,
{
    assert forall|i: int| 0 <= i < rows.len() implies with_busy(rows, user, chat, busy)[i]
        == #[trigger] rows[i] by {
        assert(!is_row(rows[i], user, chat));
    }
    assert(with_busy(rows, user, chat, busy) =~= rows);
}

/// An attempt that begins is one more under way, and no more than `limit` are.
pub proof fn law_claim_respects_limit(rows: Seq<PendingRow>, user: i64, chat: i64, limit: int)
    requires
        distinct(rows),
        can_claim(rows, user, chat, limit),
    ensures
        busy_count(with_busy(rows, user, chat, 1)) == busy_count(rows) + 1,
        busy_count(with_busy(rows, user, chat, 1)) <= limit,
{
    lemma_claim_adds_one(rows, user, chat);
}

proof fn lemma_claim_adds_one(rows: Seq<PendingRow>, user: i64, chat: i64)
    requires
        distinct(rows),
        exists|i: int|
            0 <= i < rows.len() && is_row(#[trigger] rows[i], user, chat) && rows[i].busy == 0,
    ensures
        busy_count(with_busy(rows, user, chat, 1)) == busy_count(rows) + 1,
    decreases rows.len(),
{
    let after = with_busy(rows, user, chat, 1);
    let rest = rows.drop_last();
    let last = rows.last();
    lemma_distinct_rest(rows);
    assert(after.drop_last() =~= with_busy(rest, user, chat, 1));
    if is_row(last, user, chat) {
        lemma_with_busy_absent(rest, user, chat, 1);
        let i = choose|i: int|
            0 <= i < rows.len() && is_row(#[trigger] rows[i], user, chat) && rows[i].busy == 0;
        if i < rest.len() {
            assert(is_row(rest[i], user, chat));
        }
    } else {
        let i = choose|i: int|
            0 <= i < rows.len() && is_row(#[trigger] rows[i], user, chat) && rows[i].busy == 0;
        assert(rest[i] == rows[i]);
        lemma_claim_adds_one(rest, user, chat);
    }
}

/// No change other than entering a busy row lets more attempts be under way.
pub proof fn law_changes_start_nothing(rows: Seq<PendingRow>, op: StoreOp)
    requires
        op matches StoreOp::Insert(row) ==> row.busy != 1,
    ensures
        busy_count(apply_spec(rows, op)) <= busy_count(rows),
    decreases
            rows.len(),
            (if op is Insert {
                1nat
            } else {
                0
            }),
{
    match op {
        StoreOp::Insert(row) => {
            law_changes_start_nothing(
                rows,
                StoreOp::Delete { user: row.user_id, chat: row.chat_id },
            );
            let kept = without(rows, row.user_id, row.chat_id);
            assert(kept.push(row).drop_last() =~= kept);
        },
        StoreOp::Delete { user, chat } => {
            reveal(Seq::filter);
            if rows.len() > 0 {
                law_changes_start_nothing(rows.drop_last(), op);
                let kept = without(rows.drop_last(), user, chat);
                assert(kept.push(rows.last()).drop_last() =~= kept);
            }
        },
        StoreOp::SetFailures { user, chat, failures } => {
            if rows.len() > 0 {
                law_changes_start_nothing(rows.drop_last(), op);
                assert(with_failures(rows, user, chat, failures).drop_last() =~= with_failures(
                    rows.drop_last(),
                    user,
                    chat,
                    failures,
                ));
            }
        },
        StoreOp::Release { user, chat } => {
            if rows.len() > 0 {
                law_changes_start_nothing(rows.drop_last(), op);
                assert(with_busy(rows, user, chat, 0).drop_last() =~= with_busy(
                    rows.drop_last(),
                    user,
                    chat,
                    0,
                ));
            }
        },
    }
}

/// The row found for a user is one of the rows, none of the user's rows has a
/// later deadline, and one is found where there is any.
pub proof fn law_latest_row(rows: Seq<PendingRow>, user: i64)
    ensures
        match latest_row(rows, user) {
            Some(row) => {
                &&& rows.contains(row)
                &&& row.user_id == user
                &&& forall|i: int|
                    0 <= i < rows.len() && (#[trigger] rows[i]).user_id == user
                        ==> rows[i].deadline <= row.deadline
            },
            None => forall|i: int|
                0 <= i < rows.len() ==> (#[trigger] rows[i]).user_id != user,
        },
    decreases rows.len(),
{
    if rows.len() > 0 {
        let rest = rows.drop_last();
        law_latest_row(rest, user);
        assert forall|i: int| 0 <= i < rest.len() implies rest[i] == #[trigger] rows[i] by {}
        assert(rows[rows.len() - 1] == rows.last());
        if let Some(row) = latest_row(rest, user) {
            let k = choose|k: int| 0 <= k < rest.len() && rest[k] == row;
            assert(rows[k] == row);
        }
    }
}

/// A row that is removed is gone, and every other row stays.
pub proof fn law_removed_is_gone(rows: Seq<PendingRow>, user: i64, chat: i64)
    requires
        distinct(rows),
    ensures
        !has_row(without(rows, user, chat), user, chat),
        forall|row: PendingRow| #[trigger]
            without(rows, user, chat).contains(row) <==> rows.contains(row) && !is_row(
                row,
                user,
                chat,
            ),
{
    lemma_without(rows, user, chat);
}

/// A row that is entered is there, and every row of another user or chat stays.
pub proof fn law_entered_is_there(rows: Seq<PendingRow>, new: PendingRow)
    requires
        distinct(rows),
    ensures
        forall|row: PendingRow| #[trigger]
            with_row(rows, new).contains(row) <==> row == new || (rows.contains(row) && !is_row(
                row,
                new.user_id,
                new.chat_id,
            )),
{
    lemma_without(rows, new.user_id, new.chat_id);
    let kept = without(rows, new.user_id, new.chat_id);
    let after = kept.push(new);
    assert forall|row: PendingRow| #[trigger] after.contains(row) <==> row == new || (
    rows.contains(row) && !is_row(row, new.user_id, new.chat_id)) by {
        if after.contains(row) {
            let i = choose|i: int| 0 <= i < after.len() && after[i] == row;
            if i < kept.len() {
                assert(kept[i] == row);
                assert(kept.contains(row));
            }
        }
        if row == new {
            assert(after[kept.len() as int] == row);
        }
        if rows.contains(row) && !is_row(row, new.user_id, new.chat_id) {
            assert(kept.contains(row));
            let i = choose|i: int| 0 <= i < kept.len() && kept[i] == row;
            assert(after[i] == row);
        }
    }
}

/// A member whose attempt is over is free to make another.
pub proof fn law_released_is_free(rows: Seq<PendingRow>, user: i64, chat: i64, i: int)
    requires
        0 <= i < rows.len(),
        is_row(rows[i], user, chat),
    ensures
        apply_spec(rows, StoreOp::Release { user, chat })[i] == (PendingRow { busy: 0, ..rows[i] }),
{
}

/// The attempts under way are counted: as many as there are rows that are busy.
pub proof fn law_busy_rows_are_counted(rows: Seq<PendingRow>)
    ensures
        busy_count(rows) == rows.filter(|row: PendingRow| row.busy == 1).len(),
    decreases rows.len(),
{
    reveal(Seq::filter);
    if rows.len() > 0 {
        law_busy_rows_are_counted(rows.drop_last());
    }
}

/// Setting the failures of a member leaves every row in its place: that of the
/// member has just these failures and is free, and the others are as they were.
pub proof fn law_failures_are_set(
    rows: Seq<PendingRow>,
    user: i64,
    chat: i64,
    failures: i64,
    i: int,
)
    requires
        0 <= i < rows.len(),
    ensures
        ({
            let after = apply_spec(rows, StoreOp::SetFailures { user, chat, failures });
            &&& after.len() == rows.len()
            &&& rows[i].user_id == user && rows[i].chat_id == chat ==> after[i] == (PendingRow {
                failures,
                busy: 0,
                ..rows[i]
            })
            &&& rows[i].user_id != user || rows[i].chat_id != chat ==> after[i] == rows[i]
        }),
{
}

/// Beginning or ending an attempt of a member marks just their row.
pub proof fn law_busy_is_set(rows: Seq<PendingRow>, user: i64, chat: i64, busy: i64, i: int)
    requires
        0 <= i < rows.len(),
    ensures
        ({
            let after = with_busy(rows, user, chat, busy);
            &&& after.len() == rows.len()
            &&& rows[i].user_id == user && rows[i].chat_id == chat ==> after[i] == (PendingRow {
                busy,
                ..rows[i]
            })
            &&& rows[i].user_id != user || rows[i].chat_id != chat ==> after[i] == rows[i]
        }),
        apply_spec(rows, StoreOp::Release { user, chat }) == with_busy(rows, user, chat, 0),
{
}

/// Removing a member and entering one change the table as they say: a row is
/// there afterwards just if it is the one that is entered, or was there and is of
/// another member or chat.
pub proof fn law_changes(rows: Seq<PendingRow>, new: PendingRow, user: i64, chat: i64)
    requires
        distinct(rows),
    ensures
        forall|row: PendingRow| #[trigger]
            apply_spec(rows, StoreOp::Delete { user, chat }).contains(row) <==> rows.contains(row)
                && (row.user_id != user || row.chat_id != chat),
        forall|row: PendingRow| #[trigger]
            apply_spec(rows, StoreOp::Insert(new)).contains(row) <==> row == new || (rows.contains(
                row,
            ) && (row.user_id != new.user_id || row.chat_id != new.chat_id)),
{
    law_removed_is_gone(rows, user, chat);
    law_entered_is_there(rows, new);
}

/// A table without repetitions is taken over as it is.
pub proof fn law_distinct_rows_are_kept(rows: Seq<PendingRow>)
    requires
        distinct(rows),
    ensures
        rows_of(rows) == rows,
    decreases rows.len(),
{
    if rows.len() > 0 {
        let rest = rows.drop_last();
        let last = rows.last();
        lemma_distinct_rest(rows);
        law_distinct_rows_are_kept(rest);
        assert forall|i: int| 0 <= i < rest.len() implies !is_row(
            #[trigger] rest[i],
            last.user_id,
            last.chat_id,
        ) by {
            assert(rest[i] == rows[i]);
            assert(!is_row(rows[i], rows[rows.len() - 1].user_id, rows[rows.len() - 1].chat_id));
        }
        lemma_nothing_removed(rest, last.user_id, last.chat_id);
        assert(rest.push(last) =~= rows);
    }
}

proof fn lemma_nothing_removed(rows: Seq<PendingRow>, user: i64, chat: i64)
    requires
        forall|i: int| 0 <= i < rows.len() ==> !is_row(#[trigger] rows[i], user, chat),
    ensures
        without(rows, user, chat) == rows,
    decreases rows.len(),
{
    reveal(Seq::filter);
    if rows.len() > 0 {
        let rest = rows.drop_last();
        assert forall|i: int| 0 <= i < rest.len() implies !is_row(
            #[trigger] rest[i],
            user,
            chat,
        ) by {
            assert(rest[i] == rows[i]);
        }
        lemma_nothing_removed(rest, user, chat);
        assert(!is_row(rows[rows.len() - 1], user, chat));
        assert(rest.push(rows.last()) =~= rows);
    }
}

} // verus!
