//! Tables of records keyed by an id and owned by a user, and the queries
//! that the service runs on them.
use vstd::prelude::*;

verus! {

/// A row of a table: it has a primary key, may belong to a user, and can
/// take the changes of an update request.
pub trait Record: Sized {
    /// The primary key.
    spec fn key(&self) -> Seq<char>;

    /// Whether the row belongs to the user whose id is `sub`.
    spec fn belongs_to(&self, sub: Seq<char>) -> bool;

    /// The row after an update that carries `changes`: the primary key
    /// stays, every field that always has a value is taken from `changes`,
    /// and an optional field only where `changes` has a value.
    spec fn changed_by(&self, changes: &Self) -> Self;

    fn id(&self) -> (r: &String)
        ensures
            r@ == self.key(),
    ;

    fn has_key(&self, id: &String) -> (r: bool)
        ensures
            r == (self.key() == id@),
    ;

    fn is_owned_by(&self, sub: &String) -> (r: bool)
        ensures
            r == self.belongs_to(sub@),
    ;

    fn apply_changes(&self, changes: &Self) -> (r: Self)
        ensures
            r == self.changed_by(changes),
    ;

    fn duplicate(&self) -> (r: Self)
        ensures
            r == *self,
    ;

    proof fn lemma_changes_keep_key(&self, changes: &Self)
        ensures
            self.changed_by(changes).key() == self.key(),
    ;

    proof fn lemma_changes_idempotent(&self, changes: &Self)
        ensures
            self.changed_by(changes).changed_by(changes) == self.changed_by(changes),
    ;
}

/// No two rows share a primary key.
pub open spec fn keys_unique<R: Record>(rows: Seq<R>) -> bool {
    forall|i: int, j: int|
        0 <= i < rows.len() && 0 <= j < rows.len() && i != j ==> #[trigger] rows[i].key()
            != #[trigger] rows[j].key()
}

/// Some row has the primary key `id`.
pub open spec fn key_taken<R: Record>(rows: Seq<R>, id: Seq<char>) -> bool {
    exists|i: int| 0 <= i < rows.len() && #[trigger] rows[i].key() == id
}

/// The rows of the user `sub`, in table order.
pub open spec fn owned_rows<R: Record>(rows: Seq<R>, sub: Seq<char>) -> Seq<R> {
    rows.filter(|r: R| r.belongs_to(sub))
}

/// The row has the key `id` and belongs to the user `sub`.
pub open spec fn selects<R: Record>(row: R, id: Seq<char>, sub: Seq<char>) -> bool {
    row.key() == id && row.belongs_to(sub)
}

/// The first row, in table order, that has the key `id` and belongs to `sub`.
pub open spec fn first_selected<R: Record>(rows: Seq<R>, id: Seq<char>, sub: Seq<char>) -> Option<
    R,
>
    decreases rows.len(),
{
    if rows.len() == 0 {
        None
    } else if selects(rows[0], id, sub) {
        Some(rows[0])
    } else {
        first_selected(rows.drop_first(), id, sub)
    }
}

/// The table after an update of the rows that have the key `id` and belong
/// to `sub`; every other row stays as it was.
pub open spec fn updated_rows<R: Record>(
    rows: Seq<R>,
    id: Seq<char>,
    sub: Seq<char>,
    changes: R,
) -> Seq<R> {
    Seq::new(
        rows.len(),
        |i: int|
            if selects(rows[i], id, sub) {
                rows[i].changed_by(&changes)
            } else {
                rows[i]
            },
    )
}

/// Whether some row has the primary key `id`.
pub fn contains_key<R: Record>(rows: &Vec<R>, id: &String) -> (r: bool)
    ensures
        r == key_taken(rows@, id@),
{
    let mut i: usize = 0;
    while i < rows.len()
        invariant
            i <= rows@.len(),
            forall|j: int| 0 <= j < i ==> #[trigger] rows@[j].key() != id@,
        decreases rows@.len() - i,
    {
        if rows[i].has_key(id) {
            return true;
        }
        i = i + 1;
    }
    false
}

/// The rows of the user `sub`, in table order.
pub fn select_owned<R: Record>(rows: &Vec<R>, sub: &String) -> (r: Vec<R>)
    ensures
        r@ == owned_rows(rows@, sub@),
{
    let mut out: Vec<R> = Vec::new();
    let mut i: usize = 0;
    while i < rows.len()
        invariant
            i <= rows@.len(),
            out@ == owned_rows(rows@.take(i as int), sub@),
        decreases rows@.len() - i,
    {
        proof {
            assert(rows@.take(i + 1).drop_last() =~= rows@.take(i as int));
            reveal_with_fuel(Seq::<_>::filter, 1);
        }
        if rows[i].is_owned_by(sub) {
            out.push(rows[i].duplicate());
        }
        i = i + 1;
    }
    assert(rows@.take(rows@.len() as int) =~= rows@);
    out
}

/// The first row that has the key `id` and belongs to `sub`.
pub fn find_selected<R: Record>(rows: &Vec<R>, id: &String, sub: &String) -> (r: Option<R>)
    ensures
        r == first_selected(rows@, id@, sub@),
{
    assert(rows@.skip(0) =~= rows@);
    let mut i: usize = 0;
    while i < rows.len()
        invariant
            i <= rows@.len(),
            first_selected(rows@, id@, sub@) == first_selected(rows@.skip(i as int), id@, sub@),
        decreases rows@.len() - i,
    {
        assert(rows@.skip(i as int)[0] == rows@[i as int]);
        if rows[i].has_key(id) && rows[i].is_owned_by(sub) {
            return Some(rows[i].duplicate());
        }
        assert(rows@.skip(i as int).drop_first() =~= rows@.skip(i + 1));
        i = i + 1;
    }
    None
}

/// Applies `changes` to the rows that have the key `id` and belong to `sub`.
pub fn update_selected<R: Record>(rows: &mut Vec<R>, id: &String, sub: &String, changes: &R)
    ensures
        final(rows)@ == updated_rows(old(rows)@, id@, sub@, *changes),
{
    let ghost before = rows@;
    let mut i: usize = 0;
    while i < rows.len()
        invariant
            rows@.len() == before.len(),
            i <= rows@.len(),
            forall|j: int|
                0 <= j < i ==> #[trigger] rows@[j] == updated_rows(before, id@, sub@, *changes)[j],
            forall|j: int| i <= j < rows@.len() ==> #[trigger] rows@[j] == before[j],
        decreases rows@.len() - i,
    {
        if rows[i].has_key(id) && rows[i].is_owned_by(sub) {
            let changed = rows[i].apply_changes(changes);
            rows.set(i, changed);
        }
        i = i + 1;
    }
    assert(rows@ =~= updated_rows(before, id@, sub@, *changes));
}


/// The first row, in table order, with the primary key `id`.
pub open spec fn first_keyed<R: Record>(rows: Seq<R>, id: Seq<char>) -> Option<R>
    decreases rows.len(),
{
    if rows.len() == 0 {
        None
    } else if rows[0].key() == id {
        Some(rows[0])
    } else {
        first_keyed(rows.drop_first(), id)
    }
}

/// The row with the primary key `id`, whoever owns it.
pub fn find_keyed<R: Record>(rows: &Vec<R>, id: &String) -> (r: Option<R>)
    ensures
        r == first_keyed(rows@, id@),
{
    assert(rows@.skip(0) =~= rows@);
    let mut i: usize = 0;
    while i < rows.len()
        invariant
            i <= rows@.len(),
            first_keyed(rows@, id@) == first_keyed(rows@.skip(i as int), id@),
        decreases rows@.len() - i,
    {
        assert(rows@.skip(i as int)[0] == rows@[i as int]);
        if rows[i].has_key(id) {
            return Some(rows[i].duplicate());
        }
        assert(rows@.skip(i as int).drop_first() =~= rows@.skip(i + 1));
        i = i + 1;
    }
    None
}

/// In a table with unique keys, the row at index `i` is the one that a
/// lookup of its key by its owner finds.
pub proof fn lemma_unique_row_is_selected<R: Record>(rows: Seq<R>, i: int, sub: Seq<char>)
    requires
        keys_unique(rows),
        0 <= i < rows.len(),
    ensures
        first_selected(rows, rows[i].key(), sub) == (if rows[i].belongs_to(sub) {
            Some(rows[i])
        } else {
            None::<R>
        }),
        first_keyed(rows, rows[i].key()) == Some(rows[i]),
    decreases rows.len(),
{
    if i > 0 {
        let rest = rows.drop_first();
        assert forall|a: int, b: int|
            0 <= a < rest.len() && 0 <= b < rest.len() && a != b implies #[trigger] rest[a].key()
                != #[trigger] rest[b].key() by {
            assert(rest[a] == rows[a + 1]);
            assert(rest[b] == rows[b + 1]);
        }
        assert(rest[i - 1] == rows[i]);
        lemma_unique_row_is_selected(rest, i - 1, sub);
        assert(rows[0].key() != rows[i].key());
    } else if !rows[0].belongs_to(sub) {
        let rest = rows.drop_first();
        assert forall|a: int| 0 <= a < rest.len() implies !selects(#[trigger] rest[a], rows[0].key(), sub) by {
            assert(rest[a] == rows[a + 1]);
        }
        lemma_none_selected(rest, rows[0].key(), sub);
    }
}

/// Where no row has the key `id` and belongs to `sub`, a lookup finds nothing.
pub proof fn lemma_none_selected<R: Record>(rows: Seq<R>, id: Seq<char>, sub: Seq<char>)
    requires
        forall|i: int| 0 <= i < rows.len() ==> !selects(#[trigger] rows[i], id, sub),
    ensures
        first_selected(rows, id, sub) == None::<R>,
    decreases rows.len(),
{
    if rows.len() > 0 {
        let rest = rows.drop_first();
        assert(!selects(rows[0], id, sub));
        assert forall|a: int| 0 <= a < rest.len() implies !selects(#[trigger] rest[a], id, sub) by {
            assert(rest[a] == rows[a + 1]);
        }
        lemma_none_selected(rest, id, sub);
    }
}

/// Read after write: a row appended under a new key, and owned by `sub`, is
/// what a lookup of that key by `sub` finds.
pub proof fn lemma_created_row_is_found<R: Record>(rows: Seq<R>, row: R, sub: Seq<char>)
    requires
        keys_unique(rows),
        !key_taken(rows, row.key()),
        row.belongs_to(sub),
    ensures
        first_selected(rows.push(row), row.key(), sub) == Some(row),
{
    let after = rows.push(row);
    assert forall|i: int, j: int|
        0 <= i < after.len() && 0 <= j < after.len() && i != j implies #[trigger] after[i].key()
            != #[trigger] after[j].key() by {
        if i == rows.len() {
            assert(after[j] == rows[j]);
        } else if j == rows.len() {
            assert(after[i] == rows[i]);
        }
    }
    assert(after[rows.len() as int] == row);
    lemma_unique_row_is_selected(after, rows.len() as int, sub);
}

/// A listing after an append: the owner of the new row sees it at the end
/// of its list, every other user sees the same list as before.
pub proof fn lemma_listing_after_append<R: Record>(rows: Seq<R>, row: R, sub: Seq<char>)
    ensures
        owned_rows(rows.push(row), sub) == (if row.belongs_to(sub) {
            owned_rows(rows, sub).push(row)
        } else {
            owned_rows(rows, sub)
        }),
{
    reveal_with_fuel(Seq::<_>::filter, 1);
    assert(rows.push(row).drop_last() =~= rows);
}

/// An update by `sub` leaves every row that `sub` does not own, and every
/// row with another key, as it was.
pub proof fn lemma_update_isolation<R: Record>(rows: Seq<R>, id: Seq<char>, sub: Seq<char>, changes: R)
    ensures
        updated_rows(rows, id, sub, changes).len() == rows.len(),
        forall|i: int|
            0 <= i < rows.len() && !(#[trigger] rows[i].belongs_to(sub)) ==> updated_rows(
                rows,
                id,
                sub,
                changes,
            )[i] == rows[i],
        forall|i: int|
            0 <= i < rows.len() && #[trigger] rows[i].key() != id ==> updated_rows(
                rows,
                id,
                sub,
                changes,
            )[i] == rows[i],
{
}

/// Sending the same update twice has the effect of sending it once.
pub proof fn lemma_update_idempotent<R: Record>(rows: Seq<R>, id: Seq<char>, sub: Seq<char>, changes: R)
    ensures
        updated_rows(updated_rows(rows, id, sub, changes), id, sub, changes) == updated_rows(
            rows,
            id,
            sub,
            changes,
        ),
{
    let once = updated_rows(rows, id, sub, changes);
    let twice = updated_rows(once, id, sub, changes);
    assert forall|i: int| 0 <= i < rows.len() implies #[trigger] twice[i] == once[i] by {
        if selects(rows[i], id, sub) {
            rows[i].lemma_changes_keep_key(&changes);
            rows[i].lemma_changes_idempotent(&changes);
        }
    }
    assert(twice =~= once);
}

/// Read after update: in a table with unique keys, after `sub` updates the
/// row with key `id`, a lookup of `id` by `sub` finds the changed row, as
/// long as the change left the row with `sub`.
pub proof fn lemma_found_after_update<R: Record>(rows: Seq<R>, i: int, sub: Seq<char>, changes: R)
    requires
        keys_unique(rows),
        0 <= i < rows.len(),
        rows[i].belongs_to(sub),
    ensures
        first_selected(updated_rows(rows, rows[i].key(), sub, changes), rows[i].key(), sub) == (if rows[i].changed_by(&changes).belongs_to(sub) {
            Some(rows[i].changed_by(&changes))
        } else {
            None::<R>
        }),
{
    let id = rows[i].key();
    let after = updated_rows(rows, id, sub, changes);
    assert forall|a: int| 0 <= a < rows.len() implies #[trigger] after[a].key() == rows[a].key() by {
        rows[a].lemma_changes_keep_key(&changes);
    }
    assert forall|a: int, b: int|
        0 <= a < after.len() && 0 <= b < after.len() && a != b implies #[trigger] after[a].key()
            != #[trigger] after[b].key() by {
        assert(after[a].key() == rows[a].key());
        assert(after[b].key() == rows[b].key());
    }
    assert(after[i] == rows[i].changed_by(&changes));
    lemma_unique_row_is_selected(after, i, sub);
}

/// In a table with unique keys where a row belongs to `sub` exactly when
/// its key is `sub`, the listing for `sub` holds at most one row.
pub proof fn lemma_owned_by_key_at_most_one<R: Record>(rows: Seq<R>, sub: Seq<char>)
    requires
        keys_unique(rows),
        forall|i: int| 0 <= i < rows.len() ==> (#[trigger] rows[i].belongs_to(sub) <==> rows[i].key() == sub),
    ensures
        owned_rows(rows, sub).len() <= 1,
    decreases rows.len(),
{
    reveal_with_fuel(Seq::<_>::filter, 1);
    if rows.len() > 0 {
        let init = rows.drop_last();
        assert forall|a: int, b: int|
            0 <= a < init.len() && 0 <= b < init.len() && a != b implies #[trigger] init[a].key()
                != #[trigger] init[b].key() by {
            assert(init[a] == rows[a]);
            assert(init[b] == rows[b]);
        }
        assert forall|a: int| 0 <= a < init.len() implies (#[trigger] init[a].belongs_to(sub) <==> init[a].key() == sub) by {
            assert(init[a] == rows[a]);
        }
        lemma_owned_by_key_at_most_one(init, sub);
        if rows.last().belongs_to(sub) {
            assert forall|a: int| 0 <= a < init.len() implies !(#[trigger] init[a].belongs_to(sub)) by {
                assert(init[a] == rows[a]);
                assert(rows[a].key() != rows[rows.len() - 1].key());
            }
            lemma_nothing_owned(init, sub);
        }
    }
}

/// A table where `sub` owns no row lists nothing for `sub`.
pub proof fn lemma_nothing_owned<R: Record>(rows: Seq<R>, sub: Seq<char>)
    requires
        forall|i: int| 0 <= i < rows.len() ==> !(#[trigger] rows[i].belongs_to(sub)),
    ensures
        owned_rows(rows, sub).len() == 0,
    decreases rows.len(),
{
    reveal_with_fuel(Seq::<_>::filter, 1);
    if rows.len() > 0 {
        let init = rows.drop_last();
        assert forall|a: int| 0 <= a < init.len() implies !(#[trigger] init[a].belongs_to(sub)) by {
            assert(init[a] == rows[a]);
        }
        lemma_nothing_owned(init, sub);
    }
}


/// Reads never reveal another user's rows: a lookup by `sub` finds only a
/// row of `sub` with the asked key, and a listing for `sub` holds only rows
/// of `sub`.
pub proof fn lemma_reads_reveal_only_own_rows<R: Record>(rows: Seq<R>, id: Seq<char>, sub: Seq<char>)
    ensures
        first_selected(rows, id, sub) matches Some(r) ==> r.key() == id && r.belongs_to(sub),
        forall|i: int|
            0 <= i < owned_rows(rows, sub).len() ==> #[trigger] owned_rows(rows, sub)[i].belongs_to(
                sub,
            ),
    decreases rows.len(),
{
    let pred = |r: R| r.belongs_to(sub);
    assert forall|i: int| 0 <= i < owned_rows(rows, sub).len() implies #[trigger] owned_rows(rows, sub)[i].belongs_to(sub) by {
        rows.lemma_filter_pred(pred, i);
    }
    if rows.len() > 0 && !selects(rows[0], id, sub) {
        lemma_reads_reveal_only_own_rows(rows.drop_first(), id, sub);
    }
}


/// What a lookup finds is a selected row of the table; where it finds
/// nothing, no row is selected.
pub proof fn lemma_first_selected_is_selected<R: Record>(rows: Seq<R>, id: Seq<char>, sub: Seq<char>)
    ensures
        first_selected(rows, id, sub) matches Some(r) ==> rows.contains(r) && selects(r, id, sub),
        first_selected(rows, id, sub) is None ==> forall|i: int|
            0 <= i < rows.len() ==> !selects(#[trigger] rows[i], id, sub),
    decreases rows.len(),
{
    if rows.len() > 0 && !selects(rows[0], id, sub) {
        let rest = rows.drop_first();
        lemma_first_selected_is_selected(rest, id, sub);
        match first_selected(rest, id, sub) {
            Some(r) => {
                let j = choose|j: int| 0 <= j < rest.len() && rest[j] == r;
                assert(rows[j + 1] == r);
            },
            None => {
                assert forall|i: int| 0 <= i < rows.len() implies !selects(#[trigger] rows[i], id, sub) by {
                    if i > 0 {
                        assert(rows[i] == rest[i - 1]);
                    }
                }
            },
        }
    } else if rows.len() > 0 {
        assert(rows[0] == rows[0]);
    }
}

/// A lookup agrees with the listing of the same user: it finds a row of
/// the listing with the asked key, it finds nothing exactly where the
/// listing has no row with that key, and (keys being unique) any row of the
/// listing with that key is the one it finds.
pub proof fn lemma_lookup_agrees_with_listing<R: Record>(rows: Seq<R>, id: Seq<char>, sub: Seq<char>)
    ensures
        first_selected(rows, id, sub) matches Some(r) ==> owned_rows(rows, sub).contains(r) && r.key() == id,
        first_selected(rows, id, sub) is None <==> (forall|j: int|
            0 <= j < owned_rows(rows, sub).len() ==> #[trigger] owned_rows(rows, sub)[j].key() != id),
        keys_unique(rows) ==> forall|j: int|
            0 <= j < owned_rows(rows, sub).len() && #[trigger] owned_rows(rows, sub)[j].key() == id
                ==> first_selected(rows, id, sub) == Some(owned_rows(rows, sub)[j]),
{
    let pred = |r: R| r.belongs_to(sub);
    let listed = owned_rows(rows, sub);
    lemma_first_selected_is_selected(rows, id, sub);
    match first_selected(rows, id, sub) {
        Some(r) => {
            let i = choose|i: int| 0 <= i < rows.len() && rows[i] == r;
            rows.lemma_filter_contains(pred, i);
        },
        None => {},
    }
    assert forall|j: int| 0 <= j < listed.len() implies rows.contains(#[trigger] listed[j]) && listed[j].belongs_to(sub) by {
        rows.lemma_filter_pred(pred, j);
        rows.lemma_filter_contains_rev(pred, listed[j]);
        assert(listed.contains(listed[j]));
    }
    if keys_unique(rows) {
        assert forall|j: int| 0 <= j < listed.len() && #[trigger] listed[j].key() == id implies first_selected(rows, id, sub) == Some(listed[j]) by {
            assert(rows.contains(listed[j]));
            let i = choose|i: int| 0 <= i < rows.len() && rows[i] == listed[j];
            lemma_unique_row_is_selected(rows, i, sub);
        }
    }
}


/// The listing for `sub` holds rows of the table that belong to `sub`, and
/// every row of the table that belongs to `sub`.
pub proof fn lemma_listing_members<R: Record>(rows: Seq<R>, sub: Seq<char>)
    ensures
        forall|j: int|
            0 <= j < owned_rows(rows, sub).len() ==> #[trigger] owned_rows(rows, sub)[j].belongs_to(sub)
                && rows.contains(owned_rows(rows, sub)[j]),
        forall|i: int|
            0 <= i < rows.len() && #[trigger] rows[i].belongs_to(sub) ==> owned_rows(rows, sub).contains(
                rows[i],
            ),
{
    let pred = |r: R| r.belongs_to(sub);
    let listed = owned_rows(rows, sub);
    assert forall|j: int| 0 <= j < listed.len() implies #[trigger] listed[j].belongs_to(sub)
        && rows.contains(listed[j]) by {
        rows.lemma_filter_pred(pred, j);
        assert(listed.contains(listed[j]));
        rows.lemma_filter_contains_rev(pred, listed[j]);
    }
    assert forall|i: int| 0 <= i < rows.len() && #[trigger] rows[i].belongs_to(sub) implies listed.contains(rows[i]) by {
        rows.lemma_filter_contains(pred, i);
    }
}

} // verus!
