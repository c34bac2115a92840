//! The tables that record which directories and files are open.
//!
//! A row holds the volume and the cluster of an open item. A row with the
//! invalid cluster is free, whatever its volume.
use crate::data_structures::VolumeIdx;
use crate::files::Cluster;
use vstd::prelude::*;

verus! {

/// Whether a row is free.
pub open spec fn is_free(row: (VolumeIdx, Cluster)) -> bool {
    row.1 == Cluster(Cluster::INVALID)
}

/// The first free row, or the length of the table if there is none.
pub open spec fn first_free(rows: Seq<(VolumeIdx, Cluster)>, from: int) -> int
    decreases rows.len() - from,
{
    if from >= rows.len() || is_free(rows[from]) {
        from
    } else {
        first_free(rows, from + 1)
    }
}

/// The last free row, or -1 if there is none.
pub open spec fn last_free(rows: Seq<(VolumeIdx, Cluster)>) -> int
    decreases rows.len(),
{
    if rows.len() == 0 || is_free(rows.last()) {
        rows.len() - 1
    } else {
        last_free(rows.drop_last())
    }
}

/// The first row that holds the given item, or the length of the table if
/// none does.
pub open spec fn row_of(
    rows: Seq<(VolumeIdx, Cluster)>,
    item: (VolumeIdx, Cluster),
    from: int,
) -> int
    decreases rows.len() - from,
{
    if from >= rows.len() || rows[from] == item {
        from
    } else {
        row_of(rows, item, from + 1)
    }
}

/// The table after the first row that holds the given item was freed.
pub open spec fn freed(
    rows: Seq<(VolumeIdx, Cluster)>,
    item: (VolumeIdx, Cluster),
) -> Seq<(VolumeIdx, Cluster)> {
    let at = row_of(rows, item, 0);
    if at < rows.len() {
        rows.update(at, (item.0, Cluster(Cluster::INVALID)))
    } else {
        rows
    }
}

/// Whether an item is recorded as open.
pub open spec fn is_open(
    rows: Seq<(VolumeIdx, Cluster)>,
    item: (VolumeIdx, Cluster),
) -> bool {
    !is_free(item) && rows.contains(item)
}

/// Whether no item is recorded twice.
pub open spec fn no_item_twice(rows: Seq<(VolumeIdx, Cluster)>) -> bool {
    forall|i: int, j: int|
        0 <= i < j < rows.len() && !is_free(#[trigger] rows[i]) ==> rows[i] != #[trigger] rows[j]
}

/// What `first_free` finds.
pub proof fn lemma_first_free(rows: Seq<(VolumeIdx, Cluster)>, from: int)
    requires
        0 <= from <= rows.len(),
    ensures
        from <= first_free(rows, from) <= rows.len(),
        forall|j: int| from <= j < first_free(rows, from) ==> !is_free(#[trigger] rows[j]),
        first_free(rows, from) < rows.len() ==> is_free(rows[first_free(rows, from)]),
    decreases rows.len() - from,
{
    if from < rows.len() && !is_free(rows[from]) {
        lemma_first_free(rows, from + 1);
    }
}

/// What `last_free` finds.
pub proof fn lemma_last_free(rows: Seq<(VolumeIdx, Cluster)>)
    ensures
        -1 <= last_free(rows) < rows.len(),
        forall|j: int| last_free(rows) < j < rows.len() ==> !is_free(#[trigger] rows[j]),
        last_free(rows) >= 0 ==> is_free(rows[last_free(rows)]),
    decreases rows.len(),
{
    if rows.len() > 0 && !is_free(rows.last()) {
        lemma_last_free(rows.drop_last());
        assert forall|j: int| last_free(rows) < j < rows.len() implies !is_free(
            #[trigger] rows[j],
        ) by {
            if j < rows.len() - 1 {
                assert(rows.drop_last()[j] == rows[j]);
            }
        }
    }
}

/// What `row_of` finds.
pub proof fn lemma_row_of(
    rows: Seq<(VolumeIdx, Cluster)>,
    item: (VolumeIdx, Cluster),
    from: int,
)
    requires
        0 <= from <= rows.len(),
    ensures
        from <= row_of(rows, item, from) <= rows.len(),
        forall|j: int| from <= j < row_of(rows, item, from) ==> #[trigger] rows[j] != item,
        row_of(rows, item, from) < rows.len() ==> rows[row_of(rows, item, from)] == item,
    decreases rows.len() - from,
{
    if from < rows.len() && rows[from] != item {
        lemma_row_of(rows, item, from + 1);
    }
}

/// Finds the last free row.
pub(crate) fn last_free_row(rows: &[(VolumeIdx, Cluster)]) -> (row: Option<usize>)
    ensures
        match row {
            Some(i) => i == last_free(rows@),
            None => last_free(rows@) == -1,
        },
{
    let mut found: Option<usize> = None;
    let mut i: usize = 0;
    while i < rows.len()
        invariant
            i <= rows.len(),
            match found {
                Some(k) => k == last_free(rows@.take(i as int)),
                None => last_free(rows@.take(i as int)) == -1,
            },
        decreases rows.len() - i,
    {
        if rows[i].1.0 == Cluster::INVALID {
            found = Some(i);
        }
        assert(rows@.take(i + 1).drop_last() =~= rows@.take(i as int));
        i = i + 1;
    }
    assert(rows@.take(i as int) =~= rows@);
    found
}

/// Finds the first free row.
pub(crate) fn first_free_row(rows: &[(VolumeIdx, Cluster)]) -> (row: Option<usize>)
    ensures
        match row {
            Some(i) => i == first_free(rows@, 0) && i < rows@.len(),
            None => first_free(rows@, 0) == rows@.len(),
        },
{
    let mut i: usize = 0;
    while i < rows.len()
        invariant
            i <= rows.len(),
            first_free(rows@, 0) == first_free(rows@, i as int),
        decreases rows.len() - i,
    {
        if rows[i].1.0 == Cluster::INVALID {
            return Some(i);
        }
        i = i + 1;
    }
    None
}

/// Finds the first row that holds an item.
pub(crate) fn find_row(
    rows: &[(VolumeIdx, Cluster)],
    item: (VolumeIdx, Cluster),
) -> (row: Option<usize>)
    ensures
        match row {
            Some(i) => i == row_of(rows@, item, 0) && i < rows@.len() && rows@.contains(item),
            None => row_of(rows@, item, 0) == rows@.len() && !rows@.contains(item),
        },
{
    let mut i: usize = 0;
    while i < rows.len()
        invariant
            i <= rows.len(),
            row_of(rows@, item, 0) == row_of(rows@, item, i as int),
            forall|j: int| 0 <= j < i ==> rows@[j] != item,
        decreases rows.len() - i,
    {
        if rows[i].0.0 == item.0.0 && rows[i].1.0 == item.1.0 {
            assert(rows@[i as int] == item);
            return Some(i);
        }
        i = i + 1;
    }
    None
}

/// Whether any row of a table is in use.
pub(crate) fn any_in_use(rows: &[(VolumeIdx, Cluster)]) -> (in_use: bool)
    ensures
        in_use == (exists|i: int| 0 <= i < rows@.len() && !is_free(#[trigger] rows@[i])),
{
    let mut i: usize = 0;
    while i < rows.len()
        invariant
            i <= rows.len(),
            forall|j: int| 0 <= j < i ==> is_free(#[trigger] rows@[j]),
        decreases rows.len() - i,
    {
        if rows[i].1.0 != Cluster::INVALID {
            assert(!is_free(rows@[i as int]));
            return true;
        }
        i = i + 1;
    }
    false
}

/// Recording an item that is not open yet, in a free row, keeps every item
/// from being recorded twice.
pub proof fn law_opening_keeps_items_unique(
    rows: Seq<(VolumeIdx, Cluster)>,
    row: int,
    item: (VolumeIdx, Cluster),
)
    requires
        no_item_twice(rows),
        0 <= row < rows.len(),
        !rows.contains(item),
    ensures
        no_item_twice(rows.update(row, item)),
{
    let after = rows.update(row, item);
    assert forall|i: int, j: int|
        0 <= i < j < after.len() && !is_free(#[trigger] after[i]) implies after[i]
        != #[trigger] after[j] by {
        if i == row {
            assert(after[j] == rows[j]);
        } else if j == row {
            assert(after[i] == rows[i]);
        } else {
            assert(after[i] == rows[i] && after[j] == rows[j]);
        }
    }
}

/// Closing keeps every item from being recorded twice, closes the item, and
/// leaves every other item open or closed as it was.
pub proof fn law_closing(
    rows: Seq<(VolumeIdx, Cluster)>,
    item: (VolumeIdx, Cluster),
    other: (VolumeIdx, Cluster),
)
    requires
        no_item_twice(rows),
    ensures
        no_item_twice(freed(rows, item)),
        !is_open(freed(rows, item), item),
        other != item ==> is_open(freed(rows, item), other) == is_open(rows, other),
{
    let at = row_of(rows, item, 0);
    let after = freed(rows, item);
    lemma_row_of(rows, item, 0);
    assert forall|i: int, j: int|
        0 <= i < j < after.len() && !is_free(#[trigger] after[i]) implies after[i]
        != #[trigger] after[j] by {
        if at < rows.len() && j == at {
            assert(is_free(after[j]));
        } else {
            assert(after[i] == rows[i] && after[j] == rows[j]);
        }
    }
    if is_open(after, item) {
        let k = choose|k: int| 0 <= k < after.len() && after[k] == item;
        assert(rows[k] == item);
        if k != at {
            assert(rows[at] == item);
        }
    }
    if other != item {
        if is_open(rows, other) {
            let k = choose|k: int| 0 <= k < rows.len() && rows[k] == other;
            assert(after[k] == other);
        }
        if is_open(after, other) {
            let k = choose|k: int| 0 <= k < after.len() && after[k] == other;
            assert(rows[k] == other);
        }
    }
}

/// Opening an item and closing it again leaves the same items open as before.
pub proof fn law_closing_undoes_opening(
    rows: Seq<(VolumeIdx, Cluster)>,
    row: int,
    item: (VolumeIdx, Cluster),
    other: (VolumeIdx, Cluster),
)
    requires
        no_item_twice(rows),
        0 <= row < rows.len(),
        is_free(rows[row]),
        !rows.contains(item),
    ensures
        is_open(freed(rows.update(row, item), item), other) == is_open(rows, other),
{
    let opened = rows.update(row, item);
    law_opening_keeps_items_unique(rows, row, item);
    law_closing(opened, item, other);
    assert(opened[row] == item);
    if other != item {
        if is_open(rows, other) {
            let k = choose|k: int| 0 <= k < rows.len() && rows[k] == other;
            assert(opened[k] == other);
        }
        if is_open(opened, other) {
            let k = choose|k: int| 0 <= k < opened.len() && opened[k] == other;
            assert(rows[k] == other);
        }
    }
}

} // verus!
