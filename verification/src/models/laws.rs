//! What holds of every store, stated over tables and proved once.

use crate::models::{can_add, is_uuid_text, lookup, may_refuse, stored, with_item};
use crate::models::{ItemView, StoreError};
use vstd::prelude::*;

verus! {

/// One call on a store, with the identifier drawn for it where it is an add.
pub enum Call {
    Add { drawn: Seq<char>, item: ItemView },
    Delete { uuid: Seq<char> },
    Update { uuid: Seq<char>, item: ItemView },
    Get { uuid: Seq<char> },
    List,
}

/// Whether the call succeeds on `table`.
pub open spec fn succeeds(table: Map<Seq<char>, ItemView>, call: Call) -> bool {
    match call {
        Call::Add { drawn, item } => can_add(table, drawn, item),
        Call::Delete { uuid } => table.contains_key(uuid),
        Call::Update { uuid, item } => true,
        Call::Get { uuid } => table.contains_key(uuid),
        Call::List => true,
    }
}

/// The table that the call leaves.
pub open spec fn after(table: Map<Seq<char>, ItemView>, call: Call) -> Map<Seq<char>, ItemView> {
    match call {
        Call::Add { drawn, item } => if can_add(table, drawn, item) {
            with_item(table, drawn, item)
        } else {
            table
        },
        Call::Delete { uuid } => table.remove(uuid),
        Call::Update { uuid, item } => with_item(table, uuid, item),
        Call::Get { uuid } => table,
        Call::List => table,
    }
}

/// The table after the first `n` of `calls`, one after the other.
pub open spec fn state_at(table: Map<Seq<char>, ItemView>, calls: Seq<Call>, n: nat) -> Map<
    Seq<char>,
    ItemView,
>
    decreases n,
{
    if n == 0 || n > calls.len() {
        table
    } else {
        after(state_at(table, calls, (n - 1) as nat), calls[n - 1])
    }
}

/// How many of the first `n` calls are adds that succeeded.
pub open spec fn adds_made(table: Map<Seq<char>, ItemView>, calls: Seq<Call>, n: nat) -> nat
    decreases n,
{
    if n == 0 || n > calls.len() {
        0
    } else {
        let before = state_at(table, calls, (n - 1) as nat);
        let call = calls[n - 1];
        adds_made(table, calls, (n - 1) as nat) + if call is Add && succeeds(before, call) {
            1nat
        } else {
            0nat
        }
    }
}

/// How many of the first `n` calls are deletes that succeeded.
pub open spec fn deletes_made(table: Map<Seq<char>, ItemView>, calls: Seq<Call>, n: nat) -> nat
    decreases n,
{
    if n == 0 || n > calls.len() {
        0
    } else {
        let before = state_at(table, calls, (n - 1) as nat);
        let call = calls[n - 1];
        deletes_made(table, calls, (n - 1) as nat) + if call is Delete && succeeds(before, call) {
            1nat
        } else {
            0nat
        }
    }
}

/// How many of the first `n` calls are updates under an identifier that had
/// no entry, each of which made one.
pub open spec fn updates_that_made(
    table: Map<Seq<char>, ItemView>,
    calls: Seq<Call>,
    n: nat,
) -> nat
    decreases n,
{
    if n == 0 || n > calls.len() {
        0
    } else {
        let before = state_at(table, calls, (n - 1) as nat);
        let call = calls[n - 1];
        updates_that_made(table, calls, (n - 1) as nat) + if call is Update
            && !before.contains_key(call->Update_uuid) {
            1nat
        } else {
            0nat
        }
    }
}

/// Every entry of the table carries the identifier it stands under.
pub open spec fn carries_keys(table: Map<Seq<char>, ItemView>) -> bool {
    forall|k: Seq<char>| table.contains_key(k) ==> (#[trigger] table[k]).uuid == Some(k)
}

/// No call changes that every entry carries its own identifier.
pub proof fn law_keys_carried(table: Map<Seq<char>, ItemView>, call: Call)
    requires
        carries_keys(table),
    ensures
        carries_keys(after(table, call)),
{
}

/// Two adds that both succeed are given different identifiers, as long as
/// the entry of the first was not deleted between them: in a run of adds
/// every identifier is handed out once.
pub proof fn law_added_ids_differ(
    table: Map<Seq<char>, ItemView>,
    calls: Seq<Call>,
    i: nat,
    j: nat,
)
    requires
        i < j < calls.len(),
        calls[i as int] is Add,
        calls[j as int] is Add,
        succeeds(state_at(table, calls, i), calls[i as int]),
        succeeds(state_at(table, calls, j), calls[j as int]),
        forall|k: int|
            i < k < j && (#[trigger] calls[k]) is Delete ==> calls[k]->Delete_uuid
                != calls[i as int]->drawn,
    ensures
        calls[i as int]->drawn != calls[j as int]->drawn,
{
    let id = calls[i as int]->drawn;
    assert(state_at(table, calls, i + 1) == after(state_at(table, calls, i), calls[i as int]));
    lemma_key_stays(table, calls, id, i + 1, j);
}

/// An identifier that has an entry keeps one as long as it is not deleted.
proof fn lemma_key_stays(
    table: Map<Seq<char>, ItemView>,
    calls: Seq<Call>,
    id: Seq<char>,
    from: nat,
    to: nat,
)
    requires
        from <= to <= calls.len(),
        state_at(table, calls, from).contains_key(id),
        forall|k: int|
            from <= k < to && (#[trigger] calls[k]) is Delete ==> calls[k]->Delete_uuid != id,
    ensures
        state_at(table, calls, to).contains_key(id),
    decreases to - from,
{
    if from < to {
        lemma_key_stays(table, calls, id, from, (to - 1) as nat);
        let call = calls[to - 1];
        if call is Delete {
            assert(call->Delete_uuid != id);
        }
    }
}

/// A store may turn an item down only where the item carries an identifier
/// or the identifier drawn for it is in use: where neither can be, as in an
/// empty table, every draw of the generated shape lets the item in.
pub proof fn law_add_is_owed(table: Map<Seq<char>, ItemView>, drawn: Seq<char>, item: ItemView)
    requires
        is_uuid_text(drawn),
        !may_refuse(table, item),
    ensures
        can_add(table, drawn, item),
        !may_refuse(Map::empty(), item) <==> item.uuid is None,
{
}

/// After an add, the identifier gives back the item as it was handed in,
/// but for the identifier it now carries.
pub proof fn law_add_then_get(table: Map<Seq<char>, ItemView>, id: Seq<char>, item: ItemView)
    requires
        can_add(table, id, item),
    ensures
        lookup(with_item(table, id, item), id) == Ok::<ItemView, StoreError>(stored(id, item)),
        stored(id, item).uuid == Some(id),
        stored(id, item).title == item.title,
        stored(id, item).artist == item.artist,
        stored(id, item).format == item.format,
        stored(id, item).year == item.year,
{
}

/// After an add and a delete of what was added, the identifier is not found,
/// and the table is what it was before the add.
pub proof fn law_add_delete_get(table: Map<Seq<char>, ItemView>, id: Seq<char>, item: ItemView)
    requires
        can_add(table, id, item),
    ensures
        lookup(with_item(table, id, item).remove(id), id) == Err::<ItemView, StoreError>(
            StoreError::NotFound,
        ),
        with_item(table, id, item).remove(id) == table,
{
    assert(with_item(table, id, item).remove(id) =~= table);
}

/// An update under an identifier that has an entry leaves the identifier as
/// it is, on the entry and in the table, and puts the fields that were handed
/// in in place of all the others. No other entry changes.
pub proof fn law_update_replaces(table: Map<Seq<char>, ItemView>, id: Seq<char>, item: ItemView)
    requires
        table.contains_key(id),
    ensures
        with_item(table, id, item).dom() == table.dom(),
        lookup(with_item(table, id, item), id) == Ok::<ItemView, StoreError>(stored(id, item)),
        stored(id, item).uuid == Some(id),
        stored(id, item).title == item.title,
        stored(id, item).artist == item.artist,
        stored(id, item).format == item.format,
        stored(id, item).year == item.year,
        forall|k: Seq<char>| k != id ==> lookup(with_item(table, id, item), k) == lookup(table, k),
{
    assert(with_item(table, id, item).dom() =~= table.dom());
}

/// An update under an identifier that has no entry makes one, which a lookup
/// of that identifier then finds.
pub proof fn law_update_creates(table: Map<Seq<char>, ItemView>, id: Seq<char>, item: ItemView)
    requires
        !table.contains_key(id),
    ensures
        with_item(table, id, item).dom() == table.dom().insert(id),
        lookup(with_item(table, id, item), id) == Ok::<ItemView, StoreError>(stored(id, item)),
        forall|k: Seq<char>| k != id ==> lookup(with_item(table, id, item), k) == lookup(table, k),
{
}

/// After any run of calls on a finite table, the entries are those it began
/// with, and one more for each add that succeeded and each update that made
/// an entry, and one fewer for each delete that succeeded.
pub proof fn law_len_counts(table: Map<Seq<char>, ItemView>, calls: Seq<Call>, n: nat)
    requires
        table.dom().finite(),
        n <= calls.len(),
    ensures
        state_at(table, calls, n).dom().finite(),
        state_at(table, calls, n).dom().len() + deletes_made(table, calls, n) == table.dom().len()
            + adds_made(table, calls, n) + updates_that_made(table, calls, n),
    decreases n,
{
    if n > 0 {
        law_len_counts(table, calls, (n - 1) as nat);
        let before = state_at(table, calls, (n - 1) as nat);
        let call = calls[n - 1];
        match call {
            Call::Add { drawn, item } => {},
            Call::Delete { uuid } => {},
            Call::Update { uuid, item } => {
                if before.contains_key(uuid) {
                    assert(with_item(before, uuid, item).dom() =~= before.dom());
                }
            },
            Call::Get { uuid } => {},
            Call::List => {},
        }
    }
}

/// On a store that began empty, and as long as no update made an entry, the
/// number of entries is the number of adds that succeeded less the number of
/// deletes that succeeded, in whatever order the calls came.
pub proof fn law_len_is_adds_less_deletes(calls: Seq<Call>)
    requires
        updates_that_made(Map::empty(), calls, calls.len()) == 0,
    ensures
        state_at(Map::empty(), calls, calls.len()).dom().finite(),
        state_at(Map::empty(), calls, calls.len()).dom().len() == adds_made(
            Map::empty(),
            calls,
            calls.len(),
        ) - deletes_made(Map::empty(), calls, calls.len()),
{
    law_len_counts(Map::empty(), calls, calls.len());
}

} // verus!
