//! The table of open bus devices.
//!
//! Guest-held handles are small integers that index a table owned by the
//! host. The table itself is `wasmtime`'s `ResourceTable`; what this library
//! relies on is stated here and nowhere proved.

use vstd::prelude::*;
use wasmtime::component::{Resource, ResourceTable};

verus! {

/// The identity of an opened bus device.
#[derive(Debug, PartialEq, Eq)]
pub struct ActiveSpiDriver {
    pub id: u8,
}

#[verifier::external_type_specification]
#[verifier::external_body]
pub struct ExResourceTable(ResourceTable);

/// What a table holds: its occupied indices, each with the id of the driver
/// stored there when the entry is an [`ActiveSpiDriver`] that has neither a
/// parent nor children in the table, and with `None` for any other entry.
pub uninterp spec fn table_entries(table: ResourceTable) -> Map<u32, Option<u8>>;

/// The number of slots a table may grow to before it refuses a new entry.
pub uninterp spec fn table_limit(table: ResourceTable) -> nat;

/// `ResourceTable::new`: an empty table. Its limit is the crate's default
/// maximum capacity of one million entries.
#[verifier::external_body]
pub(crate) fn table_new() -> (table: ResourceTable)
    ensures
        table_entries(table).dom() == Set::<u32>::empty(),
        table_limit(table) == 1_000_000,
{
    ResourceTable::new()
}

/// `ResourceTable::push`, with the new resource's index taken by
/// `Resource::rep`.
///
/// On success the driver stands alone under an index that was not occupied,
/// and nothing else changed. The only failure is a full table, reported with
/// the text that the crate prints for it; the table is then as it was. A
/// table reuses freed slots before it grows, so it is never full while it
/// holds fewer entries than its limit. The call does not panic.
#[verifier::external_body]
pub(crate) fn table_push(table: &mut ResourceTable, driver: ActiveSpiDriver) -> (pushed: Result<
    u32,
    String,
>)
    ensures
        table_limit(*final(table)) == table_limit(*old(table)),
        match pushed {
            Ok(handle) => {
                &&& !table_entries(*old(table)).contains_key(handle)
                &&& table_entries(*final(table)) == table_entries(*old(table)).insert(
                    handle,
                    Some(driver.id),
                )
            },
            Err(text) => {
                &&& table_entries(*final(table)) == table_entries(*old(table))
                &&& text@ == "resource table has no free keys"@
            },
        },
        table_entries(*old(table)).dom().finite() && table_entries(*old(table)).len()
            < table_limit(*old(table)) <= u32::MAX ==> pushed is Ok,
    no_unwind
{
    table.push(driver).map(|resource| resource.rep()).map_err(|e| e.to_string())
}

/// `ResourceTable::get` on an `ActiveSpiDriver` resource of that index: the
/// id of the driver stored there. An index that is not occupied gives
/// nothing; one that holds a driver standing alone gives its id.
#[verifier::external_body]
pub(crate) fn table_get(table: &ResourceTable, handle: u32) -> (found: Option<u8>)
    ensures
        !table_entries(*table).contains_key(handle) ==> found is None,
        table_entries(*table).contains_key(handle) && table_entries(*table)[handle] is Some
            ==> found == table_entries(*table)[handle],
{
    table.get(&Resource::<ActiveSpiDriver>::new_own(handle)).ok().map(|driver| driver.id)
}

/// `ResourceTable::delete` on an owned `ActiveSpiDriver` resource of that
/// index. An index that is not occupied gives nothing and leaves the table
/// as it was; one that holds a driver standing alone gives the driver back
/// and frees exactly that index.
///
/// An entry that names a parent is left out: the crate looks the parent up
/// when it frees the entry and panics if the parent is gone. On the entries
/// that are let in the call does not panic.
#[verifier::external_body]
pub(crate) fn table_delete(table: &mut ResourceTable, handle: u32) -> (removed: Option<
    ActiveSpiDriver,
>)
    requires
        table_entries(*old(table)).contains_key(handle) ==> table_entries(*old(table))[handle]
            is Some,
    ensures
        table_limit(*final(table)) == table_limit(*old(table)),
        !table_entries(*old(table)).contains_key(handle) ==> removed is None && table_entries(
            *final(table),
        ) == table_entries(*old(table)),
        table_entries(*old(table)).contains_key(handle) && table_entries(*old(table))[handle]
            is Some ==> removed is Some && Some(removed->Some_0.id) == table_entries(
            *old(table),
        )[handle] && table_entries(*final(table)) == table_entries(*old(table)).remove(handle),
    no_unwind
{
    table.delete(Resource::<ActiveSpiDriver>::new_own(handle)).ok()
}

} // verus!
