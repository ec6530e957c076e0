use crate::hresult::{E_FAIL, HRESULT};
use crate::wide::{memory_bytes, padded, utf16, wide_string_buffer};
use vstd::prelude::*;

verus! {

/// Column format: text is left-aligned.
pub const LVCFMT_LEFT: i32 = 0;

/// Column state: the values are strings.
pub const SHCOLSTATE_TYPE_STR: i32 = 1;

/// Column state: the column is shown by default.
pub const SHCOLSTATE_ONBYDEFAULT: i32 = 16;

/// The first property number that an extension may give to its own
/// properties.
pub const PID_FIRST_USABLE: u32 = 2;

/// The identity of a property: the identifier of its format and its number
/// within that format.
#[derive(Clone, Copy, Debug, PartialEq, Eq, Structural)]
pub struct PropertyKey {
    pub fmtid: u128,
    pub pid: u32,
}

/// One column of the folder's detail view.
pub struct Column {
    /// The heading.
    pub name: String,
    /// The property that the column shows.
    pub key: PropertyKey,
    /// The column's state flags.
    pub state: i32,
}

/// What the host is told of a column's heading.
pub struct ColumnDetails {
    /// How the text is aligned.
    pub fmt: i32,
    /// The size of the heading's buffer in bytes.
    pub size: usize,
    /// The heading as a wide string in a buffer for the host.
    pub name: Vec<u8>,
}

/// The folder's columns: the item's display name under the heading "Name",
/// and the extension's own property under the heading "Test". Both hold
/// strings and are shown by default.
pub fn virtual_fs_columns(name_key: PropertyKey, test_fmtid: u128) -> (r: Vec<Column>)
    ensures
        r@.len() == 2,
        r@[0].name@ == "Name"@,
        r@[0].key == name_key,
        r@[0].state == 17,
        r@[1].name@ == "Test"@,
        r@[1].key == (PropertyKey { fmtid: test_fmtid, pid: PID_FIRST_USABLE }),
        r@[1].state == 17,
{
    let state = SHCOLSTATE_TYPE_STR | SHCOLSTATE_ONBYDEFAULT;
    assert(state == 17) by (bit_vector)
        requires
            state == 1i32 | 16i32,
    ;
    let mut columns: Vec<Column> = Vec::new();
    columns.push(Column { name: "Name".to_owned(), key: name_key, state });
    columns.push(
        Column {
            name: "Test".to_owned(),
            key: PropertyKey { fmtid: test_fmtid, pid: PID_FIRST_USABLE },
            state,
        },
    );
    columns
}

/// The state flags of column `icolumn`; a failure when there is no such
/// column.
pub fn column_state(columns: &[Column], icolumn: u32) -> (r: Result<i32, HRESULT>)
    ensures
        icolumn < columns@.len() ==> r == Ok::<i32, HRESULT>(columns@[icolumn as int].state),
        icolumn >= columns@.len() ==> r == Err::<i32, HRESULT>(HRESULT(E_FAIL)),
{
    if (icolumn as usize) < columns.len() {
        Ok(columns[icolumn as usize].state)
    } else {
        Err(HRESULT(E_FAIL))
    }
}

/// The property that column `icolumn` shows; a failure when there is no
/// such column.
pub fn column_key(columns: &[Column], icolumn: u32) -> (r: Result<PropertyKey, HRESULT>)
    ensures
        icolumn < columns@.len() ==> r == Ok::<PropertyKey, HRESULT>(columns@[icolumn as int].key),
        icolumn >= columns@.len() ==> r == Err::<PropertyKey, HRESULT>(HRESULT(E_FAIL)),
{
    if (icolumn as usize) < columns.len() {
        Ok(columns[icolumn as usize].key)
    } else {
        Err(HRESULT(E_FAIL))
    }
}

/// The heading of column `icolumn` for the host: left-aligned, the name as a
/// wide string with two zero units behind it, and the size of that buffer. A
/// failure when there is no such column.
pub fn column_details(columns: &[Column], icolumn: u32) -> (r: Result<ColumnDetails, HRESULT>)
    ensures
        icolumn < columns@.len() ==> (r matches Ok(details) && details.fmt == LVCFMT_LEFT
            && details.size == details.name@.len() && exists|bytes: Seq<u8>|
            memory_bytes(utf16(columns@[icolumn as int].name@).push(0u16).push(0u16), bytes)
                && details.name@ == padded(bytes)),
        icolumn >= columns@.len() ==> (r matches Err(e) && e == HRESULT(E_FAIL)),
{
    if (icolumn as usize) < columns.len() {
        let name = wide_string_buffer(columns[icolumn as usize].name.as_str());
        Ok(ColumnDetails { fmt: LVCFMT_LEFT, size: name.len(), name })
    } else {
        Err(HRESULT(E_FAIL))
    }
}

} // verus!
