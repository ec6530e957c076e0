use shell_extension::class_factory::ClassFactory;
use shell_extension::columns::{
    column_details, column_key, column_state, virtual_fs_columns, PropertyKey, LVCFMT_LEFT,
    PID_FIRST_USABLE, SHCOLSTATE_ONBYDEFAULT, SHCOLSTATE_TYPE_STR,
};
use shell_extension::custom_folder::{virtual_fs, CustomFolder, SHCONTF_FOLDERS, SHCONTF_NONFOLDERS};
use shell_extension::hresult::{
    HRESULT, E_FAIL, E_INVALIDARG, E_OUTOFMEMORY, S_FALSE, S_OK,
};
use shell_extension::itemidlist::ItemIdList;
use shell_extension::location::Location;
use shell_extension::ref_count::ModuleRefCount;
use shell_extension::CodecError;
use std::borrow::Cow;

fn chain(segments: &[&[u8]]) -> ItemIdList<'static> {
    ItemIdList(segments.iter().map(|s| Cow::Owned(s.to_vec())).collect())
}

#[test]
fn status_codes_are_the_hosts() {
    assert_eq!(S_OK, 0);
    assert_eq!(S_FALSE, 1);
    assert_eq!(E_FAIL as u32, 0x8000_4005);
    assert_eq!(E_INVALIDARG as u32, 0x8007_0057);
    assert_eq!(E_OUTOFMEMORY as u32, 0x8007_000E);
    assert_eq!(windows_core::HRESULT(E_FAIL).0 as u32, 0x8000_4005);
    assert!(windows_core::HRESULT(S_FALSE).is_ok());
    assert!(windows_core::HRESULT(E_OUTOFMEMORY).is_err());
    assert_eq!(SHCONTF_FOLDERS, 0x20);
    assert_eq!(SHCONTF_NONFOLDERS, 0x40);
    assert_eq!(LVCFMT_LEFT, 0);
    assert_eq!(SHCOLSTATE_TYPE_STR, 1);
    assert_eq!(SHCOLSTATE_ONBYDEFAULT, 0x10);
    assert_eq!(PID_FIRST_USABLE, 2);
}

#[test]
fn status_is_ok_unless_negative() {
    assert!(HRESULT(S_OK).is_ok());
    assert!(HRESULT(S_FALSE).is_ok());
    assert!(HRESULT(0xFFFF).is_ok());
    assert!(!HRESULT(E_FAIL).is_ok());
    assert!(!HRESULT(E_INVALIDARG).is_ok());
    assert!(!HRESULT(E_OUTOFMEMORY).is_ok());
}

#[test]
fn codec_errors_map_to_statuses() {
    assert_eq!(HRESULT::from_error(CodecError::TruncatedRecord), HRESULT(E_INVALIDARG));
    assert_eq!(HRESULT::from_error(CodecError::SegmentTooLarge), HRESULT(E_INVALIDARG));
    assert_eq!(HRESULT::from_error(CodecError::OutOfMemory), HRESULT(E_OUTOFMEMORY));
}

#[test]
fn folder_keeps_the_location_it_is_given() {
    let mut folder = CustomFolder::new();
    assert_eq!(folder.get_cur_folder(), Err(HRESULT(S_FALSE)));

    let pidl = chain(&[b"root", b"here"]).encode().unwrap();
    let mut buffer = pidl.clone();
    buffer.extend_from_slice(&[1, 2, 3]);
    assert_eq!(folder.initialize(&buffer), HRESULT(S_OK));
    drop(buffer);
    assert_eq!(folder.get_cur_folder(), Ok(pidl.clone()));

    assert_eq!(folder.initialize(&[5, 0, 1]), HRESULT(E_INVALIDARG));
    assert_eq!(folder.get_cur_folder(), Ok(pidl));

    assert_eq!(folder.initialize(&[0, 0]), HRESULT(S_OK));
    assert_eq!(folder.get_cur_folder(), Ok(vec![0, 0]));
}

#[test]
fn default_folder_has_no_location() {
    assert_eq!(CustomFolder::default().get_cur_folder(), Err(HRESULT(S_FALSE)));
    let factory = ClassFactory::new();
    assert_eq!(factory.create_instance().get_cur_folder(), Err(HRESULT(S_FALSE)));
    assert_eq!(ClassFactory::default().create_instance().get_cur_folder(), Err(HRESULT(S_FALSE)));
}

#[test]
fn enumeration_is_given_only_for_folders() {
    let folder = CustomFolder::new();
    let entries = virtual_fs();

    let (none, status) = folder.enum_objects(SHCONTF_NONFOLDERS, &entries);
    assert!(none.is_none());
    assert_eq!(status, HRESULT(S_FALSE));
    let (none, status) = folder.enum_objects(0, &entries);
    assert!(none.is_none());
    assert_eq!(status, HRESULT(S_FALSE));

    let (cursor, status) = folder.enum_objects(SHCONTF_FOLDERS | SHCONTF_NONFOLDERS, &entries);
    assert_eq!(status, HRESULT(S_OK));
    let mut cursor = cursor.unwrap();
    assert_eq!(cursor.position(), 0);
    let (items, status) = cursor.next(6);
    assert_eq!(status, HRESULT(S_OK));
    assert_eq!(items.len(), 6);
}

#[test]
fn compare_ids_reports_the_order_in_the_low_half() {
    let folder = CustomFolder::new();
    let hi = chain(&[b"Hi!"]).encode().unwrap();
    let meow = chain(&[b"Meow, "]).encode().unwrap();
    assert_eq!(folder.compare_ids(&hi, &meow), HRESULT(0xFFFF));
    assert_eq!(folder.compare_ids(&meow, &hi), HRESULT(1));
    assert_eq!(folder.compare_ids(&hi, &hi), HRESULT(0));
    assert_eq!(folder.compare_ids(&[0, 0], &hi), HRESULT(0xFFFF));
    assert_eq!(folder.compare_ids(&hi, &[0]), HRESULT(E_INVALIDARG));
    assert_eq!(folder.compare_ids(&[], &hi), HRESULT(E_INVALIDARG));
}

#[test]
fn display_name_is_the_payload_of_the_one_segment() {
    let folder = CustomFolder::new();
    let entries = virtual_fs();
    let pidl = entries[0].encode().unwrap();
    let name = folder.get_display_name_of(&pidl).unwrap();
    let text: Vec<u8> = "Hi!".encode_utf16().flat_map(|u| u.to_ne_bytes()).collect();
    assert_eq!(name.len(), 14);
    assert_eq!(&name[..6], &text[..]);
    assert!(name[6..].iter().all(|b| *b == 0));

    let empty = folder.get_display_name_of(&chain(&[b""]).encode().unwrap()).unwrap();
    assert_eq!(empty, vec![0, 0]);

    assert_eq!(folder.get_display_name_of(&[0, 0]), Err(HRESULT(E_FAIL)));
    let two = chain(&[b"a", b"b"]).encode().unwrap();
    assert_eq!(folder.get_display_name_of(&two), Err(HRESULT(E_FAIL)));
    assert_eq!(folder.get_display_name_of(&[9, 0]), Err(HRESULT(E_INVALIDARG)));
}

#[test]
fn listing_names_six_entries() {
    let entries = virtual_fs();
    let names = ["Hi!", "Meow, ", "comment", "ça", "va", "?"];
    assert_eq!(entries.len(), names.len());
    for (entry, name) in entries.iter().zip(names) {
        assert_eq!(entry, &ItemIdList::from(vec![name]));
        assert_eq!(entry.len(), 1);
    }
}

#[test]
fn columns_are_name_and_test() {
    let name_key = PropertyKey { fmtid: 0xB725F130_47EF_101A_A5F1_02608C9EEBAC, pid: 10 };
    let columns = virtual_fs_columns(name_key, 42);
    assert_eq!(columns.len(), 2);
    assert_eq!(columns[0].name, "Name");
    assert_eq!(columns[1].name, "Test");

    assert_eq!(column_state(&columns, 0), Ok(17));
    assert_eq!(column_state(&columns, 1), Ok(SHCOLSTATE_TYPE_STR | SHCOLSTATE_ONBYDEFAULT));
    assert_eq!(column_state(&columns, 2), Err(HRESULT(E_FAIL)));
    assert_eq!(column_state(&columns, u32::MAX), Err(HRESULT(E_FAIL)));

    assert_eq!(column_key(&columns, 0), Ok(name_key));
    assert_eq!(column_key(&columns, 1), Ok(PropertyKey { fmtid: 42, pid: 2 }));
    assert_eq!(column_key(&columns, 2), Err(HRESULT(E_FAIL)));

    let details = column_details(&columns, 1).unwrap();
    assert_eq!(details.fmt, 0);
    let heading: Vec<u8> =
        "Test\0\0".encode_utf16().flat_map(|u| u.to_ne_bytes()).collect();
    assert_eq!(details.size, 26);
    assert_eq!(details.name.len(), 26);
    assert_eq!(&details.name[..12], &heading[..]);
    assert!(details.name[12..].iter().all(|b| *b == 0));
    assert!(matches!(column_details(&columns, 2), Err(HRESULT(E_FAIL))));
    assert!(matches!(column_details(&[], 0), Err(HRESULT(E_FAIL))));
}

#[test]
fn module_may_unload_when_nothing_is_held() {
    let mut refs = ModuleRefCount::new();
    assert_eq!(refs.count(), 0);
    assert_eq!(refs.can_unload_now(), HRESULT(S_OK));
    refs.add_ref();
    refs.add_ref();
    assert_eq!(refs.count(), 2);
    assert_eq!(refs.can_unload_now(), HRESULT(S_FALSE));
    refs.release();
    assert_eq!(refs.can_unload_now(), HRESULT(S_FALSE));
    refs.release();
    assert_eq!(refs.count(), 0);
    assert_eq!(refs.can_unload_now(), HRESULT(S_OK));
    refs.release();
    assert_eq!(refs.count(), usize::MAX);
    refs.add_ref();
    assert_eq!(refs.count(), 0);
}

#[test]
fn location_gives_the_value_wherever_it_lives() {
    static FOREIGN: [u8; 3] = [1, 2, 3];
    let foreign: Location<[u8]> = Location::Foreign(&FOREIGN);
    let local: Location<[u8]> = Location::Local(vec![1u8, 2, 3].into_boxed_slice());
    assert_eq!(&*foreign, &[1, 2, 3]);
    assert_eq!(&*local, &*foreign);
    assert_eq!(local.len(), 3);
    let number: Location<u32> = Location::Local(Box::new(7));
    assert_eq!(*number, 7);
}
