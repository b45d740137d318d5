use endfield_patch::marshal::{find, module, PTR_TO_STRING_ANSI_OFFSET};

#[test]
fn find_adds_offset_to_scanned_address() {
    assert_eq!(PTR_TO_STRING_ANSI_OFFSET, 0x140);
    assert_eq!(find(None, Some(0x1000)), Some(0x1140));
    assert_eq!(find(Some(0x5000), Some(0x2000)), Some(0x2140));
}

#[test]
fn find_keeps_cache_when_scan_fails() {
    assert_eq!(find(Some(0x5000), None), Some(0x5000));
    assert_eq!(find(None, None), None);
}

#[test]
fn module_for_either_executable() {
    assert_eq!(module(true, false), "GameAssembly.dll");
    assert_eq!(module(false, true), "GameAssembly.dll");
    assert_eq!(module(true, true), "GameAssembly.dll");
}

#[test]
fn find_twice_equals_find_once() {
    let once = find(None, Some(0x7000));
    assert_eq!(find(once, Some(0x7000)), once);
    let kept = find(Some(0x42), None);
    assert_eq!(find(kept, None), kept);
}
