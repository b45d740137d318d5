use endfield_patch::il2cpp::{export_symbol, AsCStr, Il2CppString};

fn managed(text: &[u16]) -> Il2CppString {
    Il2CppString { header: 0, length: text.len() as u32, chars: text.to_vec() }
}

#[test]
fn as_cstr_appends_nul() {
    assert_eq!("abc".as_cstr(), b"abc\0".to_vec());
    assert_eq!("".as_cstr(), vec![0u8]);
    let name: &str = "UnityEngine.Networking";
    assert_eq!((&name).as_cstr(), b"UnityEngine.Networking\0".to_vec());
}

#[test]
fn as_cstr_encodes_utf8() {
    assert_eq!("é".as_cstr(), vec![0xC3, 0xA9, 0]);
}

#[test]
fn export_symbol_names() {
    assert_eq!(export_symbol("domain_get"), "il2cpp_domain_get");
    assert_eq!(export_symbol("string_new"), "il2cpp_string_new");
}

#[test]
fn decodes_plain_text() {
    let units: Vec<u16> = "https://a.b/c".encode_utf16().collect();
    assert_eq!(managed(&units).to_string(), "https://a.b/c");
}

#[test]
fn decodes_surrogate_pair() {
    assert_eq!(managed(&[0x48, 0xD83D, 0xDE00]).to_string(), "H\u{1F600}");
}

#[test]
fn replaces_unpaired_surrogates() {
    assert_eq!(managed(&[0xD83D, 0x41]).to_string(), "\u{FFFD}A");
    assert_eq!(managed(&[0xDE00, 0xD83D]).to_string(), "\u{FFFD}\u{FFFD}");
}

#[test]
fn reads_only_length_units() {
    let s = Il2CppString { header: 7, length: 2, chars: vec![0x41, 0x42, 0x43] };
    assert_eq!(s.to_string(), "AB");
    let empty = Il2CppString { header: 0, length: 0, chars: vec![0x41] };
    assert_eq!(empty.to_string(), "");
}

/// The bytes a C-string reader sees: those before the first NUL.
fn c_text(bytes: &[u8]) -> &[u8] {
    let end = bytes.iter().position(|&b| b == 0).unwrap_or(bytes.len());
    &bytes[..end]
}

#[test]
fn cstr_reads_back_as_text() {
    for text in ["set_url", "UnityEngine.Networking", "é/ü", ""] {
        let bytes = text.as_cstr();
        assert_eq!(std::str::from_utf8(c_text(&bytes)), Ok(text));
    }
}

#[test]
fn cstr_with_interior_nul_ends_there() {
    let bytes = "ab\0cd".as_cstr();
    assert_eq!(bytes, b"ab\0cd\0".to_vec());
    assert_eq!(std::str::from_utf8(c_text(&bytes)), Ok("ab"));
}
