//! The data the patch exchanges with the IL2CPP runtime: NUL-terminated
//! names, exported symbol names and managed (UTF-16) strings.
use vstd::prelude::*;
use vstd::utf8::{
    decode_utf8, encode_scalar, encode_utf8, encode_utf8_decode_utf8, has_width_1_encoding,
};

verus! {

/// The bytes of a C string holding `s`: its UTF-8 encoding followed by a
/// terminating NUL byte.
pub open spec fn cstr_bytes(s: Seq<char>) -> Seq<u8> {
    encode_utf8(s).push(0u8)
}

/// Text that can be handed to the runtime as a NUL-terminated C string.
pub trait AsCStr: View<V = Seq<char>> {
    /// The NUL-terminated UTF-8 bytes of the text.
    fn as_cstr(&self) -> (r: Vec<u8>)
        ensures
            r@ == cstr_bytes(self@),
    ;
}

impl AsCStr for str {
    fn as_cstr(&self) -> (r: Vec<u8>) {
        let mut bytes = self.as_bytes_vec();
        bytes.push(0u8);
        bytes
    }
}

impl<'a> AsCStr for &'a str {
    fn as_cstr(&self) -> (r: Vec<u8>) {
        (**self).as_cstr()
    }
}

/// The name under which the runtime exports its API function `name`.
pub open spec fn export_symbol_spec(name: Seq<char>) -> Seq<char> {
    "il2cpp_"@ + name
}

/// The exported symbol name of the runtime API function `name`
/// (`domain_get` is exported as `il2cpp_domain_get`).
pub fn export_symbol(name: &str) -> (r: String)
    ensures
        r@ == export_symbol_spec(name@),
        r@ == "il2cpp_"@ + name@,
{
    String::from_str("il2cpp_").concat(name)
}

/// The exported name of an API function is `il2cpp_` followed by the whole
/// function name: seven characters longer, with the name as its suffix.
pub proof fn law_export_symbol(name: Seq<char>)
    ensures
        export_symbol_spec(name).len() == 7 + name.len(),
        export_symbol_spec(name).take(7) == "il2cpp_"@,
        export_symbol_spec(name).skip(7) == name,
        name.is_suffix_of(export_symbol_spec(name)),
{
    reveal_strlit("il2cpp_");
    let e = export_symbol_spec(name);
    assert(e.take(7) =~= "il2cpp_"@);
    assert(e.skip(7) =~= name);
    assert(e.subrange(e.len() - name.len(), e.len() as int) =~= name);
}

/// A UTF-16 code unit that opens a surrogate pair.
pub open spec fn is_high_surrogate(u: u16) -> bool {
    0xD800 <= u < 0xDC00
}

/// A UTF-16 code unit that closes a surrogate pair.
pub open spec fn is_low_surrogate(u: u16) -> bool {
    0xDC00 <= u < 0xE000
}

/// The character that a high and a low surrogate encode together.
pub open spec fn surrogate_pair_char(high: u16, low: u16) -> char {
    (0x10000 + (high - 0xD800) * 0x400 + (low - 0xDC00)) as char
}

/// Lossy UTF-16 decoding: every well-formed unit or surrogate pair gives
/// its character, every unpaired surrogate gives U+FFFD.
pub open spec fn utf16_lossy(units: Seq<u16>) -> Seq<char>
    decreases units.len(),
{
    if units.len() == 0 {
        seq![]
    } else if units.len() >= 2 && is_high_surrogate(units[0]) && is_low_surrogate(units[1]) {
        seq![surrogate_pair_char(units[0], units[1])] + utf16_lossy(units.skip(2))
    } else if is_high_surrogate(units[0]) || is_low_surrogate(units[0]) {
        seq!['\u{FFFD}'] + utf16_lossy(units.drop_first())
    } else {
        seq![units[0] as char] + utf16_lossy(units.drop_first())
    }
}

/// Decodes UTF-16 code units lossily (`String::from_utf16_lossy`). Its
/// documentation (with that of `char::decode_utf16`) says that each
/// well-formed unit or surrogate pair decodes to its character and that
/// each unpaired surrogate is replaced by U+FFFD; the contract states
/// exactly that, through `utf16_lossy`.
#[verifier::external_body]
fn decode_utf16_lossy(units: &[u16]) -> (s: String)
    ensures
        s@ == utf16_lossy(units@),
{
    String::from_utf16_lossy(units)
}

/// A managed string of the runtime: its object header, its length in
/// UTF-16 code units, and the code units stored after the length.
pub struct Il2CppString {
    pub header: u128,
    pub length: u32,
    pub chars: Vec<u16>,
}

impl Il2CppString {
    /// The text of the string: its first `length` code units, decoded
    /// lossily.
    pub fn to_string(&self) -> (s: String)
        requires
            self.length <= self.chars.len(),
        ensures
            s@ == utf16_lossy(self.chars@.take(self.length as int)),
    {
        let n = self.length as usize;
        let mut units: Vec<u16> = Vec::new();
        let mut i: usize = 0;
        while i < n
            invariant
                n == self.length,
                n <= self.chars.len(),
                i <= n,
                units@ == self.chars@.take(i as int),
            decreases n - i,
        {
            units.push(self.chars[i]);
            i += 1;
            assert(units@ =~= self.chars@.take(i as int));
        }
        decode_utf16_lossy(units.as_slice())
    }
}

/// When no code unit is a surrogate, decoding maps each unit to the
/// character with the same value, one for one.
pub proof fn law_utf16_plain_units(units: Seq<u16>)
    requires
        forall|i: int| 0 <= i < units.len() ==> !is_high_surrogate(#[trigger] units[i])
            && !is_low_surrogate(units[i]),
    ensures
        utf16_lossy(units) == units.map_values(|u: u16| u as char),
    decreases units.len(),
{
    if units.len() > 0 {
        let tail = units.drop_first();
        assert(!is_high_surrogate(units[0]) && !is_low_surrogate(units[0]));
        assert forall|i: int| 0 <= i < tail.len() implies !is_high_surrogate(#[trigger] tail[i])
            && !is_low_surrogate(tail[i]) by {
            assert(tail[i] == units[i + 1]);
        }
        law_utf16_plain_units(tail);
        assert(utf16_lossy(units) =~= units.map_values(|u: u16| u as char));
    } else {
        assert(utf16_lossy(units) =~= units.map_values(|u: u16| u as char));
    }
}

/// What a reader of a C string sees in `bytes`: the bytes before the first
/// NUL (all of them when there is none).
pub open spec fn cstr_text(bytes: Seq<u8>) -> Seq<u8>
    decreases bytes.len(),
{
    if bytes.len() == 0 || bytes[0] == 0u8 {
        seq![]
    } else {
        seq![bytes[0]] + cstr_text(bytes.drop_first())
    }
}

proof fn lemma_encode_scalar_no_nul(c: char)
    requires
        c != '\0',
    ensures
        forall|i: int| 0 <= i < encode_scalar(c as u32).len() ==> #[trigger] encode_scalar(
            c as u32,
        )[i] != 0u8,
{
    let v = c as u32;
    assert(v != 0);
    if has_width_1_encoding(v) {
        assert((v & 0x7F) as u8 != 0u8) by (bit_vector)
            requires
                v != 0,
                v <= 0x7F,
        ;
    } else {
        assert((0xC0u8 | ((v >> 6) & 0x1F) as u8) != 0u8) by (bit_vector);
        assert((0xE0u8 | ((v >> 12) & 0x0F) as u8) != 0u8) by (bit_vector);
        assert((0xF0u8 | ((v >> 18) & 0x7) as u8) != 0u8) by (bit_vector);
        assert((0x80u8 | (v & 0x3F) as u8) != 0u8) by (bit_vector);
        assert((0x80u8 | ((v >> 6) & 0x3F) as u8) != 0u8) by (bit_vector);
        assert((0x80u8 | ((v >> 12) & 0x3F) as u8) != 0u8) by (bit_vector);
    }
}

proof fn lemma_encode_utf8_no_nul(s: Seq<char>)
    requires
        forall|i: int| 0 <= i < s.len() ==> #[trigger] s[i] != '\0',
    ensures
        forall|i: int| 0 <= i < encode_utf8(s).len() ==> #[trigger] encode_utf8(s)[i] != 0u8,
    decreases s.len(),
{
    if s.len() > 0 {
        let tail = s.drop_first();
        assert forall|i: int| 0 <= i < tail.len() implies #[trigger] tail[i] != '\0' by {
            assert(tail[i] == s[i + 1]);
        }
        lemma_encode_utf8_no_nul(tail);
        assert(s[0] != '\0');
        lemma_encode_scalar_no_nul(s[0]);
        let head = encode_scalar(s[0] as u32);
        assert(encode_utf8(s) == head + encode_utf8(tail));
        assert forall|i: int| 0 <= i < encode_utf8(s).len() implies #[trigger] encode_utf8(s)[i]
            != 0u8 by {
            if i < head.len() {
                assert(encode_utf8(s)[i] == head[i]);
            } else {
                assert(encode_utf8(s)[i] == encode_utf8(tail)[i - head.len()]);
            }
        }
    }
}

proof fn lemma_cstr_text_stops_at_nul(a: Seq<u8>, b: Seq<u8>)
    requires
        forall|i: int| 0 <= i < a.len() ==> #[trigger] a[i] != 0u8,
    ensures
        cstr_text(a + seq![0u8] + b) == a,
    decreases a.len(),
{
    if a.len() == 0 {
        assert((a + seq![0u8] + b)[0] == 0u8);
    } else {
        let tail = a.drop_first();
        assert forall|i: int| 0 <= i < tail.len() implies #[trigger] tail[i] != 0u8 by {
            assert(tail[i] == a[i + 1]);
        }
        lemma_cstr_text_stops_at_nul(tail, b);
        assert((a + seq![0u8] + b).drop_first() =~= tail + seq![0u8] + b);
        assert(a[0] != 0u8);
        assert(seq![a[0]] + tail =~= a);
    }
}

proof fn lemma_encode_utf8_concat(a: Seq<char>, b: Seq<char>)
    ensures
        encode_utf8(a + b) == encode_utf8(a) + encode_utf8(b),
    decreases a.len(),
{
    if a.len() == 0 {
        assert(a + b =~= b);
        assert(encode_utf8(a) + encode_utf8(b) =~= encode_utf8(b));
    } else {
        lemma_encode_utf8_concat(a.drop_first(), b);
        assert((a + b).drop_first() =~= a.drop_first() + b);
        assert((a + b)[0] == a[0]);
        assert(encode_utf8(a + b) =~= encode_utf8(a) + encode_utf8(b));
    }
}

/// Reading the C string of a text back gives the text again when the text
/// holds no NUL character: the bytes up to the first NUL are exactly its
/// UTF-8 encoding, which decodes to the text.
pub proof fn law_cstr_round_trip(s: Seq<char>)
    requires
        forall|i: int| 0 <= i < s.len() ==> #[trigger] s[i] != '\0',
    ensures
        cstr_text(cstr_bytes(s)) == encode_utf8(s),
        decode_utf8(cstr_text(cstr_bytes(s))) == s,
{
    lemma_encode_utf8_no_nul(s);
    lemma_cstr_text_stops_at_nul(encode_utf8(s), seq![]);
    assert(encode_utf8(s) + seq![0u8] + Seq::<u8>::empty() =~= cstr_bytes(s));
    encode_utf8_decode_utf8(s);
}

/// A text with an interior NUL is cut there when read back as a C string:
/// the reader sees the UTF-8 encoding of the part before the first NUL.
pub proof fn law_cstr_cut_at_nul(before: Seq<char>, after: Seq<char>)
    requires
        forall|i: int| 0 <= i < before.len() ==> #[trigger] before[i] != '\0',
    ensures
        cstr_text(cstr_bytes(before + seq!['\0'] + after)) == encode_utf8(before),
{
    let s = before + seq!['\0'] + after;
    lemma_encode_utf8_no_nul(before);
    lemma_encode_utf8_concat(before, seq!['\0'] + after);
    assert(s =~= before + (seq!['\0'] + after));
    let rest = seq!['\0'] + after;
    assert(rest.drop_first() =~= after);
    assert(rest[0] == '\0');
    assert(encode_scalar('\0' as u32) =~= seq![0u8]) by {
        assert(('\0' as u32) == 0);
        assert((0u32 & 0x7F) as u8 == 0u8) by (bit_vector);
    }
    assert(encode_utf8(rest) == seq![0u8] + encode_utf8(after));
    assert(cstr_bytes(s) =~= encode_utf8(before) + seq![0u8] + encode_utf8(after).push(0u8));
    lemma_cstr_text_stops_at_nul(encode_utf8(before), encode_utf8(after).push(0u8));
}

/// A C string is the text's UTF-8 bytes followed by exactly one NUL,
/// which is its last byte.
pub proof fn law_cstr_terminated(s: Seq<char>)
    ensures
        cstr_bytes(s).len() == encode_utf8(s).len() + 1,
        cstr_bytes(s).last() == 0u8,
        cstr_bytes(s).drop_last() == encode_utf8(s),
{
    assert(cstr_bytes(s).drop_last() =~= encode_utf8(s));
}

} // verus!
