//! The font backend for the WASI sandbox, where there is no fontconfig or
//! CoreText: fonts are found by scanning a mounted directory for font files,
//! and their names are read from the files' name tables. Directory walking
//! and FreeType face access are done by the caller; this module decides which
//! files are fonts, which faces they contribute, how name records become the
//! name lists of a font, and which fonts a search for a name picks.
use crate::paths::{extension, extension_of};
use crate::text::{lemma_filter_member, same_bytes, same_text, to_lowercase, unicode_lowercase};
use vstd::prelude::*;

verus! {

/// Name-table id of a font family name.
pub const FONT_FAMILY_NAME: u16 = 1;
/// Name-table id of a font style (subfamily) name.
pub const FONT_STYLE_NAME: u16 = 2;
/// Name-table id of a full font name.
pub const FONT_FULL_NAME: u16 = 4;
/// Name-table id of a preferred (typographic) family name.
pub const PREFERRED_FAMILY_NAME: u16 = 16;
/// Name-table id of a preferred (typographic) subfamily name.
pub const PREFERRED_SUBFAMILY_NAME: u16 = 17;

/// Platform id of Apple Unicode name records.
pub const PLATFORM_APPLE_UNICODE: u16 = 0;
/// Platform id of Macintosh name records.
pub const PLATFORM_MACINTOSH: u16 = 1;
/// Platform id of Microsoft name records.
pub const PLATFORM_MICROSOFT: u16 = 3;
/// Macintosh encoding id of Mac Roman.
pub const MAC_ENCODING_ROMAN: u16 = 0;
/// Macintosh language id of English.
pub const MAC_LANGUAGE_ENGLISH: u16 = 0;

/// A file extension (already lower-cased) that marks a font file.
pub open spec fn is_font_extension_text(lower: Seq<char>) -> bool {
    lower == "ttf"@ || lower == "otf"@ || lower == "ttc"@ || lower == "dfont"@
}

/// Whether a path is a candidate font file: its extension, lower-cased, is
/// `ttf`, `otf`, `ttc` or `dfont`, and the path can be handed to C (it holds
/// no NUL character).
pub open spec fn is_font_path(path: Seq<char>) -> bool {
    &&& extension_of(path) matches Some(ext) && is_font_extension_text(unicode_lowercase(ext))
    &&& !path.contains('\0')
}

/// Whether the file at `path` should be opened as a font (see `is_font_path`).
pub fn is_font_file(path: &str) -> (b: bool)
    ensures
        b == is_font_path(path@),
{
    let ext = match extension(path) {
        Some(e) => e,
        None => return false,
    };
    let lower = to_lowercase(ext.as_str());
    let l = lower.as_str();
    let accepted = same_text(l, "ttf") || same_text(l, "otf") || same_text(l, "ttc")
        || same_text(l, "dfont");
    if !accepted {
        return false;
    }
    let mut has_nul = false;
    for c in it: path.chars()
        invariant
            has_nul == it.seq().take(it.index() as int).contains('\0'),
    {
        proof {
            let pre = it.seq().take(it.index() as int);
            let next = it.seq().take(it.index() + 1);
            assert(next == pre.push(c));
            assert(next.contains('\0') == (pre.contains('\0') || c == '\0')) by {
                if c == '\0' {
                    assert(next[pre.len() as int] == '\0');
                }
                if next.contains('\0') {
                    let k = choose|k: int| 0 <= k < next.len() && next[k] == '\0';
                    if k < pre.len() {
                        assert(pre[k] == '\0');
                    }
                }
            }
        }
        if c == '\0' {
            has_nul = true;
        }
    }
    proof {
        assert(path@.take(path@.len() as int) == path@);
    }
    !has_nul
}

/// A face of a font file: the file's path and the face's index within it.
#[derive(Clone, Debug, PartialEq, Eq, Hash)]
pub struct WasiFontRef {
    /// The font file.
    pub path: String,
    /// The face within the file.
    pub index: i32,
}

/// The faces of a font file with `num_faces` faces, in order: one reference
/// per face index, the index converted to `i32` as a C `int`.
pub fn face_refs(path: &str, num_faces: usize) -> (refs: Vec<WasiFontRef>)
    ensures
        refs@.len() == num_faces,
        forall|i: int|
            0 <= i < num_faces ==> (#[trigger] refs@[i]).path@ == path@ && refs@[i].index == (
            i as i32),
{
    let mut refs: Vec<WasiFontRef> = Vec::new();
    let mut i: usize = 0;
    while i < num_faces
        invariant
            i <= num_faces,
            refs@.len() == i,
            forall|k: int|
                0 <= k < i ==> (#[trigger] refs@[k]).path@ == path@ && refs@[k].index == (k as i32),
        decreases num_faces - i,
    {
        refs.push(WasiFontRef { path: path.to_owned(), index: i as i32 });
        i = i + 1;
    }
    refs
}

/// The directory scanned for fonts: `TECTONIC_FONT_DIR` when it is set,
/// `/fonts` otherwise.
pub fn font_directory(configured: Option<String>) -> (dir: String)
    ensures
        dir@ == match configured {
            Some(d) => d@,
            None => "/fonts"@,
        },
{
    match configured {
        Some(d) => d,
        None => "/fonts".to_owned(),
    }
}

/// The byte strings held by a sequence of byte vectors.
pub open spec fn byte_texts(v: Seq<Vec<u8>>) -> Seq<Seq<u8>> {
    v.map_values(|x: Vec<u8>| x@)
}

/// A name list after appending `name`: unchanged if the name is already
/// listed, otherwise with the name added at the end.
pub open spec fn appended(list: Seq<Seq<u8>>, name: Seq<u8>) -> Seq<Seq<u8>> {
    if list.contains(name) {
        list
    } else {
        list.push(name)
    }
}

/// A name list after prepending `name`: the name first, then the other
/// entries in their order (any earlier copy of the name removed).
pub open spec fn prepended(list: Seq<Seq<u8>>, name: Seq<u8>) -> Seq<Seq<u8>> {
    seq![name] + without_name(list, name)
}

/// The entries of a name list other than `name`, in order.
pub open spec fn without_name(list: Seq<Seq<u8>>, name: Seq<u8>) -> Seq<Seq<u8>> {
    list.filter(differs_from(name))
}

/// The test "is not `name`".
pub open spec fn differs_from(name: Seq<u8>) -> spec_fn(Seq<u8>) -> bool {
    |x: Seq<u8>| x != name
}

/// Adds `name` at the end of `list` unless it is already there.
pub fn append_to_list(list: &mut Vec<Vec<u8>>, name: Vec<u8>)
    ensures
        byte_texts(final(list)@) == appended(byte_texts(old(list)@), name@),
{
    let ghost before = byte_texts(list@);
    let mut i: usize = 0;
    while i < list.len()
        invariant
            before == byte_texts(list@),
            i <= list@.len(),
            forall|k: int| 0 <= k < i ==> list@[k]@ != name@,
        decreases list@.len() - i,
    {
        if same_bytes(&list[i], &name) {
            proof {
                assert(before[i as int] == name@);
                assert(before.contains(name@));
            }
            return;
        }
        i = i + 1;
    }
    proof {
        assert(!before.contains(name@)) by {
            if before.contains(name@) {
                let k = choose|k: int| 0 <= k < before.len() && before[k] == name@;
                assert(list@[k]@ == name@);
            }
        }
    }
    list.push(name);
    proof {
        assert(byte_texts(list@) =~= before.push(name@));
    }
}

/// Puts `name` at the front of `list`, removing any other copy of it.
pub fn prepend_to_list(list: &mut Vec<Vec<u8>>, name: Vec<u8>)
    ensures
        byte_texts(final(list)@) == prepended(byte_texts(old(list)@), name@),
{
    let ghost before = byte_texts(list@);
    let ghost key = name@;
    let mut others: Vec<Vec<u8>> = Vec::new();
    let mut i: usize = 0;
    while i < list.len()
        invariant
            before == byte_texts(list@),
            key == name@,
            i <= list@.len(),
            byte_texts(others@) == without_name(before.take(i as int), key),
        decreases list@.len() - i,
    {
        proof {
            reveal_with_fuel(Seq::<_>::filter, 1);
            assert(before.take(i + 1).drop_last() == before.take(i as int));
        }
        if !same_bytes(&list[i], &name) {
            let item = list[i].clone();
            proof {
                assert(item@ =~= list@[i as int]@);
            }
            others.push(item);
            proof {
                assert(byte_texts(others@) =~= without_name(before.take(i as int), key).push(
                    list@[i as int]@,
                ));
            }
        }
        i = i + 1;
    }
    proof {
        assert(before.take(before.len() as int) == before);
    }
    let mut result: Vec<Vec<u8>> = Vec::new();
    result.push(name);
    result.append(&mut others);
    proof {
        assert(byte_texts(result@) =~= seq![key] + without_name(before, key));
    }
    *list = result;
}

/// Names the result of decoding Mac Roman text to UTF-8 with `enrede`
/// (`Str::<MacRoman>::from_bytes_infallible` then `recode::<Utf8>`), or
/// `None` where the recoding fails (which it never does: every byte is Mac
/// Roman, and UTF-8 encodes every character).
pub uninterp spec fn mac_roman_to_utf8(bytes: Seq<u8>) -> Option<Seq<u8>>;

/// Names the result of decoding UTF-16BE text to UTF-8 with `enrede`
/// (`Str::<Utf16BE>::from_bytes` then `recode::<Utf8>`), or `None` where the
/// bytes are not valid UTF-16BE.
pub uninterp spec fn utf16be_to_utf8(bytes: Seq<u8>) -> Option<Seq<u8>>;

/// The `k`-th big-endian 16-bit code unit of `b`.
pub open spec fn utf16_unit(b: Seq<u8>, k: int) -> int {
    b[2 * k] * 256 + b[2 * k + 1]
}

/// A code unit that opens a surrogate pair.
pub open spec fn is_high_surrogate(u: int) -> bool {
    0xD800 <= u < 0xDC00
}

/// A code unit that closes a surrogate pair.
pub open spec fn is_low_surrogate(u: int) -> bool {
    0xDC00 <= u < 0xE000
}

/// Valid UTF-16BE: a whole number of code units, every high surrogate
/// directly followed by a low one, and every low surrogate directly preceded
/// by a high one.
pub open spec fn valid_utf16be(b: Seq<u8>) -> bool {
    &&& b.len() % 2 == 0
    &&& forall|k: int|
        0 <= k < b.len() / 2 && is_high_surrogate(#[trigger] utf16_unit(b, k)) ==> k + 1 < b.len()
            / 2 && is_low_surrogate(utf16_unit(b, k + 1))
    &&& forall|k: int|
        0 <= k < b.len() / 2 && is_low_surrogate(#[trigger] utf16_unit(b, k)) ==> k > 0
            && is_high_surrogate(utf16_unit(b, k - 1))
}

/// Some code unit of `b` is zero (the character U+0000).
pub open spec fn has_zero_unit(b: Seq<u8>) -> bool {
    exists|k: int| 0 <= k < b.len() / 2 && #[trigger] utf16_unit(b, k) == 0
}

/// UTF-16BE text of ASCII characters only: a whole number of code units,
/// each below 0x80.
pub open spec fn ascii_utf16be(b: Seq<u8>) -> bool {
    &&& b.len() % 2 == 0
    &&& forall|k: int| 0 <= k < b.len() / 2 ==> #[trigger] utf16_unit(b, k) < 0x80
}

/// The low byte of each code unit of `b`, in order.
pub open spec fn utf16be_low_bytes(b: Seq<u8>) -> Seq<u8> {
    Seq::new((b.len() / 2) as nat, |k: int| b[2 * k + 1])
}

/// Every byte is below 0x80 (ASCII).
pub open spec fn all_ascii(b: Seq<u8>) -> bool {
    forall|i: int| 0 <= i < b.len() ==> #[trigger] b[i] < 0x80
}

/// `enrede`'s Mac Roman to UTF-8 recoding. Claims that it always succeeds,
/// that its result is the function `mac_roman_to_utf8` of the input bytes,
/// that the result holds a zero byte exactly where the input does (byte 0
/// is U+0000, every other byte a non-zero character), and that ASCII input
/// comes back unchanged. The mapping of the bytes from 0x80 up is not stated.
#[verifier::external_body]
fn recode_mac_roman(bytes: &[u8]) -> (r: Option<Vec<u8>>)
    ensures
        r is Some,
        r matches Some(v) ==> mac_roman_to_utf8(bytes@) == Some(v@),
        r matches Some(v) ==> (v@.contains(0u8) <==> bytes@.contains(0u8)),
        r matches Some(v) ==> (all_ascii(bytes@) ==> v@ == bytes@),
{
    let text = enrede::Str::<enrede::encoding::MacRoman>::from_bytes_infallible(bytes);
    match text.recode::<enrede::encoding::Utf8>() {
        Ok(utf8) => Some(utf8.into_bytes()),
        Err(_) => None,
    }
}

/// `enrede`'s UTF-16BE validation and UTF-8 recoding. Claims that it
/// succeeds exactly on valid UTF-16BE, that its result is the function
/// `utf16be_to_utf8` of the input bytes, and that the result holds a zero
/// byte exactly where some code unit is zero (surrogate pairs give
/// characters from U+10000 up), and that ASCII text comes back as the low
/// bytes of its code units. The rest of the decoding is not stated.
#[verifier::external_body]
fn recode_utf16be(bytes: &[u8]) -> (r: Option<Vec<u8>>)
    ensures
        r is Some <==> valid_utf16be(bytes@),
        r matches Some(v) ==> utf16be_to_utf8(bytes@) == Some(v@),
        r is None ==> utf16be_to_utf8(bytes@) is None,
        r matches Some(v) ==> (v@.contains(0u8) <==> has_zero_unit(bytes@)),
        r matches Some(v) ==> (ascii_utf16be(bytes@) ==> v@ == utf16be_low_bytes(bytes@)),
{
    match enrede::Str::<enrede::encoding::Utf16BE>::from_bytes(bytes) {
        Ok(text) => match text.recode::<enrede::encoding::Utf8>() {
            Ok(utf8) => Some(utf8.into_bytes()),
            Err(_) => None,
        },
        Err(_) => None,
    }
}

/// One record of a font's SFNT name table.
pub struct SfntNameRecord {
    /// The platform the record is for.
    pub platform_id: u16,
    /// The platform-specific encoding of `bytes`.
    pub encoding_id: u16,
    /// The language of the name.
    pub language_id: u16,
    /// Which name this is (family, style, full name, ...).
    pub name_id: u16,
    /// The encoded name.
    pub bytes: Vec<u8>,
}

/// The records whose names are collected: family, style, full, and the
/// preferred family and subfamily names.
pub open spec fn is_collected_name_id(name_id: u16) -> bool {
    name_id == FONT_FULL_NAME || name_id == FONT_FAMILY_NAME || name_id == FONT_STYLE_NAME
        || name_id == PREFERRED_FAMILY_NAME || name_id == PREFERRED_SUBFAMILY_NAME
}

/// A Macintosh, Mac Roman, English record: decoded from Mac Roman, and
/// preferred over the others (put first in its list).
pub open spec fn is_mac_roman_english(r: SfntNameRecord) -> bool {
    r.platform_id == PLATFORM_MACINTOSH && r.encoding_id == MAC_ENCODING_ROMAN && r.language_id
        == MAC_LANGUAGE_ENGLISH
}

/// An Apple Unicode or Microsoft record: decoded from UTF-16BE.
pub open spec fn is_unicode_platform(r: SfntNameRecord) -> bool {
    r.platform_id == PLATFORM_APPLE_UNICODE || r.platform_id == PLATFORM_MICROSOFT
}

/// The UTF-8 text of a record, where its platform and encoding are read at
/// all (`None` for other records, and where the decoding fails).
pub open spec fn record_text(r: SfntNameRecord) -> Option<Seq<u8>> {
    if is_mac_roman_english(r) {
        mac_roman_to_utf8(r.bytes@)
    } else if is_unicode_platform(r) {
        utf16be_to_utf8(r.bytes@)
    } else {
        None
    }
}

/// A record's text can be taken in: where it is read at all, it decodes, and
/// the decoded text holds no NUL byte (it must become a C string). A Mac
/// Roman English record always decodes, so it only must hold no zero byte; a
/// Unicode-platform record must be valid UTF-16BE with no zero code unit.
pub open spec fn record_decodable(r: SfntNameRecord) -> bool {
    is_collected_name_id(r.name_id) ==> {
        &&& is_mac_roman_english(r) ==> !r.bytes@.contains(0u8)
        &&& (!is_mac_roman_english(r) && is_unicode_platform(r)) ==> (valid_utf16be(r.bytes@)
            && !has_zero_unit(r.bytes@))
    }
}

/// The name lists of a font.
#[verifier::ext_equal]
pub struct NameLists {
    /// Full names.
    pub full: Seq<Seq<u8>>,
    /// Family names.
    pub family: Seq<Seq<u8>>,
    /// Style names.
    pub style: Seq<Seq<u8>>,
}

/// No names at all.
pub open spec fn no_names() -> NameLists {
    NameLists { full: Seq::empty(), family: Seq::empty(), style: Seq::empty() }
}

/// The name lists after taking in one record: a decoded full, family or style
/// name goes into its list, first where the record is Mac Roman English and
/// at the end (if not already listed) otherwise. Preferred family and
/// subfamily names, and records that are not read, change nothing.
pub open spec fn with_record(lists: NameLists, r: SfntNameRecord) -> NameLists {
    match record_text(r) {
        Some(t) => {
            let put = |l: Seq<Seq<u8>>|
                if is_mac_roman_english(r) {
                    prepended(l, t)
                } else {
                    appended(l, t)
                };
            if r.name_id == FONT_FULL_NAME {
                NameLists { full: put(lists.full), ..lists }
            } else if r.name_id == FONT_FAMILY_NAME {
                NameLists { family: put(lists.family), ..lists }
            } else if r.name_id == FONT_STYLE_NAME {
                NameLists { style: put(lists.style), ..lists }
            } else {
                lists
            }
        },
        None => lists,
    }
}

/// The name lists built from a name table's records in order (records that
/// could not be fetched are `None` and skipped).
pub open spec fn lists_from_records(records: Seq<Option<SfntNameRecord>>) -> NameLists
    decreases records.len(),
{
    if records.len() == 0 {
        no_names()
    } else {
        let before = lists_from_records(records.drop_last());
        match records.last() {
            Some(r) => with_record(before, r),
            None => before,
        }
    }
}

/// The names of a font face.
pub struct NameCollection {
    /// Family names.
    pub family_names: Vec<Vec<u8>>,
    /// Style names.
    pub style_names: Vec<Vec<u8>>,
    /// Full names.
    pub full_names: Vec<Vec<u8>>,
    /// The PostScript name.
    pub ps_name: Option<Vec<u8>>,
}

impl NameCollection {
    /// The three name lists.
    pub open spec fn lists(&self) -> NameLists {
        NameLists {
            full: byte_texts(self.full_names@),
            family: byte_texts(self.family_names@),
            style: byte_texts(self.style_names@),
        }
    }

    /// No names.
    pub fn empty() -> (c: NameCollection)
        ensures
            c.lists() == no_names(),
            c.ps_name is None,
    {
        let c = NameCollection {
            family_names: Vec::new(),
            style_names: Vec::new(),
            full_names: Vec::new(),
            ps_name: None,
        };
        proof {
            assert(c.lists() =~~= no_names());
        }
        c
    }
}

/// What a font face offers for reading its names.
pub struct FaceNameData {
    /// The face's PostScript name, if it has one.
    pub ps_name: Option<Vec<u8>>,
    /// Whether the face is an SFNT (TrueType/OpenType) face.
    pub is_sfnt: bool,
    /// The records of the name table, in order (`None` where one could not
    /// be fetched).
    pub records: Vec<Option<SfntNameRecord>>,
    /// The family name that FreeType reports, for non-SFNT faces.
    pub family_name: Option<Vec<u8>>,
    /// The style name that FreeType reports, for non-SFNT faces.
    pub style_name: Option<Vec<u8>>,
}

/// Every record that is read decodes to a C-string-compatible text.
pub open spec fn face_decodable(face: FaceNameData) -> bool {
    face.is_sfnt ==> forall|i: int|
        0 <= i < face.records@.len() ==> (#[trigger] face.records@[i] matches Some(r)
            ==> record_decodable(r))
}

/// The name lists of a face, as `read_names` builds them: from the name
/// table for an SFNT face, and from FreeType's family and style names
/// otherwise.
pub open spec fn face_lists(face: FaceNameData) -> NameLists {
    if face.is_sfnt {
        lists_from_records(face.records@)
    } else {
        NameLists {
            full: Seq::empty(),
            family: match face.family_name {
                Some(f) => seq![f@],
                None => Seq::empty(),
            },
            style: match face.style_name {
                Some(s) => seq![s@],
                None => Seq::empty(),
            },
        }
    }
}

fn has_nul(v: &Vec<u8>) -> (b: bool)
    ensures
        b == v@.contains(0u8),
{
    let mut i: usize = 0;
    while i < v.len()
        invariant
            i <= v@.len(),
            forall|k: int| 0 <= k < i ==> v@[k] != 0u8,
        decreases v@.len() - i,
    {
        if v[i] == 0u8 {
            proof {
                assert(v@[i as int] == 0u8);
            }
            return true;
        }
        i = i + 1;
    }
    false
}

/// Takes one name record into the collection. Returns `false`, leaving the
/// lists unspecified, where the record cannot be taken in (see
/// `record_decodable`).
fn take_record(names: &mut NameCollection, r: &SfntNameRecord) -> (ok: bool)
    ensures
        ok == record_decodable(*r),
        ok ==> final(names).lists() == with_record(old(names).lists(), *r),
        final(names).ps_name == old(names).ps_name,
{
    let id = r.name_id;
    if !(id == FONT_FULL_NAME || id == FONT_FAMILY_NAME || id == FONT_STYLE_NAME || id
        == PREFERRED_FAMILY_NAME || id == PREFERRED_SUBFAMILY_NAME) {
        return true;
    }
    let preferred = r.platform_id == PLATFORM_MACINTOSH && r.encoding_id == MAC_ENCODING_ROMAN
        && r.language_id == MAC_LANGUAGE_ENGLISH;
    let text = if preferred {
        recode_mac_roman(r.bytes.as_slice())
    } else if r.platform_id == PLATFORM_APPLE_UNICODE || r.platform_id == PLATFORM_MICROSOFT {
        recode_utf16be(r.bytes.as_slice())
    } else {
        return true;
    };
    let t = match text {
        Some(t) => t,
        None => return false,
    };
    if has_nul(&t) {
        return false;
    }
    let ghost before = names.lists();
    if id == FONT_FULL_NAME {
        if preferred {
            prepend_to_list(&mut names.full_names, t);
        } else {
            append_to_list(&mut names.full_names, t);
        }
    } else if id == FONT_FAMILY_NAME {
        if preferred {
            prepend_to_list(&mut names.family_names, t);
        } else {
            append_to_list(&mut names.family_names, t);
        }
    } else if id == FONT_STYLE_NAME {
        if preferred {
            prepend_to_list(&mut names.style_names, t);
        } else {
            append_to_list(&mut names.style_names, t);
        }
    }
    proof {
        assert(names.lists() =~~= with_record(before, *r));
    }
    true
}

/// Reads the names of a face (`None` where the face could not be opened),
/// or returns `None` where a name record that is read does not decode to a
/// C-string-compatible text. A face that cannot be opened, or that has no
/// PostScript name, has no names at all. Otherwise the collection carries
/// the PostScript name and the lists of `face_lists`.
pub fn read_names_checked(face: &Option<FaceNameData>) -> (r: Option<NameCollection>)
    ensures
        match face {
            None => r matches Some(c) && c.lists() == no_names() && c.ps_name is None,
            Some(f) => match f.ps_name {
                None => r matches Some(c) && c.lists() == no_names() && c.ps_name is None,
                Some(ps) => match r {
                    Some(c) => face_decodable(*f) && c.lists() == face_lists(*f) && (c.ps_name matches Some(
                        p,
                    ) && p@ == ps@),
                    None => !face_decodable(*f),
                },
            },
        },
{
    let f = match face {
        Some(f) => f,
        None => return Some(NameCollection::empty()),
    };
    let ps = match &f.ps_name {
        Some(p) => p.clone(),
        None => return Some(NameCollection::empty()),
    };
    proof {
        assert(ps@ =~= f.ps_name->0@);
    }
    let mut names = NameCollection::empty();
    names.ps_name = Some(ps);
    if f.is_sfnt {
        let n = f.records.len();
        let mut i: usize = 0;
        while i < n
            invariant
                n == f.records@.len(),
                *face == Some(*f),
                f.ps_name is Some,
                f.is_sfnt,
                i <= n,
                names.lists() == lists_from_records(f.records@.take(i as int)),
                names.ps_name matches Some(p) && p@ == f.ps_name->0@,
                forall|k: int|
                    0 <= k < i ==> (#[trigger] f.records@[k] matches Some(r) ==> record_decodable(r)),
            decreases n - i,
        {
            proof {
                assert(f.records@.take(i + 1).drop_last() == f.records@.take(i as int));
            }
            match &f.records[i] {
                Some(r) => {
                    if !take_record(&mut names, r) {
                        proof {
                            assert(f.records@[i as int] == Some(*r));
                            assert(!face_decodable(*f));
                        }
                        return None;
                    }
                },
                None => {},
            }
            i = i + 1;
        }
        proof {
            assert(f.records@.take(n as int) == f.records@);
        }
    } else {
        match &f.family_name {
            Some(fam) => {
                let fam = fam.clone();
                proof {
                    assert(fam@ =~= f.family_name->0@);
                }
                append_to_list(&mut names.family_names, fam);
            },
            None => {},
        }
        match &f.style_name {
            Some(st) => {
                let st = st.clone();
                proof {
                    assert(st@ =~= f.style_name->0@);
                }
                append_to_list(&mut names.style_names, st);
            },
            None => {},
        }
        proof {
            assert(names.lists() =~~= face_lists(*f));
        }
    }
    Some(names)
}

/// Reads the names of a face, as `read_names_checked` does, for a face whose
/// name records all decode (a record that does not would stop the reading).
pub fn read_names(face: &Option<FaceNameData>) -> (c: NameCollection)
    requires
        face matches Some(f) ==> (f.ps_name is Some ==> face_decodable(*f)),
    ensures
        match face {
            Some(f) => match f.ps_name {
                Some(ps) => c.lists() == face_lists(*f) && (c.ps_name matches Some(p) && p@ == ps@),
                None => c.lists() == no_names() && c.ps_name is None,
            },
            None => c.lists() == no_names() && c.ps_name is None,
        },
{
    match read_names_checked(face) {
        Some(c) => c,
        None => {
            proof {
                assert(false);
            }
            NameCollection::empty()
        },
    }
}

/// The font backend that scans a directory for font files.
pub struct WasiFsBackend {
    all_fonts: Vec<WasiFontRef>,
    cached_all: bool,
}

impl WasiFsBackend {
    /// The faces found by the directory scan, in order.
    pub closed spec fn fonts(&self) -> Seq<WasiFontRef> {
        self.all_fonts@
    }

    /// Whether every face has already been added to the font maps, so that
    /// searches have nothing left to do.
    pub closed spec fn has_cached_all(&self) -> bool {
        self.cached_all
    }

    /// A backend over the faces that the scan of the font directory found.
    pub fn new(all_fonts: Vec<WasiFontRef>) -> (b: WasiFsBackend)
        ensures
            b.fonts() == all_fonts@,
            !b.has_cached_all(),
    {
        WasiFsBackend { all_fonts, cached_all: false }
    }

    /// The faces found by the directory scan.
    pub fn all_fonts(&self) -> (v: &Vec<WasiFontRef>)
        ensures
            v@ == self.fonts(),
    {
        &self.all_fonts
    }

    /// Whether every face has already been added to the font maps.
    pub fn cached_all(&self) -> (b: bool)
        ensures
            b == self.has_cached_all(),
    {
        self.cached_all
    }

    /// The platform description of a face: its file's path.
    pub fn get_platform_font_desc<'a>(&self, font: &'a WasiFontRef) -> (d: &'a str)
        ensures
            d@ == font.path@,
    {
        font.path.as_str()
    }

    /// Starts a search for the font `name` (see `FontSearch`): `None`, with
    /// nothing to do, once every face has been cached.
    pub fn start_search(&self, name: &[u8]) -> (s: Option<FontSearch>)
        ensures
            self.has_cached_all() ==> s is None,
            !self.has_cached_all() ==> (s matches Some(search) && search.query() == name@
                && search.family_prefix() == hyphen_prefix(name@) && !search.has_found()
                && !search.is_adding_all()),
            (forall|i: int| 0 <= i < name@.len() ==> name@[i] != 45u8) ==> (s matches Some(search)
                ==> search.family_prefix() is None),
    {
        if self.cached_all {
            return None;
        }
        let mut query: Vec<u8> = Vec::new();
        query.extend_from_slice(name);
        proof {
            assert(query@ =~= name@);
        }
        let family_prefix = family_prefix_of(name);
        Some(FontSearch { query, family_prefix, found: false, adding_all: false })
    }

    /// Ends a scan over all faces: `true` when another scan must follow,
    /// which happens when nothing matched and not every face was added yet.
    /// The backend then marks every face as cached, and the next scan adds
    /// every face.
    pub fn end_scan(&mut self, search: &mut FontSearch) -> (again: bool)
        ensures
            scan_end(*old(self), *old(search), *final(self), *final(search), again),
    {
        if search.found || search.adding_all {
            return false;
        }
        search.adding_all = true;
        self.cached_all = true;
        true
    }
}

/// The end of a scan, from backend `b` and search `s` to backend `b2` and
/// search `s2`, as `WasiFsBackend::end_scan` makes it: another scan follows
/// (`again`) exactly where nothing matched and not every face was being
/// added; the next scan then adds every face and the backend is marked as
/// having cached every face. Otherwise nothing changes. The searched name,
/// the family prefix, whether a face matched, and the faces stay as they
/// were.
pub open spec fn scan_end(
    b: WasiFsBackend,
    s: FontSearch,
    b2: WasiFsBackend,
    s2: FontSearch,
    again: bool,
) -> bool {
    &&& again == (!s.has_found() && !s.is_adding_all())
    &&& again ==> s2.is_adding_all() && b2.has_cached_all()
    &&& !again ==> s2 == s && b2.has_cached_all() == b.has_cached_all()
    &&& s2.query() == s.query()
    &&& s2.family_prefix() == s.family_prefix()
    &&& s2.has_found() == s.has_found()
    &&& b2.fonts() == b.fonts()
}

/// The family part of a `Family-Style` font name: the bytes before the
/// first `-`, where there is one and it is not the first byte.
pub open spec fn hyphen_prefix(name: Seq<u8>) -> Option<Seq<u8>> {
    if exists|k: int| 0 <= k < name.len() && name[k] == 45u8 {
        let k = choose|k: int|
            0 <= k < name.len() && name[k] == 45u8 && forall|j: int| 0 <= j < k ==> name[j] != 45u8;
        if k > 0 {
            Some(name.take(k))
        } else {
            None
        }
    } else {
        None
    }
}

fn family_prefix_of(name: &[u8]) -> (r: Option<Vec<u8>>)
    ensures
        opt_bytes_of(r) == hyphen_prefix(name@),
{
    let mut k: usize = 0;
    while k < name.len()
        invariant
            k <= name@.len(),
            forall|j: int| 0 <= j < k ==> name@[j] != 45u8,
        decreases name@.len() - k,
    {
        if name[k] == 45u8 {
            proof {
                let c = choose|c: int|
                    0 <= c < name@.len() && name@[c] == 45u8 && forall|j: int|
                        0 <= j < c ==> name@[j] != 45u8;
                assert(name@[k as int] == 45u8);
                if c < k {
                } else if c > k {
                    assert(name@[k as int] != 45u8);
                }
                assert(c == k);
            }
            if k == 0 {
                return None;
            }
            let mut prefix: Vec<u8> = Vec::new();
            let mut j: usize = 0;
            while j < k
                invariant
                    j <= k,
                    k < name@.len(),
                    prefix@ == name@.take(j as int),
                decreases k - j,
            {
                prefix.push(name[j]);
                proof {
                    assert(name@.take(j + 1) == name@.take(j as int).push(name@[j as int]));
                }
                j = j + 1;
            }
            return Some(prefix);
        }
        k = k + 1;
    }
    None
}

/// The bytes of an optional byte vector.
pub open spec fn opt_bytes_of(v: Option<Vec<u8>>) -> Option<Seq<u8>> {
    match v {
        Some(b) => Some(b@),
        None => None,
    }
}

/// What a search does with a face it visits.
#[derive(Clone, Copy, Debug, PartialEq, Eq, Structural)]
pub enum FontDecision {
    /// Leave the face alone.
    Skip,
    /// Add the face to the font maps.
    Add,
    /// Add the face, then add the not-yet-mapped faces that share one of its
    /// family names (see `is_family_member`).
    AddWithFamily,
}

/// A face matches a searched name by family: some family name equals the
/// name or its hyphen prefix, or the name is a family name, a space, and a
/// style name.
pub open spec fn family_match(query: Seq<u8>, prefix: Option<Seq<u8>>, lists: NameLists) -> bool {
    exists|i: int|
        0 <= i < lists.family.len() && (lists.family[i] == query || prefix == Some(lists.family[i])
            || exists|j: int|
            0 <= j < lists.style.len() && query == lists.family[i] + seq![32u8] + lists.style[j])
}

/// The search for one font name, over the faces of the backend. The caller
/// visits every face in order (a scan), telling whether the face is already
/// in the font maps and, when `reads_names` asks for them, its names; it
/// acts on each decision. After each scan it calls `WasiFsBackend::end_scan`,
/// which says whether to scan again.
pub struct FontSearch {
    query: Vec<u8>,
    family_prefix: Option<Vec<u8>>,
    found: bool,
    adding_all: bool,
}

impl FontSearch {
    /// The searched name.
    pub closed spec fn query(&self) -> Seq<u8> {
        self.query@
    }

    /// The family part of the searched name (see `hyphen_prefix`).
    pub closed spec fn family_prefix(&self) -> Option<Seq<u8>> {
        opt_bytes_of(self.family_prefix)
    }

    /// Whether some face has matched.
    pub closed spec fn has_found(&self) -> bool {
        self.found
    }

    /// Whether this scan adds every face.
    pub closed spec fn is_adding_all(&self) -> bool {
        self.adding_all
    }

    /// The decision on a face: while adding every face, `Add`. Otherwise a
    /// face already in the maps is skipped; a face with the name among its
    /// full names is added with its family; and, until some face has
    /// matched, a face that matches by family (`family_match`) is added with
    /// its family.
    pub open spec fn decision(&self, mapped: bool, lists: NameLists) -> FontDecision {
        if self.is_adding_all() {
            FontDecision::Add
        } else if mapped {
            FontDecision::Skip
        } else if lists.full.contains(self.query()) {
            FontDecision::AddWithFamily
        } else if self.has_found() {
            FontDecision::Skip
        } else if family_match(self.query(), self.family_prefix(), lists) {
            FontDecision::AddWithFamily
        } else {
            FontDecision::Skip
        }
    }

    /// Whether the face's names are needed for the decision.
    pub fn reads_names(&self, mapped: bool) -> (b: bool)
        ensures
            b == (self.is_adding_all() || !mapped),
    {
        self.adding_all || !mapped
    }

    /// Decides on one face and records whether it matched.
    pub fn visit(&mut self, mapped: bool, names: &NameCollection) -> (d: FontDecision)
        ensures
            d == old(self).decision(mapped, names.lists()),
            visit_step(*old(self), *final(self), mapped, names.lists()),
    {
        if self.adding_all {
            return FontDecision::Add;
        }
        if mapped {
            return FontDecision::Skip;
        }
        if list_contains(&names.full_names, &self.query) {
            self.found = true;
            return FontDecision::AddWithFamily;
        }
        if self.found {
            return FontDecision::Skip;
        }
        if matches_by_family(&self.query, &self.family_prefix, names) {
            self.found = true;
            return FontDecision::AddWithFamily;
        }
        FontDecision::Skip
    }
}

/// One visit of a face, from search `before` to search `after`, as
/// `FontSearch::visit` makes it: the search has matched afterwards exactly
/// where it had before or the face was added with its family; the searched
/// name, the family prefix and whether every face is added stay as they were.
pub open spec fn visit_step(before: FontSearch, after: FontSearch, mapped: bool, lists: NameLists) -> bool {
    &&& after.has_found() == (before.has_found() || before.decision(mapped, lists)
        == FontDecision::AddWithFamily)
    &&& after.query() == before.query()
    &&& after.family_prefix() == before.family_prefix()
    &&& after.is_adding_all() == before.is_adding_all()
}

/// A scan over faces: `steps[0]` is the search before the first face and
/// `steps[i + 1]` the search after visiting face `i`, which is given as
/// whether it is already in the font maps and its name lists.
pub open spec fn scan_steps(steps: Seq<FontSearch>, faces: Seq<(bool, NameLists)>) -> bool {
    &&& steps.len() == faces.len() + 1
    &&& forall|i: int|
        0 <= i < faces.len() ==> visit_step(steps[i], steps[i + 1], #[trigger] faces[i].0, faces[i].1)
}

/// Some face of the scan was added with its family because it matched.
pub open spec fn scan_matched(steps: Seq<FontSearch>, faces: Seq<(bool, NameLists)>) -> bool {
    exists|i: int|
        0 <= i < faces.len() && #[trigger] steps[i].decision(faces[i].0, faces[i].1)
            == FontDecision::AddWithFamily
}

proof fn lemma_scan_prefix(steps: Seq<FontSearch>, faces: Seq<(bool, NameLists)>, k: int)
    requires
        scan_steps(steps, faces),
        0 <= k <= faces.len(),
    ensures
        steps[k].is_adding_all() == steps[0].is_adding_all(),
        steps[k].has_found() == (steps[0].has_found() || scan_matched(
            steps.take(k + 1),
            faces.take(k),
        )),
    decreases k,
{
    if k > 0 {
        lemma_scan_prefix(steps, faces, k - 1);
        let f = faces[k - 1];
        assert(visit_step(steps[k - 1], steps[k], f.0, f.1));
        let sk = steps.take(k + 1);
        let fk = faces.take(k);
        let sp = steps.take(k);
        let fp = faces.take(k - 1);
        if scan_matched(sp, fp) {
            let i = choose|i: int|
                0 <= i < fp.len() && #[trigger] sp[i].decision(fp[i].0, fp[i].1)
                    == FontDecision::AddWithFamily;
            assert(sk[i] == sp[i] && fk[i] == fp[i]);
        }
        if steps[k - 1].decision(f.0, f.1) == FontDecision::AddWithFamily {
            assert(sk[k - 1] == steps[k - 1] && fk[k - 1] == f);
        }
        if scan_matched(sk, fk) {
            let i = choose|i: int|
                0 <= i < fk.len() && #[trigger] sk[i].decision(fk[i].0, fk[i].1)
                    == FontDecision::AddWithFamily;
            if i < k - 1 {
                assert(sp[i] == sk[i] && fp[i] == fk[i]);
            }
        }
    }
}

/// A search for a font name ends after at most two scans over the faces.
/// It starts (as `WasiFsBackend::start_search` starts it) on a backend that
/// has not cached every face, with nothing matched and not adding every face.
/// Where some face matches in the first scan, that scan is the only one, and
/// the backend's cached flag stays clear. Where none matches, a second scan
/// adds every face it visits, the backend is marked as having cached every
/// face, and no third scan follows. The faces of the backend never change,
/// and a set cached flag is never cleared.
pub proof fn law_search_scans(
    b0: WasiFsBackend,
    scan1: Seq<FontSearch>,
    faces1: Seq<(bool, NameLists)>,
    b1: WasiFsBackend,
    s1: FontSearch,
    again1: bool,
    scan2: Seq<FontSearch>,
    faces2: Seq<(bool, NameLists)>,
    b2: WasiFsBackend,
    s2: FontSearch,
    again2: bool,
)
    requires
        !b0.has_cached_all(),
        scan_steps(scan1, faces1),
        !scan1[0].has_found(),
        !scan1[0].is_adding_all(),
        scan_end(b0, scan1.last(), b1, s1, again1),
        again1 ==> scan_steps(scan2, faces2) && scan2[0] == s1 && scan_end(
            b1,
            scan2.last(),
            b2,
            s2,
            again2,
        ),
    ensures
        again1 == !scan_matched(scan1, faces1),
        !again1 ==> !b1.has_cached_all(),
        again1 ==> !again2,
        again1 ==> b1.has_cached_all() && b2.has_cached_all(),
        again1 ==> forall|i: int|
            0 <= i < faces2.len() ==> #[trigger] scan2[i].decision(faces2[i].0, faces2[i].1)
                == FontDecision::Add,
        b1.fonts() == b0.fonts(),
        again1 ==> b2.fonts() == b0.fonts(),
{
    let n1 = faces1.len() as int;
    lemma_scan_prefix(scan1, faces1, n1);
    assert(scan1.take(n1 + 1) == scan1);
    assert(faces1.take(n1) == faces1);
    if again1 {
        let n2 = faces2.len() as int;
        lemma_scan_prefix(scan2, faces2, n2);
        assert forall|i: int|
            0 <= i < faces2.len() implies #[trigger] scan2[i].decision(faces2[i].0, faces2[i].1)
            == FontDecision::Add by {
            lemma_scan_prefix(scan2, faces2, i);
        }
    }
}

/// Ending a scan never clears the backend's cached flag and never changes
/// its faces.
pub proof fn law_cached_flag_kept(
    b: WasiFsBackend,
    s: FontSearch,
    b2: WasiFsBackend,
    s2: FontSearch,
    again: bool,
)
    requires
        scan_end(b, s, b2, s2, again),
    ensures
        b.has_cached_all() ==> b2.has_cached_all(),
        b2.fonts() == b.fonts(),
{
}

/// Whether `name` is in `list`.
fn list_contains(list: &Vec<Vec<u8>>, name: &Vec<u8>) -> (b: bool)
    ensures
        b == byte_texts(list@).contains(name@),
{
    let mut i: usize = 0;
    while i < list.len()
        invariant
            i <= list@.len(),
            forall|k: int| 0 <= k < i ==> list@[k]@ != name@,
        decreases list@.len() - i,
    {
        if same_bytes(&list[i], name) {
            proof {
                assert(byte_texts(list@)[i as int] == name@);
            }
            return true;
        }
        i = i + 1;
    }
    proof {
        if byte_texts(list@).contains(name@) {
            let k = choose|k: int| 0 <= k < byte_texts(list@).len() && byte_texts(list@)[k] == name@;
            assert(list@[k]@ == name@);
        }
    }
    false
}

fn joined_with_space(a: &Vec<u8>, b: &Vec<u8>) -> (r: Vec<u8>)
    ensures
        r@ == a@ + seq![32u8] + b@,
{
    let mut r = a.clone();
    proof {
        assert(r@ =~= a@);
    }
    r.push(32u8);
    let mut i: usize = 0;
    while i < b.len()
        invariant
            i <= b@.len(),
            r@ == a@ + seq![32u8] + b@.take(i as int),
        decreases b@.len() - i,
    {
        r.push(b[i]);
        proof {
            assert(b@.take(i + 1) == b@.take(i as int).push(b@[i as int]));
            assert(r@ =~= a@ + seq![32u8] + b@.take(i + 1));
        }
        i = i + 1;
    }
    proof {
        assert(b@.take(b@.len() as int) == b@);
    }
    r
}

fn matches_by_family(query: &Vec<u8>, prefix: &Option<Vec<u8>>, names: &NameCollection) -> (b: bool)
    ensures
        b == family_match(query@, opt_bytes_of(*prefix), names.lists()),
{
    let lists = Ghost(names.lists());
    let mut i: usize = 0;
    while i < names.family_names.len()
        invariant
            lists@ == names.lists(),
            i <= names.family_names@.len(),
            forall|k: int|
                0 <= k < i ==> !(lists@.family[k] == query@ || opt_bytes_of(*prefix) == Some(
                    lists@.family[k],
                ) || exists|j: int|
                    0 <= j < lists@.style.len() && query@ == lists@.family[k] + seq![32u8]
                        + lists@.style[j]),
        decreases names.family_names@.len() - i,
    {
        let fam = &names.family_names[i];
        let mut hit = same_bytes(fam, query);
        if !hit {
            hit = match prefix {
                Some(p) => same_bytes(p, fam),
                None => false,
            };
        }
        let mut j: usize = 0;
        while j < names.style_names.len() && !hit
            invariant
                lists@ == names.lists(),
                i < names.family_names@.len(),
                *fam == names.family_names@[i as int],
                j <= names.style_names@.len(),
                hit ==> (lists@.family[i as int] == query@ || opt_bytes_of(*prefix) == Some(
                    lists@.family[i as int],
                ) || exists|t: int|
                    0 <= t < lists@.style.len() && query@ == lists@.family[i as int] + seq![32u8]
                        + lists@.style[t]),
                !hit ==> !(lists@.family[i as int] == query@ || opt_bytes_of(*prefix) == Some(
                    lists@.family[i as int],
                )) && forall|t: int|
                    0 <= t < j ==> query@ != lists@.family[i as int] + seq![32u8] + lists@.style[t],
            decreases names.style_names@.len() - j,
        {
            let full = joined_with_space(fam, &names.style_names[j]);
            if same_bytes(&full, query) {
                hit = true;
                proof {
                    assert(query@ == lists@.family[i as int] + seq![32u8] + lists@.style[j as int]);
                }
            }
            j = j + 1;
        }
        if hit {
            return true;
        }
        i = i + 1;
    }
    false
}

/// Whether a face joins the font maps when the families `wanted` are cached:
/// it is not mapped yet and one of its family names is wanted.
pub open spec fn family_member(wanted: Seq<Seq<u8>>, mapped: bool, lists: NameLists) -> bool {
    !mapped && exists|i: int| 0 <= i < lists.family.len() && wanted.contains(lists.family[i])
}

/// Decides whether a face is added while caching the members of the families
/// `wanted` (the family names of a face that a search matched).
pub fn is_family_member(wanted: &Vec<Vec<u8>>, mapped: bool, names: &NameCollection) -> (b: bool)
    ensures
        b == family_member(byte_texts(wanted@), mapped, names.lists()),
{
    if mapped {
        return false;
    }
    let mut i: usize = 0;
    while i < names.family_names.len()
        invariant
            !mapped,
            i <= names.family_names@.len(),
            forall|k: int|
                0 <= k < i ==> !byte_texts(wanted@).contains(byte_texts(names.family_names@)[k]),
        decreases names.family_names@.len() - i,
    {
        if list_contains(wanted, &names.family_names[i]) {
            proof {
                assert(names.lists().family[i as int] == names.family_names@[i as int]@);
            }
            return true;
        }
        i = i + 1;
    }
    false
}

proof fn lemma_filter_keeps_no_duplicates<A>(s: Seq<A>, pred: spec_fn(A) -> bool)
    requires
        s.no_duplicates(),
    ensures
        s.filter(pred).no_duplicates(),
    decreases s.len(),
{
    reveal_with_fuel(Seq::<_>::filter, 1);
    if s.len() > 0 {
        let rest = s.drop_last();
        assert(rest.no_duplicates()) by {
            assert forall|i: int, j: int|
                0 <= i < rest.len() && 0 <= j < rest.len() && i != j implies rest[i] != rest[j] by {
                assert(rest[i] == s[i] && rest[j] == s[j]);
            }
        }
        lemma_filter_keeps_no_duplicates(rest, pred);
        let sub = rest.filter(pred);
        if pred(s.last()) {
            assert forall|k: int| 0 <= k < sub.len() implies sub[k] != s.last() by {
                lemma_filter_member(rest, pred, k);
                let j = choose|j: int| 0 <= j < rest.len() && rest[j] == sub[k];
                assert(s[j] == sub[k]);
                assert(j != s.len() - 1);
            }
            let out = sub.push(s.last());
            assert forall|i: int, j: int|
                0 <= i < out.len() && 0 <= j < out.len() && i != j implies out[i] != out[j] by {
                if i < sub.len() && j < sub.len() {
                    assert(out[i] == sub[i] && out[j] == sub[j]);
                } else if i < sub.len() {
                    assert(out[i] == sub[i]);
                } else {
                    assert(out[j] == sub[j]);
                }
            }
        }
    }
}

/// Adding a name to a duplicate-free name list, at either end, keeps it
/// duplicate-free and makes it list the name. Appending keeps the existing
/// entries first and in order; prepending puts the name first and keeps
/// every existing entry.
pub proof fn law_name_lists(list: Seq<Seq<u8>>, name: Seq<u8>)
    requires
        list.no_duplicates(),
    ensures
        appended(list, name).no_duplicates(),
        appended(list, name).contains(name),
        appended(list, name).take(list.len() as int) == list,
        prepended(list, name).no_duplicates(),
        prepended(list, name)[0] == name,
        forall|x: Seq<u8>| list.contains(x) ==> #[trigger] prepended(list, name).contains(x),
{
    broadcast use vstd::seq_lib::group_filter_ensures;

    let pred = differs_from(name);
    if !list.contains(name) {
        let out = list.push(name);
        assert(out[list.len() as int] == name);
        assert forall|i: int, j: int|
            0 <= i < out.len() && 0 <= j < out.len() && i != j implies out[i] != out[j] by {
            if i < list.len() && j < list.len() {
                assert(out[i] == list[i] && out[j] == list[j]);
            } else if i < list.len() {
                assert(out[i] == list[i]);
            } else {
                assert(out[j] == list[j]);
            }
        }
        assert(out.take(list.len() as int) =~= list);
    } else {
        assert(list.take(list.len() as int) =~= list);
    }
    let kept = list.filter(pred);
    lemma_filter_keeps_no_duplicates(list, pred);
    let front = seq![name] + kept;
    assert forall|k: int| 0 <= k < kept.len() implies kept[k] != name by {
        assert(pred(kept[k]));
    }
    assert forall|i: int, j: int|
        0 <= i < front.len() && 0 <= j < front.len() && i != j implies front[i] != front[j] by {
        if i > 0 && j > 0 {
            assert(front[i] == kept[i - 1] && front[j] == kept[j - 1]);
        } else if i > 0 {
            assert(front[i] == kept[i - 1]);
        } else {
            assert(front[j] == kept[j - 1]);
        }
    }
    assert forall|x: Seq<u8>| list.contains(x) implies #[trigger] prepended(list, name).contains(x) by {
        if x == name {
            assert(front[0] == name);
        } else {
            let i = choose|i: int| 0 <= i < list.len() && list[i] == x;
            assert(pred(list[i]));
            assert(kept.contains(list[i]));
            let k = choose|k: int| 0 <= k < kept.len() && kept[k] == x;
            assert(front[k + 1] == x);
        }
    }
    assert(prepended(list, name) == front);
}

/// The decisions of a search: a scan that adds every face adds each face it
/// visits; otherwise a face already in the font maps is never added again, a
/// face listing the searched name among its full names is always added with
/// its family, and once some face has matched, only full-name matches are
/// added.
pub proof fn law_search_decisions(search: FontSearch, mapped: bool, lists: NameLists)
    ensures
        search.is_adding_all() ==> search.decision(mapped, lists) == FontDecision::Add,
        !search.is_adding_all() && mapped ==> search.decision(mapped, lists) == FontDecision::Skip,
        !search.is_adding_all() && !mapped && lists.full.contains(search.query()) ==> search.decision(
            mapped,
            lists,
        ) == FontDecision::AddWithFamily,
        !search.is_adding_all() && search.has_found() && !lists.full.contains(search.query())
            ==> search.decision(mapped, lists) == FontDecision::Skip,
        search.decision(mapped, lists) != FontDecision::Add ==> !search.is_adding_all(),
{
}

/// The family prefix of a searched name is the part before its first `-`,
/// and nothing else: a name without `-` has none, nor has a name starting
/// with `-`; where there is one, it is a non-empty proper prefix of the name
/// without `-`, directly followed by `-`; and a first `-` at position `k > 0`
/// gives the first `k` bytes.
pub proof fn law_hyphen_prefix(name: Seq<u8>, k: int)
    ensures
        (forall|i: int| 0 <= i < name.len() ==> name[i] != 45u8) ==> hyphen_prefix(name) is None,
        name.len() > 0 && name[0] == 45u8 ==> hyphen_prefix(name) is None,
        hyphen_prefix(name) matches Some(p) ==> 0 < p.len() < name.len() && name[p.len() as int]
            == 45u8 && p == name.take(p.len() as int) && forall|j: int|
            0 <= j < p.len() ==> p[j] != 45u8,
        0 < k < name.len() && name[k] == 45u8 && (forall|j: int| 0 <= j < k ==> name[j] != 45u8)
            ==> hyphen_prefix(name) == Some(name.take(k)),
{
    if exists|c: int| 0 <= c < name.len() && name[c] == 45u8 {
        let w = choose|c: int| 0 <= c < name.len() && name[c] == 45u8;
        let first = choose|c: int|
            0 <= c < name.len() && name[c] == 45u8 && forall|j: int| 0 <= j < c ==> name[j] != 45u8;
        lemma_first_byte(name, 45u8, w);
        if 0 < k < name.len() && name[k] == 45u8 && (forall|j: int| 0 <= j < k ==> name[j] != 45u8) {
            if first < k {
                assert(name[first] != 45u8);
            } else if k < first {
                assert(name[k] != 45u8);
            }
        }
        if name.len() > 0 && name[0] == 45u8 {
            assert(first == 0) by {
                if first > 0 {
                    assert(name[0] != 45u8);
                }
            }
        }
    }
}

/// Where `b` occurs in `s` (at `w`), it has a first occurrence.
proof fn lemma_first_byte(s: Seq<u8>, b: u8, w: int)
    requires
        0 <= w < s.len(),
        s[w] == b,
    ensures
        exists|c: int| 0 <= c < s.len() && s[c] == b && forall|j: int| 0 <= j < c ==> s[j] != b,
    decreases w,
{
    if exists|j: int| 0 <= j < w && s[j] == b {
        let j = choose|j: int| 0 <= j < w && s[j] == b;
        lemma_first_byte(s, b, j);
    } else {
        assert(forall|j: int| 0 <= j < w ==> s[j] != b);
    }
}

/// A search for a name without `-` (started by `start_search`, so its
/// family prefix is that of the name) takes a face that does not list the
/// name as a full name only where some family name is the name itself, or a
/// family name, a space and a style name spell the name.
pub proof fn law_search_without_hyphen(search: FontSearch, lists: NameLists)
    requires
        search.family_prefix() == hyphen_prefix(search.query()),
        forall|i: int| 0 <= i < search.query().len() ==> search.query()[i] != 45u8,
        !lists.full.contains(search.query()),
        search.decision(false, lists) == FontDecision::AddWithFamily,
    ensures
        search.family_prefix() is None,
        exists|i: int|
            0 <= i < lists.family.len() && (lists.family[i] == search.query() || exists|j: int|
                0 <= j < lists.style.len() && search.query() == lists.family[i] + seq![32u8]
                    + lists.style[j]),
{
    law_hyphen_prefix(search.query(), 0);
}

/// Every Apple Unicode (platform 0) or Microsoft (platform 3) record is read
/// from UTF-16BE whatever its language and encoding ids: where it decodes to
/// `t`, a family (1), style (2) or full (4) name record appends `t` to that
/// list and leaves the others alone, and a collected record can be taken in
/// exactly where its bytes are valid UTF-16BE without a zero code unit.
/// Records that differ only in their language id are read alike.
pub proof fn law_unicode_records_read(lists: NameLists, r: SfntNameRecord, t: Seq<u8>, language: u16)
    requires
        r.platform_id == 0 || r.platform_id == 3,
        utf16be_to_utf8(r.bytes@) == Some(t),
    ensures
        r.name_id == 1 ==> with_record(lists, r) == (NameLists {
            family: appended(lists.family, t),
            ..lists
        }),
        r.name_id == 2 ==> with_record(lists, r) == (NameLists {
            style: appended(lists.style, t),
            ..lists
        }),
        r.name_id == 4 ==> with_record(lists, r) == (NameLists {
            full: appended(lists.full, t),
            ..lists
        }),
        r.name_id == 1 || r.name_id == 2 || r.name_id == 4 || r.name_id == 16 || r.name_id == 17
            ==> (record_decodable(r) <==> valid_utf16be(r.bytes@) && !has_zero_unit(r.bytes@)),
        with_record(lists, SfntNameRecord { language_id: language, ..r }) == with_record(lists, r),
        record_decodable(SfntNameRecord { language_id: language, ..r }) == record_decodable(r),
{
}

} // verus!
