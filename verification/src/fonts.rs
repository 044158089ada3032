//! The fonts that documents are set in.
use crate::sources::{buffer, new_bytes};
use comemo::Prehashed;
use typst::foundations::Bytes;
use typst::text::{Font, FontBook, FontInfo};
use vstd::prelude::*;

verus! {

/// `typst::text::FontInfo`, what is known of a font without loading it.
#[verifier::external_type_specification]
#[verifier::external_body]
pub struct ExFontInfo(FontInfo);

/// `typst::text::FontBook`, a collection of font infos.
#[verifier::external_type_specification]
#[verifier::external_body]
pub struct ExFontBook(FontBook);

/// `typst::text::Font`, a loaded font.
#[verifier::external_type_specification]
#[verifier::external_body]
pub struct ExFont(Font);

/// `comemo::Prehashed`, a value with its hash.
#[verifier::external_type_specification]
#[verifier::external_body]
#[verifier::reject_recursive_types(T)]
pub struct ExPrehashed<T: ?Sized>(Prehashed<T>);

/// Of one of the character maps that `ttf_parser::Face::parse` finds in the font at
/// `index` in some data, if it finds that map: whether it is one of Unicode, as
/// `Subtable::is_unicode` says, and the code points that `Subtable::codepoints` lists.
pub uninterp spec fn code_points(data: Seq<u8>, index: u32, map: u16) -> Option<(bool, Seq<u32>)>;

/// What `FontInfo::new` makes of the font at `index` in some data.
pub uninterp spec fn font_info(data: Seq<u8>, index: u32) -> Option<FontInfo>;

/// The infos that a font book holds, by the index that each is found at.
pub uninterp spec fn book_infos(book: FontBook) -> Seq<FontInfo>;

/// The font book inside a prehashed one.
pub uninterp spec fn hashed_book(book: Prehashed<FontBook>) -> FontBook;

/// What `Font::info` returns for a font.
pub uninterp spec fn own_info(font: Font) -> FontInfo;

/// The bytes of the `Font::data` of a font.
pub uninterp spec fn font_data(font: Font) -> Seq<u8>;

/// What `Font::index` returns for a font.
pub uninterp spec fn font_index(font: Font) -> u32;

/// How many fonts there are.
pub const FONT_COUNT: usize = 13;

/// The files that the fonts come from, in the order of the font book.
pub open spec fn font_files() -> Seq<Seq<char>> {
    seq![
        "Noto_Serif/NotoSerif-Regular.ttf"@,
        "Noto_Serif/NotoSerif-Bold.ttf"@,
        "Noto_Serif/NotoSerif-Italic.ttf"@,
        "Noto_Serif/NotoSerif-BoldItalic.ttf"@,
        "Roboto/Roboto-Regular.ttf"@,
        "Roboto/Roboto-Bold.ttf"@,
        "Roboto/Roboto-Italic.ttf"@,
        "Roboto/Roboto-BoldItalic.ttf"@,
        "STIX_Two/STIXTwoMath-Regular.ttf"@,
        "STIX_Two/STIXTwoText-Regular.ttf"@,
        "STIX_Two/STIXTwoText-Bold.ttf"@,
        "STIX_Two/STIXTwoText-Italic.ttf"@,
        "STIX_Two/STIXTwoText-BoldItalic.ttf"@,
    ]
}

/// The file that the font at `index` in the font book comes from.
pub fn font_file(index: usize) -> (file: &'static str)
    requires
        index < FONT_COUNT,
    ensures
        file@ == font_files()[index as int],
        index == 0 ==> file@ == "Noto_Serif/NotoSerif-Regular.ttf"@,
        index == 1 ==> file@ == "Noto_Serif/NotoSerif-Bold.ttf"@,
        index == 2 ==> file@ == "Noto_Serif/NotoSerif-Italic.ttf"@,
        index == 3 ==> file@ == "Noto_Serif/NotoSerif-BoldItalic.ttf"@,
        index == 4 ==> file@ == "Roboto/Roboto-Regular.ttf"@,
        index == 5 ==> file@ == "Roboto/Roboto-Bold.ttf"@,
        index == 6 ==> file@ == "Roboto/Roboto-Italic.ttf"@,
        index == 7 ==> file@ == "Roboto/Roboto-BoldItalic.ttf"@,
        index == 8 ==> file@ == "STIX_Two/STIXTwoMath-Regular.ttf"@,
        index == 9 ==> file@ == "STIX_Two/STIXTwoText-Regular.ttf"@,
        index == 10 ==> file@ == "STIX_Two/STIXTwoText-Bold.ttf"@,
        index == 11 ==> file@ == "STIX_Two/STIXTwoText-Italic.ttf"@,
        index == 12 ==> file@ == "STIX_Two/STIXTwoText-BoldItalic.ttf"@,
{
    match index {
        0 => "Noto_Serif/NotoSerif-Regular.ttf",
        1 => "Noto_Serif/NotoSerif-Bold.ttf",
        2 => "Noto_Serif/NotoSerif-Italic.ttf",
        3 => "Noto_Serif/NotoSerif-BoldItalic.ttf",
        4 => "Roboto/Roboto-Regular.ttf",
        5 => "Roboto/Roboto-Bold.ttf",
        6 => "Roboto/Roboto-Italic.ttf",
        7 => "Roboto/Roboto-BoldItalic.ttf",
        8 => "STIX_Two/STIXTwoMath-Regular.ttf",
        9 => "STIX_Two/STIXTwoText-Regular.ttf",
        10 => "STIX_Two/STIXTwoText-Bold.ttf",
        11 => "STIX_Two/STIXTwoText-Italic.ttf",
        _ => "STIX_Two/STIXTwoText-BoldItalic.ttf",
    }
}

/// Whether the character maps of a font are found, up to one.
pub open spec fn maps_up_to(data: Seq<u8>, index: u32, map: u16) -> bool {
    forall|i: u16| i <= map ==> #[trigger] code_points(data, index, i) is Some
}

/// Whether a character map is one of Unicode that lists the last code point that there
/// can be, behind which none can be counted.
pub open spec fn has_last(map: (bool, Seq<u32>)) -> bool {
    map.0 && map.1.contains(u32::MAX)
}

/// Whether no character map of Unicode in a font lists the last code point that there
/// can be.
pub open spec fn is_countable(data: Seq<u8>, index: u32) -> bool {
    forall|map: u16| #[trigger]
        maps_up_to(data, index, map) ==> !has_last(code_points(data, index, map)->0)
}

/// Whether the first font in some data can be described, and so loaded.
pub open spec fn is_usable(data: Seq<u8>) -> bool {
    is_countable(data, 0) && font_info(data, 0) is Some
}

/// A font can be counted but where one of its character maps, none before which is
/// missing, is one of Unicode and lists the number `u32::MAX`.
pub proof fn law_countable_fonts(data: Seq<u8>, index: u32)
    ensures
        is_countable(data, index) <==> forall|map: u16|
            (forall|m: u16| m <= map ==> #[trigger] code_points(data, index, m) is Some)
                ==> match #[trigger] code_points(data, index, map) {
                Some((unicode, points)) => !(unicode && points.contains(u32::MAX)),
                None => true,
            },
{
    if is_countable(data, index) {
        assert forall|map: u16|
            (forall|m: u16| m <= map ==> #[trigger] code_points(data, index, m) is Some) implies (
        match #[trigger] code_points(data, index, map) {
            Some((unicode, points)) => !(unicode && points.contains(u32::MAX)),
            None => true,
        }) by {
            assert(maps_up_to(data, index, map));
        }
    } else {
        let map = choose|map: u16| #[trigger]
            maps_up_to(data, index, map) && has_last(code_points(data, index, map)->0);
        assert(code_points(data, index, map) is Some);
    }
}

/// A font that lists nothing but code points of Unicode is usable where `FontInfo` can
/// be made of it.
pub proof fn law_fonts_of_unicode_are_usable(data: Seq<u8>)
    requires
        forall|map: u16|
            match #[trigger] code_points(data, 0, map) {
                Some((_, points)) => forall|i: int|
                    0 <= i < points.len() ==> #[trigger] points[i] <= 0x10ffff,
                None => true,
            },
    ensures
        is_usable(data) <==> font_info(data, 0) is Some,
{
    assert forall|map: u16| #[trigger] maps_up_to(data, 0, map) implies !has_last(
        code_points(data, 0, map)->0,
    ) by {
        assert(code_points(data, 0, map) is Some);
        if let Some((_, points)) = code_points(data, 0, map) {
            if points.contains(u32::MAX) {
                let i = choose|i: int| 0 <= i < points.len() && points[i] == u32::MAX;
                assert(points[i] <= 0x10ffff);
            }
        }
    }
}

/// A font is usable where it can be counted and `FontInfo` can be made of it.
pub proof fn law_usable_fonts(data: Seq<u8>)
    ensures
        is_usable(data) <==> font_info(data, 0) is Some && forall|map: u16|
            (forall|m: u16| m <= map ==> #[trigger] code_points(data, 0, m) is Some)
                ==> match #[trigger] code_points(data, 0, map) {
                Some((unicode, points)) => !(unicode && points.contains(u32::MAX)),
                None => true,
            },
{
    law_countable_fonts(data, 0);
}

/// Calls `ttf_parser::Face::parse` and, on the character map at `map`,
/// `Subtable::is_unicode` and `Subtable::codepoints`, and collects what that lists.
#[verifier::external_body]
fn list_code_points(data: &Vec<u8>, index: u32, map: u16) -> (listed: Option<(bool, Vec<u32>)>)
    ensures
        listed is Some <==> code_points(data@, index, map) is Some,
        listed matches Some((unicode, points)) ==> code_points(data@, index, map) == Some(
            (unicode, points@),
        ),
{
    let face = ttf_parser::Face::parse(data, index).ok()?;
    let subtable = face.tables().cmap?.subtables.get(map)?;
    let mut points: Vec<u32> = Vec::new();
    subtable.codepoints(|point| points.push(point));
    Some((subtable.is_unicode(), points))
}

/// Whether the last code point that there can be is among some.
fn holds_last(points: &Vec<u32>) -> (has: bool)
    ensures
        has == points@.contains(u32::MAX),
{
    let mut i: usize = 0;
    while i < points.len()
        invariant
            i <= points.len(),
            forall|k: int| 0 <= k < i ==> points[k] != u32::MAX,
        decreases points.len() - i,
    {
        if points[i] == u32::MAX {
            return true;
        }
        i += 1;
    }
    false
}

/// Whether no character map of Unicode in a font lists the last code point that there
/// can be.
pub fn can_count(data: &Vec<u8>, index: u32) -> (can: bool)
    ensures
        can == is_countable(data@, index),
        can <==> forall|map: u16|
            (forall|m: u16| m <= map ==> #[trigger] code_points(data@, index, m) is Some)
                ==> match #[trigger] code_points(data@, index, map) {
                Some((unicode, points)) => !(unicode && points.contains(u32::MAX)),
                None => true,
            },
{
    let mut map: u16 = 0;
    loop
        invariant
            forall|i: u16| i < map ==> #[trigger] code_points(data@, index, i) is Some,
            forall|i: u16|
                i < map && #[trigger] maps_up_to(data@, index, i) ==> !has_last(
                    code_points(data@, index, i)->0,
                ),
        decreases u16::MAX - map,
    {
        proof {
            law_countable_fonts(data@, index);
        }
        match list_code_points(data, index, map) {
            Some((unicode, points)) => {
                assert(maps_up_to(data@, index, map));
                if unicode && holds_last(&points) {
                    return false;
                }
                if map == u16::MAX {
                    return true;
                }
                map += 1;
            },
            None => {
                return true;
            },
        }
    }
}

/// Calls `FontInfo::new`.
///
/// It counts one further than each code point that the font's character maps of
/// Unicode list, up to the first map that is not found: that is more than there can be
/// behind the last one.
#[verifier::external_body]
fn new_font_info(data: &Vec<u8>, index: u32) -> (info: Option<FontInfo>)
    requires
        is_countable(data@, index),
    ensures
        info == font_info(data@, index),
{
    FontInfo::new(data, index)
}

/// Calls `FontBook::from_infos`: the book holds the infos, each at its place in
/// the list.
#[verifier::external_body]
fn new_font_book(infos: Vec<FontInfo>) -> (book: FontBook)
    ensures
        book_infos(book) == infos@,
{
    FontBook::from_infos(infos)
}

/// Calls `Prehashed::new` on a font book: it is found inside.
#[verifier::external_body]
fn prehash_book(book: FontBook) -> (hashed: Prehashed<FontBook>)
    ensures
        hashed_book(hashed) == book,
{
    Prehashed::new(book)
}

/// Calls `Font::new`: there is a font where `FontInfo::new` finds something to say
/// of it, which the font keeps, as it keeps the data and the index that it was made
/// from. It counts code points as `FontInfo::new` does.
#[verifier::external_body]
fn new_font(data: Bytes, index: u32) -> (font: Option<Font>)
    requires
        is_countable(buffer(data), index),
    ensures
        font is Some <==> font_info(buffer(data), index) is Some,
        font matches Some(font) ==> font_info(buffer(data), index) == Some(own_info(font)),
        font matches Some(font) ==> font_data(font) == buffer(data),
        font matches Some(font) ==> font_index(font) == index,
{
    Font::new(data, index)
}

/// Whether a book describes, entry by entry, the first font in each piece of
/// data.
pub open spec fn describes(book: FontBook, data: Seq<Vec<u8>>) -> bool {
    &&& book_infos(book).len() == data.len()
    &&& forall|i: int|
        0 <= i < data.len() ==> font_info(#[trigger] data[i]@, 0) == Some(book_infos(book)[i])
}

/// The font book of the first font in each piece of data, in their order, unless
/// one of them holds no usable font.
pub fn build_font_book(data: &Vec<Vec<u8>>) -> (book: Option<Prehashed<FontBook>>)
    ensures
        book is Some <==> forall|i: int| 0 <= i < data.len() ==> is_usable(#[trigger] data[i]@),
        book matches Some(book) ==> describes(hashed_book(book), data@),
        book matches Some(book) ==> book_infos(hashed_book(book)).len() == data.len() && forall|i:
            int|
            0 <= i < data.len() ==> font_info(#[trigger] data[i]@, 0) == Some(
                book_infos(hashed_book(book))[i],
            ),
{
    let mut infos: Vec<FontInfo> = Vec::new();
    let mut i: usize = 0;
    while i < data.len()
        invariant
            i <= data.len(),
            infos.len() == i,
            forall|k: int| 0 <= k < i ==> is_usable(#[trigger] data[k]@),
            forall|k: int| 0 <= k < i ==> font_info(#[trigger] data[k]@, 0) == Some(infos[k]),
        decreases data.len() - i,
    {
        if !can_count(&data[i], 0) {
            assert(!is_usable(data[i as int]@));
            return None;
        }
        match new_font_info(&data[i], 0) {
            Some(info) => infos.push(info),
            None => {
                assert(!is_usable(data[i as int]@));
                return None;
            },
        }
        i += 1;
    }
    Some(prehash_book(new_font_book(infos)))
}

/// Loads the first font in a piece of data, unless it holds no usable one.
pub fn load_font(data: &Vec<u8>) -> (font: Option<Font>)
    ensures
        font is Some <==> is_usable(data@),
        font matches Some(font) ==> font_info(data@, 0) == Some(own_info(font)),
        font matches Some(font) ==> font_data(font) == data@,
        font matches Some(font) ==> font_index(font) == 0,
{
    if !can_count(data, 0) {
        return None;
    }
    let bytes: Bytes = new_bytes(vstd::slice::slice_to_vec(data.as_slice()));
    new_font(bytes, 0)
}

} // verus!
