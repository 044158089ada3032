//! What Typst asks of the world around a document: its fonts, its sources and
//! its files.
use crate::fonts::{
    book_infos, build_font_book, describes, font_data, font_index, font_info, hashed_book,
    is_usable, load_font, own_info, FONT_COUNT,
};
use comemo::Prehashed;
use typst::text::{Font, FontBook, FontInfo};
use typst::Library;
use vstd::prelude::*;

verus! {

/// `typst::Library`, Typst's standard library.
#[verifier::external_type_specification]
#[verifier::external_body]
pub struct ExLibrary(Library);

/// Calls `Library::default` and `Prehashed::new`. Nothing is said of what the
/// standard library holds.
#[verifier::external_body]
fn standard_library() -> (library: Prehashed<Library>) {
    Prehashed::new(Library::default())
}

/// The standard library and the fonts that documents are made with.
pub struct SomeWorld {
    library: Prehashed<Library>,
    fonts: Prehashed<FontBook>,
    font_data: Vec<Vec<u8>>,
}

impl SomeWorld {
    /// There are as many fonts as there should be, all of them can be loaded, and the
    /// book describes them.
    #[verifier::type_invariant]
    spec fn book_is_right(self) -> bool {
        &&& self.font_data.len() == FONT_COUNT
        &&& forall|i: int| 0 <= i < FONT_COUNT ==> is_usable(#[trigger] self.font_data[i]@)
        &&& describes(hashed_book(self.fonts), self.font_data@)
    }

    /// What the font book says of each font.
    pub closed spec fn infos(self) -> Seq<FontInfo> {
        book_infos(hashed_book(self.fonts))
    }

    /// The data of each font.
    pub closed spec fn data(self) -> Seq<Seq<u8>> {
        self.font_data@.map_values(|data: Vec<u8>| data@)
    }

    /// A world with the given fonts, in the order of the font book, unless the
    /// data of one of them holds no usable font. The font book describes the fonts, in
    /// that order.
    pub fn new(font_data: Vec<Vec<u8>>) -> (world: Option<SomeWorld>)
        requires
            font_data.len() == FONT_COUNT,
        ensures
            world is Some <==> forall|i: int|
                0 <= i < font_data.len() ==> is_usable(#[trigger] font_data[i]@),
            world is Some ==> forall|i: int|
                0 <= i < font_data.len() ==> font_info(#[trigger] font_data[i]@, 0) is Some,
            world matches Some(world) ==> world.infos().len() == FONT_COUNT && forall|i: int|
                0 <= i < font_data.len() ==> font_info(#[trigger] font_data[i]@, 0) == Some(
                    world.infos()[i],
                ),
            world matches Some(world) ==> world.data() == font_data@.map_values(
                |data: Vec<u8>| data@,
            ),
    {
        match build_font_book(&font_data) {
            Some(fonts) => Some(SomeWorld { library: standard_library(), fonts, font_data }),
            None => None,
        }
    }

    /// The standard library that the world was made with.
    pub closed spec fn standard_library(self) -> Prehashed<Library> {
        self.library
    }

    /// The standard library.
    pub fn library(&self) -> (library: &Prehashed<Library>)
        ensures
            *library == self.standard_library(),
    {
        &self.library
    }

    /// Metadata about all known fonts.
    pub fn book(&self) -> (book: &Prehashed<FontBook>)
        ensures
            book_infos(hashed_book(*book)) == self.infos(),
            self.infos().len() == FONT_COUNT,
    {
        proof {
            use_type_invariant(self);
        }
        &self.fonts
    }

    /// The font at `index` in the font book: it can always be loaded, and is what the
    /// book's entry at `index` says.
    pub fn font(&self, index: usize) -> (font: Option<Font>)
        requires
            index < FONT_COUNT,
        ensures
            font is Some,
            own_info(font->0) == self.infos()[index as int],
            font_data(font->0) == self.data()[index as int],
            font_index(font->0) == 0,
    {
        proof {
            use_type_invariant(self);
        }
        load_font(&self.font_data[index])
    }
}

/// Makes a world with the given fonts the present one, unless the data of one of
/// them holds no usable font.
pub fn initialize_world(world: &mut Option<SomeWorld>, font_data: Vec<Vec<u8>>) -> (done: bool)
    requires
        font_data.len() == FONT_COUNT,
    ensures
        done <==> forall|i: int| 0 <= i < font_data.len() ==> is_usable(#[trigger] font_data[i]@),
        done ==> *final(world) is Some,
        done ==> final(world)->0.infos().len() == FONT_COUNT,
        done ==> forall|i: int|
            0 <= i < font_data.len() ==> font_info(#[trigger] font_data[i]@, 0) == Some(
                final(world)->0.infos()[i],
            ),
        done ==> final(world)->0.data() == font_data@.map_values(
            |data: Vec<u8>| data@,
        ),
        !done ==> *final(world) == *old(world),
{
    match SomeWorld::new(font_data) {
        Some(new_world) => {
            *world = Some(new_world);
            true
        },
        None => false,
    }
}

} // verus!
