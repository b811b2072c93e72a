//! The handle on a loaded image and the walks over its section table.

use vstd::prelude::*;
use vstd::slice::slice_to_vec;
use crate::bytes::{read_u16, read_u32};
use crate::layout::{
    extended_header_offset, extended_header_size, get_nt_headers, section_count,
    section_relative_address, valid_image, SECTION_ADDRESS_FIELD, SECTION_COUNT_FIELD,
    SECTION_DATA_SIZE_FIELD, SECTION_NAME_SIZE, SECTION_RECORD_SIZE,
};
use crate::name::{same_bytes, trim_null_bytes};
use crate::section::{
    is_first_named, lemma_scan_for, none_named, scan_for, sections, Section, SectionView,
};
use vstd::string::StringSliceAdditionalSpecFns;

verus! {

/// `callback` can give `answer` when it is handed the section `section`.
pub open spec fn answers<F: FnMut(Section) -> bool>(
    callback: F,
    section: SectionView,
    answer: bool,
) -> bool {
    exists|handed: Section| handed@ == section && callback.ensures((handed,), answer)
}

/// Locates the sections of a loaded image through the image's own headers.
///
/// The handle keeps the address at which the image is mapped, the address of
/// its extended header, found once when the handle is made, and the mapped
/// bytes, from the image base on.
pub struct SecLoc<'a> {
    module_handle: usize,
    nt_headers: usize,
    image: &'a [u8],
}

impl<'a> SecLoc<'a> {
    #[verifier::type_invariant]
    spec fn well_formed(self) -> bool {
        &&& valid_image(self.module_handle as int, self.image@)
        &&& self.nt_headers == self.module_handle + extended_header_offset(self.image@)
    }

    /// Address at which the image is mapped.
    pub closed spec fn base(&self) -> int {
        self.module_handle as int
    }

    /// The mapped bytes of the image, from its base on.
    pub closed spec fn image(&self) -> Seq<u8> {
        self.image@
    }

    /// The sections of the image, in the order of its section table.
    pub open spec fn sections(&self) -> Seq<SectionView> {
        sections(self.base(), self.image())
    }

    /// Makes the handle on the image that is mapped at address
    /// `module_handle`, of which `image` holds the bytes from the base on.
    pub fn new(module_handle: usize, image: &'a [u8]) -> (located: Self)
        requires
            valid_image(module_handle as int, image@),
        ensures
            located.base() == module_handle,
            located.image() == image@,
    {
        let nt_headers: usize = get_nt_headers(module_handle, image);
        SecLoc { module_handle, nt_headers, image }
    }

    /// Retrieves all the sections, in the order of the section table.
    pub fn get_all(&self) -> (all: Vec<Section>)
        ensures
            all@.len() == section_count(self.image()),
            forall|index: int| 0 <= index < all@.len() ==> (#[trigger] all@[index]).num == index,
            forall|index: int|
                0 <= index < all@.len() ==> (#[trigger] all@[index])@ == self.sections()[index],
    {
        let number_of_sections: usize = self.get_sections_amount() as usize;
        let mut all: Vec<Section> = Vec::with_capacity(number_of_sections);
        let mut i: usize = 0;
        while i < number_of_sections
            invariant
                i <= number_of_sections == self.sections().len(),
                all@.len() == i,
                forall|index: int|
                    0 <= index < i ==> (#[trigger] all@[index])@ == self.sections()[index],
            decreases number_of_sections - i,
        {
            all.push(self.section(i));
            i = i + 1;
        }
        all
    }

    /// Finds a specific section by name: the first in table order whose name
    /// is, byte for byte, the name asked for. No record behind the one found
    /// is decoded. The result is the one that a search through everything
    /// `get_all` returns, from the front, comes to.
    pub fn find(&self, section_name: &str) -> (found: Option<Section>)
        ensures
            match found {
                Some(section) => is_first_named(
                    self.sections(),
                    section_name.spec_bytes(),
                    section.num as int,
                ) && section@ == self.sections()[section.num as int],
                None => none_named(self.sections(), section_name.spec_bytes()),
            },
            match found {
                Some(section) => scan_for(self.sections(), section_name.spec_bytes()) == Some(
                    section@,
                ),
                None => scan_for(self.sections(), section_name.spec_bytes()) is None,
            },
    {
        let name = section_name.as_bytes();
        let number_of_sections: usize = self.get_sections_amount() as usize;
        let mut i: usize = 0;
        while i < number_of_sections
            invariant
                i <= number_of_sections == self.sections().len(),
                name@ == section_name.spec_bytes(),
                forall|earlier: int| 0 <= earlier < i ==> self.sections()[earlier].name != name@,
            decreases number_of_sections - i,
        {
            let section = self.section(i);
            if same_bytes(section.name.as_slice(), name) {
                proof {
                    lemma_scan_for(self.sections(), name@);
                }
                return Some(section);
            }
            i = i + 1;
        }
        proof {
            lemma_scan_for(self.sections(), name@);
        }
        None
    }

    /// Retrieves the amount of sections in the image.
    pub fn get_sections_amount(&self) -> (amount: u16)
        ensures
            amount == section_count(self.image()),
            amount == self.sections().len(),
    {
        proof {
            use_type_invariant(self);
        }
        read_u16(self.image, self.nt_headers - self.module_handle + SECTION_COUNT_FIELD)
    }

    /// Decodes the record at `index` of the section table.
    fn section(&self, index: usize) -> (section: Section)
        requires
            index < self.sections().len(),
        ensures
            section@ == self.sections()[index as int],
    {
        proof {
            use_type_invariant(self);
        }
        let table: usize = self.nt_headers - self.module_handle + extended_header_size();
        let record: usize = table + index * SECTION_RECORD_SIZE;
        let field = &self.image[record..record + SECTION_NAME_SIZE];
        let relative: u32 = read_u32(self.image, record + SECTION_ADDRESS_FIELD);
        let size: u32 = read_u32(self.image, record + SECTION_DATA_SIZE_FIELD);
        assert(relative == section_relative_address(self.image@, index as int));
        Section {
            num: index,
            name: slice_to_vec(trim_null_bytes(field)),
            virtual_address: self.module_handle + relative as usize,
            data_size: size as usize,
        }
    }

    /// Iterates over the sections in table order and applies a callback
    /// function to each. When the callback returns false the walk ends at
    /// once: no further record is decoded.
    ///
    /// Returns how many sections were handed to the callback. They are the
    /// first that many of the table, each handed over once, in table order.
    pub fn on_pe_sections<F: FnMut(Section) -> bool>(&self, callback: F) -> (visited: usize)
        requires
            forall|index: int, handed: Section|
                0 <= index < self.sections().len() && handed@ == self.sections()[index]
                    ==> callback.requires((handed,)),
        ensures
            visited <= self.sections().len(),
            forall|index: int|
                0 <= index < visited ==> answers(callback, #[trigger] self.sections()[index], true)
                    || (index == visited - 1 && answers(callback, self.sections()[index], false)),
            visited < self.sections().len() ==> visited > 0 && answers(
                callback,
                self.sections()[visited - 1],
                false,
            ),
            (forall|index: int|
                0 <= index < self.sections().len() ==> !answers(
                    callback,
                    #[trigger] self.sections()[index],
                    false,
                )) ==> visited == self.sections().len(),
            forall|index: int|
                0 <= index < self.sections().len() && !answers(
                    callback,
                    #[trigger] self.sections()[index],
                    true,
                ) ==> visited <= index + 1,
    {
        let number_of_sections: usize = self.get_sections_amount() as usize;
        let mut call = callback;
        let mut i: usize = 0;
        while i < number_of_sections
            invariant
                call == callback,
                i <= number_of_sections == self.sections().len(),
                forall|index: int, handed: Section|
                    0 <= index < self.sections().len() && handed@ == self.sections()[index]
                        ==> callback.requires((handed,)),
                forall|index: int|
                    0 <= index < i ==> answers(callback, #[trigger] self.sections()[index], true),
            decreases number_of_sections - i,
        {
            let section = self.section(i);
            let proceed = call(section);
            i = i + 1;
            if !proceed {
                return i;
            }
        }
        i
    }
}

} // verus!
