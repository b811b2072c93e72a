//! Sections as values, and what the section table of an image holds.

use vstd::prelude::*;
use crate::layout::{
    headers_mapped, section_count, section_data_size, section_name_field,
    section_relative_address, spec_required_len, valid_image, SECTION_NAME_SIZE,
};
use crate::name::{lemma_nul_index, trimmed};

verus! {

/// One section of a loaded image: a snapshot taken when the section table was
/// walked, which owns its name and depends on the image no longer.
#[derive(Debug, Clone, PartialEq, Eq)]
pub struct Section {
    /// Position of the section in the section table, counted from zero.
    pub num: usize,
    /// The section's label: the bytes of its name field before the first NUL,
    /// at most 8, taken as they are.
    pub name: Vec<u8>,
    /// Memory address where the section starts.
    pub virtual_address: usize,
    /// Size of the section's raw data in bytes.
    pub data_size: usize,
}

/// The mathematical value of a `Section`.
pub struct SectionView {
    pub num: int,
    pub name: Seq<u8>,
    pub virtual_address: int,
    pub data_size: int,
}

impl View for Section {
    type V = SectionView;

    open spec fn view(&self) -> SectionView {
        SectionView {
            num: self.num as int,
            name: self.name@,
            virtual_address: self.virtual_address as int,
            data_size: self.data_size as int,
        }
    }
}

/// The section that the record at `index` describes, for an image mapped at
/// address `base`: its position, its name cut at the first NUL, its relative
/// address moved by the base, and its raw data size.
pub open spec fn section_at(base: int, image: Seq<u8>, index: int) -> SectionView {
    SectionView {
        num: index,
        name: trimmed(section_name_field(image, index)),
        virtual_address: base + section_relative_address(image, index),
        data_size: section_data_size(image, index),
    }
}

/// Every section of the image, in the order of the section table.
pub open spec fn sections(base: int, image: Seq<u8>) -> Seq<SectionView> {
    Seq::new(section_count(image) as nat, |index: int| section_at(base, image, index))
}

/// In an image whose headers are mapped, every section is numbered by its
/// place in the table, and its name has at most 8 bytes, none of them NUL.
pub proof fn lemma_section_names(base: int, image: Seq<u8>, index: int)
    requires
        headers_mapped(image),
        0 <= index < section_count(image),
    ensures
        sections(base, image).len() == section_count(image),
        sections(base, image)[index].num == index,
        sections(base, image)[index].name.len() <= SECTION_NAME_SIZE,
        forall|at: int|
            0 <= at < sections(base, image)[index].name.len() ==> sections(
                base,
                image,
            )[index].name[at] != 0,
{
    lemma_nul_index(section_name_field(image, index));
}

/// `index` is the position of the first section in `all` that is named `name`.
pub open spec fn is_first_named(all: Seq<SectionView>, name: Seq<u8>, index: int) -> bool {
    &&& 0 <= index < all.len()
    &&& all[index].name == name
    &&& forall|earlier: int| 0 <= earlier < index ==> all[earlier].name != name
}

/// No section in `all` is named `name`.
pub open spec fn none_named(all: Seq<SectionView>, name: Seq<u8>) -> bool {
    forall|index: int| 0 <= index < all.len() ==> all[index].name != name
}

/// What a search from the front of `all` for a section named `name` comes to:
/// the first element is taken if it bears the name, else the search goes on
/// in the rest.
pub open spec fn scan_for(all: Seq<SectionView>, name: Seq<u8>) -> Option<SectionView>
    decreases all.len(),
{
    if all.len() == 0 {
        None
    } else if all[0].name == name {
        Some(all[0])
    } else {
        scan_for(all.drop_first(), name)
    }
}

/// A search from the front finds the first section that bears the name, and
/// finds nothing exactly when no section bears it.
pub proof fn lemma_scan_for(all: Seq<SectionView>, name: Seq<u8>)
    ensures
        match scan_for(all, name) {
            Some(found) => exists|index: int|
                is_first_named(all, name, index) && all[index] == found,
            None => none_named(all, name),
        },
    decreases all.len(),
{
    if all.len() == 0 {
    } else if all[0].name == name {
        assert(is_first_named(all, name, 0));
    } else {
        let rest = all.drop_first();
        lemma_scan_for(rest, name);
        match scan_for(rest, name) {
            Some(found) => {
                let index = choose|index: int|
                    is_first_named(rest, name, index) && rest[index] == found;
                assert forall|earlier: int| 0 <= earlier < index + 1 implies all[earlier].name
                    != name by {
                    if earlier > 0 {
                        assert(all[earlier] == rest[earlier - 1]);
                    }
                }
                assert(all[index + 1] == rest[index]);
                assert(is_first_named(all, name, index + 1));
            },
            None => {
                assert forall|index: int| 0 <= index < all.len() implies all[index].name
                    != name by {
                    if index > 0 {
                        assert(all[index] == rest[index - 1]);
                    }
                }
            },
        }
    }
}

/// The headers alone tell the sections: once the mapped bytes reach the end
/// of the section table, mapping more of the image changes neither what is
/// asked for nor what is found.
pub proof fn lemma_sections_of_longer_image(base: int, image: Seq<u8>, longer: Seq<u8>)
    requires
        headers_mapped(image),
        image.len() <= longer.len(),
        longer.subrange(0, image.len() as int) == image,
    ensures
        headers_mapped(longer),
        spec_required_len(longer) == spec_required_len(image),
        sections(base, longer) == sections(base, image),
        valid_image(base, image) && base + longer.len() <= usize::MAX ==> valid_image(
            base,
            longer,
        ),
{
    assert forall|at: int| 0 <= at < image.len() implies longer[at] == image[at] by {
        assert(longer.subrange(0, image.len() as int)[at] == longer[at]);
    }
    assert forall|index: int| 0 <= index < section_count(image) implies section_at(
        base,
        longer,
        index,
    ) == section_at(base, image, index) by {
        assert(section_name_field(longer, index) =~= section_name_field(image, index));
    }
    assert(sections(base, longer) =~= sections(base, image));
    assert forall|index: int| 0 <= index < section_count(image) implies section_relative_address(
        longer,
        index,
    ) == section_relative_address(image, index) by {
        assert(section_at(base, longer, index) == section_at(base, image, index));
    }
}

} // verus!
