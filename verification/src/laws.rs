use vstd::prelude::*;

verus! {

use crate::dataset::spec_count_true;
use crate::select::{spec_loc_match, spec_location_mask};

proof fn lemma_count_all_false(mask: Seq<bool>)
    requires
        forall|j: int| 0 <= j < mask.len() ==> !mask[j],
    ensures
        spec_count_true(mask) == 0,
    decreases mask.len(),
{
    if mask.len() > 0 {
        lemma_count_all_false(mask.take(mask.len() - 1));
    }
}

/// A location absent from a dataset selects nothing: no cell of the location
/// column matches it, its selection mask holds no row, and so any selection
/// for it has zero rows and the pipelines answer with the default report that
/// embeds the location in its notice.
pub proof fn lemma_absent_location_selects_nothing(
    cells: Seq<Option<Seq<char>>>,
    city: Seq<char>,
)
    requires
        forall|j: int| 0 <= j < cells.len() ==> cells[j] != Some(city),
    ensures
        forall|j: int| 0 <= j < cells.len() ==> !spec_loc_match(cells[j], city),
        spec_count_true(spec_location_mask(cells, city)) == 0,
        !(exists|j: int| 0 <= j < cells.len() && spec_loc_match(cells[j], city)),
{
    assert forall|j: int| 0 <= j < cells.len() implies !spec_loc_match(cells[j], city) by {
        if spec_loc_match(cells[j], city) {
            assert(cells[j] == Some(city));
        }
    }
    let mask = spec_location_mask(cells, city);
    assert forall|j: int| 0 <= j < mask.len() implies !mask[j] by {
        assert(mask[j] == spec_loc_match(cells[j], city));
    }
    lemma_count_all_false(mask);
}

} // verus!
