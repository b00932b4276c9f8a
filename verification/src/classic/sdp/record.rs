//! Service records: lists of attributes with data element values.

use vstd::prelude::*;
use crate::classic::sdp::element::{DataElement, ElementModel, SdpUuid};
use crate::models;

verus! {

/// One attribute of a service record.
#[derive(Debug, Clone, PartialEq)]
pub struct ServiceAttribute {
    /// Attribute ID.
    pub id: u16,
    /// Attribute value.
    pub value: DataElement,
}

/// A service record: an ordered list of attributes.
pub type Service = Vec<ServiceAttribute>;

/// The model of a [`ServiceAttribute`].
#[verifier::ext_equal]
pub struct AttributeModel {
    pub id: u16,
    pub value: ElementModel,
}

impl View for ServiceAttribute {
    type V = AttributeModel;

    open spec fn view(&self) -> AttributeModel {
        AttributeModel { id: self.id, value: self.value@ }
    }
}

/// The attributes in a flat list of alternating IDs and values. A pair whose
/// ID is not an unsigned integer is skipped, and so is a value left over.
pub open spec fn attributes_of(items: Seq<ElementModel>) -> Seq<AttributeModel>
    decreases items.len(),
{
    if items.len() < 2 {
        seq![]
    } else {
        let rest = attributes_of(items.skip(2));
        match items[0].unsigned() {
            Some((id, _)) => seq![AttributeModel { id: id as u16, value: items[1] }] + rest,
            None => rest,
        }
    }
}

/// The value of the first attribute with an ID.
pub open spec fn attribute_in(list: Seq<AttributeModel>, id: u16) -> Option<ElementModel>
    decreases list.len(),
{
    if list.len() == 0 {
        None
    } else if list[0].id == id {
        Some(list[0].value)
    } else {
        attribute_in(list.skip(1), id)
    }
}

/// Whether a UUID appears in a value, also inside sequences.
pub open spec fn holds_uuid(value: ElementModel, uuid: SdpUuid) -> bool
    decreases value,
{
    match value {
        ElementModel::Uuid(u) => u == uuid,
        ElementModel::Sequence(items) => any_holds_uuid(items, uuid),
        _ => false,
    }
}

/// Whether a UUID appears in one of the values.
pub open spec fn any_holds_uuid(items: Seq<ElementModel>, uuid: SdpUuid) -> bool
    decreases items,
{
    exists|i: int| 0 <= i < items.len() && holds_uuid(#[trigger] items[i], uuid)
}

impl ServiceAttribute {
    /// An attribute with an ID and a value.
    pub fn new(id: u16, value: DataElement) -> (r: Self)
        ensures
            r@ == (AttributeModel { id, value: value@ }),
    {
        ServiceAttribute { id, value }
    }

    /// Decodes a flat list of alternating IDs and values.
    pub fn list_from_data_elements(elements: &[DataElement]) -> (r: Vec<ServiceAttribute>)
        ensures
            models::seq_views(r@) == attributes_of(models::seq_views(elements@)),
    {
        let ghost all = models::seq_views(elements@);
        let mut out: Vec<ServiceAttribute> = Vec::new();
        let mut i: usize = 0;
        assert(all.skip(0) =~= all);
        assert(models::seq_views(out@) + attributes_of(all) =~= attributes_of(all));
        while elements.len() - i >= 2
            invariant
                i <= elements@.len(),
                all == models::seq_views(elements@),
                models::seq_views(out@) + attributes_of(all.skip(i as int)) == attributes_of(all),
            decreases elements@.len() - i,
        {
            let ghost before = models::seq_views(out@);
            let ghost rest = all.skip(i as int);
            assert(rest.skip(2) =~= all.skip(i + 2));
            assert(rest[0] == elements@[i as int]@ && rest[1] == elements@[i + 1]@);
            if let Some((id, _)) = elements[i].as_unsigned_integer() {
                let attribute = ServiceAttribute::new(id as u16, elements[i + 1].clone());
                proof {
                    models::lemma_seq_views_push(out@, attribute);
                    assert(before + (seq![attribute@] + attributes_of(rest.skip(2)))
                        =~= before.push(attribute@) + attributes_of(rest.skip(2)));
                }
                out.push(attribute);
            }
            i = i + 2;
        }
        assert(attributes_of(all.skip(i as int)) =~= seq![]);
        assert(models::seq_views(out@) =~= attributes_of(all));
        out
    }

    /// Finds the value of attribute `id` in `list`, if present.
    pub fn find_attribute_in_list(list: &[ServiceAttribute], id: u16) -> (r: Option<&DataElement>)
        ensures
            models::opt_view(r) == attribute_in(models::seq_views(list@), id),
    {
        let ghost all = models::seq_views(list@);
        let mut i: usize = 0;
        assert(all.skip(0) =~= all);
        while i < list.len()
            invariant
                i <= list@.len(),
                all == models::seq_views(list@),
                attribute_in(all.skip(i as int), id) == attribute_in(all, id),
            decreases list@.len() - i,
        {
            assert(all.skip(i as int)[0] == list@[i as int]@);
            assert(all.skip(i as int).skip(1) =~= all.skip(i + 1));
            if list[i].id == id {
                return Some(&list[i].value);
            }
            i = i + 1;
        }
        None
    }

    /// Whether `uuid` appears in `value`, also inside sequences.
    pub fn is_uuid_in_value(uuid: SdpUuid, value: &DataElement) -> (r: bool)
        ensures
            r == holds_uuid(value@, uuid),
        decreases value,
    {
        match value {
            DataElement::Uuid(u) => u.same(uuid),
            DataElement::Sequence(items) => {
                proof {
                    crate::classic::sdp::element::lemma_element_lists(*items);
                }
                let ghost all = models::seq_views(items@);
                assert(value@ == ElementModel::Sequence(all));
                let mut i: usize = 0;
                while i < items.len()
                    invariant
                        i <= items@.len(),
                        all == models::seq_views(items@),
                        forall|j: int| 0 <= j < i ==> !holds_uuid(#[trigger] all[j], uuid),
                    decreases items@.len() - i,
                {
                    proof {
                        assert(decreases_to!(value => items));
                        assert(decreases_to!(*items => items@));
                        assert(decreases_to!(items@ => items@[i as int]));
                        assert(all[i as int] == items@[i as int]@);
                    }
                    if Self::is_uuid_in_value(uuid, &items[i]) {
                        assert(holds_uuid(all[i as int], uuid));
                        return true;
                    }
                    i = i + 1;
                }
                false
            },
            _ => false,
        }
    }
}

/// The unsigned integer at `j` in the sequence at `i` of a sequence.
pub open spec fn unsigned_in(value: ElementModel, i: int, j: int) -> Option<u64> {
    match value.sequence() {
        Some(items) => if 0 <= i < items.len() {
            match items[i].sequence() {
                Some(inner) => if 0 <= j < inner.len() {
                    match inner[j].unsigned() {
                        Some((v, _)) => Some(v),
                        None => None,
                    }
                } else {
                    None
                },
                None => None,
            }
        } else {
            None
        },
        None => None,
    }
}

/// Reads the unsigned integer at `j` in the sequence at `i` of a sequence:
/// where a descriptor list holds a channel or a version.
pub fn find_unsigned_in(value: &DataElement, i: usize, j: usize) -> (r: Option<u64>)
    ensures
        r == unsigned_in(value@, i as int, j as int),
{
    match value.as_sequence() {
        Some(items) => {
            if i < items.len() {
                match items[i].as_sequence() {
                    Some(inner) => {
                        if j < inner.len() {
                            match inner[j].as_unsigned_integer() {
                                Some((v, _)) => Some(v),
                                None => None,
                            }
                        } else {
                            None
                        }
                    },
                    None => None,
                }
            } else {
                None
            }
        },
        None => None,
    }
}

} // verus!
