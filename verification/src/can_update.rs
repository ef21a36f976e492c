//! Which CAN parameters a link update copies from another link.

use vstd::prelude::*;

verus! {

/// An entry of a link-info attribute, as far as copying CAN parameters
/// reads it: the raw data of the link's kind (the `Other` data of
/// `LinkInfo::Data`), or anything else.
#[derive(Debug)]
pub enum LinkInfoEntry {
    OtherData(Vec<u8>),
    Else,
}

/// An attribute of a link message, as far as copying CAN parameters reads
/// it: a link-info attribute with its entries, or anything else.
#[derive(Debug)]
pub enum LinkAttributeEntry {
    LinkInfo(Vec<LinkInfoEntry>),
    Else,
}

/// The raw data of the first entry that has any.
pub open spec fn first_other_data(entries: Seq<LinkInfoEntry>) -> Option<Seq<u8>>
    decreases entries.len(),
{
    if entries.len() == 0 {
        None
    } else {
        match entries[0] {
            LinkInfoEntry::OtherData(data) => Some(data@),
            LinkInfoEntry::Else => first_other_data(entries.drop_first()),
        }
    }
}

/// The CAN parameters of a link: the raw data of the first link-info
/// attribute that has raw data, taken from its first entry that has any.
pub open spec fn can_info_data(attributes: Seq<LinkAttributeEntry>) -> Option<Seq<u8>>
    decreases attributes.len(),
{
    if attributes.len() == 0 {
        None
    } else {
        match attributes[0] {
            LinkAttributeEntry::LinkInfo(entries) => match first_other_data(entries@) {
                Some(data) => Some(data),
                None => can_info_data(attributes.drop_first()),
            },
            LinkAttributeEntry::Else => can_info_data(attributes.drop_first()),
        }
    }
}

fn find_other_data(entries: &Vec<LinkInfoEntry>) -> (data: Option<Vec<u8>>)
    ensures
        match data {
            Some(data) => first_other_data(entries@) == Some(data@),
            None => first_other_data(entries@) is None,
        },
{
    let mut i: usize = 0;
    assert(entries@.skip(0) =~= entries@);
    while i < entries.len()
        invariant
            i <= entries@.len(),
            first_other_data(entries@) == first_other_data(entries@.skip(i as int)),
        decreases entries@.len() - i,
    {
        assert(entries@.skip(i as int)[0] == entries@[i as int]);
        assert(entries@.skip(i as int).drop_first() =~= entries@.skip(i + 1));
        match &entries[i] {
            LinkInfoEntry::OtherData(data) => {
                return Some(data.clone());
            },
            LinkInfoEntry::Else => {},
        }
        i = i + 1;
    }
    assert(entries@.skip(i as int).len() == 0);
    None
}

/// The CAN parameters that a link carries, as `can_info_data` states; `None`
/// where it carries none.
pub fn find_can_info_data(attributes: &Vec<LinkAttributeEntry>) -> (data: Option<Vec<u8>>)
    ensures
        match data {
            Some(data) => can_info_data(attributes@) == Some(data@),
            None => can_info_data(attributes@) is None,
        },
{
    let mut i: usize = 0;
    assert(attributes@.skip(0) =~= attributes@);
    while i < attributes.len()
        invariant
            i <= attributes@.len(),
            can_info_data(attributes@) == can_info_data(attributes@.skip(i as int)),
        decreases attributes@.len() - i,
    {
        assert(attributes@.skip(i as int)[0] == attributes@[i as int]);
        assert(attributes@.skip(i as int).drop_first() =~= attributes@.skip(i + 1));
        match &attributes[i] {
            LinkAttributeEntry::LinkInfo(entries) => {
                let found = find_other_data(entries);
                if found.is_some() {
                    return found;
                }
            },
            LinkAttributeEntry::Else => {},
        }
        i = i + 1;
    }
    assert(attributes@.skip(i as int).len() == 0);
    None
}

/// Whether an attribute carries no raw link-info data: it is no link-info
/// attribute, or none of its entries carries data.
pub open spec fn attribute_without_data(attribute: LinkAttributeEntry) -> bool {
    match attribute {
        LinkAttributeEntry::LinkInfo(entries) => forall|k: int| 0 <= k < entries@.len() ==> #[trigger] entries@[k] is Else,
        LinkAttributeEntry::Else => true,
    }
}

/// The raw data found among link-info entries is the data of the first
/// entry that carries any, whole and unchanged.
pub proof fn lemma_first_other_data_is_first_entry_data(entries: Seq<LinkInfoEntry>, i: int, data: Vec<u8>)
    requires
        0 <= i < entries.len(),
        entries[i] == LinkInfoEntry::OtherData(data),
        forall|j: int| 0 <= j < i ==> #[trigger] entries[j] is Else,
    ensures
        first_other_data(entries) == Some(data@),
    decreases i,
{
    if i > 0 {
        let rest = entries.drop_first();
        assert forall|j: int| 0 <= j < i - 1 implies #[trigger] rest[j] is Else by {
            assert(rest[j] == entries[j + 1]);
        }
        assert(entries[0] is Else);
        lemma_first_other_data_is_first_entry_data(rest, i - 1, data);
    }
}

/// Where no link-info entry carries raw data, none is found.
pub proof fn lemma_first_other_data_none(entries: Seq<LinkInfoEntry>)
    requires
        forall|j: int| 0 <= j < entries.len() ==> #[trigger] entries[j] is Else,
    ensures
        first_other_data(entries) is None,
    decreases entries.len(),
{
    if entries.len() > 0 {
        let rest = entries.drop_first();
        assert forall|j: int| 0 <= j < rest.len() implies #[trigger] rest[j] is Else by {
            assert(rest[j] == entries[j + 1]);
        }
        assert(entries[0] is Else);
        lemma_first_other_data_none(rest);
    }
}

/// The CAN parameters of a link are the raw data of the first link-info
/// entry that carries any, in the first attribute that has such an entry:
/// all of its bytes, unchanged.
pub proof fn lemma_can_info_data_is_first_data(
    attributes: Seq<LinkAttributeEntry>,
    i: int,
    entries: Vec<LinkInfoEntry>,
    k: int,
    data: Vec<u8>,
)
    requires
        0 <= i < attributes.len(),
        attributes[i] == LinkAttributeEntry::LinkInfo(entries),
        0 <= k < entries@.len(),
        entries@[k] == LinkInfoEntry::OtherData(data),
        forall|m: int| 0 <= m < k ==> #[trigger] entries@[m] is Else,
        forall|j: int| 0 <= j < i ==> attribute_without_data(#[trigger] attributes[j]),
    ensures
        can_info_data(attributes) == Some(data@),
    decreases i,
{
    if i > 0 {
        let rest = attributes.drop_first();
        assert forall|j: int| 0 <= j < i - 1 implies attribute_without_data(#[trigger] rest[j]) by {
            assert(rest[j] == attributes[j + 1]);
        }
        assert(attribute_without_data(attributes[0]));
        if let LinkAttributeEntry::LinkInfo(first) = attributes[0] {
            lemma_first_other_data_none(first@);
        }
        lemma_can_info_data_is_first_data(rest, i - 1, entries, k, data);
    } else {
        lemma_first_other_data_is_first_entry_data(entries@, k, data);
    }
}

/// A link none of whose link-info attributes carries raw data has no CAN
/// parameters.
pub proof fn lemma_can_info_data_none(attributes: Seq<LinkAttributeEntry>)
    requires
        forall|j: int| 0 <= j < attributes.len() ==> attribute_without_data(#[trigger] attributes[j]),
    ensures
        can_info_data(attributes) is None,
    decreases attributes.len(),
{
    if attributes.len() > 0 {
        let rest = attributes.drop_first();
        assert forall|j: int| 0 <= j < rest.len() implies attribute_without_data(#[trigger] rest[j]) by {
            assert(rest[j] == attributes[j + 1]);
        }
        assert(attribute_without_data(attributes[0]));
        if let LinkAttributeEntry::LinkInfo(first) = attributes[0] {
            lemma_first_other_data_none(first@);
        }
        lemma_can_info_data_none(rest);
    }
}

} // verus!
