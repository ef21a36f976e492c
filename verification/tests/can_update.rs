use opendut::can_update::{find_can_info_data, LinkAttributeEntry, LinkInfoEntry};

#[test]
fn can_info_data_is_the_first_raw_data() {
    let attributes = vec![
        LinkAttributeEntry::Else,
        LinkAttributeEntry::LinkInfo(vec![LinkInfoEntry::Else]),
        LinkAttributeEntry::LinkInfo(vec![LinkInfoEntry::Else, LinkInfoEntry::OtherData(vec![1, 2]), LinkInfoEntry::OtherData(vec![3])]),
        LinkAttributeEntry::LinkInfo(vec![LinkInfoEntry::OtherData(vec![4])]),
    ];
    assert_eq!(find_can_info_data(&attributes), Some(vec![1, 2]));
}

#[test]
fn no_can_info_data_without_raw_data() {
    let attributes = vec![LinkAttributeEntry::Else, LinkAttributeEntry::LinkInfo(vec![LinkInfoEntry::Else])];
    assert_eq!(find_can_info_data(&attributes), None);
    assert_eq!(find_can_info_data(&vec![]), None);
}
