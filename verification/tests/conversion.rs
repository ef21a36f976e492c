use opendut::conversion::{ConversionError, ConversionErrorBuilder};

struct Proto;
struct Model;

#[test]
fn conversion_error_keeps_names_and_details() {
    let error = ConversionError::new("proto::Peer", "model::Peer", "no name");
    assert_eq!(error.from(), "proto::Peer");
    assert_eq!(error.to(), "model::Peer");
    assert_eq!(error.details(), "no name");
}

#[test]
fn conversion_error_text() {
    let error = ConversionError::new("A", "B", String::from("broken"));
    assert_eq!(error.to_string(), "Could not convert from `A` to `B`: broken");
}

#[test]
fn builder_message_uses_the_builder_names() {
    let builder = ConversionErrorBuilder::<Proto, Model>::new("Proto", "Model");
    let error = builder.message("invalid value");
    assert_eq!(error, ConversionError::new("Proto", "Model", "invalid value"));
}

#[test]
fn builder_field_not_set() {
    let builder = ConversionErrorBuilder::<Proto, Model>::new("Proto", "Model");
    let error = builder.field_not_set("id");
    assert_eq!(error.details(), "Field 'id' not set");
    assert_eq!(error.to_string(), "Could not convert from `Proto` to `Model`: Field 'id' not set");
}

#[test]
fn conversion_error_text_with_slice_details() {
    let error = ConversionError::new("u8", "u32", "bad value");
    assert_eq!(error.to_string(), "Could not convert from `u8` to `u32`: bad value");
}

#[test]
fn builder_field_not_set_equals_new_with_formatted_details() {
    let builder = ConversionErrorBuilder::<u8, u32>::new("u8", "u32");
    let error = builder.field_not_set("name");
    assert_eq!(error, ConversionError::new("u8", "u32", "Field 'name' not set"));
    assert_eq!(error.to_string(), "Could not convert from `u8` to `u32`: Field 'name' not set");
}
