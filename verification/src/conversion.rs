//! The error of a conversion between a model type and its wire format.

use vstd::prelude::*;
use std::marker::PhantomData;

verus! {

/// `String::from` on a string slice (`impl From<&str> for String`): std
/// documents it as converting the slice into an owned `String`, which holds
/// the same text.
pub assume_specification<'a>[ <String as core::convert::From<&'a str>>::from ](s: &str) -> (text: String)
    ensures
        text@ == s@,
;

/// A failed conversion from the type named `from` to the type named `to`.
#[derive(Debug, PartialEq, Eq)]
pub struct ConversionError {
    from: &'static str,
    to: &'static str,
    details: String,
}

/// The text of a conversion error, as its `Display` shows it.
pub open spec fn conversion_error_text(from: Seq<char>, to: Seq<char>, details: Seq<char>) -> Seq<char> {
    "Could not convert from `"@ + from + "` to `"@ + to + "`: "@ + details
}

/// `text` is a text that `details.into()` can give.
pub open spec fn into_text<D: Into<String>>(details: D, text: Seq<char>) -> bool {
    exists|s: String| #[trigger] call_ensures(D::into, (details,), s) && s@ == text
}

/// A string slice turns into a `String` holding its own text.
pub proof fn lemma_str_into_text(details: &str, text: Seq<char>)
    requires
        into_text(details, text),
    ensures
        text == details@,
{
}

impl View for ConversionError {
    /// The names of the two types and the details.
    type V = (Seq<char>, Seq<char>, Seq<char>);

    open spec fn view(&self) -> (Seq<char>, Seq<char>, Seq<char>) {
        (self.spec_from(), self.spec_to(), self.spec_details())
    }
}

impl ConversionError {
    pub closed spec fn spec_from(&self) -> Seq<char> {
        self.from@
    }

    pub closed spec fn spec_to(&self) -> Seq<char> {
        self.to@
    }

    pub closed spec fn spec_details(&self) -> Seq<char> {
        self.details@
    }

    /// The error names the types `from` and `to`, and its details are what
    /// `details.into()` gives.
    pub open spec fn is_error_of<D: Into<String>>(&self, from: Seq<char>, to: Seq<char>, details: D) -> bool {
        &&& self.spec_from() == from
        &&& self.spec_to() == to
        &&& into_text(details, self.spec_details())
    }

    /// The error of converting from the type named `from` into the type
    /// named `to`, with the details that `details.into()` gives.
    pub fn new<D: Into<String>>(from: &'static str, to: &'static str, details: D) -> (error: ConversionError)
        ensures
            error.is_error_of(from@, to@, details),
    {
        let text: String = details.into();
        ConversionError { from, to, details: text }
    }

    /// The name of the source type.
    pub fn from(&self) -> (name: &'static str)
        ensures
            name@ == self.spec_from(),
    {
        self.from
    }

    /// The name of the target type.
    pub fn to(&self) -> (name: &'static str)
        ensures
            name@ == self.spec_to(),
    {
        self.to
    }

    /// What went wrong.
    pub fn details(&self) -> (details: &str)
        ensures
            details@ == self.spec_details(),
    {
        self.details.as_str()
    }

    /// The error as text: ``Could not convert from `{from}` to `{to}`: {details}``.
    pub fn to_string(&self) -> (text: String)
        ensures
            text@ == conversion_error_text(self.spec_from(), self.spec_to(), self.spec_details()),
    {
        let mut text = String::from_str("Could not convert from `");
        text.append(self.from);
        text.append("` to `");
        text.append(self.to);
        text.append("`: ");
        text.append(self.details.as_str());
        text
    }
}

/// Builds the conversion errors of converting a `From` into a `To`; it holds
/// the names of the two types.
pub struct ConversionErrorBuilder<From, To> {
    from: &'static str,
    to: &'static str,
    _from: PhantomData<From>,
    _to: PhantomData<To>,
}

/// The details of an error about a field that was not set.
pub open spec fn field_not_set_details(field: Seq<char>) -> Seq<char> {
    "Field '"@ + field + "' not set"@
}

impl<From, To> ConversionErrorBuilder<From, To> {
    pub closed spec fn spec_from(&self) -> Seq<char> {
        self.from@
    }

    pub closed spec fn spec_to(&self) -> Seq<char> {
        self.to@
    }

    /// The builder for the type named `from` and the type named `to`.
    pub fn new(from: &'static str, to: &'static str) -> (builder: ConversionErrorBuilder<From, To>)
        ensures
            builder.spec_from() == from@,
            builder.spec_to() == to@,
    {
        ConversionErrorBuilder { from, to, _from: PhantomData, _to: PhantomData }
    }

    /// The error of converting a `From` into a `To`, with the given details.
    pub fn message<D: Into<String>>(&self, details: D) -> (error: ConversionError)
        ensures
            error.is_error_of(self.spec_from(), self.spec_to(), details),
    {
        ConversionError::new(self.from, self.to, details)
    }

    /// The error of converting a `From` into a `To` whose field `field` was
    /// not set: its details are `Field '{field}' not set`.
    pub fn field_not_set<F: Into<String>>(&self, field: F) -> (error: ConversionError)
        ensures
            error.spec_from() == self.spec_from(),
            error.spec_to() == self.spec_to(),
            exists|name: Seq<char>| #[trigger] into_text(field, name)
                && error.spec_details() == field_not_set_details(name),
    {
        let name: String = field.into();
        let mut details = String::from("Field '");
        details.append(name.as_str());
        details.append("' not set");
        proof {
            assert(into_text(field, name@));
        }
        ConversionError { from: self.from, to: self.to, details }
    }
}

/// The builder's `message` gives the error that `ConversionError::new`
/// gives for the builder's two names and the same details.
pub proof fn lemma_message_is_new<From, To>(
    builder: ConversionErrorBuilder<From, To>,
    details: &str,
    by_message: ConversionError,
    by_new: ConversionError,
)
    requires
        by_message.is_error_of(builder.spec_from(), builder.spec_to(), details),
        by_new.is_error_of(builder.spec_from(), builder.spec_to(), details),
    ensures
        by_message@ == by_new@,
        by_message.spec_details() == details@,
{
    lemma_str_into_text(details, by_message.spec_details());
    lemma_str_into_text(details, by_new.spec_details());
}

/// The builder's `field_not_set` gives the error that `ConversionError::new`
/// gives for the builder's two names and the details
/// `Field '{field}' not set`.
pub proof fn lemma_field_not_set_is_new<From, To>(
    builder: ConversionErrorBuilder<From, To>,
    field: &str,
    details: &str,
    by_field_not_set: ConversionError,
    by_new: ConversionError,
)
    requires
        by_field_not_set.spec_from() == builder.spec_from(),
        by_field_not_set.spec_to() == builder.spec_to(),
        exists|name: Seq<char>| #[trigger] into_text(field, name)
            && by_field_not_set.spec_details() == field_not_set_details(name),
        details@ == field_not_set_details(field@),
        by_new.is_error_of(builder.spec_from(), builder.spec_to(), details),
    ensures
        by_field_not_set@ == by_new@,
{
    let name = choose|name: Seq<char>| #[trigger] into_text(field, name)
        && by_field_not_set.spec_details() == field_not_set_details(name);
    lemma_str_into_text(field, name);
    lemma_str_into_text(details, by_new.spec_details());
}

} // verus!
