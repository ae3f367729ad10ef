//! The domain types of the sign-up flow and their coercion rules.
//!
//! `Email` and `PlainTextPassword` wrap the required-string rule; no
//! further format check is applied to the accepted string.  `SignUpInput`
//! is the composite record: every declared field is validated against its
//! own rule, and a failed validation reports every failed field at once.

use vstd::prelude::*;

use crate::distill::Distilled;
use crate::error::{error_fields_view, lemma_error_fields_view_index, spec_entry, Error, ErrorCode, SpecError};
use crate::value::{lemma_obj_view_index, obj_get, obj_view, spec_obj_get, SpecValue, Value};

verus! {

/// An email address, accepted from any string value.
#[derive(Debug, Clone, PartialEq)]
pub struct Email(pub String);

impl DeepView for Email {
    type V = Seq<char>;

    open spec fn deep_view(&self) -> Seq<char> {
        self.0@
    }
}

/// The email rule: the required-string rule, wrapped.
impl Distilled for Email {
    open spec fn spec_distill(v: Option<SpecValue>) -> Result<Seq<char>, SpecError> {
        String::spec_distill(v)
    }

    fn distill_from(v: Option<&Value>) -> (r: Result<Self, Error>) {
        match String::distill_from(v) {
            Ok(s) => Ok(Email(s)),
            Err(e) => Err(e),
        }
    }
}

/// A plain-text password, accepted from any string value.
#[derive(Debug, Clone, PartialEq)]
pub struct PlainTextPassword(pub String);

impl DeepView for PlainTextPassword {
    type V = Seq<char>;

    open spec fn deep_view(&self) -> Seq<char> {
        self.0@
    }
}

/// The password rule: the required-string rule, wrapped.
impl Distilled for PlainTextPassword {
    open spec fn spec_distill(v: Option<SpecValue>) -> Result<Seq<char>, SpecError> {
        String::spec_distill(v)
    }

    fn distill_from(v: Option<&Value>) -> (r: Result<Self, Error>) {
        match String::distill_from(v) {
            Ok(s) => Ok(PlainTextPassword(s)),
            Err(e) => Err(e),
        }
    }
}

/// The model of a [`SignUpInput`].
pub struct SpecSignUpInput {
    pub field_string: Seq<char>,
    pub field_option: Option<u32>,
    pub email: Seq<char>,
    pub password: Seq<char>,
}

/// A sign-up request: one required string, one optional bounded integer,
/// an email address and a password.
#[derive(Debug, Clone, PartialEq)]
pub struct SignUpInput {
    pub field_string: String,
    pub field_option: Option<u32>,
    pub email: Email,
    pub password: PlainTextPassword,
}

impl DeepView for SignUpInput {
    type V = SpecSignUpInput;

    open spec fn deep_view(&self) -> SpecSignUpInput {
        SpecSignUpInput {
            field_string: self.field_string@,
            field_option: self.field_option.deep_view(),
            email: self.email.deep_view(),
            password: self.password.deep_view(),
        }
    }
}

/// The per-field results of validating a record's fields against an
/// object's entries.
pub open spec fn spec_sign_up_fields(fields: Seq<(Seq<char>, SpecValue)>) -> (
    Result<Seq<char>, SpecError>,
    Result<Option<u32>, SpecError>,
    Result<Seq<char>, SpecError>,
    Result<Seq<char>, SpecError>,
) {
    (
        String::spec_distill(spec_obj_get(fields, "field_string"@)),
        <Option<u32> as Distilled>::spec_distill(spec_obj_get(fields, "field_option"@)),
        Email::spec_distill(spec_obj_get(fields, "email"@)),
        PlainTextPassword::spec_distill(spec_obj_get(fields, "password"@)),
    )
}

/// The entries of the failure report of a record, one per failed field, in
/// declaration order.
pub open spec fn spec_sign_up_errors(fields: Seq<(Seq<char>, SpecValue)>) -> Seq<
    (Seq<char>, SpecError),
> {
    let (r_string, r_option, r_email, r_password) = spec_sign_up_fields(fields);
    (match r_string {
        Err(e) => seq![("field_string"@, e)],
        Ok(_) => Seq::empty(),
    }) + (match r_option {
        Err(e) => seq![("field_option"@, e)],
        Ok(_) => Seq::empty(),
    }) + (match r_email {
        Err(e) => seq![("email"@, e)],
        Ok(_) => Seq::empty(),
    }) + (match r_password {
        Err(e) => seq![("password"@, e)],
        Ok(_) => Seq::empty(),
    })
}

/// The record rule.  An absent value is a missing field and a non-object
/// value is a wrong type, each reported as a single entry with no
/// per-field reports.  For an object, every declared field is validated
/// against the object's entry of the same name: when all four succeed the
/// record is built from the four values, and otherwise the report holds
/// exactly the failed fields, each with its own sub-report.
impl Distilled for SignUpInput {
    open spec fn spec_distill(v: Option<SpecValue>) -> Result<SpecSignUpInput, SpecError> {
        match v {
            None => Err(spec_entry(ErrorCode::MissingField)),
            Some(SpecValue::Obj(fields)) => {
                let (r_string, r_option, r_email, r_password) = spec_sign_up_fields(fields);
                if r_string is Ok && r_option is Ok && r_email is Ok && r_password is Ok {
                    Ok(
                        SpecSignUpInput {
                            field_string: r_string->Ok_0,
                            field_option: r_option->Ok_0,
                            email: r_email->Ok_0,
                            password: r_password->Ok_0,
                        },
                    )
                } else {
                    Err(SpecError::Struct(spec_sign_up_errors(fields)))
                }
            },
            Some(_) => Err(spec_entry(ErrorCode::WrongType)),
        }
    }

    fn distill_from(v: Option<&Value>) -> (r: Result<Self, Error>) {
        match v {
            None => Err(Error::entry(ErrorCode::MissingField)),
            Some(Value::Obj(fields)) => {
                let r_string = String::distill_from(obj_get(fields, "field_string"));
                let r_option = <Option<u32> as Distilled>::distill_from(
                    obj_get(fields, "field_option"),
                );
                let r_email = Email::distill_from(obj_get(fields, "email"));
                let r_password = PlainTextPassword::distill_from(obj_get(fields, "password"));
                match (r_string, r_option, r_email, r_password) {
                    (Ok(field_string), Ok(field_option), Ok(email), Ok(password)) => Ok(
                        SignUpInput { field_string, field_option, email, password },
                    ),
                    (r_string, r_option, r_email, r_password) => {
                        let mut errors: Vec<(String, Error)> = Vec::new();
                        if let Err(e) = r_string {
                            errors.push(("field_string".to_owned(), e));
                        }
                        if let Err(e) = r_option {
                            errors.push(("field_option".to_owned(), e));
                        }
                        if let Err(e) = r_email {
                            errors.push(("email".to_owned(), e));
                        }
                        if let Err(e) = r_password {
                            errors.push(("password".to_owned(), e));
                        }
                        proof {
                            lemma_error_fields_view_index(errors@);
                            assert(error_fields_view(errors@)
                                =~= spec_sign_up_errors(obj_view(fields@)));
                        }
                        Err(Error::Struct(errors))
                    },
                }
            },
            Some(_) => Err(Error::entry(ErrorCode::WrongType)),
        }
    }
}

impl Email {
    /// This address serialized back into an untyped value: its string.
    pub fn to_value(&self) -> (r: Value)
        ensures
            r.deep_view() == SpecValue::Str(self.deep_view()),
    {
        Value::Str(self.0.clone())
    }
}

impl PlainTextPassword {
    /// This password serialized back into an untyped value: its string.
    pub fn to_value(&self) -> (r: Value)
        ensures
            r.deep_view() == SpecValue::Str(self.deep_view()),
    {
        Value::Str(self.0.clone())
    }
}

/// The model of a serialized [`SignUpInput`]: an object holding the
/// declared fields in declaration order, with an absent optional field
/// omitted rather than bound to null.
pub open spec fn spec_sign_up_to_value(s: SpecSignUpInput) -> SpecValue {
    SpecValue::Obj(
        seq![("field_string"@, SpecValue::Str(s.field_string))] + (match s.field_option {
            Some(n) => seq![("field_option"@, SpecValue::Int(n as i64))],
            None => Seq::empty(),
        }) + seq![("email"@, SpecValue::Str(s.email))] + seq![
            ("password"@, SpecValue::Str(s.password)),
        ],
    )
}

impl SignUpInput {
    /// This record serialized back into an untyped value.  An absent
    /// optional field is omitted from the object, so the result
    /// re-validates to an equal record.
    pub fn to_value(&self) -> (r: Value)
        ensures
            r.deep_view() == spec_sign_up_to_value(self.deep_view()),
    {
        let mut fields: Vec<(String, Value)> = Vec::new();
        fields.push(("field_string".to_owned(), Value::Str(self.field_string.clone())));
        if let Some(n) = self.field_option {
            fields.push(("field_option".to_owned(), Value::Int(n as i64)));
        }
        fields.push(("email".to_owned(), Value::Str(self.email.0.clone())));
        fields.push(("password".to_owned(), Value::Str(self.password.0.clone())));
        proof {
            lemma_obj_view_index(fields@);
            assert(obj_view(fields@) =~= spec_sign_up_to_value(self.deep_view())->Obj_0);
        }
        Value::Obj(fields)
    }
}

} // verus!
