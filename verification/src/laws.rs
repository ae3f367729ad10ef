//! The laws of the coercion rules, stated over their models and proved
//! once for all inputs.
//!
//! Every rule is total on untyped values: a malformed value is a reported
//! failure, never a panic, and the verified functions of this crate cannot
//! panic on any input.

use vstd::prelude::*;

use crate::distill::{spec_list_errors, Distilled};
use crate::domain::{
    spec_sign_up_errors, spec_sign_up_fields, spec_sign_up_to_value, Email, PlainTextPassword,
    SignUpInput, SpecSignUpInput,
};
use crate::error::{spec_entry, ErrorCode, SpecError};
use crate::value::{lemma_obj_get_in_prefix, lemma_obj_get_none, lemma_obj_get_skip_prefix, spec_obj_get, SpecValue};

verus! {

/// The four field names of the sign-up record are pairwise distinct.
proof fn lemma_field_names_distinct()
    ensures
        "field_string"@ != "field_option"@,
        "field_string"@ != "email"@,
        "field_string"@ != "password"@,
        "field_option"@ != "email"@,
        "field_option"@ != "password"@,
        "email"@ != "password"@,
{
    reveal_strlit("field_string");
    reveal_strlit("field_option");
    reveal_strlit("email");
    reveal_strlit("password");
    assert(("field_string"@).len() == 12);
    assert(("field_option"@).len() == 12);
    assert(("email"@).len() == 5);
    assert(("password"@).len() == 8);
    assert(("field_string"@)[6] == 's');
    assert(("field_option"@)[6] == 'o');
}

/// An absent value is a missing field for every required rule.
pub proof fn lemma_required_absent_is_missing_field()
    ensures
        String::spec_distill(None) == Err::<Seq<char>, SpecError>(
            spec_entry(ErrorCode::MissingField),
        ),
        u32::spec_distill(None) == Err::<u32, SpecError>(spec_entry(ErrorCode::MissingField)),
        Email::spec_distill(None) == Err::<Seq<char>, SpecError>(
            spec_entry(ErrorCode::MissingField),
        ),
        PlainTextPassword::spec_distill(None) == Err::<Seq<char>, SpecError>(
            spec_entry(ErrorCode::MissingField),
        ),
        SignUpInput::spec_distill(None) == Err::<SpecSignUpInput, SpecError>(
            spec_entry(ErrorCode::MissingField),
        ),
{
}

/// An absent value is a plain success for every optional rule.
pub proof fn lemma_optional_absent_is_ok<T: Distilled>()
    ensures
        <Option<T> as Distilled>::spec_distill(None) == Ok::<Option<T::V>, SpecError>(None),
{
}

/// A present value of the wrong kind is a wrong type for the string rule,
/// and for the rules that wrap it.
pub proof fn lemma_string_wrong_kind(v: SpecValue)
    requires
        !(v is Str),
    ensures
        String::spec_distill(Some(v)) == Err::<Seq<char>, SpecError>(
            spec_entry(ErrorCode::WrongType),
        ),
        Email::spec_distill(Some(v)) == Err::<Seq<char>, SpecError>(
            spec_entry(ErrorCode::WrongType),
        ),
        PlainTextPassword::spec_distill(Some(v)) == Err::<Seq<char>, SpecError>(
            spec_entry(ErrorCode::WrongType),
        ),
{
}

/// A present value that is not an integer within `0..=u32::MAX` is a wrong
/// type for the bounded-integer rule.
pub proof fn lemma_u32_wrong_kind(v: SpecValue)
    requires
        !(v matches SpecValue::Int(n) && 0 <= n <= u32::MAX),
    ensures
        u32::spec_distill(Some(v)) == Err::<u32, SpecError>(spec_entry(ErrorCode::WrongType)),
{
}

/// A present value that is not an object is a single wrong-type failure
/// for the record rule, with no per-field reports.
pub proof fn lemma_record_wrong_kind(v: SpecValue)
    requires
        !(v is Obj),
    ensures
        SignUpInput::spec_distill(Some(v)) == Err::<SpecSignUpInput, SpecError>(
            spec_entry(ErrorCode::WrongType),
        ),
{
}

/// A present value that is not an array is a single wrong-type failure
/// for the sequence rule, with no per-index reports.
pub proof fn lemma_sequence_wrong_kind<T: Distilled>(v: SpecValue)
    requires
        !(v is Arr),
    ensures
        <Vec<T> as Distilled>::spec_distill(Some(v)) == Err::<Seq<T::V>, SpecError>(
            spec_entry(ErrorCode::WrongType),
        ),
{
}

/// A failure of a present value passes through an optional rule unchanged:
/// optionality never suppresses it.
pub proof fn lemma_optional_present_delegates<T: Distilled>(v: SpecValue)
    ensures
        <Option<T> as Distilled>::spec_distill(Some(v)) == (match T::spec_distill(Some(v)) {
            Ok(t) => Ok::<Option<T::V>, SpecError>(Some(t)),
            Err(e) => Err::<Option<T::V>, SpecError>(e),
        }),
{
}

/// A rule's result is a function of its input's model alone: validating
/// the same value twice gives structurally equal results.
pub proof fn lemma_distill_idempotent<T: Distilled>(
    v: Option<SpecValue>,
    r1: Result<T::V, SpecError>,
    r2: Result<T::V, SpecError>,
)
    requires
        r1 == T::spec_distill(v),
        r2 == T::spec_distill(v),
    ensures
        r1 == r2,
{
}

/// The record rule is exhaustive and exact.  Against an object it succeeds
/// exactly when all four field rules succeed; a failure report binds each
/// failed field, and only the failed fields, to that field's own report.
pub proof fn lemma_record_report_exact(fields: Seq<(Seq<char>, SpecValue)>)
    ensures
        ({
            let (r_string, r_option, r_email, r_password) = spec_sign_up_fields(fields);
            let r = SignUpInput::spec_distill(Some(SpecValue::Obj(fields)));
            let errs = spec_sign_up_errors(fields);
            &&& (r is Ok <==> (r_string is Ok && r_option is Ok && r_email is Ok && r_password
                is Ok))
            &&& (r is Err ==> r == Err::<SpecSignUpInput, SpecError>(SpecError::Struct(errs)))
            &&& spec_obj_get(errs, "field_string"@) == (match r_string {
                Err(e) => Some(e),
                Ok(_) => None::<SpecError>,
            })
            &&& spec_obj_get(errs, "field_option"@) == (match r_option {
                Err(e) => Some(e),
                Ok(_) => None::<SpecError>,
            })
            &&& spec_obj_get(errs, "email"@) == (match r_email {
                Err(e) => Some(e),
                Ok(_) => None::<SpecError>,
            })
            &&& spec_obj_get(errs, "password"@) == (match r_password {
                Err(e) => Some(e),
                Ok(_) => None::<SpecError>,
            })
            &&& forall|i: int|
                0 <= i < errs.len() ==> {
                    ||| (#[trigger] errs[i].0) == "field_string"@ && r_string is Err
                    ||| errs[i].0 == "field_option"@ && r_option is Err
                    ||| errs[i].0 == "email"@ && r_email is Err
                    ||| errs[i].0 == "password"@ && r_password is Err
                }
        }),
{
    lemma_field_names_distinct();
    let (r_string, r_option, r_email, r_password) = spec_sign_up_fields(fields);
    let c1 = match r_string {
        Err(e) => seq![("field_string"@, e)],
        Ok(_) => Seq::<(Seq<char>, SpecError)>::empty(),
    };
    let c2 = match r_option {
        Err(e) => seq![("field_option"@, e)],
        Ok(_) => Seq::<(Seq<char>, SpecError)>::empty(),
    };
    let c3 = match r_email {
        Err(e) => seq![("email"@, e)],
        Ok(_) => Seq::<(Seq<char>, SpecError)>::empty(),
    };
    let c4 = match r_password {
        Err(e) => seq![("password"@, e)],
        Ok(_) => Seq::<(Seq<char>, SpecError)>::empty(),
    };
    let errs = spec_sign_up_errors(fields);
    assert(errs == ((c1 + c2) + c3) + c4);
    let tail2 = c2 + (c3 + c4);
    let tail3 = c3 + c4;
    assert(errs =~= c1 + tail2);
    assert(tail2 =~= c2 + tail3);

    // Each lookup skips the chunks of the other fields and lands in its
    // own chunk, or reaches the end.
    assert(spec_obj_get(errs, "field_string"@) == (match r_string {
        Err(e) => Some(e),
        Ok(_) => None::<SpecError>,
    })) by {
        if r_string is Err {
            lemma_obj_get_in_prefix(c1, tail2, "field_string"@);
        } else {
            lemma_obj_get_skip_prefix(c1, tail2, "field_string"@);
            lemma_obj_get_skip_prefix(c2, tail3, "field_string"@);
            lemma_obj_get_skip_prefix(c3, c4, "field_string"@);
            lemma_obj_get_none(c4, "field_string"@);
        }
    }
    assert(spec_obj_get(errs, "field_option"@) == (match r_option {
        Err(e) => Some(e),
        Ok(_) => None::<SpecError>,
    })) by {
        lemma_obj_get_skip_prefix(c1, tail2, "field_option"@);
        if r_option is Err {
            lemma_obj_get_in_prefix(c2, tail3, "field_option"@);
        } else {
            lemma_obj_get_skip_prefix(c2, tail3, "field_option"@);
            lemma_obj_get_skip_prefix(c3, c4, "field_option"@);
            lemma_obj_get_none(c4, "field_option"@);
        }
    }
    assert(spec_obj_get(errs, "email"@) == (match r_email {
        Err(e) => Some(e),
        Ok(_) => None::<SpecError>,
    })) by {
        lemma_obj_get_skip_prefix(c1, tail2, "email"@);
        lemma_obj_get_skip_prefix(c2, tail3, "email"@);
        if r_email is Err {
            lemma_obj_get_in_prefix(c3, c4, "email"@);
        } else {
            lemma_obj_get_skip_prefix(c3, c4, "email"@);
            lemma_obj_get_none(c4, "email"@);
        }
    }
    assert(spec_obj_get(errs, "password"@) == (match r_password {
        Err(e) => Some(e),
        Ok(_) => None::<SpecError>,
    })) by {
        lemma_obj_get_skip_prefix(c1, tail2, "password"@);
        lemma_obj_get_skip_prefix(c2, tail3, "password"@);
        lemma_obj_get_skip_prefix(c3, c4, "password"@);
    }

    assert forall|i: int| 0 <= i < errs.len() implies {
        ||| (#[trigger] errs[i].0) == "field_string"@ && r_string is Err
        ||| errs[i].0 == "field_option"@ && r_option is Err
        ||| errs[i].0 == "email"@ && r_email is Err
        ||| errs[i].0 == "password"@ && r_password is Err
    } by {
        if i < c1.len() {
            assert(errs[i] == c1[i]);
        } else if i < c1.len() + c2.len() {
            assert(errs[i] == c2[i - c1.len()]);
        } else if i < c1.len() + c2.len() + c3.len() {
            assert(errs[i] == c3[i - c1.len() - c2.len()]);
        } else {
            assert(errs[i] == c4[i - c1.len() - c2.len() - c3.len()]);
        }
    }
}

/// The sequence rule's report is exact: it binds an index to a report
/// exactly when that element's validation failed with that report.
pub proof fn lemma_list_report_exact<T: Distilled>(items: Seq<SpecValue>)
    ensures
        forall|j: int, e: SpecError|
            #[trigger] spec_list_errors::<T>(items).contains((j, e)) <==> (0 <= j < items.len()
                && T::spec_distill(Some(items[j])) == Err::<T::V, SpecError>(e)),
    decreases items.len(),
{
    let errs = spec_list_errors::<T>(items);
    if items.len() > 0 {
        let prev_items = items.drop_last();
        lemma_list_report_exact::<T>(prev_items);
        let prev = spec_list_errors::<T>(prev_items);
        let chunk = match T::spec_distill(Some(items.last())) {
            Err(e) => seq![((items.len() - 1) as int, e)],
            Ok(_) => Seq::<(int, SpecError)>::empty(),
        };
        assert(errs == prev + chunk);
        assert forall|j: int, e: SpecError| #[trigger] errs.contains((j, e)) <==> (0 <= j
            < items.len() && T::spec_distill(Some(items[j])) == Err::<T::V, SpecError>(e)) by {
            assert(forall|k: int| 0 <= k < prev_items.len() ==> prev_items[k] == items[k]);
            if errs.contains((j, e)) {
                let i = choose|i: int| 0 <= i < errs.len() && errs[i] == (j, e);
                if i < prev.len() {
                    assert(prev[i] == (j, e));
                    assert(prev.contains((j, e)));
                } else {
                    assert(chunk[i - prev.len()] == (j, e));
                }
            }
            if 0 <= j < items.len() && T::spec_distill(Some(items[j])) == Err::<T::V, SpecError>(
                e,
            ) {
                if j < items.len() - 1 {
                    assert(prev.contains((j, e)));
                    let i = choose|i: int| 0 <= i < prev.len() && prev[i] == (j, e);
                    assert(errs[i] == (j, e));
                    assert(errs.contains((j, e)));
                } else {
                    assert(items.last() == items[j]);
                    assert(chunk[0] == (j, e));
                    assert(errs[prev.len() as int] == (j, e));
                    assert(errs.contains((j, e)));
                }
            }
        }
    }
}

/// A successfully constructed record, serialized and re-validated against
/// the same rule, validates to an equal record.
pub proof fn lemma_sign_up_round_trip(s: SpecSignUpInput)
    ensures
        SignUpInput::spec_distill(Some(spec_sign_up_to_value(s))) == Ok::<
            SpecSignUpInput,
            SpecError,
        >(s),
{
    lemma_field_names_distinct();
    let fields = spec_sign_up_to_value(s)->Obj_0;
    let c1 = seq![("field_string"@, SpecValue::Str(s.field_string))];
    let c2 = match s.field_option {
        Some(n) => seq![("field_option"@, SpecValue::Int(n as i64))],
        None => Seq::<(Seq<char>, SpecValue)>::empty(),
    };
    let c3 = seq![("email"@, SpecValue::Str(s.email))];
    let c4 = seq![("password"@, SpecValue::Str(s.password))];
    let tail2 = c2 + (c3 + c4);
    let tail3 = c3 + c4;
    assert(fields =~= c1 + tail2);
    assert(tail2 =~= c2 + tail3);

    assert(spec_obj_get(fields, "field_string"@) == Some(SpecValue::Str(s.field_string))) by {
        lemma_obj_get_in_prefix(c1, tail2, "field_string"@);
    }
    assert(spec_obj_get(fields, "field_option"@) == (match s.field_option {
        Some(n) => Some(SpecValue::Int(n as i64)),
        None => None::<SpecValue>,
    })) by {
        lemma_obj_get_skip_prefix(c1, tail2, "field_option"@);
        if s.field_option is Some {
            lemma_obj_get_in_prefix(c2, tail3, "field_option"@);
        } else {
            lemma_obj_get_skip_prefix(c2, tail3, "field_option"@);
            lemma_obj_get_skip_prefix(c3, c4, "field_option"@);
            lemma_obj_get_none(c4, "field_option"@);
        }
    }
    assert(spec_obj_get(fields, "email"@) == Some(SpecValue::Str(s.email))) by {
        lemma_obj_get_skip_prefix(c1, tail2, "email"@);
        lemma_obj_get_skip_prefix(c2, tail3, "email"@);
        lemma_obj_get_in_prefix(c3, c4, "email"@);
    }
    assert(spec_obj_get(fields, "password"@) == Some(SpecValue::Str(s.password))) by {
        lemma_obj_get_skip_prefix(c1, tail2, "password"@);
        lemma_obj_get_skip_prefix(c2, tail3, "password"@);
        lemma_obj_get_skip_prefix(c3, c4, "password"@);
    }

    if let Some(n) = s.field_option {
        assert(0 <= n as i64 <= u32::MAX);
        assert((n as i64) as u32 == n);
    }
}

/// Serializing an email address and re-validating it yields an equal
/// address.
pub proof fn lemma_email_round_trip(e: Seq<char>)
    ensures
        Email::spec_distill(Some(SpecValue::Str(e))) == Ok::<Seq<char>, SpecError>(e),
{
}

/// Serializing a password and re-validating it yields an equal password.
pub proof fn lemma_password_round_trip(p: Seq<char>)
    ensures
        PlainTextPassword::spec_distill(Some(SpecValue::Str(p))) == Ok::<Seq<char>, SpecError>(p),
{
}

} // verus!
