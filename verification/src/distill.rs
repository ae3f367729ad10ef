//! The coercion rules that turn an untyped [`Value`] into a typed result.
//!
//! Every rule is a pure function of its input: `None` stands for a field
//! that was absent from its containing object.  A rule either produces the
//! typed value or a report of every failure found within the value's
//! subtree, never both and never neither, and it never panics.

use vstd::prelude::*;

use crate::error::{error_items_view, lemma_error_items_view_index, spec_entry, Error, ErrorCode, SpecError};
use crate::value::{arr_view, lemma_arr_view_index, SpecValue, Value};

verus! {

/// The model of an optional value handed to a rule: `None` when the field
/// was absent.
pub open spec fn opt_view(v: Option<&Value>) -> Option<SpecValue> {
    match v {
        Some(x) => Some(x.deep_view()),
        None => None,
    }
}

/// The model of a rule's result.
pub open spec fn result_view<T: DeepView>(r: Result<T, Error>) -> Result<T::V, SpecError> {
    match r {
        Ok(t) => Ok(t.deep_view()),
        Err(e) => Err(e.deep_view()),
    }
}

/// A domain type with a coercion rule from an untyped [`Value`].
///
/// `spec_distill` is the rule itself, a mathematical function from the
/// model of the input to the model of the result; `distill_from` computes
/// it.  Two calls on equal inputs therefore produce structurally equal
/// results.
pub trait Distilled: Sized + DeepView {
    /// The rule: what this type's validation returns for every possible
    /// input, absent or present.
    spec fn spec_distill(v: Option<SpecValue>) -> Result<Self::V, SpecError>;

    /// Validates `v` against this type's rule.
    fn distill_from(v: Option<&Value>) -> (r: Result<Self, Error>)
        ensures
            result_view(r) == Self::spec_distill(opt_view(v)),
    ;
}

/// The required-string rule: absent is a missing field, a non-string is a
/// wrong type, and any string is accepted.
impl Distilled for String {
    open spec fn spec_distill(v: Option<SpecValue>) -> Result<Seq<char>, SpecError> {
        match v {
            None => Err(spec_entry(ErrorCode::MissingField)),
            Some(SpecValue::Str(s)) => Ok(s),
            Some(_) => Err(spec_entry(ErrorCode::WrongType)),
        }
    }

    fn distill_from(v: Option<&Value>) -> (r: Result<Self, Error>) {
        match v {
            None => Err(Error::entry(ErrorCode::MissingField)),
            Some(Value::Str(s)) => Ok(s.clone()),
            Some(_) => Err(Error::entry(ErrorCode::WrongType)),
        }
    }
}

/// The bounded-unsigned-integer rule: absent is a missing field; a value
/// that is not an integer, or an integer outside `0..=u32::MAX`, is a
/// wrong type; any other integer is accepted.
impl Distilled for u32 {
    open spec fn spec_distill(v: Option<SpecValue>) -> Result<u32, SpecError> {
        match v {
            None => Err(spec_entry(ErrorCode::MissingField)),
            Some(SpecValue::Int(n)) => if 0 <= n <= u32::MAX {
                Ok(n as u32)
            } else {
                Err(spec_entry(ErrorCode::WrongType))
            },
            Some(_) => Err(spec_entry(ErrorCode::WrongType)),
        }
    }

    fn distill_from(v: Option<&Value>) -> (r: Result<Self, Error>) {
        match v {
            None => Err(Error::entry(ErrorCode::MissingField)),
            Some(Value::Int(n)) => if 0 <= *n && *n <= u32::MAX as i64 {
                Ok(*n as u32)
            } else {
                Err(Error::entry(ErrorCode::WrongType))
            },
            Some(_) => Err(Error::entry(ErrorCode::WrongType)),
        }
    }
}

/// The optional rule: an absent field is a success with no value, and a
/// present field is delegated unchanged to the inner rule, so optionality
/// never suppresses a failure of a present value.
impl<T: Distilled> Distilled for Option<T> {
    open spec fn spec_distill(v: Option<SpecValue>) -> Result<Option<T::V>, SpecError> {
        match v {
            None => Ok(None),
            Some(sv) => match T::spec_distill(Some(sv)) {
                Ok(t) => Ok(Some(t)),
                Err(e) => Err(e),
            },
        }
    }

    fn distill_from(v: Option<&Value>) -> (r: Result<Self, Error>) {
        match v {
            None => Ok(None),
            Some(x) => match T::distill_from(Some(x)) {
                Ok(t) => Ok(Some(t)),
                Err(e) => Err(e),
            },
        }
    }
}

/// The entries of the failure report of a sequence: one per failed index,
/// in ascending order.
pub open spec fn spec_list_errors<T: Distilled>(items: Seq<SpecValue>) -> Seq<(int, SpecError)>
    decreases items.len(),
{
    if items.len() == 0 {
        Seq::empty()
    } else {
        spec_list_errors::<T>(items.drop_last()) + (match T::spec_distill(Some(items.last())) {
            Err(e) => seq![((items.len() - 1) as int, e)],
            Ok(_) => Seq::empty(),
        })
    }
}

/// The sequence rule: absent is a missing field and a non-array value is
/// a wrong type.  For an array, every element is validated against the
/// element rule; when all succeed the results are collected in order, and
/// otherwise the report holds exactly the failed indices, each with its
/// own sub-report.
impl<T: Distilled> Distilled for Vec<T> {
    open spec fn spec_distill(v: Option<SpecValue>) -> Result<Seq<T::V>, SpecError> {
        match v {
            None => Err(spec_entry(ErrorCode::MissingField)),
            Some(SpecValue::Arr(items)) => {
                if forall|i: int|
                    0 <= i < items.len() ==> #[trigger] T::spec_distill(Some(items[i])) is Ok {
                    Ok(Seq::new(items.len(), |i: int| T::spec_distill(Some(items[i]))->Ok_0))
                } else {
                    Err(SpecError::List(spec_list_errors::<T>(items)))
                }
            },
            Some(_) => Err(spec_entry(ErrorCode::WrongType)),
        }
    }

    fn distill_from(v: Option<&Value>) -> (r: Result<Self, Error>) {
        match v {
            None => Err(Error::entry(ErrorCode::MissingField)),
            Some(Value::Arr(items)) => {
                let ghost models: Seq<SpecValue> = arr_view(items@);
                proof {
                    lemma_arr_view_index(items@);
                }
                let mut oks: Vec<T> = Vec::new();
                let mut errors: Vec<(usize, Error)> = Vec::new();
                let mut i: usize = 0;
                while i < items.len()
                    invariant
                        i <= items@.len(),
                        models == arr_view(items@),
                        models.len() == items@.len(),
                        forall|j: int| 0 <= j < models.len() ==> models[j] == items@[j].deep_view(),
                        error_items_view(errors@) == spec_list_errors::<T>(
                            models.take(i as int),
                        ),
                        errors@.len() == 0 <==> (forall|j: int|
                            0 <= j < i ==> #[trigger] T::spec_distill(Some(models[j])) is Ok),
                        errors@.len() == 0 ==> oks@.len() == i,
                        errors@.len() == 0 ==> (forall|j: int|
                            0 <= j < i ==> #[trigger] oks@[j].deep_view() == T::spec_distill(
                                Some(models[j]),
                            )->Ok_0),
                    decreases items@.len() - i,
                {
                    proof {
                        assert(models.take(i as int + 1).drop_last() =~= models.take(i as int));
                        assert(models.take(i as int + 1).last() == models[i as int]);
                    }
                    match T::distill_from(Some(&items[i])) {
                        Ok(t) => {
                            oks.push(t);
                        },
                        Err(e) => {
                            let ghost old_errors = errors@;
                            errors.push((i, e));
                            proof {
                                assert(errors@ =~= old_errors.push((i, e)));
                                assert(error_items_view(errors@)
                                    =~= error_items_view(old_errors) + seq![
                                    (i as int, e.deep_view()),
                                ]) by {
                                    lemma_error_items_view_index(errors@);
                                    lemma_error_items_view_index(old_errors);
                                }
                            }
                        },
                    }
                    i = i + 1;
                }
                proof {
                    assert(models.take(i as int) =~= models);
                }
                if errors.len() == 0 {
                    proof {
                        assert(oks.deep_view() =~= Seq::new(
                            models.len(),
                            |j: int| T::spec_distill(Some(models[j]))->Ok_0,
                        ));
                    }
                    Ok(oks)
                } else {
                    Err(Error::List(errors))
                }
            },
            Some(_) => Err(Error::entry(ErrorCode::WrongType)),
        }
    }
}

} // verus!
