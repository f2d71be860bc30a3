//! Checks an attachment value against a schema type.
use vstd::prelude::*;

use crate::arbittach::{
    data::{value_type_name, Value},
    error::TypeError,
    schema::{schema_type_name, ValueType},
};

verus! {

/// The content of a type error.
pub enum TypeErrorView {
    UnsupportedType,
    LengthMismatch { expected: nat, found: nat },
    TypeMismatch { expected: Seq<char>, found: Seq<char> },
}

pub open spec fn type_error_view(e: TypeError) -> TypeErrorView {
    match e {
        TypeError::UnsupportedType => TypeErrorView::UnsupportedType,
        TypeError::LengthMismatch { expected, found } => TypeErrorView::LengthMismatch {
            expected: expected as nat,
            found: found as nat,
        },
        TypeError::TypeMismatch { expected, found } => TypeErrorView::TypeMismatch {
            expected: expected@,
            found: found@,
        },
    }
}

/// The first error of checking `value` against `value_type`, or `None` if it has the type.
///
/// `OneOf` asks the value to have every listed type, and reports the first one it lacks;
/// a list or tuple reports the first element that fails; `Map` is not supported.
pub open spec fn check(value: Value, value_type: ValueType) -> Option<TypeErrorView>
    decreases value_type, 0nat,
{
    match (value_type, value) {
        (ValueType::Any, _) => None,
        (ValueType::OneOf(types), v) => check_all_types(v, types@),
        (ValueType::List(t), Value::List(values)) => check_all_values(values@, *t),
        (ValueType::Tuple(types), Value::Tuple(values)) => if types@.len() != values@.len() {
            Some(
                TypeErrorView::LengthMismatch {
                    expected: types@.len(),
                    found: values@.len(),
                },
            )
        } else {
            check_pairs(values@, types@)
        },
        (ValueType::Dictionary(_, _), _) => Some(TypeErrorView::UnsupportedType),
        (ValueType::Null, Value::Null) => None,
        (ValueType::Boolean, Value::Boolean(_)) => None,
        (ValueType::Integer, Value::Integer(_)) => None,
        (ValueType::Float, Value::Float(_)) => None,
        (ValueType::String, Value::String(_)) => None,
        (ValueType::Vector(length), Value::Vector(values)) => if length != values@.len() {
            Some(TypeErrorView::LengthMismatch { expected: length as nat, found: values@.len() })
        } else {
            None
        },
        (ValueType::GameObject, Value::GameObject(_)) => None,
        (ValueType::Material, Value::Material(_)) => None,
        (ValueType::AnimationClip, Value::AnimationClip(_)) => None,
        (t, v) => Some(
            TypeErrorView::TypeMismatch { expected: schema_type_name(t), found: value_type_name(v) },
        ),
    }
}

/// The first error of checking one value against each type in order.
pub open spec fn check_all_types(value: Value, types: Seq<ValueType>) -> Option<TypeErrorView>
    decreases types, 0nat,
{
    if types.len() == 0 {
        None
    } else {
        match check(value, types[0]) {
            Some(e) => Some(e),
            None => check_all_types(value, types.drop_first()),
        }
    }
}

/// The first error of checking each value in order against one type.
pub open spec fn check_all_values(values: Seq<Value>, value_type: ValueType) -> Option<
    TypeErrorView,
>
    decreases value_type, values.len() + 1,
{
    if values.len() == 0 {
        None
    } else {
        match check(values[0], value_type) {
            Some(e) => Some(e),
            None => check_all_values(values.drop_first(), value_type),
        }
    }
}

/// The first error of checking values against types pairwise, in order.
pub open spec fn check_pairs(values: Seq<Value>, types: Seq<ValueType>) -> Option<TypeErrorView>
    decreases types, 0nat,
{
    if types.len() == 0 || values.len() == 0 {
        None
    } else {
        match check(values[0], types[0]) {
            Some(e) => Some(e),
            None => check_pairs(values.drop_first(), types.drop_first()),
        }
    }
}

/// Checks `value` against `value_type`; `Ok` exactly when the spec finds no error,
/// and otherwise the first error it finds.
pub fn validate_type(value: &Value, value_type: &ValueType) -> (r: Result<(), TypeError>)
    ensures
        match check(*value, *value_type) {
            None => r is Ok,
            Some(e) => r is Err && type_error_view(r->Err_0) == e,
        },
    decreases value_type,
{
    match (value_type, value) {
        (ValueType::Any, _) => Ok(()),
        (ValueType::OneOf(types), v) => {
            let mut i: usize = 0;
            proof {
                assert(types@.subrange(0, types@.len() as int) =~= types@);
            }
            while i < types.len()
                invariant
                    i <= types@.len(),
                    *value_type == ValueType::OneOf(*types),
                    *v == *value,
                    check(*v, *value_type) == check_all_types(
                        *v,
                        types@.subrange(i as int, types@.len() as int),
                    ),
                decreases types@.len() - i,
            {
                let ghost rest = types@.subrange(i as int, types@.len() as int);
                proof {
                    assert(rest[0] == types@[i as int]);
                    assert(rest.drop_first() =~= types@.subrange(i + 1, types@.len() as int));
                    assert(decreases_to!(*value_type => types@[i as int]));
                }
                match validate_type(v, &types[i]) {
                    Ok(()) => {},
                    Err(e) => {
                        proof {
                            assert(check(*v, rest[0]) is Some);
                            assert(check_all_types(*v, rest) == check(*v, rest[0]));
                        }
                        return Err(e);
                    },
                }
                i = i + 1;
            }
            Ok(())
        },
        (ValueType::List(t), Value::List(values)) => {
            let mut i: usize = 0;
            proof {
                assert(values@.subrange(0, values@.len() as int) =~= values@);
            }
            while i < values.len()
                invariant
                    i <= values@.len(),
                    *value_type == ValueType::List(*t),
                    *value == Value::List(*values),
                    check(*value, *value_type) == check_all_values(
                        values@.subrange(i as int, values@.len() as int),
                        **t,
                    ),
                decreases values@.len() - i,
            {
                let ghost rest = values@.subrange(i as int, values@.len() as int);
                proof {
                    assert(rest[0] == values@[i as int]);
                    assert(rest.drop_first() =~= values@.subrange(i + 1, values@.len() as int));
                    assert(decreases_to!(*value_type => **t));
                }
                match validate_type(&values[i], t) {
                    Ok(()) => {},
                    Err(e) => {
                        return Err(e);
                    },
                }
                i = i + 1;
            }
            Ok(())
        },
        (ValueType::Tuple(types), Value::Tuple(values)) => {
            if types.len() != values.len() {
                return Err(TypeError::LengthMismatch { found: values.len(), expected: types.len() });
            }
            let mut i: usize = 0;
            proof {
                assert(values@.subrange(0, values@.len() as int) =~= values@);
                assert(types@.subrange(0, types@.len() as int) =~= types@);
            }
            while i < types.len()
                invariant
                    i <= types@.len(),
                    types@.len() == values@.len(),
                    *value_type == ValueType::Tuple(*types),
                    *value == Value::Tuple(*values),
                    check(*value, *value_type) == check_pairs(
                        values@.subrange(i as int, values@.len() as int),
                        types@.subrange(i as int, types@.len() as int),
                    ),
                decreases types@.len() - i,
            {
                let ghost rest_v = values@.subrange(i as int, values@.len() as int);
                let ghost rest_t = types@.subrange(i as int, types@.len() as int);
                proof {
                    assert(rest_v[0] == values@[i as int]);
                    assert(rest_t[0] == types@[i as int]);
                    assert(rest_v.drop_first() =~= values@.subrange(i + 1, values@.len() as int));
                    assert(rest_t.drop_first() =~= types@.subrange(i + 1, types@.len() as int));
                    assert(decreases_to!(*value_type => types@[i as int]));
                }
                match validate_type(&values[i], &types[i]) {
                    Ok(()) => {},
                    Err(e) => {
                        return Err(e);
                    },
                }
                i = i + 1;
            }
            Ok(())
        },
        (ValueType::Dictionary(_kt, _vt), _) => Err(TypeError::UnsupportedType),
        (ValueType::Null, Value::Null) => Ok(()),
        (ValueType::Boolean, Value::Boolean(_)) => Ok(()),
        (ValueType::Integer, Value::Integer(_)) => Ok(()),
        (ValueType::Float, Value::Float(_)) => Ok(()),
        (ValueType::String, Value::String(_)) => Ok(()),
        (ValueType::Vector(length), Value::Vector(values)) => {
            if *length != values.len() {
                Err(TypeError::LengthMismatch { found: values.len(), expected: *length })
            } else {
                Ok(())
            }
        },
        (ValueType::GameObject, Value::GameObject(_)) => Ok(()),
        (ValueType::Material, Value::Material(_)) => Ok(()),
        (ValueType::AnimationClip, Value::AnimationClip(_)) => Ok(()),
        (t, v) => Err(
            TypeError::TypeMismatch {
                found: String::from_str(v.kind_name()),
                expected: String::from_str(t.name()),
            },
        ),
    }
}

/// A value that passes the check keeps passing against `Any` and against a `OneOf` of its own type.
pub proof fn lemma_any_accepts_everything(value: Value)
    ensures
        check(value, ValueType::Any) is None,
{
}

} // verus!
