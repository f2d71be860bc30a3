//! Compiles attachments: each declared value is checked against the type its schema asks for.
use vstd::prelude::*;

use crate::arbittach::data::{Attachment, Property, Value};
use crate::arbittach::validator::{check, check_all_values, check_pairs};
use crate::arbittach::schema::{
    schema_type_name, Attachment as AttachmentSchema, Parameter as ParameterSchema,
    Property as PropertySchema, ValueType,
};
use crate::avatar_v2::data::attachment::AttachmentGroup;
use crate::avatar_v2::transformer::parameter::block_context;
use crate::lookup::{first_match, lemma_first_match_absent, lemma_first_match_found, lemma_first_match_properties};
use crate::text::{concat2, usize_to_decimal};
use crate::avatar_v2::logger::{
    length_mismatch_text, type_mismatch_text, ArbittachError, Log, LogView, Logger,
};
use crate::avatar_v2::transformer::{failure, success, Compiled};
use crate::decl_v2::data::{
    DeclAttachment, DeclAttachmentGroup, DeclAttachmentProperty, DeclAttachmentValue, DeclAttachments,
};

verus! {

/// A value with its strings and lists as sequences.
pub enum ValueView {
    Null,
    List(Seq<ValueView>),
    Tuple(Seq<ValueView>),
    Boolean(bool),
    Integer(i64),
    Float(u64),
    String(Seq<char>),
    Vector(Seq<u64>),
    GameObject(Seq<char>),
    Material(Seq<char>),
    AnimationClip(Seq<char>),
}

pub open spec fn value_view(v: Value) -> ValueView
    decreases v,
{
    match v {
        Value::Null => ValueView::Null,
        Value::List(items) => ValueView::List(values_view(items@)),
        Value::Tuple(items) => ValueView::Tuple(values_view(items@)),
        Value::Boolean(b) => ValueView::Boolean(b),
        Value::Integer(i) => ValueView::Integer(i),
        Value::Float(f) => ValueView::Float(f),
        Value::String(s) => ValueView::String(s@),
        Value::Vector(c) => ValueView::Vector(c@),
        Value::GameObject(s) => ValueView::GameObject(s@),
        Value::Material(s) => ValueView::Material(s@),
        Value::AnimationClip(s) => ValueView::AnimationClip(s@),
    }
}

pub open spec fn values_view(vs: Seq<Value>) -> Seq<ValueView>
    decreases vs,
{
    if vs.len() == 0 {
        Seq::empty()
    } else {
        seq![value_view(vs[0])] + values_view(vs.drop_first())
    }
}

pub type ValueOutcome = (Option<ValueView>, Seq<LogView>);

pub open spec fn log_in(logs: Seq<LogView>, contexts: Seq<Seq<char>>, text: Seq<char>) -> Seq<LogView> {
    logs.push((text, contexts))
}

/// A scalar value where `ty` admits it (itself or any), or a type mismatch.
pub open spec fn scalar_spec(
    ty: ValueType,
    admitted: bool,
    v: ValueView,
    logs: Seq<LogView>,
    contexts: Seq<Seq<char>>,
) -> ValueOutcome {
    if admitted || ty is Any {
        (Some(v), logs)
    } else {
        (
            None,
            log_in(
                logs,
                contexts,
                type_mismatch_text(schema_type_name(ty), "unexpected type value"@),
            ),
        )
    }
}

/// How a declared value compiles against the type a schema asks for. Scalars must match
/// the type (or any); a vector must have the asked length; a list becomes a list of any
/// values (keeping the items that compile), a typed list (failing at the first item that
/// fails), or a tuple of the asked length (likewise).
pub open spec fn value_spec(
    ty: ValueType,
    d: DeclAttachmentValue,
    logs: Seq<LogView>,
    contexts: Seq<Seq<char>>,
) -> ValueOutcome
    decreases d,
{
    match d {
        DeclAttachmentValue::Null => scalar_spec(ty, ty is Null, ValueView::Null, logs, contexts),
        DeclAttachmentValue::Boolean(b) => scalar_spec(
            ty,
            ty is Boolean,
            ValueView::Boolean(b),
            logs,
            contexts,
        ),
        DeclAttachmentValue::Integer(i) => scalar_spec(
            ty,
            ty is Integer,
            ValueView::Integer(i),
            logs,
            contexts,
        ),
        DeclAttachmentValue::Float(f) => scalar_spec(
            ty,
            ty is Float,
            ValueView::Float(f),
            logs,
            contexts,
        ),
        DeclAttachmentValue::String(s) => scalar_spec(
            ty,
            ty is String,
            ValueView::String(s@),
            logs,
            contexts,
        ),
        DeclAttachmentValue::GameObject(s) => scalar_spec(
            ty,
            ty is GameObject,
            ValueView::GameObject(s@),
            logs,
            contexts,
        ),
        DeclAttachmentValue::Material(s) => scalar_spec(
            ty,
            ty is Material,
            ValueView::Material(s@),
            logs,
            contexts,
        ),
        DeclAttachmentValue::AnimationClip(s) => scalar_spec(
            ty,
            ty is AnimationClip,
            ValueView::AnimationClip(s@),
            logs,
            contexts,
        ),
        DeclAttachmentValue::Vector(values) => match ty {
            ValueType::Vector(length) => if length == values@.len() {
                (Some(ValueView::Vector(values@)), logs)
            } else {
                (
                    None,
                    log_in(
                        logs,
                        contexts,
                        length_mismatch_text(length as nat, values@.len()),
                    ),
                )
            },
            ValueType::Any => (Some(ValueView::Vector(values@)), logs),
            _ => (
                None,
                log_in(logs, contexts, type_mismatch_text(schema_type_name(ty), "vector"@)),
            ),
        },
        DeclAttachmentValue::UntypedList(items) => match ty {
            ValueType::Any => {
                let (vs, l) = any_items_spec(items@, logs, contexts);
                (Some(ValueView::List(vs)), l)
            },
            ValueType::List(item_type) => {
                let (o, l) = typed_items_spec(*item_type, items@, logs, contexts);
                match o {
                    Some(vs) => (Some(ValueView::List(vs)), l),
                    None => (None, l),
                }
            },
            ValueType::Tuple(item_types) => if items@.len() != item_types@.len() {
                (
                    None,
                    log_in(
                        logs,
                        contexts,
                        length_mismatch_text(item_types@.len(), items@.len()),
                    ),
                )
            } else {
                let (o, l) = tuple_items_spec(item_types@, items@, logs, contexts);
                match o {
                    Some(vs) => (Some(ValueView::Tuple(vs)), l),
                    None => (None, l),
                }
            },
            _ => (None, log_in(logs, contexts, type_mismatch_text(schema_type_name(ty), "list"@))),
        },
    }
}

/// Items compiled as any values; those that fail are left out.
pub open spec fn any_items_spec(
    items: Seq<DeclAttachmentValue>,
    logs: Seq<LogView>,
    contexts: Seq<Seq<char>>,
) -> (Seq<ValueView>, Seq<LogView>)
    decreases items,
{
    if items.len() == 0 {
        (Seq::empty(), logs)
    } else {
        let (o, l) = value_spec(ValueType::Any, items[0], logs, contexts);
        let (rest, l2) = any_items_spec(items.drop_first(), l, contexts);
        (option_prepend(o, rest), l2)
    }
}

pub open spec fn option_prepend<T>(o: Option<T>, rest: Seq<T>) -> Seq<T> {
    match o {
        Some(v) => seq![v] + rest,
        None => rest,
    }
}

/// Items compiled against one type; the first that fails fails them all.
pub open spec fn typed_items_spec(
    ty: ValueType,
    items: Seq<DeclAttachmentValue>,
    logs: Seq<LogView>,
    contexts: Seq<Seq<char>>,
) -> (Option<Seq<ValueView>>, Seq<LogView>)
    decreases items,
{
    if items.len() == 0 {
        (Some(Seq::empty()), logs)
    } else {
        let (o, l) = value_spec(ty, items[0], logs, contexts);
        match o {
            None => (None, l),
            Some(v) => {
                let (rest, l2) = typed_items_spec(ty, items.drop_first(), l, contexts);
                match rest {
                    Some(vs) => (Some(seq![v] + vs), l2),
                    None => (None, l2),
                }
            },
        }
    }
}

/// Items compiled against types pairwise; the first that fails fails them all.
pub open spec fn tuple_items_spec(
    types: Seq<ValueType>,
    items: Seq<DeclAttachmentValue>,
    logs: Seq<LogView>,
    contexts: Seq<Seq<char>>,
) -> (Option<Seq<ValueView>>, Seq<LogView>)
    decreases items,
{
    if items.len() == 0 || types.len() == 0 {
        (Some(Seq::empty()), logs)
    } else {
        let (o, l) = value_spec(types[0], items[0], logs, contexts);
        match o {
            None => (None, l),
            Some(v) => {
                let (rest, l2) = tuple_items_spec(types.drop_first(), items.drop_first(), l, contexts);
                match rest {
                    Some(vs) => (Some(seq![v] + vs), l2),
                    None => (None, l2),
                }
            },
        }
    }
}

proof fn lemma_values_view_prepend(v: Value, rest: Seq<Value>)
    ensures
        values_view(seq![v] + rest) == seq![value_view(v)] + values_view(rest),
{
    assert((seq![v] + rest).drop_first() =~= rest);
    assert((seq![v] + rest)[0] == v);
}

fn prepend_value(v: Value, rest: Vec<Value>) -> (r: Vec<Value>)
    ensures
        values_view(r@) == seq![value_view(v)] + values_view(rest@),
{
    let ghost rest_view = rest@;
    let mut r: Vec<Value> = Vec::new();
    r.push(v);
    let mut rest = rest;
    r.append(&mut rest);
    proof {
        assert(r@ =~= seq![v] + rest_view);
        lemma_values_view_prepend(v, rest_view);
    }
    r
}

fn type_mismatch(logger: &mut Logger, expected_type: &ValueType, found: &str)
    requires
        old(logger).wf(),
    ensures
        final(logger).wf(),
        final(logger).open_contexts() == old(logger).open_contexts(),
        final(logger).log_view() == log_in(
            old(logger).log_view(),
            old(logger).open_contexts(),
            type_mismatch_text(schema_type_name(*expected_type), found@),
        ),
{
    logger.log(
        Log::Arbittach(
            ArbittachError::TypeMismatch {
                expected: expected_type.name().to_owned(),
                found: found.to_owned(),
            },
        ),
    );
}

fn length_mismatch(logger: &mut Logger, expected: usize, found: usize)
    requires
        old(logger).wf(),
    ensures
        final(logger).wf(),
        final(logger).open_contexts() == old(logger).open_contexts(),
        final(logger).log_view() == log_in(
            old(logger).log_view(),
            old(logger).open_contexts(),
            length_mismatch_text(expected as nat, found as nat),
        ),
{
    logger.log(Log::Arbittach(ArbittachError::LengthMismatch { expected, found }));
}

/// Compiles a declared value against the type a schema asks for (see `value_spec`).
pub fn compile_value(logger: &mut Logger, expected_type: &ValueType, decl_value: DeclAttachmentValue) -> (r:
    Compiled<Value>)
    requires
        old(logger).wf(),
    ensures
        final(logger).wf(),
        final(logger).open_contexts() == old(logger).open_contexts(),
        ({
            let (o, logs) = value_spec(
                *expected_type,
                decl_value,
                old(logger).log_view(),
                old(logger).open_contexts(),
            );
            &&& final(logger).log_view() == logs
            &&& match o {
                Some(v) => r matches Some(x) && value_view(x) == v,
                None => r is None,
            }
        }),
    decreases decl_value,
{
    let ghost d = decl_value;
    let value = match decl_value {
        DeclAttachmentValue::Null => match expected_type {
            ValueType::Null | ValueType::Any => Value::Null,
            _ => {
                type_mismatch(logger, expected_type, "unexpected type value");
                return failure();
            },
        },
        DeclAttachmentValue::Boolean(v) => match expected_type {
            ValueType::Boolean | ValueType::Any => Value::Boolean(v),
            _ => {
                type_mismatch(logger, expected_type, "unexpected type value");
                return failure();
            },
        },
        DeclAttachmentValue::Integer(v) => match expected_type {
            ValueType::Integer | ValueType::Any => Value::Integer(v),
            _ => {
                type_mismatch(logger, expected_type, "unexpected type value");
                return failure();
            },
        },
        DeclAttachmentValue::Float(v) => match expected_type {
            ValueType::Float | ValueType::Any => Value::Float(v),
            _ => {
                type_mismatch(logger, expected_type, "unexpected type value");
                return failure();
            },
        },
        DeclAttachmentValue::String(v) => match expected_type {
            ValueType::String | ValueType::Any => Value::String(v),
            _ => {
                type_mismatch(logger, expected_type, "unexpected type value");
                return failure();
            },
        },
        DeclAttachmentValue::GameObject(v) => match expected_type {
            ValueType::GameObject | ValueType::Any => Value::GameObject(v),
            _ => {
                type_mismatch(logger, expected_type, "unexpected type value");
                return failure();
            },
        },
        DeclAttachmentValue::Material(v) => match expected_type {
            ValueType::Material | ValueType::Any => Value::Material(v),
            _ => {
                type_mismatch(logger, expected_type, "unexpected type value");
                return failure();
            },
        },
        DeclAttachmentValue::AnimationClip(v) => match expected_type {
            ValueType::AnimationClip | ValueType::Any => Value::AnimationClip(v),
            _ => {
                type_mismatch(logger, expected_type, "unexpected type value");
                return failure();
            },
        },
        DeclAttachmentValue::Vector(values) => match expected_type {
            ValueType::Vector(length) => {
                if *length == values.len() {
                    Value::Vector(values)
                } else {
                    length_mismatch(logger, *length, values.len());
                    return failure();
                }
            },
            ValueType::Any => Value::Vector(values),
            _ => {
                type_mismatch(logger, expected_type, "vector");
                return failure();
            },
        },
        DeclAttachmentValue::UntypedList(untyped_list) => match expected_type {
            ValueType::Any => {
                let any_values = compile_any_items(logger, untyped_list);
                Value::List(any_values)
            },
            ValueType::List(item_type) => {
                match compile_typed_items(logger, &**item_type, untyped_list) {
                    Some(typed_values) => Value::List(typed_values),
                    None => {
                        return failure();
                    },
                }
            },
            ValueType::Tuple(item_types) => {
                if untyped_list.len() != item_types.len() {
                    length_mismatch(logger, item_types.len(), untyped_list.len());
                    return failure();
                }
                proof {
                    assert(item_types@.subrange(0, item_types@.len() as int) =~= item_types@);
                }
                match compile_tuple_items(logger, item_types, 0, untyped_list) {
                    Some(typed_values) => Value::Tuple(typed_values),
                    None => {
                        return failure();
                    },
                }
            },
            _ => {
                type_mismatch(logger, expected_type, "list");
                return failure();
            },
        },
    };
    success(value)
}

/// Compiles items as any values, keeping those that compile.
pub fn compile_any_items(logger: &mut Logger, items: Vec<DeclAttachmentValue>) -> (r: Vec<Value>)
    requires
        old(logger).wf(),
    ensures
        final(logger).wf(),
        final(logger).open_contexts() == old(logger).open_contexts(),
        ({
            let (vs, logs) = any_items_spec(items@, old(logger).log_view(), old(logger).open_contexts());
            values_view(r@) == vs && final(logger).log_view() == logs
        }),
    decreases items@,
{
    if items.len() == 0 {
        return Vec::new();
    }
    let ghost all = items@;
    let mut items = items;
    let first = items.remove(0);
    proof {
        assert(items@ =~= all.drop_first());
        assert(first == all[0]);
    }
    let o = compile_value(logger, &ValueType::Any, first);
    let rest = compile_any_items(logger, items);
    match o {
        Some(v) => prepend_value(v, rest),
        None => rest,
    }
}

/// Compiles items against one type; fails at the first item that fails.
pub fn compile_typed_items(logger: &mut Logger, item_type: &ValueType, items: Vec<DeclAttachmentValue>) -> (r:
    Option<Vec<Value>>)
    requires
        old(logger).wf(),
    ensures
        final(logger).wf(),
        final(logger).open_contexts() == old(logger).open_contexts(),
        ({
            let (o, logs) = typed_items_spec(
                *item_type,
                items@,
                old(logger).log_view(),
                old(logger).open_contexts(),
            );
            &&& final(logger).log_view() == logs
            &&& match o {
                Some(vs) => r matches Some(x) && values_view(x@) == vs,
                None => r is None,
            }
        }),
    decreases items@,
{
    if items.len() == 0 {
        return Some(Vec::new());
    }
    let ghost all = items@;
    let mut items = items;
    let first = items.remove(0);
    proof {
        assert(items@ =~= all.drop_first());
        assert(first == all[0]);
    }
    let v = match compile_value(logger, item_type, first) {
        Some(v) => v,
        None => {
            return None;
        },
    };
    match compile_typed_items(logger, item_type, items) {
        Some(rest) => Some(prepend_value(v, rest)),
        None => None,
    }
}

/// Compiles items against the types from `start` on, pairwise; fails at the first item
/// that fails.
pub fn compile_tuple_items(
    logger: &mut Logger,
    types: &Vec<ValueType>,
    start: usize,
    items: Vec<DeclAttachmentValue>,
) -> (r: Option<Vec<Value>>)
    requires
        old(logger).wf(),
        start <= types@.len(),
    ensures
        final(logger).wf(),
        final(logger).open_contexts() == old(logger).open_contexts(),
        ({
            let (o, logs) = tuple_items_spec(
                types@.subrange(start as int, types@.len() as int),
                items@,
                old(logger).log_view(),
                old(logger).open_contexts(),
            );
            &&& final(logger).log_view() == logs
            &&& match o {
                Some(vs) => r matches Some(x) && values_view(x@) == vs,
                None => r is None,
            }
        }),
    decreases items@,
{
    let ghost tys = types@.subrange(start as int, types@.len() as int);
    if items.len() == 0 || start == types.len() {
        return Some(Vec::new());
    }
    let ghost all = items@;
    let mut items = items;
    let first = items.remove(0);
    proof {
        assert(items@ =~= all.drop_first());
        assert(first == all[0]);
        assert(tys[0] == types@[start as int]);
        assert(tys.drop_first() =~= types@.subrange(start + 1, types@.len() as int));
    }
    let v = match compile_value(logger, &types[start], first) {
        Some(v) => v,
        None => {
            return None;
        },
    };
    match compile_tuple_items(logger, types, start + 1, items) {
        Some(rest) => Some(prepend_value(v, rest)),
        None => None,
    }
}

/// Items compiled against the types pairwise, keeping those that compile; items or types
/// beyond the shorter of the two are ignored.
pub open spec fn paired_items_spec(
    types: Seq<ValueType>,
    items: Seq<DeclAttachmentValue>,
    logs: Seq<LogView>,
    contexts: Seq<Seq<char>>,
) -> (Seq<ValueView>, Seq<LogView>)
    decreases items,
{
    if items.len() == 0 || types.len() == 0 {
        (Seq::empty(), logs)
    } else {
        let (o, l) = value_spec(types[0], items[0], logs, contexts);
        let (rest, l2) = paired_items_spec(types.drop_first(), items.drop_first(), l, contexts);
        (option_prepend(o, rest), l2)
    }
}

pub open spec fn parameter_types(params: Seq<ParameterSchema>) -> Seq<ValueType> {
    params.map_values(|p: ParameterSchema| p.value_type)
}

/// A property as its name and the values of its parameters.
pub type PropertyView = (Seq<char>, Seq<ValueView>);

pub open spec fn property_view(p: Property) -> PropertyView {
    (p.name@, values_view(p.parameters@))
}

/// How a property compiles: inside "property NAME", a count that differs from the schema's
/// is reported, and then the values are compiled against the schema's types pairwise.
pub open spec fn property_spec(
    schema: PropertySchema,
    d: DeclAttachmentProperty,
    logs: Seq<LogView>,
    contexts: Seq<Seq<char>>,
) -> (PropertyView, Seq<LogView>) {
    let inner = contexts.push("property "@ + d.name@);
    let l0 = if schema.parameters@.len() != d.parameters@.len() {
        log_in(logs, inner, length_mismatch_text(schema.parameters@.len(), d.parameters@.len()))
    } else {
        logs
    };
    let (vs, l) = paired_items_spec(parameter_types(schema.parameters@), d.parameters@, l0, inner);
    ((d.name@, vs), l)
}

fn compile_paired_items(
    logger: &mut Logger,
    params: &Vec<ParameterSchema>,
    start: usize,
    items: Vec<DeclAttachmentValue>,
) -> (r: Vec<Value>)
    requires
        old(logger).wf(),
        start <= params@.len(),
    ensures
        final(logger).wf(),
        final(logger).open_contexts() == old(logger).open_contexts(),
        ({
            let (vs, logs) = paired_items_spec(
                parameter_types(params@).subrange(start as int, params@.len() as int),
                items@,
                old(logger).log_view(),
                old(logger).open_contexts(),
            );
            values_view(r@) == vs && final(logger).log_view() == logs
        }),
    decreases items@,
{
    let ghost tys = parameter_types(params@).subrange(start as int, params@.len() as int);
    if items.len() == 0 || start == params.len() {
        return Vec::new();
    }
    let ghost all = items@;
    let mut items = items;
    let first = items.remove(0);
    proof {
        assert(items@ =~= all.drop_first());
        assert(first == all[0]);
        assert(tys[0] == params@[start as int].value_type);
        assert(tys.drop_first() =~= parameter_types(params@).subrange(
            start + 1,
            params@.len() as int,
        ));
    }
    let o = compile_value(logger, &params[start].value_type, first);
    let rest = compile_paired_items(logger, params, start + 1, items);
    match o {
        Some(v) => prepend_value(v, rest),
        None => rest,
    }
}

/// Compiles a property against its schema; it always yields a property, with the values that compile.
pub fn compile_property(
    logger: &mut Logger,
    property_schema: &PropertySchema,
    decl_property: DeclAttachmentProperty,
) -> (r: Compiled<Property>)
    requires
        old(logger).wf(),
    ensures
        final(logger).wf(),
        final(logger).open_contexts() == old(logger).open_contexts(),
        ({
            let (v, logs) = property_spec(
                *property_schema,
                decl_property,
                old(logger).log_view(),
                old(logger).open_contexts(),
            );
            &&& r matches Some(p) && property_view(p) == v && p.keywords@.len() == 0
            &&& final(logger).log_view() == logs
        }),
{
    let ghost d = decl_property;
    let ghost outer = logger.open_contexts();
    let context = concat2("property ", decl_property.name.as_str());
    logger.push_context(context);
    if property_schema.parameters.len() != decl_property.parameters.len() {
        length_mismatch(logger, property_schema.parameters.len(), decl_property.parameters.len());
    }
    proof {
        assert(parameter_types(property_schema.parameters@).subrange(
            0,
            property_schema.parameters@.len() as int,
        ) =~= parameter_types(property_schema.parameters@));
    }
    let parameters = compile_paired_items(logger, &property_schema.parameters, 0, decl_property.parameters);
    logger.pop_context();
    proof {
        assert(logger.open_contexts() =~= outer);
    }
    success(Property { name: decl_property.name, parameters, keywords: Vec::new() })
}

pub open spec fn named_property(props: Seq<PropertySchema>, name: Seq<char>) -> spec_fn(usize) -> bool {
    |i: usize| 0 <= i < props.len() && props[i as int].name@ == name
}

/// The properties of a schema that are not set yet, as indices, one for each name: where a
/// name occurs twice, the later property stands in the place of the earlier.
pub open spec fn initial_unset(props: Seq<PropertySchema>, acc: Seq<usize>, i: int) -> Seq<usize>
    decreases props.len() - i,
{
    if i >= props.len() || i < 0 {
        acc
    } else {
        match first_match(acc, named_property(props, props[i].name@)) {
            Some(j) => initial_unset(props, acc.update(j, i as usize), i + 1),
            None => initial_unset(props, acc.push(i as usize), i + 1),
        }
    }
}

pub open spec fn all_in_range(props: Seq<PropertySchema>, unset: Seq<usize>) -> bool {
    forall|j: int| 0 <= j < unset.len() ==> (#[trigger] unset[j]) < props.len()
}

pub type AttachmentAcc = (Seq<usize>, Seq<PropertyView>, Seq<LogView>);

pub open spec fn unknown_property_text(name: Seq<char>) -> Seq<char> {
    "unknown property '"@ + name + "'"@
}

/// How the declared properties compile one after another: a name that the schema does not
/// leave unset is reported as unknown; otherwise the property is no longer unset and compiles
/// against its schema.
pub open spec fn properties_fold(
    props: Seq<PropertySchema>,
    contexts: Seq<Seq<char>>,
    acc: AttachmentAcc,
    decls: Seq<DeclAttachmentProperty>,
) -> AttachmentAcc
    decreases decls.len(),
{
    if decls.len() == 0 {
        acc
    } else {
        let d = decls[0];
        let next = match first_match(acc.0, named_property(props, d.name@)) {
            None => (acc.0, acc.1, log_in(acc.2, contexts, unknown_property_text(d.name@))),
            Some(j) => {
                let (pv, l) = property_spec(props[acc.0[j] as int], d, acc.2, contexts);
                (acc.0.remove(j), acc.1.push(pv), l)
            },
        };
        properties_fold(props, contexts, next, decls.drop_first())
    }
}

/// The names of the required properties among those left unset, in order.
pub open spec fn unmet_names(props: Seq<PropertySchema>, unset: Seq<usize>) -> Seq<Seq<char>>
    decreases unset.len(),
{
    if unset.len() == 0 {
        Seq::empty()
    } else {
        let rest = unmet_names(props, unset.drop_last());
        let p = props[unset.last() as int];
        if p.required {
            rest.push(p.name@)
        } else {
            rest
        }
    }
}

/// Whether the unset indices lie in the schema and name distinct properties.
pub open spec fn unset_distinct(props: Seq<PropertySchema>, unset: Seq<usize>) -> bool {
    &&& all_in_range(props, unset)
    &&& forall|j1: int, j2: int|
        0 <= j1 < j2 < unset.len() ==> props[#[trigger] unset[j1] as int].name@ != props[#[trigger] unset[j2] as int].name@
}

/// Whether the compiled properties have distinct names, none of them still unset, each the
/// name of a property of the schema.
pub open spec fn compiled_distinct(props: Seq<PropertySchema>, unset: Seq<usize>, compiled: Seq<PropertyView>) -> bool {
    &&& forall|k1: int, k2: int| 0 <= k1 < k2 < compiled.len() ==> (#[trigger] compiled[k1]).0 != (#[trigger] compiled[k2]).0
    &&& forall|k: int, j: int|
        0 <= k < compiled.len() && 0 <= j < unset.len() ==> (#[trigger] compiled[k]).0 != props[#[trigger] unset[j] as int].name@
    &&& forall|k: int| 0 <= k < compiled.len() ==> exists|i: int| 0 <= i < props.len() && #[trigger] props[i].name@ == (#[trigger] compiled[k]).0
}

proof fn lemma_initial_unset_distinct(props: Seq<PropertySchema>, acc: Seq<usize>, i: int)
    requires
        0 <= i,
        props.len() <= usize::MAX,
        unset_distinct(props, acc),
    ensures
        unset_distinct(props, initial_unset(props, acc, i)),
    decreases props.len() - i,
{
    if i < props.len() {
        let p = named_property(props, props[i].name@);
        lemma_first_match_properties(acc, p);
        match first_match(acc, p) {
            Some(j) => {
                let next = acc.update(j, i as usize);
                assert forall|j1: int, j2: int| 0 <= j1 < j2 < next.len() implies props[#[trigger] next[j1] as int].name@
                    != props[#[trigger] next[j2] as int].name@ by {
                    assert(p(acc[j]));
                    if j1 != j && j2 != j {
                        assert(next[j1] == acc[j1] && next[j2] == acc[j2]);
                    } else if j1 == j {
                        assert(next[j2] == acc[j2]);
                        assert(props[acc[j1] as int].name@ != props[acc[j2] as int].name@);
                    } else {
                        assert(next[j1] == acc[j1]);
                        assert(props[acc[j1] as int].name@ != props[acc[j2] as int].name@);
                    }
                }
                lemma_initial_unset_distinct(props, next, i + 1);
            },
            None => {
                let next = acc.push(i as usize);
                assert forall|j1: int, j2: int| 0 <= j1 < j2 < next.len() implies props[#[trigger] next[j1] as int].name@
                    != props[#[trigger] next[j2] as int].name@ by {
                    if j2 < acc.len() {
                        assert(next[j1] == acc[j1] && next[j2] == acc[j2]);
                    } else {
                        assert(next[j1] == acc[j1]);
                        assert(!p(acc[j1]));
                    }
                }
                assert forall|j: int| 0 <= j < next.len() implies (#[trigger] next[j]) < props.len() by {
                    if j < acc.len() {
                        assert(next[j] == acc[j]);
                    }
                }
                lemma_initial_unset_distinct(props, next, i + 1);
            },
        }
    }
}

proof fn lemma_properties_fold_distinct(
    props: Seq<PropertySchema>,
    contexts: Seq<Seq<char>>,
    acc: AttachmentAcc,
    decls: Seq<DeclAttachmentProperty>,
)
    requires
        unset_distinct(props, acc.0),
        compiled_distinct(props, acc.0, acc.1),
    ensures
        ({
            let r = properties_fold(props, contexts, acc, decls);
            unset_distinct(props, r.0) && compiled_distinct(props, r.0, r.1)
        }),
    decreases decls.len(),
{
    if decls.len() > 0 {
        let d = decls[0];
        let p = named_property(props, d.name@);
        lemma_first_match_properties(acc.0, p);
        match first_match(acc.0, p) {
            None => {
                lemma_properties_fold_distinct(
                    props,
                    contexts,
                    (acc.0, acc.1, log_in(acc.2, contexts, unknown_property_text(d.name@))),
                    decls.drop_first(),
                );
            },
            Some(j) => {
                let (pv, l) = property_spec(props[acc.0[j] as int], d, acc.2, contexts);
                let unset = acc.0.remove(j);
                let compiled = acc.1.push(pv);
                assert(p(acc.0[j]));
                assert(pv.0 == d.name@);
                assert forall|m: int| 0 <= m < unset.len() implies #[trigger] unset[m] == acc.0[if m < j { m } else { m + 1 }] by {}
                assert forall|j1: int, j2: int| 0 <= j1 < j2 < unset.len() implies props[#[trigger] unset[j1] as int].name@
                    != props[#[trigger] unset[j2] as int].name@ by {
                    let a = if j1 < j { j1 } else { j1 + 1 };
                    let b = if j2 < j { j2 } else { j2 + 1 };
                    assert(unset[j1] == acc.0[a] && unset[j2] == acc.0[b]);
                }
                assert forall|m: int| 0 <= m < unset.len() implies (#[trigger] unset[m]) < props.len() by {
                    let a = if m < j { m } else { m + 1 };
                    assert(unset[m] == acc.0[a]);
                }
                assert forall|k1: int, k2: int| 0 <= k1 < k2 < compiled.len() implies (#[trigger] compiled[k1]).0
                    != (#[trigger] compiled[k2]).0 by {
                    assert(compiled[k1] == acc.1[k1]);
                    if k2 < acc.1.len() {
                        assert(compiled[k2] == acc.1[k2]);
                    } else {
                        assert(acc.1[k1].0 != props[acc.0[j] as int].name@);
                    }
                }
                assert forall|k: int, m: int| 0 <= k < compiled.len() && 0 <= m < unset.len() implies (#[trigger] compiled[k]).0
                    != props[#[trigger] unset[m] as int].name@ by {
                    let a = if m < j { m } else { m + 1 };
                    assert(unset[m] == acc.0[a]);
                    if k < acc.1.len() {
                        assert(compiled[k] == acc.1[k]);
                    } else {
                        if a < j {
                            assert(props[acc.0[a] as int].name@ != props[acc.0[j] as int].name@);
                        } else {
                            assert(props[acc.0[j] as int].name@ != props[acc.0[a] as int].name@);
                        }
                    }
                }
                assert forall|k: int| 0 <= k < compiled.len() implies exists|i: int| 0 <= i < props.len() && #[trigger] props[i].name@
                    == (#[trigger] compiled[k]).0 by {
                    if k < acc.1.len() {
                        assert(compiled[k] == acc.1[k]);
                    } else {
                        let i = acc.0[j] as int;
                        assert(0 <= i < props.len() && props[i].name@ == compiled[k].0);
                    }
                }
                lemma_properties_fold_distinct(props, contexts, (unset, compiled, l), decls.drop_first());
            },
        }
    }
}

/// A compiled attachment keeps its name, and its properties bear distinct names, each the name
/// of a property of the first schema named like the attachment: a property declared twice is
/// reported as unknown the second time rather than set again.
pub proof fn lemma_attachment_properties_distinct(
    schemas: Seq<AttachmentSchema>,
    d: DeclAttachment,
    logs: Seq<LogView>,
    contexts: Seq<Seq<char>>,
)
    requires
        forall|k: int| 0 <= k < schemas.len() ==> (#[trigger] schemas[k]).properties@.len() <= usize::MAX,
    ensures
        attachment_spec(schemas, d, logs, contexts).0 matches Some((n, ps)) ==> {
            let props = schemas[first_match(schemas, schema_named(d.name@))->Some_0].properties@;
            &&& n == d.name@
            &&& forall|k1: int, k2: int| 0 <= k1 < k2 < ps.len() ==> (#[trigger] ps[k1]).0 != (#[trigger] ps[k2]).0
            &&& forall|k: int| 0 <= k < ps.len() ==> exists|i: int| 0 <= i < props.len() && #[trigger] props[i].name@
                == (#[trigger] ps[k]).0
        },
{
    lemma_first_match_properties(schemas, schema_named(d.name@));
    if let Some(k) = first_match(schemas, schema_named(d.name@)) {
        let props = schemas[k].properties@;
        let inner = contexts.push("attachment "@ + d.name@);
        lemma_initial_unset_distinct(props, Seq::empty(), 0);
        let unset = initial_unset(props, Seq::empty(), 0);
        lemma_properties_fold_distinct(props, inner, (unset, Seq::empty(), logs), d.properties@);
    }
}

pub open spec fn schema_named(name: Seq<char>) -> spec_fn(AttachmentSchema) -> bool {
    |s: AttachmentSchema| s.name@ == name
}

/// An attachment as its name and properties.
pub type AttachmentView = (Seq<char>, Seq<PropertyView>);

pub open spec fn attachment_view(a: Attachment) -> AttachmentView {
    (a.name@, a.properties@.map_values(|p: Property| property_view(p)))
}

/// How an attachment compiles, inside "attachment NAME": its schema is the first one with
/// its name; its properties compile in order; a required property left unset is an error.
pub open spec fn attachment_spec(
    schemas: Seq<AttachmentSchema>,
    d: DeclAttachment,
    logs: Seq<LogView>,
    contexts: Seq<Seq<char>>,
) -> (Option<AttachmentView>, Seq<LogView>) {
    let inner = contexts.push("attachment "@ + d.name@);
    match first_match(schemas, schema_named(d.name@)) {
        None => (None, log_in(logs, inner, "unknown attachment"@)),
        Some(k) => {
            let props = schemas[k].properties@;
            let unset = initial_unset(props, Seq::empty(), 0);
            let (left, compiled, l) = properties_fold(props, inner, (unset, Seq::empty(), logs), d.properties@);
            let unmet = unmet_names(props, left);
            if unmet.len() > 0 {
                (
                    None,
                    log_in(
                        l,
                        inner,
                        "insufficient properties; "@ + crate::avatar_v2::logger::joined(unmet) + " required"@,
                    ),
                )
            } else {
                (Some((d.name@, compiled)), l)
            }
        },
    }
}

fn find_schema_index(schemas: &Vec<AttachmentSchema>, name: &str) -> (r: Option<usize>)
    ensures
        match first_match(schemas@, schema_named(name@)) {
            Some(i) => r matches Some(k) && k as int == i && 0 <= i < schemas@.len(),
            None => r is None,
        },
{
    let ghost pred = schema_named(name@);
    proof {
        lemma_first_match_properties(schemas@, pred);
    }
    let mut i: usize = 0;
    while i < schemas.len()
        invariant
            i <= schemas@.len(),
            pred == schema_named(name@),
            forall|j: int| 0 <= j < i ==> !pred(#[trigger] schemas@[j]),
        decreases schemas@.len() - i,
    {
        if crate::avatar::transformer::dependencies::str_equal(schemas[i].name.as_str(), name) {
            proof {
                lemma_first_match_found(schemas@, pred, i as int);
            }
            return Some(i);
        }
        i = i + 1;
    }
    proof {
        lemma_first_match_absent(schemas@, pred);
    }
    None
}

fn find_unset_position(props: &Vec<PropertySchema>, unset: &Vec<usize>, name: &str) -> (r: Option<usize>)
    requires
        all_in_range(props@, unset@),
    ensures
        match first_match(unset@, named_property(props@, name@)) {
            Some(j) => r matches Some(k) && k as int == j && 0 <= j < unset@.len(),
            None => r is None,
        },
{
    let ghost pred = named_property(props@, name@);
    proof {
        lemma_first_match_properties(unset@, pred);
    }
    let mut i: usize = 0;
    while i < unset.len()
        invariant
            i <= unset@.len(),
            all_in_range(props@, unset@),
            pred == named_property(props@, name@),
            forall|j: int| 0 <= j < i ==> !pred(#[trigger] unset@[j]),
        decreases unset@.len() - i,
    {
        let index = unset[i];
        if crate::avatar::transformer::dependencies::str_equal(props[index].name.as_str(), name) {
            proof {
                lemma_first_match_found(unset@, pred, i as int);
            }
            return Some(i);
        }
        i = i + 1;
    }
    proof {
        lemma_first_match_absent(unset@, pred);
    }
    None
}

fn build_unset(props: &Vec<PropertySchema>) -> (r: Vec<usize>)
    ensures
        r@ == initial_unset(props@, Seq::empty(), 0),
        all_in_range(props@, r@),
{
    let mut unset: Vec<usize> = Vec::new();
    let mut i: usize = 0;
    while i < props.len()
        invariant
            i <= props@.len(),
            all_in_range(props@, unset@),
            initial_unset(props@, Seq::empty(), 0) == initial_unset(props@, unset@, i as int),
        decreases props@.len() - i,
    {
        match find_unset_position(props, &unset, props[i].name.as_str()) {
            Some(j) => {
                unset.set(j, i);
            },
            None => {
                unset.push(i);
            },
        }
        i = i + 1;
    }
    unset
}

fn collect_unmet(props: &Vec<PropertySchema>, unset: &Vec<usize>) -> (r: Vec<String>)
    requires
        all_in_range(props@, unset@),
    ensures
        r@.map_values(|n: String| n@) == unmet_names(props@, unset@),
{
    let mut names: Vec<String> = Vec::new();
    let mut i: usize = 0;
    while i < unset.len()
        invariant
            i <= unset@.len(),
            all_in_range(props@, unset@),
            names@.map_values(|n: String| n@) == unmet_names(props@, unset@.subrange(0, i as int)),
        decreases unset@.len() - i,
    {
        let ghost before = names@;
        let property = &props[unset[i]];
        if property.required {
            names.push(property.name.clone());
        }
        proof {
            let pre = unset@.subrange(0, i + 1);
            assert(pre.drop_last() =~= unset@.subrange(0, i as int));
            assert(pre.last() == unset@[i as int]);
            assert(names@.map_values(|n: String| n@) =~= unmet_names(props@, pre));
        }
        i = i + 1;
    }
    proof {
        assert(unset@.subrange(0, unset@.len() as int) =~= unset@);
    }
    names
}

/// Compiles the declared properties in order against the unset properties of a schema
/// (see `properties_fold`); `unset` ends as the properties left unset.
#[verifier::loop_isolation(false)]
#[verifier::rlimit(40)]
fn compile_properties(
    logger: &mut Logger,
    props: &Vec<PropertySchema>,
    unset: &mut Vec<usize>,
    decls: Vec<DeclAttachmentProperty>,
) -> (r: Vec<Property>)
    requires
        old(logger).wf(),
        all_in_range(props@, old(unset)@),
    ensures
        final(logger).wf(),
        final(logger).open_contexts() == old(logger).open_contexts(),
        all_in_range(props@, final(unset)@),
        ({
            let (left, compiled, logs) = properties_fold(
                props@,
                old(logger).open_contexts(),
                (old(unset)@, Seq::empty(), old(logger).log_view()),
                decls@,
            );
            &&& final(unset)@ == left
            &&& r@.map_values(|p: Property| property_view(p)) == compiled
            &&& final(logger).log_view() == logs
        }),
{
    let ghost inner = logger.open_contexts();
    let mut properties: Vec<Property> = Vec::new();
    let mut decls = decls;
    let ghost total = properties_fold(
        props@,
        inner,
        (unset@, Seq::empty(), logger.log_view()),
        decls@,
    );
    proof {
        assert(properties@.map_values(|p: Property| property_view(p)) =~= Seq::<PropertyView>::empty());
    }
    while decls.len() > 0
        invariant
            logger.wf(),
            logger.open_contexts() == inner,
            all_in_range(props@, unset@),
            total == properties_fold(
                props@,
                inner,
                (unset@, properties@.map_values(|p: Property| property_view(p)), logger.log_view()),
                decls@,
            ),
        decreases decls@.len(),
    {
        let ghost before = decls@;
        let ghost views_before = properties@.map_values(|p: Property| property_view(p));
        let decl_property = decls.remove(0);
        proof {
            assert(decls@ =~= before.drop_first());
        }
        match find_unset_position(props, unset, decl_property.name.as_str()) {
            None => {
                logger.log(
                    Log::Arbittach(ArbittachError::UnknownProperty(decl_property.name.clone())),
                );
            },
            Some(j) => {
                let ghost unset_before = unset@;
                let index = unset.remove(j);
                proof {
                    assert forall|k: int| 0 <= k < unset@.len() implies (#[trigger] unset@[k])
                        < props@.len() by {
                        if k < j {
                            assert(unset@[k] == unset_before[k]);
                        } else {
                            assert(unset@[k] == unset_before[k + 1]);
                        }
                    }
                    assert(unset@ == unset_before.remove(j as int));
                }
                match compile_property(logger, &props[index], decl_property) {
                    Some(property) => {
                        properties.push(property);
                        proof {
                            assert(properties@.map_values(|p: Property| property_view(p))
                                =~= views_before.push(property_view(property)));
                        }
                    },
                    None => {},
                }
            },
        }
    }
    properties
}

/// Compiles an attachment against the first schema with its name (see `attachment_spec`).
#[verifier::rlimit(40)]
#[verifier::spinoff_prover]
pub fn compile_attachment(
    logger: &mut Logger,
    schemas: &Vec<AttachmentSchema>,
    decl_attachment: DeclAttachment,
) -> (r: Compiled<Attachment>)
    requires
        old(logger).wf(),
    ensures
        final(logger).wf(),
        final(logger).open_contexts() == old(logger).open_contexts(),
        ({
            let (v, logs) = attachment_spec(
                schemas@,
                decl_attachment,
                old(logger).log_view(),
                old(logger).open_contexts(),
            );
            &&& final(logger).log_view() == logs
            &&& match v {
                Some(av) => r matches Some(a) && attachment_view(a) == av,
                None => r is None,
            }
        }),
{
    let ghost d = decl_attachment;
    let ghost outer = logger.open_contexts();
    let name = decl_attachment.name;
    let context = concat2("attachment ", name.as_str());
    logger.push_context(context);
    let ghost inner = logger.open_contexts();
    let ghost logs0 = logger.log_view();
    let schema_index = find_schema_index(schemas, name.as_str());
    let schema = match schema_index {
        Some(k) => &schemas[k],
        None => {
            logger.log(Log::Arbittach(ArbittachError::UnknownAttachment));
            logger.pop_context();
            proof {
                assert(logger.open_contexts() =~= outer);
            }
            return failure();
        },
    };
    let ghost props = schema.properties@;
    proof {
        assert(first_match(schemas@, schema_named(d.name@)) == Some(schema_index->0 as int));
        assert(props == schemas@[schema_index->0 as int].properties@);
    }
    let mut unset = build_unset(&schema.properties);
    let properties = compile_properties(logger, &schema.properties, &mut unset, decl_attachment.properties);
    let ghost folded = properties_fold(
        props,
        inner,
        (initial_unset(props, Seq::empty(), 0), Seq::empty(), logs0),
        d.properties@,
    );
    proof {
        assert(unset@ == folded.0);
        assert(logger.log_view() == folded.2);
    }
    let unmet = collect_unmet(&schema.properties, &unset);
    if unmet.len() > 0 {
        logger.log(Log::Arbittach(ArbittachError::Insufficient { unmet_properties: unmet }));
        logger.pop_context();
        proof {
            assert(logger.open_contexts() =~= outer);
        }
        return failure();
    }
    logger.pop_context();
    proof {
        assert(logger.open_contexts() =~= outer);
    }
    success(Attachment { name, properties })
}

/// An attachment group as its target and attachments.
pub type GroupView = (Seq<char>, Seq<AttachmentView>);

pub open spec fn group_view(g: AttachmentGroup) -> GroupView {
    (g.target@, g.attachments@.map_values(|a: Attachment| attachment_view(a)))
}

pub type AttachmentsAcc = (Seq<AttachmentView>, Seq<LogView>);

pub open spec fn attachments_fold(
    schemas: Seq<AttachmentSchema>,
    contexts: Seq<Seq<char>>,
    acc: AttachmentsAcc,
    decls: Seq<DeclAttachment>,
) -> AttachmentsAcc
    decreases decls.len(),
{
    if decls.len() == 0 {
        acc
    } else {
        let (o, l) = attachment_spec(schemas, decls[0], acc.1, contexts);
        let next = match o {
            Some(av) => (acc.0.push(av), l),
            None => (acc.0, l),
        };
        attachments_fold(schemas, contexts, next, decls.drop_first())
    }
}

/// How a group compiles, inside "target T": the attachments that compile, in order.
pub open spec fn group_spec(
    schemas: Seq<AttachmentSchema>,
    d: DeclAttachmentGroup,
    logs: Seq<LogView>,
    contexts: Seq<Seq<char>>,
) -> (GroupView, Seq<LogView>) {
    let inner = contexts.push("target "@ + d.target@);
    let (attachments, l) = attachments_fold(schemas, inner, (Seq::empty(), logs), d.attachments@);
    ((d.target@, attachments), l)
}

/// Compiles the attachments of one target; it always yields a group, with the attachments
/// that compile.
#[verifier::loop_isolation(false)]
pub fn compile_group(
    logger: &mut Logger,
    schemas: &Vec<AttachmentSchema>,
    decl_group: DeclAttachmentGroup,
) -> (r: Compiled<AttachmentGroup>)
    requires
        old(logger).wf(),
    ensures
        final(logger).wf(),
        final(logger).open_contexts() == old(logger).open_contexts(),
        ({
            let (v, logs) = group_spec(
                schemas@,
                decl_group,
                old(logger).log_view(),
                old(logger).open_contexts(),
            );
            &&& r matches Some(g) && group_view(g) == v
            &&& final(logger).log_view() == logs
        }),
{
    let ghost outer = logger.open_contexts();
    let target = decl_group.target;
    logger.push_context(concat2("target ", target.as_str()));
    let ghost inner = logger.open_contexts();
    let mut attachments: Vec<Attachment> = Vec::new();
    let mut decls = decl_group.attachments;
    let ghost total = attachments_fold(schemas@, inner, (Seq::empty(), logger.log_view()), decls@);
    proof {
        assert(attachments@.map_values(|a: Attachment| attachment_view(a)) =~= Seq::<
            AttachmentView,
        >::empty());
    }
    while decls.len() > 0
        invariant
            logger.wf(),
            logger.open_contexts() == inner,
            total == attachments_fold(
                schemas@,
                inner,
                (attachments@.map_values(|a: Attachment| attachment_view(a)), logger.log_view()),
                decls@,
            ),
        decreases decls@.len(),
    {
        let ghost before = decls@;
        let ghost views_before = attachments@.map_values(|a: Attachment| attachment_view(a));
        let decl_attachment = decls.remove(0);
        proof {
            assert(decls@ =~= before.drop_first());
        }
        match compile_attachment(logger, schemas, decl_attachment) {
            Some(a) => {
                attachments.push(a);
                proof {
                    assert(attachments@.map_values(|a: Attachment| attachment_view(a))
                        =~= views_before.push(attachment_view(a)));
                }
            },
            None => {},
        }
    }
    logger.pop_context();
    proof {
        assert(logger.open_contexts() =~= outer);
    }
    success(AttachmentGroup { target, attachments })
}

pub type GroupsAcc = (Seq<GroupView>, Seq<LogView>);

pub open spec fn groups_fold(
    schemas: Seq<AttachmentSchema>,
    contexts: Seq<Seq<char>>,
    acc: GroupsAcc,
    decls: Seq<DeclAttachmentGroup>,
) -> GroupsAcc
    decreases decls.len(),
{
    if decls.len() == 0 {
        acc
    } else {
        let (g, l) = group_spec(schemas, decls[0], acc.1, contexts);
        groups_fold(schemas, contexts, (acc.0.push(g), l), decls.drop_first())
    }
}

/// How the blocks compile, numbered from `index`; each block's groups are reported inside
/// "attachments block N".
pub open spec fn attachment_blocks_fold(
    schemas: Seq<AttachmentSchema>,
    contexts: Seq<Seq<char>>,
    acc: GroupsAcc,
    blocks: Seq<DeclAttachments>,
    index: int,
) -> GroupsAcc
    decreases blocks.len(),
{
    if blocks.len() == 0 {
        acc
    } else {
        let inner = contexts.push(block_context("attachments block "@, index));
        attachment_blocks_fold(
            schemas,
            contexts,
            groups_fold(schemas, inner, acc, blocks[0].targets@),
            blocks.drop_first(),
            index + 1,
        )
    }
}

/// Compiles every attachment group of every block in order.
#[verifier::loop_isolation(false)]
pub fn compile_attachment_blocks(
    logger: &mut Logger,
    schemas: &Vec<AttachmentSchema>,
    attachment_blocks: Vec<DeclAttachments>,
) -> (r: Compiled<Vec<AttachmentGroup>>)
    requires
        old(logger).wf(),
        attachment_blocks@.len() < usize::MAX,
    ensures
        final(logger).wf(),
        final(logger).open_contexts() == old(logger).open_contexts(),
        ({
            let (groups, logs) = attachment_blocks_fold(
                schemas@,
                old(logger).open_contexts(),
                (Seq::empty(), old(logger).log_view()),
                attachment_blocks@,
                0,
            );
            &&& r matches Some(v) && v@.map_values(|g: AttachmentGroup| group_view(g)) == groups
            &&& final(logger).log_view() == logs
        }),
{
    let ghost outer = logger.open_contexts();
    let mut groups: Vec<AttachmentGroup> = Vec::new();
    let mut blocks = attachment_blocks;
    let mut index: usize = 0;
    let ghost total = attachment_blocks_fold(
        schemas@,
        outer,
        (Seq::empty(), logger.log_view()),
        blocks@,
        0,
    );
    proof {
        assert(groups@.map_values(|g: AttachmentGroup| group_view(g)) =~= Seq::<GroupView>::empty());
    }
    while blocks.len() > 0
        invariant
            logger.wf(),
            logger.open_contexts() == outer,
            index + blocks@.len() == attachment_blocks@.len(),
            total == attachment_blocks_fold(
                schemas@,
                outer,
                (groups@.map_values(|g: AttachmentGroup| group_view(g)), logger.log_view()),
                blocks@,
                index as int,
            ),
        decreases blocks@.len(),
    {
        let ghost before = blocks@;
        let mut block = blocks.remove(0);
        proof {
            assert(blocks@ =~= before.drop_first());
        }
        let context = concat2("attachments block ", usize_to_decimal(index).as_str());
        let ghost inner = outer.push(context@);
        logger.push_context(context);
        let ghost block_total = groups_fold(
            schemas@,
            inner,
            (groups@.map_values(|g: AttachmentGroup| group_view(g)), logger.log_view()),
            block.targets@,
        );
        while block.targets.len() > 0
            invariant
                logger.wf(),
                logger.open_contexts() == inner,
                block_total == groups_fold(
                    schemas@,
                    inner,
                    (groups@.map_values(|g: AttachmentGroup| group_view(g)), logger.log_view()),
                    block.targets@,
                ),
            decreases block.targets@.len(),
        {
            let ghost items_before = block.targets@;
            let ghost views_before = groups@.map_values(|g: AttachmentGroup| group_view(g));
            let decl_group = block.targets.remove(0);
            proof {
                assert(block.targets@ =~= items_before.drop_first());
            }
            match compile_group(logger, schemas, decl_group) {
                Some(g) => {
                    groups.push(g);
                    proof {
                        assert(groups@.map_values(|g: AttachmentGroup| group_view(g))
                            =~= views_before.push(group_view(g)));
                    }
                },
                None => {},
            }
        }
        logger.pop_context();
        proof {
            assert(block.targets@ =~= Seq::<DeclAttachmentGroup>::empty());
        }
        index = index + 1;
    }
    success(groups)
}

/// What `compile_value` makes of a declared value passes `validate_type` against the same
/// type: the compiler never yields a value that its schema's type rejects.
pub proof fn lemma_compiled_value_type_checks(
    ty: ValueType,
    d: DeclAttachmentValue,
    logs: Seq<LogView>,
    contexts: Seq<Seq<char>>,
    x: Value,
)
    requires
        value_spec(ty, d, logs, contexts).0 == Some(value_view(x)),
    ensures
        check(x, ty) is None,
    decreases d,
{
    match d {
        DeclAttachmentValue::UntypedList(items) => {
            match ty {
                ValueType::List(item_type) => {
                    let (o, l) = typed_items_spec(*item_type, items@, logs, contexts);
                    match x {
                        Value::List(xs) => {
                            lemma_typed_items_type_check(*item_type, items@, logs, contexts, xs@);
                        },
                        _ => {},
                    }
                },
                ValueType::Tuple(item_types) => {
                    if items@.len() == item_types@.len() {
                        match x {
                            Value::Tuple(xs) => {
                                lemma_tuple_items_type_check(item_types@, items@, logs, contexts, xs@);
                                lemma_values_view_len(xs@);
                                lemma_tuple_items_len(item_types@, items@, logs, contexts);
                            },
                            _ => {},
                        }
                    }
                },
                _ => {},
            }
        },
        _ => {},
    }
}

proof fn lemma_values_view_len(xs: Seq<Value>)
    ensures
        values_view(xs).len() == xs.len(),
    decreases xs.len(),
{
    if xs.len() > 0 {
        lemma_values_view_len(xs.drop_first());
    }
}

proof fn lemma_tuple_items_len(
    types: Seq<ValueType>,
    items: Seq<DeclAttachmentValue>,
    logs: Seq<LogView>,
    contexts: Seq<Seq<char>>,
)
    requires
        types.len() == items.len(),
    ensures
        tuple_items_spec(types, items, logs, contexts).0 matches Some(vs) ==> vs.len() == items.len(),
    decreases items.len(),
{
    if items.len() > 0 {
        let (o, l) = value_spec(types[0], items[0], logs, contexts);
        lemma_tuple_items_len(types.drop_first(), items.drop_first(), l, contexts);
    }
}

proof fn lemma_typed_items_type_check(
    ty: ValueType,
    items: Seq<DeclAttachmentValue>,
    logs: Seq<LogView>,
    contexts: Seq<Seq<char>>,
    xs: Seq<Value>,
)
    requires
        typed_items_spec(ty, items, logs, contexts).0 == Some(values_view(xs)),
    ensures
        check_all_values(xs, ty) is None,
    decreases items,
{
    if items.len() > 0 {
        let (o, l) = value_spec(ty, items[0], logs, contexts);
        let v = o->0;
        let (rest, l2) = typed_items_spec(ty, items.drop_first(), l, contexts);
        let vs = rest->0;
        assert(values_view(xs) == seq![v] + vs);
        assert(xs.len() > 0);
        assert(values_view(xs) == seq![value_view(xs[0])] + values_view(xs.drop_first()));
        assert((seq![value_view(xs[0])] + values_view(xs.drop_first())).drop_first() =~= values_view(
            xs.drop_first(),
        ));
        assert((seq![v] + vs).drop_first() =~= vs);
        assert(values_view(xs.drop_first()) == vs);
        assert((seq![v] + vs)[0] == v);
        assert((seq![value_view(xs[0])] + values_view(xs.drop_first()))[0] == value_view(xs[0]));
        assert(o is Some);
        assert(o == Some(value_view(xs[0])));
        lemma_compiled_value_type_checks(ty, items[0], logs, contexts, xs[0]);
        lemma_typed_items_type_check(ty, items.drop_first(), l, contexts, xs.drop_first());
    } else {
        lemma_values_view_len(xs);
    }
}

proof fn lemma_tuple_items_type_check(
    types: Seq<ValueType>,
    items: Seq<DeclAttachmentValue>,
    logs: Seq<LogView>,
    contexts: Seq<Seq<char>>,
    xs: Seq<Value>,
)
    requires
        tuple_items_spec(types, items, logs, contexts).0 == Some(values_view(xs)),
    ensures
        check_pairs(xs, types) is None,
    decreases items,
{
    if items.len() > 0 && types.len() > 0 {
        let (o, l) = value_spec(types[0], items[0], logs, contexts);
        let v = o->0;
        let (rest, l2) = tuple_items_spec(types.drop_first(), items.drop_first(), l, contexts);
        let vs = rest->0;
        assert(values_view(xs) == seq![v] + vs);
        assert(xs.len() > 0);
        assert(values_view(xs) == seq![value_view(xs[0])] + values_view(xs.drop_first()));
        assert((seq![value_view(xs[0])] + values_view(xs.drop_first())).drop_first() =~= values_view(
            xs.drop_first(),
        ));
        assert((seq![v] + vs).drop_first() =~= vs);
        assert(values_view(xs.drop_first()) == vs);
        assert((seq![v] + vs)[0] == v);
        assert((seq![value_view(xs[0])] + values_view(xs.drop_first()))[0] == value_view(xs[0]));
        assert(o is Some);
        assert(o == Some(value_view(xs[0])));
        lemma_compiled_value_type_checks(types[0], items[0], logs, contexts, xs[0]);
        lemma_tuple_items_type_check(types.drop_first(), items.drop_first(), l, contexts, xs.drop_first());
    } else {
        lemma_values_view_len(xs);
    }
}

/// Against the type `Any`, every declared value compiles, and nothing is logged.
pub proof fn lemma_any_value_compiles(d: DeclAttachmentValue, logs: Seq<LogView>, contexts: Seq<Seq<char>>)
    ensures
        value_spec(ValueType::Any, d, logs, contexts).0 is Some,
        value_spec(ValueType::Any, d, logs, contexts).1 == logs,
    decreases d,
{
    match d {
        DeclAttachmentValue::UntypedList(items) => {
            lemma_any_items_compile(items@, logs, contexts);
        },
        _ => {},
    }
}

proof fn lemma_any_items_compile(items: Seq<DeclAttachmentValue>, logs: Seq<LogView>, contexts: Seq<Seq<char>>)
    ensures
        any_items_spec(items, logs, contexts).1 == logs,
        any_items_spec(items, logs, contexts).0.len() == items.len(),
    decreases items,
{
    if items.len() > 0 {
        lemma_any_value_compiles(items[0], logs, contexts);
        lemma_any_items_compile(items.drop_first(), logs, contexts);
    }
}


/// A scalar value compiles to itself, with nothing logged, where the schema asks for its own
/// type or for any type; against any other type it fails with one log.
pub proof fn lemma_scalar_value_compiles_to_itself(
    ty: ValueType,
    d: DeclAttachmentValue,
    logs: Seq<LogView>,
    contexts: Seq<Seq<char>>,
)
    ensures
        match d {
            DeclAttachmentValue::Vector(_) => true,
            DeclAttachmentValue::UntypedList(_) => true,
            _ => {
                let (own_type, itself) = match d {
                    DeclAttachmentValue::Null => (ty is Null, ValueView::Null),
                    DeclAttachmentValue::Boolean(b) => (ty is Boolean, ValueView::Boolean(b)),
                    DeclAttachmentValue::Integer(i) => (ty is Integer, ValueView::Integer(i)),
                    DeclAttachmentValue::Float(f) => (ty is Float, ValueView::Float(f)),
                    DeclAttachmentValue::String(t) => (ty is String, ValueView::String(t@)),
                    DeclAttachmentValue::GameObject(t) => (ty is GameObject, ValueView::GameObject(t@)),
                    DeclAttachmentValue::Material(t) => (ty is Material, ValueView::Material(t@)),
                    DeclAttachmentValue::AnimationClip(t) => (ty is AnimationClip, ValueView::AnimationClip(t@)),
                    _ => (false, ValueView::Null),
                };
                &&& (own_type || ty is Any) ==> value_spec(ty, d, logs, contexts) == (Some(itself), logs)
                &&& !(own_type || ty is Any) ==> value_spec(ty, d, logs, contexts).0 is None
                    && value_spec(ty, d, logs, contexts).1.len() == logs.len() + 1
            },
        },
{
}

} // verus!
