//! What holds of decoding as a whole, stated over the functions that say
//! what a decode gives.

use vstd::prelude::*;
use vstd::utf8::{decode_utf8, decode_utf8_encode_utf8, encode_utf8};
use crate::bytes::bytes_of;
use crate::file::file_of;
use crate::error::{ErrorView, FieldFault, MultipartError, ParseError, PayloadError};
use crate::form::{
    decoded, field_failure, in_memory, leaf_content_type_ok, leaf_outcome, over_budget, Assembly,
    FormLimits, LeafView,
};
use crate::number::parsed_i64;
use crate::group::{collected, Decision, FieldValueModel};
use crate::limits::Limits;
use crate::load::{loaded, LoadLimits, Loaded};
use crate::part::{FieldView, PartHeadView, PartKind, RawPartView};
use crate::schema::{DuplicateAction, FieldShape, ReaderKind, SchemaView};

verus! {

/// The bytes that the bodies of the parts from index `from` on hold together.
pub open spec fn total_size(parts: Seq<RawPartView>, from: int) -> nat
    decreases parts.len() - from,
{
    if from < 0 || from >= parts.len() {
        0
    } else {
        parts[from].body().len() + total_size(parts, from + 1)
    }
}

/// Whether every part from index `from` on has acceptable headers and
/// addresses the field `name`.
pub open spec fn all_address(parts: Seq<RawPartView>, from: int, name: Seq<char>) -> bool {
    forall|k: int|
        from <= k < parts.len() ==> (#[trigger] parts[k]).headers.acceptable()
            && parts[k].headers.head().name == name
}

/// In a form whose names are distinct, a name is at the position of the
/// field that bears it.
pub proof fn lemma_position(schema: SchemaView, field: int)
    requires
        schema.well_formed(),
        0 <= field < schema.fields.len(),
    ensures
        schema.knows(schema.fields[field].name),
        schema.position(schema.fields[field].name) == field,
{
    let name = schema.fields[field].name;
    assert(schema.fields[field].name == name);
    let chosen = schema.position(name);
    if chosen < field {
        assert(schema.fields[chosen].name != schema.fields[field].name);
    } else if field < chosen {
        assert(schema.fields[field].name != schema.fields[chosen].name);
    }
}

/// The limit of a field is shared by its parts, however the bytes are spread
/// over them.
///
/// Take a list field that is read as bytes and has `left` bytes of its limit
/// left, and parts that all address it, under quotas of the form that they
/// fit together, in bytes and in number. Then the parts are decoded if and
/// only if their bodies together hold no more than `left` bytes, and
/// otherwise the pass fails over a quota.
pub proof fn lemma_field_limit_is_shared(
    schema: SchemaView,
    max_parts: usize,
    validate_text: bool,
    validate_json: bool,
    state: Assembly,
    parts: Seq<RawPartView>,
    from: int,
    field: int,
    left: usize,
)
    requires
        schema.well_formed(),
        0 <= field < schema.fields.len(),
        schema.fields[field].shape is List,
        schema.fields[field].reader is Bytes,
        state.field_limits.len() == schema.fields.len(),
        state.slots.len() == schema.fields.len(),
        state.field_limits[field] == Some(left),
        0 <= from <= parts.len(),
        all_address(parts, from, schema.fields[field].name),
        total_size(parts, from) <= state.limits.total_limit_remaining,
        total_size(parts, from) <= state.limits.memory_limit_remaining,
        state.parts + parts.len() - from <= max_parts,
    ensures
        total_size(parts, from) <= left ==> state.take_parts(
            schema,
            max_parts,
            validate_text,
            validate_json,
            parts,
            from,
        ) is Ok,
        total_size(parts, from) > left ==> state.take_parts(
            schema,
            max_parts,
            validate_text,
            validate_json,
            parts,
            from,
        ) == Err::<Assembly, ErrorView>(over_budget()),
    decreases parts.len() - from,
{
    if from < parts.len() {
        let part = parts[from];
        let head = part.headers.head();
        lemma_position(schema, field);
        let bound = Limits { field_limit_remaining: Some(left), ..state.limits };
        assert(schema.decision(state.slots, head.name) == Ok::<Decision, ErrorView>(
            Decision::Read(field as usize),
        ));
        if bound.admits(part.body().len(), true) {
            let next = state.take_part(schema, max_parts, validate_text, validate_json, part)->Ok_0;
            lemma_field_limit_is_shared(
                schema,
                max_parts,
                validate_text,
                validate_json,
                next,
                parts,
                from + 1,
                field,
                (left - part.body().len()) as usize,
            );
        }
    }
}

/// A form accepts the parts of a field with a limit exactly if they hold no
/// more bytes than the limit, however the bytes are spread over the parts.
///
/// The field is a list that is read as bytes, every part addresses it, no
/// field of the form is required, and the quotas of the form are generous:
/// the parts fit them together, in bytes and in number.
pub proof fn lemma_field_limit(
    schema: SchemaView,
    quotas: FormLimits,
    validate_text: bool,
    validate_json: bool,
    parts: Seq<RawPartView>,
    field: int,
    limit: usize,
)
    requires
        schema.well_formed(),
        0 <= field < schema.fields.len(),
        schema.fields[field].shape is List,
        schema.fields[field].reader is Bytes,
        schema.fields[field].limit == Some(limit),
        forall|k: int| 0 <= k < schema.fields.len() ==> !((#[trigger] schema.fields[k]).shape is Scalar),
        all_address(parts, 0, schema.fields[field].name),
        total_size(parts, 0) <= quotas.total_limit,
        total_size(parts, 0) <= quotas.memory_limit,
        parts.len() <= quotas.max_parts,
    ensures
        total_size(parts, 0) <= limit ==> decoded(
            schema,
            quotas,
            validate_text,
            validate_json,
            parts,
        ) is Ok,
        total_size(parts, 0) > limit ==> decoded(schema, quotas, validate_text, validate_json, parts)
            == Err::<Seq<FieldValueModel<LeafView>>, ErrorView>(over_budget()),
{
    let start = Assembly::start(schema, quotas);
    lemma_field_limit_is_shared(
        schema,
        quotas.max_parts,
        validate_text,
        validate_json,
        start,
        parts,
        0,
        field,
        limit,
    );
    if total_size(parts, 0) <= limit {
        let end = start.take_parts(schema, quotas.max_parts, validate_text, validate_json, parts, 0)->Ok_0;
        schema.lemma_missing_from(end.slots, 0);
    }
}

/// The value that a reader makes of a part, where it makes one.
pub open spec fn leaf_of(reader: ReaderKind, head: PartHeadView, body: Seq<u8>) -> LeafView {
    match reader {
        ReaderKind::Bytes => LeafView::Bytes(bytes_of(head, body)),
        ReaderKind::Text => LeafView::Text(decode_utf8(body)),
        ReaderKind::Integer => LeafView::Integer(parsed_i64(decode_utf8(body))->0),
        ReaderKind::Json => LeafView::Json,
        ReaderKind::File => LeafView::File(file_of(head, body.len() as usize)),
    }
}

/// The quotas decide whether a part is decoded, never what it is decoded
/// to. A part that is decoded leaves no quota higher than it was.
pub proof fn lemma_leaf_value(
    reader: ReaderKind,
    validate_text: bool,
    validate_json: bool,
    head: PartHeadView,
    body: Seq<u8>,
    limits: Limits,
)
    ensures
        leaf_outcome(reader, validate_text, validate_json, head, body, limits) matches Ok(
            (value, after),
        ) ==> value == leaf_of(reader, head, body) && after.within(limits) && limits.admits(
            body.len(),
            in_memory(reader),
        ),
{
}

/// A body that is larger than what is left of the total quota is never
/// decoded: the pass fails over the quota, unless the reader has refused the
/// declared media type before reading a byte.
pub proof fn lemma_over_total_fails(
    reader: ReaderKind,
    validate_text: bool,
    validate_json: bool,
    head: PartHeadView,
    body: Seq<u8>,
    limits: Limits,
)
    requires
        body.len() > limits.total_limit_remaining,
    ensures
        match leaf_outcome(reader, validate_text, validate_json, head, body, limits) {
            Ok(_) => false,
            Err(e) => e == over_budget() || e == field_failure(
                head.name,
                FieldFault::TextContentType,
            ) || e == field_failure(head.name, FieldFault::JsonContentType),
        },
        reader is Bytes || reader is File ==> leaf_outcome(
            reader,
            validate_text,
            validate_json,
            head,
            body,
            limits,
        ) == Err::<(LeafView, Limits), ErrorView>(over_budget()),
{
}

/// A part that its field reads fails the pass over a quota if its body is
/// larger than what is left of the total quota, whatever else the quotas
/// allow: nothing is stored for it, and no later part is taken.
pub proof fn lemma_part_over_total_fails(
    schema: SchemaView,
    max_parts: usize,
    validate_text: bool,
    validate_json: bool,
    state: Assembly,
    part: RawPartView,
    field: int,
)
    requires
        schema.well_formed(),
        0 <= field < schema.fields.len(),
        part.headers.acceptable(),
        schema.decision(state.slots, part.headers.head().name) == Ok::<Decision, ErrorView>(
            Decision::Read(field as usize),
        ),
        leaf_content_type_ok(
            schema.fields[field].reader,
            validate_text,
            validate_json,
            part.headers.head(),
        ),
        part.body().len() > state.limits.total_limit_remaining,
    ensures
        state.take_part(schema, max_parts, validate_text, validate_json, part) == Err::<
            Assembly,
            ErrorView,
        >(over_budget()),
        over_budget().is_budget(),
{
}

/// A form takes no more parts than it may: the part that follows the last
/// part allowed fails the pass over that quota, whatever it holds.
pub proof fn lemma_part_over_count_fails(
    schema: SchemaView,
    max_parts: usize,
    validate_text: bool,
    validate_json: bool,
    state: Assembly,
    part: RawPartView,
)
    requires
        state.parts >= max_parts,
    ensures
        state.take_part(schema, max_parts, validate_text, validate_json, part) == Err::<
            Assembly,
            ErrorView,
        >(over_budget()),
{
}

/// Decoding never raises what is left of the quotas of the form, and keeps
/// one list of values and one remainder of a limit for every field.
pub proof fn lemma_quotas_never_grow(
    schema: SchemaView,
    max_parts: usize,
    validate_text: bool,
    validate_json: bool,
    state: Assembly,
    parts: Seq<RawPartView>,
    from: int,
)
    requires
        schema.well_formed(),
        state.field_limits.len() == schema.fields.len(),
        state.slots.len() == schema.fields.len(),
        0 <= from,
    ensures
        state.take_parts(schema, max_parts, validate_text, validate_json, parts, from) matches Ok(
            end,
        ) ==> {
            &&& end.limits.total_limit_remaining <= state.limits.total_limit_remaining
            &&& end.limits.memory_limit_remaining <= state.limits.memory_limit_remaining
            &&& end.field_limits.len() == schema.fields.len()
            &&& end.slots.len() == schema.fields.len()
            &&& end.parts <= max_parts || end.parts == state.parts
        },
    decreases parts.len() - from,
{
    if from < parts.len() {
        let part = parts[from];
        match state.take_part(schema, max_parts, validate_text, validate_json, part) {
            Ok(next) => {
                lemma_quotas_never_grow(
                    schema,
                    max_parts,
                    validate_text,
                    validate_json,
                    next,
                    parts,
                    from + 1,
                );
            },
            Err(_) => {},
        }
    }
}

/// The values that the parts from index `from` on hold for the field `name`
/// when each is read by `reader`, in the order of their arrival.
pub open spec fn values_for(
    reader: ReaderKind,
    parts: Seq<RawPartView>,
    from: int,
    name: Seq<char>,
) -> Seq<LeafView>
    decreases parts.len() - from,
{
    if from < 0 || from >= parts.len() {
        Seq::empty()
    } else if parts[from].headers.head().name == name {
        seq![leaf_of(reader, parts[from].headers.head(), parts[from].body())] + values_for(
            reader,
            parts,
            from + 1,
            name,
        )
    } else {
        values_for(reader, parts, from + 1, name)
    }
}

/// A list field holds the values of its parts in the order of their
/// arrival.
///
/// Whenever the parts from index `from` on are decoded, the values of a list
/// field are those that it had, followed by the value of every part that
/// addresses it, in the order of the parts. What the values are depends on
/// the parts alone, so decoding the same bytes again gives the same values
/// in the same order.
pub proof fn lemma_list_keeps_arrival_order(
    schema: SchemaView,
    max_parts: usize,
    validate_text: bool,
    validate_json: bool,
    state: Assembly,
    parts: Seq<RawPartView>,
    from: int,
    field: int,
)
    requires
        schema.well_formed(),
        0 <= field < schema.fields.len(),
        schema.fields[field].shape is List,
        state.field_limits.len() == schema.fields.len(),
        state.slots.len() == schema.fields.len(),
        0 <= from,
    ensures
        state.take_parts(schema, max_parts, validate_text, validate_json, parts, from) matches Ok(
            end,
        ) ==> end.slots[field] == state.slots[field] + values_for(
            schema.fields[field].reader,
            parts,
            from,
            schema.fields[field].name,
        ),
    decreases parts.len() - from,
{
    let name = schema.fields[field].name;
    let reader = schema.fields[field].reader;
    if from < parts.len() {
        let part = parts[from];
        let head = part.headers.head();
        match state.take_part(schema, max_parts, validate_text, validate_json, part) {
            Ok(next) => {
                lemma_position(schema, field);
                lemma_quotas_never_grow(
                    schema,
                    max_parts,
                    validate_text,
                    validate_json,
                    state,
                    parts.take(from + 1),
                    from,
                );
                assert(next.slots.len() == schema.fields.len() && next.field_limits.len()
                    == schema.fields.len()) by {
                    if schema.knows(head.name) {
                        let p = schema.position(head.name);
                        assert(0 <= p < schema.fields.len());
                    }
                }
                lemma_list_keeps_arrival_order(
                    schema,
                    max_parts,
                    validate_text,
                    validate_json,
                    next,
                    parts,
                    from + 1,
                    field,
                );
                let later = values_for(reader, parts, from + 1, name);
                if head.name == name {
                    let bound = Limits {
                        field_limit_remaining: state.field_limits[field],
                        ..state.limits
                    };
                    lemma_leaf_value(
                        reader,
                        validate_text,
                        validate_json,
                        head,
                        part.body(),
                        bound,
                    );
                    let value = leaf_of(reader, head, part.body());
                    assert(next.slots[field] == state.slots[field].push(value));
                    assert(state.slots[field].push(value) + later =~= state.slots[field] + (
                    seq![value] + later));
                } else {
                    if schema.knows(head.name) {
                        let p = schema.position(head.name);
                        assert(schema.fields[p].name == head.name);
                        assert(p != field);
                    }
                    assert(next.slots[field] == state.slots[field]);
                }
            },
            Err(_) => {},
        }
    } else {
        assert(state.slots[field] + Seq::<LeafView>::empty() =~= state.slots[field]);
    }
}

/// Decoding is a function of the bytes: two bodies with the same headers and
/// the same chunks decode alike against one form under one configuration,
/// to the same values in the same order or to the same failure.
pub proof fn lemma_same_bytes_same_form(
    schema: SchemaView,
    quotas: FormLimits,
    validate_text: bool,
    validate_json: bool,
    first: Seq<RawPartView>,
    second: Seq<RawPartView>,
)
    requires
        first == second,
    ensures
        decoded(schema, quotas, validate_text, validate_json, first) == decoded(
            schema,
            quotas,
            validate_text,
            validate_json,
            second,
        ),
{
}

/// A list field and an optional field never fail for want of parts: a list
/// without parts is empty, an optional field without parts has no value.
/// A required field without parts fails under its name.
pub proof fn lemma_fields_without_parts(name: Seq<char>)
    ensures
        collected(FieldShape::List, name, Seq::<LeafView>::empty()) == Ok::<
            FieldValueModel<LeafView>,
            ErrorView,
        >(FieldValueModel::List(Seq::empty())),
        collected(FieldShape::Optional, name, Seq::<LeafView>::empty()) == Ok::<
            FieldValueModel<LeafView>,
            ErrorView,
        >(FieldValueModel::Optional(None)),
        collected(FieldShape::Scalar, name, Seq::<LeafView>::empty()) == Err::<
            FieldValueModel<LeafView>,
            ErrorView,
        >(ErrorView::MissingField(name)),
{
}

/// A second part for a field that takes one value is handled as the
/// duplicate policy says.
///
/// Take a field of one value that has none yet, and two parts that address
/// it and that its reader decodes. The first part is stored. Under `Replace`
/// the second part is decoded too and its value is the one that stays; under
/// `Ignore` the second part is passed over, uncharged, and the first value
/// stays; under `Deny` the second part fails the pass as a duplicate under
/// the name of the field.
pub proof fn lemma_duplicate_policy(
    schema: SchemaView,
    max_parts: usize,
    validate_text: bool,
    validate_json: bool,
    state: Assembly,
    first: RawPartView,
    second: RawPartView,
    field: int,
)
    requires
        schema.well_formed(),
        0 <= field < schema.fields.len(),
        !(schema.fields[field].shape is List),
        state.field_limits.len() == schema.fields.len(),
        state.slots.len() == schema.fields.len(),
        state.slots[field].len() == 0,
        state.parts + 2 <= max_parts,
        first.headers.acceptable(),
        second.headers.acceptable(),
        first.headers.head().name == schema.fields[field].name,
        second.headers.head().name == schema.fields[field].name,
        state.take_part(schema, max_parts, validate_text, validate_json, first) is Ok,
        leaf_outcome(
            schema.fields[field].reader,
            validate_text,
            validate_json,
            second.headers.head(),
            second.body(),
            state.take_part(schema, max_parts, validate_text, validate_json, first)->Ok_0.bound(
                schema,
                schema.fields[field].name,
            ),
        ) is Ok,
    ensures
        ({
            let reader = schema.fields[field].reader;
            let name = schema.fields[field].name;
            let one = state.take_part(schema, max_parts, validate_text, validate_json, first)->Ok_0;
            let two = one.take_part(schema, max_parts, validate_text, validate_json, second);
            &&& one.slots[field] == seq![leaf_of(reader, first.headers.head(), first.body())]
            &&& match schema.duplicate_action {
                DuplicateAction::Replace => two is Ok && two->Ok_0.slots[field] == seq![
                    leaf_of(reader, second.headers.head(), second.body()),
                ],
                DuplicateAction::Ignore => two is Ok && two->Ok_0.slots[field] == one.slots[field]
                    && two->Ok_0.limits.total_limit_remaining == one.limits.total_limit_remaining,
                DuplicateAction::Deny => two == Err::<Assembly, ErrorView>(
                    ErrorView::DuplicateField(name),
                ),
            }
        }),
{
    let reader = schema.fields[field].reader;
    lemma_position(schema, field);
    let bound = state.bound(schema, schema.fields[field].name);
    lemma_leaf_value(
        reader,
        validate_text,
        validate_json,
        first.headers.head(),
        first.body(),
        bound,
    );
    let one = state.take_part(schema, max_parts, validate_text, validate_json, first)->Ok_0;
    assert(one.slots[field] =~= seq![leaf_of(reader, first.headers.head(), first.body())]);
    lemma_leaf_value(
        reader,
        validate_text,
        validate_json,
        second.headers.head(),
        second.body(),
        one.bound(schema, schema.fields[field].name),
    );
    if schema.duplicate_action is Replace {
        let two = one.take_part(schema, max_parts, validate_text, validate_json, second);
        assert(two->Ok_0.slots[field] =~= seq![
            leaf_of(reader, second.headers.head(), second.body()),
        ]);
    }
}

/// A part that addresses no field of the form fails the pass under its name
/// where the form denies unknown fields. Otherwise it is dropped: it is
/// neither read nor charged, and the values of the fields and what is left
/// of their limits stay as they are.
pub proof fn lemma_unknown_field(
    schema: SchemaView,
    max_parts: usize,
    validate_text: bool,
    validate_json: bool,
    state: Assembly,
    part: RawPartView,
)
    requires
        state.parts < max_parts,
        part.headers.acceptable(),
        !schema.knows(part.headers.head().name),
    ensures
        ({
            let taken = state.take_part(schema, max_parts, validate_text, validate_json, part);
            if schema.deny_unknown_fields {
                taken == Err::<Assembly, ErrorView>(
                    ErrorView::UnsupportedField(part.headers.head().name),
                )
            } else {
                &&& taken is Ok
                &&& taken->Ok_0.slots == state.slots
                &&& taken->Ok_0.field_limits == state.field_limits
                &&& taken->Ok_0.limits.total_limit_remaining == state.limits.total_limit_remaining
                &&& taken->Ok_0.limits.memory_limit_remaining
                    == state.limits.memory_limit_remaining
            }
        }),
{
}

/// Whether two states of a pass go on alike: they agree on what is left of
/// the total and memory quotas and of the limit of every field, and on the
/// values of every field. They may differ in the number of parts taken and
/// in the limit that was bound for the last part, which the next part binds
/// anew.
pub open spec fn alike(a: Assembly, b: Assembly) -> bool {
    &&& a.limits.total_limit_remaining == b.limits.total_limit_remaining
    &&& a.limits.memory_limit_remaining == b.limits.memory_limit_remaining
    &&& a.field_limits == b.field_limits
    &&& a.slots == b.slots
}

/// Whether two passes came to the same: states that go on alike, or the
/// same failure.
pub open spec fn same_outcome(
    a: Result<Assembly, ErrorView>,
    b: Result<Assembly, ErrorView>,
) -> bool {
    match (a, b) {
        (Ok(x), Ok(y)) => alike(x, y),
        (Err(e), Err(f)) => e == f,
        _ => false,
    }
}

/// States that go on alike take the same parts alike, as long as neither
/// has taken as many parts as the form may have.
pub proof fn lemma_alike_states_go_on_alike(
    schema: SchemaView,
    max_parts: usize,
    validate_text: bool,
    validate_json: bool,
    a: Assembly,
    b: Assembly,
    p: Seq<RawPartView>,
    q: Seq<RawPartView>,
    i: int,
    j: int,
)
    requires
        alike(a, b),
        0 <= i <= p.len(),
        0 <= j <= q.len(),
        p.skip(i) == q.skip(j),
        a.parts + p.len() - i <= max_parts,
        b.parts + q.len() - j <= max_parts,
    ensures
        same_outcome(
            a.take_parts(schema, max_parts, validate_text, validate_json, p, i),
            b.take_parts(schema, max_parts, validate_text, validate_json, q, j),
        ),
    decreases p.len() - i,
{
    assert(p.skip(i).len() == p.len() - i);
    assert(q.skip(j).len() == q.len() - j);
    if i < p.len() {
        assert(p[i] == p.skip(i)[0]);
        assert(q[j] == q.skip(j)[0]);
        let part = p[i];
        let next_a = a.take_part(schema, max_parts, validate_text, validate_json, part);
        let next_b = b.take_part(schema, max_parts, validate_text, validate_json, part);
        assert(a.bound(schema, part.headers.head().name) == b.bound(
            schema,
            part.headers.head().name,
        ));
        assert(same_outcome(next_a, next_b));
        if next_a is Ok {
            assert(p.skip(i + 1) =~= p.skip(i).skip(1));
            assert(q.skip(j + 1) =~= q.skip(j).skip(1));
            lemma_alike_states_go_on_alike(
                schema,
                max_parts,
                validate_text,
                validate_json,
                next_a->Ok_0,
                next_b->Ok_0,
                p,
                q,
                i + 1,
                j + 1,
            );
        }
    }
}

/// A pass over a body with a part that addresses no field comes to the same
/// as a pass over the body without that part, where the form drops unknown
/// fields and allows as many parts as the body has.
pub proof fn lemma_dropped_part(
    schema: SchemaView,
    max_parts: usize,
    validate_text: bool,
    validate_json: bool,
    a: Assembly,
    b: Assembly,
    parts: Seq<RawPartView>,
    dropped: int,
    from: int,
)
    requires
        alike(a, b),
        0 <= from <= dropped < parts.len(),
        parts[dropped].headers.acceptable(),
        !schema.knows(parts[dropped].headers.head().name),
        !schema.deny_unknown_fields,
        a.parts + parts.len() - from <= max_parts,
        b.parts + parts.len() - 1 - from <= max_parts,
    ensures
        same_outcome(
            a.take_parts(schema, max_parts, validate_text, validate_json, parts, from),
            b.take_parts(
                schema,
                max_parts,
                validate_text,
                validate_json,
                parts.remove(dropped),
                from,
            ),
        ),
    decreases dropped - from,
{
    let without = parts.remove(dropped);
    assert(without.len() == parts.len() - 1);
    if from == dropped {
        lemma_unknown_field(schema, max_parts, validate_text, validate_json, a, parts[dropped]);
        let next = a.take_part(schema, max_parts, validate_text, validate_json, parts[dropped])->Ok_0;
        assert(alike(next, b));
        assert(parts.skip(dropped + 1) =~= without.skip(dropped));
        lemma_alike_states_go_on_alike(
            schema,
            max_parts,
            validate_text,
            validate_json,
            next,
            b,
            parts,
            without,
            dropped + 1,
            dropped,
        );
    } else {
        let part = parts[from];
        assert(without[from] == part);
        let next_a = a.take_part(schema, max_parts, validate_text, validate_json, part);
        let next_b = b.take_part(schema, max_parts, validate_text, validate_json, part);
        assert(a.bound(schema, part.headers.head().name) == b.bound(
            schema,
            part.headers.head().name,
        ));
        assert(same_outcome(next_a, next_b));
        if next_a is Ok {
            lemma_dropped_part(
                schema,
                max_parts,
                validate_text,
                validate_json,
                next_a->Ok_0,
                next_b->Ok_0,
                parts,
                dropped,
                from + 1,
            );
        }
    }
}

/// A part that addresses no field of the form, wherever it stands in the
/// body, does not change the decoded form: with it and without it the body
/// decodes to the same values or fails alike. The form drops unknown fields
/// and allows as many parts as the body has.
pub proof fn lemma_dropped_part_changes_nothing(
    schema: SchemaView,
    quotas: FormLimits,
    validate_text: bool,
    validate_json: bool,
    parts: Seq<RawPartView>,
    dropped: int,
)
    requires
        0 <= dropped < parts.len(),
        parts[dropped].headers.acceptable(),
        !schema.knows(parts[dropped].headers.head().name),
        !schema.deny_unknown_fields,
        parts.len() <= quotas.max_parts,
    ensures
        decoded(schema, quotas, validate_text, validate_json, parts) == decoded(
            schema,
            quotas,
            validate_text,
            validate_json,
            parts.remove(dropped),
        ),
{
    let start = Assembly::start(schema, quotas);
    lemma_dropped_part(
        schema,
        quotas.max_parts,
        validate_text,
        validate_json,
        start,
        start,
        parts,
        dropped,
        0,
    );
}

/// A body without parts decodes to a form in which every list is empty and
/// every optional field has no value, unless the form has a required field:
/// then the decode fails as a missing field under the name of the first
/// required field.
pub proof fn lemma_empty_body(
    schema: SchemaView,
    quotas: FormLimits,
    validate_text: bool,
    validate_json: bool,
)
    ensures
        ({
            let form = decoded(schema, quotas, validate_text, validate_json, Seq::empty());
            let slots = Assembly::start(schema, quotas).slots;
            match schema.missing_from(slots, 0) {
                Some(first) => {
                    &&& 0 <= first < schema.fields.len()
                    &&& schema.fields[first].shape is Scalar
                    &&& forall|k: int| 0 <= k < first ==> !((#[trigger] schema.fields[k]).shape is Scalar)
                    &&& form == Err::<Seq<FieldValueModel<LeafView>>, ErrorView>(
                        ErrorView::MissingField(schema.fields[first].name),
                    )
                },
                None => {
                    &&& forall|k: int|
                        0 <= k < schema.fields.len() ==> !((#[trigger] schema.fields[k]).shape is Scalar)
                    &&& form is Ok
                    &&& form->Ok_0.len() == schema.fields.len()
                    &&& forall|k: int|
                        0 <= k < schema.fields.len() ==> (#[trigger] form->Ok_0[k]) == (
                        if schema.fields[k].shape is List {
                            FieldValueModel::<LeafView>::List(Seq::empty())
                        } else {
                            FieldValueModel::<LeafView>::Optional(None)
                        })
                },
            }
        }),
{
    let slots = Assembly::start(schema, quotas).slots;
    schema.lemma_missing_from(slots, 0);
    match schema.missing_from(slots, 0) {
        Some(first) => {
            assert forall|k: int| 0 <= k < first implies !((#[trigger] schema.fields[k]).shape is Scalar) by {
                assert(!schema.is_missing(slots, k));
            }
        },
        None => {
            assert forall|k: int| 0 <= k < schema.fields.len() implies !((
            #[trigger] schema.fields[k]).shape is Scalar) by {
                assert(!schema.is_missing(slots, k));
            }
        },
    }
}

/// Each part of a body that is loaded becomes one field, at the position of
/// the part, under the name and of the kind that the headers of the part
/// declare.
pub proof fn lemma_loaded_keeps_arrival_order(
    state: Loaded,
    max_parts: usize,
    parts: Seq<RawPartView>,
    from: int,
)
    requires
        0 <= from <= parts.len(),
    ensures
        state.take_parts(max_parts, parts, from) matches Ok(fields) ==> {
            &&& fields.len() == state.fields.len() + parts.len() - from
            &&& state.fields.is_prefix_of(fields)
            &&& forall|k: int|
                from <= k < parts.len() ==> {
                    let field = #[trigger] fields[state.fields.len() + k - from];
                    let head = parts[k].headers.head();
                    &&& field.name() == head.name
                    &&& (field is Text <==> head.kind() == PartKind::Text)
                }
        },
    decreases parts.len() - from,
{
    if from < parts.len() {
        match state.take_part(max_parts, parts[from]) {
            Ok(next) => {
                lemma_loaded_keeps_arrival_order(next, max_parts, parts, from + 1);
                match next.take_parts(max_parts, parts, from + 1) {
                    Ok(fields) => {
                        assert(fields[state.fields.len() as int] == next.fields[state.fields.len() as int]);
                        assert forall|k: int| from <= k < parts.len() implies {
                            let field = #[trigger] fields[state.fields.len() + k - from];
                            let head = parts[k].headers.head();
                            &&& field.name() == head.name
                            &&& (field is Text <==> head.kind() == PartKind::Text)
                        } by {
                            if k > from {
                                assert(fields[state.fields.len() + k - from] == fields[next.fields.len()
                                    + k - (from + 1)]);
                            }
                        }
                    },
                    Err(_) => {},
                }
            },
            Err(_) => {},
        }
    }
}

/// A body that is loaded gives one field for each of its parts, in the order
/// of the parts: the field at a position bears the name and is of the kind
/// that the headers of the part at that position declare.
pub proof fn lemma_loaded_in_order(limits: LoadLimits, parts: Seq<RawPartView>)
    ensures
        loaded(limits, parts) matches Ok(fields) ==> {
            &&& fields.len() == parts.len()
            &&& fields.len() <= limits.max_parts
            &&& forall|k: int|
                0 <= k < parts.len() ==> {
                    &&& (#[trigger] fields[k]).name() == parts[k].headers.head().name
                    &&& (fields[k] is Text <==> parts[k].headers.head().kind() == PartKind::Text)
                }
        },
{
    let start = Loaded {
        fields: Seq::empty(),
        text_budget: limits.text_limit,
        file_budget: limits.file_limit,
    };
    lemma_loaded_keeps_arrival_order(start, limits.max_parts, parts, 0);
    lemma_loaded_within_max_parts(start, limits.max_parts, parts, 0);
    match loaded(limits, parts) {
        Ok(fields) => {
            assert forall|k: int| 0 <= k < parts.len() implies {
                &&& (#[trigger] fields[k]).name() == parts[k].headers.head().name
                &&& (fields[k] is Text <==> parts[k].headers.head().kind() == PartKind::Text)
            } by {
                assert(fields[k] == fields[start.fields.len() + k - 0]);
            }
        },
        Err(_) => {},
    }
}

/// A pass never emits more parts than it may.
pub proof fn lemma_loaded_within_max_parts(
    state: Loaded,
    max_parts: usize,
    parts: Seq<RawPartView>,
    from: int,
)
    requires
        0 <= from <= parts.len(),
        state.fields.len() <= max_parts,
    ensures
        state.take_parts(max_parts, parts, from) matches Ok(fields) ==> fields.len() <= max_parts,
    decreases parts.len() - from,
{
    if from < parts.len() {
        match state.take_part(max_parts, parts[from]) {
            Ok(next) => {
                lemma_loaded_within_max_parts(next, max_parts, parts, from + 1);
            },
            Err(_) => {},
        }
    }
}

/// The bytes that the files among the fields hold together.
pub open spec fn file_bytes(fields: Seq<FieldView>) -> nat
    decreases fields.len(),
{
    if fields.len() == 0 {
        0
    } else {
        file_bytes(fields.drop_last()) + match fields.last() {
            FieldView::File(f) => f.size as nat,
            FieldView::Text(_) => 0,
        }
    }
}

/// The bytes that the texts among the fields hold together, encoded as
/// UTF-8.
pub open spec fn text_bytes(fields: Seq<FieldView>) -> nat
    decreases fields.len(),
{
    if fields.len() == 0 {
        0
    } else {
        text_bytes(fields.drop_last()) + match fields.last() {
            FieldView::File(_) => 0,
            FieldView::Text(t) => encode_utf8(t.text).len(),
        }
    }
}

/// No part is larger than the quota that it was charged against: what a
/// pass emits holds no more bytes of files than the file quota allowed at
/// its start, and no more bytes of text than the text quota allowed.
pub proof fn lemma_loaded_within_quotas(
    state: Loaded,
    max_parts: usize,
    parts: Seq<RawPartView>,
    from: int,
)
    requires
        0 <= from <= parts.len(),
    ensures
        state.take_parts(max_parts, parts, from) matches Ok(fields) ==> {
            &&& file_bytes(fields) <= file_bytes(state.fields) + state.file_budget
            &&& text_bytes(fields) <= text_bytes(state.fields) + state.text_budget
        },
    decreases parts.len() - from,
{
    if from < parts.len() {
        match state.take_part(max_parts, parts[from]) {
            Ok(next) => {
                lemma_loaded_within_quotas(next, max_parts, parts, from + 1);
                assert(next.fields.drop_last() == state.fields);
                if next.fields.last() is Text {
                    decode_utf8_encode_utf8(parts[from].body());
                }
            },
            Err(_) => {},
        }
    }
}

/// A body that is loaded holds no more bytes of files than the file quota
/// and no more bytes of text than the text quota.
pub proof fn lemma_loaded_fits(limits: LoadLimits, parts: Seq<RawPartView>)
    ensures
        loaded(limits, parts) matches Ok(fields) ==> file_bytes(fields) <= limits.file_limit
            && text_bytes(fields) <= limits.text_limit,
{
    let start = Loaded {
        fields: Seq::empty(),
        text_budget: limits.text_limit,
        file_budget: limits.file_limit,
    };
    lemma_loaded_within_quotas(start, limits.max_parts, parts, 0);
}

/// A part with malformed headers fails the load wherever it stands in the
/// body: where the parts before it are loaded and leave room for one more,
/// the load fails as malformed headers; where they fail, the load fails as
/// they do.
pub proof fn lemma_malformed_part_fails(
    state: Loaded,
    max_parts: usize,
    parts: Seq<RawPartView>,
    from: int,
    malformed: int,
)
    requires
        0 <= from <= malformed < parts.len(),
        !parts[malformed].headers.acceptable(),
    ensures
        match state.take_parts(max_parts, parts.take(malformed), from) {
            Ok(fields) => fields.len() < max_parts ==> state.take_parts(max_parts, parts, from)
                == Err::<Seq<FieldView>, MultipartError>(
                MultipartError::Parse(ParseError::Header),
            ),
            Err(e) => state.take_parts(max_parts, parts, from) == Err::<
                Seq<FieldView>,
                MultipartError,
            >(e),
        },
    decreases malformed - from,
{
    let before = parts.take(malformed);
    if from < malformed {
        assert(before[from] == parts[from]);
        match state.take_part(max_parts, parts[from]) {
            Ok(next) => {
                lemma_malformed_part_fails(next, max_parts, parts, from + 1, malformed);
            },
            Err(_) => {},
        }
    }
}

/// A body is loaded only if its text fits the text quota and its files fit
/// the file quota: a text part that is larger than what is left of the text
/// quota fails the pass over the quota, and so does a file part that is
/// larger than what is left of the file quota.
pub proof fn lemma_load_over_quota_fails(state: Loaded, max_parts: usize, part: RawPartView)
    requires
        state.fields.len() < max_parts,
        part.headers.acceptable(),
        ({
            let head = part.headers.head();
            if head.kind() == PartKind::Text {
                part.body().len() > state.text_budget
            } else {
                part.body().len() > state.file_budget
            }
        }),
    ensures
        state.take_part(max_parts, part) == Err::<Loaded, MultipartError>(
            MultipartError::Payload(PayloadError::Overflow),
        ),
{
}

} // verus!
