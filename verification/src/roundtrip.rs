//! What holds of writing and reading values: a value that is written and read back is
//! the value again, and what is read is a value of the type that it was read against.

use crate::codec::{
    decode_argument, decode_fields, decode_type, encode, encode_fields, is_written,
    lemma_all_some, lemma_member_decreases, lemma_written_step, named_values, read_fields,
    read_items, read_positions, written_members, Written,
};
use crate::decimal::lemma_integer_text;
use crate::error::AgentErrorView;
use crate::json::{keys, JsonView};
use crate::lookup::{lemma_position, lemma_position_found, lemma_position_missing, position};
use crate::tool::tool_names;
use crate::toolset::{InvocationView, ToolSetView};
use crate::types::{
    type_names, ArgumentTypeView, FieldView, NamedTypeView, PayloadView, TypeDescView,
};
use crate::value::{
    field_names_of, fields_of, has_argument_type, has_fields, has_type, items_of,
    valid_definition, valid_fields, valid_table, variant_name, variant_names, ArgValueView,
};
use vstd::prelude::*;

verus! {

/// The names of the written fields, in order.
pub open spec fn written_names(fields: Seq<Written>) -> Seq<Seq<char>> {
    fields.map_values(|w: Written| w.name)
}

/// Each member that is written has the name of one of the fields.
proof fn lemma_written_keys(fields: Seq<Written>, omit_absent: bool, j: int)
    requires
        0 <= j < written_members(fields, omit_absent).len(),
    ensures
        written_names(fields).contains(written_members(fields, omit_absent)[j].0),
    decreases fields.len(),
{
    if fields.len() == 0 {
        reveal(Seq::filter);
    } else {
        lemma_written_step(fields, omit_absent);
        let front = fields.drop_last();
        let members = written_members(front, omit_absent);
        if j < members.len() {
            lemma_written_keys(front, omit_absent, j);
            let i = choose|i: int|
                0 <= i < written_names(front).len() && written_names(front)[i] == members[j].0;
            assert(written_names(fields)[i] == members[j].0);
        } else {
            assert(written_names(fields)[fields.len() - 1] == fields.last().name);
        }
    }
}

/// Where the fields have different names, the object that is written for them holds
/// under the name of each the JSON of that field, or nothing where the field is left
/// out.
pub proof fn lemma_written_lookup(fields: Seq<Written>, omit_absent: bool, k: int)
    requires
        written_names(fields).no_duplicates(),
        0 <= k < fields.len(),
    ensures
        JsonView::Object(written_members(fields, omit_absent)).get(fields[k].name) == if is_written(
            fields[k],
            omit_absent,
        ) {
            Some(fields[k].json)
        } else {
            None
        },
    decreases fields.len(),
{
    lemma_written_step(fields, omit_absent);
    let front = fields.drop_last();
    let last = fields.last();
    let name = fields[k].name;
    let before = written_members(front, omit_absent);
    let after = written_members(fields, omit_absent);
    assert(written_names(front) =~= written_names(fields).drop_last());
    assert(written_names(fields)[k] == name);
    assert(written_names(fields)[fields.len() - 1] == last.name);
    if k == fields.len() - 1 {
        assert forall|j: int| 0 <= j < before.len() implies keys(before)[j] != name by {
            lemma_written_keys(front, omit_absent, j);
            let i = choose|i: int|
                0 <= i < written_names(front).len() && written_names(front)[i] == before[j].0;
            assert(written_names(fields)[i] == before[j].0);
        }
    }
    if k < fields.len() - 1 {
        assert(front[k] == fields[k]);
        lemma_written_lookup(front, omit_absent, k);
        lemma_position(keys(before), name);
        match position(keys(before), name) {
            Some(p) => {
                assert(keys(after)[p] == name);
                assert forall|j: int| 0 <= j < p implies keys(after)[j] != name by {
                    assert(keys(before)[j] != name);
                }
                lemma_position_found(keys(after), name, p);
            },
            None => {
                assert(last.name != name);
                assert forall|j: int| 0 <= j < after.len() implies keys(after)[j] != name by {
                    if j < before.len() {
                        assert(keys(before)[j] != name);
                    }
                }
                lemma_position_missing(keys(after), name);
            },
        }
    } else {
        if is_written(last, omit_absent) {
            let p = before.len() as int;
            assert(keys(after)[p] == name);
            assert forall|j: int| 0 <= j < p implies keys(after)[j] != name by {
                assert(keys(before)[j] != name);
            }
            lemma_position_found(keys(after), name, p);
        } else {
            assert forall|j: int| 0 <= j < after.len() implies keys(after)[j] != name by {
                assert(keys(before)[j] != name);
            }
            lemma_position_missing(keys(after), name);
        }
    }
}

/// An object holds under the key of its first member that member's value, and under
/// another key what the object of the other members holds.
pub proof fn lemma_get_first(
    key: Seq<char>,
    value: JsonView,
    rest: Seq<(Seq<char>, JsonView)>,
    other: Seq<char>,
)
    ensures
        JsonView::Object(seq![(key, value)] + rest).get(key) == Some(value),
        other != key ==> JsonView::Object(seq![(key, value)] + rest).get(other)
            == JsonView::Object(rest).get(other),
{
    let all = seq![(key, value)] + rest;
    assert(keys(all)[0] == key);
    lemma_position_found(keys(all), key, 0);
    if other != key {
        lemma_position(keys(rest), other);
        match position(keys(rest), other) {
            Some(p) => {
                assert(keys(all)[p + 1] == keys(rest)[p]);
                assert forall|j: int| 0 <= j < p + 1 implies keys(all)[j] != other by {
                    if j > 0 {
                        assert(keys(all)[j] == keys(rest)[j - 1]);
                    }
                }
                lemma_position_found(keys(all), other, p + 1);
                assert(all[p + 1] == rest[p]);
            },
            None => {
                assert forall|j: int| 0 <= j < all.len() implies keys(all)[j] != other by {
                    if j > 0 {
                        assert(keys(all)[j] == keys(rest)[j - 1]);
                    }
                }
                lemma_position_missing(keys(all), other);
            },
        }
    }
}

/// Only an absent value is written as `null`.
pub proof fn lemma_null_is_absent(v: ArgValueView)
    ensures
        encode(v) is Null <==> v is Absent,
{
}

/// An absent value is of no type but an optional one.
pub proof fn lemma_absent_is_optional(table: Seq<NamedTypeView>, ty: TypeDescView)
    requires
        has_type(table, ty, ArgValueView::Absent),
    ensures
        ty is Optional,
{
    if let TypeDescView::Named(name) = ty {
        lemma_position(type_names(table), name);
        let i = position(type_names(table), name).unwrap();
        assert(has_argument_type(table, table[i].definition, ArgValueView::Absent));
    }
}

/// A value of a type, written as JSON and read as a value of the type, is the value
/// again.
pub proof fn lemma_round_trip(table: Seq<NamedTypeView>, ty: TypeDescView, v: ArgValueView)
    requires
        valid_table(table),
        has_type(table, ty, v),
    ensures
        decode_type(table, ty, encode(v)) == Some(v),
    decreases v, 2int, ty.depth(),
{
    match ty {
        TypeDescView::Integer => {
            lemma_integer_text(encode(v)->Number_0, v->Integer_0);
        },
        TypeDescView::List(item) => {
            let items = v->List_0;
            let read = read_items(table, *item, encode(v));
            assert forall|k: int| 0 <= k < read.len() implies #[trigger] read[k] == Some(
                items[k],
            ) by {
                assert(has_type(table, *item, items[k]));
                lemma_round_trip(table, *item, items[k]);
            }
            lemma_all_some(read, items);
        },
        TypeDescView::Optional(inner) => {
            if !(v is Absent) {
                lemma_round_trip(table, *inner, v);
            }
        },
        TypeDescView::Named(name) => {
            lemma_position(type_names(table), name);
            let i = position(type_names(table), name).unwrap();
            lemma_round_trip_argument(table, table[i].definition, v);
        },
        _ => {},
    }
}

/// A value of a record or of a tagged union, written as JSON and read as a value of
/// the record or the union, is the value again.
pub proof fn lemma_round_trip_argument(
    table: Seq<NamedTypeView>,
    definition: ArgumentTypeView,
    v: ArgValueView,
)
    requires
        valid_table(table),
        valid_definition(definition),
        has_argument_type(table, definition, v),
    ensures
        decode_argument(table, definition, encode(v)) == Some(v),
    decreases v, 1int, 0nat,
{
    match definition {
        ArgumentTypeView::Record { fields } => {
            lemma_round_trip_fields(table, fields, v);
        },
        ArgumentTypeView::Union { variants, description } => {
            reveal_strlit("type");
            reveal_strlit("value");
            let name = variant_name(v);
            lemma_position(variant_names(variants), name);
            let k = position(variant_names(variants), name).unwrap();
            let variant = variants[k];
            assert(variant.name == name);
            let members = encode(v)->Object_0;
            lemma_get_first("type"@, JsonView::Text(name), members.skip(1), "value"@);
            assert(members =~= seq![("type"@, JsonView::Text(name))] + members.skip(1));
            match variant.payload {
                PayloadView::Unit => {},
                PayloadView::Tuple(types) => {
                    let values = v->Tuple_1;
                    let value = members[1].1;
                    lemma_get_first("value"@, value, Seq::empty(), "value"@);
                    assert(members.skip(1) =~= seq![("value"@, value)] + Seq::empty());
                    assert("value"@.len() != "type"@.len());
                    assert(encode(v) == JsonView::Object(
                        seq![("type"@, JsonView::Text(name))] + members.skip(1),
                    ));
                    assert(encode(v).get("value"@) == Some(value));
                    if types.len() == 1 {
                        assert(has_type(table, types[0], items_of(v)[0]));
                        lemma_round_trip(table, types[0], values[0]);
                        assert(seq![values[0]] =~= values);
                    } else {
                        let read = read_positions(table, types, value);
                        assert forall|j: int| 0 <= j < read.len() implies #[trigger] read[j]
                            == Some(values[j]) by {
                            assert(has_type(table, types[j], items_of(v)[j]));
                            lemma_round_trip(table, types[j], values[j]);
                        }
                        lemma_all_some(read, values);
                    }
                },
                PayloadView::Named(fields) => {
                    lemma_round_trip_fields(table, fields, v);
                },
            }
        },
    }
}

/// The fields of a record or of a variant, written and read back, are the fields again.
proof fn lemma_round_trip_fields(table: Seq<NamedTypeView>, fields: Seq<FieldView>, v: ArgValueView)
    requires
        valid_table(table),
        v is Record || v is Struct,
        valid_fields(fields, v is Struct),
        has_fields(table, fields, v),
    ensures
        decode_fields(table, fields, encode(v), v is Struct) == Some(fields_of(v)),
    decreases v, 0int, 0nat,
{
    reveal_strlit("type");
    let held = fields_of(v);
    let written = encode_fields(v);
    let omit = v is Record;
    let read = read_fields(table, fields, encode(v), v is Struct);
    let values = Seq::new(held.len(), |k: int| held[k].1);
    assert(written_names(written) =~= field_names_of(fields)) by {
        assert forall|k: int| 0 <= k < fields.len() implies written_names(written)[k]
            == field_names_of(fields)[k] by {
            assert(held[k].0 == fields[k].name);
        }
    }
    assert forall|k: int| 0 <= k < read.len() implies #[trigger] read[k] == Some(values[k]) by {
        assert(held[k].0 == fields[k].name && has_type(table, fields[k].ty, held[k].1));
        lemma_written_lookup(written, omit, k);
        lemma_round_trip(table, fields[k].ty, held[k].1);
        lemma_null_is_absent(held[k].1);
        if v is Struct {
            assert(field_names_of(fields)[k] == fields[k].name);
            lemma_get_first(
                "type"@,
                JsonView::Text(v->Struct_0),
                written_members(written, false),
                fields[k].name,
            );
        } else {
            if held[k].1 is Absent {
                lemma_absent_is_optional(table, fields[k].ty);
            }
        }
    }
    lemma_all_some(read, values);
    assert(named_values(fields, values) =~= held);
}

/// What is read as a value of a type is a value of the type.
pub proof fn lemma_decode_typed(table: Seq<NamedTypeView>, ty: TypeDescView, json: JsonView)
    ensures
        decode_type(table, ty, json) matches Some(v) ==> has_type(table, ty, v),
    decreases json, 2int, ty.depth(),
{
    if let Some(v) = decode_type(table, ty, json) {
        match ty {
            TypeDescView::List(item) => {
                let items = json->Array_0;
                let read = read_items(table, *item, json);
                let values = v->List_0;
                assert forall|k: int| 0 <= k < values.len() implies has_type(
                    table,
                    *item,
                    #[trigger] values[k],
                ) by {
                    assert(read[k] is Some);
                    lemma_decode_typed(table, *item, items[k]);
                }
            },
            TypeDescView::Optional(inner) => {
                if !(json is Null) {
                    lemma_decode_typed(table, *inner, json);
                }
            },
            TypeDescView::Named(name) => {
                lemma_position(type_names(table), name);
                let i = position(type_names(table), name).unwrap();
                lemma_decode_argument_typed(table, table[i].definition, json);
            },
            _ => {},
        }
    }
}

/// What is read as a value of a record or of a tagged union is a value of it.
pub proof fn lemma_decode_argument_typed(
    table: Seq<NamedTypeView>,
    definition: ArgumentTypeView,
    json: JsonView,
)
    ensures
        decode_argument(table, definition, json) matches Some(v) ==> has_argument_type(
            table,
            definition,
            v,
        ),
    decreases json, 1int, 0nat,
{
    if let Some(v) = decode_argument(table, definition, json) {
        match definition {
            ArgumentTypeView::Record { fields } => {
                lemma_decode_fields_typed(table, fields, json, false, v);
            },
            ArgumentTypeView::Union { variants, description } => {
                let tag = json.get("type"@).unwrap()->Text_0;
                lemma_position(variant_names(variants), tag);
                let k = position(variant_names(variants), tag).unwrap();
                let variant = variants[k];
                assert(variant.name == tag);
                assert(variant_name(v) == tag);
                match variant.payload {
                    PayloadView::Unit => {},
                    PayloadView::Tuple(types) => {
                        let value = json.get("value"@).unwrap();
                        lemma_member_decreases(json, "value"@);
                        let values = v->Tuple_1;
                        if types.len() == 1 {
                            lemma_decode_typed(table, types[0], value);
                        } else {
                            let items = value->Array_0;
                            let read = read_positions(table, types, value);
                            assert forall|j: int| 0 <= j < types.len() implies has_type(
                                table,
                                types[j],
                                #[trigger] items_of(v)[j],
                            ) by {
                                assert(read[j] is Some);
                                lemma_decode_typed(table, types[j], items[j]);
                            }
                        }
                    },
                    PayloadView::Named(fields) => {
                        lemma_decode_fields_typed(table, fields, json, true, v);
                    },
                }
            },
        }
    }
}

/// The fields that are read from an object are the fields of the type, each with a
/// value of its type.
proof fn lemma_decode_fields_typed(
    table: Seq<NamedTypeView>,
    fields: Seq<FieldView>,
    json: JsonView,
    all_required: bool,
    v: ArgValueView,
)
    requires
        v is Record || v is Struct,
        decode_fields(table, fields, json, all_required) == Some(fields_of(v)),
    ensures
        has_fields(table, fields, v),
    decreases json, 0int, 2nat,
{
    let read = read_fields(table, fields, json, all_required);
    let held = fields_of(v);
    assert forall|k: int| 0 <= k < fields.len() implies (#[trigger] held[k]).0 == fields[k].name
        && has_type(table, fields[k].ty, held[k].1) by {
        assert(read[k] is Some);
        match json.get(fields[k].name) {
            Some(member) => {
                lemma_member_decreases(json, fields[k].name);
                lemma_decode_typed(table, fields[k].ty, member);
            },
            None => {},
        }
    }
}

/// A tool's arguments, written as JSON and dispatched to the tool, reach it as they
/// were: where `v` is a value of the type that a tool of the set expects, dispatching
/// the JSON of `v` under the tool's name gives the invocation of the tool with `v`.
pub proof fn lemma_dispatch_round_trip(set: ToolSetView, i: int, v: ArgValueView)
    requires
        set.wf(),
        valid_table(set.types),
        0 <= i < set.tools.len(),
        valid_definition(set.tools[i].parameters),
        has_argument_type(set.types, set.tools[i].parameters, v),
    ensures
        set.dispatch(set.tools[i].name, encode(v)) == Ok::<InvocationView, AgentErrorView>(
            InvocationView { tool: i, name: set.tools[i].name, arguments: v },
        ),
{
    let names = tool_names(set.tools);
    assert(names[i] == set.tools[i].name);
    lemma_position_found(names, set.tools[i].name, i);
    lemma_round_trip_argument(set.types, set.tools[i].parameters, v);
}

/// What a dispatch hands to a tool is a value of the type that the tool expects: an
/// invocation names a tool of the set by its place and its name, and its arguments are a
/// value of that tool's parameters.
pub proof fn lemma_dispatch_typed(set: ToolSetView, name: Seq<char>, args: JsonView)
    ensures
        set.dispatch(name, args) matches Ok(invocation) ==> {
            &&& 0 <= invocation.tool < set.tools.len()
            &&& invocation.name == name
            &&& set.tools[invocation.tool].name == name
            &&& has_argument_type(
                set.types,
                set.tools[invocation.tool].parameters,
                invocation.arguments,
            )
        },
{
    lemma_position(tool_names(set.tools), name);
    if let Some(i) = position(tool_names(set.tools), name) {
        lemma_decode_argument_typed(set.types, set.tools[i].parameters, args);
    }
}

} // verus!
