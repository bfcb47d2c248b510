//! JSON Schema for described types.
//!
//! A primitive type becomes `{"type": ..}`, a list `{"type": "array", "items": ..}`, an
//! optional type the schema of what it wraps. A record becomes an object schema whose
//! `required` names the fields that are not optional; a tagged union becomes a `oneOf`
//! with one object schema for each variant, told apart by the constant under `type`.
//! The description of a field, of a variant or of a union goes into its schema under
//! `description`, unless it is empty. Members stand in the order of declaration.
//! A named type is expanded in place. Where it cannot be, because no definition stands
//! under the name or because the name is being expanded further up, it becomes
//! `{"$ref": "#/definitions/<name>"}`; so a type that contains itself has a finite schema.

use crate::json::{keys, member_views, views, Json, JsonView};
use crate::lookup::{lemma_position, lemma_position_found, lemma_position_missing, position};
use crate::types::{
    field_views, type_names, type_views, variant_views, ArgumentType, ArgumentTypeView, Field,
    FieldView, NamedTypeView, Payload, PayloadView, TypeDesc, TypeDescView, TypeTable, Variant,
    VariantView,
};
use vstd::prelude::*;
use vstd::string::StringExecFns;

verus! {

/// The object `{key: value}`.
pub open spec fn single(key: Seq<char>, value: JsonView) -> JsonView {
    JsonView::Object(seq![(key, value)])
}

/// The schema of a primitive kind: `{"type": kind}`.
pub open spec fn primitive_schema(kind: Seq<char>) -> JsonView {
    single("type"@, JsonView::Text(kind))
}

/// The schema of a list: `{"type": "array", "items": items}`.
pub open spec fn list_schema(items: JsonView) -> JsonView {
    JsonView::Object(seq![("type"@, JsonView::Text("array"@)), ("items"@, items)])
}

/// What stands for a named type that is not expanded in place.
pub open spec fn reference_schema(name: Seq<char>) -> JsonView {
    single("$ref"@, JsonView::Text("#/definitions/"@ + name))
}

/// `schema` with `description` under the key `description`, unless it is empty.
pub open spec fn described(schema: JsonView, description: Seq<char>) -> JsonView {
    if description.len() == 0 {
        schema
    } else {
        schema.with_member("description"@, JsonView::Text(description))
    }
}

/// The defined names that are not being expanded: what bounds the depth of expansion.
pub open spec fn expandable(table: Seq<NamedTypeView>, visiting: Set<Seq<char>>) -> Set<
    Seq<char>,
> {
    type_names(table).to_set().difference(visiting)
}

/// Expanding a defined name that is not being expanded leaves fewer to expand.
pub proof fn lemma_expansion_decreases(
    table: Seq<NamedTypeView>,
    visiting: Set<Seq<char>>,
    name: Seq<char>,
)
    requires
        position(type_names(table), name) is Some,
        !visiting.contains(name),
    ensures
        expandable(table, visiting).finite(),
        expandable(table, visiting.insert(name)).len() < expandable(table, visiting).len(),
{
    let names = type_names(table);
    vstd::seq_lib::seq_to_set_is_finite(names);
    crate::lookup::lemma_position(names, name);
    let i = position(names, name).unwrap();
    assert(names[i] == name);
    assert(names.to_set().contains(name));
    let before = expandable(table, visiting);
    let after = expandable(table, visiting.insert(name));
    assert(before.contains(name));
    assert(after =~= before.remove(name));
}

/// The schema of the type `ty` with the description `description`, in a table of named
/// types, while the names in `visiting` are being expanded.
pub open spec fn type_schema(
    table: Seq<NamedTypeView>,
    visiting: Set<Seq<char>>,
    ty: TypeDescView,
    description: Seq<char>,
) -> JsonView
    decreases expandable(table, visiting).len(), 1int, ty.depth(),
{
    match ty {
        TypeDescView::Text => described(primitive_schema("string"@), description),
        TypeDescView::Integer => described(primitive_schema("integer"@), description),
        TypeDescView::Number => described(primitive_schema("number"@), description),
        TypeDescView::Boolean => described(primitive_schema("boolean"@), description),
        TypeDescView::List(item) => described(
            list_schema(type_schema(table, visiting, *item, Seq::empty())),
            description,
        ),
        TypeDescView::Optional(inner) => type_schema(table, visiting, *inner, description),
        TypeDescView::Named(name) => described(named_schema(table, visiting, name), description),
    }
}

/// The schema of the type defined under `name`: its definition expanded, or a reference.
pub open spec fn named_schema(
    table: Seq<NamedTypeView>,
    visiting: Set<Seq<char>>,
    name: Seq<char>,
) -> JsonView
    decreases expandable(table, visiting).len(), 0int, 0int,
{
    match position(type_names(table), name) {
        Some(i) => if visiting.contains(name) {
            reference_schema(name)
        } else {
            proof {
                lemma_expansion_decreases(table, visiting, name);
            }
            argument_schema(table, visiting.insert(name), table[i].definition)
        },
        None => reference_schema(name),
    }
}

/// The schema of a record or of a tagged union.
pub open spec fn argument_schema(
    table: Seq<NamedTypeView>,
    visiting: Set<Seq<char>>,
    definition: ArgumentTypeView,
) -> JsonView
    decreases expandable(table, visiting).len(), 5int, 0int,
{
    match definition {
        ArgumentTypeView::Record { fields } => record_schema(
            fields,
            field_schemas(table, visiting, fields),
        ),
        ArgumentTypeView::Union { variants, description } => union_schema(
            variant_schemas(table, visiting, variants),
            description,
        ),
    }
}

/// The schemas of the fields' types, in order, each with its field's description.
pub open spec fn field_schemas(
    table: Seq<NamedTypeView>,
    visiting: Set<Seq<char>>,
    fields: Seq<FieldView>,
) -> Seq<JsonView>
    decreases expandable(table, visiting).len(), 2int, 0int,
{
    Seq::new(
        fields.len(),
        |i: int|
            if 0 <= i < fields.len() {
                type_schema(table, visiting, fields[i].ty, fields[i].description)
            } else {
                JsonView::Null
            },
    )
}

/// The schemas of the types, in order.
pub open spec fn position_schemas(
    table: Seq<NamedTypeView>,
    visiting: Set<Seq<char>>,
    types: Seq<TypeDescView>,
) -> Seq<JsonView>
    decreases expandable(table, visiting).len(), 2int, 0int,
{
    Seq::new(
        types.len(),
        |i: int|
            if 0 <= i < types.len() {
                type_schema(table, visiting, types[i], Seq::empty())
            } else {
                JsonView::Null
            },
    )
}

/// The schemas of the variants, in order.
pub open spec fn variant_schemas(
    table: Seq<NamedTypeView>,
    visiting: Set<Seq<char>>,
    variants: Seq<VariantView>,
) -> Seq<JsonView>
    decreases expandable(table, visiting).len(), 4int, 0int,
{
    Seq::new(
        variants.len(),
        |i: int|
            if 0 <= i < variants.len() {
                variant_schema(table, visiting, variants[i])
            } else {
                JsonView::Null
            },
    )
}

/// The schema of one variant.
pub open spec fn variant_schema(
    table: Seq<NamedTypeView>,
    visiting: Set<Seq<char>>,
    variant: VariantView,
) -> JsonView
    decreases expandable(table, visiting).len(), 3int, 0int,
{
    described(
        variant_object(
            variant.name,
            match variant.payload {
                PayloadView::Unit => Seq::empty(),
                PayloadView::Tuple(types) => seq![
                    ("value"@, tuple_schema(position_schemas(table, visiting, types))),
                ],
                PayloadView::Named(fields) => properties(
                    fields,
                    field_schemas(table, visiting, fields),
                ),
            },
            payload_required(variant.payload),
        ),
        variant.description,
    )
}

/// What a payload adds to the names that its variant requires: nothing, `value`, or the
/// names of all its fields.
pub open spec fn payload_required(payload: PayloadView) -> Seq<JsonView> {
    match payload {
        PayloadView::Unit => Seq::empty(),
        PayloadView::Tuple(_) => seq![JsonView::Text("value"@)],
        PayloadView::Named(fields) => field_names(fields),
    }
}

/// The schema of a positional payload: that of the one position, or a fixed-length
/// array schema with one entry for each position.
pub open spec fn tuple_schema(positions: Seq<JsonView>) -> JsonView {
    if positions.len() == 1 {
        positions[0]
    } else {
        list_schema(JsonView::Array(positions))
    }
}

/// The fields' names paired with `schemas`, in order.
pub open spec fn properties(fields: Seq<FieldView>, schemas: Seq<JsonView>) -> Seq<
    (Seq<char>, JsonView),
> {
    Seq::new(fields.len(), |i: int| (fields[i].name, schemas[i]))
}

/// The names of all the fields, in order, as JSON strings.
pub open spec fn field_names(fields: Seq<FieldView>) -> Seq<JsonView> {
    fields.map_values(|f: FieldView| JsonView::Text(f.name))
}

/// The names of the fields that are not optional, in order, as JSON strings.
pub open spec fn required_names(fields: Seq<FieldView>) -> Seq<JsonView> {
    field_names(fields.filter(|f: FieldView| !f.ty.is_option()))
}

/// The object schema `{"type": "object", "properties": .., "required": ..}`.
pub open spec fn object_schema(
    properties: Seq<(Seq<char>, JsonView)>,
    required: Seq<JsonView>,
) -> JsonView {
    JsonView::Object(
        seq![
            ("type"@, JsonView::Text("object"@)),
            ("properties"@, JsonView::Object(properties)),
            ("required"@, JsonView::Array(required)),
        ],
    )
}

/// The schema of a record whose fields have the schemas `schemas`.
pub open spec fn record_schema(fields: Seq<FieldView>, schemas: Seq<JsonView>) -> JsonView {
    object_schema(properties(fields, schemas), required_names(fields))
}

/// The schema of the variant `name`: an object that requires the constant `name` under
/// `type`, and after it what the payload adds.
pub open spec fn variant_object(
    name: Seq<char>,
    payload_properties: Seq<(Seq<char>, JsonView)>,
    payload_required: Seq<JsonView>,
) -> JsonView {
    object_schema(
        seq![("type"@, single("const"@, JsonView::Text(name)))] + payload_properties,
        seq![JsonView::Text("type"@)] + payload_required,
    )
}

/// The schema of a tagged union whose variants have the schemas `variants`.
pub open spec fn union_schema(variants: Seq<JsonView>, description: Seq<char>) -> JsonView {
    described(single("oneOf"@, JsonView::Array(variants)), description)
}

/// An object schema holds its three parts under `type`, `properties` and `required`.
pub proof fn lemma_object_schema_members(
    properties: Seq<(Seq<char>, JsonView)>,
    required: Seq<JsonView>,
)
    ensures
        object_schema(properties, required).get("type"@) == Some(JsonView::Text("object"@)),
        object_schema(properties, required).get("properties"@) == Some(
            JsonView::Object(properties),
        ),
        object_schema(properties, required).get("required"@) == Some(JsonView::Array(required)),
{
    reveal_strlit("type");
    reveal_strlit("properties");
    reveal_strlit("required");
    let members = object_schema(properties, required)->Object_0;
    let names = keys(members);
    assert(names[0] == "type"@);
    assert(names[1] == "properties"@);
    assert(names[2] == "required"@);
    assert("type"@.len() != "properties"@.len());
    assert("type"@.len() != "required"@.len());
    assert("properties"@.len() != "required"@.len());
    lemma_position_found(names, "type"@, 0);
    lemma_position_found(names, "properties"@, 1);
    lemma_position_found(names, "required"@, 2);
}

/// The `required` list of a record's schema names exactly the fields that are not
/// optional, each as often as it is declared and in the order of declaration; which
/// names it holds does not depend on the order of the fields.
pub proof fn lemma_required_is_non_optional(
    table: Seq<NamedTypeView>,
    fields: Seq<FieldView>,
    reordered: Seq<FieldView>,
)
    requires
        reordered.to_multiset() == fields.to_multiset(),
    ensures
        argument_schema(table, Set::empty(), ArgumentTypeView::Record { fields }).get(
            "required"@,
        ) == Some(JsonView::Array(required_names(fields))),
        required_names(fields) == fields.filter(|f: FieldView| !f.ty.is_option()).map_values(
            |f: FieldView| JsonView::Text(f.name),
        ),
        forall|name: Seq<char>|
            required_names(fields).contains(JsonView::Text(name)) <==> exists|i: int|
                0 <= i < fields.len() && fields[i].name == name && !fields[i].ty.is_option(),
        required_names(reordered).to_set() == required_names(fields).to_set(),
{
    lemma_object_schema_members(
        properties(fields, field_schemas(table, Set::empty(), fields)),
        required_names(fields),
    );
    lemma_required_membership(fields);
    lemma_required_membership(reordered);
    fields.to_multiset_ensures();
    reordered.to_multiset_ensures();
    assert forall|v: JsonView|
        required_names(reordered).contains(v) == required_names(fields).contains(v) by {
        lemma_required_entries(fields, v);
        lemma_required_entries(reordered, v);
        if required_names(fields).contains(v) {
            let i = choose|i: int|
                0 <= i < fields.len() && v == JsonView::Text(fields[i].name)
                    && !fields[i].ty.is_option();
            assert(fields.contains(fields[i]));
            assert(reordered.to_multiset().count(fields[i]) > 0);
            assert(reordered.contains(fields[i]));
            let j = choose|j: int| 0 <= j < reordered.len() && reordered[j] == fields[i];
            assert(v == JsonView::Text(reordered[j].name) && !reordered[j].ty.is_option());
        }
        if required_names(reordered).contains(v) {
            let i = choose|i: int|
                0 <= i < reordered.len() && v == JsonView::Text(reordered[i].name)
                    && !reordered[i].ty.is_option();
            assert(reordered.contains(reordered[i]));
            assert(fields.to_multiset().count(reordered[i]) > 0);
            assert(fields.contains(reordered[i]));
            let j = choose|j: int| 0 <= j < fields.len() && fields[j] == reordered[i];
            assert(v == JsonView::Text(fields[j].name) && !fields[j].ty.is_option());
        }
    }
    assert(required_names(reordered).to_set() =~= required_names(fields).to_set());
}

/// A value stands in the `required` list exactly where it is the name of a field that
/// is not optional.
proof fn lemma_required_entries(fields: Seq<FieldView>, v: JsonView)
    ensures
        required_names(fields).contains(v) <==> exists|i: int|
            0 <= i < fields.len() && v == JsonView::Text(fields[i].name)
                && !fields[i].ty.is_option(),
{
    let wanted = |f: FieldView| !f.ty.is_option();
    let kept = fields.filter(wanted);
    let names = required_names(fields);
    assert(names == field_names(kept));
    if names.contains(v) {
        let k = choose|k: int| 0 <= k < names.len() && names[k] == v;
        assert(v == JsonView::Text(kept[k].name));
        fields.lemma_filter_pred(wanted, k);
        assert(kept.contains(kept[k]));
        fields.lemma_filter_contains_rev(wanted, kept[k]);
        let i = choose|i: int| 0 <= i < fields.len() && fields[i] == kept[k];
        assert(v == JsonView::Text(fields[i].name) && !fields[i].ty.is_option());
    }
    if exists|i: int|
        0 <= i < fields.len() && v == JsonView::Text(fields[i].name) && !fields[i].ty.is_option() {
        let i = choose|i: int|
            0 <= i < fields.len() && v == JsonView::Text(fields[i].name)
                && !fields[i].ty.is_option();
        fields.lemma_filter_contains(wanted, i);
        let k = choose|k: int| 0 <= k < kept.len() && kept[k] == fields[i];
        assert(names[k] == v);
    }
}

/// A name stands in the `required` list exactly where a field that is not optional has it.
proof fn lemma_required_membership(fields: Seq<FieldView>)
    ensures
        forall|name: Seq<char>|
            required_names(fields).contains(JsonView::Text(name)) <==> exists|i: int|
                0 <= i < fields.len() && fields[i].name == name && !fields[i].ty.is_option(),
{
    assert forall|name: Seq<char>|
        required_names(fields).contains(JsonView::Text(name)) <==> exists|i: int|
            0 <= i < fields.len() && fields[i].name == name && !fields[i].ty.is_option() by {
        lemma_required_entries(fields, JsonView::Text(name));
        if required_names(fields).contains(JsonView::Text(name)) {
            let i = choose|i: int|
                0 <= i < fields.len() && JsonView::Text(name) == JsonView::Text(fields[i].name)
                    && !fields[i].ty.is_option();
            assert(fields[i].name == name);
        }
        if exists|i: int|
            0 <= i < fields.len() && fields[i].name == name && !fields[i].ty.is_option() {
            let i = choose|i: int|
                0 <= i < fields.len() && fields[i].name == name && !fields[i].ty.is_option();
            assert(JsonView::Text(name) == JsonView::Text(fields[i].name));
        }
    }
}

/// A description is added under `description`, and leaves what stands under other keys
/// as it is.
pub proof fn lemma_described_members(schema: JsonView, description: Seq<char>, key: Seq<char>)
    requires
        schema is Object,
    ensures
        description.len() > 0 ==> described(schema, description).get("description"@) == Some(
            JsonView::Text(description),
        ),
        key != "description"@ ==> described(schema, description).get(key) == schema.get(key),
{
    if description.len() > 0 {
        let members = schema->Object_0;
        let names = keys(members);
        let value = JsonView::Text(description);
        lemma_position(names, "description"@);
        lemma_position(names, key);
        match position(names, "description"@) {
            Some(i) => {
                let after = members.update(i, ("description"@, value));
                assert(keys(after) =~= names);
            },
            None => {
                let after = members.push(("description"@, value));
                assert(keys(after)[members.len() as int] == "description"@);
                assert forall|j: int| 0 <= j < members.len() implies keys(after)[j]
                    != "description"@ by {
                    assert(names[j] != "description"@);
                }
                lemma_position_found(keys(after), "description"@, members.len() as int);
                if key != "description"@ {
                    match position(names, key) {
                        Some(p) => {
                            assert(keys(after)[p] == key);
                            assert forall|j: int| 0 <= j < p implies keys(after)[j] != key by {
                                assert(names[j] != key);
                            }
                            lemma_position_found(keys(after), key, p);
                        },
                        None => {
                            assert forall|j: int| 0 <= j < after.len() implies keys(after)[j]
                                != key by {
                                if j < members.len() {
                                    assert(names[j] != key);
                                }
                            }
                            lemma_position_missing(keys(after), key);
                        },
                    }
                }
            },
        }
    }
}

/// A list schema holds `array` under `type` and the schema of its items under `items`.
pub proof fn lemma_list_schema_members(items: JsonView)
    ensures
        list_schema(items).get("type"@) == Some(JsonView::Text("array"@)),
        list_schema(items).get("items"@) == Some(items),
{
    reveal_strlit("type");
    reveal_strlit("items");
    let names = keys(list_schema(items)->Object_0);
    assert(names[0] == "type"@);
    assert(names[1] == "items"@);
    assert("type"@.len() != "items"@.len());
    lemma_position_found(names, "type"@, 0);
    lemma_position_found(names, "items"@, 1);
}

/// Whether `entry` is an object schema that fixes the variant's name as the constant
/// under its property `type` and requires `type`, then `value` where the payload goes by
/// position, or all the payload's fields where it goes by name; with, under `value`, the
/// schema of the one position, or else a list schema whose `items` hold one schema for
/// each position; and with the variant's description, where it has one.
pub open spec fn is_variant_entry(
    table: Seq<NamedTypeView>,
    variant: VariantView,
    entry: JsonView,
) -> bool {
    &&& entry.get("type"@) == Some(JsonView::Text("object"@))
    &&& entry.get("required"@) == Some(
        JsonView::Array(seq![JsonView::Text("type"@)] + payload_required(variant.payload)),
    )
    &&& variant.description.len() > 0 ==> entry.get("description"@) == Some(
        JsonView::Text(variant.description),
    )
    &&& entry.get("properties"@) matches Some(props)
    &&& props.get("type"@) == Some(single("const"@, JsonView::Text(variant.name)))
    &&& variant.payload matches PayloadView::Tuple(types) ==> {
        let positions = position_schemas(table, Set::empty(), types);
        &&& positions.len() == types.len()
        &&& forall|k: int|
            0 <= k < types.len() ==> positions[k] == type_schema(
                table,
                Set::empty(),
                #[trigger] types[k],
                Seq::empty(),
            )
        &&& props.get("value"@) == Some(
            if types.len() == 1 {
                positions[0]
            } else {
                list_schema(JsonView::Array(positions))
            },
        )
    }
}

/// The schema of a tagged union holds under `oneOf` one entry for each variant, in the
/// order of declaration, and each is the entry that [`is_variant_entry`] describes.
pub proof fn lemma_union_entries(
    table: Seq<NamedTypeView>,
    variants: Seq<VariantView>,
    description: Seq<char>,
)
    ensures
        argument_schema(
            table,
            Set::empty(),
            ArgumentTypeView::Union { variants, description },
        ).get("oneOf"@) == Some(
            JsonView::Array(variant_schemas(table, Set::empty(), variants)),
        ),
        variant_schemas(table, Set::empty(), variants).len() == variants.len(),
        forall|i: int|
            0 <= i < variants.len() ==> is_variant_entry(
                table,
                #[trigger] variants[i],
                variant_schemas(table, Set::empty(), variants)[i],
            ),
{
    reveal_strlit("oneOf");
    reveal_strlit("description");
    let entries = variant_schemas(table, Set::empty(), variants);
    let bare = single("oneOf"@, JsonView::Array(entries));
    assert(keys(bare->Object_0)[0] == "oneOf"@);
    lemma_position_found(keys(bare->Object_0), "oneOf"@, 0);
    if description.len() != 0 {
        assert("oneOf"@.len() != "description"@.len());
        lemma_position_missing(keys(bare->Object_0), "description"@);
        let full = described(bare, description);
        assert(keys(full->Object_0)[0] == "oneOf"@);
        lemma_position_found(keys(full->Object_0), "oneOf"@, 0);
    }
    assert forall|i: int| 0 <= i < variants.len() implies is_variant_entry(
        table,
        #[trigger] variants[i],
        variant_schemas(table, Set::empty(), variants)[i],
    ) by {
        lemma_variant_entry(table, variants[i]);
    }
}

/// The schema of a variant is the entry that [`is_variant_entry`] describes.
pub proof fn lemma_variant_entry(table: Seq<NamedTypeView>, variant: VariantView)
    ensures
        is_variant_entry(table, variant, variant_schema(table, Set::empty(), variant)),
{
    reveal_strlit("type");
    reveal_strlit("value");
    let added: Seq<(Seq<char>, JsonView)> = match variant.payload {
        PayloadView::Unit => Seq::empty(),
        PayloadView::Tuple(types) => seq![
            ("value"@, tuple_schema(position_schemas(table, Set::empty(), types))),
        ],
        PayloadView::Named(fields) => properties(
            fields,
            field_schemas(table, Set::empty(), fields),
        ),
    };
    let props = seq![("type"@, single("const"@, JsonView::Text(variant.name)))] + added;
    let required = seq![JsonView::Text("type"@)] + payload_required(variant.payload);
    lemma_object_schema_members(props, required);
    lemma_described_members(object_schema(props, required), variant.description, "type"@);
    lemma_described_members(object_schema(props, required), variant.description, "properties"@);
    lemma_described_members(object_schema(props, required), variant.description, "required"@);
    assert("type"@ != "description"@ && "properties"@ != "description"@ && "required"@
        != "description"@) by {
        reveal_strlit("description");
        reveal_strlit("properties");
        reveal_strlit("required");
        assert("type"@.len() != "description"@.len());
        assert("properties"@.len() != "description"@.len());
        assert("required"@.len() != "description"@.len());
    }
    assert(keys(props)[0] == "type"@);
    lemma_position_found(keys(props), "type"@, 0);
    if let PayloadView::Tuple(types) = variant.payload {
        assert(keys(props)[1] == "value"@);
        assert("type"@.len() != "value"@.len());
        lemma_position_found(keys(props), "value"@, 1);
    }
}

/// The names that a path of expansions holds.
pub open spec fn names_of(path: Seq<String>) -> Set<Seq<char>> {
    path.map_values(|s: String| s@).to_set()
}

/// Whether `name` is on the path.
fn on_path(path: &Vec<String>, name: &String) -> (r: bool)
    ensures
        r == names_of(path@).contains(name@),
{
    let ghost names = path@.map_values(|s: String| s@);
    let mut i: usize = 0;
    while i < path.len()
        invariant
            i <= path.len(),
            names == path@.map_values(|s: String| s@),
            forall|j: int| 0 <= j < i ==> names[j] != name@,
        decreases path.len() - i,
    {
        if path[i] == *name {
            assert(names[i as int] == name@);
            return true;
        }
        i += 1;
    }
    false
}

/// The path with `name` after it.
fn extended(path: &Vec<String>, name: &String) -> (r: Vec<String>)
    ensures
        names_of(r@) == names_of(path@).insert(name@),
{
    let mut r: Vec<String> = Vec::new();
    let mut i: usize = 0;
    while i < path.len()
        invariant
            i <= path.len(),
            r@ == path@.take(i as int),
        decreases path.len() - i,
    {
        r.push(path[i].clone());
        assert(r@ =~= path@.take(i + 1));
        i += 1;
    }
    assert(path@.take(path.len() as int) =~= path@);
    r.push(name.clone());
    proof {
        let before = path@.map_values(|s: String| s@);
        let after = r@.map_values(|s: String| s@);
        assert(after =~= before.push(name@));
        assert forall|n: Seq<char>| after.to_set().contains(n) == before.to_set().insert(
            name@,
        ).contains(n) by {
            if after.contains(n) {
                let k = choose|k: int| 0 <= k < after.len() && after[k] == n;
                if k < before.len() {
                    assert(before[k] == n);
                }
            }
            if before.contains(n) {
                let k = choose|k: int| 0 <= k < before.len() && before[k] == n;
                assert(after[k] == n);
            }
            if n == name@ {
                assert(after[before.len() as int] == n);
            }
        }
        assert(names_of(r@) =~= names_of(path@).insert(name@));
    }
    r
}

/// The object `{key: value}`.
fn single_member(key: &str, value: Json) -> (r: Json)
    ensures
        r@ == single(key@, value@),
{
    let mut members: Vec<(String, Json)> = Vec::new();
    members.push((key.to_owned(), value));
    assert(member_views(members@) =~= seq![(key@, value@)]);
    Json::object(members)
}

/// The schema of a primitive kind.
fn primitive(kind: &str) -> (r: Json)
    ensures
        r@ == primitive_schema(kind@),
{
    single_member("type", Json::text(kind))
}

/// The schema of a list whose items have the schema `items`.
fn list_of(items: Json) -> (r: Json)
    ensures
        r@ == list_schema(items@),
{
    let mut members: Vec<(String, Json)> = Vec::new();
    members.push(("type".to_owned(), Json::text("array")));
    members.push(("items".to_owned(), items));
    assert(member_views(members@) =~= seq![
        ("type"@, JsonView::Text("array"@)),
        ("items"@, items@),
    ]);
    Json::object(members)
}

/// What stands for the named type `name` where it is not expanded.
fn reference(name: &String) -> (r: Json)
    ensures
        r@ == reference_schema(name@),
{
    let target = String::from_str("#/definitions/").concat(name.as_str());
    single_member("$ref", Json::Text(target))
}

/// `schema` with `description` under `description`, unless it is empty.
fn describe(schema: Json, description: &str) -> (r: Json)
    ensures
        r@ == described(schema@, description@),
{
    if description.is_empty() {
        schema
    } else {
        schema.with_member("description", Json::text(description))
    }
}

/// The object schema with the given properties and required names.
fn object_of(properties: Vec<(String, Json)>, required: Vec<Json>) -> (r: Json)
    ensures
        r@ == object_schema(member_views(properties@), views(required@)),
{
    let mut members: Vec<(String, Json)> = Vec::new();
    members.push(("type".to_owned(), Json::text("object")));
    members.push(("properties".to_owned(), Json::object(properties)));
    members.push(("required".to_owned(), Json::array(required)));
    assert(member_views(members@) =~= seq![
        ("type"@, JsonView::Text("object"@)),
        ("properties"@, JsonView::Object(member_views(properties@))),
        ("required"@, JsonView::Array(views(required@))),
    ]);
    Json::object(members)
}

/// The names of the fields that are not optional, as JSON strings.
fn required_of(fields: &Vec<Field>) -> (r: Vec<Json>)
    ensures
        views(r@) == required_names(field_views(fields@)),
{
    let ghost all = field_views(fields@);
    let ghost wanted = |f: FieldView| !f.ty.is_option();
    let mut r: Vec<Json> = Vec::new();
    let mut i: usize = 0;
    proof {
        reveal(Seq::filter);
        assert(all.take(0).filter(wanted) =~= Seq::<FieldView>::empty());
        assert(views(r@) =~= field_names(all.take(0).filter(wanted)));
    }
    while i < fields.len()
        invariant
            i <= fields.len(),
            all == field_views(fields@),
            wanted == |f: FieldView| !f.ty.is_option(),
            views(r@) == field_names(all.take(i as int).filter(wanted)),
        decreases fields.len() - i,
    {
        let ghost before = views(r@);
        let ghost kept = all.take(i as int).filter(wanted);
        proof {
            reveal(Seq::filter);
            assert(all.take(i + 1).drop_last() =~= all.take(i as int));
            assert(all.take(i + 1).last() == fields@[i as int]@);
            assert(all.take(i + 1).filter(wanted) == if wanted(fields@[i as int]@) {
                kept.push(fields@[i as int]@)
            } else {
                kept
            });
        }
        if !fields[i].ty.is_option() {
            r.push(Json::text(fields[i].name.as_str()));
            assert(views(r@) =~= before.push(JsonView::Text(fields@[i as int]@.name)));
            assert(field_names(kept.push(fields@[i as int]@)) =~= field_names(kept).push(
                JsonView::Text(fields@[i as int]@.name),
            ));
        }
        i += 1;
    }
    assert(all.take(fields.len() as int) =~= all);
    r
}

/// The names of all the fields, as JSON strings, after `first`.
fn names_after(first: &str, fields: &Vec<Field>) -> (r: Vec<Json>)
    ensures
        views(r@) == seq![JsonView::Text(first@)] + field_names(field_views(fields@)),
{
    let ghost all = field_names(field_views(fields@));
    let mut r: Vec<Json> = Vec::new();
    r.push(Json::text(first));
    let mut i: usize = 0;
    assert(views(r@) =~= seq![JsonView::Text(first@)] + all.take(0));
    while i < fields.len()
        invariant
            i <= fields.len(),
            all == field_names(field_views(fields@)),
            views(r@) == seq![JsonView::Text(first@)] + all.take(i as int),
        decreases fields.len() - i,
    {
        let ghost before = views(r@);
        r.push(Json::text(fields[i].name.as_str()));
        assert(views(r@) =~= before.push(JsonView::Text(fields@[i as int]@.name)));
        assert(all[i as int] == JsonView::Text(field_views(fields@)[i as int].name));
        assert(views(r@) =~= seq![JsonView::Text(first@)] + all.take(i + 1));
        i += 1;
    }
    assert(all.take(fields.len() as int) =~= all);
    r
}

impl TypeTable {
    /// The schema of the type `ty` with the description `description`.
    pub fn schema_expr(&self, ty: &TypeDesc, description: &str) -> (r: Json)
        ensures
            r@ == type_schema(self@, Set::empty(), ty@, description@),
    {
        let path: Vec<String> = Vec::new();
        assert(names_of(path@) =~= Set::<Seq<char>>::empty());
        self.type_schema_on(&path, ty, description)
    }

    /// The schema of a record or of a tagged union.
    pub fn generate(&self, definition: &ArgumentType) -> (r: Json)
        ensures
            r@ == argument_schema(self@, Set::empty(), definition@),
    {
        let path: Vec<String> = Vec::new();
        assert(names_of(path@) =~= Set::<Seq<char>>::empty());
        self.argument_schema_on(&path, definition)
    }

    /// The schema of `ty` while the names on `path` are being expanded.
    fn type_schema_on(&self, path: &Vec<String>, ty: &TypeDesc, description: &str) -> (r: Json)
        ensures
            r@ == type_schema(self@, names_of(path@), ty@, description@),
        decreases expandable(self@, names_of(path@)).len(), 1int, ty@.depth(),
    {
        match ty {
            TypeDesc::Text => describe(primitive("string"), description),
            TypeDesc::Integer => describe(primitive("integer"), description),
            TypeDesc::Number => describe(primitive("number"), description),
            TypeDesc::Boolean => describe(primitive("boolean"), description),
            TypeDesc::List(item) => {
                let items = self.type_schema_on(path, item, "");
                assert(""@ =~= Seq::<char>::empty()) by {
                    reveal_strlit("");
                }
                describe(list_of(items), description)
            },
            TypeDesc::Optional(inner) => self.type_schema_on(path, inner, description),
            TypeDesc::Named(name) => describe(self.named_schema_on(path, name), description),
        }
    }

    /// The schema of the type defined under `name` while the names on `path` are being
    /// expanded.
    fn named_schema_on(&self, path: &Vec<String>, name: &String) -> (r: Json)
        ensures
            r@ == named_schema(self@, names_of(path@), name@),
        decreases expandable(self@, names_of(path@)).len(), 0int, 0int,
    {
        match self.find(name) {
            Some(i) => {
                if on_path(path, name) {
                    reference(name)
                } else {
                    let longer = extended(path, name);
                    proof {
                        lemma_expansion_decreases(self@, names_of(path@), name@);
                    }
                    self.argument_schema_on(&longer, &self.types[i].definition)
                }
            },
            None => reference(name),
        }
    }

    /// The schema of `definition` while the names on `path` are being expanded.
    fn argument_schema_on(&self, path: &Vec<String>, definition: &ArgumentType) -> (r: Json)
        ensures
            r@ == argument_schema(self@, names_of(path@), definition@),
        decreases expandable(self@, names_of(path@)).len(), 5int, 0int,
    {
        match definition {
            ArgumentType::Record { fields } => {
                let properties = self.properties_on(path, fields);
                object_of(properties, required_of(fields))
            },
            ArgumentType::Union { variants, description } => {
                let mut one_of: Vec<Json> = Vec::new();
                let ghost expected = variant_schemas(
                    self@,
                    names_of(path@),
                    variant_views(variants@),
                );
                let mut i: usize = 0;
                while i < variants.len()
                    invariant
                        i <= variants.len(),
                        expected == variant_schemas(
                            self@,
                            names_of(path@),
                            variant_views(variants@),
                        ),
                        views(one_of@) =~= expected.take(i as int),
                    decreases variants.len() - i,
                {
                    let ghost before = views(one_of@);
                    let schema = self.variant_schema_on(path, &variants[i]);
                    one_of.push(schema);
                    assert(views(one_of@) =~= before.push(schema@));
                    assert(variant_views(variants@)[i as int] == variants@[i as int]@);
                    assert(expected[i as int] == schema@);
                    assert(views(one_of@) =~= expected.take(i + 1));
                    i += 1;
                }
                assert(expected.take(variants.len() as int) =~= expected);
                describe(single_member("oneOf", Json::array(one_of)), description.as_str())
            },
        }
    }

    /// The fields' names with the schemas of their types.
    fn properties_on(&self, path: &Vec<String>, fields: &Vec<Field>) -> (r: Vec<(String, Json)>)
        ensures
            member_views(r@) == properties(
                field_views(fields@),
                field_schemas(self@, names_of(path@), field_views(fields@)),
            ),
        decreases expandable(self@, names_of(path@)).len(), 2int, 0int,
    {
        let ghost expected = properties(
            field_views(fields@),
            field_schemas(self@, names_of(path@), field_views(fields@)),
        );
        let mut r: Vec<(String, Json)> = Vec::new();
        let mut i: usize = 0;
        while i < fields.len()
            invariant
                i <= fields.len(),
                expected == properties(
                    field_views(fields@),
                    field_schemas(self@, names_of(path@), field_views(fields@)),
                ),
                member_views(r@) =~= expected.take(i as int),
            decreases fields.len() - i,
        {
            let schema = self.type_schema_on(path, &fields[i].ty, fields[i].description.as_str());
            let ghost before = member_views(r@);
            r.push((fields[i].name.clone(), schema));
            assert(member_views(r@) =~= before.push((fields@[i as int]@.name, schema@)));
            assert(field_views(fields@)[i as int] == fields@[i as int]@);
            assert(expected[i as int] == (fields@[i as int]@.name, schema@));
            assert(member_views(r@) =~= expected.take(i + 1));
            i += 1;
        }
        assert(expected.take(fields.len() as int) =~= expected);
        r
    }

    /// The schema of one variant.
    fn variant_schema_on(&self, path: &Vec<String>, variant: &Variant) -> (r: Json)
        ensures
            r@ == variant_schema(self@, names_of(path@), variant@),
        decreases expandable(self@, names_of(path@)).len(), 3int, 0int,
    {
        let mut properties: Vec<(String, Json)> = Vec::new();
        properties.push(
            ("type".to_owned(), single_member("const", Json::text(variant.name.as_str()))),
        );
        let ghost discriminant = seq![
            ("type"@, single("const"@, JsonView::Text(variant@.name))),
        ];
        assert(member_views(properties@) =~= discriminant);
        match &variant.payload {
            Payload::Unit => {
                let mut required: Vec<Json> = Vec::new();
                required.push(Json::text("type"));
                assert(member_views(properties@) =~= discriminant + Seq::empty());
                assert(views(required@) =~= seq![JsonView::Text("type"@)] + Seq::empty());
                describe(object_of(properties, required), variant.description.as_str())
            },
            Payload::Tuple(types) => {
                let ghost expected = position_schemas(self@, names_of(path@), type_views(types@));
                let mut positions: Vec<Json> = Vec::new();
                let mut i: usize = 0;
                while i < types.len()
                    invariant
                        i <= types.len(),
                        expected == position_schemas(
                            self@,
                            names_of(path@),
                            type_views(types@),
                        ),
                        views(positions@) =~= expected.take(i as int),
                    decreases types.len() - i,
                {
                    assert(""@ =~= Seq::<char>::empty()) by {
                        reveal_strlit("");
                    }
                    let ghost before = views(positions@);
                    let schema = self.type_schema_on(path, &types[i], "");
                    positions.push(schema);
                    assert(views(positions@) =~= before.push(schema@));
                    assert(type_views(types@)[i as int] == types@[i as int]@);
                    assert(expected[i as int] == schema@);
                    assert(views(positions@) =~= expected.take(i + 1));
                    i += 1;
                }
                assert(expected.take(types.len() as int) =~= expected);
                let value = if positions.len() == 1 {
                    let only = positions.pop().unwrap();
                    assert(only@ == expected[0]);
                    only
                } else {
                    list_of(Json::array(positions))
                };
                properties.push(("value".to_owned(), value));
                let mut required: Vec<Json> = Vec::new();
                required.push(Json::text("type"));
                required.push(Json::text("value"));
                assert(member_views(properties@) =~= discriminant + seq![
                    ("value"@, tuple_schema(expected)),
                ]);
                assert(views(required@) =~= seq![JsonView::Text("type"@)] + seq![
                    JsonView::Text("value"@),
                ]);
                describe(object_of(properties, required), variant.description.as_str())
            },
            Payload::Named(fields) => {
                let mut named = self.properties_on(path, fields);
                let ghost added = member_views(named@);
                properties.append(&mut named);
                assert(member_views(properties@) =~= discriminant + added);
                describe(
                    object_of(properties, names_after("type", fields)),
                    variant.description.as_str(),
                )
            },
        }
    }
}

} // verus!
