//! Between typed values and JSON: writing a value as the JSON that its type's schema
//! describes, and reading JSON against the description of a type.
//!
//! A record is written as an object of its fields, an optional field that is absent
//! left out. A variant is written as an object with its name under `type`: a payload by
//! position under `value` (the one value itself, or else an array of them), a payload by
//! name as further members, an absent one as `null`. Reading takes an object's first
//! member under a key, passes over members that the type does not name, reads `null`
//! or a missing field of an optional type as absent, and accepts as an integer a number
//! that is written as one and fits in 64 bits.

use crate::decimal::{
    format_integer, integer_text, integer_value, is_integer_text, parse_integer,
};
use crate::json::{keys, lemma_array_view, member_views, views, Json, JsonView};
use crate::lookup::{lemma_position, lemma_position_found, lemma_position_missing, position};
use crate::types::{
    field_views, type_names, type_views, variant_views, ArgumentType, ArgumentTypeView, Field,
    FieldView, NamedTypeView, Payload, PayloadView, TypeDesc, TypeDescView, TypeTable, Variant,
    VariantView,
};
use crate::value::{
    fields_of, items_of, lemma_list_view, lemma_record_view, lemma_struct_view, lemma_tuple_view,
    named_value_views, value_views, variant_names, ArgValue, ArgValueView,
};
use vstd::prelude::*;

verus! {

/// A field as it is written: its name, whether its value is absent, and the JSON of its
/// value.
pub struct Written {
    pub name: Seq<char>,
    pub absent: bool,
    pub json: JsonView,
}

/// The members that are written for the fields: one for each, in order, but none for
/// an absent one where `omit_absent` holds.
pub open spec fn written_members(fields: Seq<Written>, omit_absent: bool) -> Seq<
    (Seq<char>, JsonView),
> {
    fields.filter(|w: Written| !(omit_absent && w.absent)).map_values(
        |w: Written| (w.name, w.json),
    )
}

/// Whether the field is written.
pub open spec fn is_written(w: Written, omit_absent: bool) -> bool {
    !(omit_absent && w.absent)
}

/// The members that are written grow with the fields: the last field adds its member at
/// the end, or nothing where it is left out.
pub proof fn lemma_written_step(fields: Seq<Written>, omit_absent: bool)
    requires
        fields.len() > 0,
    ensures
        written_members(fields, omit_absent) == if is_written(fields.last(), omit_absent) {
            written_members(fields.drop_last(), omit_absent).push(
                (fields.last().name, fields.last().json),
            )
        } else {
            written_members(fields.drop_last(), omit_absent)
        },
{
    reveal(Seq::filter);
    let kept = |w: Written| !(omit_absent && w.absent);
    let front = fields.drop_last().filter(kept);
    if is_written(fields.last(), omit_absent) {
        assert(fields.filter(kept) == front.push(fields.last()));
        assert(written_members(fields, omit_absent) =~= written_members(
            fields.drop_last(),
            omit_absent,
        ).push((fields.last().name, fields.last().json)));
    } else {
        assert(fields.filter(kept) == front);
    }
}

/// The JSON that a value is written as.
pub open spec fn encode(v: ArgValueView) -> JsonView
    decreases v, 1int,
{
    match v {
        ArgValueView::Text(s) => JsonView::Text(s),
        ArgValueView::Integer(i) => JsonView::Number(integer_text(i)),
        ArgValueView::Number(n) => JsonView::Number(n),
        ArgValueView::Boolean(b) => JsonView::Bool(b),
        ArgValueView::List(_) => JsonView::Array(encode_items(v)),
        ArgValueView::Absent => JsonView::Null,
        ArgValueView::Record(_) => JsonView::Object(written_members(encode_fields(v), true)),
        ArgValueView::Unit(name) => JsonView::Object(seq![("type"@, JsonView::Text(name))]),
        ArgValueView::Tuple(name, values) => JsonView::Object(
            seq![
                ("type"@, JsonView::Text(name)),
                (
                    "value"@,
                    if values.len() == 1 {
                        encode_items(v)[0]
                    } else {
                        JsonView::Array(encode_items(v))
                    },
                ),
            ],
        ),
        ArgValueView::Struct(name, _) => JsonView::Object(
            seq![("type"@, JsonView::Text(name))] + written_members(encode_fields(v), false),
        ),
    }
}

/// The JSON of each item of a list, or of each value of a variant that carries values
/// by position.
pub open spec fn encode_items(v: ArgValueView) -> Seq<JsonView>
    decreases v, 0int,
{
    let items = match v {
        ArgValueView::List(items) => items,
        ArgValueView::Tuple(_, values) => values,
        _ => Seq::empty(),
    };
    Seq::new(
        items.len(),
        |i: int|
            if 0 <= i < items.len() {
                encode(items[i])
            } else {
                JsonView::Null
            },
    )
}

/// Each field of a record, or of a variant that carries values by name, as it is
/// written.
pub open spec fn encode_fields(v: ArgValueView) -> Seq<Written>
    decreases v, 0int,
{
    let fields = match v {
        ArgValueView::Record(fields) => fields,
        ArgValueView::Struct(_, fields) => fields,
        _ => Seq::empty(),
    };
    Seq::new(
        fields.len(),
        |i: int|
            if 0 <= i < fields.len() {
                Written {
                    name: fields[i].0,
                    absent: fields[i].1 is Absent,
                    json: encode(fields[i].1),
                }
            } else {
                Written { name: Seq::empty(), absent: true, json: JsonView::Null }
            },
    )
}

impl ArgValue {
    /// Writes the value as JSON.
    pub fn encode(&self) -> (r: Json)
        ensures
            r@ == encode(self@),
        decreases self@, 1int,
    {
        match self {
            ArgValue::Text(s) => Json::Text(s.clone()),
            ArgValue::Integer(i) => Json::Number(format_integer(*i)),
            ArgValue::Number(n) => Json::Number(n.clone()),
            ArgValue::Boolean(b) => Json::Bool(*b),
            ArgValue::List(items) => {
                proof {
                    lemma_list_view(*items);
                }
                Json::array(self.encode_items(items))
            },
            ArgValue::Absent => Json::Null,
            ArgValue::Record(fields) => {
                proof {
                    lemma_record_view(*fields);
                }
                let members: Vec<(String, Json)> = Vec::new();
                assert(member_views(members@) =~= Seq::empty());
                let written = self.encode_fields(fields, members, true);
                assert(member_views(written@) =~= written_members(encode_fields(self@), true));
                Json::object(written)
            },
            ArgValue::Unit(name) => {
                let mut members: Vec<(String, Json)> = Vec::new();
                members.push(("type".to_owned(), Json::Text(name.clone())));
                assert(member_views(members@) =~= seq![("type"@, JsonView::Text(name@))]);
                Json::object(members)
            },
            ArgValue::Tuple(name, values) => {
                proof {
                    lemma_tuple_view(*name, *values);
                }
                let mut written = self.encode_items(values);
                assert(views(written@).len() == values@.len());
                let value = if written.len() == 1 {
                    let only = written.pop().unwrap();
                    assert(only@ == encode_items(self@)[0]);
                    only
                } else {
                    Json::array(written)
                };
                let mut members: Vec<(String, Json)> = Vec::new();
                members.push(("type".to_owned(), Json::Text(name.clone())));
                members.push(("value".to_owned(), value));
                assert(member_views(members@) =~= seq![
                    ("type"@, JsonView::Text(name@)),
                    ("value"@, value@),
                ]);
                Json::object(members)
            },
            ArgValue::Struct(name, fields) => {
                proof {
                    lemma_struct_view(*name, *fields);
                }
                let mut members: Vec<(String, Json)> = Vec::new();
                members.push(("type".to_owned(), Json::Text(name.clone())));
                assert(member_views(members@) =~= seq![("type"@, JsonView::Text(name@))]);
                Json::object(self.encode_fields(fields, members, false))
            },
        }
    }

    /// Writes each of `items`, which are the items or values that the value holds by
    /// position.
    fn encode_items(&self, items: &Vec<ArgValue>) -> (r: Vec<Json>)
        requires
            items_of(self@) == value_views(items@),
        ensures
            views(r@) == encode_items(self@),
        decreases self@, 0int,
    {
        let ghost expected = encode_items(self@);
        let mut r: Vec<Json> = Vec::new();
        let mut i: usize = 0;
        while i < items.len()
            invariant
                i <= items.len(),
                items_of(self@) == value_views(items@),
                expected == encode_items(self@),
                views(r@) =~= expected.take(i as int),
            decreases items.len() - i,
        {
            let ghost before = views(r@);
            assert(items_of(self@)[i as int] == items@[i as int]@);
            let written = items[i].encode();
            r.push(written);
            assert(views(r@) =~= before.push(written@));
            assert(expected[i as int] == written@);
            i += 1;
        }
        assert(expected.take(items.len() as int) =~= expected);
        r
    }

    /// Writes each of `fields`, which are the fields that the value holds, after
    /// `members`.
    fn encode_fields(
        &self,
        fields: &Vec<(String, ArgValue)>,
        members: Vec<(String, Json)>,
        omit_absent: bool,
    ) -> (r: Vec<(String, Json)>)
        requires
            fields_of(self@) == named_value_views(fields@),
        ensures
            member_views(r@) == member_views(members@) + written_members(
                encode_fields(self@),
                omit_absent,
            ),
        decreases self@, 0int,
    {
        let ghost first = member_views(members@);
        let ghost expected = encode_fields(self@);
        let mut r = members;
        let mut i: usize = 0;
        proof {
            reveal(Seq::filter);
            assert(written_members(expected.take(0), omit_absent) =~= Seq::empty());
            assert(member_views(r@) =~= first + written_members(expected.take(0), omit_absent));
        }
        while i < fields.len()
            invariant
                i <= fields.len(),
                fields_of(self@) == named_value_views(fields@),
                expected == encode_fields(self@),
                member_views(r@) == first + written_members(expected.take(i as int), omit_absent),
            decreases fields.len() - i,
        {
            let ghost before = member_views(r@);
            proof {
                assert(fields_of(self@)[i as int] == (fields@[i as int].0@, fields@[i as int].1@));
                assert(expected.take(i + 1).drop_last() =~= expected.take(i as int));
                assert(expected.take(i + 1).last() == expected[i as int]);
                lemma_written_step(expected.take(i + 1), omit_absent);
            }
            if !(omit_absent && fields[i].1.is_absent()) {
                let written = fields[i].1.encode();
                r.push((fields[i].0.clone(), written));
                proof {
                    let member = (fields@[i as int].0@, written@);
                    assert(member_views(r@) =~= before.push(member));
                    assert(before.push(member) =~= first + written_members(
                        expected.take(i as int),
                        omit_absent,
                    ).push(member));
                }
            }
            i += 1;
        }
        assert(expected.take(fields.len() as int) =~= expected);
        r
    }
}

/// The values of `options`, where none is missing.
pub open spec fn all_some<T>(options: Seq<Option<T>>) -> Option<Seq<T>> {
    if forall|i: int| 0 <= i < options.len() ==> (#[trigger] options[i]) is Some {
        Some(options.map_values(|o: Option<T>| o.unwrap()))
    } else {
        None
    }
}

/// Where each option holds the value at its place, they hold all the values.
pub proof fn lemma_all_some<T>(options: Seq<Option<T>>, values: Seq<T>)
    requires
        options.len() == values.len(),
        forall|i: int| 0 <= i < options.len() ==> #[trigger] options[i] == Some(values[i]),
    ensures
        all_some(options) == Some(values),
{
    assert(options.map_values(|o: Option<T>| o.unwrap()) =~= values);
}

/// The model of what reading returned.
pub open spec fn read_view(r: Option<ArgValue>) -> Option<ArgValueView> {
    match r {
        Some(v) => Some(v@),
        None => None,
    }
}

/// The value that `json` holds when read as a value of the type `ty`, if it is one.
pub open spec fn decode_type(
    table: Seq<NamedTypeView>,
    ty: TypeDescView,
    json: JsonView,
) -> Option<ArgValueView>
    decreases json, 2int, ty.depth(),
{
    match ty {
        TypeDescView::Text => match json {
            JsonView::Text(s) => Some(ArgValueView::Text(s)),
            _ => None,
        },
        TypeDescView::Integer => match json {
            JsonView::Number(n) => if is_integer_text(n) {
                Some(ArgValueView::Integer(integer_value(n)))
            } else {
                None
            },
            _ => None,
        },
        TypeDescView::Number => match json {
            JsonView::Number(n) => Some(ArgValueView::Number(n)),
            _ => None,
        },
        TypeDescView::Boolean => match json {
            JsonView::Bool(b) => Some(ArgValueView::Boolean(b)),
            _ => None,
        },
        TypeDescView::List(item) => match json {
            JsonView::Array(_) => match all_some(read_items(table, *item, json)) {
                Some(values) => Some(ArgValueView::List(values)),
                None => None,
            },
            _ => None,
        },
        TypeDescView::Optional(inner) => if json is Null {
            Some(ArgValueView::Absent)
        } else {
            decode_type(table, *inner, json)
        },
        TypeDescView::Named(name) => match position(type_names(table), name) {
            Some(i) => decode_argument(table, table[i].definition, json),
            None => None,
        },
    }
}

/// The value that `json` holds when read as a record or a tagged union, if it is one.
pub open spec fn decode_argument(
    table: Seq<NamedTypeView>,
    definition: ArgumentTypeView,
    json: JsonView,
) -> Option<ArgValueView>
    decreases json, 1int, 0nat,
{
    match definition {
        ArgumentTypeView::Record { fields } => match decode_fields(table, fields, json, false) {
            Some(values) => Some(ArgValueView::Record(values)),
            None => None,
        },
        ArgumentTypeView::Union { variants, description } => match json.get("type"@) {
            Some(JsonView::Text(tag)) => match position(variant_names(variants), tag) {
                Some(k) => decode_payload(table, variants[k], json),
                None => None,
            },
            _ => None,
        },
    }
}

/// The value of the variant `variant` that the object `json` holds, if it holds one.
pub open spec fn decode_payload(
    table: Seq<NamedTypeView>,
    variant: VariantView,
    json: JsonView,
) -> Option<ArgValueView>
    decreases json, 0int, 2nat,
{
    match variant.payload {
        PayloadView::Unit => if json is Object {
            Some(ArgValueView::Unit(variant.name))
        } else {
            None
        },
        PayloadView::Tuple(types) => match json.get("value"@) {
            Some(value) => {
                proof {
                    lemma_member_decreases(json, "value"@);
                }
                let values = if types.len() == 1 {
                    match decode_type(table, types[0], value) {
                        Some(only) => Some(seq![only]),
                        None => None,
                    }
                } else {
                    decode_positions(table, types, value)
                };
                match values {
                    Some(values) => Some(ArgValueView::Tuple(variant.name, values)),
                    None => None,
                }
            },
            None => None,
        },
        PayloadView::Named(fields) => match decode_fields(table, fields, json, true) {
            Some(values) => Some(ArgValueView::Struct(variant.name, values)),
            None => None,
        },
    }
}

/// What each item of the array `json` holds when read as a value of the type `ty`.
pub open spec fn read_items(
    table: Seq<NamedTypeView>,
    ty: TypeDescView,
    json: JsonView,
) -> Seq<Option<ArgValueView>>
    decreases json, 0int, 0nat,
{
    match json {
        JsonView::Array(items) => Seq::new(
            items.len(),
            |i: int|
                if 0 <= i < items.len() {
                    decode_type(table, ty, items[i])
                } else {
                    None
                },
        ),
        _ => Seq::empty(),
    }
}

/// What each item of the array `json` holds when read as a value of the type at its
/// position in `types`.
pub open spec fn read_positions(
    table: Seq<NamedTypeView>,
    types: Seq<TypeDescView>,
    json: JsonView,
) -> Seq<Option<ArgValueView>>
    decreases json, 0int, 0nat,
{
    match json {
        JsonView::Array(items) => Seq::new(
            items.len(),
            |i: int|
                if 0 <= i < items.len() && i < types.len() {
                    decode_type(table, types[i], items[i])
                } else {
                    None
                },
        ),
        _ => Seq::empty(),
    }
}

/// The values that the array `json` holds, one for each of `types` and of its type, if
/// it holds them.
pub open spec fn decode_positions(
    table: Seq<NamedTypeView>,
    types: Seq<TypeDescView>,
    json: JsonView,
) -> Option<Seq<ArgValueView>>
    decreases json, 0int, 1nat,
{
    match json {
        JsonView::Array(items) => if items.len() == types.len() {
            all_some(read_positions(table, types, json))
        } else {
            None
        },
        _ => None,
    }
}

/// What the object `json` holds for each of the fields: the member under the field's
/// name read as a value of the field's type; or, where there is no such member, an
/// absent value if the type is optional and `all_required` does not hold.
pub open spec fn read_fields(
    table: Seq<NamedTypeView>,
    fields: Seq<FieldView>,
    json: JsonView,
    all_required: bool,
) -> Seq<Option<ArgValueView>>
    decreases json, 0int, 0nat,
{
    Seq::new(
        fields.len(),
        |i: int|
            if 0 <= i < fields.len() {
                match json.get(fields[i].name) {
                    Some(member) => {
                        proof {
                            lemma_member_decreases(json, fields[i].name);
                        }
                        decode_type(table, fields[i].ty, member)
                    },
                    None => if fields[i].ty.is_option() && !all_required {
                        Some(ArgValueView::Absent)
                    } else {
                        None
                    },
                }
            } else {
                None
            },
    )
}

/// The fields' names paired with `values`, in order.
pub open spec fn named_values(fields: Seq<FieldView>, values: Seq<ArgValueView>) -> Seq<
    (Seq<char>, ArgValueView),
> {
    Seq::new(fields.len(), |i: int| (fields[i].name, values[i]))
}

/// The values of the fields that the object `json` holds, by name and in the order of
/// declaration, if it holds them all.
pub open spec fn decode_fields(
    table: Seq<NamedTypeView>,
    fields: Seq<FieldView>,
    json: JsonView,
    all_required: bool,
) -> Option<Seq<(Seq<char>, ArgValueView)>>
    decreases json, 0int, 1nat,
{
    if json is Object {
        match all_some(read_fields(table, fields, json, all_required)) {
            Some(values) => Some(named_values(fields, values)),
            None => None,
        }
    } else {
        None
    }
}

/// A member of an object is smaller than the object.
pub proof fn lemma_member_decreases(json: JsonView, key: Seq<char>)
    ensures
        json.get(key) matches Some(member) ==> decreases_to!(json => member),
{
    if let JsonView::Object(members) = json {
        lemma_position(keys(members), key);
        if let Some(i) = position(keys(members), key) {
            assert(decreases_to!(json => members));
            assert(decreases_to!(members => members[i]));
            assert(decreases_to!(members[i] => members[i].1));
        }
    }
}

impl TypeTable {
    /// Reads `json` as a value of a record or of a tagged union.
    pub fn decode(&self, definition: &ArgumentType, json: &Json) -> (r: Option<ArgValue>)
        ensures
            read_view(r) == decode_argument(self@, definition@, json@),
        decreases json@, 1int, 0nat,
    {
        match definition {
            ArgumentType::Record { fields } => match self.decode_fields(fields, json, false) {
                Some(values) => {
                    proof {
                        lemma_record_view(values);
                    }
                    Some(ArgValue::Record(values))
                },
                None => None,
            },
            ArgumentType::Union { variants, description } => {
                let tag = match json.get("type") {
                    Some(Json::Text(tag)) => tag,
                    _ => {
                        return None;
                    },
                };
                let mut k: usize = 0;
                while k < variants.len()
                    invariant
                        k <= variants.len(),
                        json@.get("type"@) == Some(JsonView::Text(tag@)),
                        definition@ == (ArgumentTypeView::Union {
                            variants: variant_views(variants@),
                            description: description@,
                        }),
                        forall|j: int|
                            0 <= j < k ==> variant_names(variant_views(variants@))[j] != tag@,
                    decreases variants.len() - k,
                {
                    if variants[k].name == *tag {
                        proof {
                            let names = variant_names(variant_views(variants@));
                            assert(names[k as int] == tag@);
                            lemma_position_found(names, tag@, k as int);
                            assert(variant_views(variants@)[k as int] == variants@[k as int]@);
                        }
                        return self.decode_payload(&variants[k], json);
                    }
                    k += 1;
                }
                proof {
                    lemma_position_missing(variant_names(variant_views(variants@)), tag@);
                }
                None
            },
        }
    }

    /// Reads `json` as a value of the type `ty`.
    pub fn decode_type(&self, ty: &TypeDesc, json: &Json) -> (r: Option<ArgValue>)
        ensures
            read_view(r) == decode_type(self@, ty@, json@),
        decreases json@, 2int, ty@.depth(),
    {
        match ty {
            TypeDesc::Text => match json {
                Json::Text(s) => Some(ArgValue::Text(s.clone())),
                _ => None,
            },
            TypeDesc::Integer => match json {
                Json::Number(n) => match parse_integer(n.as_str()) {
                    Some(i) => Some(ArgValue::Integer(i)),
                    None => None,
                },
                _ => None,
            },
            TypeDesc::Number => match json {
                Json::Number(n) => Some(ArgValue::Number(n.clone())),
                _ => None,
            },
            TypeDesc::Boolean => match json {
                Json::Bool(b) => Some(ArgValue::Boolean(*b)),
                _ => None,
            },
            TypeDesc::List(item) => match json {
                Json::Array(items) => {
                    proof {
                        lemma_array_view(*items);
                    }
                    let ghost read = read_items(self@, item@, json@);
                    let mut values: Vec<ArgValue> = Vec::new();
                    let mut i: usize = 0;
                    while i < items.len()
                        invariant
                            i <= items.len(),
                            json@ == JsonView::Array(views(items@)),
                            ty@ == TypeDescView::List(Box::new(item@)),
                            read == read_items(self@, item@, json@),
                            values@.len() == i,
                            forall|j: int|
                                0 <= j < i ==> #[trigger] read[j] == Some(values@[j]@),
                        decreases items.len() - i,
                    {
                        assert(decreases_to!(json@ => views(items@)));
                        assert(decreases_to!(views(items@) => views(items@)[i as int]));
                        match self.decode_type(item, &items[i]) {
                            Some(value) => {
                                values.push(value);
                            },
                            None => {
                                assert(read[i as int] is None);
                                return None;
                            },
                        }
                        i += 1;
                    }
                    proof {
                        lemma_all_some(read, value_views(values@));
                        lemma_list_view(values);
                    }
                    Some(ArgValue::List(values))
                },
                _ => None,
            },
            TypeDesc::Optional(inner) => match json {
                Json::Null => Some(ArgValue::Absent),
                _ => self.decode_type(inner, json),
            },
            TypeDesc::Named(name) => match self.find(name) {
                Some(i) => {
                    assert(self@[i as int] == self.types@[i as int]@);
                    self.decode(&self.types[i].definition, json)
                },
                None => None,
            },
        }
    }

    /// Reads the array `json` as one value for each of `types`.
    fn decode_positions(&self, types: &Vec<TypeDesc>, json: &Json) -> (r: Option<Vec<ArgValue>>)
        ensures
            match r {
                Some(values) => decode_positions(self@, type_views(types@), json@) == Some(
                    value_views(values@),
                ),
                None => decode_positions(self@, type_views(types@), json@) is None,
            },
        decreases json@, 0int, 1nat,
    {
        let items = match json {
            Json::Array(items) => items,
            _ => {
                return None;
            },
        };
        proof {
            lemma_array_view(*items);
        }
        if items.len() != types.len() {
            return None;
        }
        let ghost read = read_positions(self@, type_views(types@), json@);
        let mut values: Vec<ArgValue> = Vec::new();
        let mut i: usize = 0;
        while i < types.len()
            invariant
                i <= types.len(),
                items.len() == types.len(),
                json@ == JsonView::Array(views(items@)),
                read == read_positions(self@, type_views(types@), json@),
                values@.len() == i,
                forall|j: int| 0 <= j < i ==> #[trigger] read[j] == Some(values@[j]@),
            decreases types.len() - i,
        {
            assert(decreases_to!(json@ => views(items@)));
            assert(decreases_to!(views(items@) => views(items@)[i as int]));
            assert(type_views(types@)[i as int] == types@[i as int]@);
            match self.decode_type(&types[i], &items[i]) {
                Some(value) => {
                    values.push(value);
                },
                None => {
                    assert(read[i as int] is None);
                    return None;
                },
            }
            i += 1;
        }
        proof {
            lemma_all_some(read, value_views(values@));
        }
        Some(values)
    }

    /// Reads the object `json` as a value of the variant `variant`.
    fn decode_payload(&self, variant: &Variant, json: &Json) -> (r: Option<ArgValue>)
        ensures
            read_view(r) == decode_payload(self@, variant@, json@),
        decreases json@, 0int, 2nat,
    {
        match &variant.payload {
            Payload::Unit => match json {
                Json::Object(_) => Some(ArgValue::Unit(variant.name.clone())),
                _ => None,
            },
            Payload::Tuple(types) => match json.get("value") {
                Some(value) => {
                    proof {
                        lemma_member_decreases(json@, "value"@);
                    }
                    if types.len() == 1 {
                        match self.decode_type(&types[0], value) {
                            Some(only) => {
                                let mut values: Vec<ArgValue> = Vec::new();
                                values.push(only);
                                proof {
                                    lemma_tuple_view(variant.name, values);
                                    assert(value_views(values@) =~= seq![only@]);
                                }
                                Some(ArgValue::Tuple(variant.name.clone(), values))
                            },
                            None => None,
                        }
                    } else {
                        match self.decode_positions(types, value) {
                            Some(values) => {
                                proof {
                                    lemma_tuple_view(variant.name, values);
                                }
                                Some(ArgValue::Tuple(variant.name.clone(), values))
                            },
                            None => None,
                        }
                    }
                },
                None => None,
            },
            Payload::Named(fields) => match self.decode_fields(fields, json, true) {
                Some(values) => {
                    proof {
                        lemma_struct_view(variant.name, values);
                    }
                    Some(ArgValue::Struct(variant.name.clone(), values))
                },
                None => None,
            },
        }
    }

    /// Reads the fields from the object `json`.
    fn decode_fields(&self, fields: &Vec<Field>, json: &Json, all_required: bool) -> (r: Option<
        Vec<(String, ArgValue)>,
    >)
        ensures
            match r {
                Some(values) => decode_fields(
                    self@,
                    field_views(fields@),
                    json@,
                    all_required,
                ) == Some(named_value_views(values@)),
                None => decode_fields(self@, field_views(fields@), json@, all_required) is None,
            },
        decreases json@, 0int, 1nat,
    {
        match json {
            Json::Object(_) => {},
            _ => {
                return None;
            },
        }
        let ghost all = field_views(fields@);
        let ghost read = read_fields(self@, all, json@, all_required);
        let mut values: Vec<(String, ArgValue)> = Vec::new();
        let mut i: usize = 0;
        while i < fields.len()
            invariant
                i <= fields.len(),
                json@ is Object,
                all == field_views(fields@),
                read == read_fields(self@, all, json@, all_required),
                values@.len() == i,
                forall|j: int|
                    0 <= j < i ==> #[trigger] read[j] == Some(values@[j].1@) && values@[j].0@
                        == all[j].name,
            decreases fields.len() - i,
        {
            assert(all[i as int] == fields@[i as int]@);
            let value = match json.get(fields[i].name.as_str()) {
                Some(member) => {
                    proof {
                        lemma_member_decreases(json@, fields@[i as int]@.name);
                    }
                    match self.decode_type(&fields[i].ty, member) {
                        Some(value) => value,
                        None => {
                            assert(read[i as int] is None);
                            return None;
                        },
                    }
                },
                None => {
                    if fields[i].ty.is_option() && !all_required {
                        ArgValue::Absent
                    } else {
                        assert(read[i as int] is None);
                        return None;
                    }
                },
            };
            values.push((fields[i].name.clone(), value));
            i += 1;
        }
        proof {
            let decoded = Seq::new(all.len(), |i: int| values@[i].1@);
            lemma_all_some(read, decoded);
            assert(named_value_views(values@) =~= named_values(all, decoded));
        }
        Some(values)
    }
}

} // verus!
