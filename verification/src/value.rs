//! Typed argument values: what a tool gets to see of its arguments.

use crate::lookup::{lemma_position_found, lemma_position_missing, position};
use crate::types::{
    type_names, ArgumentTypeView, FieldView, NamedTypeView, PayloadView, TypeDescView,
    VariantView,
};
use vstd::prelude::*;

verus! {

/// The model of an [`ArgValue`].
#[verifier::ext_equal]
pub enum ArgValueView {
    Text(Seq<char>),
    Integer(int),
    Number(Seq<char>),
    Boolean(bool),
    List(Seq<ArgValueView>),
    Absent,
    Record(Seq<(Seq<char>, ArgValueView)>),
    Unit(Seq<char>),
    Tuple(Seq<char>, Seq<ArgValueView>),
    Struct(Seq<char>, Seq<(Seq<char>, ArgValueView)>),
}

/// A value of a described type.
#[derive(Debug, PartialEq, Eq)]
pub enum ArgValue {
    /// A string.
    Text(String),
    /// An integer.
    Integer(i64),
    /// A number that need not be an integer, by its JSON text.
    Number(String),
    /// A truth value.
    Boolean(bool),
    /// The items of a list.
    List(Vec<ArgValue>),
    /// An optional value that is not there.
    Absent,
    /// A record: its fields by name, in the order of declaration.
    Record(Vec<(String, ArgValue)>),
    /// A variant that carries nothing, by its name.
    Unit(String),
    /// A variant that carries values by position.
    Tuple(String, Vec<ArgValue>),
    /// A variant that carries values by name.
    Struct(String, Vec<(String, ArgValue)>),
}

/// The model of a value.
pub open spec fn value_view(v: ArgValue) -> ArgValueView
    decreases v,
{
    match v {
        ArgValue::Text(s) => ArgValueView::Text(s@),
        ArgValue::Integer(i) => ArgValueView::Integer(i as int),
        ArgValue::Number(n) => ArgValueView::Number(n@),
        ArgValue::Boolean(b) => ArgValueView::Boolean(b),
        ArgValue::List(items) => ArgValueView::List(
            Seq::new(
                items@.len(),
                |i: int|
                    if 0 <= i < items@.len() {
                        value_view(items@[i])
                    } else {
                        ArgValueView::Absent
                    },
            ),
        ),
        ArgValue::Absent => ArgValueView::Absent,
        ArgValue::Record(fields) => ArgValueView::Record(
            Seq::new(
                fields@.len(),
                |i: int|
                    if 0 <= i < fields@.len() {
                        (fields@[i].0@, value_view(fields@[i].1))
                    } else {
                        (Seq::empty(), ArgValueView::Absent)
                    },
            ),
        ),
        ArgValue::Unit(name) => ArgValueView::Unit(name@),
        ArgValue::Tuple(name, values) => ArgValueView::Tuple(
            name@,
            Seq::new(
                values@.len(),
                |i: int|
                    if 0 <= i < values@.len() {
                        value_view(values@[i])
                    } else {
                        ArgValueView::Absent
                    },
            ),
        ),
        ArgValue::Struct(name, fields) => ArgValueView::Struct(
            name@,
            Seq::new(
                fields@.len(),
                |i: int|
                    if 0 <= i < fields@.len() {
                        (fields@[i].0@, value_view(fields@[i].1))
                    } else {
                        (Seq::empty(), ArgValueView::Absent)
                    },
            ),
        ),
    }
}

impl View for ArgValue {
    type V = ArgValueView;

    open spec fn view(&self) -> ArgValueView {
        value_view(*self)
    }
}

/// The models of a list of values.
pub open spec fn value_views(values: Seq<ArgValue>) -> Seq<ArgValueView> {
    values.map_values(|v: ArgValue| v@)
}

/// The models of a list of named values.
pub open spec fn named_value_views(fields: Seq<(String, ArgValue)>) -> Seq<
    (Seq<char>, ArgValueView),
> {
    fields.map_values(|f: (String, ArgValue)| (f.0@, f.1@))
}

/// A list is modelled item by item.
pub proof fn lemma_list_view(items: Vec<ArgValue>)
    ensures
        ArgValue::List(items)@ == ArgValueView::List(value_views(items@)),
{
    let l = ArgValue::List(items)@;
    assert(l is List);
    assert(l->List_0 =~= value_views(items@));
}

/// A variant with values by position is modelled value by value.
pub proof fn lemma_tuple_view(name: String, items: Vec<ArgValue>)
    ensures
        ArgValue::Tuple(name, items)@ == ArgValueView::Tuple(name@, value_views(items@)),
{
    let t = ArgValue::Tuple(name, items)@;
    assert(t is Tuple);
    assert(t->Tuple_1 =~= value_views(items@));
}

/// A record is modelled field by field.
pub proof fn lemma_record_view(fields: Vec<(String, ArgValue)>)
    ensures
        ArgValue::Record(fields)@ == ArgValueView::Record(named_value_views(fields@)),
{
    let r = ArgValue::Record(fields)@;
    assert(r is Record);
    assert(r->Record_0 =~= named_value_views(fields@));
}

/// A variant with values by name is modelled field by field.
pub proof fn lemma_struct_view(name: String, fields: Vec<(String, ArgValue)>)
    ensures
        ArgValue::Struct(name, fields)@ == ArgValueView::Struct(name@, named_value_views(fields@)),
{
    let s = ArgValue::Struct(name, fields)@;
    assert(s is Struct);
    assert(s->Struct_1 =~= named_value_views(fields@));
}

impl Clone for ArgValue {
    /// A copy of the value.
    fn clone(&self) -> (r: ArgValue)
        ensures
            r@ == self@,
        decreases self@, 1int,
    {
        match self {
            ArgValue::Text(s) => ArgValue::Text(s.clone()),
            ArgValue::Integer(i) => ArgValue::Integer(*i),
            ArgValue::Number(n) => ArgValue::Number(n.clone()),
            ArgValue::Boolean(b) => ArgValue::Boolean(*b),
            ArgValue::List(items) => {
                proof {
                    lemma_list_view(*items);
                }
                let copies = self.clone_items(items);
                proof {
                    lemma_list_view(copies);
                }
                ArgValue::List(copies)
            },
            ArgValue::Absent => ArgValue::Absent,
            ArgValue::Record(fields) => {
                proof {
                    lemma_record_view(*fields);
                }
                let copies = self.clone_fields(fields);
                proof {
                    lemma_record_view(copies);
                }
                ArgValue::Record(copies)
            },
            ArgValue::Unit(name) => ArgValue::Unit(name.clone()),
            ArgValue::Tuple(name, values) => {
                proof {
                    lemma_tuple_view(*name, *values);
                }
                let copies = self.clone_items(values);
                proof {
                    lemma_tuple_view(*name, copies);
                }
                ArgValue::Tuple(name.clone(), copies)
            },
            ArgValue::Struct(name, fields) => {
                proof {
                    lemma_struct_view(*name, *fields);
                }
                let copies = self.clone_fields(fields);
                proof {
                    lemma_struct_view(*name, copies);
                }
                ArgValue::Struct(name.clone(), copies)
            },
        }
    }
}

impl ArgValue {
    /// Copies of `items`, which are the values that the value holds by position.
    fn clone_items(&self, items: &Vec<ArgValue>) -> (r: Vec<ArgValue>)
        requires
            items_of(self@) == value_views(items@),
        ensures
            value_views(r@) == value_views(items@),
        decreases self@, 0int,
    {
        let mut r: Vec<ArgValue> = Vec::new();
        let mut i: usize = 0;
        while i < items.len()
            invariant
                i <= items.len(),
                items_of(self@) == value_views(items@),
                value_views(r@) =~= value_views(items@).take(i as int),
            decreases items.len() - i,
        {
            let ghost before = value_views(r@);
            assert(items_of(self@)[i as int] == items@[i as int]@);
            let copy = items[i].clone();
            r.push(copy);
            assert(value_views(r@) =~= before.push(copy@));
            i += 1;
        }
        assert(value_views(items@).take(items.len() as int) =~= value_views(items@));
        r
    }

    /// Copies of `fields`, which are the values that the value holds by name.
    fn clone_fields(&self, fields: &Vec<(String, ArgValue)>) -> (r: Vec<(String, ArgValue)>)
        requires
            fields_of(self@) == named_value_views(fields@),
        ensures
            named_value_views(r@) == named_value_views(fields@),
        decreases self@, 0int,
    {
        let mut r: Vec<(String, ArgValue)> = Vec::new();
        let mut i: usize = 0;
        while i < fields.len()
            invariant
                i <= fields.len(),
                fields_of(self@) == named_value_views(fields@),
                named_value_views(r@) =~= named_value_views(fields@).take(i as int),
            decreases fields.len() - i,
        {
            let ghost before = named_value_views(r@);
            proof {
                let held = fields_of(self@);
                assert(held[i as int] == (fields@[i as int].0@, fields@[i as int].1@));
                assert(held.len() > 0);
                if self@ is Record {
                    assert(decreases_to!(self@ => self@->Record_0));
                } else {
                    assert(decreases_to!(self@ => self@->Struct_1));
                }
                assert(decreases_to!(held => held[i as int]));
                assert(decreases_to!(held[i as int] => held[i as int].1));
            }
            let copy = fields[i].1.clone();
            r.push((fields[i].0.clone(), copy));
            assert(named_value_views(r@) =~= before.push((fields@[i as int].0@, copy@)));
            i += 1;
        }
        assert(named_value_views(fields@).take(fields.len() as int) =~= named_value_views(
            fields@,
        ));
        r
    }
}

impl ArgValueView {
    /// The names of a list of named values, in order.
    pub open spec fn names(fields: Seq<(Seq<char>, ArgValueView)>) -> Seq<Seq<char>> {
        fields.map_values(|f: (Seq<char>, ArgValueView)| f.0)
    }

    /// The value of the field `name` of a record or of a variant with values by name:
    /// that of the first field of the name. `None` where there is none, or where the
    /// value has no fields.
    pub open spec fn field(self, name: Seq<char>) -> Option<ArgValueView> {
        let fields = match self {
            ArgValueView::Record(fields) => fields,
            ArgValueView::Struct(_, fields) => fields,
            _ => Seq::empty(),
        };
        match position(Self::names(fields), name) {
            Some(i) => Some(fields[i].1),
            None => None,
        }
    }
}

impl ArgValue {
    /// The value of the field `name` of a record or of a variant with values by name.
    pub fn field(&self, name: &str) -> (r: Option<&ArgValue>)
        ensures
            match r {
                Some(v) => self@.field(name@) == Some(v@),
                None => self@.field(name@) is None,
            },
    {
        let fields = match self {
            ArgValue::Record(fields) => {
                proof {
                    lemma_record_view(*fields);
                }
                fields
            },
            ArgValue::Struct(name, fields) => {
                proof {
                    lemma_struct_view(*name, *fields);
                }
                fields
            },
            _ => {
                proof {
                    lemma_position_missing(
                        ArgValueView::names(Seq::<(Seq<char>, ArgValueView)>::empty()),
                        name@,
                    );
                }
                return None;
            },
        };
        let ghost all = named_value_views(fields@);
        let wanted = name.to_owned();
        let mut i: usize = 0;
        while i < fields.len()
            invariant
                i <= fields.len(),
                wanted@ == name@,
                all == named_value_views(fields@),
                self@ == ArgValueView::Record(all) || (self@ is Struct && self@->Struct_1 == all),
                forall|j: int| 0 <= j < i ==> ArgValueView::names(all)[j] != name@,
            decreases fields.len() - i,
        {
            if fields[i].0 == wanted {
                proof {
                    assert(ArgValueView::names(all)[i as int] == name@);
                    lemma_position_found(ArgValueView::names(all), name@, i as int);
                    assert(all[i as int].1 == fields@[i as int].1@);
                }
                return Some(&fields[i].1);
            }
            i += 1;
        }
        proof {
            lemma_position_missing(ArgValueView::names(all), name@);
        }
        None
    }

    /// The string that the value is, if it is one.
    pub fn as_text(&self) -> (r: Option<&String>)
        ensures
            match r {
                Some(s) => self@ == ArgValueView::Text(s@),
                None => !(self@ is Text),
            },
    {
        match self {
            ArgValue::Text(s) => Some(s),
            _ => None,
        }
    }

    /// The integer that the value is, if it is one.
    pub fn as_integer(&self) -> (r: Option<i64>)
        ensures
            match r {
                Some(i) => self@ == ArgValueView::Integer(i as int),
                None => !(self@ is Integer),
            },
    {
        match self {
            ArgValue::Integer(i) => Some(*i),
            _ => None,
        }
    }

    /// The JSON text of the number that the value is, if it is one that need not be an
    /// integer.
    pub fn as_number(&self) -> (r: Option<&String>)
        ensures
            match r {
                Some(n) => self@ == ArgValueView::Number(n@),
                None => !(self@ is Number),
            },
    {
        match self {
            ArgValue::Number(n) => Some(n),
            _ => None,
        }
    }

    /// The truth value that the value is, if it is one.
    pub fn as_boolean(&self) -> (r: Option<bool>)
        ensures
            match r {
                Some(b) => self@ == ArgValueView::Boolean(b),
                None => !(self@ is Boolean),
            },
    {
        match self {
            ArgValue::Boolean(b) => Some(*b),
            _ => None,
        }
    }

    /// The items of the value, if it is a list.
    pub fn as_list(&self) -> (r: Option<&Vec<ArgValue>>)
        ensures
            match r {
                Some(items) => self@ == ArgValueView::List(value_views(items@)),
                None => !(self@ is List),
            },
    {
        match self {
            ArgValue::List(items) => {
                proof {
                    lemma_list_view(*items);
                }
                Some(items)
            },
            _ => None,
        }
    }

    /// Whether the value is one that is not there.
    pub fn is_absent(&self) -> (r: bool)
        ensures
            r == (self@ is Absent),
    {
        match self {
            ArgValue::Absent => true,
            _ => false,
        }
    }
}

/// The names of the fields, in order.
pub open spec fn field_names_of(fields: Seq<FieldView>) -> Seq<Seq<char>> {
    fields.map_values(|f: FieldView| f.name)
}

/// Whether the fields can be told apart in an object: no two have the same name, and
/// none is named `type` where the object also tells the variant.
pub open spec fn valid_fields(fields: Seq<FieldView>, in_variant: bool) -> bool {
    &&& field_names_of(fields).no_duplicates()
    &&& in_variant ==> !field_names_of(fields).contains("type"@)
}

/// Whether the fields of the record, or of each variant that carries values by name,
/// can be told apart.
pub open spec fn valid_definition(definition: ArgumentTypeView) -> bool {
    match definition {
        ArgumentTypeView::Record { fields } => valid_fields(fields, false),
        ArgumentTypeView::Union { variants, description } => forall|k: int|
            0 <= k < variants.len() ==> (#[trigger] variants[k].payload matches PayloadView::Named(
                fields,
            ) ==> valid_fields(fields, true)),
    }
}

/// Whether each definition of the table is valid.
pub open spec fn valid_table(table: Seq<NamedTypeView>) -> bool {
    forall|i: int| 0 <= i < table.len() ==> valid_definition(#[trigger] table[i].definition)
}

/// Whether `v` is a value of the type `ty`.
pub open spec fn has_type(table: Seq<NamedTypeView>, ty: TypeDescView, v: ArgValueView) -> bool
    decreases v, 2int, ty.depth(),
{
    match ty {
        TypeDescView::Text => v is Text,
        TypeDescView::Integer => v matches ArgValueView::Integer(i) && i64::MIN <= i <= i64::MAX,
        TypeDescView::Number => v is Number,
        TypeDescView::Boolean => v is Boolean,
        TypeDescView::List(item) => v matches ArgValueView::List(items) && forall|k: int|
            0 <= k < items.len() ==> has_type(table, *item, #[trigger] items[k]),
        TypeDescView::Optional(inner) => v is Absent || has_type(table, *inner, v),
        TypeDescView::Named(name) => match position(type_names(table), name) {
            Some(i) => has_argument_type(table, table[i].definition, v),
            None => false,
        },
    }
}

/// Whether `v` is a value of the record or of the tagged union.
pub open spec fn has_argument_type(
    table: Seq<NamedTypeView>,
    definition: ArgumentTypeView,
    v: ArgValueView,
) -> bool
    decreases v, 1int, 0nat,
{
    match definition {
        ArgumentTypeView::Record { fields } => v is Record && has_fields(table, fields, v),
        ArgumentTypeView::Union { variants, description } => match position(
            variant_names(variants),
            variant_name(v),
        ) {
            Some(k) => match variants[k].payload {
                PayloadView::Unit => v is Unit,
                PayloadView::Tuple(types) => v is Tuple && has_positions(table, types, v),
                PayloadView::Named(fields) => v is Struct && has_fields(table, fields, v),
            },
            None => false,
        },
    }
}

/// The names of the variants, in order.
pub open spec fn variant_names(variants: Seq<VariantView>) -> Seq<Seq<char>> {
    variants.map_values(|v: VariantView| v.name)
}

/// The name of the variant that `v` is, or the empty string where it is none.
pub open spec fn variant_name(v: ArgValueView) -> Seq<char> {
    match v {
        ArgValueView::Unit(name) => name,
        ArgValueView::Tuple(name, _) => name,
        ArgValueView::Struct(name, _) => name,
        _ => Seq::empty(),
    }
}

/// The named values that `v` holds, where it is a record or a variant with values by
/// name.
pub open spec fn fields_of(v: ArgValueView) -> Seq<(Seq<char>, ArgValueView)> {
    match v {
        ArgValueView::Record(fields) => fields,
        ArgValueView::Struct(_, fields) => fields,
        _ => Seq::empty(),
    }
}

/// The values that `v` holds by position, where it is a list or a variant with values
/// by position.
pub open spec fn items_of(v: ArgValueView) -> Seq<ArgValueView> {
    match v {
        ArgValueView::List(items) => items,
        ArgValueView::Tuple(_, values) => values,
        _ => Seq::empty(),
    }
}

/// Whether `v` holds exactly the fields, each under its name and with a value of its
/// type.
pub open spec fn has_fields(
    table: Seq<NamedTypeView>,
    fields: Seq<FieldView>,
    v: ArgValueView,
) -> bool
    decreases v, 0int, 0nat,
{
    &&& fields_of(v).len() == fields.len()
    &&& forall|k: int|
        0 <= k < fields.len() ==> (#[trigger] fields_of(v)[k]).0 == fields[k].name && has_type(
            table,
            fields[k].ty,
            fields_of(v)[k].1,
        )
}

/// Whether `v` holds exactly one value for each of the types, and of that type.
pub open spec fn has_positions(
    table: Seq<NamedTypeView>,
    types: Seq<TypeDescView>,
    v: ArgValueView,
) -> bool
    decreases v, 0int, 0nat,
{
    &&& items_of(v).len() == types.len()
    &&& forall|k: int|
        0 <= k < types.len() ==> has_type(table, types[k], #[trigger] items_of(v)[k])
}

} // verus!
