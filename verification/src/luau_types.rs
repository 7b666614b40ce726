//! Luau type names for manifest types, and conversion of JSON Schema
//! documents into manifest types.
use vstd::prelude::*;
use crate::json::{as_bool, as_str, get, lemma_get_decreases, JsonValue};
use crate::manifest::{FieldDef, FieldType, McpParamDef, ParamType, SchemaDef};
use crate::order::{law_stable_order_sorted, lemma_stable_order_indices, seq_lt, stable_order, stable_sort_order};
use crate::text::{chars_of, join, join_strings, owned, push_char, push_str, str_eq, string_of, sub_chars, views};

verus! {

broadcast use vstd::seq_lib::group_seq_properties;

/// `v` between double quotes.
pub open spec fn quoted(v: Seq<char>) -> Seq<char> {
    seq!['"'] + v + seq!['"']
}

/// The Luau literal union of string values: `("a" | "b")`.
pub open spec fn enum_type_text(values: Seq<Seq<char>>) -> Seq<char> {
    seq!['('] + join(values.map_values(|v: Seq<char>| quoted(v)), " | "@) + seq![')']
}

/// Renders an enum as a Luau literal union: `("val1" | "val2" | "val3")`.
pub fn render_enum_type(values: &Vec<String>) -> (r: String)
    ensures
        r@ == enum_type_text(values@.map_values(|v: String| v@)),
{
    let ghost vs = values@.map_values(|v: String| v@);
    let mut parts: Vec<String> = Vec::new();
    let mut i: usize = 0;
    while i < values.len()
        invariant
            i <= values@.len(),
            vs == values@.map_values(|v: String| v@),
            views(parts@) =~= vs.take(i as int).map_values(
                |v: Seq<char>| quoted(v),
            ),
        decreases values@.len() - i,
    {
        let ghost old_parts = parts@;
        let mut q = String::new();
        push_char(&mut q, '"');
        push_str(&mut q, values[i].as_str());
        push_char(&mut q, '"');
        parts.push(q);
        proof {
            assert(q@ =~= quoted(vs[i as int]));
            assert(views(parts@) =~= views(old_parts).push(
                q@,
            ));
            assert(vs.take(i + 1).map_values(|v: Seq<char>| quoted(v)) =~= vs.take(
                i as int,
            ).map_values(|v: Seq<char>| quoted(v)).push(quoted(vs[i as int])));
        }
        i = i + 1;
    }
    assert(vs.take(values@.len() as int) =~= vs);
    let inner = join_strings(&parts, " | ");
    let mut r = String::new();
    push_char(&mut r, '(');
    push_str(&mut r, inner.as_str());
    push_char(&mut r, ')');
    r
}

/// Luau name of a parameter's scalar type.
pub open spec fn param_luau_type(t: ParamType) -> Seq<char> {
    match t {
        ParamType::String => "string"@,
        ParamType::Integer => "number"@,
        ParamType::Number => "number"@,
        ParamType::Boolean => "boolean"@,
    }
}

/// Converts a parameter type to its Luau type name.
pub fn param_type_to_luau(param_type: &ParamType) -> (r: String)
    ensures
        r@ == param_luau_type(*param_type),
{
    match param_type {
        ParamType::String => crate::text::owned("string"),
        ParamType::Integer => crate::text::owned("number"),
        ParamType::Number => crate::text::owned("number"),
        ParamType::Boolean => crate::text::owned("boolean"),
    }
}

/// The Luau type of a field or parameter that may carry enum values: the
/// literal union when there are enum values, else the type's name.
pub open spec fn typed_text(enum_values: Option<Vec<String>>, base: Seq<char>) -> Seq<char> {
    match enum_values {
        Some(ev) => enum_type_text(ev@.map_values(|v: String| v@)),
        None => base,
    }
}

/// `"?"` when a value may be absent, else nothing.
pub open spec fn optional_mark(optional: bool) -> Seq<char> {
    if optional {
        seq!['?']
    } else {
        Seq::<char>::empty()
    }
}

/// The Luau type of a field type (deep: arrays, inline objects and maps are
/// rendered with their element types).
pub open spec fn luau_type(ft: FieldType) -> Seq<char>
    decreases ft, 0nat,
{
    match ft {
        FieldType::String => "string"@,
        FieldType::Integer => "number"@,
        FieldType::Number => "number"@,
        FieldType::Boolean => "boolean"@,
        FieldType::Array { items } => seq!['{'] + luau_type(*items) + seq!['}'],
        FieldType::Object { schema } => schema@,
        FieldType::InlineObject { fields } => "{ "@ + join(inline_entries(fields@), ", "@) + " }"@,
        FieldType::MapOf { value } => "{ [string]: "@ + luau_type(*value) + " }"@,
    }
}

/// One `name: type?` entry per field of an inline object.
pub open spec fn inline_entries(fields: Seq<FieldDef>) -> Seq<Seq<char>>
    decreases fields, fields.len(),
{
    if fields.len() == 0 {
        Seq::<Seq<char>>::empty()
    } else {
        let f = fields.last();
        inline_entries(fields.drop_last()).push(
            f.name@ + ": "@ + typed_text(f.enum_values, luau_type(f.field_type))
                + optional_mark(!f.required || f.nullable),
        )
    }
}

/// Converts a field type to its Luau type name.
pub fn field_type_to_luau(field_type: &FieldType) -> (r: String)
    ensures
        r@ == luau_type(*field_type),
    decreases field_type,
{
    match field_type {
        FieldType::String => crate::text::owned("string"),
        FieldType::Integer => crate::text::owned("number"),
        FieldType::Number => crate::text::owned("number"),
        FieldType::Boolean => crate::text::owned("boolean"),
        FieldType::Array { items } => {
            let inner = field_type_to_luau(items);
            let mut r = String::new();
            push_char(&mut r, '{');
            push_str(&mut r, inner.as_str());
            push_char(&mut r, '}');
            r
        },
        FieldType::Object { schema } => schema.clone(),
        FieldType::InlineObject { fields } => {
            let mut entries: Vec<String> = Vec::new();
            let mut i: usize = 0;
            while i < fields.len()
                invariant
                    i <= fields@.len(),
                    *field_type == (FieldType::InlineObject { fields: *fields }),
                    views(entries@) =~= inline_entries(fields@.take(i as int)),
                decreases fields@.len() - i,
            {
                let f = &fields[i];
                let type_str = match &f.enum_values {
                    Some(ev) => render_enum_type(ev),
                    None => {
                        assert(decreases_to!(*field_type => (*field_type)->fields));
                        assert((*field_type)->fields == *fields);
                        assert(decreases_to!(*fields => fields@));
                        assert(decreases_to!(fields@ => fields@[i as int]));
                        assert(decreases_to!(fields@[i as int] => fields@[i as int].field_type));
                        field_type_to_luau(&f.field_type)
                    },
                };
                let mut e = String::new();
                push_str(&mut e, f.name.as_str());
                push_str(&mut e, ": ");
                push_str(&mut e, type_str.as_str());
                if !f.required || f.nullable {
                    push_char(&mut e, '?');
                }
                let ghost old_entries = entries@;
                entries.push(e);
                proof {
                    assert(views(entries@) =~= views(old_entries).push(e@));
                    assert(fields@.take(i + 1).drop_last() =~= fields@.take(i as int));
                    assert(fields@.take(i + 1).last() == fields@[i as int]);
                    assert(type_str@ == typed_text(f.enum_values, luau_type(f.field_type)));
                    let entry = f.name@ + ": "@ + typed_text(f.enum_values, luau_type(f.field_type))
                        + optional_mark(!f.required || f.nullable);
                    assert(e@ =~= entry);
                    assert(inline_entries(fields@.take(i + 1)) == inline_entries(
                        fields@.take(i as int),
                    ).push(entry));
                }
                i = i + 1;
                assert(views(entries@) =~= inline_entries(
                    fields@.take(i as int),
                ));
            }
            assert(fields@.take(fields@.len() as int) =~= fields@);
            let inner = join_strings(&entries, ", ");
            let mut r = crate::text::owned("{ ");
            push_str(&mut r, inner.as_str());
            push_str(&mut r, " }");
            r
        },
        FieldType::MapOf { value } => {
            let inner = field_type_to_luau(value);
            let mut r = crate::text::owned("{ [string]: ");
            push_str(&mut r, inner.as_str());
            push_str(&mut r, " }");
            r
        },
    }
}

// ---------------------------------------------------------------------------
// JSON Schema
// ---------------------------------------------------------------------------

/// The part of a reference after its last `/` (all of it without one).
pub open spec fn after_last_slash(s: Seq<char>) -> Seq<char>
    decreases s.len(),
{
    if s.len() == 0 {
        s
    } else if s.last() == '/' {
        Seq::empty()
    } else {
        after_last_slash(s.drop_last()).push(s.last())
    }
}

fn after_last_slash_of(s: &str) -> (r: String)
    ensures
        r@ == after_last_slash(s@),
{
    let v = chars_of(s);
    let mut i: usize = v.len();
    while i > 0 && v[i - 1] != '/'
        invariant
            i <= v@.len(),
            v@ == s@,
            after_last_slash(v@) == after_last_slash(v@.take(i as int)) + v@.skip(i as int),
        decreases i,
    {
        proof {
            let t = v@.take(i as int);
            assert(t.drop_last() =~= v@.take(i - 1));
            assert(t.last() == v@[i - 1]);
            assert(v@.skip(i - 1) =~= seq![v@[i - 1]] + v@.skip(i as int));
            assert(after_last_slash(t) == after_last_slash(v@.take(i - 1)).push(v@[i - 1]));
            assert(after_last_slash(v@.take(i - 1)).push(v@[i - 1]) + v@.skip(i as int)
                =~= after_last_slash(v@.take(i - 1)) + v@.skip(i - 1));
        }
        i = i - 1;
    }
    proof {
        if i == 0 {
            assert(v@.take(0) =~= Seq::<char>::empty());
        } else {
            assert(v@.take(i as int).last() == '/');
        }
        assert(after_last_slash(v@.take(i as int)) =~= Seq::<char>::empty());
        assert(Seq::<char>::empty() + v@.skip(i as int) =~= v@.skip(i as int));
    }
    let rest = sub_chars(v.as_slice(), i, v.len());
    assert(rest@ =~= v@.skip(i as int));
    string_of(rest.as_slice())
}

/// The first string of a list of types that is not `null`.
pub open spec fn first_type(a: Seq<JsonValue>) -> Option<Seq<char>>
    decreases a.len(),
{
    if a.len() == 0 {
        None
    } else {
        match a[0] {
            JsonValue::String(t) => if t@ != "null"@ {
                Some(t@)
            } else {
                first_type(a.drop_first())
            },
            _ => first_type(a.drop_first()),
        }
    }
}

/// The name of a schema's `type`: the string, or the first non-`null` entry
/// of a list of types; empty when there is none.
pub open spec fn declared_type(prop: JsonValue) -> Seq<char> {
    match get(prop, "type"@) {
        Some(JsonValue::String(t)) => t@,
        Some(JsonValue::Array(a)) => match first_type(a@) {
            Some(t) => t,
            None => ""@,
        },
        _ => ""@,
    }
}

fn declared_type_of(prop: &JsonValue) -> (t: String)
    ensures
        t@ == declared_type(*prop),
{
    match prop.get("type") {
        Some(JsonValue::String(t)) => t.clone(),
        Some(JsonValue::Array(a)) => {
            let mut i: usize = 0;
            while i < a.len()
                invariant
                    i <= a@.len(),
                    get(*prop, "type"@) == Some(JsonValue::Array(*a)),
                    first_type(a@) == first_type(a@.skip(i as int)),
                decreases a@.len() - i,
            {
                assert(a@.skip(i as int)[0] == a@[i as int]);
                assert(a@.skip(i as int).drop_first() =~= a@.skip(i + 1));
                match &a[i] {
                    JsonValue::String(t) => {
                        if !str_eq(t.as_str(), "null") {
                            return t.clone();
                        }
                    },
                    _ => {},
                }
                i = i + 1;
            }
            owned("")
        },
        _ => owned(""),
    }
}

/// `v` is the JSON string `s`.
pub open spec fn is_str_value(v: JsonValue, s: Seq<char>) -> bool {
    v matches JsonValue::String(t) && t@ == s
}

/// The string `name` is an entry of the array member `key` of `owner`.
pub open spec fn listed(owner: JsonValue, key: Seq<char>, name: Seq<char>) -> bool {
    match get(owner, key) {
        Some(JsonValue::Array(a)) => exists|i: int| 0 <= i < a@.len() && #[trigger] is_str_value(a@[i], name),
        _ => false,
    }
}

proof fn lemma_listed(owner: JsonValue, key: Seq<char>, a: Vec<JsonValue>, name: Seq<char>, i: int)
    requires
        get(owner, key) == Some(JsonValue::Array(a)),
        0 <= i < a@.len(),
        is_str_value(a@[i], name),
    ensures
        listed(owner, key, name),
{
    assert(match get(owner, key) {
        Some(JsonValue::Array(b)) => b == a,
        _ => false,
    });
    assert(match get(owner, key) {
        Some(JsonValue::Array(b)) => is_str_value(b@[i], name),
        _ => false,
    });
}

/// `name` is listed in the `required` array of `owner`.
pub open spec fn json_required(owner: JsonValue, name: Seq<char>) -> bool {
    listed(owner, "required"@, name)
}

fn json_is_required(owner: &JsonValue, name: &str) -> (r: bool)
    ensures
        r == json_required(*owner, name@),
{
    match owner.get("required") {
        Some(JsonValue::Array(a)) => {
            let mut i: usize = 0;
            while i < a.len()
                invariant
                    i <= a@.len(),
                    get(*owner, "required"@) == Some(JsonValue::Array(*a)),
                    forall|j: int| 0 <= j < i ==> !is_str_value(#[trigger] a@[j], name@),
                decreases a@.len() - i,
            {
                match &a[i] {
                    JsonValue::String(t) => {
                        if str_eq(t.as_str(), name) {
                            assert(is_str_value(a@[i as int], name@));
                            proof {
                                lemma_listed(*owner, "required"@, *a, name@, i as int);
                            }
                            return true;
                        }
                    },
                    _ => {},
                }
                i = i + 1;
            }
            false
        },
        _ => false,
    }
}

/// The strings among JSON values, in order.
pub open spec fn str_values(a: Seq<JsonValue>) -> Seq<Seq<char>>
    decreases a.len(),
{
    if a.len() == 0 {
        Seq::empty()
    } else {
        let r = str_values(a.drop_last());
        match a.last() {
            JsonValue::String(t) => r.push(t@),
            _ => r,
        }
    }
}

/// The string values of a schema's `enum`, when there are any.
pub open spec fn json_enum(prop: JsonValue) -> Option<Seq<Seq<char>>> {
    match get(prop, "enum"@) {
        Some(JsonValue::Array(a)) => if str_values(a@).len() > 0 {
            Some(str_values(a@))
        } else {
            None
        },
        _ => None,
    }
}

fn json_enum_of(prop: &JsonValue) -> (r: Option<Vec<String>>)
    ensures
        match json_enum(*prop) {
            Some(e) => r matches Some(v) && views(v@) == e,
            None => r is None,
        },
{
    match prop.get("enum") {
        Some(JsonValue::Array(a)) => {
            let mut vals: Vec<String> = Vec::new();
            let mut i: usize = 0;
            while i < a.len()
                invariant
                    i <= a@.len(),
                    get(*prop, "enum"@) == Some(JsonValue::Array(*a)),
                    views(vals@) == str_values(a@.take(i as int)),
                decreases a@.len() - i,
            {
                proof {
                    assert(a@.take(i + 1).drop_last() =~= a@.take(i as int));
                    assert(a@.take(i + 1).last() == a@[i as int]);
                }
                match &a[i] {
                    JsonValue::String(t) => {
                        let ghost before = vals@;
                        vals.push(t.clone());
                        assert(views(vals@) =~= views(before).push(t@));
                    },
                    _ => {},
                }
                i = i + 1;
            }
            assert(a@.take(a@.len() as int) =~= a@);
            if vals.len() > 0 {
                Some(vals)
            } else {
                None
            }
        },
        _ => None,
    }
}

/// A schema admits `null`: `nullable: true`, or `null` among its types.
pub open spec fn json_nullable(prop: JsonValue) -> bool {
    ||| as_bool(get(prop, "nullable"@)) == Some(true)
    ||| listed(prop, "type"@, "null"@)
}

fn json_nullable_of(prop: &JsonValue) -> (r: bool)
    ensures
        r == json_nullable(*prop),
{
    match prop.get("nullable") {
        Some(v) => {
            match v.as_bool() {
                Some(b) => {
                    if b {
                        return true;
                    }
                },
                None => {},
            }
        },
        None => {},
    }
    match prop.get("type") {
        Some(JsonValue::Array(a)) => {
            let mut i: usize = 0;
            while i < a.len()
                invariant
                    i <= a@.len(),
                    get(*prop, "type"@) == Some(JsonValue::Array(*a)),
                    as_bool(get(*prop, "nullable"@)) != Some(true),
                    forall|j: int| 0 <= j < i ==> !is_str_value(#[trigger] a@[j], "null"@),
                decreases a@.len() - i,
            {
                match &a[i] {
                    JsonValue::String(t) => {
                        if str_eq(t.as_str(), "null") {
                            proof {
                                lemma_listed(*prop, "type"@, *a, "null"@, i as int);
                            }
                            return true;
                        }
                    },
                    _ => {},
                }
                i = i + 1;
            }
            false
        },
        _ => false,
    }
}

/// The text of an optional string.
pub open spec fn opt_text(o: Option<String>) -> Option<Seq<char>> {
    match o {
        Some(s) => Some(s@),
        None => None,
    }
}

/// The texts of an optional list of strings.
pub open spec fn opt_texts(o: Option<Vec<String>>) -> Option<Seq<Seq<char>>> {
    match o {
        Some(v) => Some(views(v@)),
        None => None,
    }
}

fn str_member(prop: &JsonValue, key: &str) -> (r: Option<String>)
    ensures
        opt_text(r) == as_str(get(*prop, key@)),
{
    match prop.get(key) {
        Some(JsonValue::String(t)) => Some(t.clone()),
        _ => None,
    }
}

/// The names of members, in order.
pub open spec fn key_views(members: Seq<(String, JsonValue)>) -> Seq<Seq<char>> {
    members.map_values(|m: (String, JsonValue)| m.0@)
}

/// The order in which members sorted by name are listed.
pub open spec fn member_order(members: Seq<(String, JsonValue)>) -> Seq<int> {
    stable_order(key_views(members), members.len())
}

fn member_order_of(members: &Vec<(String, JsonValue)>) -> (r: Vec<usize>)
    ensures
        r@.map_values(|i: usize| i as int) == member_order(members@),
        r@.len() == members@.len(),
        forall|k: int| 0 <= k < r@.len() ==> #[trigger] r@[k] < members@.len(),
{
    let mut names: Vec<String> = Vec::new();
    let mut i: usize = 0;
    while i < members.len()
        invariant
            i <= members@.len(),
            views(names@) =~= key_views(members@.take(i as int)),
        decreases members@.len() - i,
    {
        let ghost before = names@;
        names.push(members[i].0.clone());
        proof {
            assert(members@.take(i + 1) =~= members@.take(i as int).push(members@[i as int]));
            assert(views(names@) =~= views(before).push(members@[i as int].0@));
        }
        i = i + 1;
    }
    assert(members@.take(members@.len() as int) =~= members@);
    stable_sort_order(&names)
}

/// `ft` is the field type of a JSON Schema property: a `$ref` is an object
/// of the schema named by its last segment; `integer`, `number` and
/// `boolean` as such; an array of its item type (strings without one); an
/// object with properties as an inline object of its fields, one without
/// as a map of its `additionalProperties` schema (of strings without one);
/// anything else as a string.
pub open spec fn json_type_rel(ft: FieldType, prop: JsonValue) -> bool
    decreases prop, 1nat,
{
    match as_str(get(prop, "$ref"@)) {
        Some(r) => ft matches FieldType::Object { schema } && schema@ == after_last_slash(r),
        None => {
            let t = declared_type(prop);
            if t == "integer"@ {
                ft is Integer
            } else if t == "number"@ {
                ft is Number
            } else if t == "boolean"@ {
                ft is Boolean
            } else if t == "array"@ {
                ft matches FieldType::Array { items } && match get(prop, "items"@) {
                    Some(it) => {
                        proof {
                            lemma_get_decreases(prop, "items"@);
                        }
                        json_type_rel(*items, it)
                    },
                    None => *items is String,
                }
            } else if t == "object"@ {
                object_type_rel(ft, prop)
            } else {
                ft is String
            }
        },
    }
}

/// `ft` is the field type of an object schema: an inline object of its
/// fields when it has properties, else a map of its `additionalProperties`
/// schema (of strings without one).
pub open spec fn object_type_rel(ft: FieldType, prop: JsonValue) -> bool
    decreases prop, 0nat,
{
    match get(prop, "properties"@) {
        Some(JsonValue::Object(members)) => ft matches FieldType::InlineObject { fields } && {
            proof {
                lemma_get_decreases(prop, "properties"@);
                let pv = get(prop, "properties"@)->0;
                assert(decreases_to!(pv => pv->Object_0));
                assert(decreases_to!(pv->Object_0 => pv->Object_0@));
            }
            json_fields_rel(fields@, members@, prop)
        },
        _ => match get(prop, "additionalProperties"@) {
            Some(JsonValue::Object(m)) => ft matches FieldType::MapOf { value } && {
                proof {
                    lemma_get_decreases(prop, "additionalProperties"@);
                }
                json_type_rel(*value, JsonValue::Object(m))
            },
            _ => ft matches FieldType::MapOf { value } && *value is String,
        },
    }
}

/// `fields` are the fields of an object's properties, sorted by name (a
/// stable sort); `owner` lists the required ones.
pub open spec fn json_fields_rel(
    fields: Seq<FieldDef>,
    members: Seq<(String, JsonValue)>,
    owner: JsonValue,
) -> bool
    decreases members, 3nat,
{
    let order = member_order(members);
    &&& fields.len() == members.len()
    &&& forall|k: int|
        0 <= k < fields.len() ==> 0 <= order[k] < members.len() && json_field_rel(
            #[trigger] fields[k],
            members[order[k]].0@,
            members[order[k]].1,
            json_required(owner, members[order[k]].0@),
        )
}

/// `fd` is the field for property `name` with schema `prop`.
pub open spec fn json_field_rel(fd: FieldDef, name: Seq<char>, prop: JsonValue, required: bool) -> bool
    decreases prop, 2nat,
{
    &&& fd.name@ == name
    &&& fd.required == required
    &&& json_type_rel(fd.field_type, prop)
    &&& opt_text(fd.description) == as_str(get(prop, "description"@))
    &&& opt_texts(fd.enum_values) == json_enum(prop)
    &&& fd.nullable == json_nullable(prop)
    &&& opt_text(fd.format) == as_str(get(prop, "format"@))
}

/// Converts one JSON Schema property into a field (see `json_field_rel`).
pub fn json_schema_prop_to_field_def(name: &str, prop: &JsonValue, required: bool) -> (fd: FieldDef)
    ensures
        json_field_rel(fd, name@, *prop, required),
    decreases prop, 2nat,
{
    let field_type = json_schema_prop_to_field_type(prop);
    let enum_values = json_enum_of(prop);
    FieldDef {
        name: owned(name),
        field_type,
        required,
        description: str_member(prop, "description"),
        enum_values,
        nullable: json_nullable_of(prop),
        format: str_member(prop, "format"),
    }
}

/// Converts a JSON Schema property into a field type (see `json_type_rel`).
pub fn json_schema_prop_to_field_type(prop: &JsonValue) -> (ft: FieldType)
    ensures
        json_type_rel(ft, *prop),
    decreases prop, 1nat,
{
    match prop.get("$ref") {
        Some(JsonValue::String(r)) => {
            return FieldType::Object { schema: after_last_slash_of(r.as_str()) };
        },
        _ => {},
    }
    let t = declared_type_of(prop);
    if str_eq(t.as_str(), "integer") {
        FieldType::Integer
    } else if str_eq(t.as_str(), "number") {
        FieldType::Number
    } else if str_eq(t.as_str(), "boolean") {
        FieldType::Boolean
    } else if str_eq(t.as_str(), "array") {
        let items = match prop.get("items") {
            Some(it) => {
                proof {
                    lemma_get_decreases(*prop, "items"@);
                }
                json_schema_prop_to_field_type(it)
            },
            None => FieldType::String,
        };
        FieldType::Array { items: Box::new(items) }
    } else if str_eq(t.as_str(), "object") {
        object_field_type(prop)
    } else {
        FieldType::String
    }
}

fn object_field_type(prop: &JsonValue) -> (ft: FieldType)
    ensures
        object_type_rel(ft, *prop),
    decreases prop, 0nat,
{
    match prop.get("properties") {
        Some(JsonValue::Object(members)) => {
            proof {
                lemma_get_decreases(*prop, "properties"@);
                let pv = get(*prop, "properties"@)->0;
                assert(decreases_to!(pv => pv->Object_0));
                assert(decreases_to!(pv->Object_0 => pv->Object_0@));
            }
            let fields = json_fields(members, prop);
            return FieldType::InlineObject { fields };
        },
        _ => {},
    }
    match prop.get("additionalProperties") {
        Some(JsonValue::Object(m)) => {
            let ap = prop.get("additionalProperties").unwrap();
            proof {
                lemma_get_decreases(*prop, "additionalProperties"@);
            }
            let value = json_schema_prop_to_field_type(ap);
            FieldType::MapOf { value: Box::new(value) }
        },
        _ => FieldType::MapOf { value: Box::new(FieldType::String) },
    }
}

fn json_fields(members: &Vec<(String, JsonValue)>, owner: &JsonValue) -> (r: Vec<FieldDef>)
    ensures
        json_fields_rel(r@, members@, *owner),
    decreases members@, 3nat,
{
    let order = member_order_of(members);
    let ghost o = member_order(members@);
    let mut out: Vec<FieldDef> = Vec::new();
    let mut k: usize = 0;
    while k < order.len()
        invariant
            k <= order@.len(),
            order@.len() == members@.len(),
            o == order@.map_values(|i: usize| i as int),
            forall|j: int| 0 <= j < order@.len() ==> #[trigger] order@[j] < members@.len(),
            out@.len() == k,
            forall|j: int|
                0 <= j < k ==> 0 <= o[j] < members@.len() && json_field_rel(
                    #[trigger] out@[j],
                    members@[o[j]].0@,
                    members@[o[j]].1,
                    json_required(*owner, members@[o[j]].0@),
                ),
        decreases order@.len() - k,
    {
        let i = order[k];
        proof {
            assert(decreases_to!(members@ => members@[i as int]));
            assert(decreases_to!(members@[i as int] => members@[i as int].1));
        }
        let required = json_is_required(owner, members[i].0.as_str());
        let fd = json_schema_prop_to_field_def(members[i].0.as_str(), &members[i].1, required);
        out.push(fd);
        assert(o[k as int] == i as int);
        k = k + 1;
    }
    out
}


/// `p` is the parameter for property `name` with schema `prop`: its Luau
/// type is the literal union of its enum values when it has some, else the
/// Luau name of its field type.
pub open spec fn json_param_rel(p: McpParamDef, name: Seq<char>, prop: JsonValue, required: bool) -> bool {
    &&& p.name@ == name
    &&& json_type_rel(p.field_type, prop)
    &&& p.luau_type@ == match json_enum(prop) {
        Some(ev) => enum_type_text(ev),
        None => luau_type(p.field_type),
    }
    &&& p.required == required
    &&& opt_text(p.description) == as_str(get(prop, "description"@))
}

/// `params` are the parameters of an input schema's properties, sorted by
/// name; none when it has no properties object.
pub open spec fn json_params_rel(params: Seq<McpParamDef>, schema: JsonValue) -> bool {
    match get(schema, "properties"@) {
        Some(JsonValue::Object(members)) => {
            let order = member_order(members@);
            &&& params.len() == members@.len()
            &&& forall|k: int|
                0 <= k < params.len() ==> 0 <= order[k] < members@.len() && json_param_rel(
                    #[trigger] params[k],
                    members@[order[k]].0@,
                    members@[order[k]].1,
                    json_required(schema, members@[order[k]].0@),
                )
        },
        _ => params.len() == 0,
    }
}

/// The parameters of an MCP tool's input schema (see `json_params_rel`).
pub fn json_schema_to_params(schema: &JsonValue) -> (r: Vec<McpParamDef>)
    ensures
        json_params_rel(r@, *schema),
{
    let members = match schema.get("properties") {
        Some(JsonValue::Object(m)) => m,
        _ => {
            return Vec::new();
        },
    };
    let order = member_order_of(members);
    let ghost o = member_order(members@);
    let mut out: Vec<McpParamDef> = Vec::new();
    let mut k: usize = 0;
    while k < order.len()
        invariant
            k <= order@.len(),
            get(*schema, "properties"@) == Some(JsonValue::Object(*members)),
            order@.len() == members@.len(),
            o == order@.map_values(|i: usize| i as int),
            forall|j: int| 0 <= j < order@.len() ==> #[trigger] order@[j] < members@.len(),
            out@.len() == k,
            forall|j: int|
                0 <= j < k ==> 0 <= o[j] < members@.len() && json_param_rel(
                    #[trigger] out@[j],
                    members@[o[j]].0@,
                    members@[o[j]].1,
                    json_required(*schema, members@[o[j]].0@),
                ),
        decreases order@.len() - k,
    {
        let i = order[k];
        let (name, prop) = (&members[i].0, &members[i].1);
        let field_type = json_schema_prop_to_field_type(prop);
        let enum_values = json_enum_of(prop);
        let luau_type = match &enum_values {
            Some(ev) => render_enum_type(ev),
            None => field_type_to_luau(&field_type),
        };
        proof {
            match json_enum(*prop) {
                Some(e) => {
                    assert(views(enum_values->0@) == e);
                    assert(enum_values->0@.map_values(|v: String| v@) =~= e);
                },
                None => {},
            }
        }
        let p = McpParamDef {
            name: name.clone(),
            luau_type,
            required: json_is_required(schema, name.as_str()),
            description: str_member(prop, "description"),
            field_type,
        };
        out.push(p);
        assert(o[k as int] == i as int);
        k = k + 1;
    }
    out
}

/// The definitions of a JSON Schema document: `$defs`, or `definitions`
/// when there is no `$defs`.
pub open spec fn defs_value(schema: JsonValue) -> Option<JsonValue> {
    match get(schema, "$defs"@) {
        Some(v) => Some(v),
        None => get(schema, "definitions"@),
    }
}

/// `d` is the schema definition `name` given by `def`: its description, and
/// the fields of its properties sorted by name.
pub open spec fn json_def_rel(d: SchemaDef, name: Seq<char>, def: JsonValue) -> bool {
    &&& d.name@ == name
    &&& opt_text(d.description) == as_str(get(def, "description"@))
    &&& match get(def, "properties"@) {
        Some(JsonValue::Object(props)) => json_fields_rel(d.fields@, props@, def),
        _ => d.fields@.len() == 0,
    }
}

/// `defs` are the definitions of a schema document, sorted by name.
pub open spec fn json_defs_rel(defs: Seq<SchemaDef>, schema: JsonValue) -> bool {
    match defs_value(schema) {
        Some(JsonValue::Object(members)) => {
            let order = member_order(members@);
            &&& defs.len() == members@.len()
            &&& forall|k: int|
                0 <= k < defs.len() ==> 0 <= order[k] < members@.len() && json_def_rel(
                    #[trigger] defs[k],
                    members@[order[k]].0@,
                    members@[order[k]].1,
                )
        },
        _ => defs.len() == 0,
    }
}

/// The schema definitions of a JSON Schema document (see `json_defs_rel`).
pub fn extract_schema_defs(schema: &JsonValue) -> (r: Vec<SchemaDef>)
    ensures
        json_defs_rel(r@, *schema),
{
    let found = match schema.get("$defs") {
        Some(v) => Some(v),
        None => schema.get("definitions"),
    };
    let members = match found {
        Some(JsonValue::Object(m)) => m,
        _ => {
            return Vec::new();
        },
    };
    let order = member_order_of(members);
    let ghost o = member_order(members@);
    let mut out: Vec<SchemaDef> = Vec::new();
    let mut k: usize = 0;
    while k < order.len()
        invariant
            k <= order@.len(),
            defs_value(*schema) == Some(JsonValue::Object(*members)),
            order@.len() == members@.len(),
            o == order@.map_values(|i: usize| i as int),
            forall|j: int| 0 <= j < order@.len() ==> #[trigger] order@[j] < members@.len(),
            out@.len() == k,
            forall|j: int|
                0 <= j < k ==> 0 <= o[j] < members@.len() && json_def_rel(
                    #[trigger] out@[j],
                    members@[o[j]].0@,
                    members@[o[j]].1,
                ),
        decreases order@.len() - k,
    {
        let i = order[k];
        let def = &members[i].1;
        let fields = match def.get("properties") {
            Some(JsonValue::Object(props)) => json_fields(props, def),
            _ => Vec::new(),
        };
        let d = SchemaDef {
            name: members[i].0.clone(),
            description: str_member(def, "description"),
            fields,
        };
        out.push(d);
        assert(o[k as int] == i as int);
        k = k + 1;
    }
    out
}

/// The parameters of an input schema come sorted by name.
pub proof fn law_params_sorted_by_name(params: Seq<McpParamDef>, schema: JsonValue)
    requires
        json_params_rel(params, schema),
    ensures
        forall|a: int, b: int|
            0 <= a < b < params.len() ==> !seq_lt(#[trigger] params[b].name@, #[trigger] params[a].name@),
{
    match get(schema, "properties"@) {
        Some(JsonValue::Object(members)) => {
            let o = member_order(members@);
            law_stable_order_sorted(key_views(members@), members@.len());
            lemma_stable_order_indices(key_views(members@), members@.len());
            assert forall|a: int, b: int| 0 <= a < b < params.len() implies !seq_lt(
                #[trigger] params[b].name@,
                #[trigger] params[a].name@,
            ) by {
                assert(params[a].name@ == key_views(members@)[o[a]]);
                assert(params[b].name@ == key_views(members@)[o[b]]);
            }
        },
        _ => {},
    }
}

/// The definitions of a schema document come sorted by name.
pub proof fn law_defs_sorted_by_name(defs: Seq<SchemaDef>, schema: JsonValue)
    requires
        json_defs_rel(defs, schema),
    ensures
        forall|a: int, b: int|
            0 <= a < b < defs.len() ==> !seq_lt(#[trigger] defs[b].name@, #[trigger] defs[a].name@),
{
    match defs_value(schema) {
        Some(JsonValue::Object(members)) => {
            let o = member_order(members@);
            law_stable_order_sorted(key_views(members@), members@.len());
            lemma_stable_order_indices(key_views(members@), members@.len());
            assert forall|a: int, b: int| 0 <= a < b < defs.len() implies !seq_lt(
                #[trigger] defs[b].name@,
                #[trigger] defs[a].name@,
            ) by {
                assert(defs[a].name@ == key_views(members@)[o[a]]);
                assert(defs[b].name@ == key_views(members@)[o[b]]);
            }
        },
        _ => {},
    }
}

} // verus!
