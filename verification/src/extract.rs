//! From an OpenAPI document to the manifest: the API's configuration, one
//! function per operation, and the object schemas.
use vstd::prelude::*;
use crate::json::{copy_opt_json, same_json, JsonValue};
use crate::manifest::{
    copy_opt_string, ApiConfig, AuthConfig, FieldDef, FieldType, FunctionDef, HttpMethod,
    Manifest, ParamDef, ParamLocation, ParamType, RequestBodyDef, SchemaDef,
};
use crate::openapi::{
    OaAdditional, OaComponents, OaDocument, OaKind, OaMediaType, OaOperation, OaParamLocation,
    OaParameter, OaRequestBody, OaResponse, OaResponses, OaSchema, OaSecurityScheme, OaStatus,
    RefOr,
};
use crate::parser::{derive_function_name, fallback_name, snake_case};
use crate::text::{
    chars_of, contains_sub, owned, push_str, str_contains, str_eq, string_of, strip_prefix,
    strip_prefix_of, sub_chars,
};

verus! {

broadcast use vstd::seq_lib::group_seq_properties;

// ---------------------------------------------------------------------------
// References
// ---------------------------------------------------------------------------

/// The schema a `$ref` names: the part after `#/components/schemas/`, or
/// the whole reference when it does not start so.
pub open spec fn ref_target(r: Seq<char>) -> Seq<char> {
    match strip_prefix(r, "#/components/schemas/"@) {
        Some(x) => x,
        None => r,
    }
}

fn ref_target_of(r: &str) -> (t: String)
    ensures
        t@ == ref_target(r@),
{
    match strip_prefix_of(r, "#/components/schemas/") {
        Some(x) => x,
        None => owned(r),
    }
}

/// The schema name of a reference to a component schema.
pub open spec fn schema_ref_name(r: RefOr<OaSchema>) -> Option<Seq<char>> {
    match r {
        RefOr::Ref(x) => strip_prefix(x@, "#/components/schemas/"@),
        RefOr::Item(_) => None,
    }
}

fn schema_ref_name_of(r: &RefOr<OaSchema>) -> (n: Option<String>)
    ensures
        match schema_ref_name(*r) {
            Some(x) => n matches Some(y) && y@ == x,
            None => n is None,
        },
{
    match r {
        RefOr::Ref(x) => strip_prefix_of(x.as_str(), "#/components/schemas/"),
        RefOr::Item(_) => None,
    }
}

/// The index of the first entry with key `name`.
pub open spec fn lookup<T>(entries: Seq<(String, T)>, name: Seq<char>) -> Option<int> {
    if exists|i: int| 0 <= i < entries.len() && entries[i].0@ == name {
        Some(
            choose|i: int|
                0 <= i < entries.len() && entries[i].0@ == name && forall|j: int|
                    0 <= j < i ==> entries[j].0@ != name,
        )
    } else {
        None
    }
}

/// Finds the first entry with key `name`.
pub fn find_entry<T>(entries: &Vec<(String, T)>, name: &str) -> (r: Option<usize>)
    ensures
        match r {
            Some(i) => i < entries@.len() && lookup(entries@, name@) == Some(i as int),
            None => lookup(entries@, name@) is None,
        },
{
    let mut i: usize = 0;
    while i < entries.len()
        invariant
            i <= entries@.len(),
            forall|j: int| 0 <= j < i ==> entries@[j].0@ != name@,
        decreases entries@.len() - i,
    {
        if str_eq(entries[i].0.as_str(), name) {
            proof {
                let k = choose|k: int|
                    0 <= k < entries@.len() && entries@[k].0@ == name@ && forall|j: int|
                        0 <= j < k ==> entries@[j].0@ != name@;
                assert(entries@[i as int].0@ == name@);
                assert(k == i) by {
                    if k < i {
                        assert(entries@[k].0@ != name@);
                    } else if k > i {
                        assert(entries@[i as int].0@ != name@);
                    }
                }
            }
            return Some(i);
        }
        i = i + 1;
    }
    None
}

// ---------------------------------------------------------------------------
// Schema kinds
// ---------------------------------------------------------------------------

/// The parameter type of a schema kind.
pub open spec fn param_type_of(k: OaKind) -> ParamType {
    match k {
        OaKind::Integer { .. } => ParamType::Integer,
        OaKind::Number { .. } => ParamType::Number,
        OaKind::Boolean => ParamType::Boolean,
        _ => ParamType::String,
    }
}

/// The format of a string, integer or number schema.
pub open spec fn format_of(k: OaKind) -> Option<String> {
    match k {
        OaKind::Str { format, .. } => format,
        OaKind::Integer { format } => format,
        OaKind::Number { format } => format,
        _ => None,
    }
}

/// The values among a list of optional values.
pub open spec fn somes(e: Seq<Option<String>>) -> Seq<String>
    decreases e.len(),
{
    if e.len() == 0 {
        Seq::empty()
    } else {
        match e.last() {
            Some(v) => somes(e.drop_last()).push(v),
            None => somes(e.drop_last()),
        }
    }
}

/// The enumerated values of a string schema, if it has any.
pub open spec fn enum_of(k: OaKind) -> Option<Seq<String>> {
    match k {
        OaKind::Str { enumeration, .. } => if somes(enumeration@).len() > 0 {
            Some(somes(enumeration@))
        } else {
            None
        },
        _ => None,
    }
}

/// `o` holds the enumerated values of `k`.
pub open spec fn enum_rel(o: Option<Vec<String>>, k: OaKind) -> bool {
    match enum_of(k) {
        Some(v) => o matches Some(w) && w@ == v,
        None => o is None,
    }
}

fn param_type_of_kind(k: &OaKind) -> (r: ParamType)
    ensures
        r == param_type_of(*k),
{
    match k {
        OaKind::Integer { .. } => ParamType::Integer,
        OaKind::Number { .. } => ParamType::Number,
        OaKind::Boolean => ParamType::Boolean,
        _ => ParamType::String,
    }
}

fn format_of_kind(k: &OaKind) -> (r: Option<String>)
    ensures
        r == format_of(*k),
{
    match k {
        OaKind::Str { format, .. } => copy_opt_string(format),
        OaKind::Integer { format } => copy_opt_string(format),
        OaKind::Number { format } => copy_opt_string(format),
        _ => None,
    }
}

fn enum_of_kind(k: &OaKind) -> (r: Option<Vec<String>>)
    ensures
        enum_rel(r, *k),
{
    match k {
        OaKind::Str { enumeration, .. } => {
            let mut vals: Vec<String> = Vec::new();
            let mut i: usize = 0;
            proof {
                assert(enumeration@.take(0) =~= Seq::<Option<String>>::empty());
            }
            while i < enumeration.len()
                invariant
                    i <= enumeration@.len(),
                    vals@ == somes(enumeration@.take(i as int)),
                decreases enumeration@.len() - i,
            {
                proof {
                    assert(enumeration@.take(i + 1).drop_last() =~= enumeration@.take(i as int));
                    assert(enumeration@.take(i + 1).last() == enumeration@[i as int]);
                }
                match &enumeration[i] {
                    Some(v) => vals.push(v.clone()),
                    None => {},
                }
                i = i + 1;
            }
            assert(enumeration@.take(enumeration@.len() as int) =~= enumeration@);
            if vals.len() > 0 {
                Some(vals)
            } else {
                None
            }
        },
        _ => None,
    }
}

/// `ft` is the field type of a property given by reference or in place.
pub open spec fn item_type_rel(ft: FieldType, r: RefOr<OaSchema>) -> bool
    decreases r,
{
    match r {
        RefOr::Ref(x) => ft matches FieldType::Object { schema } && schema@ == ref_target(x@),
        RefOr::Item(s) => field_type_rel(ft, s.kind),
    }
}

/// `ft` is the field type of a schema kind: integers, numbers and booleans
/// as such; an array of its item type (strings without one); an object with
/// no properties but `additionalProperties` as a map; any other object as
/// the unknown object; everything else as a string.
pub open spec fn field_type_rel(ft: FieldType, k: OaKind) -> bool
    decreases k,
{
    match k {
        OaKind::Integer { .. } => ft is Integer,
        OaKind::Number { .. } => ft is Number,
        OaKind::Boolean => ft is Boolean,
        OaKind::Array { items } => ft matches FieldType::Array { items: it } && match items {
            None => *it is String,
            Some(b) => item_type_rel(*it, *b),
        },
        OaKind::Object { properties, additional, .. } => if properties@.len() == 0
            && additional is Some {
            additional_rel(ft, additional->0)
        } else {
            ft matches FieldType::Object { schema } && schema@ == "unknown"@
        },
        _ => ft is String,
    }
}

/// `ft` is the map that `additionalProperties` makes.
pub open spec fn additional_rel(ft: FieldType, a: OaAdditional) -> bool
    decreases a,
{
    match a {
        OaAdditional::Schema(b) => ft matches FieldType::MapOf { value } && item_type_rel(*value, *b),
        OaAdditional::Any(true) => ft matches FieldType::MapOf { value } && *value is String,
        OaAdditional::Any(false) => ft matches FieldType::Object { schema } && schema@ == "unknown"@,
    }
}

fn unknown_object() -> (r: FieldType)
    ensures
        r matches FieldType::Object { schema } && schema@ == "unknown"@,
{
    FieldType::Object { schema: owned("unknown") }
}

fn item_field_type(r: &RefOr<OaSchema>) -> (ft: FieldType)
    ensures
        item_type_rel(ft, *r),
    decreases r,
{
    match r {
        RefOr::Ref(x) => FieldType::Object { schema: ref_target_of(x.as_str()) },
        RefOr::Item(s) => kind_field_type(&s.kind),
    }
}

fn additional_field_type(a: &OaAdditional) -> (ft: FieldType)
    ensures
        additional_rel(ft, *a),
    decreases a,
{
    match a {
        OaAdditional::Schema(b) => FieldType::MapOf { value: Box::new(item_field_type(&**b)) },
        OaAdditional::Any(flag) => {
            if *flag {
                FieldType::MapOf { value: Box::new(FieldType::String) }
            } else {
                unknown_object()
            }
        },
    }
}

/// The field type of a schema kind (see `field_type_rel`).
pub fn kind_field_type(k: &OaKind) -> (ft: FieldType)
    ensures
        field_type_rel(ft, *k),
    decreases k,
{
    match k {
        OaKind::Integer { .. } => FieldType::Integer,
        OaKind::Number { .. } => FieldType::Number,
        OaKind::Boolean => FieldType::Boolean,
        OaKind::Array { items } => {
            let it = match items {
                None => FieldType::String,
                Some(b) => item_field_type(&**b),
            };
            FieldType::Array { items: Box::new(it) }
        },
        OaKind::Object { properties, additional, .. } => {
            if properties.len() == 0 {
                match additional {
                    Some(a) => {
                        return additional_field_type(a);
                    },
                    None => {},
                }
            }
            unknown_object()
        },
        _ => FieldType::String,
    }
}

// ---------------------------------------------------------------------------
// Fields
// ---------------------------------------------------------------------------

/// The description of the component schema `name`, if it is given in place.
pub open spec fn schema_description(comps: OaComponents, name: Seq<char>) -> Option<String> {
    match lookup(comps.schemas@, name) {
        Some(i) => match comps.schemas@[i].1 {
            RefOr::Item(s) => s.description,
            RefOr::Ref(_) => None,
        },
        None => None,
    }
}

/// `fd` is the field for property `name`: a reference is an object of the
/// named schema with that schema's description; a schema in place gives its
/// type, description, enumerated values, nullability and format.
pub open spec fn field_def_rel(
    fd: FieldDef,
    name: Seq<char>,
    r: RefOr<OaSchema>,
    required: bool,
    comps: OaComponents,
) -> bool {
    &&& fd.name@ == name
    &&& fd.required == required
    &&& match r {
        RefOr::Ref(x) => {
            &&& fd.field_type matches FieldType::Object { schema } && schema@ == ref_target(x@)
            &&& fd.description == schema_description(comps, ref_target(x@))
            &&& fd.enum_values is None
            &&& !fd.nullable
            &&& fd.format is None
        },
        RefOr::Item(s) => {
            &&& field_type_rel(fd.field_type, s.kind)
            &&& fd.description == s.description
            &&& enum_rel(fd.enum_values, s.kind)
            &&& fd.nullable == s.nullable
            &&& fd.format == format_of(s.kind)
        },
    }
}

/// Builds the field for a property (see `field_def_rel`).
pub fn field_def(name: &str, r: &RefOr<OaSchema>, required: bool, comps: &OaComponents) -> (fd:
    FieldDef)
    ensures
        field_def_rel(fd, name@, *r, required, *comps),
{
    match r {
        RefOr::Ref(x) => {
            let target = ref_target_of(x.as_str());
            let description = match find_entry(&comps.schemas, target.as_str()) {
                Some(i) => match &comps.schemas[i].1 {
                    RefOr::Item(s) => copy_opt_string(&s.description),
                    RefOr::Ref(_) => None,
                },
                None => None,
            };
            FieldDef {
                name: owned(name),
                field_type: FieldType::Object { schema: target },
                required,
                description,
                enum_values: None,
                nullable: false,
                format: None,
            }
        },
        RefOr::Item(s) => FieldDef {
            name: owned(name),
            field_type: kind_field_type(&s.kind),
            required,
            description: copy_opt_string(&s.description),
            enum_values: enum_of_kind(&s.kind),
            nullable: s.nullable,
            format: format_of_kind(&s.kind),
        },
    }
}

/// `name` is among `names`.
pub open spec fn contains_name(names: Seq<String>, name: Seq<char>) -> bool {
    exists|i: int| 0 <= i < names.len() && names[i]@ == name
}

fn names_contain(names: &Vec<String>, name: &str) -> (r: bool)
    ensures
        r == contains_name(names@, name@),
{
    let mut i: usize = 0;
    while i < names.len()
        invariant
            i <= names@.len(),
            forall|j: int| 0 <= j < i ==> names@[j]@ != name@,
        decreases names@.len() - i,
    {
        if str_eq(names[i].as_str(), name) {
            return true;
        }
        i = i + 1;
    }
    false
}

/// `fields` are the fields of the properties, in order.
pub open spec fn fields_rel(
    fields: Seq<FieldDef>,
    props: Seq<(String, RefOr<OaSchema>)>,
    required: Seq<String>,
    comps: OaComponents,
) -> bool {
    &&& fields.len() == props.len()
    &&& forall|i: int|
        0 <= i < props.len() ==> field_def_rel(
            #[trigger] fields[i],
            props[i].0@,
            props[i].1,
            contains_name(required, props[i].0@),
            comps,
        )
}

// ---------------------------------------------------------------------------
// allOf
// ---------------------------------------------------------------------------

/// The schema a reference or item stands for.
pub open spec fn resolve_schema(r: RefOr<OaSchema>, comps: OaComponents) -> Option<OaSchema> {
    match r {
        RefOr::Item(s) => Some(s),
        RefOr::Ref(x) => match lookup(comps.schemas@, ref_target(x@)) {
            Some(i) => match comps.schemas@[i].1 {
                RefOr::Item(s) => Some(s),
                RefOr::Ref(_) => None,
            },
            None => None,
        },
    }
}

/// Properties and required names gathered from a schema: an object gives
/// its own, an `allOf` those of its parts in order, anything else none.
/// `fuel` bounds how many references are followed along a chain; only a
/// cycle of references can exhaust it.
pub open spec fn collect_from(s: OaSchema, comps: OaComponents, fuel: nat) -> (
    Seq<(String, RefOr<OaSchema>)>,
    Seq<String>,
)
    decreases fuel, s,
{
    match s.kind {
        OaKind::Object { properties, required, .. } => (properties@, required@),
        OaKind::AllOf { all_of } => collect_all(all_of@, comps, fuel),
        _ => (Seq::empty(), Seq::empty()),
    }
}

/// What the parts of an `allOf` give, in order.
pub open spec fn collect_all(items: Seq<RefOr<OaSchema>>, comps: OaComponents, fuel: nat) -> (
    Seq<(String, RefOr<OaSchema>)>,
    Seq<String>,
)
    decreases fuel, items,
{
    if items.len() == 0 {
        (Seq::empty(), Seq::empty())
    } else {
        let a = collect_all(items.subrange(0, items.len() - 1), comps, fuel);
        let b = collect_one(items[items.len() - 1], comps, fuel);
        (a.0 + b.0, a.1 + b.1)
    }
}

/// What one part of an `allOf` gives: a schema in place directly, a
/// reference through the component it names.
pub open spec fn collect_one(r: RefOr<OaSchema>, comps: OaComponents, fuel: nat) -> (
    Seq<(String, RefOr<OaSchema>)>,
    Seq<String>,
)
    decreases fuel, r,
{
    match r {
        RefOr::Item(s) => collect_from(s, comps, fuel),
        RefOr::Ref(x) => if fuel == 0 {
            (Seq::empty(), Seq::empty())
        } else {
            match lookup(comps.schemas@, ref_target(x@)) {
                Some(i) => match comps.schemas@[i].1 {
                    RefOr::Item(s) => collect_from(s, comps, (fuel - 1) as nat),
                    RefOr::Ref(_) => (Seq::empty(), Seq::empty()),
                },
                None => (Seq::empty(), Seq::empty()),
            }
        },
    }
}

fn required_from(s: &OaSchema, comps: &OaComponents, fuel: usize, out: &mut Vec<String>)
    ensures
        final(out)@ == old(out)@ + collect_from(*s, *comps, fuel as nat).1,
    decreases fuel, s,
{
    match &s.kind {
        OaKind::Object { required, .. } => {
            let mut i: usize = 0;
            let ghost start = out@;
            while i < required.len()
                invariant
                    i <= required@.len(),
                    out@ == start + required@.take(i as int),
                decreases required@.len() - i,
            {
                out.push(required[i].clone());
                assert(required@.take(i as int).push(required@[i as int]) =~= required@.take(i + 1));
                i = i + 1;
            }
            assert(required@.take(required@.len() as int) =~= required@);
        },
        OaKind::AllOf { all_of } => {
            required_all(all_of, comps, fuel, out);
        },
        _ => {
            assert(out@ =~= out@ + Seq::<String>::empty());
        },
    }
}

fn required_all(items: &Vec<RefOr<OaSchema>>, comps: &OaComponents, fuel: usize, out: &mut Vec<String>)
    ensures
        final(out)@ == old(out)@ + collect_all(items@, *comps, fuel as nat).1,
    decreases fuel, items@,
{
    let ghost start = out@;
    let mut i: usize = 0;
    proof {
        assert(items@.subrange(0, 0) =~= Seq::<RefOr<OaSchema>>::empty());
        assert(out@ =~= start + collect_all(items@.subrange(0, 0), *comps, fuel as nat).1);
    }
    while i < items.len()
        invariant
            i <= items@.len(),
            out@ == start + collect_all(items@.subrange(0, i as int), *comps, fuel as nat).1,
        decreases items@.len() - i,
    {
        proof {
            let t = items@.subrange(0, i + 1);
            assert(t.subrange(0, t.len() - 1) =~= items@.subrange(0, i as int));
            assert(t[t.len() - 1] == items@[i as int]);
            assert(decreases_to!(items@ => items@[i as int]));
        }
        required_one(&items[i], comps, fuel, out);
        i = i + 1;
    }
    assert(items@.subrange(0, items@.len() as int) =~= items@);
}

fn required_one(r: &RefOr<OaSchema>, comps: &OaComponents, fuel: usize, out: &mut Vec<String>)
    ensures
        final(out)@ == old(out)@ + collect_one(*r, *comps, fuel as nat).1,
    decreases fuel, r,
{
    match r {
        RefOr::Item(s) => required_from(s, comps, fuel, out),
        RefOr::Ref(x) => {
            if fuel == 0 {
                assert(out@ =~= out@ + Seq::<String>::empty());
                return;
            }
            let target = ref_target_of(x.as_str());
            match find_entry(&comps.schemas, target.as_str()) {
                Some(i) => match &comps.schemas[i].1 {
                    RefOr::Item(s) => required_from(s, comps, fuel - 1, out),
                    RefOr::Ref(_) => {
                        assert(out@ =~= out@ + Seq::<String>::empty());
                    },
                },
                None => {
                    assert(out@ =~= out@ + Seq::<String>::empty());
                },
            }
        },
    }
}

/// `new` is `old` followed by the fields of `props`.
pub open spec fn appended_fields(
    new: Seq<FieldDef>,
    old: Seq<FieldDef>,
    props: Seq<(String, RefOr<OaSchema>)>,
    required: Seq<String>,
    comps: OaComponents,
) -> bool {
    &&& new.len() == old.len() + props.len()
    &&& new.take(old.len() as int) == old
    &&& fields_rel(new.skip(old.len() as int), props, required, comps)
}

proof fn lemma_appended_compose(
    a: Seq<FieldDef>,
    b: Seq<FieldDef>,
    c: Seq<FieldDef>,
    p1: Seq<(String, RefOr<OaSchema>)>,
    p2: Seq<(String, RefOr<OaSchema>)>,
    required: Seq<String>,
    comps: OaComponents,
)
    requires
        appended_fields(b, a, p1, required, comps),
        appended_fields(c, b, p2, required, comps),
    ensures
        appended_fields(c, a, p1 + p2, required, comps),
{
    assert(c.take(a.len() as int) =~= a) by {
        assert forall|i: int| 0 <= i < a.len() implies c[i] == a[i] by {
            assert(c.take(b.len() as int)[i] == b[i]);
            assert(b.take(a.len() as int)[i] == a[i]);
        }
    }
    let p = p1 + p2;
    assert forall|i: int| 0 <= i < p.len() implies field_def_rel(
        #[trigger] c.skip(a.len() as int)[i],
        p[i].0@,
        p[i].1,
        contains_name(required, p[i].0@),
        comps,
    ) by {
        if i < p1.len() {
            assert(c.skip(a.len() as int)[i] == c[a.len() + i]);
            assert(c[a.len() + i] == c.take(b.len() as int)[a.len() + i]);
            assert(b.skip(a.len() as int)[i] == b[a.len() + i]);
        } else {
            assert(c.skip(a.len() as int)[i] == c.skip(b.len() as int)[i - p1.len()]);
        }
    }
}

proof fn lemma_appended_empty(
    a: Seq<FieldDef>,
    required: Seq<String>,
    comps: OaComponents,
)
    ensures
        appended_fields(a, a, Seq::empty(), required, comps),
{
    assert(a.take(a.len() as int) =~= a);
}

fn fields_from(
    s: &OaSchema,
    comps: &OaComponents,
    fuel: usize,
    required: &Vec<String>,
    out: &mut Vec<FieldDef>,
)
    ensures
        appended_fields(final(out)@, old(out)@, collect_from(*s, *comps, fuel as nat).0, required@, *comps),
    decreases fuel, s,
{
    match &s.kind {
        OaKind::Object { properties, .. } => {
            let ghost start = out@;
            let mut i: usize = 0;
            proof {
                lemma_appended_empty(start, required@, *comps);
                assert(properties@.take(0) =~= Seq::<(String, RefOr<OaSchema>)>::empty());
            }
            while i < properties.len()
                invariant
                    i <= properties@.len(),
                    appended_fields(out@, start, properties@.take(i as int), required@, *comps),
                decreases properties@.len() - i,
            {
                let (name, pr) = &properties[i];
                let req = names_contain(required, name.as_str());
                let fd = field_def(name.as_str(), pr, req, comps);
                let ghost before = out@;
                out.push(fd);
                proof {
                    let one = seq![properties@[i as int]];
                    assert(appended_fields(out@, before, one, required@, *comps)) by {
                        assert(out@.take(before.len() as int) =~= before);
                        assert(out@.skip(before.len() as int) =~= seq![fd]);
                    }
                    lemma_appended_compose(start, before, out@, properties@.take(i as int), one, required@, *comps);
                    assert(properties@.take(i as int) + one =~= properties@.take(i + 1));
                }
                i = i + 1;
            }
            assert(properties@.take(properties@.len() as int) =~= properties@);
        },
        OaKind::AllOf { all_of } => {
            fields_all(all_of, comps, fuel, required, out);
        },
        _ => {
            proof {
                lemma_appended_empty(out@, required@, *comps);
            }
        },
    }
}

fn fields_all(
    items: &Vec<RefOr<OaSchema>>,
    comps: &OaComponents,
    fuel: usize,
    required: &Vec<String>,
    out: &mut Vec<FieldDef>,
)
    ensures
        appended_fields(final(out)@, old(out)@, collect_all(items@, *comps, fuel as nat).0, required@, *comps),
    decreases fuel, items@,
{
    let ghost start = out@;
    let mut i: usize = 0;
    proof {
        assert(items@.subrange(0, 0) =~= Seq::<RefOr<OaSchema>>::empty());
        lemma_appended_empty(start, required@, *comps);
    }
    while i < items.len()
        invariant
            i <= items@.len(),
            appended_fields(out@, start, collect_all(items@.subrange(0, i as int), *comps, fuel as nat).0, required@, *comps),
        decreases items@.len() - i,
    {
        let ghost before = out@;
        proof {
            let t = items@.subrange(0, i + 1);
            assert(t.subrange(0, t.len() - 1) =~= items@.subrange(0, i as int));
            assert(t[t.len() - 1] == items@[i as int]);
            assert(decreases_to!(items@ => items@[i as int]));
        }
        fields_one(&items[i], comps, fuel, required, out);
        proof {
            lemma_appended_compose(
                start,
                before,
                out@,
                collect_all(items@.subrange(0, i as int), *comps, fuel as nat).0,
                collect_one(items@[i as int], *comps, fuel as nat).0,
                required@,
                *comps,
            );
        }
        i = i + 1;
    }
    assert(items@.subrange(0, items@.len() as int) =~= items@);
}

fn fields_one(
    r: &RefOr<OaSchema>,
    comps: &OaComponents,
    fuel: usize,
    required: &Vec<String>,
    out: &mut Vec<FieldDef>,
)
    ensures
        appended_fields(final(out)@, old(out)@, collect_one(*r, *comps, fuel as nat).0, required@, *comps),
    decreases fuel, r,
{
    match r {
        RefOr::Item(s) => fields_from(s, comps, fuel, required, out),
        RefOr::Ref(x) => {
            if fuel == 0 {
                proof {
                    lemma_appended_empty(out@, required@, *comps);
                }
                return;
            }
            let target = ref_target_of(x.as_str());
            match find_entry(&comps.schemas, target.as_str()) {
                Some(i) => match &comps.schemas[i].1 {
                    RefOr::Item(s) => fields_from(s, comps, fuel - 1, required, out),
                    RefOr::Ref(_) => {
                        proof {
                            lemma_appended_empty(out@, required@, *comps);
                        }
                    },
                },
                None => {
                    proof {
                        lemma_appended_empty(out@, required@, *comps);
                    }
                },
            }
        },
    }
}

// ---------------------------------------------------------------------------
// Schemas
// ---------------------------------------------------------------------------

/// How many references a chain in `allOf` follows: the number of component
/// schemas, which every chain without a cycle stays within.
pub open spec fn ref_fuel(comps: OaComponents) -> nat {
    comps.schemas@.len()
}

/// Object and `allOf` schemas become schema definitions.
pub open spec fn has_schema_def(k: OaKind) -> bool {
    k is Object || k is AllOf
}

/// `d` is the definition of schema `name`: its description and the fields
/// of the properties it gathers, a property required when any part names it.
pub open spec fn schema_def_rel(d: SchemaDef, name: Seq<char>, s: OaSchema, comps: OaComponents) -> bool {
    let c = collect_from(s, comps, ref_fuel(comps));
    &&& d.name@ == name
    &&& d.description == s.description
    &&& fields_rel(d.fields@, c.0, c.1, comps)
}

/// Builds the definition of an object or `allOf` schema.
pub fn schema_def(name: &str, s: &OaSchema, comps: &OaComponents) -> (r: Option<SchemaDef>)
    ensures
        has_schema_def(s.kind) ==> (r matches Some(d) && schema_def_rel(d, name@, *s, *comps)),
        !has_schema_def(s.kind) ==> r is None,
{
    let is_def = match &s.kind {
        OaKind::Object { .. } => true,
        OaKind::AllOf { .. } => true,
        _ => false,
    };
    if !is_def {
        return None;
    }
    let fuel = comps.schemas.len();
    let mut required: Vec<String> = Vec::new();
    required_from(s, comps, fuel, &mut required);
    assert(required@ =~= collect_from(*s, *comps, fuel as nat).1);
    let mut fields: Vec<FieldDef> = Vec::new();
    fields_from(s, comps, fuel, &required, &mut fields);
    assert(fields@.skip(0) =~= fields@);
    Some(SchemaDef { name: owned(name), description: copy_opt_string(&s.description), fields })
}

/// `out` are the definitions of the object and `allOf` schemas given in
/// place among `entries`, in order.
pub open spec fn schema_defs_rel(
    out: Seq<SchemaDef>,
    entries: Seq<(String, RefOr<OaSchema>)>,
    comps: OaComponents,
) -> bool
    decreases entries.len(),
{
    if entries.len() == 0 {
        out.len() == 0
    } else {
        match entries.last().1 {
            RefOr::Item(s) => if has_schema_def(s.kind) {
                &&& out.len() > 0
                &&& schema_def_rel(out.last(), entries.last().0@, s, comps)
                &&& schema_defs_rel(out.drop_last(), entries.drop_last(), comps)
            } else {
                schema_defs_rel(out, entries.drop_last(), comps)
            },
            RefOr::Ref(_) => schema_defs_rel(out, entries.drop_last(), comps),
        }
    }
}

/// The schema definitions of a document's components.
pub fn extract_schemas(components: &Option<OaComponents>) -> (r: Vec<SchemaDef>)
    ensures
        match *components {
            Some(c) => schema_defs_rel(r@, c.schemas@, c),
            None => r@.len() == 0,
        },
{
    match components {
        None => Vec::new(),
        Some(c) => {
            let es = &c.schemas;
            let mut out: Vec<SchemaDef> = Vec::new();
            let mut i: usize = 0;
            proof {
                assert(es@.take(0) =~= Seq::<(String, RefOr<OaSchema>)>::empty());
            }
            while i < es.len()
                invariant
                    i <= es@.len(),
                    *es == c.schemas,
                    schema_defs_rel(out@, es@.take(i as int), *c),
                decreases es@.len() - i,
            {
                proof {
                    assert(es@.take(i + 1).drop_last() =~= es@.take(i as int));
                    assert(es@.take(i + 1).last() == es@[i as int]);
                }
                let (name, r) = &es[i];
                match r {
                    RefOr::Item(s) => {
                        match schema_def(name.as_str(), s, c) {
                            Some(d) => {
                                let ghost before = out@;
                                out.push(d);
                                assert(out@.drop_last() =~= before);
                            },
                            None => {},
                        }
                    },
                    RefOr::Ref(_) => {},
                }
                i = i + 1;
            }
            assert(es@.take(es@.len() as int) =~= es@);
            out
        },
    }
}

// ---------------------------------------------------------------------------
// API configuration
// ---------------------------------------------------------------------------

/// Two characters that are equal ignoring ASCII case.
pub open spec fn ascii_fold_eq(a: char, b: char) -> bool {
    ||| a == b
    ||| ('A' <= a && a <= 'Z' && (a as int) + 32 == (b as int))
    ||| ('A' <= b && b <= 'Z' && (b as int) + 32 == (a as int))
}

/// `str::eq_ignore_ascii_case`.
pub open spec fn eq_ignore_ascii_case(a: Seq<char>, b: Seq<char>) -> bool {
    a.len() == b.len() && forall|i: int| 0 <= i < a.len() ==> ascii_fold_eq(a[i], b[i])
}

fn fold_eq_char(a: char, b: char) -> (r: bool)
    ensures
        r == ascii_fold_eq(a, b),
{
    let x = a as u32;
    let y = b as u32;
    a == b || (65 <= x && x <= 90 && x + 32 == y) || (65 <= y && y <= 90 && y + 32 == x)
}

fn ignore_case_eq(a: &str, b: &str) -> (r: bool)
    ensures
        r == eq_ignore_ascii_case(a@, b@),
{
    let av = chars_of(a);
    let bv = chars_of(b);
    if av.len() != bv.len() {
        return false;
    }
    let mut i: usize = 0;
    while i < av.len()
        invariant
            i <= av@.len(),
            av@ == a@,
            bv@ == b@,
            av@.len() == bv@.len(),
            forall|j: int| 0 <= j < i ==> ascii_fold_eq(a@[j], b@[j]),
        decreases av@.len() - i,
    {
        if !fold_eq_char(av[i], bv[i]) {
            return false;
        }
        i = i + 1;
    }
    true
}

/// A security scheme the generator understands: HTTP bearer or basic
/// (ignoring case), or an API key.
pub open spec fn gives_auth(s: OaSecurityScheme) -> bool {
    match s {
        OaSecurityScheme::Http { scheme } => eq_ignore_ascii_case(scheme@, "bearer"@)
            || eq_ignore_ascii_case(scheme@, "basic"@),
        OaSecurityScheme::ApiKey { .. } => true,
        OaSecurityScheme::Other => false,
    }
}

/// `a` is the authentication of a scheme: a bearer token in the
/// `Authorization` header, basic authentication, or the API key's header.
pub open spec fn auth_rel(a: AuthConfig, s: OaSecurityScheme) -> bool {
    match s {
        OaSecurityScheme::Http { scheme } => if eq_ignore_ascii_case(scheme@, "bearer"@) {
            a matches AuthConfig::Bearer { header, prefix } && header@ == "Authorization"@
                && prefix@ == "Bearer "@
        } else {
            a is Basic
        },
        OaSecurityScheme::ApiKey { name } => a matches AuthConfig::ApiKey { header } && header == name,
        OaSecurityScheme::Other => false,
    }
}

/// The entry at `i` is a scheme given in place that the generator understands.
pub open spec fn auth_entry(es: Seq<(String, RefOr<OaSecurityScheme>)>, i: int) -> bool {
    es[i].1 matches RefOr::Item(s) && gives_auth(s)
}

/// The first scheme the generator understands.
pub open spec fn first_auth(es: Seq<(String, RefOr<OaSecurityScheme>)>) -> Option<int> {
    if exists|i: int| 0 <= i < es.len() && auth_entry(es, i) {
        Some(choose|i: int| 0 <= i < es.len() && auth_entry(es, i) && forall|j: int| 0 <= j < i ==> !auth_entry(es, j))
    } else {
        None
    }
}

/// `a` is the authentication of a document's components: that of its first
/// understood security scheme, if any.
pub open spec fn doc_auth_rel(a: Option<AuthConfig>, comps: Option<OaComponents>) -> bool {
    match comps {
        None => a is None,
        Some(c) => match first_auth(c.security_schemes@) {
            Some(i) => a matches Some(x) && auth_rel(x, c.security_schemes@[i].1->Item_0),
            None => a is None,
        },
    }
}

fn extract_auth(comps: &Option<OaComponents>) -> (r: Option<AuthConfig>)
    ensures
        doc_auth_rel(r, *comps),
{
    if comps.is_none() {
        return None;
    }
    let c = comps.as_ref().unwrap();
    assert(*comps == Some(*c));
    let es = &c.security_schemes;
    let mut i: usize = 0;
    while i < es.len()
        invariant
            i <= es@.len(),
            *es == c.security_schemes,
            *comps == Some(*c),
            forall|j: int| 0 <= j < i ==> !auth_entry(es@, j),
        decreases es@.len() - i,
    {
        let found: Option<AuthConfig> = match &es[i].1 {
            RefOr::Item(sch) => match sch {
                OaSecurityScheme::Http { scheme } => {
                    if ignore_case_eq(scheme.as_str(), "bearer") {
                        let a = AuthConfig::Bearer { header: owned("Authorization"), prefix: owned("Bearer ") };
                        assert(auth_rel(a, *sch));
                        Some(a)
                    } else if ignore_case_eq(scheme.as_str(), "basic") {
                        assert(auth_rel(AuthConfig::Basic, *sch));
                        Some(AuthConfig::Basic)
                    } else {
                        None
                    }
                },
                OaSecurityScheme::ApiKey { name } => {
                    let a = AuthConfig::ApiKey { header: name.clone() };
                    assert(auth_rel(a, *sch));
                    Some(a)
                },
                OaSecurityScheme::Other => None,
            },
            RefOr::Ref(_) => None,
        };
        assert(found is Some ==> auth_entry(es@, i as int) && auth_rel(found->0, es@[i as int].1->Item_0));
        assert(found is None ==> !auth_entry(es@, i as int));
        if found.is_some() {
            proof {
                let k = choose|k: int| 0 <= k < es@.len() && auth_entry(es@, k) && forall|j: int| 0 <= j < k ==> !auth_entry(es@, j);
                assert(k == i) by {
                    if k < i {
                        assert(!auth_entry(es@, k));
                    } else if k > i {
                        assert(!auth_entry(es@, i as int));
                    }
                }
                assert(first_auth(c.security_schemes@) == Some(i as int));
                assert(doc_auth_rel(found, Some(*c)));
            }
            return found;
        }
        i = i + 1;
    }
    None
}

/// `a` is the configuration of the API `name` a document describes: its
/// first server's URL (`/` without one), description, version and
/// authentication.
pub open spec fn api_config_rel(a: ApiConfig, doc: OaDocument, name: Seq<char>) -> bool {
    &&& a.name@ == name
    &&& a.base_url@ == (if doc.servers@.len() > 0 { doc.servers@[0]@ } else { "/"@ })
    &&& a.description == doc.description
    &&& a.version == Some(doc.version)
    &&& doc_auth_rel(a.auth, doc.components)
}

/// Builds the API configuration (see `api_config_rel`).
pub fn extract_api_config(doc: &OaDocument, name: &str) -> (r: ApiConfig)
    ensures
        api_config_rel(r, *doc, name@),
{
    let base_url = if doc.servers.len() > 0 {
        doc.servers[0].clone()
    } else {
        owned("/")
    };
    ApiConfig {
        name: owned(name),
        base_url,
        description: copy_opt_string(&doc.description),
        version: Some(doc.version.clone()),
        auth: extract_auth(&doc.components),
    }
}

// ---------------------------------------------------------------------------
// Parameters
// ---------------------------------------------------------------------------

/// The message of a reference that points elsewhere than the component kind.
pub open spec fn unsupported_ref(kind: Seq<char>, r: Seq<char>) -> Seq<char> {
    "Unsupported "@ + kind + " $ref: "@ + r
}

/// The message of a reference without components to resolve it in.
pub open spec fn no_components() -> Seq<char> {
    "Spec has $ref but no components"@
}

/// The message of a reference to a component that is missing or itself a
/// reference.
pub open spec fn unresolved_ref(kind: Seq<char>, r: Seq<char>) -> Seq<char> {
    "Could not resolve "@ + kind + " ref: "@ + r
}

/// The parameter a reference or item stands for, or why it cannot be had.
pub open spec fn resolve_param(r: RefOr<OaParameter>, comps: Option<OaComponents>) -> Result<
    OaParameter,
    Seq<char>,
> {
    match r {
        RefOr::Item(p) => Ok(p),
        RefOr::Ref(x) => match strip_prefix(x@, "#/components/parameters/"@) {
            None => Err(unsupported_ref("parameter"@, x@)),
            Some(name) => match comps {
                None => Err(no_components()),
                Some(c) => match lookup(c.parameters@, name) {
                    Some(i) => match c.parameters@[i].1 {
                        RefOr::Item(p) => Ok(p),
                        RefOr::Ref(_) => Err(unresolved_ref("parameter"@, x@)),
                    },
                    None => Err(unresolved_ref("parameter"@, x@)),
                },
            },
        },
    }
}

fn ref_error(prefix: &str, kind: &str, middle: &str, r: &str) -> (m: String)
    ensures
        m@ == prefix@ + kind@ + middle@ + r@,
{
    let mut m = owned(prefix);
    push_str(&mut m, kind);
    push_str(&mut m, middle);
    push_str(&mut m, r);
    m
}

fn resolve_param_of<'a>(r: &'a RefOr<OaParameter>, comps: &'a Option<OaComponents>) -> (res: Result<
    &'a OaParameter,
    String,
>)
    ensures
        match (res, resolve_param(*r, *comps)) {
            (Ok(p), Ok(q)) => *p == q,
            (Err(m), Err(e)) => m@ == e,
            _ => false,
        },
{
    match r {
        RefOr::Item(p) => Ok(p),
        RefOr::Ref(x) => match strip_prefix_of(x.as_str(), "#/components/parameters/") {
            None => {
                let m = ref_error("Unsupported ", "parameter", " $ref: ", x.as_str());
                assert(m@ =~= unsupported_ref("parameter"@, x@));
                Err(m)
            },
            Some(name) => match comps {
                None => Err(owned("Spec has $ref but no components")),
                Some(c) => {
                    match find_entry(&c.parameters, name.as_str()) {
                        Some(i) => match &c.parameters[i].1 {
                            RefOr::Item(p) => Ok(p),
                            RefOr::Ref(_) => {
                                let m = ref_error("Could not resolve ", "parameter", " ref: ", x.as_str());
                                assert(m@ =~= unresolved_ref("parameter"@, x@));
                                Err(m)
                            },
                        },
                        None => {
                            let m = ref_error("Could not resolve ", "parameter", " ref: ", x.as_str());
                            assert(m@ =~= unresolved_ref("parameter"@, x@));
                            Err(m)
                        },
                    }
                },
            },
        },
    }
}

/// The manifest location of a parameter location (cookies have none).
pub open spec fn location_of(l: OaParamLocation) -> ParamLocation {
    match l {
        OaParamLocation::Query => ParamLocation::Query,
        OaParamLocation::Header => ParamLocation::Header,
        _ => ParamLocation::Path,
    }
}

/// `pd` is the definition of parameter `p`: type, default, enumerated
/// values and format from its schema when given in place, a plain string
/// otherwise; never frozen.
pub open spec fn param_def_rel(pd: ParamDef, p: OaParameter) -> bool {
    &&& pd.name == p.name
    &&& pd.location == location_of(p.location)
    &&& pd.required == p.required
    &&& pd.description == p.description
    &&& pd.frozen_value is None
    &&& match p.schema {
        Some(RefOr::Item(s)) => {
            &&& pd.param_type == param_type_of(s.kind)
            &&& match (pd.default, s.default) {
                (Some(a), Some(b)) => same_json(a, b),
                (None, None) => true,
                _ => false,
            }
            &&& enum_rel(pd.enum_values, s.kind)
            &&& pd.format == format_of(s.kind)
        },
        _ => {
            &&& pd.param_type is String
            &&& pd.default is None
            &&& pd.enum_values is None
            &&& pd.format is None
        },
    }
}

fn param_def(p: &OaParameter) -> (pd: ParamDef)
    requires
        p.location != OaParamLocation::Cookie,
    ensures
        param_def_rel(pd, *p),
{
    let location = match p.location {
        OaParamLocation::Query => ParamLocation::Query,
        OaParamLocation::Header => ParamLocation::Header,
        _ => ParamLocation::Path,
    };
    match &p.schema {
        Some(RefOr::Item(s)) => ParamDef {
            name: p.name.clone(),
            location,
            param_type: param_type_of_kind(&s.kind),
            required: p.required,
            description: copy_opt_string(&p.description),
            default: copy_opt_json(&s.default),
            enum_values: enum_of_kind(&s.kind),
            format: format_of_kind(&s.kind),
            frozen_value: None,
        },
        _ => ParamDef {
            name: p.name.clone(),
            location,
            param_type: ParamType::String,
            required: p.required,
            description: copy_opt_string(&p.description),
            default: None,
            enum_values: None,
            format: None,
            frozen_value: None,
        },
    }
}

/// The first parameter that cannot be resolved, by its error.
pub open spec fn params_error(refs: Seq<RefOr<OaParameter>>, comps: Option<OaComponents>) -> Option<
    Seq<char>,
>
    decreases refs.len(),
{
    if refs.len() == 0 {
        None
    } else {
        match params_error(refs.drop_last(), comps) {
            Some(e) => Some(e),
            None => match resolve_param(refs.last(), comps) {
                Err(e) => Some(e),
                Ok(_) => None,
            },
        }
    }
}

/// `out` are the definitions of the parameters, cookies left out.
pub open spec fn param_defs_rel(
    out: Seq<ParamDef>,
    refs: Seq<RefOr<OaParameter>>,
    comps: Option<OaComponents>,
) -> bool
    decreases refs.len(),
{
    if refs.len() == 0 {
        out.len() == 0
    } else {
        match resolve_param(refs.last(), comps) {
            Ok(p) => if p.location == OaParamLocation::Cookie {
                param_defs_rel(out, refs.drop_last(), comps)
            } else {
                &&& out.len() > 0
                &&& param_def_rel(out.last(), p)
                &&& param_defs_rel(out.drop_last(), refs.drop_last(), comps)
            },
            Err(_) => false,
        }
    }
}

proof fn lemma_params_error_persists(refs: Seq<RefOr<OaParameter>>, comps: Option<OaComponents>, k: int)
    requires
        0 <= k <= refs.len(),
        params_error(refs.take(k), comps) is Some,
    ensures
        params_error(refs, comps) == params_error(refs.take(k), comps),
    decreases refs.len(),
{
    if k == refs.len() {
        assert(refs.take(k) =~= refs);
    } else {
        assert(refs.drop_last().take(k) =~= refs.take(k));
        lemma_params_error_persists(refs.drop_last(), comps, k);
    }
}

/// The definitions of an operation's parameters, or the first error.
pub fn extract_parameters(refs: &Vec<RefOr<OaParameter>>, comps: &Option<OaComponents>) -> (r: Result<
    Vec<ParamDef>,
    String,
>)
    ensures
        match r {
            Ok(v) => params_error(refs@, *comps) is None && param_defs_rel(v@, refs@, *comps),
            Err(m) => params_error(refs@, *comps) == Some(m@),
        },
{
    let mut out: Vec<ParamDef> = Vec::new();
    let mut i: usize = 0;
    proof {
        assert(refs@.take(0) =~= Seq::<RefOr<OaParameter>>::empty());
    }
    while i < refs.len()
        invariant
            i <= refs@.len(),
            params_error(refs@.take(i as int), *comps) is None,
            param_defs_rel(out@, refs@.take(i as int), *comps),
        decreases refs@.len() - i,
    {
        proof {
            assert(refs@.take(i + 1).drop_last() =~= refs@.take(i as int));
            assert(refs@.take(i + 1).last() == refs@[i as int]);
        }
        match resolve_param_of(&refs[i], comps) {
            Err(e) => {
                proof {
                    lemma_params_error_persists(refs@, *comps, i + 1);
                }
                return Err(e);
            },
            Ok(p) => {
                proof {
                    assert(resolve_param(refs@.take(i + 1).last(), *comps) == Ok::<OaParameter, Seq<char>>(*p));
                }
                match p.location {
                    OaParamLocation::Cookie => {},
                    _ => {
                        let pd = param_def(p);
                        let ghost before = out@;
                        out.push(pd);
                        assert(out@.drop_last() =~= before);
                        assert(out@.last() == pd);
                    },
                }
                assert(params_error(refs@.take(i + 1), *comps) is None);
                assert(param_defs_rel(out@, refs@.take(i + 1), *comps));
            },
        }
        i = i + 1;
    }
    assert(refs@.take(refs@.len() as int) =~= refs@);
    Ok(out)
}


// ---------------------------------------------------------------------------
// Request bodies
// ---------------------------------------------------------------------------

/// The request body a reference or item stands for, or why it cannot be had.
pub open spec fn resolve_body(r: RefOr<OaRequestBody>, comps: Option<OaComponents>) -> Result<
    OaRequestBody,
    Seq<char>,
> {
    match r {
        RefOr::Item(b) => Ok(b),
        RefOr::Ref(x) => match strip_prefix(x@, "#/components/requestBodies/"@) {
            None => Err(unsupported_ref("requestBody"@, x@)),
            Some(name) => match comps {
                None => Err(no_components()),
                Some(c) => match lookup(c.request_bodies@, name) {
                    Some(i) => match c.request_bodies@[i].1 {
                        RefOr::Item(b) => Ok(b),
                        RefOr::Ref(_) => Err(unresolved_ref("requestBody"@, x@)),
                    },
                    None => Err(unresolved_ref("requestBody"@, x@)),
                },
            },
        },
    }
}

fn resolve_body_of<'a>(r: &'a RefOr<OaRequestBody>, comps: &'a Option<OaComponents>) -> (res: Result<
    &'a OaRequestBody,
    String,
>)
    ensures
        match (res, resolve_body(*r, *comps)) {
            (Ok(b), Ok(q)) => *b == q,
            (Err(m), Err(e)) => m@ == e,
            _ => false,
        },
{
    match r {
        RefOr::Item(b) => Ok(b),
        RefOr::Ref(x) => match strip_prefix_of(x.as_str(), "#/components/requestBodies/") {
            None => Err(ref_error("Unsupported ", "requestBody", " $ref: ", x.as_str())),
            Some(name) => match comps {
                None => Err(owned("Spec has $ref but no components")),
                Some(c) => match find_entry(&c.request_bodies, name.as_str()) {
                    Some(i) => match &c.request_bodies[i].1 {
                        RefOr::Item(b) => Ok(b),
                        RefOr::Ref(_) => Err(
                            ref_error("Could not resolve ", "requestBody", " ref: ", x.as_str()),
                        ),
                    },
                    None => Err(ref_error("Could not resolve ", "requestBody", " ref: ", x.as_str())),
                },
            },
        },
    }
}

/// A media type key that names JSON.
pub open spec fn is_json_key(k: Seq<char>) -> bool {
    contains_sub(k, "json"@)
}

/// The index of the first media type whose key names JSON.
pub open spec fn first_json(content: Seq<(String, OaMediaType)>) -> Option<int> {
    if exists|i: int| 0 <= i < content.len() && is_json_key(content[i].0@) {
        Some(
            choose|i: int|
                0 <= i < content.len() && is_json_key(content[i].0@) && forall|j: int|
                    0 <= j < i ==> !is_json_key(content[j].0@),
        )
    } else {
        None
    }
}

/// The media type a request body is described by: the first JSON one, else
/// the first one.
pub open spec fn chosen_media(content: Seq<(String, OaMediaType)>) -> Option<int> {
    match first_json(content) {
        Some(i) => Some(i),
        None => if content.len() > 0 {
            Some(0)
        } else {
            None
        },
    }
}

/// The schema name of a media type: the component its schema refers to, or
/// `unknown`.
pub open spec fn media_schema_name(m: OaMediaType) -> Seq<char> {
    match m.schema {
        Some(r) => match schema_ref_name(r) {
            Some(n) => n,
            None => "unknown"@,
        },
        None => "unknown"@,
    }
}

/// `d` is the request body definition of `b`: none without content.
pub open spec fn body_def_rel(d: Option<RequestBodyDef>, b: OaRequestBody) -> bool {
    match chosen_media(b.content@) {
        None => d is None,
        Some(i) => d matches Some(x) && {
            &&& x.content_type == b.content@[i].0
            &&& x.schema@ == media_schema_name(b.content@[i].1)
            &&& x.required == b.required
            &&& x.description == b.description
        },
    }
}

fn find_json_media(content: &Vec<(String, OaMediaType)>) -> (r: Option<usize>)
    ensures
        match r {
            Some(i) => i < content@.len() && first_json(content@) == Some(i as int),
            None => first_json(content@) is None,
        },
{
    let mut i: usize = 0;
    while i < content.len()
        invariant
            i <= content@.len(),
            forall|j: int| 0 <= j < i ==> !is_json_key(#[trigger] content@[j].0@),
        decreases content@.len() - i,
    {
        if str_contains(content[i].0.as_str(), "json") {
            proof {
                let k = choose|k: int|
                    0 <= k < content@.len() && is_json_key(content@[k].0@) && forall|j: int|
                        0 <= j < k ==> !is_json_key(content@[j].0@);
                assert(is_json_key(content@[i as int].0@));
                assert(k == i) by {
                    if k < i {
                        assert(!is_json_key(content@[k].0@));
                    } else if k > i {
                        assert(!is_json_key(content@[i as int].0@));
                    }
                }
            }
            return Some(i);
        }
        i = i + 1;
    }
    None
}

fn media_schema_name_of(m: &OaMediaType) -> (n: String)
    ensures
        n@ == media_schema_name(*m),
{
    let found = match &m.schema {
        Some(r) => schema_ref_name_of(r),
        None => None,
    };
    match found {
        Some(n) => n,
        None => owned("unknown"),
    }
}

fn body_def(b: &OaRequestBody) -> (d: Option<RequestBodyDef>)
    ensures
        body_def_rel(d, *b),
{
    let i = match find_json_media(&b.content) {
        Some(i) => i,
        None => {
            if b.content.len() == 0 {
                return None;
            }
            0
        },
    };
    assert(chosen_media(b.content@) == Some(i as int));
    let d = RequestBodyDef {
        content_type: b.content[i].0.clone(),
        schema: media_schema_name_of(&b.content[i].1),
        required: b.required,
        description: copy_opt_string(&b.description),
    };
    assert(d.content_type == b.content@[i as int].0);
    Some(d)
}

/// Why an operation's request body cannot be had, if it cannot.
pub open spec fn body_error(body: Option<RefOr<OaRequestBody>>, comps: Option<OaComponents>) -> Option<
    Seq<char>,
> {
    match body {
        None => None,
        Some(r) => match resolve_body(r, comps) {
            Ok(_) => None,
            Err(e) => Some(e),
        },
    }
}

/// `d` is the request body definition of an operation's body.
pub open spec fn op_body_rel(
    d: Option<RequestBodyDef>,
    body: Option<RefOr<OaRequestBody>>,
    comps: Option<OaComponents>,
) -> bool {
    match body {
        None => d is None,
        Some(r) => match resolve_body(r, comps) {
            Ok(b) => body_def_rel(d, b),
            Err(_) => false,
        },
    }
}

/// The request body definition of an operation, or why it cannot be had.
pub fn extract_request_body(body: &Option<RefOr<OaRequestBody>>, comps: &Option<OaComponents>) -> (r:
    Result<Option<RequestBodyDef>, String>)
    ensures
        match r {
            Ok(d) => body_error(*body, *comps) is None && op_body_rel(d, *body, *comps),
            Err(m) => body_error(*body, *comps) == Some(m@),
        },
{
    match body {
        None => Ok(None),
        Some(r) => match resolve_body_of(r, comps) {
            Ok(b) => Ok(body_def(b)),
            Err(m) => Err(m),
        },
    }
}

// ---------------------------------------------------------------------------
// Response schemas
// ---------------------------------------------------------------------------

/// The index of the first response keyed by the status code `code`.
pub open spec fn status_lookup(rs: Seq<(OaStatus, RefOr<OaResponse>)>, code: int) -> Option<int> {
    if exists|i: int| 0 <= i < rs.len() && rs[i].0 == OaStatus::Code(code as u16) {
        Some(
            choose|i: int|
                0 <= i < rs.len() && rs[i].0 == OaStatus::Code(code as u16) && forall|j: int|
                    0 <= j < i ==> rs[j].0 != OaStatus::Code(code as u16),
        )
    } else {
        None
    }
}

/// The schema of a response's `application/json` content, when there is one.
pub open spec fn json_schema_of(r: RefOr<OaResponse>) -> Option<RefOr<OaSchema>> {
    match r {
        RefOr::Item(resp) => match lookup(resp.content@, "application/json"@) {
            Some(i) => resp.content@[i].1.schema,
            None => None,
        },
        RefOr::Ref(_) => None,
    }
}

/// The schema name a success response gives: the component its JSON schema
/// refers to, or that of the items of an array given in place.
pub open spec fn success_schema_name(r: RefOr<OaResponse>) -> Option<Seq<char>> {
    match json_schema_of(r) {
        Some(sr) => match schema_ref_name(sr) {
            Some(n) => Some(n),
            None => match sr {
                RefOr::Item(s) => match s.kind {
                    OaKind::Array { items: Some(it) } => schema_ref_name(*it),
                    _ => None,
                },
                RefOr::Ref(_) => None,
            },
        },
        None => None,
    }
}

/// The schema name of the first status code from `code` to 299 that gives
/// one.
pub open spec fn success_from(rs: Seq<(OaStatus, RefOr<OaResponse>)>, code: int) -> Option<Seq<char>>
    decreases 300 - code,
{
    if code > 299 {
        None
    } else {
        match status_lookup(rs, code) {
            Some(i) => match success_schema_name(rs[i].1) {
                Some(n) => Some(n),
                None => success_from(rs, code + 1),
            },
            None => success_from(rs, code + 1),
        }
    }
}

/// The schema an operation returns: from its 2xx responses in order of
/// status code, else the component its default response refers to.
pub open spec fn response_schema(r: OaResponses) -> Option<Seq<char>> {
    match success_from(r.responses@, 200) {
        Some(n) => Some(n),
        None => match r.default {
            Some(d) => match json_schema_of(d) {
                Some(sr) => schema_ref_name(sr),
                None => None,
            },
            None => None,
        },
    }
}

fn find_status(rs: &Vec<(OaStatus, RefOr<OaResponse>)>, code: u16) -> (r: Option<usize>)
    ensures
        match r {
            Some(i) => i < rs@.len() && status_lookup(rs@, code as int) == Some(i as int),
            None => status_lookup(rs@, code as int) is None,
        },
{
    let mut i: usize = 0;
    while i < rs.len()
        invariant
            i <= rs@.len(),
            forall|j: int| 0 <= j < i ==> #[trigger] rs@[j].0 != OaStatus::Code(code),
        decreases rs@.len() - i,
    {
        let hit = match rs[i].0 {
            OaStatus::Code(c) => c == code,
            OaStatus::Range(_) => false,
        };
        if hit {
            proof {
                let k = choose|k: int|
                    0 <= k < rs@.len() && rs@[k].0 == OaStatus::Code(code) && forall|j: int|
                        0 <= j < k ==> rs@[j].0 != OaStatus::Code(code);
                assert(rs@[i as int].0 == OaStatus::Code(code));
                assert(k == i) by {
                    if k < i {
                        assert(rs@[k].0 != OaStatus::Code(code));
                    } else if k > i {
                        assert(rs@[i as int].0 != OaStatus::Code(code));
                    }
                }
            }
            return Some(i);
        }
        i = i + 1;
    }
    None
}

fn json_schema_of_response(r: &RefOr<OaResponse>) -> (s: Option<&RefOr<OaSchema>>)
    ensures
        match json_schema_of(*r) {
            Some(x) => s matches Some(y) && *y == x,
            None => s is None,
        },
{
    match r {
        RefOr::Item(resp) => match find_entry(&resp.content, "application/json") {
            Some(i) => match &resp.content[i].1.schema {
                Some(sr) => Some(sr),
                None => None,
            },
            None => None,
        },
        RefOr::Ref(_) => None,
    }
}

fn success_schema_name_of(r: &RefOr<OaResponse>) -> (n: Option<String>)
    ensures
        match success_schema_name(*r) {
            Some(x) => n matches Some(y) && y@ == x,
            None => n is None,
        },
{
    match json_schema_of_response(r) {
        Some(sr) => match schema_ref_name_of(sr) {
            Some(n) => Some(n),
            None => match sr {
                RefOr::Item(s) => match &s.kind {
                    OaKind::Array { items: Some(it) } => schema_ref_name_of(it),
                    _ => None,
                },
                RefOr::Ref(_) => None,
            },
        },
        None => None,
    }
}

/// The schema an operation returns (see `response_schema`).
pub fn extract_response_schema(r: &OaResponses) -> (n: Option<String>)
    ensures
        match response_schema(*r) {
            Some(x) => n matches Some(y) && y@ == x,
            None => n is None,
        },
{
    let mut code: u16 = 200;
    while code <= 299
        invariant
            200 <= code <= 300,
            success_from(r.responses@, 200) == success_from(r.responses@, code as int),
        decreases 300 - code,
    {
        match find_status(&r.responses, code) {
            Some(i) => match success_schema_name_of(&r.responses[i].1) {
                Some(n) => return Some(n),
                None => {},
            },
            None => {},
        }
        code = code + 1;
    }
    match &r.default {
        Some(d) => match json_schema_of_response(d) {
            Some(sr) => schema_ref_name_of(sr),
            None => None,
        },
        None => None,
    }
}

// ---------------------------------------------------------------------------
// Functions
// ---------------------------------------------------------------------------

/// The method of a function for an operation's method; other methods
/// (`options`, `head`, `trace`) give no function.
pub open spec fn method_of(m: Seq<char>) -> Option<HttpMethod> {
    if m == "get"@ {
        Some(HttpMethod::Get)
    } else if m == "post"@ {
        Some(HttpMethod::Post)
    } else if m == "put"@ {
        Some(HttpMethod::Put)
    } else if m == "patch"@ {
        Some(HttpMethod::Patch)
    } else if m == "delete"@ {
        Some(HttpMethod::Delete)
    } else {
        None
    }
}

fn method_of_str(m: &str) -> (r: Option<HttpMethod>)
    ensures
        r == method_of(m@),
{
    if str_eq(m, "get") {
        Some(HttpMethod::Get)
    } else if str_eq(m, "post") {
        Some(HttpMethod::Post)
    } else if str_eq(m, "put") {
        Some(HttpMethod::Put)
    } else if str_eq(m, "patch") {
        Some(HttpMethod::Patch)
    } else if str_eq(m, "delete") {
        Some(HttpMethod::Delete)
    } else {
        None
    }
}

/// The name of an operation's function.
pub open spec fn op_function_name(op: OaOperation) -> Seq<char> {
    match op.operation_id {
        Some(id) => snake_case(id@),
        None => fallback_name(op.method@, op.path@),
    }
}

/// Why an operation with a supported method gives no function, if it does
/// not: its first unresolvable parameter, else its request body.
pub open spec fn op_error(op: OaOperation, comps: Option<OaComponents>) -> Option<Seq<char>> {
    match params_error(op.parameters@, comps) {
        Some(e) => Some(e),
        None => body_error(op.request_body, comps),
    }
}

/// `f` is the function of operation `op` of the API `api`.
pub open spec fn function_def_rel(
    f: FunctionDef,
    op: OaOperation,
    api: Seq<char>,
    comps: Option<OaComponents>,
) -> bool {
    &&& method_of(op.method@) == Some(f.method)
    &&& f.name@ == op_function_name(op)
    &&& f.api@ == api
    &&& f.tag == (if op.tags@.len() > 0 {
        Some(op.tags@[0])
    } else {
        None
    })
    &&& f.path == op.path
    &&& f.summary == op.summary
    &&& f.description == op.description
    &&& f.deprecated == op.deprecated
    &&& param_defs_rel(f.parameters@, op.parameters@, comps)
    &&& op_body_rel(f.request_body, op.request_body, comps)
    &&& match f.response_schema {
        Some(n) => response_schema(op.responses) == Some(n@),
        None => response_schema(op.responses) is None,
    }
}

/// The error of the first operation with a supported method that gives no
/// function.
pub open spec fn functions_error(ops: Seq<OaOperation>, comps: Option<OaComponents>) -> Option<
    Seq<char>,
>
    decreases ops.len(),
{
    if ops.len() == 0 {
        None
    } else {
        match functions_error(ops.drop_last(), comps) {
            Some(e) => Some(e),
            None => if method_of(ops.last().method@) is Some {
                op_error(ops.last(), comps)
            } else {
                None
            },
        }
    }
}

/// `out` are the functions of the operations with a supported method, in
/// order.
pub open spec fn functions_rel(
    out: Seq<FunctionDef>,
    ops: Seq<OaOperation>,
    api: Seq<char>,
    comps: Option<OaComponents>,
) -> bool
    decreases ops.len(),
{
    if ops.len() == 0 {
        out.len() == 0
    } else if method_of(ops.last().method@) is Some {
        &&& out.len() > 0
        &&& function_def_rel(out.last(), ops.last(), api, comps)
        &&& functions_rel(out.drop_last(), ops.drop_last(), api, comps)
    } else {
        functions_rel(out, ops.drop_last(), api, comps)
    }
}

proof fn lemma_functions_error_persists(ops: Seq<OaOperation>, comps: Option<OaComponents>, k: int)
    requires
        0 <= k <= ops.len(),
        functions_error(ops.take(k), comps) is Some,
    ensures
        functions_error(ops, comps) == functions_error(ops.take(k), comps),
    decreases ops.len(),
{
    if k == ops.len() {
        assert(ops.take(k) =~= ops);
    } else {
        assert(ops.drop_last().take(k) =~= ops.take(k));
        lemma_functions_error_persists(ops.drop_last(), comps, k);
    }
}

/// The function of one operation with a supported method, or its error.
pub fn function_def(op: &OaOperation, method: HttpMethod, api: &str, comps: &Option<OaComponents>) -> (r:
    Result<FunctionDef, String>)
    requires
        method_of(op.method@) == Some(method),
    ensures
        match r {
            Ok(f) => op_error(*op, *comps) is None && function_def_rel(f, *op, api@, *comps),
            Err(m) => op_error(*op, *comps) == Some(m@),
        },
{
    let id = match &op.operation_id {
        Some(id) => Some(id.as_str()),
        None => None,
    };
    let name = derive_function_name(id, op.method.as_str(), op.path.as_str());
    let tag = if op.tags.len() > 0 {
        Some(op.tags[0].clone())
    } else {
        None
    };
    let parameters = match extract_parameters(&op.parameters, comps) {
        Ok(v) => v,
        Err(m) => return Err(m),
    };
    let request_body = match extract_request_body(&op.request_body, comps) {
        Ok(d) => d,
        Err(m) => return Err(m),
    };
    let response_schema = extract_response_schema(&op.responses);
    Ok(
        FunctionDef {
            name,
            api: owned(api),
            tag,
            method,
            path: op.path.clone(),
            summary: copy_opt_string(&op.summary),
            description: copy_opt_string(&op.description),
            deprecated: op.deprecated,
            parameters,
            request_body,
            response_schema,
        },
    )
}

/// One function per operation with a supported method, in document order,
/// or the first error.
pub fn extract_functions(ops: &Vec<OaOperation>, api: &str, comps: &Option<OaComponents>) -> (r:
    Result<Vec<FunctionDef>, String>)
    ensures
        match r {
            Ok(v) => functions_error(ops@, *comps) is None && functions_rel(v@, ops@, api@, *comps),
            Err(m) => functions_error(ops@, *comps) == Some(m@),
        },
{
    let mut out: Vec<FunctionDef> = Vec::new();
    let mut i: usize = 0;
    proof {
        assert(ops@.take(0) =~= Seq::<OaOperation>::empty());
    }
    while i < ops.len()
        invariant
            i <= ops@.len(),
            functions_error(ops@.take(i as int), *comps) is None,
            functions_rel(out@, ops@.take(i as int), api@, *comps),
        decreases ops@.len() - i,
    {
        proof {
            assert(ops@.take(i + 1).drop_last() =~= ops@.take(i as int));
            assert(ops@.take(i + 1).last() == ops@[i as int]);
        }
        match method_of_str(ops[i].method.as_str()) {
            None => {},
            Some(method) => match function_def(&ops[i], method, api, comps) {
                Ok(f) => {
                    let ghost before = out@;
                    out.push(f);
                    assert(out@.drop_last() =~= before);
                    assert(out@.last() == f);
                },
                Err(m) => {
                    proof {
                        lemma_functions_error_persists(ops@, *comps, i + 1);
                    }
                    return Err(m);
                },
            },
        }
        assert(functions_error(ops@.take(i + 1), *comps) is None);
        assert(functions_rel(out@, ops@.take(i + 1), api@, *comps));
        i = i + 1;
    }
    assert(ops@.take(ops@.len() as int) =~= ops@);
    Ok(out)
}

// ---------------------------------------------------------------------------
// The manifest
// ---------------------------------------------------------------------------

/// `m` is the manifest of a document for the API `name`: its configuration,
/// its functions and its object schemas, and no tool servers.
pub open spec fn manifest_rel(m: Manifest, doc: OaDocument, name: Seq<char>) -> bool {
    &&& m.apis@.len() == 1
    &&& api_config_rel(m.apis@[0], doc, name)
    &&& functions_rel(m.functions@, doc.operations@, name, doc.components)
    &&& match doc.components {
        Some(c) => schema_defs_rel(m.schemas@, c.schemas@, c),
        None => m.schemas@.len() == 0,
    }
    &&& m.mcp_servers@.len() == 0
}

/// The manifest of a document for the API `api_name`, or the error of the
/// first operation whose parameters or request body cannot be resolved.
pub fn spec_to_manifest(doc: &OaDocument, api_name: &str) -> (r: Result<Manifest, String>)
    ensures
        match r {
            Ok(m) => functions_error(doc.operations@, doc.components) is None && manifest_rel(
                m,
                *doc,
                api_name@,
            ),
            Err(e) => functions_error(doc.operations@, doc.components) == Some(e@),
        },
{
    let config = extract_api_config(doc, api_name);
    let functions = match extract_functions(&doc.operations, api_name, &doc.components) {
        Ok(v) => v,
        Err(e) => return Err(e),
    };
    let schemas = extract_schemas(&doc.components);
    let mut apis: Vec<ApiConfig> = Vec::new();
    apis.push(config);
    Ok(Manifest { apis, functions, schemas, mcp_servers: Vec::new() })
}

} // verus!
