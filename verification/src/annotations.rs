//! Luau documentation blocks for SDK functions and schemas, and the
//! annotation files grouped by tag.
use vstd::prelude::*;
use crate::luau_types::{
    field_type_to_luau, luau_type, optional_mark, param_luau_type, param_type_to_luau,
    render_enum_type, typed_text,
};
use crate::manifest::{
    ApiConfig, FieldDef, FunctionDef, Manifest, McpParamDef, McpToolDef, ParamDef, RequestBodyDef,
    SchemaDef,
};
use crate::text::{
    chars_of, join, join_strings, owned, pair_views, push_char, push_chars, push_line, push_str, split,
    split_chars, str_eq, trim, trim_chars, trim_str, views,
};

verus! {

broadcast use vstd::seq_lib::group_seq_properties;

// ---------------------------------------------------------------------------
// Function annotations
// ---------------------------------------------------------------------------

/// `--` for an empty comment line, else `-- ` and the text.
pub open spec fn comment_line(t: Seq<char>) -> Seq<char> {
    if t.len() == 0 {
        "--"@
    } else {
        "-- "@ + t
    }
}

/// The summary line: `-- ` and the trimmed summary.
pub open spec fn summary_lines(summary: Option<String>) -> Seq<Seq<char>> {
    match summary {
        Some(s) => seq!["-- "@ + trim(s@)],
        None => Seq::<Seq<char>>::empty(),
    }
}

/// The description block: a blank comment line, then one comment line per
/// line of the trimmed description (each line trimmed); nothing for an
/// absent or blank description.
pub open spec fn description_lines(description: Option<String>) -> Seq<Seq<char>> {
    match description {
        Some(d) => {
            let t = trim(d@);
            if t.len() == 0 {
                Seq::<Seq<char>>::empty()
            } else {
                seq!["--"@] + split(t, '\n').map_values(|l: Seq<char>| comment_line(trim(l)))
            }
        },
        None => Seq::<Seq<char>>::empty(),
    }
}

/// The deprecation marker line.
pub open spec fn deprecated_lines(deprecated: bool) -> Seq<Seq<char>> {
    if deprecated {
        seq!["-- @deprecated"@]
    } else {
        Seq::<Seq<char>>::empty()
    }
}

/// A parameter is shown to callers unless configuration froze its value.
pub open spec fn is_visible(p: ParamDef) -> bool {
    p.frozen_value is None
}

/// The `@param` line of one parameter, if it is visible and has a
/// non-blank description.
pub open spec fn param_doc_line(p: ParamDef) -> Seq<Seq<char>> {
    if is_visible(p) && p.description is Some && trim(p.description->0@).len() > 0 {
        seq!["-- @param "@ + p.name@ + " - "@ + trim(p.description->0@)]
    } else {
        Seq::<Seq<char>>::empty()
    }
}

/// The `@param` lines of all parameters, in order.
pub open spec fn param_doc_lines(params: Seq<ParamDef>) -> Seq<Seq<char>>
    decreases params.len(),
{
    if params.len() == 0 {
        Seq::<Seq<char>>::empty()
    } else {
        param_doc_lines(params.drop_last()) + param_doc_line(params.last())
    }
}

/// The `@param body` line, if the body has a non-blank description.
pub open spec fn body_doc_lines(body: Option<RequestBodyDef>) -> Seq<Seq<char>> {
    match body {
        Some(b) => if b.description is Some && trim(b.description->0@).len() > 0 {
            seq!["-- @param body - "@ + trim(b.description->0@)]
        } else {
            Seq::<Seq<char>>::empty()
        },
        None => Seq::<Seq<char>>::empty(),
    }
}

/// `name: type` of a parameter in the signature, with `?` when optional.
pub open spec fn param_sig(p: ParamDef) -> Seq<char> {
    p.name@ + ": "@ + typed_text(p.enum_values, param_luau_type(p.param_type)) + optional_mark(
        !p.required,
    )
}

/// The signature entries of the visible parameters, in order.
pub open spec fn param_sigs(params: Seq<ParamDef>) -> Seq<Seq<char>>
    decreases params.len(),
{
    if params.len() == 0 {
        Seq::<Seq<char>>::empty()
    } else if is_visible(params.last()) {
        param_sigs(params.drop_last()).push(param_sig(params.last()))
    } else {
        param_sigs(params.drop_last())
    }
}

/// The signature entry of the request body.
pub open spec fn body_sig(body: Option<RequestBodyDef>) -> Seq<Seq<char>> {
    match body {
        Some(b) => seq!["body: "@ + b.schema@ + optional_mark(!b.required)],
        None => Seq::<Seq<char>>::empty(),
    }
}

/// `: Type` for a function with a response schema.
pub open spec fn return_text(response_schema: Option<String>) -> Seq<char> {
    match response_schema {
        Some(r) => ": "@ + r@,
        None => Seq::<char>::empty(),
    }
}

/// `function sdk.name(params): Ret end`.
pub open spec fn signature_line(f: FunctionDef) -> Seq<char> {
    "function sdk."@ + f.name@ + seq!['('] + join(
        param_sigs(f.parameters@) + body_sig(f.request_body),
        ", "@,
    ) + seq![')'] + return_text(f.response_schema) + " end"@
}

/// Only the visible parameters of a list.
pub open spec fn visible_only(params: Seq<ParamDef>) -> Seq<ParamDef> {
    params.filter(|p: ParamDef| is_visible(p))
}

proof fn lemma_visible_only_step(params: Seq<ParamDef>)
    requires
        params.len() > 0,
    ensures
        visible_only(params) == if is_visible(params.last()) {
            visible_only(params.drop_last()).push(params.last())
        } else {
            visible_only(params.drop_last())
        },
{
    reveal(Seq::filter);
}

proof fn lemma_frozen_params_silent(params: Seq<ParamDef>)
    ensures
        param_doc_lines(params) == param_doc_lines(visible_only(params)),
        param_sigs(params) == param_sigs(visible_only(params)),
    decreases params.len(),
{
    if params.len() == 0 {
        reveal(Seq::filter);
        assert(visible_only(params) =~= params);
    } else {
        lemma_frozen_params_silent(params.drop_last());
        lemma_visible_only_step(params);
        let v = visible_only(params.drop_last());
        if is_visible(params.last()) {
            let w = v.push(params.last());
            assert(w.drop_last() =~= v);
            assert(w.last() == params.last());
        } else {
            assert(param_doc_line(params.last()) =~= Seq::<Seq<char>>::empty());
            assert(param_doc_lines(params) =~= param_doc_lines(params.drop_last()));
        }
    }
}

/// Frozen parameters leave no trace in a function's annotation: it is the
/// annotation of the same function with only its visible parameters.
pub proof fn law_frozen_params_undocumented(f: FunctionDef, g: FunctionDef)
    requires
        g == (FunctionDef { parameters: g.parameters, ..f }),
        g.parameters@ == visible_only(f.parameters@),
    ensures
        function_annotation(f) == function_annotation(g),
{
    lemma_frozen_params_silent(f.parameters@);
    assert(signature_line(f) == signature_line(g));
    assert(function_lines(f) =~= function_lines(g));
}

/// All lines of a function's annotation.
pub open spec fn function_lines(f: FunctionDef) -> Seq<Seq<char>> {
    summary_lines(f.summary) + description_lines(f.description) + deprecated_lines(f.deprecated)
        + param_doc_lines(f.parameters@) + body_doc_lines(f.request_body) + seq![signature_line(f)]
}

/// The annotation of a function: its lines joined by newlines.
pub open spec fn function_annotation(f: FunctionDef) -> Seq<char> {
    join(function_lines(f), "\n"@)
}

/// `-- ` and the trimmed text, as an owned string.
fn comment_of(t: &[char]) -> (r: String)
    ensures
        r@ == comment_line(t@),
{
    if t.len() == 0 {
        owned("--")
    } else {
        let mut r = owned("-- ");
        push_chars(&mut r, t);
        r
    }
}

fn push_summary_lines(lines: &mut Vec<String>, summary: &Option<String>)
    ensures
        views(final(lines)@) == views(old(lines)@) + summary_lines(*summary),
{
    match summary {
        Some(s) => {
            let t = trim_str(s.as_str());
            let mut l = owned("-- ");
            push_str(&mut l, t.as_str());
            push_line(lines, l);
        },
        None => {},
    }
}

fn push_description_lines(lines: &mut Vec<String>, description: &Option<String>)
    ensures
        views(final(lines)@) == views(old(lines)@) + description_lines(*description),
{
    match description {
        Some(d) => {
            let dv = chars_of(d.as_str());
            let t = trim_chars(dv.as_slice());
            if t.len() > 0 {
                push_line(lines, owned("--"));
                let ghost start = views(lines@);
                let pieces = split_chars(t.as_slice(), '\n');
                let ghost sp = split(t@, '\n');
                let mut i: usize = 0;
                while i < pieces.len()
                    invariant
                        i <= pieces@.len(),
                        pieces@.len() == sp.len(),
                        forall|k: int| 0 <= k < pieces@.len() ==> #[trigger] pieces@[k]@ == sp[k],
                        views(lines@) == start + sp.take(i as int).map_values(
                            |l: Seq<char>| comment_line(trim(l)),
                        ),
                    decreases pieces@.len() - i,
                {
                    let lt = trim_chars(pieces[i].as_slice());
                    let c = comment_of(lt.as_slice());
                    push_line(lines, c);
                    assert(sp.take(i + 1).map_values(|l: Seq<char>| comment_line(trim(l)))
                        =~= sp.take(i as int).map_values(|l: Seq<char>| comment_line(trim(l))).push(
                        comment_line(trim(sp[i as int])),
                    ));
                    i = i + 1;
                }
                assert(sp.take(pieces@.len() as int) =~= sp);
            }
        },
        None => {},
    }
}

fn push_param_doc_lines(lines: &mut Vec<String>, params: &Vec<ParamDef>)
    ensures
        views(final(lines)@) == views(old(lines)@) + param_doc_lines(params@),
{
    let ghost start = views(lines@);
    let mut i: usize = 0;
    while i < params.len()
        invariant
            i <= params@.len(),
            views(lines@) == start + param_doc_lines(params@.take(i as int)),
        decreases params@.len() - i,
    {
        let p = &params[i];
        proof {
            assert(params@.take(i + 1).drop_last() =~= params@.take(i as int));
        }
        if p.frozen_value.is_none() {
            match &p.description {
                Some(d) => {
                    let t = trim_str(d.as_str());
                    if !t.as_str().is_empty() {
                        let mut l = owned("-- @param ");
                        push_str(&mut l, p.name.as_str());
                        push_str(&mut l, " - ");
                        push_str(&mut l, t.as_str());
                        push_line(lines, l);
                    }
                },
                None => {},
            }
        }
        i = i + 1;
    }
    assert(params@.take(params@.len() as int) =~= params@);
}

fn push_body_doc_lines(lines: &mut Vec<String>, body: &Option<RequestBodyDef>)
    ensures
        views(final(lines)@) == views(old(lines)@) + body_doc_lines(*body),
{
    match body {
        Some(b) => match &b.description {
            Some(d) => {
                let t = trim_str(d.as_str());
                if !t.as_str().is_empty() {
                    let mut l = owned("-- @param body - ");
                    push_str(&mut l, t.as_str());
                    push_line(lines, l);
                }
            },
            None => {},
        },
        None => {},
    }
}

/// Builds the signature line of a function.
fn render_signature(func: &FunctionDef) -> (r: String)
    ensures
        r@ == signature_line(*func),
{
    let mut parts: Vec<String> = Vec::new();
    let mut i: usize = 0;
    while i < func.parameters.len()
        invariant
            i <= func.parameters@.len(),
            views(parts@) == param_sigs(func.parameters@.take(i as int)),
        decreases func.parameters@.len() - i,
    {
        let p = &func.parameters[i];
        proof {
            assert(func.parameters@.take(i + 1).drop_last() =~= func.parameters@.take(i as int));
        }
        if p.frozen_value.is_none() {
            let type_str = match &p.enum_values {
                Some(ev) => render_enum_type(ev),
                None => param_type_to_luau(&p.param_type),
            };
            let mut e = String::new();
            push_str(&mut e, p.name.as_str());
            push_str(&mut e, ": ");
            push_str(&mut e, type_str.as_str());
            if !p.required {
                push_char(&mut e, '?');
            }
            assert(e@ =~= param_sig(*p));
            push_line(&mut parts, e);
        }
        i = i + 1;
    }
    assert(func.parameters@.take(func.parameters@.len() as int) =~= func.parameters@);
    match &func.request_body {
        Some(b) => {
            let mut e = owned("body: ");
            push_str(&mut e, b.schema.as_str());
            if !b.required {
                push_char(&mut e, '?');
            }
            assert(e@ =~= "body: "@ + b.schema@ + optional_mark(!b.required));
            push_line(&mut parts, e);
            assert(views(parts@) =~= param_sigs(func.parameters@) + body_sig(func.request_body));
        },
        None => {
            assert(views(parts@) =~= param_sigs(func.parameters@) + body_sig(func.request_body));
        },
    }
    assert(views(parts@) =~= param_sigs(func.parameters@) + body_sig(func.request_body));
    let params_str = join_strings(&parts, ", ");
    let mut r = owned("function sdk.");
    push_str(&mut r, func.name.as_str());
    push_char(&mut r, '(');
    push_str(&mut r, params_str.as_str());
    push_char(&mut r, ')');
    match &func.response_schema {
        Some(rs) => {
            push_str(&mut r, ": ");
            push_str(&mut r, rs.as_str());
        },
        None => {},
    }
    push_str(&mut r, " end");
    assert(r@ =~= signature_line(*func));
    r
}

/// Renders the Luau documentation block of a function: summary, description,
/// deprecation marker, parameter docs and the typed signature. Parameters with
/// a frozen value appear nowhere in it.
pub fn render_function_annotation(func: &FunctionDef) -> (r: String)
    ensures
        r@ == function_annotation(*func),
{
    let mut lines: Vec<String> = Vec::new();
    push_summary_lines(&mut lines, &func.summary);
    push_description_lines(&mut lines, &func.description);
    if func.deprecated {
        push_line(&mut lines, owned("-- @deprecated"));
    }
    push_param_doc_lines(&mut lines, &func.parameters);
    push_body_doc_lines(&mut lines, &func.request_body);
    let sig = render_signature(func);
    push_line(&mut lines, sig);
    assert(views(lines@) =~= function_lines(*func));
    join_strings(&lines, "\n")
}

// ---------------------------------------------------------------------------
// Schema annotations
// ---------------------------------------------------------------------------

/// The trimmed description of a field, if it has one.
pub open spec fn field_description_part(f: FieldDef) -> Seq<Seq<char>> {
    match f.description {
        Some(d) => seq![trim(d@)],
        None => Seq::<Seq<char>>::empty(),
    }
}

/// The parts of a field's trailing comment: its trimmed description and its
/// format in parentheses.
pub open spec fn field_comment_parts(f: FieldDef) -> Seq<Seq<char>> {
    field_description_part(f) + (match f.format {
        Some(x) => seq![seq!['('] + x@ + seq![')']],
        None => Seq::<Seq<char>>::empty(),
    })
}

/// `  -- parts` when the field has comment parts, else nothing.
pub open spec fn field_comment(f: FieldDef) -> Seq<char> {
    if field_comment_parts(f).len() == 0 {
        Seq::<char>::empty()
    } else {
        "  -- "@ + join(field_comment_parts(f), " "@)
    }
}

/// `    name: type?,  -- comment` for one field.
pub open spec fn field_line(f: FieldDef) -> Seq<char> {
    "    "@ + f.name@ + ": "@ + typed_text(f.enum_values, luau_type(f.field_type)) + optional_mark(
        !f.required || f.nullable,
    ) + seq![','] + field_comment(f)
}

/// The description line of a schema, if its description is not blank.
pub open spec fn schema_description_lines(description: Option<String>) -> Seq<Seq<char>> {
    match description {
        Some(d) => if trim(d@).len() > 0 {
            seq!["-- "@ + trim(d@)]
        } else {
            Seq::<Seq<char>>::empty()
        },
        None => Seq::<Seq<char>>::empty(),
    }
}

/// All lines of a schema's annotation.
pub open spec fn schema_lines(s: SchemaDef) -> Seq<Seq<char>> {
    schema_description_lines(s.description) + seq!["export type "@ + s.name@ + " = {"@]
        + s.fields@.map_values(|f: FieldDef| field_line(f)) + seq!["}"@]
}

/// The annotation of a schema: its lines joined by newlines.
pub open spec fn schema_annotation(s: SchemaDef) -> Seq<char> {
    join(schema_lines(s), "\n"@)
}

fn render_field_line(f: &FieldDef) -> (r: String)
    ensures
        r@ == field_line(*f),
{
    let type_str = match &f.enum_values {
        Some(ev) => render_enum_type(ev),
        None => field_type_to_luau(&f.field_type),
    };
    let mut parts: Vec<String> = Vec::new();
    assert(views(parts@) =~= Seq::<Seq<char>>::empty());
    match &f.description {
        Some(d) => push_line(&mut parts, trim_str(d.as_str())),
        None => {},
    }
    assert(views(parts@) =~= field_description_part(*f));
    match &f.format {
        Some(x) => {
            let mut p = String::new();
            push_char(&mut p, '(');
            push_str(&mut p, x.as_str());
            push_char(&mut p, ')');
            assert(p@ =~= seq!['('] + x@ + seq![')']);
            push_line(&mut parts, p);
            assert(views(parts@) =~= field_comment_parts(*f));
        },
        None => {
            assert(views(parts@) =~= field_comment_parts(*f));
        },
    }
    assert(views(parts@) =~= field_comment_parts(*f));
    let mut r = owned("    ");
    push_str(&mut r, f.name.as_str());
    push_str(&mut r, ": ");
    push_str(&mut r, type_str.as_str());
    if !f.required || f.nullable {
        push_char(&mut r, '?');
    }
    push_char(&mut r, ',');
    if parts.len() > 0 {
        let joined = join_strings(&parts, " ");
        push_str(&mut r, "  -- ");
        push_str(&mut r, joined.as_str());
    }
    r
}

/// Renders the Luau `export type` definition of a schema.
pub fn render_schema_annotation(schema: &SchemaDef) -> (r: String)
    ensures
        r@ == schema_annotation(*schema),
{
    let mut lines: Vec<String> = Vec::new();
    match &schema.description {
        Some(d) => {
            let t = trim_str(d.as_str());
            if !t.as_str().is_empty() {
                let mut l = owned("-- ");
                push_str(&mut l, t.as_str());
                push_line(&mut lines, l);
            }
        },
        None => {},
    }
    let mut head = owned("export type ");
    push_str(&mut head, schema.name.as_str());
    push_str(&mut head, " = {");
    push_line(&mut lines, head);
    let ghost start = views(lines@);
    let mut i: usize = 0;
    while i < schema.fields.len()
        invariant
            i <= schema.fields@.len(),
            views(lines@) == start + schema.fields@.take(i as int).map_values(
                |f: FieldDef| field_line(f),
            ),
        decreases schema.fields@.len() - i,
    {
        let l = render_field_line(&schema.fields[i]);
        push_line(&mut lines, l);
        assert(schema.fields@.take(i + 1).map_values(|f: FieldDef| field_line(f))
            =~= schema.fields@.take(i as int).map_values(|f: FieldDef| field_line(f)).push(
            field_line(schema.fields@[i as int]),
        ));
        i = i + 1;
    }
    assert(schema.fields@.take(schema.fields@.len() as int) =~= schema.fields@);
    push_line(&mut lines, owned("}"));
    assert(views(lines@) =~= schema_lines(*schema));
    join_strings(&lines, "\n")
}

} // verus!

verus! {

// ---------------------------------------------------------------------------
// Annotation files grouped by tag
// ---------------------------------------------------------------------------

/// Concatenation of all parts, in order.
pub open spec fn concat(parts: Seq<Seq<char>>) -> Seq<char>
    decreases parts.len(),
{
    if parts.len() == 0 {
        Seq::<char>::empty()
    } else {
        concat(parts.drop_last()) + parts.last()
    }
}

/// Concatenating one more part appends it.
pub proof fn lemma_concat_push(parts: Seq<Seq<char>>, x: Seq<char>)
    ensures
        concat(parts.push(x)) == concat(parts) + x,
{
    assert(parts.push(x).drop_last() =~= parts);
}

/// The group a function belongs to: its tag, or `default` when untagged.
pub open spec fn tag_of(f: FunctionDef) -> Seq<char> {
    match f.tag {
        Some(t) => t@,
        None => "default"@,
    }
}

/// The functions of group `t`, in manifest order.
pub open spec fn group(fs: Seq<FunctionDef>, t: Seq<char>) -> Seq<FunctionDef>
    decreases fs.len(),
{
    if fs.len() == 0 {
        Seq::<FunctionDef>::empty()
    } else if tag_of(fs.last()) == t {
        group(fs.drop_last(), t).push(fs.last())
    } else {
        group(fs.drop_last(), t)
    }
}

/// The schema names a function mentions: its response schema and its
/// request body schema.
pub open spec fn schema_refs(f: FunctionDef) -> Seq<Seq<char>> {
    (match f.response_schema {
        Some(r) => seq![r@],
        None => Seq::<Seq<char>>::empty(),
    }) + (match f.request_body {
        Some(b) => seq![b.schema@],
        None => Seq::<Seq<char>>::empty(),
    })
}

/// All schema names the functions mention, with repetitions.
pub open spec fn all_refs(fs: Seq<FunctionDef>) -> Seq<Seq<char>>
    decreases fs.len(),
{
    if fs.len() == 0 {
        Seq::<Seq<char>>::empty()
    } else {
        all_refs(fs.drop_last()) + schema_refs(fs.last())
    }
}

/// The elements of a finite set of strings in increasing order.
pub open spec fn sorted_list(s: Set<Seq<char>>) -> Seq<Seq<char>> {
    choose|l: Seq<Seq<char>>| crate::order::sorted_strict(l) && l.to_set() == s
}

/// Any strictly increasing list of the elements is `sorted_list`.
pub proof fn lemma_sorted_list(l: Seq<Seq<char>>, s: Set<Seq<char>>)
    requires
        crate::order::sorted_strict(l),
        l.to_set() == s,
    ensures
        sorted_list(s) == l,
{
    let c = sorted_list(s);
    assert(crate::order::sorted_strict(c) && c.to_set() == s);
    crate::order::lemma_sorted_unique(c, l);
}

/// Index of the last schema named `n`.
pub open spec fn last_schema_index(schemas: Seq<SchemaDef>, n: Seq<char>) -> Option<int>
    decreases schemas.len(),
{
    if schemas.len() == 0 {
        None
    } else if schemas.last().name@ == n {
        Some(schemas.len() - 1)
    } else {
        last_schema_index(schemas.drop_last(), n)
    }
}

/// The header lines one API contributes to a group file.
pub open spec fn api_header(api: ApiConfig) -> Seq<char> {
    "-- "@ + api.name@ + " API"@ + (match api.version {
        Some(v) => " v"@ + v@,
        None => Seq::<char>::empty(),
    }) + seq!['\n'] + (match api.description {
        Some(d) => if trim(d@).len() > 0 {
            "-- "@ + trim(d@) + seq!['\n']
        } else {
            Seq::<char>::empty()
        },
        None => Seq::<char>::empty(),
    })
}

/// The annotations of a group's functions, separated by blank lines.
pub open spec fn funcs_text(g: Seq<FunctionDef>) -> Seq<char>
    decreases g.len(),
{
    if g.len() == 0 {
        Seq::<char>::empty()
    } else if g.len() == 1 {
        function_annotation(g[0]) + seq!['\n']
    } else {
        funcs_text(g.drop_last()) + seq!['\n'] + function_annotation(g.last()) + seq!['\n']
    }
}

/// The block of schema `n`, if the manifest defines it (the last definition
/// wins).
pub open spec fn schema_block(schemas: Seq<SchemaDef>, n: Seq<char>) -> Seq<char> {
    match last_schema_index(schemas, n) {
        Some(k) => seq!['\n'] + schema_annotation(schemas[k]) + seq!['\n'],
        None => Seq::<char>::empty(),
    }
}

/// The content of the file of group `t`: API headers, the group's function
/// annotations, and the schemas these functions mention, by name order.
pub open spec fn group_content(m: Manifest, t: Seq<char>) -> Seq<char> {
    let g = group(m.functions@, t);
    concat(m.apis@.map_values(|a: ApiConfig| api_header(a))) + seq!['\n'] + funcs_text(g) + concat(
        sorted_list(all_refs(g).to_set()).map_values(
            |n: Seq<char>| schema_block(m.schemas@, n),
        ),
    )
}

/// The metadata lines of one API.
pub open spec fn meta_entry(api: ApiConfig) -> Seq<char> {
    "-- API: "@ + api.name@ + seq!['\n'] + (match api.version {
        Some(v) => "-- Version: "@ + v@ + seq!['\n'],
        None => Seq::<char>::empty(),
    }) + (match api.description {
        Some(d) => if trim(d@).len() > 0 {
            "-- Description: "@ + trim(d@) + seq!['\n']
        } else {
            Seq::<char>::empty()
        },
        None => Seq::<char>::empty(),
    }) + "-- Base URL: "@ + api.base_url@ + seq!['\n'] + seq!['\n']
}

/// The content of `_meta.luau`.
pub open spec fn meta_content(apis: Seq<ApiConfig>) -> Seq<char> {
    "-- API Metadata\n-- Generated by code-mcp\n\n"@ + concat(
        apis.map_values(|a: ApiConfig| meta_entry(a)),
    )
}

/// The groups of a manifest, in increasing order.
pub open spec fn group_tags(m: Manifest) -> Seq<Seq<char>> {
    sorted_list(m.functions@.map_values(|f: FunctionDef| tag_of(f)).to_set())
}

/// The annotation files of a manifest: one `<tag>.luau` per group, by tag
/// order, then `_meta.luau`.
pub open spec fn annotation_files(m: Manifest) -> Seq<(Seq<char>, Seq<char>)> {
    group_tags(m).map_values(|t: Seq<char>| (t + ".luau"@, group_content(m, t))).push(
        ("_meta.luau"@, meta_content(m.apis@)),
    )
}

/// The header lines that name each API.
#[verifier::rlimit(30)]
fn api_headers(apis: &Vec<ApiConfig>) -> (r: String)
    ensures
        r@ == concat(apis@.map_values(|a: ApiConfig| api_header(a))),
{
    let mut r = String::new();
    let mut i: usize = 0;
    while i < apis.len()
        invariant
            i <= apis@.len(),
            r@ == concat(apis@.take(i as int).map_values(|a: ApiConfig| api_header(a))),
        decreases apis@.len() - i,
    {
        let api = &apis[i];
        let ghost before = r@;
        push_str(&mut r, "-- ");
        push_str(&mut r, api.name.as_str());
        push_str(&mut r, " API");
        match &api.version {
            Some(v) => {
                push_str(&mut r, " v");
                push_str(&mut r, v.as_str());
            },
            None => {},
        }
        push_char(&mut r, '\n');
        match &api.description {
            Some(d) => {
                let t = trim_str(d.as_str());
                if !t.as_str().is_empty() {
                    push_str(&mut r, "-- ");
                    push_str(&mut r, t.as_str());
                    push_char(&mut r, '\n');
                }
            },
            None => {},
        }
        proof {
            assert(r@ =~= before + api_header(*api));
            lemma_concat_push(apis@.take(i as int).map_values(|a: ApiConfig| api_header(a)), api_header(apis@[i as int]));
            assert(apis@.take(i + 1).map_values(|a: ApiConfig| api_header(a)) =~= apis@.take(
                i as int,
            ).map_values(|a: ApiConfig| api_header(a)).push(api_header(apis@[i as int])));
        }
        i = i + 1;
    }
    assert(apis@.take(apis@.len() as int) =~= apis@);
    r
}

fn render_meta_entry(api: &ApiConfig) -> (r: String)
    ensures
        r@ == meta_entry(*api),
{
    let mut r = owned("-- API: ");
    push_str(&mut r, api.name.as_str());
    push_char(&mut r, '\n');
    let ghost a = r@;
    match &api.version {
        Some(v) => {
            push_str(&mut r, "-- Version: ");
            push_str(&mut r, v.as_str());
            push_char(&mut r, '\n');
        },
        None => {},
    }
    let ghost b = r@;
    match &api.description {
        Some(d) => {
            let t = trim_str(d.as_str());
            if !t.as_str().is_empty() {
                push_str(&mut r, "-- Description: ");
                push_str(&mut r, t.as_str());
                push_char(&mut r, '\n');
            }
        },
        None => {},
    }
    let ghost c = r@;
    push_str(&mut r, "-- Base URL: ");
    push_str(&mut r, api.base_url.as_str());
    push_char(&mut r, '\n');
    push_char(&mut r, '\n');
    assert(r@ =~= meta_entry(*api));
    r
}

fn render_meta(apis: &Vec<ApiConfig>) -> (r: String)
    ensures
        r@ == meta_content(apis@),
{
    let mut r = owned("-- API Metadata\n-- Generated by code-mcp\n\n");
    let ghost start = r@;
    let mut i: usize = 0;
    while i < apis.len()
        invariant
            i <= apis@.len(),
            r@ == start + concat(apis@.take(i as int).map_values(|a: ApiConfig| meta_entry(a))),
        decreases apis@.len() - i,
    {
        let e = render_meta_entry(&apis[i]);
        push_str(&mut r, e.as_str());
        proof {
            assert(apis@.take(i + 1).map_values(|a: ApiConfig| meta_entry(a)) =~= apis@.take(
                i as int,
            ).map_values(|a: ApiConfig| meta_entry(a)).push(meta_entry(apis@[i as int])));
            lemma_concat_push(apis@.take(i as int).map_values(|a: ApiConfig| meta_entry(a)), meta_entry(apis@[i as int]));
        }
        i = i + 1;
    }
    assert(apis@.take(apis@.len() as int) =~= apis@);
    r
}

/// The tag of a function, as an owned string.
fn function_tag(f: &FunctionDef) -> (r: String)
    ensures
        r@ == tag_of(*f),
{
    match &f.tag {
        Some(t) => t.clone(),
        None => owned("default"),
    }
}

/// Finds the last schema with the given name.
fn find_last_schema(schemas: &Vec<SchemaDef>, n: &str) -> (r: Option<usize>)
    ensures
        match r {
            Some(k) => last_schema_index(schemas@, n@) == Some(k as int) && k < schemas@.len(),
            None => last_schema_index(schemas@, n@) is None,
        },
{
    let mut j: usize = schemas.len();
    while j > 0
        invariant
            j <= schemas@.len(),
            last_schema_index(schemas@, n@) == last_schema_index(schemas@.take(j as int), n@),
        decreases j,
    {
        assert(schemas@.take(j as int).drop_last() =~= schemas@.take(j - 1));
        if str_eq(schemas[j - 1].name.as_str(), n) {
            return Some(j - 1);
        }
        j = j - 1;
    }
    None
}

/// The content of the file of group `t`.
fn render_group(manifest: &Manifest, t: &str, header: &String) -> (r: String)
    requires
        header@ == concat(manifest.apis@.map_values(|a: ApiConfig| api_header(a))),
    ensures
        r@ == group_content(*manifest, t@),
{
    let fs = &manifest.functions;
    let mut content = header.clone();
    push_char(&mut content, '\n');
    let ghost base = content@;
    let mut refs: Vec<String> = Vec::new();
    let mut count: usize = 0;
    let mut i: usize = 0;
    while i < fs.len()
        invariant
            i <= fs@.len(),
            count == group(fs@.take(i as int), t@).len(),
            count <= i,
            content@ == base + funcs_text(group(fs@.take(i as int), t@)),
            crate::order::sorted_strict(views(refs@)),
            views(refs@).to_set() == all_refs(group(fs@.take(i as int), t@)).to_set(),
        decreases fs@.len() - i,
    {
        let f = &fs[i];
        let ghost g0 = group(fs@.take(i as int), t@);
        proof {
            assert(fs@.take(i + 1).drop_last() =~= fs@.take(i as int));
        }
        let tag = function_tag(f);
        if str_eq(tag.as_str(), t) {
            if count > 0 {
                push_char(&mut content, '\n');
            }
            let ann = render_function_annotation(f);
            push_str(&mut content, ann.as_str());
            push_char(&mut content, '\n');
            let ghost r0 = views(refs@).to_set();
            match &f.response_schema {
                Some(rs) => crate::order::insert_sorted(&mut refs, rs.as_str()),
                None => {},
            }
            match &f.request_body {
                Some(b) => crate::order::insert_sorted(&mut refs, b.schema.as_str()),
                None => {},
            }
            proof {
                let g1 = g0.push(*f);
                assert(group(fs@.take(i + 1), t@) == g1);
                assert(g1.drop_last() =~= g0);
                if count > 0 {
                    assert(content@ =~= base + funcs_text(g1));
                } else {
                    assert(g0.len() == 0);
                    assert(content@ =~= base + funcs_text(g1));
                }
                assert(all_refs(g1) == all_refs(g0) + schema_refs(*f));
                assert(views(refs@).to_set() =~= (all_refs(g0) + schema_refs(*f)).to_set());
            }
            count = count + 1;
        }
        i = i + 1;
    }
    assert(fs@.take(fs@.len() as int) =~= fs@);
    let ghost g = group(fs@, t@);
    proof {
        lemma_sorted_list(views(refs@), all_refs(g).to_set());
    }
    let ghost mid = content@;
    let mut k: usize = 0;
    while k < refs.len()
        invariant
            k <= refs@.len(),
            content@ == mid + concat(
                views(refs@).take(k as int).map_values(
                    |n: Seq<char>| schema_block(manifest.schemas@, n),
                ),
            ),
        decreases refs@.len() - k,
    {
        let ghost before = content@;
        match find_last_schema(&manifest.schemas, refs[k].as_str()) {
            Some(idx) => {
                push_char(&mut content, '\n');
                let s = render_schema_annotation(&manifest.schemas[idx]);
                push_str(&mut content, s.as_str());
                push_char(&mut content, '\n');
            },
            None => {},
        }
        proof {
            let n = views(refs@)[k as int];
            assert(content@ =~= before + schema_block(manifest.schemas@, n));
            lemma_concat_push(views(refs@).take(k as int).map_values(
                |n: Seq<char>| schema_block(manifest.schemas@, n),
            ), schema_block(manifest.schemas@, n));
            assert(views(refs@).take(k + 1).map_values(
                |n: Seq<char>| schema_block(manifest.schemas@, n),
            ) =~= views(refs@).take(k as int).map_values(
                |n: Seq<char>| schema_block(manifest.schemas@, n),
            ).push(schema_block(manifest.schemas@, n)));
        }
        k = k + 1;
    }
    assert(views(refs@).take(refs@.len() as int) =~= views(refs@));
    content
}

/// Generates the annotation files of a manifest: one `<tag>.luau` file per
/// tag (untagged functions go to `default`), in tag order, each holding the
/// API headers, the group's function annotations and the schemas they
/// mention; then `_meta.luau` with API metadata.
pub fn generate_annotation_files(manifest: &Manifest) -> (r: Vec<(String, String)>)
    ensures
        pair_views(r@) == annotation_files(*manifest),
{
    let fs = &manifest.functions;
    let mut tags: Vec<String> = Vec::new();
    let mut i: usize = 0;
    while i < fs.len()
        invariant
            i <= fs@.len(),
            crate::order::sorted_strict(views(tags@)),
            views(tags@).to_set() == fs@.take(i as int).map_values(|f: FunctionDef| tag_of(f)).to_set(),
        decreases fs@.len() - i,
    {
        let tag = function_tag(&fs[i]);
        crate::order::insert_sorted(&mut tags, tag.as_str());
        assert(fs@.take(i + 1).map_values(|f: FunctionDef| tag_of(f)) =~= fs@.take(
            i as int,
        ).map_values(|f: FunctionDef| tag_of(f)).push(tag_of(fs@[i as int])));
        assert(views(tags@).to_set() =~= fs@.take(i + 1).map_values(|f: FunctionDef| tag_of(f)).to_set());
        i = i + 1;
    }
    assert(fs@.take(fs@.len() as int) =~= fs@);
    proof {
        lemma_sorted_list(views(tags@), fs@.map_values(|f: FunctionDef| tag_of(f)).to_set());
    }
    let header = api_headers(&manifest.apis);
    let mut files: Vec<(String, String)> = Vec::new();
    let ghost tv = views(tags@);
    let mut k: usize = 0;
    while k < tags.len()
        invariant
            k <= tags@.len(),
            tv == views(tags@),
            tv == group_tags(*manifest),
            header@ == concat(manifest.apis@.map_values(|a: ApiConfig| api_header(a))),
            pair_views(files@) == tv.take(k as int).map_values(
                |t: Seq<char>| (t + ".luau"@, group_content(*manifest, t)),
            ),
        decreases tags@.len() - k,
    {
        let content = render_group(manifest, tags[k].as_str(), &header);
        let mut name = tags[k].clone();
        push_str(&mut name, ".luau");
        let ghost entry = (name@, content@);
        let ghost old_files = files@;
        files.push((name, content));
        proof {
            assert(entry == (tv[k as int] + ".luau"@, group_content(*manifest, tv[k as int])));
            assert(pair_views(files@) =~= pair_views(old_files).push(entry));
            assert(tv.take(k + 1).map_values(
                |t: Seq<char>| (t + ".luau"@, group_content(*manifest, t)),
            ) =~= tv.take(k as int).map_values(
                |t: Seq<char>| (t + ".luau"@, group_content(*manifest, t)),
            ).push(entry));
            assert(pair_views(files@) =~= tv.take(k + 1).map_values(
                |t: Seq<char>| (t + ".luau"@, group_content(*manifest, t)),
            ));
        }
        k = k + 1;
    }
    let meta = render_meta(&manifest.apis);
    let ghost old_files = files@;
    let meta_name = owned("_meta.luau");
    let ghost entry = (meta_name@, meta@);
    files.push((meta_name, meta));
    assert(pair_views(files@) =~= pair_views(old_files).push(entry));
    assert(tv.take(tags@.len() as int) =~= tv);
    assert(pair_views(files@) =~= annotation_files(*manifest));
    files
}

// ---------------------------------------------------------------------------
// Upstream MCP tools
// ---------------------------------------------------------------------------

/// The `@param` line of a tool parameter with a non-blank description.
pub open spec fn mcp_param_doc(p: McpParamDef) -> Seq<Seq<char>> {
    if p.description is Some && trim(p.description->0@).len() > 0 {
        seq!["-- @param "@ + p.name@ + " - "@ + trim(p.description->0@)]
    } else {
        Seq::<Seq<char>>::empty()
    }
}

/// The `@param` lines of all tool parameters, in order.
pub open spec fn mcp_param_docs(params: Seq<McpParamDef>) -> Seq<Seq<char>>
    decreases params.len(),
{
    if params.len() == 0 {
        Seq::<Seq<char>>::empty()
    } else {
        mcp_param_docs(params.drop_last()) + mcp_param_doc(params.last())
    }
}

/// `name: type` of a tool parameter, with `?` when optional.
pub open spec fn mcp_param_entry(p: McpParamDef) -> Seq<char> {
    p.name@ + ": "@ + p.luau_type@ + optional_mark(!p.required)
}

/// The parameter table of a tool's signature; empty without parameters.
pub open spec fn mcp_params_text(params: Seq<McpParamDef>) -> Seq<char> {
    if params.len() == 0 {
        Seq::<char>::empty()
    } else {
        "params: { "@ + join(params.map_values(|p: McpParamDef| mcp_param_entry(p)), ", "@) + " }"@
    }
}

/// `function sdk.server.tool(params: { ... }): any end`.
pub open spec fn mcp_signature(t: McpToolDef) -> Seq<char> {
    "function sdk."@ + t.server@ + seq!['.'] + t.name@ + seq!['('] + mcp_params_text(t.params@)
        + "): any end"@
}

/// The annotations of the types a tool refers to, each after a blank line.
pub open spec fn schema_blocks(ss: Seq<SchemaDef>) -> Seq<char> {
    concat(ss.map_values(|s: SchemaDef| "\n\n"@ + schema_annotation(s)))
}

/// The annotation of a tool of an upstream server: its description, its
/// parameter docs and its signature in the server's namespace, then the
/// types of its input and of its output.
pub open spec fn mcp_tool_annotation(t: McpToolDef) -> Seq<char> {
    join(
        summary_lines(t.description) + mcp_param_docs(t.params@) + seq![mcp_signature(t)],
        "\n"@,
    ) + schema_blocks(t.schemas@) + schema_blocks(t.output_schemas@)
}

fn push_schema_blocks(out: &mut String, ss: &Vec<SchemaDef>)
    ensures
        final(out)@ == old(out)@ + schema_blocks(ss@),
{
    let ghost start = out@;
    let ghost f = |s: SchemaDef| "\n\n"@ + schema_annotation(s);
    let mut i: usize = 0;
    proof {
        assert(ss@.take(0).map_values(f) =~= Seq::<Seq<char>>::empty());
    }
    while i < ss.len()
        invariant
            i <= ss@.len(),
            f == (|s: SchemaDef| "\n\n"@ + schema_annotation(s)),
            out@ == start + concat(ss@.take(i as int).map_values(f)),
        decreases ss@.len() - i,
    {
        push_str(out, "\n\n");
        let a = render_schema_annotation(&ss[i]);
        push_str(out, a.as_str());
        proof {
            assert(ss@.take(i + 1).map_values(f) =~= ss@.take(i as int).map_values(f).push(f(ss@[i as int])));
            lemma_concat_push(ss@.take(i as int).map_values(f), f(ss@[i as int]));
        }
        i = i + 1;
    }
    assert(ss@.take(ss@.len() as int) =~= ss@);
}

/// Renders the annotation of a tool of an upstream server.
pub fn render_mcp_tool_annotation(tool: &McpToolDef) -> (r: String)
    ensures
        r@ == mcp_tool_annotation(*tool),
{
    let mut lines: Vec<String> = Vec::new();
    assert(views(lines@) =~= Seq::<Seq<char>>::empty());
    push_summary_lines(&mut lines, &tool.description);
    assert(views(lines@) =~= summary_lines(tool.description));
    let ps = &tool.params;
    let ghost start = views(lines@);
    let mut i: usize = 0;
    while i < ps.len()
        invariant
            i <= ps@.len(),
            views(lines@) == start + mcp_param_docs(ps@.take(i as int)),
        decreases ps@.len() - i,
    {
        proof {
            assert(ps@.take(i + 1).drop_last() =~= ps@.take(i as int));
            assert(ps@.take(i + 1).last() == ps@[i as int]);
        }
        let p = &ps[i];
        let ghost before = views(lines@);
        if let Some(d) = &p.description {
            let t = trim_str(d.as_str());
            if !t.as_str().is_empty() {
                let mut l = owned("-- @param ");
                push_str(&mut l, p.name.as_str());
                push_str(&mut l, " - ");
                push_str(&mut l, t.as_str());
                push_line(&mut lines, l);
            }
        }
        assert(views(lines@) =~= before + mcp_param_doc(ps@[i as int]));
        i = i + 1;
    }
    assert(ps@.take(ps@.len() as int) =~= ps@);
    let mut sig = owned("function sdk.");
    push_str(&mut sig, tool.server.as_str());
    push_char(&mut sig, '.');
    push_str(&mut sig, tool.name.as_str());
    push_char(&mut sig, '(');
    if ps.len() > 0 {
        let mut entries: Vec<String> = Vec::new();
        let mut k: usize = 0;
        while k < ps.len()
            invariant
                k <= ps@.len(),
                *ps == tool.params,
                views(entries@) == ps@.take(k as int).map_values(|p: McpParamDef| mcp_param_entry(p)),
            decreases ps@.len() - k,
        {
            let p = &ps[k];
            let mut e = p.name.clone();
            push_str(&mut e, ": ");
            push_str(&mut e, p.luau_type.as_str());
            if !p.required {
                push_char(&mut e, '?');
            }
            assert(e@ =~= mcp_param_entry(ps@[k as int]));
            let ghost before = views(entries@);
            push_line(&mut entries, e);
            assert(ps@.take(k + 1).map_values(|p: McpParamDef| mcp_param_entry(p)) =~= ps@.take(
                k as int,
            ).map_values(|p: McpParamDef| mcp_param_entry(p)).push(mcp_param_entry(ps@[k as int])));
            k = k + 1;
        }
        assert(ps@.take(ps@.len() as int) =~= ps@);
        push_str(&mut sig, "params: { ");
        let joined = join_strings(&entries, ", ");
        push_str(&mut sig, joined.as_str());
        push_str(&mut sig, " }");
    }
    push_str(&mut sig, "): any end");
    assert(sig@ =~= mcp_signature(*tool));
    let ghost before = views(lines@);
    push_line(&mut lines, sig);
    assert(views(lines@) =~= summary_lines(tool.description) + mcp_param_docs(tool.params@) + seq![
        mcp_signature(*tool),
    ]);
    let mut out = join_strings(&lines, "\n");
    push_schema_blocks(&mut out, &tool.schemas);
    push_schema_blocks(&mut out, &tool.output_schemas);
    out
}

} // verus!
