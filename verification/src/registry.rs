//! How a call of an SDK function becomes an HTTP request: the call limit,
//! the calling convention, required and frozen parameters, validation, and
//! where each parameter travels.
use vstd::prelude::*;
use crate::http::{
    auth_injection, deref_opt, injection, Attached, AuthCredentials, AuthCredentialsMap,
    AuthInjection,
};
use crate::manifest::{ApiConfig, FunctionDef, HttpMethod, Manifest, ParamDef, ParamLocation};
use crate::namemap::NameMap;
use crate::text::{decimal, owned, pair_views, push_decimal, push_str, replace_all, replace_str, str_eq};
use crate::validate::{param_check, validate_param_value, AddressChecks};

verus! {

broadcast use vstd::seq_lib::group_seq_properties;

/// A value a script passed for a parameter, as it is sent, with what the
/// address parsers said of it.
#[derive(Debug)]
pub struct ParamArg {
    pub text: String,
    pub addr: AddressChecks,
}

/// The request a call of an SDK function makes.
#[derive(Debug)]
pub struct RequestPlan {
    pub method: HttpMethod,
    pub url: String,
    pub query: Vec<(String, String)>,
    pub headers: Vec<(String, String)>,
    /// Which argument of the call holds the request body, if the function
    /// takes one.
    pub body_arg: Option<usize>,
    pub auth: AuthInjection,
}

/// Some parameter is not frozen, so the call takes a parameter table first.
pub open spec fn has_visible_params(params: Seq<ParamDef>) -> bool {
    exists|i: int| 0 <= i < params.len() && (#[trigger] params[i]).frozen_value is None
}

/// The call limit is reached.
pub open spec fn limit_reached(calls: int, max: Option<usize>) -> bool {
    max matches Some(m) && calls >= m
}

/// The message when the call limit is reached.
pub open spec fn limit_error(max: nat) -> Seq<char> {
    "API call limit exceeded (max "@ + decimal(max) + " calls)"@
}

/// The message when the first argument is neither a table nor nil.
pub open spec fn first_arg_error(func: Seq<char>, got: Seq<char>) -> Seq<char> {
    "expected table as first argument to '"@ + func + "', got "@ + got
}

/// The message when a required parameter is missing.
pub open spec fn missing_error(param: Seq<char>, func: Seq<char>) -> Seq<char> {
    "missing required parameter '"@ + param + "' for function '"@ + func + "'"@
}

/// The path template, the query pairs and the header pairs of a request.
pub struct Parts {
    pub path: Seq<char>,
    pub query: Seq<(Seq<char>, Seq<char>)>,
    pub headers: Seq<(Seq<char>, Seq<char>)>,
}

/// Puts a parameter's value where the parameter travels: into the path in
/// place of every `{name}`, or after the query or header pairs so far.
pub open spec fn place(parts: Parts, p: ParamDef, v: Seq<char>) -> Parts {
    match p.location {
        ParamLocation::Path => Parts {
            path: replace_all(parts.path, "{"@ + p.name@ + "}"@, v),
            ..parts
        },
        ParamLocation::Query => Parts { query: parts.query.push((p.name@, v)), ..parts },
        ParamLocation::Header => Parts { headers: parts.headers.push((p.name@, v)), ..parts },
    }
}

/// One parameter: a frozen one is sent with its fixed value unchecked; a
/// given one is validated and sent; a missing one is an error if required
/// and left out otherwise.
pub open spec fn param_step(
    acc: Result<Parts, Seq<char>>,
    func: Seq<char>,
    p: ParamDef,
    args: Map<Seq<char>, ParamArg>,
) -> Result<Parts, Seq<char>> {
    match acc {
        Err(e) => Err(e),
        Ok(parts) => match p.frozen_value {
            Some(f) => Ok(place(parts, p, f@)),
            None => if args.dom().contains(p.name@) {
                match param_check(func, p, args[p.name@].text@, args[p.name@].addr) {
                    Err(e) => Err(e),
                    Ok(_) => Ok(place(parts, p, args[p.name@].text@)),
                }
            } else if p.required {
                Err(missing_error(p.name@, func))
            } else {
                Ok(parts)
            },
        },
    }
}

/// The parameters in order, starting from the path template.
pub open spec fn collect_params(
    func: Seq<char>,
    params: Seq<ParamDef>,
    args: Map<Seq<char>, ParamArg>,
    path: Seq<char>,
) -> Result<Parts, Seq<char>>
    decreases params.len(),
{
    if params.len() == 0 {
        Ok(Parts { path, query: Seq::empty(), headers: Seq::empty() })
    } else {
        param_step(collect_params(func, params.drop_last(), args, path), func, params.last(), args)
    }
}

/// Once a parameter fails, the call fails with that error.
proof fn lemma_error_persists(
    func: Seq<char>,
    params: Seq<ParamDef>,
    args: Map<Seq<char>, ParamArg>,
    path: Seq<char>,
    k: int,
)
    requires
        0 <= k <= params.len(),
        collect_params(func, params.take(k), args, path) is Err,
    ensures
        collect_params(func, params, args, path) == collect_params(func, params.take(k), args, path),
    decreases params.len(),
{
    if k == params.len() {
        assert(params.take(k) =~= params);
    } else {
        assert(params.drop_last().take(k) =~= params.take(k));
        lemma_error_persists(func, params.drop_last(), args, path, k);
    }
}

/// Why one parameter fails a call, if it does: a frozen one never fails; a
/// given one fails its check; a missing one fails when it is required.
pub open spec fn param_failure(func: Seq<char>, p: ParamDef, args: Map<Seq<char>, ParamArg>) -> Option<
    Seq<char>,
> {
    match p.frozen_value {
        Some(_) => None,
        None => if args.dom().contains(p.name@) {
            match param_check(func, p, args[p.name@].text@, args[p.name@].addr) {
                Err(e) => Some(e),
                Ok(_) => None,
            }
        } else if p.required {
            Some(missing_error(p.name@, func))
        } else {
            None
        },
    }
}

proof fn lemma_step_fails(
    parts: Parts,
    func: Seq<char>,
    p: ParamDef,
    args: Map<Seq<char>, ParamArg>,
)
    ensures
        param_failure(func, p, args) is None ==> param_step(Ok(parts), func, p, args) is Ok,
        param_failure(func, p, args) matches Some(e) ==> param_step(Ok(parts), func, p, args)
            == Err::<Parts, Seq<char>>(e),
{
}

/// Arguments are checked in parameter order and the first failure is the
/// call's error: the call's parameters are collected exactly when no
/// parameter fails, and otherwise fail with the error of the first one that
/// does.
pub proof fn law_first_failing_param(
    func: Seq<char>,
    params: Seq<ParamDef>,
    args: Map<Seq<char>, ParamArg>,
    path: Seq<char>,
)
    ensures
        (forall|i: int| 0 <= i < params.len() ==> param_failure(func, #[trigger] params[i], args) is None)
            ==> collect_params(func, params, args, path) is Ok,
        forall|k: int|
            0 <= k < params.len() && param_failure(func, #[trigger] params[k], args) is Some && (forall|j: int|
                0 <= j < k ==> param_failure(func, #[trigger] params[j], args) is None)
                ==> collect_params(func, params, args, path) == Err::<Parts, Seq<char>>(
                param_failure(func, params[k], args)->0,
            ),
    decreases params.len(),
{
    if params.len() > 0 {
        let n = params.len() - 1;
        let init = params.drop_last();
        law_first_failing_param(func, init, args, path);
        assert forall|i: int| 0 <= i < init.len() implies init[i] == params[i] by {}
        match collect_params(func, init, args, path) {
            Ok(parts) => lemma_step_fails(parts, func, params[n], args),
            Err(_) => {},
        }
        assert forall|k: int|
            0 <= k < params.len() && param_failure(func, #[trigger] params[k], args) is Some && (forall|j: int|
                0 <= j < k ==> param_failure(func, #[trigger] params[j], args) is None) implies collect_params(
            func,
            params,
            args,
            path,
        ) == Err::<Parts, Seq<char>>(param_failure(func, params[k], args)->0) by {
            if k < n {
                assert(init[k] == params[k]);
                assert forall|j: int| 0 <= j < k implies param_failure(func, #[trigger] init[j], args) is None by {
                    assert(init[j] == params[j]);
                }
            } else {
                assert forall|i: int| 0 <= i < init.len() implies param_failure(func, #[trigger] init[i], args) is None by {
                    assert(init[i] == params[i]);
                }
            }
        }
        if forall|i: int| 0 <= i < params.len() ==> param_failure(func, #[trigger] params[i], args) is None {
            assert forall|i: int| 0 <= i < init.len() implies param_failure(func, #[trigger] init[i], args) is None by {
                assert(init[i] == params[i]);
            }
        }
    }
}

/// An argument named after a frozen parameter changes nothing: the frozen
/// value is sent whatever the script passes under that name.
pub proof fn law_frozen_args_ignored(
    func: Seq<char>,
    params: Seq<ParamDef>,
    args: Map<Seq<char>, ParamArg>,
    path: Seq<char>,
    name: Seq<char>,
)
    requires
        forall|i: int|
            0 <= i < params.len() && (#[trigger] params[i]).name@ == name ==> params[i].frozen_value is Some,
    ensures
        collect_params(func, params, args, path) == collect_params(func, params, args.remove(name), path),
    decreases params.len(),
{
    if params.len() > 0 {
        assert forall|i: int|
            0 <= i < params.drop_last().len() && (#[trigger] params.drop_last()[i]).name@ == name
            implies params.drop_last()[i].frozen_value is Some by {
            assert(params.drop_last()[i] == params[i]);
        }
        law_frozen_args_ignored(func, params.drop_last(), args, path, name);
        let p = params.last();
        assert(params[params.len() - 1] == p);
        if p.frozen_value is None {
            assert(p.name@ != name);
        }
    }
}

/// When every parameter is frozen, the arguments do not matter.
pub proof fn law_all_frozen_ignores_args(
    func: Seq<char>,
    params: Seq<ParamDef>,
    a: Map<Seq<char>, ParamArg>,
    b: Map<Seq<char>, ParamArg>,
    path: Seq<char>,
)
    requires
        forall|i: int| 0 <= i < params.len() ==> (#[trigger] params[i]).frozen_value is Some,
    ensures
        collect_params(func, params, a, path) == collect_params(func, params, b, path),
    decreases params.len(),
{
    if params.len() > 0 {
        assert forall|i: int| 0 <= i < params.drop_last().len() implies (
        #[trigger] params.drop_last()[i]).frozen_value is Some by {
            assert(params.drop_last()[i] == params[i]);
        }
        law_all_frozen_ignores_args(func, params.drop_last(), a, b, path);
        assert(params[params.len() - 1] == params.last());
    }
}

/// The URL and the query and header pairs of a call, or its error.
pub open spec fn call_outcome(
    func: FunctionDef,
    base_url: Seq<char>,
    bad_first_arg: Option<String>,
    args: Map<Seq<char>, ParamArg>,
    calls: int,
    max: Option<usize>,
) -> Result<Parts, Seq<char>> {
    if limit_reached(calls, max) {
        Err(limit_error(max->0 as nat))
    } else if has_visible_params(func.parameters@) && bad_first_arg is Some {
        Err(first_arg_error(func.name@, bad_first_arg->0@))
    } else {
        match collect_params(func.name@, func.parameters@, args, func.path@) {
            Err(e) => Err(e),
            Ok(parts) => Ok(Parts { path: base_url + parts.path, ..parts }),
        }
    }
}

/// Which argument holds the request body: the second when a parameter table
/// comes first, else the first.
pub open spec fn body_arg_of(func: FunctionDef) -> Option<usize> {
    if func.request_body is Some {
        Some(if has_visible_params(func.parameters@) { 1usize } else { 0usize })
    } else {
        None
    }
}

/// The credentials configured for an API, or none.
pub open spec fn credentials_for(m: Map<Seq<char>, AuthCredentials>, api: Seq<char>) -> AuthCredentials {
    if m.dom().contains(api) {
        m[api]
    } else {
        AuthCredentials::NoAuth
    }
}

/// Whether a function takes a parameter table first: some parameter is not
/// frozen.
pub fn visible_params(params: &Vec<ParamDef>) -> (r: bool)
    ensures
        r == has_visible_params(params@),
{
    let mut i: usize = 0;
    while i < params.len()
        invariant
            i <= params@.len(),
            forall|j: int| 0 <= j < i ==> (#[trigger] params@[j]).frozen_value is Some,
        decreases params@.len() - i,
    {
        if params[i].frozen_value.is_none() {
            return true;
        }
        i = i + 1;
    }
    false
}

fn place_value(
    path: &mut String,
    query: &mut Vec<(String, String)>,
    headers: &mut Vec<(String, String)>,
    p: &ParamDef,
    v: String,
)
    ensures
        place(Parts { path: old(path)@, query: pair_views(old(query)@), headers: pair_views(old(headers)@) }, *p, v@)
            == (Parts { path: final(path)@, query: pair_views(final(query)@), headers: pair_views(final(headers)@) }),
{
    match p.location {
        ParamLocation::Path => {
            let mut pat = owned("{");
            push_str(&mut pat, p.name.as_str());
            push_str(&mut pat, "}");
            proof {
                reveal_strlit("{");
            }
            let replaced = replace_str(path.as_str(), pat.as_str(), v.as_str());
            *path = replaced;
        },
        ParamLocation::Query => {
            let ghost before = query@;
            query.push((p.name.clone(), v));
            assert(pair_views(query@) =~= pair_views(before).push((p.name@, v@)));
        },
        ParamLocation::Header => {
            let ghost before = headers@;
            headers.push((p.name.clone(), v));
            assert(pair_views(headers@) =~= pair_views(before).push((p.name@, v@)));
        },
    }
}

fn clone_arg_text(a: &ParamArg) -> (r: String)
    ensures
        r@ == a.text@,
{
    a.text.clone()
}

fn collect(func: &FunctionDef, args: &NameMap<ParamArg>) -> (r: Result<
    (String, Vec<(String, String)>, Vec<(String, String)>),
    String,
>)
    ensures
        match (r, collect_params(func.name@, func.parameters@, args@, func.path@)) {
            (Ok((p, q, h)), Ok(parts)) => p@ == parts.path && pair_views(q@) == parts.query
                && pair_views(h@) == parts.headers,
            (Err(m), Err(e)) => m@ == e,
            _ => false,
        },
{
    let params = &func.parameters;
    let mut path = func.path.clone();
    let mut query: Vec<(String, String)> = Vec::new();
    let mut headers: Vec<(String, String)> = Vec::new();
    let mut i: usize = 0;
    proof {
        assert(pair_views(query@) =~= Seq::<(Seq<char>, Seq<char>)>::empty());
        assert(pair_views(headers@) =~= Seq::<(Seq<char>, Seq<char>)>::empty());
        assert(params@.take(0) =~= Seq::<ParamDef>::empty());
    }
    while i < params.len()
        invariant
            i <= params@.len(),
            *params == func.parameters,
            collect_params(func.name@, params@.take(i as int), args@, func.path@) == Ok::<
                Parts,
                Seq<char>,
            >(Parts { path: path@, query: pair_views(query@), headers: pair_views(headers@) }),
        decreases params@.len() - i,
    {
        let p = &params[i];
        proof {
            assert(params@.take(i + 1).drop_last() =~= params@.take(i as int));
            assert(params@.take(i + 1).last() == params@[i as int]);
        }
        let ghost acc = Parts { path: path@, query: pair_views(query@), headers: pair_views(headers@) };
        match &p.frozen_value {
            Some(f) => {
                place_value(&mut path, &mut query, &mut headers, p, f.clone());
            },
            None => {
                proof {
                    args.lemma_view();
                }
                match args.get(p.name.as_str()) {
                    Some(a) => {
                        match validate_param_value(func.name.as_str(), p, a.text.as_str(), a.addr) {
                            Err(e) => {
                                proof {
                                    lemma_error_persists(func.name@, params@, args@, func.path@, i + 1);
                                }
                                return Err(e);
                            },
                            Ok(()) => {
                                let v = clone_arg_text(a);
                                place_value(&mut path, &mut query, &mut headers, p, v);
                            },
                        }
                    },
                    None => {
                        if p.required {
                            let mut msg = owned("missing required parameter '");
                            push_str(&mut msg, p.name.as_str());
                            push_str(&mut msg, "' for function '");
                            push_str(&mut msg, func.name.as_str());
                            push_str(&mut msg, "'");
                            proof {
                                lemma_error_persists(func.name@, params@, args@, func.path@, i + 1);
                            }
                            return Err(msg);
                        }
                    },
                }
            },
        }
        i = i + 1;
    }
    proof {
        assert(params@.take(params@.len() as int) =~= params@);
    }
    Ok((path, query, headers))
}

/// Plans the request of one call of an SDK function, or says why the call
/// fails. `bad_first_arg` is the type of the first argument when it is
/// neither a table nor nil; `args` holds the entries of the parameter table
/// (empty when there is none); `calls_made` counts the calls made so far.
pub fn plan_call(
    func: &FunctionDef,
    api: &ApiConfig,
    credentials: &AuthCredentialsMap,
    bad_first_arg: &Option<String>,
    args: &NameMap<ParamArg>,
    calls_made: usize,
    max_calls: Option<usize>,
) -> (r: Result<RequestPlan, String>)
    ensures
        match (r, call_outcome(*func, api.base_url@, *bad_first_arg, args@, calls_made as int, max_calls)) {
            (Ok(plan), Ok(parts)) => {
                &&& plan.url@ == parts.path
                &&& pair_views(plan.query@) == parts.query
                &&& pair_views(plan.headers@) == parts.headers
                &&& plan.method == func.method
                &&& plan.body_arg == body_arg_of(*func)
                &&& plan.auth@ == injection(api.auth, credentials_for(credentials@, func.api@))
            },
            (Err(m), Err(e)) => m@ == e,
            _ => false,
        },
{
    if let Some(max) = max_calls {
        if calls_made >= max {
            let mut msg = owned("API call limit exceeded (max ");
            push_decimal(&mut msg, max as u64);
            push_str(&mut msg, " calls)");
            return Err(msg);
        }
    }
    let visible = visible_params(&func.parameters);
    if visible {
        if let Some(t) = bad_first_arg {
            let mut msg = owned("expected table as first argument to '");
            push_str(&mut msg, func.name.as_str());
            push_str(&mut msg, "', got ");
            push_str(&mut msg, t.as_str());
            return Err(msg);
        }
    }
    match collect(func, args) {
        Err(e) => Err(e),
        Ok((path, query, headers)) => {
            let mut url = api.base_url.clone();
            push_str(&mut url, path.as_str());
            let body_arg = if func.request_body.is_some() {
                Some(if visible { 1usize } else { 0usize })
            } else {
                None
            };
            proof {
                credentials.lemma_view();
            }
            let auth = match credentials.get(func.api.as_str()) {
                Some(c) => auth_injection(api.auth.as_ref(), c),
                None => auth_injection(api.auth.as_ref(), &AuthCredentials::NoAuth),
            };
            Ok(RequestPlan { method: func.method, url, query, headers, body_arg, auth })
        },
    }
}

/// Index of the last API named `name` (later entries win).
pub open spec fn last_api_index(apis: Seq<ApiConfig>, name: Seq<char>) -> Option<int>
    decreases apis.len(),
{
    if apis.len() == 0 {
        None
    } else if apis.last().name@ == name {
        Some(apis.len() - 1)
    } else {
        last_api_index(apis.drop_last(), name)
    }
}

/// Finds the last API named `name`.
pub fn find_api(apis: &Vec<ApiConfig>, name: &str) -> (r: Option<usize>)
    ensures
        match r {
            Some(i) => last_api_index(apis@, name@) == Some(i as int),
            None => last_api_index(apis@, name@) is None,
        },
{
    let mut k: usize = apis.len();
    while k > 0
        invariant
            k <= apis@.len(),
            last_api_index(apis@, name@) == last_api_index(apis@.take(k as int), name@),
        decreases k,
    {
        assert(apis@.take(k as int).drop_last() =~= apis@.take(k - 1));
        if str_eq(apis[k - 1].name.as_str(), name) {
            return Some(k - 1);
        }
        k = k - 1;
    }
    None
}

/// The message when a function names an API the manifest lacks.
pub open spec fn unknown_api_error(func: Seq<char>, api: Seq<char>) -> Seq<char> {
    "function '"@ + func + "' references unknown API '"@ + api + "'"@
}

/// For every function in order, the index of its API, or the error of the
/// first function whose API is unknown.
pub fn resolve_function_apis(manifest: &Manifest) -> (r: Result<Vec<usize>, String>)
    ensures
        match r {
            Ok(ix) => ix@.len() == manifest.functions@.len() && forall|i: int|
                0 <= i < ix@.len() ==> last_api_index(manifest.apis@, manifest.functions@[i].api@)
                    == Some(#[trigger] ix@[i] as int),
            Err(m) => exists|i: int|
                0 <= i < manifest.functions@.len() && last_api_index(
                    manifest.apis@,
                    manifest.functions@[i].api@,
                ) is None && m@ == unknown_api_error(
                    manifest.functions@[i].name@,
                    manifest.functions@[i].api@,
                ) && forall|j: int|
                    0 <= j < i ==> (#[trigger] last_api_index(
                        manifest.apis@,
                        manifest.functions@[j].api@,
                    )) is Some,
        },
{
    let fs = &manifest.functions;
    let mut ix: Vec<usize> = Vec::new();
    let mut i: usize = 0;
    while i < fs.len()
        invariant
            i <= fs@.len(),
            *fs == manifest.functions,
            ix@.len() == i,
            forall|j: int|
                0 <= j < i ==> last_api_index(manifest.apis@, fs@[j].api@) == Some(
                    #[trigger] ix@[j] as int,
                ),
        decreases fs@.len() - i,
    {
        match find_api(&manifest.apis, fs[i].api.as_str()) {
            Some(k) => {
                ix.push(k);
            },
            None => {
                let mut msg = owned("function '");
                push_str(&mut msg, fs[i].name.as_str());
                push_str(&mut msg, "' references unknown API '");
                push_str(&mut msg, fs[i].api.as_str());
                push_str(&mut msg, "'");
                proof {
                    assert forall|j: int| 0 <= j < i implies (#[trigger] last_api_index(
                        manifest.apis@,
                        manifest.functions@[j].api@,
                    )) is Some by {
                        assert(last_api_index(manifest.apis@, fs@[j].api@) == Some(ix@[j] as int));
                    }
                }
                return Err(msg);
            },
        }
        i = i + 1;
    }
    Ok(ix)
}

} // verus!
