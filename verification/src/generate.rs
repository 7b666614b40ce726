//! The computing steps of SDK generation: naming each API, freezing
//! configured parameter values into its functions, and gathering the
//! manifests of several APIs into one.
use vstd::prelude::*;
use crate::annotations::is_visible;
use crate::config::merge_frozen_params;
use crate::manifest::{FunctionDef, Manifest, ParamDef};
use crate::namemap::NameMap;
use crate::parser::{api_name, derive_api_name};

verus! {

broadcast use vstd::seq_lib::group_seq_properties;

/// The name of an API: the one given, else the one derived from its title.
pub open spec fn api_name_for(explicit: Option<String>, title: Seq<char>) -> Seq<char> {
    match explicit {
        Some(n) => n@,
        None => api_name(title),
    }
}

/// Names an API (see `api_name_for`).
pub fn name_api(explicit: &Option<String>, title: &str) -> (r: String)
    ensures
        r@ == api_name_for(*explicit, title@),
{
    match explicit {
        Some(n) => n.clone(),
        None => derive_api_name(title),
    }
}

/// The frozen values of an API: the global ones, overridden by those
/// configured for the API.
pub open spec fn frozen_for(
    global: Map<Seq<char>, String>,
    per_api: Map<Seq<char>, NameMap<String>>,
    api: Seq<char>,
) -> Map<Seq<char>, String> {
    if per_api.dom().contains(api) {
        global.union_prefer_right(per_api[api]@)
    } else {
        global
    }
}

/// Computes `frozen_for`.
pub fn frozen_params_for_api(
    global: &NameMap<String>,
    per_api: &NameMap<NameMap<String>>,
    api: &str,
) -> (r: NameMap<String>)
    ensures
        r@ == frozen_for(global@, per_api@, api@),
{
    let r = merge_frozen_params(Some(global), per_api.get(api));
    proof {
        if !per_api@.dom().contains(api@) {
            assert(global@.union_prefer_right(Map::<Seq<char>, String>::empty()) =~= global@);
        }
    }
    r
}

/// A parameter once the frozen values are applied: its value is frozen when
/// its name has one; nothing else changes.
pub open spec fn freeze_param(p: ParamDef, frozen: Map<Seq<char>, String>) -> ParamDef {
    if frozen.dom().contains(p.name@) {
        ParamDef { frozen_value: Some(frozen[p.name@]), ..p }
    } else {
        p
    }
}

/// The parameters once the frozen values are applied.
pub open spec fn freeze_params(ps: Seq<ParamDef>, frozen: Map<Seq<char>, String>) -> Seq<ParamDef> {
    ps.map_values(|p: ParamDef| freeze_param(p, frozen))
}

/// `g` is `f` with the frozen values applied to its parameters.
pub open spec fn frozen_function(g: FunctionDef, f: FunctionDef, frozen: Map<Seq<char>, String>) -> bool {
    &&& g == FunctionDef { parameters: g.parameters, ..f }
    &&& g.parameters@ == freeze_params(f.parameters@, frozen)
}

fn freeze_function(f: FunctionDef, frozen: &NameMap<String>) -> (g: FunctionDef)
    ensures
        frozen_function(g, f, frozen@),
{
    let mut g = f;
    let mut rest: Vec<ParamDef> = Vec::new();
    std::mem::swap(&mut rest, &mut g.parameters);
    let ghost ps = rest@;
    let n = rest.len();
    let mut out: Vec<ParamDef> = Vec::new();
    let mut i: usize = 0;
    while rest.len() > 0
        invariant
            ps.len() == n,
            i + rest@.len() == ps.len(),
            rest@ == ps.skip(i as int),
            out@ == freeze_params(ps.take(i as int), frozen@),
        decreases rest@.len(),
    {
        let mut p = rest.remove(0);
        assert(p == ps[i as int]);
        match frozen.get(p.name.as_str()) {
            Some(v) => {
                p.frozen_value = Some(v.clone());
            },
            None => {},
        }
        out.push(p);
        proof {
            assert(ps.take(i + 1) =~= ps.take(i as int).push(ps[i as int]));
            assert(rest@ =~= ps.skip(i + 1));
        }
        i = i + 1;
    }
    assert(ps.take(i as int) =~= ps);
    g.parameters = out;
    g
}

/// Applies frozen values to the parameters of every function of a
/// manifest; the rest of the manifest stays as it was.
pub fn apply_frozen_params(manifest: &mut Manifest, frozen: &NameMap<String>)
    ensures
        *final(manifest) == (Manifest { functions: final(manifest).functions, ..*old(manifest) }),
        final(manifest).functions@.len() == old(manifest).functions@.len(),
        forall|i: int|
            0 <= i < old(manifest).functions@.len() ==> frozen_function(
                #[trigger] final(manifest).functions@[i],
                old(manifest).functions@[i],
                frozen@,
            ),
{
    let mut rest: Vec<FunctionDef> = Vec::new();
    std::mem::swap(&mut rest, &mut manifest.functions);
    let ghost fs = rest@;
    let n = rest.len();
    let mut out: Vec<FunctionDef> = Vec::new();
    let mut i: usize = 0;
    while rest.len() > 0
        invariant
            fs.len() == n,
            i + rest@.len() == fs.len(),
            rest@ == fs.skip(i as int),
            out@.len() == i,
            forall|k: int| 0 <= k < i ==> frozen_function(#[trigger] out@[k], fs[k], frozen@),
        decreases rest@.len(),
    {
        let f = rest.remove(0);
        assert(f == fs[i as int]);
        let g = freeze_function(f, frozen);
        out.push(g);
        assert(rest@ =~= fs.skip(i + 1));
        i = i + 1;
    }
    manifest.functions = out;
}

/// Adds the APIs, functions and schemas of `part` after those of
/// `combined`.
pub fn append_manifest(combined: &mut Manifest, part: Manifest)
    ensures
        final(combined).apis@ == old(combined).apis@ + part.apis@,
        final(combined).functions@ == old(combined).functions@ + part.functions@,
        final(combined).schemas@ == old(combined).schemas@ + part.schemas@,
        final(combined).mcp_servers == old(combined).mcp_servers,
{
    let mut part = part;
    combined.apis.append(&mut part.apis);
    combined.functions.append(&mut part.functions);
    combined.schemas.append(&mut part.schemas);
}

// ---------------------------------------------------------------------------
// Laws
// ---------------------------------------------------------------------------

/// Freezing with no values changes no parameter.
pub proof fn law_freeze_nothing(ps: Seq<ParamDef>)
    ensures
        freeze_params(ps, Map::empty()) == ps,
{
    assert(freeze_params(ps, Map::empty()) =~= ps);
}

/// Freezing twice with the same values is freezing once.
pub proof fn law_freeze_idempotent(ps: Seq<ParamDef>, frozen: Map<Seq<char>, String>)
    ensures
        freeze_params(freeze_params(ps, frozen), frozen) == freeze_params(ps, frozen),
{
    assert(freeze_params(freeze_params(ps, frozen), frozen) =~= freeze_params(ps, frozen));
}

/// A parameter whose name has a frozen value is hidden from callers and
/// carries that value; any other parameter stays exactly as it was.
pub proof fn law_frozen_params_hidden(p: ParamDef, frozen: Map<Seq<char>, String>)
    ensures
        frozen.dom().contains(p.name@) ==> !is_visible(freeze_param(p, frozen))
            && freeze_param(p, frozen).frozen_value == Some(frozen[p.name@]),
        !frozen.dom().contains(p.name@) ==> freeze_param(p, frozen) == p,
        freeze_param(p, frozen).name == p.name,
{
}

} // verus!
