//! The runtime configuration (which WASI hosts to link, and the backend
//! serving each) and the plan derived from it: the fields of the runtime
//! context and store, and the hosts linked and served.

use vstd::prelude::*;

use crate::cache::{chars_to_string, lower, lower_char, string_chars};
use crate::error::owned;
use crate::guest::all_ascii;

verus! {

/// A type path, as the token text of its segments: a leading `::` is an
/// empty first segment, and a segment's generic arguments are part of its
/// text. Two paths are the same exactly when these texts are.
pub open spec fn path_view(p: Vec<String>) -> Seq<Seq<char>> {
    p@.map_values(|s: String| s@)
}

/// Whether `c` is uppercase (`char::is_uppercase`).
pub uninterp spec fn uppercase(c: char) -> bool;

/// The lowercase mapping of `c` (`char::to_lowercase`).
pub uninterp spec fn lowercase_char(c: char) -> Seq<char>;

/// The lowercase mapping of `s` (`str::to_lowercase`).
pub uninterp spec fn lowercase_str(s: Seq<char>) -> Seq<char>;

/// `char::is_uppercase`: whether `c` has the Unicode `Uppercase` property;
/// for ASCII, exactly the letters `A` to `Z`.
#[verifier::external_body]
pub(crate) fn is_uppercase(c: char) -> (res: bool)
    ensures
        res == uppercase(c),
        (c as u32) < 128 ==> (res <==> ('A' <= c && c <= 'Z')),
{
    c.is_uppercase()
}

/// `char::to_lowercase`, collected: the lowercase mapping of `c`; for ASCII,
/// `c` with `A` to `Z` mapped to `a` to `z`.
#[verifier::external_body]
fn char_to_lowercase(c: char) -> (res: String)
    ensures
        res@ == lowercase_char(c),
        (c as u32) < 128 ==> res@ == seq![lower_char(c)],
{
    c.to_lowercase().collect::<String>()
}

/// `str::to_lowercase`: the lowercase mapping of `s`; for ASCII text, each
/// letter `A` to `Z` mapped to `a` to `z`.
#[verifier::external_body]
pub(crate) fn str_to_lowercase(s: &str) -> (res: String)
    ensures
        res@ == lowercase_str(s@),
        all_ascii(s@) ==> res@ == lower(s@),
{
    s.to_lowercase()
}

/// The snake-case field name of a type name: each uppercase character is
/// lowercased and, unless it starts the name, preceded by `_`.
pub open spec fn snake_step(acc: Seq<char>, c: char) -> Seq<char> {
    if uppercase(c) {
        (if acc.len() > 0 {
            acc.push('_')
        } else {
            acc
        }) + lowercase_char(c)
    } else {
        acc.push(c)
    }
}

pub open spec fn snake(s: Seq<char>) -> Seq<char>
    decreases s.len(),
{
    if s.len() == 0 {
        Seq::empty()
    } else {
        snake_step(snake(s.drop_last()), s.last())
    }
}

/// The context field that holds a backend: its type name in snake case, or
/// `field` for an empty path.
pub open spec fn field_ident_spec(path: Seq<Seq<char>>) -> Seq<char> {
    if path.len() == 0 {
        "field"@
    } else {
        snake(path.last())
    }
}

/// `s` with every occurrence of `pat` replaced by `rep`, scanning from the
/// left (`str::replace`).
pub open spec fn replace_all(s: Seq<char>, pat: Seq<char>, rep: Seq<char>) -> Seq<char>
    decreases s.len(),
{
    if s.len() == 0 {
        s
    } else if pat.len() > 0 && s.len() >= pat.len() && s.take(pat.len() as int) == pat {
        rep + replace_all(s.skip(pat.len() as int), pat, rep)
    } else {
        seq![s[0]] + replace_all(s.skip(1), pat, rep)
    }
}

/// The identifier of a host's module and store field: its type name with
/// `Wasi` replaced by `prefix`, lowercased; `wasi` for an empty path.
pub open spec fn wasi_ident_spec(path: Seq<Seq<char>>, prefix: Seq<char>) -> Seq<char> {
    if path.len() == 0 {
        "wasi"@
    } else {
        lowercase_str(replace_all(path.last(), "Wasi"@, prefix))
    }
}

/// Converts a type name to the snake-case name of the field holding it.
pub fn field_ident(path: &Vec<String>) -> (res: String)
    ensures
        res@ == field_ident_spec(path_view(*path)),
{
    if path.len() == 0 {
        return owned("field");
    }
    let name = string_chars(&path[path.len() - 1]);
    assert(name@ == path_view(*path).last());
    let mut out: Vec<char> = Vec::new();
    let mut i: usize = 0;
    while i < name.len()
        invariant
            i <= name.len(),
            out@ == snake(name@.take(i as int)),
        decreases name.len() - i,
    {
        assert(name@.take(i + 1).drop_last() =~= name@.take(i as int));
        let c = name[i];
        if is_uppercase(c) {
            if out.len() > 0 {
                out.push('_');
            }
            let lc = string_chars(&char_to_lowercase(c));
            let ghost before = out@;
            let mut k: usize = 0;
            while k < lc.len()
                invariant
                    k <= lc.len(),
                    out@ == before + lc@.take(k as int),
                decreases lc.len() - k,
            {
                out.push(lc[k]);
                k = k + 1;
                assert(out@ =~= before + lc@.take(k as int));
            }
            assert(lc@.take(lc.len() as int) =~= lc@);
        } else {
            out.push(c);
        }
        i = i + 1;
    }
    assert(name@.take(name.len() as int) =~= name@);
    chars_to_string(&out)
}

proof fn lemma_replace_skip_match(s: Seq<char>, i: int, pat: Seq<char>, rep: Seq<char>)
    requires
        0 <= i < s.len(),
        pat.len() > 0,
        i + pat.len() <= s.len(),
        s.subrange(i, i + pat.len()) == pat,
    ensures
        replace_all(s.skip(i), pat, rep) == rep + replace_all(s.skip(i + pat.len()), pat, rep),
{
    assert(s.skip(i).take(pat.len() as int) =~= s.subrange(i, i + pat.len()));
    assert(s.skip(i).skip(pat.len() as int) =~= s.skip(i + pat.len()));
}

proof fn lemma_replace_skip_other(s: Seq<char>, i: int, pat: Seq<char>, rep: Seq<char>)
    requires
        0 <= i < s.len(),
        !(pat.len() > 0 && i + pat.len() <= s.len() && s.subrange(i, i + pat.len()) == pat),
    ensures
        replace_all(s.skip(i), pat, rep) == seq![s[i]] + replace_all(s.skip(i + 1), pat, rep),
{
    assert(s.skip(i).skip(1) =~= s.skip(i + 1));
    if pat.len() > 0 && s.skip(i).len() >= pat.len() {
        assert(s.skip(i).take(pat.len() as int) =~= s.subrange(i, i + pat.len()));
    }
}

/// `s` with every occurrence of `pat` replaced by `rep`.
pub fn replace_str(s: &Vec<char>, pat: &Vec<char>, rep: &Vec<char>) -> (res: Vec<char>)
    ensures
        res@ == replace_all(s@, pat@, rep@),
{
    let mut out: Vec<char> = Vec::new();
    let mut i: usize = 0;
    assert(s@.skip(0) =~= s@);
    while i < s.len()
        invariant
            i <= s.len(),
            out@ + replace_all(s@.skip(i as int), pat@, rep@) == replace_all(s@, pat@, rep@),
        decreases s.len() - i,
    {
        let n = pat.len();
        let mut matched = n > 0 && n <= s.len() - i;
        if matched {
            let mut k: usize = 0;
            while k < n
                invariant
                    n == pat.len(),
                    i + n <= s.len(),
                    k <= n,
                    matched ==> forall|j: int| 0 <= j < k ==> s@[i + j] == pat@[j],
                    !matched ==> !(s@.subrange(i as int, i + n) == pat@),
                decreases n - k,
            {
                if s[i + k] != pat[k] {
                    assert(s@.subrange(i as int, i + n)[k as int] != pat@[k as int]);
                    matched = false;
                }
                k = k + 1;
            }
            if matched {
                assert(s@.subrange(i as int, i + n) =~= pat@);
            }
        }
        if matched {
            proof {
                lemma_replace_skip_match(s@, i as int, pat@, rep@);
            }
            let ghost before = out@;
            let mut k: usize = 0;
            while k < rep.len()
                invariant
                    k <= rep.len(),
                    out@ == before + rep@.take(k as int),
                decreases rep.len() - k,
            {
                out.push(rep[k]);
                k = k + 1;
                assert(out@ =~= before + rep@.take(k as int));
            }
            assert(rep@.take(rep.len() as int) =~= rep@);
            assert(out@ + replace_all(s@.skip(i + n), pat@, rep@) =~= before + (rep@ + replace_all(
                s@.skip(i + n),
                pat@,
                rep@,
            )));
            i = i + n;
        } else {
            proof {
                lemma_replace_skip_other(s@, i as int, pat@, rep@);
            }
            let ghost before = out@;
            out.push(s[i]);
            assert(out@ + replace_all(s@.skip(i + 1), pat@, rep@) =~= before + (seq![s@[i as int]] + replace_all(
                s@.skip(i + 1),
                pat@,
                rep@,
            )));
            i = i + 1;
        }
    }
    assert(out@ + replace_all(s@.skip(i as int), pat@, rep@) =~= out@);
    out
}

/// The identifier of a host: its type name with `Wasi` replaced by
/// `prefix`, lowercased; `wasi` for an empty path.
fn host_ident(path: &Vec<String>, prefix: &str) -> (res: String)
    ensures
        res@ == wasi_ident_spec(path_view(*path), prefix@),
{
    if path.len() == 0 {
        return owned("wasi");
    }
    let name = string_chars(&path[path.len() - 1]);
    assert(name@ == path_view(*path).last());
    let pat = string_chars(&owned("Wasi"));
    let rep = string_chars(&owned(prefix));
    let replaced = chars_to_string(&replace_str(&name, &pat, &rep));
    str_to_lowercase(replaced.as_str())
}

/// The module and store field name of a host in the generated runtime
/// (`WasiHttp` gives `wasi_http`).
pub fn wasi_ident(path: &Vec<String>) -> (res: String)
    ensures
        res@ == wasi_ident_spec(path_view(*path), "wasi_"@),
{
    host_ident(path, "wasi_")
}

/// The module and store field name of a host in the `omnia` runtime
/// expansion (`WasiHttp` gives `omnia_wasi_http`).
pub fn omnia_wasi_ident(path: &Vec<String>) -> (res: String)
    ensures
        res@ == wasi_ident_spec(path_view(*path), "omnia_wasi_"@),
{
    host_ident(path, "omnia_wasi_")
}

/// A WASI host and the backend that serves it, each a type path written as
/// the token text of its segments (see `path_view`).
#[derive(Debug, Clone)]
pub struct Host {
    pub type_: Vec<String>,
    pub backend: Vec<String>,
}

/// One setting of the runtime configuration.
#[derive(Debug, Clone)]
pub enum Setting {
    /// Whether to generate a `main` function.
    Main(bool),
    /// The hosts to link, with their backends.
    Hosts(Vec<Host>),
}

/// The runtime configuration: whether to generate `main`, the hosts, and
/// the distinct backends the hosts use.
#[derive(Debug, Clone)]
pub struct Config {
    pub gen_main: bool,
    pub hosts: Vec<Host>,
    pub backends: Vec<Vec<String>>,
}

/// The distinct paths of `s`, each where it first occurs.
pub open spec fn distinct(s: Seq<Seq<Seq<char>>>) -> Seq<Seq<Seq<char>>>
    decreases s.len(),
{
    if s.len() == 0 {
        s
    } else {
        let rest = distinct(s.drop_last());
        if rest.contains(s.last()) {
            rest
        } else {
            rest.push(s.last())
        }
    }
}

/// The views of a list of paths.
pub open spec fn paths_view(ps: Seq<Vec<String>>) -> Seq<Seq<Seq<char>>> {
    ps.map_values(|p: Vec<String>| path_view(p))
}

/// The backends of a list of hosts, in order.
pub open spec fn backends_of(hosts: Seq<Host>) -> Seq<Seq<Seq<char>>> {
    hosts.map_values(|h: Host| path_view(h.backend))
}

/// The settings in force: the last `main` setting (false when there is
/// none) and the last `hosts` setting (none when there is none).
pub open spec fn settings_in_force(s: Seq<Setting>) -> (bool, Seq<Host>)
    decreases s.len(),
{
    if s.len() == 0 {
        (false, Seq::empty())
    } else {
        let (m, h) = settings_in_force(s.drop_last());
        match s.last() {
            Setting::Main(x) => (x, h),
            Setting::Hosts(x) => (m, x@),
        }
    }
}

/// Whether two paths are the same.
pub fn paths_eq(a: &Vec<String>, b: &Vec<String>) -> (res: bool)
    ensures
        res == (path_view(*a) == path_view(*b)),
{
    if a.len() != b.len() {
        assert(path_view(*a).len() != path_view(*b).len());
        return false;
    }
    let mut i: usize = 0;
    while i < a.len()
        invariant
            a.len() == b.len(),
            i <= a.len(),
            forall|j: int| 0 <= j < i ==> a@[j]@ == b@[j]@,
        decreases a.len() - i,
    {
        if a[i] != b[i] {
            assert(path_view(*a)[i as int] != path_view(*b)[i as int]);
            return false;
        }
        i = i + 1;
    }
    assert(path_view(*a) =~= path_view(*b));
    true
}

/// A copy of a path.
fn copy_path(p: &Vec<String>) -> (res: Vec<String>)
    ensures
        path_view(res) == path_view(*p),
{
    let mut out: Vec<String> = Vec::new();
    let mut i: usize = 0;
    while i < p.len()
        invariant
            i <= p.len(),
            out@.map_values(|s: String| s@) == p@.take(i as int).map_values(|s: String| s@),
        decreases p.len() - i,
    {
        let ghost before = out@;
        out.push(p[i].clone());
        assert(out@ =~= before.push(p@[i as int]));
        assert(p@.take(i + 1) =~= p@.take(i as int).push(p@[i as int]));
        assert(out@.map_values(|s: String| s@) =~= before.map_values(|s: String| s@).push(p@[i as int]@));
        assert(p@.take(i + 1).map_values(|s: String| s@) =~= p@.take(i as int).map_values(|s: String| s@).push(
            p@[i as int]@,
        ));
        i = i + 1;
    }
    assert(p@.take(p.len() as int) =~= p@);
    out
}

/// Whether `p` is among `ps`.
fn contains_path(ps: &Vec<Vec<String>>, p: &Vec<String>) -> (res: bool)
    ensures
        res == paths_view(ps@).contains(path_view(*p)),
{
    let mut i: usize = 0;
    while i < ps.len()
        invariant
            i <= ps.len(),
            forall|j: int| 0 <= j < i ==> paths_view(ps@)[j] != path_view(*p),
        decreases ps.len() - i,
    {
        if paths_eq(&ps[i], p) {
            assert(paths_view(ps@)[i as int] == path_view(*p));
            return true;
        }
        i = i + 1;
    }
    false
}

/// The distinct paths of `ps`, each where it first occurs.
pub fn distinct_paths(ps: &Vec<Vec<String>>) -> (res: Vec<Vec<String>>)
    ensures
        paths_view(res@) == distinct(paths_view(ps@)),
{
    let ghost all = paths_view(ps@);
    let mut out: Vec<Vec<String>> = Vec::new();
    let mut i: usize = 0;
    while i < ps.len()
        invariant
            i <= ps.len(),
            all == paths_view(ps@),
            paths_view(out@) == distinct(all.take(i as int)),
        decreases ps.len() - i,
    {
        assert(all.take(i + 1).drop_last() =~= all.take(i as int));
        assert(all.take(i + 1).last() == path_view(ps@[i as int]));
        if !contains_path(&out, &ps[i]) {
            let ghost before = out@;
            out.push(copy_path(&ps[i]));
            assert(paths_view(out@) =~= paths_view(before).push(path_view(ps@[i as int])));
        }
        i = i + 1;
    }
    assert(all.take(ps.len() as int) =~= all);
    out
}

/// The backends of `hosts`, in order.
fn host_backends(hosts: &Vec<Host>) -> (res: Vec<Vec<String>>)
    ensures
        paths_view(res@) == backends_of(hosts@),
{
    let mut out: Vec<Vec<String>> = Vec::new();
    let mut i: usize = 0;
    while i < hosts.len()
        invariant
            i <= hosts.len(),
            paths_view(out@) == backends_of(hosts@.take(i as int)),
        decreases hosts.len() - i,
    {
        let ghost before = out@;
        out.push(copy_path(&hosts[i].backend));
        assert(paths_view(out@) =~= paths_view(before).push(path_view(hosts@[i as int].backend)));
        assert(backends_of(hosts@.take(i + 1)) =~= backends_of(hosts@.take(i as int)).push(
            path_view(hosts@[i as int].backend),
        ));
        i = i + 1;
    }
    assert(hosts@.take(hosts.len() as int) =~= hosts@);
    out
}

impl Config {
    /// The configuration the settings give: the last `main` and `hosts`
    /// settings are in force, and the backends are those of the hosts, each
    /// once.
    pub fn from_settings(settings: Vec<Setting>) -> (res: Config)
        ensures
            res.gen_main == settings_in_force(settings@).0,
            res.hosts@ == settings_in_force(settings@).1,
            paths_view(res.backends@) == distinct(backends_of(settings_in_force(settings@).1)),
    {
        let ghost all = settings@;
        let mut rest = settings;
        let mut gen_main = false;
        let mut hosts: Vec<Host> = Vec::new();
        let ghost mut k: int = 0;
        while rest.len() > 0
            invariant
                0 <= k <= all.len(),
                rest@ == all.skip(k),
                settings_in_force(all.take(k)) == (gen_main, hosts@),
            decreases rest.len(),
        {
            assert(all.take(k + 1).drop_last() =~= all.take(k));
            assert(all.take(k + 1).last() == all[k]);
            let setting = rest.remove(0);
            proof {
                k = k + 1;
                assert(rest@ =~= all.skip(k));
            }
            match setting {
                Setting::Main(m) => {
                    gen_main = m;
                },
                Setting::Hosts(h) => {
                    hosts = h;
                },
            }
        }
        assert(all.take(k) =~= all);
        let backends = distinct_paths(&host_backends(&hosts));
        Config { gen_main, hosts, backends }
    }
}

/// What the runtime is generated from: the context fields holding the
/// backends, the store fields and their values, the hosts linked and
/// served, the WASI views implemented, and whether `main` is generated.
#[derive(Debug, Clone)]
pub struct Generated {
    /// (field, backend type) for each distinct backend.
    pub context_fields: Vec<(String, Vec<String>)>,
    /// (host field, backend type) for each host.
    pub store_ctx_fields: Vec<(String, Vec<String>)>,
    /// (host field, context field it is cloned from) for each host.
    pub store_ctx_values: Vec<(String, String)>,
    /// The host types linked.
    pub host_trait_impls: Vec<Vec<String>>,
    /// The host types run as servers.
    pub server_trait_impls: Vec<Vec<String>>,
    /// (host module, host field) of each WASI view implemented.
    pub wasi_view_impls: Vec<(String, String)>,
    /// Whether a `main` function is generated.
    pub gen_main: bool,
}

pub open spec fn named_paths_view(v: Seq<(String, Vec<String>)>) -> Seq<(Seq<char>, Seq<Seq<char>>)> {
    v.map_values(|e: (String, Vec<String>)| (e.0@, path_view(e.1)))
}

pub open spec fn pairs_view(v: Seq<(String, String)>) -> Seq<(Seq<char>, Seq<char>)> {
    v.map_values(|e: (String, String)| (e.0@, e.1@))
}

/// The context field of each distinct backend.
pub open spec fn context_fields_spec(backends: Seq<Seq<Seq<char>>>) -> Seq<(Seq<char>, Seq<Seq<char>>)> {
    distinct(backends).map_values(|b: Seq<Seq<char>>| (field_ident_spec(b), b))
}

/// Whether `g` is what the runtime is generated from for `config`, with
/// host identifiers made with `prefix`.
pub open spec fn plans(g: Generated, config: Config, prefix: Seq<char>) -> bool {
    let hosts = config.hosts@;
    &&& named_paths_view(g.context_fields@) == context_fields_spec(paths_view(config.backends@))
    &&& named_paths_view(g.store_ctx_fields@) == hosts.map_values(
        |h: Host| (wasi_ident_spec(path_view(h.type_), prefix), path_view(h.backend)),
    )
    &&& pairs_view(g.store_ctx_values@) == hosts.map_values(
        |h: Host| (wasi_ident_spec(path_view(h.type_), prefix), field_ident_spec(path_view(h.backend))),
    )
    &&& paths_view(g.host_trait_impls@) == hosts.map_values(|h: Host| path_view(h.type_))
    &&& paths_view(g.server_trait_impls@) == hosts.map_values(|h: Host| path_view(h.type_))
    &&& pairs_view(g.wasi_view_impls@) == hosts.map_values(
        |h: Host|
            (wasi_ident_spec(path_view(h.type_), prefix), wasi_ident_spec(path_view(h.type_), prefix)),
    )
    &&& g.gen_main == config.gen_main
}

fn plan(config: &Config, prefix: &str) -> (res: Generated)
    ensures
        plans(res, *config, prefix@),
{
    let backends = distinct_paths(&config.backends);
    let ghost bv = paths_view(backends@);
    let mut context_fields: Vec<(String, Vec<String>)> = Vec::new();
    let mut i: usize = 0;
    while i < backends.len()
        invariant
            i <= backends.len(),
            bv == paths_view(backends@),
            named_paths_view(context_fields@) == bv.take(i as int).map_values(
                |b: Seq<Seq<char>>| (field_ident_spec(b), b),
            ),
        decreases backends.len() - i,
    {
        let field = field_ident(&backends[i]);
        let ghost before = context_fields@;
        context_fields.push((field, copy_path(&backends[i])));
        assert(named_paths_view(context_fields@) =~= named_paths_view(before).push(
            (field_ident_spec(bv[i as int]), bv[i as int]),
        ));
        assert(bv.take(i + 1).map_values(|b: Seq<Seq<char>>| (field_ident_spec(b), b)) =~= bv.take(
            i as int,
        ).map_values(|b: Seq<Seq<char>>| (field_ident_spec(b), b)).push(
            (field_ident_spec(bv[i as int]), bv[i as int]),
        ));
        i = i + 1;
    }
    assert(bv.take(backends.len() as int) =~= bv);

    let ghost hosts = config.hosts@;
    let mut store_ctx_fields: Vec<(String, Vec<String>)> = Vec::new();
    let mut store_ctx_values: Vec<(String, String)> = Vec::new();
    let mut host_trait_impls: Vec<Vec<String>> = Vec::new();
    let mut server_trait_impls: Vec<Vec<String>> = Vec::new();
    let mut wasi_view_impls: Vec<(String, String)> = Vec::new();
    let mut k: usize = 0;
    while k < config.hosts.len()
        invariant
            k <= config.hosts.len(),
            hosts == config.hosts@,
            named_paths_view(store_ctx_fields@) == hosts.take(k as int).map_values(
                |h: Host| (wasi_ident_spec(path_view(h.type_), prefix@), path_view(h.backend)),
            ),
            pairs_view(store_ctx_values@) == hosts.take(k as int).map_values(
                |h: Host|
                    (wasi_ident_spec(path_view(h.type_), prefix@), field_ident_spec(path_view(h.backend))),
            ),
            paths_view(host_trait_impls@) == hosts.take(k as int).map_values(|h: Host| path_view(h.type_)),
            paths_view(server_trait_impls@) == hosts.take(k as int).map_values(|h: Host| path_view(h.type_)),
            pairs_view(wasi_view_impls@) == hosts.take(k as int).map_values(
                |h: Host|
                    (
                        wasi_ident_spec(path_view(h.type_), prefix@),
                        wasi_ident_spec(path_view(h.type_), prefix@),
                    ),
            ),
        decreases config.hosts.len() - k,
    {
        let host = &config.hosts[k];
        let ghost h = hosts[k as int];
        assert(hosts.take(k + 1) =~= hosts.take(k as int).push(h));
        let id = host_ident(&host.type_, prefix);
        let backend_field = field_ident(&host.backend);

        let ghost b1 = store_ctx_fields@;
        store_ctx_fields.push((id.clone(), copy_path(&host.backend)));
        assert(named_paths_view(store_ctx_fields@) =~= named_paths_view(b1).push((id@, path_view(h.backend))));

        let ghost b2 = store_ctx_values@;
        store_ctx_values.push((id.clone(), backend_field));
        assert(pairs_view(store_ctx_values@) =~= pairs_view(b2).push(
            (id@, field_ident_spec(path_view(h.backend))),
        ));

        let ghost b3 = host_trait_impls@;
        host_trait_impls.push(copy_path(&host.type_));
        assert(paths_view(host_trait_impls@) =~= paths_view(b3).push(path_view(h.type_)));

        let ghost b4 = server_trait_impls@;
        server_trait_impls.push(copy_path(&host.type_));
        assert(paths_view(server_trait_impls@) =~= paths_view(b4).push(path_view(h.type_)));

        let ghost b5 = wasi_view_impls@;
        wasi_view_impls.push((id.clone(), id));
        assert(pairs_view(wasi_view_impls@) =~= pairs_view(b5).push(
            (wasi_ident_spec(path_view(h.type_), prefix@), wasi_ident_spec(path_view(h.type_), prefix@)),
        ));

        proof {
            assert(hosts.take(k + 1).map_values(
                |h: Host| (wasi_ident_spec(path_view(h.type_), prefix@), path_view(h.backend)),
            ) =~= hosts.take(k as int).map_values(
                |h: Host| (wasi_ident_spec(path_view(h.type_), prefix@), path_view(h.backend)),
            ).push((wasi_ident_spec(path_view(h.type_), prefix@), path_view(h.backend))));
            assert(hosts.take(k + 1).map_values(
                |h: Host|
                    (wasi_ident_spec(path_view(h.type_), prefix@), field_ident_spec(path_view(h.backend))),
            ) =~= hosts.take(k as int).map_values(
                |h: Host|
                    (wasi_ident_spec(path_view(h.type_), prefix@), field_ident_spec(path_view(h.backend))),
            ).push((wasi_ident_spec(path_view(h.type_), prefix@), field_ident_spec(path_view(h.backend)))));
            assert(hosts.take(k + 1).map_values(|h: Host| path_view(h.type_)) =~= hosts.take(
                k as int,
            ).map_values(|h: Host| path_view(h.type_)).push(path_view(h.type_)));
            assert(hosts.take(k + 1).map_values(
                |h: Host|
                    (
                        wasi_ident_spec(path_view(h.type_), prefix@),
                        wasi_ident_spec(path_view(h.type_), prefix@),
                    ),
            ) =~= hosts.take(k as int).map_values(
                |h: Host|
                    (
                        wasi_ident_spec(path_view(h.type_), prefix@),
                        wasi_ident_spec(path_view(h.type_), prefix@),
                    ),
            ).push(
                (wasi_ident_spec(path_view(h.type_), prefix@), wasi_ident_spec(path_view(h.type_), prefix@)),
            ));
        }
        k = k + 1;
    }
    assert(hosts.take(config.hosts.len() as int) =~= hosts);
    Generated {
        context_fields,
        store_ctx_fields,
        store_ctx_values,
        host_trait_impls,
        server_trait_impls,
        wasi_view_impls,
        gen_main: config.gen_main,
    }
}

impl Generated {
    /// What the generated runtime is made from: a context field for each
    /// distinct backend, and for each host its store field (named after the
    /// host, `WasiHttp` giving `wasi_http`), the context field it is cloned
    /// from, its link, its server and its WASI view.
    pub fn from_config(config: &Config) -> (res: Generated)
        ensures
            plans(res, *config, "wasi_"@),
    {
        plan(config, "wasi_")
    }

    /// The same plan for the `omnia` runtime expansion, whose host modules
    /// are named `omnia_wasi_...`.
    pub fn expanded(config: &Config) -> (res: Generated)
        ensures
            plans(res, *config, "omnia_wasi_"@),
    {
        plan(config, "omnia_wasi_")
    }
}

proof fn lemma_distinct(s: Seq<Seq<Seq<char>>>)
    ensures
        forall|i: int, j: int| 0 <= i < j < distinct(s).len() ==> distinct(s)[i] != distinct(s)[j],
        forall|x: Seq<Seq<char>>| distinct(s).contains(x) <==> s.contains(x),
    decreases s.len(),
{
    if s.len() > 0 {
        let t = s.drop_last();
        lemma_distinct(t);
        let r = distinct(t);
        assert forall|x: Seq<Seq<char>>| distinct(s).contains(x) <==> s.contains(x) by {
            if s.contains(x) {
                let k = choose|k: int| 0 <= k < s.len() && s[k] == x;
                if k < s.len() - 1 {
                    assert(t[k] == x);
                    assert(t.contains(x));
                    let m = choose|m: int| 0 <= m < r.len() && r[m] == x;
                    if !r.contains(s.last()) {
                        assert(distinct(s)[m] == x);
                    }
                } else if !r.contains(s.last()) {
                    assert(distinct(s)[r.len() as int] == x);
                }
            }
            if distinct(s).contains(x) {
                let m = choose|m: int| 0 <= m < distinct(s).len() && distinct(s)[m] == x;
                if m < r.len() {
                    assert(r[m] == x);
                    assert(r.contains(x));
                    assert(t.contains(x));
                    let k = choose|k: int| 0 <= k < t.len() && t[k] == x;
                    assert(s[k] == x);
                } else {
                    assert(s[s.len() - 1] == x);
                }
            }
        }
    }
}

/// The runtime context holds each backend once: its context fields name
/// every backend of the configuration and no backend twice.
pub proof fn law_backends_held_once(backends: Seq<Seq<Seq<char>>>)
    ensures
        forall|i: int, j: int|
            0 <= i < j < context_fields_spec(backends).len() ==> context_fields_spec(backends)[i].1
                != context_fields_spec(backends)[j].1,
        forall|b: Seq<Seq<char>>|
            backends.contains(b) <==> exists|i: int|
                0 <= i < context_fields_spec(backends).len() && #[trigger] context_fields_spec(backends)[i].1 == b,
{
    lemma_distinct(backends);
    let d = distinct(backends);
    assert forall|b: Seq<Seq<char>>|
        backends.contains(b) <==> exists|i: int|
            0 <= i < context_fields_spec(backends).len() && #[trigger] context_fields_spec(backends)[i].1 == b by {
        if backends.contains(b) {
            assert(d.contains(b));
            let m = choose|m: int| 0 <= m < d.len() && d[m] == b;
            assert(context_fields_spec(backends)[m].1 == b);
        }
        if exists|i: int| 0 <= i < context_fields_spec(backends).len() && #[trigger] context_fields_spec(backends)[i].1 == b {
            let i = choose|i: int| 0 <= i < context_fields_spec(backends).len() && #[trigger] context_fields_spec(backends)[i].1 == b;
            assert(d[i] == b);
            assert(d.contains(b));
        }
    }
}

} // verus!
