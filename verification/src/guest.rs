//! The guest configuration: the owner, the provider, the HTTP routes and
//! the messaging topics a guest declares, with the rules that a declaration
//! must satisfy and the names derived from it.

use vstd::prelude::*;

use crate::cache::{split_chars, split_on, string_chars, chars_to_string, piece_views};
use crate::runtime_macro::{is_uppercase, lowercase_str, str_to_lowercase, uppercase};
use crate::error::owned;

verus! {

/// Whether every character of `s` is ASCII.
pub open spec fn all_ascii(s: Seq<char>) -> bool {
    forall|i: int| 0 <= i < s.len() ==> (s[i] as u32) < 128
}

/// The number of bytes `c` takes in UTF-8.
pub open spec fn utf8_len(c: char) -> nat {
    if (c as u32) < 0x80 {
        1
    } else if (c as u32) < 0x800 {
        2
    } else if (c as u32) < 0x10000 {
        3
    } else {
        4
    }
}

/// The byte offset, in UTF-8, of the `k`-th character of `s`.
pub open spec fn byte_offset(s: Seq<char>, k: int) -> nat
    decreases k,
{
    if k <= 0 {
        0
    } else {
        byte_offset(s, k - 1) + utf8_len(s[k - 1])
    }
}

/// The index of the first uppercase character of `id` at or after `i`, or
/// the length of `id` when there is none.
pub open spec fn upper_from(id: Seq<char>, i: int) -> int
    recommends
        0 <= i,
    decreases id.len() - i,
{
    if i >= id.len() {
        id.len() as int
    } else if uppercase(id[i]) {
        i
    } else {
        upper_from(id, i + 1)
    }
}

/// The number of characters of `id` that end at byte `b`.
pub open spec fn chars_before_byte(id: Seq<char>, b: int) -> int {
    choose|k: int| 0 <= k <= id.len() && byte_offset(id, k) == b
}

/// The first word of a type name: the name up to the first uppercase
/// character after its first, taken as the byte prefix whose length is that
/// character's position; the whole name when it has no such character.
pub open spec fn first_word(id: Seq<char>) -> Seq<char> {
    let j = upper_from(id, 1);
    if j >= id.len() {
        id
    } else {
        id.take(chars_before_byte(id, j))
    }
}

/// The handler method named after a type path: the first word of its last
/// segment, in lowercase (`HelloWorld` gives `hello`), or `handle` for an
/// empty path.
pub open spec fn method_name_spec(segments: Seq<Seq<char>>) -> Seq<char> {
    if segments.len() == 0 {
        "handle"@
    } else {
        lowercase_str(first_word(segments.last()))
    }
}

/// Whether a path can name a handler method: its last segment is not empty,
/// begins with an ASCII character, and, when a later character is
/// uppercase, that character's position is a character boundary in bytes
/// (otherwise the name cannot be cut there).
pub open spec fn nameable(segments: Seq<Seq<char>>) -> bool {
    segments.len() > 0 ==> {
        let id = segments.last();
        &&& id.len() > 0
        &&& (id[0] as u32) < 0x80
        &&& upper_from(id, 1) < id.len() ==> exists|k: int|
            0 <= k <= id.len() && byte_offset(id, k) == upper_from(id, 1)
    }
}

proof fn lemma_byte_offset_grows(s: Seq<char>, a: int, b: int)
    requires
        0 <= a < b,
    ensures
        byte_offset(s, a) < byte_offset(s, b),
        byte_offset(s, b) >= b,
    decreases b - a,
{
    if a < b - 1 {
        lemma_byte_offset_grows(s, a, b - 1);
    }
    lemma_byte_offset_at_least(s, b);
}

proof fn lemma_byte_offset_at_least(s: Seq<char>, k: int)
    ensures
        k >= 0 ==> byte_offset(s, k) >= k,
    decreases k,
{
    if k > 0 {
        lemma_byte_offset_at_least(s, k - 1);
    }
}

/// The number of bytes `c` takes in UTF-8.
fn char_utf8_len(c: char) -> (res: u8)
    ensures
        res == utf8_len(c),
{
    let u = c as u32;
    if u < 0x80 {
        1
    } else if u < 0x800 {
        2
    } else if u < 0x10000 {
        3
    } else {
        4
    }
}

/// Derives a handler method name from a type path: the first word of the
/// path's last segment, lowercased; `handle` for an empty path.
pub fn method_name(segments: &Vec<String>) -> (res: String)
    requires
        nameable(segments@.map_values(|s: String| s@)),
    ensures
        res@ == method_name_spec(segments@.map_values(|s: String| s@)),
{
    let ghost segs = segments@.map_values(|s: String| s@);
    if segments.len() == 0 {
        return owned("handle");
    }
    let id = string_chars(&segments[segments.len() - 1]);
    assert(id@ == segs.last());
    let mut end: usize = 1;
    while end < id.len()
        invariant
            1 <= end <= id.len(),
            id@.len() > 0,
            upper_from(id@, 1) == upper_from(id@, end as int),
        ensures
            end == id.len() || uppercase(id@[end as int]),
        decreases id.len() - end,
    {
        if is_uppercase(id[end]) {
            break;
        }
        end = end + 1;
    }
    assert(upper_from(id@, end as int) == end);
    let mut count: usize = id.len();
    if end < id.len() {
        // the number of characters whose bytes end at byte `end`
        let mut k: usize = 0;
        let mut off: u128 = 0;
        while off < end as u128 && k < id.len()
            invariant
                k <= id.len(),
                off == byte_offset(id@, k as int),
                end < id.len(),
                exists|m: int| 0 <= m <= id@.len() && byte_offset(id@, m) == end,
                forall|m: int| 0 <= m < k ==> byte_offset(id@, m) < end,
            decreases id.len() - k,
        {
            proof {
                lemma_byte_offset_at_least(id@, k as int);
            }
            off = off + char_utf8_len(id[k]) as u128;
            k = k + 1;
        }
        proof {
            let m = choose|m: int| 0 <= m <= id@.len() && byte_offset(id@, m) == end;
            if m < k {
                assert(byte_offset(id@, m) < end);
            }
            if m > k {
                lemma_byte_offset_grows(id@, k as int, m);
            }
            assert(m == k);
            let c = chars_before_byte(id@, end as int);
            if c < k {
                lemma_byte_offset_grows(id@, c, k as int);
            }
            if c > k {
                lemma_byte_offset_grows(id@, k as int, c);
            }
            assert(c == k);
        }
        count = k;
    }
    let mut word: Vec<char> = Vec::new();
    let mut i: usize = 0;
    while i < count
        invariant
            i <= count <= id.len(),
            word@ == id@.take(i as int),
        decreases count - i,
    {
        word.push(id[i]);
        i = i + 1;
        assert(word@ =~= id@.take(i as int));
    }
    if count == id.len() {
        assert(id@.take(count as int) =~= id@);
    }
    let text = chars_to_string(&word);
    str_to_lowercase(text.as_str())
}

/// The names of the parameters of a route path: the segments written in
/// braces, without the braces, in order.
pub open spec fn is_param(piece: Seq<char>) -> bool {
    piece.len() >= 2 && piece[0] == '{' && piece.last() == '}'
}

pub open spec fn params_of(pieces: Seq<Seq<char>>) -> Seq<Seq<char>>
    decreases pieces.len(),
{
    if pieces.len() == 0 {
        Seq::empty()
    } else {
        let rest = params_of(pieces.drop_last());
        let p = pieces.last();
        if is_param(p) {
            rest.push(p.subrange(1, p.len() - 1))
        } else {
            rest
        }
    }
}

/// Extracts the parameter names of a route path (`{vehicle_id}/{trip_id}`
/// gives `vehicle_id` and `trip_id`).
pub fn extract_params(path: &String) -> (res: Vec<String>)
    ensures
        res@.map_values(|s: String| s@) == params_of(split_on(path@, '/')),
{
    let pieces = split_chars(&string_chars(path), '/');
    let ghost pv = piece_views(pieces@);
    let mut out: Vec<String> = Vec::new();
    let mut i: usize = 0;
    while i < pieces.len()
        invariant
            i <= pieces.len(),
            pv == piece_views(pieces@),
            out@.map_values(|s: String| s@) == params_of(pv.take(i as int)),
        decreases pieces.len() - i,
    {
        assert(pv.take(i + 1).drop_last() =~= pv.take(i as int));
        assert(pv[i as int] == pieces@[i as int]@);
        let p = &pieces[i];
        let n = p.len();
        if n >= 2 && p[0] == '{' && p[n - 1] == '}' {
            let mut inner: Vec<char> = Vec::new();
            let mut k: usize = 1;
            while k < n - 1
                invariant
                    n == p.len() >= 2,
                    1 <= k <= n - 1,
                    inner@ == p@.subrange(1, k as int),
                decreases n - 1 - k,
            {
                inner.push(p[k]);
                k = k + 1;
                assert(inner@ =~= p@.subrange(1, k as int));
            }
            let ghost before = out@;
            out.push(chars_to_string(&inner));
            assert(out@.map_values(|s: String| s@) =~= before.map_values(|s: String| s@).push(
                inner@,
            ));
        }
        i = i + 1;
    }
    assert(pv.take(pieces.len() as int) =~= pv);
    out
}

/// The HTTP methods a route handler can serve.
#[derive(Debug, Clone, Copy, PartialEq, Eq, Structural)]
pub enum Method {
    Get,
    Post,
}

/// A route handler: its method, its request and reply types, and whether
/// the request is read from the body or from the query string.
#[derive(Debug, Clone)]
pub struct Handler {
    pub method: Method,
    pub request: Vec<String>,
    pub reply: Vec<String>,
    pub with_body: bool,
    pub with_query: bool,
}

pub open spec fn get_with_body_message() -> Seq<char> {
    "GET requests should not have a body; consider using query parameters"@
}

pub open spec fn post_with_query_message() -> Seq<char> {
    "POST requests should not have query parameters; consider using body"@
}

impl Handler {
    /// A handler, checked: a GET handler takes no body and a POST handler
    /// no query parameters.
    pub fn new(method: Method, request: Vec<String>, reply: Vec<String>, with_body: bool, with_query: bool) -> (res:
        Result<Handler, String>)
        ensures
            method == Method::Get && with_body ==> res is Err && res->Err_0@ == get_with_body_message(),
            method == Method::Post && with_query ==> res is Err && res->Err_0@ == post_with_query_message(),
            !(method == Method::Get && with_body) && !(method == Method::Post && with_query) ==> res is Ok
                && res->Ok_0.method == method && res->Ok_0.request@ == request@ && res->Ok_0.reply@ == reply@
                && res->Ok_0.with_body == with_body && res->Ok_0.with_query == with_query,
    {
        if method == Method::Get && with_body {
            return Err(owned("GET requests should not have a body; consider using query parameters"));
        }
        if method == Method::Post && with_query {
            return Err(owned("POST requests should not have query parameters; consider using body"));
        }
        Ok(Handler { method, request, reply, with_body, with_query })
    }
}

/// What a route's handler function takes from the request and hands on to
/// the request handler.
#[derive(Debug, Clone, Copy, PartialEq, Eq, Structural)]
pub enum HandlerInput {
    /// Nothing.
    Unit,
    /// The raw query string.
    RawQuery,
    /// The single path parameter.
    PathParam,
    /// The path parameters, as a tuple of this many strings.
    PathParams(usize),
    /// The request body.
    Body,
}

/// What the handler of a route with `n_params` path parameters takes: a GET
/// handler takes its path parameters, or the raw query when it has none and
/// reads the query; a POST handler takes the body when it reads one.
pub fn handler_input(handler: &Handler, n_params: usize) -> (res: HandlerInput)
    ensures
        handler.method == Method::Get ==> res == (if n_params == 0 {
            if handler.with_query {
                HandlerInput::RawQuery
            } else {
                HandlerInput::Unit
            }
        } else if n_params == 1 {
            HandlerInput::PathParam
        } else {
            HandlerInput::PathParams(n_params)
        }),
        handler.method == Method::Post ==> res == (if handler.with_body {
            HandlerInput::Body
        } else {
            HandlerInput::Unit
        }),
{
    match handler.method {
        Method::Get => {
            if n_params == 0 {
                if handler.with_query {
                    HandlerInput::RawQuery
                } else {
                    HandlerInput::Unit
                }
            } else if n_params == 1 {
                HandlerInput::PathParam
            } else {
                HandlerInput::PathParams(n_params)
            }
        },
        Method::Post => {
            if handler.with_body {
                HandlerInput::Body
            } else {
                HandlerInput::Unit
            }
        },
    }
}

/// An HTTP route: its path, the parameters the path declares, and its
/// handler.
#[derive(Debug, Clone)]
pub struct Route {
    pub path: String,
    pub params: Vec<String>,
    pub handler: Handler,
}

pub open spec fn second_handler_message() -> Seq<char> {
    "cannot specify second handler"@
}

pub open spec fn missing_handler_message() -> Seq<char> {
    "route is missing handler (e.g., `get(Request, Response)` or `post(Request, Response)`)"@
}

impl Route {
    /// A route from its path and the handlers declared for it: exactly one
    /// handler must be declared.
    pub fn new(path: String, handlers: Vec<Handler>) -> (res: Result<Route, String>)
        ensures
            handlers.len() == 0 ==> res is Err && res->Err_0@ == missing_handler_message(),
            handlers.len() > 1 ==> res is Err && res->Err_0@ == second_handler_message(),
            handlers.len() == 1 ==> res is Ok && res->Ok_0.path@ == path@ && res->Ok_0.handler
                == handlers@[0] && res->Ok_0.params@.map_values(|s: String| s@) == params_of(
                split_on(path@, '/'),
            ),
    {
        let mut handlers = handlers;
        if handlers.len() > 1 {
            return Err(owned("cannot specify second handler"));
        }
        match handlers.pop() {
            None => Err(
                owned(
                    "route is missing handler (e.g., `get(Request, Response)` or `post(Request, Response)`)",
                ),
            ),
            Some(handler) => {
                let params = extract_params(&path);
                Ok(Route { path, params, handler })
            },
        }
    }
}

/// The HTTP routes a guest serves.
#[derive(Debug, Clone)]
pub struct Http {
    pub routes: Vec<Route>,
}

/// A messaging topic: the pattern it subscribes to, the message type, and
/// the handler method named after the message type.
#[derive(Debug, Clone)]
pub struct Topic {
    pub pattern: String,
    pub message: Vec<String>,
    pub handler: String,
}

pub open spec fn second_message_message() -> Seq<char> {
    "cannot specify second message"@
}

pub open spec fn missing_message_message() -> Seq<char> {
    "topic missing `message`"@
}

/// The view of a type path.
pub open spec fn path_view(p: Vec<String>) -> Seq<Seq<char>> {
    p@.map_values(|s: String| s@)
}

impl Topic {
    /// A topic from its pattern and the message types declared for it:
    /// exactly one must be declared.
    pub fn new(pattern: String, messages: Vec<Vec<String>>) -> (res: Result<Topic, String>)
        requires
            messages.len() == 1 ==> nameable(path_view(messages@[0])),
        ensures
            messages.len() == 0 ==> res is Err && res->Err_0@ == missing_message_message(),
            messages.len() > 1 ==> res is Err && res->Err_0@ == second_message_message(),
            messages.len() == 1 ==> res is Ok && res->Ok_0.pattern@ == pattern@ && res->Ok_0.message
                == messages@[0] && res->Ok_0.handler@ == method_name_spec(path_view(messages@[0])),
    {
        let mut messages = messages;
        if messages.len() > 1 {
            return Err(owned("cannot specify second message"));
        }
        proof {
            if messages.len() == 1 {
                assert(nameable(path_view(messages@[0])));
            }
        }
        match messages.pop() {
            None => Err(owned("topic missing `message`")),
            Some(message) => {
                let handler = method_name(&message);
                Ok(Topic { pattern, message, handler })
            },
        }
    }
}

/// The messaging topics a guest subscribes to.
#[derive(Debug, Clone)]
pub struct Messaging {
    pub topics: Vec<Topic>,
}

/// One setting of a guest configuration.
#[derive(Debug, Clone)]
pub enum Setting {
    Owner(String),
    Provider(String),
    Http(Http),
    Messaging(Messaging),
}

/// A guest configuration: the owning tenant, the provider type, and the
/// HTTP routes and messaging topics the guest declares.
#[derive(Debug, Clone)]
pub struct Config {
    pub owner: String,
    pub provider: String,
    pub http: Option<Http>,
    pub messaging: Option<Messaging>,
}

pub open spec fn second_owner_message() -> Seq<char> {
    "cannot specify second owner"@
}

pub open spec fn second_provider_message() -> Seq<char> {
    "cannot specify second provider"@
}

pub open spec fn missing_owner_message() -> Seq<char> {
    "missing `owner`"@
}

pub open spec fn missing_provider_message() -> Seq<char> {
    "missing `provider`"@
}

/// The settings read so far, in order: the owner and the provider may each
/// be given once; a later `http` or `messaging` setting replaces an earlier
/// one.
pub open spec fn read_settings(s: Seq<Setting>) -> Result<
    (Option<String>, Option<String>, Option<Http>, Option<Messaging>),
    Seq<char>,
>
    decreases s.len(),
{
    if s.len() == 0 {
        Ok((None, None, None, None))
    } else {
        match read_settings(s.drop_last()) {
            Err(e) => Err(e),
            Ok((o, p, h, m)) => match s.last() {
                Setting::Owner(x) => if o is Some {
                    Err(second_owner_message())
                } else {
                    Ok((Some(x), p, h, m))
                },
                Setting::Provider(x) => if p is Some {
                    Err(second_provider_message())
                } else {
                    Ok((o, Some(x), h, m))
                },
                Setting::Http(x) => Ok((o, p, Some(x), m)),
                Setting::Messaging(x) => Ok((o, p, h, Some(x))),
            },
        }
    }
}

/// The configuration the settings give, or why they give none.
pub open spec fn config_spec(s: Seq<Setting>) -> Result<Config, Seq<char>> {
    match read_settings(s) {
        Err(e) => Err(e),
        Ok((o, p, h, m)) => if o is None {
            Err(missing_owner_message())
        } else if p is None {
            Err(missing_provider_message())
        } else {
            Ok(Config { owner: o->0, provider: p->0, http: h, messaging: m })
        },
    }
}

proof fn lemma_settings_error_persists(s: Seq<Setting>, j: int)
    requires
        0 <= j <= s.len(),
        read_settings(s.take(j)) is Err,
    ensures
        read_settings(s) == read_settings(s.take(j)),
    decreases s.len() - j,
{
    if j < s.len() {
        assert(s.take(j + 1).drop_last() =~= s.take(j));
        lemma_settings_error_persists(s, j + 1);
    } else {
        assert(s.take(j) =~= s);
    }
}

impl Config {
    /// The configuration declared by `settings`: an owner and a provider
    /// are required, and neither may be given twice.
    pub fn from_settings(settings: Vec<Setting>) -> (res: Result<Config, String>)
        ensures
            match config_spec(settings@) {
                Ok(c) => res is Ok && res->Ok_0 == c,
                Err(e) => res is Err && res->Err_0@ == e,
            },
    {
        let ghost all = settings@;
        let mut rest = settings;
        let mut owner: Option<String> = None;
        let mut provider: Option<String> = None;
        let mut http: Option<Http> = None;
        let mut messaging: Option<Messaging> = None;
        let ghost mut k: int = 0;
        while rest.len() > 0
            invariant
                all == settings@,
                0 <= k <= all.len(),
                rest@ == all.skip(k),
                read_settings(all.take(k)) == Ok::<
                    (Option<String>, Option<String>, Option<Http>, Option<Messaging>),
                    Seq<char>,
                >((owner, provider, http, messaging)),
            decreases rest.len(),
        {
            assert(all.take(k + 1).drop_last() =~= all.take(k));
            assert(all.take(k + 1).last() == all[k]);
            let setting = rest.remove(0);
            proof {
                k = k + 1;
                assert(rest@ =~= all.skip(k));
            }
            match setting {
                Setting::Owner(o) => {
                    if owner.is_some() {
                        proof {
                            lemma_settings_error_persists(all, k);
                        }
                        return Err(owned("cannot specify second owner"));
                    }
                    owner = Some(o);
                },
                Setting::Provider(p) => {
                    if provider.is_some() {
                        proof {
                            lemma_settings_error_persists(all, k);
                        }
                        return Err(owned("cannot specify second provider"));
                    }
                    provider = Some(p);
                },
                Setting::Http(h) => {
                    http = Some(h);
                },
                Setting::Messaging(m) => {
                    messaging = Some(m);
                },
            }
        }
        assert(all.take(k) =~= all);
        let owner = match owner {
            Some(o) => o,
            None => return Err(owned("missing `owner`")),
        };
        let provider = match provider {
            Some(p) => p,
            None => return Err(owned("missing `provider`")),
        };
        Ok(Config { owner, provider, http, messaging })
    }
}

/// How many `owner` settings and how many `provider` settings `s` holds.
pub open spec fn setting_counts(s: Seq<Setting>) -> (nat, nat)
    decreases s.len(),
{
    if s.len() == 0 {
        (0, 0)
    } else {
        let (o, p) = setting_counts(s.drop_last());
        match s.last() {
            Setting::Owner(_) => (o + 1, p),
            Setting::Provider(_) => (o, p + 1),
            _ => (o, p),
        }
    }
}

proof fn lemma_read_settings_counts(s: Seq<Setting>)
    ensures
        (read_settings(s) is Ok) <==> (setting_counts(s).0 <= 1 && setting_counts(s).1 <= 1),
        read_settings(s) is Ok ==> ((read_settings(s)->Ok_0.0 is Some) <==> setting_counts(s).0 == 1),
        read_settings(s) is Ok ==> ((read_settings(s)->Ok_0.1 is Some) <==> setting_counts(s).1 == 1),
    decreases s.len(),
{
    if s.len() > 0 {
        lemma_read_settings_counts(s.drop_last());
        if read_settings(s.drop_last()) is Err {
            lemma_counts_grow(s);
        }
    }
}

proof fn lemma_counts_grow(s: Seq<Setting>)
    requires
        s.len() > 0,
    ensures
        setting_counts(s.drop_last()).0 <= setting_counts(s).0,
        setting_counts(s.drop_last()).1 <= setting_counts(s).1,
{
}

/// A guest configuration is accepted exactly when it names one owner and
/// one provider, each given once.
pub proof fn law_config_needs_one_owner_and_provider(s: Seq<Setting>)
    ensures
        (config_spec(s) is Ok) <==> (setting_counts(s).0 == 1 && setting_counts(s).1 == 1),
{
    lemma_read_settings_counts(s);
}

} // verus!
