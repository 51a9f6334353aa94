//! `Cache-Control` / `If-None-Match` request header parsing, and the cache
//! decisions that outbound HTTP requests take from them.

use vstd::prelude::*;
use vstd::string::StrSliceExecFns;

use crate::error::owned;

verus! {

/// Key-value bucket used for caching when the request names none.
pub const CACHE_BUCKET: &'static str = "default-cache";

/// Why a request's cache headers were refused.
#[derive(Debug, Clone, Copy, PartialEq, Eq, Structural)]
pub enum CacheError {
    /// `Cache-Control` is present but empty.
    EmptyCacheControl,
    /// A header value holds bytes other than visible ASCII.
    InvalidHeaderValue,
    /// `no-store` cannot be combined with other cache directives.
    NoStoreCombined,
    /// `no-cache` cannot be combined with `no-store`.
    NoCacheWithNoStore,
    /// `max-age` cannot be combined with `no-store`.
    MaxAgeWithNoStore,
    /// `max-age` directive is malformed.
    MalformedMaxAge,
    /// `If-None-Match` header required when using `max-age` or `no-cache`.
    MissingEtag,
    /// `If-None-Match` header is empty.
    EmptyEtag,
    /// multiple `etag` values in `If-None-Match` are not supported.
    MultipleEtags,
    /// weak `etag` values in `If-None-Match` are not supported.
    WeakEtag,
}

/// The directive flags of a `Cache-Control` header.
#[derive(Debug, Clone, Copy, PartialEq, Eq, Structural)]
pub struct Directives {
    /// Make the HTTP request and then update the cache with the response.
    pub no_cache: bool,
    /// Make the HTTP request and do not cache the response.
    pub no_store: bool,
    /// Length of time to cache the response in seconds.
    pub max_age: u64,
}

/// Parsed cache behaviour of a request.
#[derive(Debug, Clone)]
pub struct Control {
    pub no_cache: bool,
    pub no_store: bool,
    pub max_age: u64,
    /// ETag used as the cache key, taken from `If-None-Match`.
    pub etag: String,
}

impl View for Control {
    type V = (Directives, Seq<char>);

    open spec fn view(&self) -> (Directives, Seq<char>) {
        (Directives { no_cache: self.no_cache, no_store: self.no_store, max_age: self.max_age },
            self.etag@)
    }
}

pub open spec fn no_directives() -> Directives {
    Directives { no_cache: false, no_store: false, max_age: 0 }
}

/// A byte that `HeaderValue::to_str` accepts: visible ASCII or tab.
pub open spec fn is_visible_ascii(b: u8) -> bool {
    b == 9 || (32 <= b && b < 127)
}

pub open spec fn all_visible(s: Seq<u8>) -> bool {
    forall|i: int| 0 <= i < s.len() ==> is_visible_ascii(#[trigger] s[i])
}

/// ASCII bytes read as characters.
pub open spec fn as_chars(s: Seq<u8>) -> Seq<char> {
    s.map_values(|b: u8| b as char)
}

/// The whitespace that can occur in a visible-ASCII header value.
pub open spec fn is_blank(c: char) -> bool {
    c == ' ' || c == '\t'
}

pub open spec fn trim_start(s: Seq<char>) -> Seq<char>
    decreases s.len(),
{
    if s.len() > 0 && is_blank(s[0]) {
        trim_start(s.drop_first())
    } else {
        s
    }
}

pub open spec fn trim_end(s: Seq<char>) -> Seq<char>
    decreases s.len(),
{
    if s.len() > 0 && is_blank(s.last()) {
        trim_end(s.drop_last())
    } else {
        s
    }
}

/// `str::trim` on a visible-ASCII string.
pub open spec fn trim(s: Seq<char>) -> Seq<char> {
    trim_end(trim_start(s))
}

pub open spec fn lower_char(c: char) -> char {
    if 'A' <= c && c <= 'Z' {
        ((c as u32) + 32) as char
    } else {
        c
    }
}

/// `str::to_ascii_lowercase`.
pub open spec fn lower(s: Seq<char>) -> Seq<char> {
    s.map_values(|c: char| lower_char(c))
}

/// The pieces of `s` between separators, with `cur` the piece read so far.
pub open spec fn split_from(s: Seq<char>, sep: char, cur: Seq<char>) -> Seq<Seq<char>>
    decreases s.len(),
{
    if s.len() == 0 {
        seq![cur]
    } else if s[0] == sep {
        seq![cur] + split_from(s.drop_first(), sep, Seq::empty())
    } else {
        split_from(s.drop_first(), sep, cur.push(s[0]))
    }
}

/// `str::split(sep)`: every piece, empty ones included.
pub open spec fn split_on(s: Seq<char>, sep: char) -> Seq<Seq<char>> {
    split_from(s, sep, Seq::empty())
}

pub open spec fn is_digit(c: char) -> bool {
    '0' <= c && c <= '9'
}

pub open spec fn all_digits(s: Seq<char>) -> bool {
    forall|i: int| 0 <= i < s.len() ==> is_digit(#[trigger] s[i])
}

/// Decimal value of a string of digits.
pub open spec fn digits_value(s: Seq<char>) -> nat
    decreases s.len(),
{
    if s.len() == 0 {
        0
    } else {
        digits_value(s.drop_last()) * 10 + ((s.last() as u32) - ('0' as u32)) as nat
    }
}

/// `str::parse::<u64>`: an optional `+`, then one or more digits, in range.
pub open spec fn parse_u64(s: Seq<char>) -> Option<u64> {
    let d = if s.len() > 0 && s[0] == '+' {
        s.drop_first()
    } else {
        s
    };
    if d.len() > 0 && all_digits(d) && digits_value(d) <= u64::MAX {
        Some(digits_value(d) as u64)
    } else {
        None
    }
}

/// One `Cache-Control` directive applied to the flags read so far.
pub open spec fn apply_directive(acc: Directives, raw: Seq<char>) -> Result<Directives, CacheError> {
    let d = lower(trim(raw));
    if d.len() == 0 {
        Ok(acc)
    } else if d == "no-store"@ {
        if acc.no_cache || acc.max_age > 0 {
            Err(CacheError::NoStoreCombined)
        } else {
            Ok(Directives { no_store: true, ..acc })
        }
    } else if d == "no-cache"@ {
        if acc.no_store {
            Err(CacheError::NoCacheWithNoStore)
        } else {
            Ok(Directives { no_cache: true, ..acc })
        }
    } else if d.len() >= "max-age="@.len() && d.take("max-age="@.len() as int) == "max-age="@ {
        if acc.no_store {
            Err(CacheError::MaxAgeWithNoStore)
        } else {
            match parse_u64(trim(d.skip("max-age="@.len() as int))) {
                Some(v) => Ok(Directives { max_age: v, ..acc }),
                None => Err(CacheError::MalformedMaxAge),
            }
        }
    } else {
        Ok(acc)
    }
}

/// All directives applied in order, stopping at the first refusal.
pub open spec fn apply_all(acc: Result<Directives, CacheError>, ds: Seq<Seq<char>>) -> Result<
    Directives,
    CacheError,
>
    decreases ds.len(),
{
    match acc {
        Err(e) => Err(e),
        Ok(a) => if ds.len() == 0 {
            Ok(a)
        } else {
            apply_all(apply_directive(a, ds[0]), ds.drop_first())
        },
    }
}

/// The strong etag that `If-None-Match` names.
pub open spec fn check_etag(if_none_match: Option<Seq<u8>>) -> Result<Seq<char>, CacheError> {
    match if_none_match {
        None => Err(CacheError::MissingEtag),
        Some(e) => if e.len() == 0 {
            Err(CacheError::EmptyEtag)
        } else if !all_visible(e) {
            Err(CacheError::InvalidHeaderValue)
        } else if as_chars(e).contains(',') {
            Err(CacheError::MultipleEtags)
        } else if e.len() >= 2 && as_chars(e).take(2) == "W/"@ {
            Err(CacheError::WeakEtag)
        } else {
            Ok(as_chars(e))
        },
    }
}

/// The cache behaviour that a request's `Cache-Control` and
/// `If-None-Match` header values ask for.
pub open spec fn parse_control_spec(cache_control: Option<Seq<u8>>, if_none_match: Option<Seq<u8>>) -> Result<
    (Directives, Seq<char>),
    CacheError,
> {
    match cache_control {
        None => Ok((no_directives(), Seq::empty())),
        Some(v) => if v.len() == 0 {
            Err(CacheError::EmptyCacheControl)
        } else if !all_visible(v) {
            Err(CacheError::InvalidHeaderValue)
        } else {
            match apply_all(Ok(no_directives()), split_on(as_chars(v), ',')) {
                Err(e) => Err(e),
                Ok(d) => if d.no_store {
                    Ok((d, Seq::empty()))
                } else {
                    match check_etag(if_none_match) {
                        Err(e) => Err(e),
                        Ok(etag) => Ok((d, etag)),
                    }
                },
            }
        },
    }
}

pub open spec fn opt_bytes(o: Option<&[u8]>) -> Option<Seq<u8>> {
    match o {
        Some(v) => Some(v@),
        None => None,
    }
}

pub open spec fn control_result_view(r: Result<Control, CacheError>) -> Result<
    (Directives, Seq<char>),
    CacheError,
> {
    match r {
        Ok(c) => Ok(c@),
        Err(e) => Err(e),
    }
}

// ----------------------------------------------------------------------
// Lemmas about the character-level helpers
// ----------------------------------------------------------------------

proof fn lemma_trim_start_skip(s: Seq<char>, a: int)
    requires
        0 <= a <= s.len(),
        forall|j: int| 0 <= j < a ==> is_blank(#[trigger] s[j]),
        a == s.len() || !is_blank(s[a]),
    ensures
        trim_start(s) == s.skip(a),
    decreases a,
{
    if a == 0 {
        assert(s.skip(0) =~= s);
    } else {
        assert(is_blank(s[0]));
        let t = s.drop_first();
        assert forall|j: int| 0 <= j < a - 1 implies is_blank(#[trigger] t[j]) by {
            assert(t[j] == s[j + 1]);
        }
        lemma_trim_start_skip(t, a - 1);
        assert(t.skip(a - 1) =~= s.skip(a));
    }
}

proof fn lemma_trim_end_take(s: Seq<char>, b: int)
    requires
        0 <= b <= s.len(),
        forall|j: int| b <= j < s.len() ==> is_blank(#[trigger] s[j]),
        b == 0 || !is_blank(s[b - 1]),
    ensures
        trim_end(s) == s.take(b),
    decreases s.len() - b,
{
    if b == s.len() {
        assert(s.take(b) =~= s);
    } else {
        assert(is_blank(s.last()));
        let t = s.drop_last();
        lemma_trim_end_take(t, b);
        assert(t.take(b) =~= s.take(b));
    }
}

proof fn lemma_digits_step(s: Seq<char>, k: int)
    requires
        0 <= k < s.len(),
    ensures
        digits_value(s.take(k + 1)) == digits_value(s.take(k)) * 10 + ((s[k] as u32) - ('0' as u32)) as nat,
{
    assert(s.take(k + 1).drop_last() =~= s.take(k));
}

proof fn lemma_digits_monotone(s: Seq<char>, k: int)
    requires
        0 <= k <= s.len(),
        all_digits(s),
    ensures
        digits_value(s.take(k)) <= digits_value(s),
    decreases s.len() - k,
{
    if k == s.len() {
        assert(s.take(k) =~= s);
    } else {
        lemma_digits_step(s, k);
        assert(is_digit(s[k]));
        lemma_digits_monotone(s, k + 1);
    }
}

// ----------------------------------------------------------------------
// Executable parsing
// ----------------------------------------------------------------------

/// Whether every byte of `s` is visible ASCII (what `HeaderValue::to_str`
/// accepts).
pub fn visible_ascii(s: &[u8]) -> (res: bool)
    ensures
        res == all_visible(s@),
{
    let mut i: usize = 0;
    while i < s.len()
        invariant
            i <= s.len(),
            forall|j: int| 0 <= j < i ==> is_visible_ascii(#[trigger] s@[j]),
        decreases s.len() - i,
    {
        let b = s[i];
        if !(b == 9 || (32 <= b && b < 127)) {
            return false;
        }
        i = i + 1;
    }
    true
}

/// The bytes of `s` as characters.
pub fn to_chars(s: &[u8]) -> (res: Vec<char>)
    requires
        all_visible(s@),
    ensures
        res@ == as_chars(s@),
{
    let mut out: Vec<char> = Vec::new();
    let mut i: usize = 0;
    while i < s.len()
        invariant
            i <= s.len(),
            out@ == as_chars(s@.take(i as int)),
        decreases s.len() - i,
    {
        out.push(s[i] as char);
        i = i + 1;
        assert(as_chars(s@.take(i as int)) =~= as_chars(s@.take(i - 1)).push(s@[i - 1] as char));
    }
    assert(s@.take(s.len() as int) =~= s@);
    out
}

/// The characters `s[from..to]`.
fn slice_chars(s: &Vec<char>, from: usize, to: usize) -> (res: Vec<char>)
    requires
        from <= to <= s.len(),
    ensures
        res@ == s@.subrange(from as int, to as int),
{
    let mut out: Vec<char> = Vec::new();
    let mut i = from;
    while i < to
        invariant
            from <= i <= to <= s.len(),
            out@ == s@.subrange(from as int, i as int),
        decreases to - i,
    {
        out.push(s[i]);
        i = i + 1;
        assert(out@ =~= s@.subrange(from as int, i as int));
    }
    out
}

/// `str::trim` on visible-ASCII characters.
pub fn trim_chars(s: &Vec<char>) -> (res: Vec<char>)
    ensures
        res@ == trim(s@),
{
    let mut a: usize = 0;
    while a < s.len() && (s[a] == ' ' || s[a] == '\t')
        invariant
            a <= s.len(),
            forall|j: int| 0 <= j < a ==> is_blank(#[trigger] s@[j]),
        decreases s.len() - a,
    {
        a = a + 1;
    }
    proof {
        lemma_trim_start_skip(s@, a as int);
    }
    let mut b: usize = s.len();
    while b > a && (s[b - 1] == ' ' || s[b - 1] == '\t')
        invariant
            a <= b <= s.len(),
            forall|j: int| b <= j < s.len() ==> is_blank(#[trigger] s@[j]),
        decreases b,
    {
        b = b - 1;
    }
    proof {
        let t = s@.skip(a as int);
        let k = b - a;
        assert forall|j: int| k <= j < t.len() implies is_blank(#[trigger] t[j]) by {
            assert(t[j] == s@[j + a]);
        }
        if k > 0 {
            assert(t[k - 1] == s@[b - 1]);
        }
        lemma_trim_end_take(t, k as int);
        assert(t.take(k as int) =~= s@.subrange(a as int, b as int));
    }
    slice_chars(s, a, b)
}

/// `str::to_ascii_lowercase`.
pub fn lower_chars(s: &Vec<char>) -> (res: Vec<char>)
    ensures
        res@ == lower(s@),
{
    let mut out: Vec<char> = Vec::new();
    let mut i: usize = 0;
    while i < s.len()
        invariant
            i <= s.len(),
            out@ == lower(s@.take(i as int)),
        decreases s.len() - i,
    {
        let c = s[i];
        let l = if 'A' <= c && c <= 'Z' {
            char_add_32(c)
        } else {
            c
        };
        out.push(l);
        i = i + 1;
        assert(lower(s@.take(i as int)) =~= lower(s@.take(i - 1)).push(lower_char(s@[i - 1])));
    }
    assert(s@.take(s.len() as int) =~= s@);
    out
}

/// The lowercase letter of an uppercase ASCII letter.
fn char_add_32(c: char) -> (res: char)
    requires
        'A' <= c && c <= 'Z',
    ensures
        res == ((c as u32) + 32) as char,
{
    let b: u8 = (c as u8) + 32;
    b as char
}


/// Appends `c` to `s` (`String::push`).
#[verifier::external_body]
pub fn push_char(s: &mut String, c: char)
    ensures
        final(s)@ == old(s)@.push(c),
{
    s.push(c);
}

/// The characters of `v` as a `String`.
pub fn chars_to_string(v: &Vec<char>) -> (res: String)
    ensures
        res@ == v@,
{
    let mut out = String::new();
    let mut i: usize = 0;
    while i < v.len()
        invariant
            i <= v.len(),
            out@ == v@.take(i as int),
        decreases v.len() - i,
    {
        push_char(&mut out, v[i]);
        i = i + 1;
        assert(out@ =~= v@.take(i as int));
    }
    assert(v@.take(v.len() as int) =~= v@);
    out
}

/// The characters of a string.
pub fn string_chars(s: &String) -> (res: Vec<char>)
    ensures
        res@ == s@,
{
    let st = s.as_str();
    let n = st.unicode_len();
    let mut out: Vec<char> = Vec::new();
    let mut i: usize = 0;
    while i < n
        invariant
            n == st@.len(),
            st@ == s@,
            i <= n,
            out@ == s@.take(i as int),
        decreases n - i,
    {
        out.push(st.get_char(i));
        i = i + 1;
        assert(out@ =~= s@.take(i as int));
    }
    assert(s@.take(n as int) =~= s@);
    out
}

/// Whether `s` spells exactly the literal `lit`.
pub fn chars_eq(s: &Vec<char>, lit: &str) -> (res: bool)
    ensures
        res == (s@ == lit@),
{
    let n = lit.unicode_len();
    if s.len() != n {
        return false;
    }
    let mut i: usize = 0;
    while i < n
        invariant
            n == lit@.len() == s.len(),
            i <= n,
            forall|j: int| 0 <= j < i ==> s@[j] == lit@[j],
        decreases n - i,
    {
        if s[i] != lit.get_char(i) {
            return false;
        }
        i = i + 1;
    }
    assert(s@ =~= lit@);
    true
}

/// Whether `s` begins with the literal `lit`.
pub fn starts_with_lit(s: &Vec<char>, lit: &str) -> (res: bool)
    ensures
        res == (s@.len() >= lit@.len() && s@.take(lit@.len() as int) == lit@),
{
    let n = lit.unicode_len();
    if s.len() < n {
        return false;
    }
    let mut i: usize = 0;
    while i < n
        invariant
            n == lit@.len() <= s.len(),
            i <= n,
            forall|j: int| 0 <= j < i ==> s@[j] == lit@[j],
        decreases n - i,
    {
        if s[i] != lit.get_char(i) {
            return false;
        }
        i = i + 1;
    }
    assert(s@.take(n as int) =~= lit@);
    true
}

/// Whether `c` occurs in `s`.
pub fn contains_char(s: &Vec<char>, c: char) -> (res: bool)
    ensures
        res == s@.contains(c),
{
    let mut i: usize = 0;
    while i < s.len()
        invariant
            i <= s.len(),
            forall|j: int| 0 <= j < i ==> s@[j] != c,
        decreases s.len() - i,
    {
        if s[i] == c {
            return true;
        }
        i = i + 1;
    }
    false
}

pub open spec fn piece_views(pieces: Seq<Vec<char>>) -> Seq<Seq<char>> {
    pieces.map_values(|p: Vec<char>| p@)
}

/// `str::split(sep)`.
pub fn split_chars(s: &Vec<char>, sep: char) -> (res: Vec<Vec<char>>)
    ensures
        piece_views(res@) == split_on(s@, sep),
{
    let mut pieces: Vec<Vec<char>> = Vec::new();
    let mut start: usize = 0;
    let mut i: usize = 0;
    assert(s@.skip(0) =~= s@);
    assert(s@.subrange(0, 0) =~= Seq::<char>::empty());
    assert(piece_views(pieces@) =~= Seq::<Seq<char>>::empty());
    while i < s.len()
        invariant
            start <= i <= s.len(),
            split_on(s@, sep) == piece_views(pieces@) + split_from(
                s@.skip(i as int),
                sep,
                s@.subrange(start as int, i as int),
            ),
        decreases s.len() - i,
    {
        let ghost rest = s@.skip(i as int);
        assert(rest.drop_first() =~= s@.skip(i + 1));
        assert(rest[0] == s@[i as int]);
        if s[i] == sep {
            let piece = slice_chars(s, start, i);
            let ghost before = pieces@;
            pieces.push(piece);
            assert(piece_views(pieces@) =~= piece_views(before).push(piece@));
            assert(s@.subrange(i + 1, i + 1) =~= Seq::<char>::empty());
            start = i + 1;
            assert(piece_views(before) + (seq![piece@] + split_from(s@.skip(i + 1), sep, Seq::empty()))
                =~= piece_views(pieces@) + split_from(s@.skip(i + 1), sep, Seq::empty()));
        } else {
            assert(s@.subrange(start as int, i as int).push(s@[i as int]) =~= s@.subrange(
                start as int,
                i + 1,
            ));
        }
        i = i + 1;
    }
    let piece = slice_chars(s, start, s.len());
    let ghost before = pieces@;
    pieces.push(piece);
    assert(s@.skip(s.len() as int) =~= Seq::<char>::empty());
    assert(piece_views(pieces@) =~= piece_views(before).push(piece@));
    assert(piece_views(before) + seq![piece@] =~= piece_views(pieces@));
    pieces
}

/// `str::parse::<u64>`.
pub fn parse_u64_chars(s: &Vec<char>) -> (res: Option<u64>)
    ensures
        res == parse_u64(s@),
{
    let start: usize = if s.len() > 0 && s[0] == '+' {
        1
    } else {
        0
    };
    let ghost d = if s@.len() > 0 && s@[0] == '+' {
        s@.drop_first()
    } else {
        s@
    };
    assert(d =~= s@.skip(start as int));
    if start == s.len() {
        return None;
    }
    let mut i: usize = start;
    while i < s.len()
        invariant
            start <= i <= s.len(),
            d =~= s@.skip(start as int),
            d == (if s@.len() > 0 && s@[0] == '+' { s@.drop_first() } else { s@ }),
            d.len() > 0,
            forall|j: int| 0 <= j < i - start ==> is_digit(#[trigger] d[j]),
        decreases s.len() - i,
    {
        if !('0' <= s[i] && s[i] <= '9') {
            assert(d[i - start] == s@[i as int]);
            assert(!is_digit(d[i - start]));
            assert(!all_digits(d));
            assert(parse_u64(s@) == None::<u64>);
            return None;
        }
        assert(d[i - start] == s@[i as int]);
        i = i + 1;
    }
    assert(all_digits(d));
    let mut v: u64 = 0;
    let mut i: usize = start;
    assert(d.take(0) =~= Seq::<char>::empty());
    while i < s.len()
        invariant
            start <= i <= s.len(),
            d =~= s@.skip(start as int),
            d == (if s@.len() > 0 && s@[0] == '+' { s@.drop_first() } else { s@ }),
            d.len() > 0,
            all_digits(d),
            v as nat == digits_value(d.take(i - start)),
        decreases s.len() - i,
    {
        assert(d[i - start] == s@[i as int]);
        assert(is_digit(d[i - start]));
        let dg: u64 = ((s[i] as u32) - ('0' as u32)) as u64;
        proof {
            lemma_digits_step(d, i - start);
        }
        if v > (u64::MAX - dg) / 10 {
            proof {
                assert(v * 10 + dg > u64::MAX) by (nonlinear_arith)
                    requires
                        v > (u64::MAX - dg) / 10,
                        dg <= 9,
                ;
                lemma_digits_monotone(d, i - start + 1);
                assert(digits_value(d.take(i - start + 1)) == v * 10 + dg);
                assert(digits_value(d) > u64::MAX);
                assert(parse_u64(s@) == None::<u64>);
            }
            return None;
        }
        assert(v * 10 + dg <= u64::MAX) by (nonlinear_arith)
            requires
                v <= (u64::MAX - dg) / 10,
                dg <= 9,
        ;
        v = v * 10 + dg;
        i = i + 1;
    }
    assert(d.take(d.len() as int) =~= d);
    Some(v)
}

/// One `Cache-Control` directive applied to the flags read so far.
pub fn apply_directive_exec(acc: Directives, raw: &Vec<char>) -> (res: Result<Directives, CacheError>)
    ensures
        res == apply_directive(acc, raw@),
{
    let t = trim_chars(raw);
    let d = lower_chars(&t);
    if d.len() == 0 {
        return Ok(acc);
    }
    if chars_eq(&d, "no-store") {
        if acc.no_cache || acc.max_age > 0 {
            return Err(CacheError::NoStoreCombined);
        }
        return Ok(Directives { no_store: true, ..acc });
    }
    if chars_eq(&d, "no-cache") {
        if acc.no_store {
            return Err(CacheError::NoCacheWithNoStore);
        }
        return Ok(Directives { no_cache: true, ..acc });
    }
    if starts_with_lit(&d, "max-age=") {
        if acc.no_store {
            return Err(CacheError::MaxAgeWithNoStore);
        }
        let n = "max-age=".unicode_len();
        let rest = slice_chars(&d, n, d.len());
        assert(rest@ =~= d@.skip(n as int));
        let value = trim_chars(&rest);
        return match parse_u64_chars(&value) {
            Some(v) => Ok(Directives { max_age: v, ..acc }),
            None => Err(CacheError::MalformedMaxAge),
        };
    }
    Ok(acc)
}

/// The strong etag that an `If-None-Match` value names.
pub fn check_etag_exec(if_none_match: Option<&[u8]>) -> (res: Result<Vec<char>, CacheError>)
    ensures
        match res {
            Ok(v) => check_etag(opt_bytes(if_none_match)) == Ok::<Seq<char>, CacheError>(v@),
            Err(e) => check_etag(opt_bytes(if_none_match)) == Err::<Seq<char>, CacheError>(e),
        },
{
    match if_none_match {
        None => Err(CacheError::MissingEtag),
        Some(e) => {
            if e.len() == 0 {
                return Err(CacheError::EmptyEtag);
            }
            if !visible_ascii(e) {
                return Err(CacheError::InvalidHeaderValue);
            }
            let cs = to_chars(e);
            if contains_char(&cs, ',') {
                return Err(CacheError::MultipleEtags);
            }
            if starts_with_lit(&cs, "W/") {
                proof {
                    reveal_strlit("W/");
                }
                return Err(CacheError::WeakEtag);
            }
            proof {
                reveal_strlit("W/");
            }
            Ok(cs)
        },
    }
}

/// Parses a request's `Cache-Control` and `If-None-Match` header values
/// (raw bytes; `None` where the header is absent) into its cache behaviour.
pub fn parse_control(cache_control: Option<&[u8]>, if_none_match: Option<&[u8]>) -> (res: Result<
    Control,
    CacheError,
>)
    ensures
        control_result_view(res) == parse_control_spec(
            opt_bytes(cache_control),
            opt_bytes(if_none_match),
        ),
{
    let v = match cache_control {
        None => {
            return Ok(Control { no_cache: false, no_store: false, max_age: 0, etag: String::new() });
        },
        Some(v) => v,
    };
    if v.len() == 0 {
        return Err(CacheError::EmptyCacheControl);
    }
    if !visible_ascii(v) {
        return Err(CacheError::InvalidHeaderValue);
    }
    let text = to_chars(v);
    let pieces = split_chars(&text, ',');
    let ghost ds = piece_views(pieces@);
    let mut acc = Directives { no_cache: false, no_store: false, max_age: 0 };
    let mut k: usize = 0;
    assert(ds.skip(0) =~= ds);
    while k < pieces.len()
        invariant
            k <= pieces.len(),
            ds == piece_views(pieces@),
            ds == split_on(as_chars(v@), ','),
            cache_control == Some(v),
            v@.len() > 0,
            all_visible(v@),
            apply_all(Ok(no_directives()), ds) == apply_all(Ok(acc), ds.skip(k as int)),
        decreases pieces.len() - k,
    {
        assert(ds.skip(k as int).drop_first() =~= ds.skip(k + 1));
        assert(ds.skip(k as int)[0] == pieces@[k as int]@);
        match apply_directive_exec(acc, &pieces[k]) {
            Ok(next) => {
                acc = next;
            },
            Err(e) => {
                assert(apply_all(Err(e), ds.skip(k + 1)) == Err::<Directives, CacheError>(e));
                assert(apply_all(Ok(acc), ds.skip(k as int)) == Err::<Directives, CacheError>(e));
                assert(apply_all(Ok(no_directives()), ds) == Err::<Directives, CacheError>(e));
                assert(parse_control_spec(opt_bytes(cache_control), opt_bytes(if_none_match)) == Err::<(Directives, Seq<char>), CacheError>(e));
                return Err(e);
            },
        }
        k = k + 1;
    }
    assert(ds.skip(k as int) =~= Seq::<Seq<char>>::empty());
    if acc.no_store {
        return Ok(Control { no_cache: acc.no_cache, no_store: true, max_age: acc.max_age, etag: String::new() });
    }
    match check_etag_exec(if_none_match) {
        Err(e) => Err(e),
        Ok(etag) => Ok(Control {
            no_cache: acc.no_cache,
            no_store: false,
            max_age: acc.max_age,
            etag: chars_to_string(&etag),
        }),
    }
}


// ----------------------------------------------------------------------
// The cache of one outbound request
// ----------------------------------------------------------------------

/// Request extension used to indicate optional caching behavior.
#[derive(Debug)]
pub struct CacheOptions {
    /// Name of the key-value store bucket to use for caching.
    pub bucket_name: String,
}

impl Default for CacheOptions {
    fn default() -> (res: Self)
        ensures
            res.bucket_name@ == CACHE_BUCKET@,
    {
        CacheOptions { bucket_name: owned(CACHE_BUCKET) }
    }
}

/// Whether a parsed control lets a cached response be served.
pub open spec fn serves_from_cache(c: (Directives, Seq<char>)) -> bool {
    !c.0.no_cache && !c.0.no_store && c.1.len() > 0
}

/// Whether a parsed control lets the response be stored.
pub open spec fn stores_in_cache(c: (Directives, Seq<char>)) -> bool {
    !c.0.no_store && c.1.len() > 0 && c.0.max_age != 0
}

/// A cache instance for storing and retrieving responses.
#[derive(Debug)]
pub struct Cache {
    control: Control,
    bucket: String,
}

impl Cache {
    pub closed spec fn control_view(&self) -> (Directives, Seq<char>) {
        self.control@
    }

    pub closed spec fn bucket_view(&self) -> Seq<char> {
        self.bucket@
    }

    /// Creates a cache from the request's header values, if caching is
    /// indicated by a `Cache-Control` header. The bucket is the one named by
    /// the request's `CacheOptions`, or `default-cache`.
    pub fn maybe_from(
        cache_control: Option<&[u8]>,
        if_none_match: Option<&[u8]>,
        options: Option<&CacheOptions>,
    ) -> (res: Result<Option<Cache>, CacheError>)
        ensures
            cache_control is None ==> res == Ok::<Option<Cache>, CacheError>(None),
            cache_control is Some ==> match parse_control_spec(
                opt_bytes(cache_control),
                opt_bytes(if_none_match),
            ) {
                Err(e) => res == Err::<Option<Cache>, CacheError>(e),
                Ok(c) => res matches Ok(Some(cache)) && cache.control_view() == c
                    && cache.bucket_view() == match options {
                    Some(o) => o.bucket_name@,
                    None => CACHE_BUCKET@,
                },
            },
    {
        if cache_control.is_none() {
            return Ok(None);
        }
        let control = match parse_control(cache_control, if_none_match) {
            Ok(c) => c,
            Err(e) => {
                return Err(e);
            },
        };
        let bucket = match options {
            Some(o) => o.bucket_name.clone(),
            None => owned(CACHE_BUCKET),
        };
        Ok(Some(Cache { control, bucket }))
    }

    /// The key-value bucket responses are cached in.
    pub fn bucket(&self) -> (res: String)
        ensures
            res@ == self.bucket_view(),
    {
        self.bucket.clone()
    }

    /// Getter for etag
    pub fn etag(&self) -> (res: String)
        ensures
            res@ == self.control_view().1,
    {
        self.control.etag.clone()
    }

    /// The key to look a cached response up under, or `None` when the cache
    /// is disabled for reads (`no-cache`, `no-store` or no etag).
    pub fn lookup_key(&self) -> (res: Option<String>)
        ensures
            res is Some <==> serves_from_cache(self.control_view()),
            res matches Some(k) ==> k@ == self.control_view().1,
    {
        let c = &self.control;
        if c.no_cache || c.no_store || c.etag.as_str().unicode_len() == 0 {
            None
        } else {
            Some(c.etag.clone())
        }
    }

    /// The key and time-to-live (seconds) to store the response under, or
    /// `None` when the response must not be cached (`no-store`, no etag or
    /// no `max-age`).
    pub fn store_entry(&self) -> (res: Option<(String, u64)>)
        ensures
            res is Some <==> stores_in_cache(self.control_view()),
            res matches Some(e) ==> e.0@ == self.control_view().1 && e.1
                == self.control_view().0.max_age,
    {
        let c = &self.control;
        if c.no_store || c.etag.as_str().unicode_len() == 0 || c.max_age == 0 {
            None
        } else {
            Some((c.etag.clone(), c.max_age))
        }
    }
}

// ----------------------------------------------------------------------
// Laws
// ----------------------------------------------------------------------

pub open spec fn directives_consistent(d: Directives) -> bool {
    d.no_store ==> !d.no_cache && d.max_age == 0
}

proof fn lemma_apply_all_consistent(acc: Result<Directives, CacheError>, ds: Seq<Seq<char>>)
    requires
        acc matches Ok(a) ==> directives_consistent(a),
    ensures
        apply_all(acc, ds) matches Ok(d) ==> directives_consistent(d),
    decreases ds.len(),
{
    match acc {
        Err(_) => {},
        Ok(a) => {
            if ds.len() > 0 {
                lemma_apply_all_consistent(apply_directive(a, ds[0]), ds.drop_first());
            }
        },
    }
}

/// Parsing never yields contradictory directives: `no-store` stands alone
/// (no `no-cache`, no non-zero `max-age`), a `no-store` request carries no
/// etag, and every other accepted request carries a single strong etag
/// (non-empty, no `,`, not starting with `W/`).
pub proof fn law_parsed_control_is_consistent(cache_control: Option<Seq<u8>>, if_none_match: Option<Seq<u8>>)
    ensures
        parse_control_spec(cache_control, if_none_match) matches Ok(c) ==> {
            &&& directives_consistent(c.0)
            &&& c.0.no_store ==> c.1.len() == 0
            &&& cache_control is Some && !c.0.no_store ==> {
                &&& c.1.len() > 0
                &&& !c.1.contains(',')
                &&& !(c.1.len() >= 2 && c.1.take(2) == "W/"@)
            }
        },
{
    if let Some(v) = cache_control {
        lemma_apply_all_consistent(Ok(no_directives()), split_on(as_chars(v), ','));
        if let Some(e) = if_none_match {
            assert(as_chars(e).len() == e.len());
        }
    }
}

/// A request whose cache headers say `no-store` is never answered from the
/// cache and its response is never stored.
pub proof fn law_no_store_bypasses_cache(cache_control: Option<Seq<u8>>, if_none_match: Option<Seq<u8>>)
    ensures
        parse_control_spec(cache_control, if_none_match) matches Ok(c) ==> (c.0.no_store
            ==> !serves_from_cache(c) && !stores_in_cache(c)),
{
}

/// Whenever a request both reads and writes the cache, it does so under the
/// same key: the etag that its `If-None-Match` header names.
pub proof fn law_read_and_write_share_key(cache_control: Seq<u8>, if_none_match: Seq<u8>)
    ensures
        parse_control_spec(Some(cache_control), Some(if_none_match)) matches Ok(c) ==> (
        stores_in_cache(c) ==> c.1 == as_chars(if_none_match)),
{
}

} // verus!
