//! Keeping credentials out of log lines and error messages.
//!
//! The bodies that reach an error message are the ones that failed to parse, so
//! this is a textual pass and no parse. It handles the JSON form
//! (`"passToken":"…"`) and the cookie form (`passToken=…;`), also inside other quoted
//! texts, where a quote is written behind backslashes.

use crate::text::{
    contains, find, find_text, find_text_in_rest, find_text_is_first, find_where,
    find_where_is_first, occurs_at, of_chars, to_chars,
};
use vstd::prelude::*;

verus! {

/// Whether `c` may stand between a credential's name and its value, quotes aside.
pub open spec fn separates(c: char) -> bool {
    c == ':' || c == '=' || c == ' '
}

/// Whether `c` ends a value that is not in quotes.
pub open spec fn ends_value(c: char) -> bool {
    c == '"' || c == ';' || c == ',' || c == '}' || c == '\n'
}

/// The characters that do not separate.
pub open spec fn not_separating() -> spec_fn(char) -> bool {
    |c: char| !separates(c)
}

/// The characters that end a value that is not in quotes.
pub open spec fn value_ending() -> spec_fn(char) -> bool {
    |c: char| ends_value(c)
}

/// The characters other than a backslash.
pub open spec fn not_escaping() -> spec_fn(char) -> bool {
    |c: char| c != '\\'
}

/// How many of the `run` backslashes in front of a quote are the quote's own. One
/// that stands inside other quoted texts is written behind 1, 3, 7 and so on, one
/// more than twice as many for every text around it. The rest belong to the text
/// in front of it.
pub open spec fn escapes(run: int) -> int
    decreases run,
{
    if run <= 0 || run % 2 == 0 {
        0
    } else {
        1 + 2 * escapes(run / 2)
    }
}

/// Where a quoted text ends, and where the character is that ends it: a quote as
/// deep inside other texts as the one that opened it or less deep, or a newline.
/// Otherwise it goes on to the end. The search is at `at`, behind `run` backslashes,
/// and `own` are those of the opening quote. The closing quote's own are not part of
/// the text.
pub open spec fn closing(s: Seq<char>, at: int, run: int, own: int) -> (int, int)
    decreases s.len() - at,
{
    if at >= s.len() {
        (s.len() as int, s.len() as int)
    } else if s[at] == '\n' {
        (at, at)
    } else if s[at] == '"' && escapes(run) <= own {
        (at - escapes(run), at)
    } else if s[at] == '\\' {
        closing(s, at + 1, run + 1, own)
    } else {
        closing(s, at + 1, 0, own)
    }
}

/// Whether `c` may stand in front of a value: a separator, a quote, or a backslash
/// of a quote inside another quoted text.
pub open spec fn leads(c: char) -> bool {
    separates(c) || c == '"' || c == '\\'
}

/// Where a value stands.
pub struct Place {
    pub start: int,
    pub end: int,
    /// Where the character is that ends it. Only backslashes of that character are
    /// in between.
    pub stop: int,
}

/// The value that the separators at `at` lead to. Behind an opening quote it is all
/// that the quotes enclose; a pair of quotes around nothing is passed over.
pub open spec fn value_behind(s: Seq<char>, at: int) -> Place
    decreases s.len() - at,
{
    let start = find_where(s, not_separating(), at);
    let quote = find_where(s, not_escaping(), start);
    if at <= quote < s.len() && s[quote] == '"' {
        let (end, stop) = closing(s, quote + 1, 0, escapes(quote - start));
        if end == quote + 1 && quote < stop < s.len() && s[stop] == '"' {
            value_behind(s, stop + 1)
        } else {
            Place { start: quote + 1, end, stop }
        }
    } else {
        let end = find_where(s, value_ending(), start);
        Place { start, end, stop: end }
    }
}

/// The value whose name ends at `at`. A quote right behind the name belongs to the
/// name.
pub open spec fn value_of(s: Seq<char>, at: int) -> Place {
    let quote = find_where(s, not_escaping(), at);
    if quote < s.len() && s[quote] == '"' {
        value_behind(s, quote + 1)
    } else {
        value_behind(s, at)
    }
}

/// What a value is replaced by.
pub open spec fn mask() -> Seq<char> {
    "<redacted>"@
}

/// What stands in the place of a value: the mask, or nothing where there is none.
pub open spec fn replacement(v: Place) -> Seq<char> {
    if v.end == v.start {
        Seq::empty()
    } else {
        mask()
    }
}

/// `s` with every value that follows `key` replaced, the whole of it. A mention of
/// the name without a value stays as it is.
pub open spec fn scrubbed(s: Seq<char>, key: Seq<char>) -> Seq<char>
    decreases s.len(),
{
    match find_text(s, key, 0) {
        None => s,
        Some(at) => {
            let v = value_of(s, at + key.len());
            if key.len() == 0 || at < 0 || !(at + key.len() <= v.start <= v.end <= s.len()) {
                s
            } else {
                s.take(v.start) + replacement(v) + scrubbed(s.skip(v.end), key)
            }
        },
    }
}

/// The names of the credentials that Xiaomi hands back in the clear. `passToken` is
/// equivalent to the password.
pub open spec fn secret_keys() -> Seq<Seq<char>> {
    seq!["passToken"@, "ssecurity"@, "serviceToken"@, "cUserId"@]
}

/// `text` with every credential replaced.
pub open spec fn redacted(text: Seq<char>) -> Seq<char> {
    scrubbed(
        scrubbed(scrubbed(scrubbed(text, "passToken"@), "ssecurity"@), "serviceToken"@),
        "cUserId"@,
    )
}

fn is_separating(c: char) -> (r: bool)
    ensures
        r == separates(c),
{
    c == ':' || c == '=' || c == ' '
}

fn is_ending(c: char) -> (r: bool)
    ensures
        r == ends_value(c),
{
    c == '"' || c == ';' || c == ',' || c == '}' || c == '\n'
}

/// How many of the `run` backslashes in front of a quote are the quote's own.
fn own_escapes(run: usize) -> (r: usize)
    ensures
        r == escapes(run as int),
        r <= run,
    decreases run,
{
    if run % 2 == 0 {
        0
    } else {
        1 + 2 * own_escapes(run / 2)
    }
}

/// Where the quoted text ends that begins at `at`, and where the character is that
/// ends it.
fn find_closing(chars: &Vec<char>, at: usize, own: usize) -> (r: (usize, usize))
    requires
        at <= chars@.len(),
    ensures
        (r.0 as int, r.1 as int) == closing(chars@, at as int, 0, own as int),
        at <= r.0 <= r.1 <= chars@.len(),
{
    let n: usize = chars.len();
    let mut i: usize = at;
    let mut run: usize = 0;
    while i < n
        invariant
            n == chars@.len(),
            at <= i <= n,
            run <= i - at,
            closing(chars@, at as int, 0, own as int) == closing(
                chars@,
                i as int,
                run as int,
                own as int,
            ),
        decreases n - i,
    {
        let c = chars[i];
        if c == '\n' {
            return (i, i);
        }
        if c == '"' {
            let escaping: usize = own_escapes(run);
            if escaping <= own {
                return (i - escaping, i);
            }
        }
        if c == '\\' {
            run += 1;
        } else {
            run = 0;
        }
        i += 1;
    }
    (n, n)
}

/// Where the backslashes at `at` end.
fn past_escapes(chars: &Vec<char>, at: usize) -> (r: usize)
    requires
        at <= chars@.len(),
    ensures
        r == find_where(chars@, not_escaping(), at as int),
        at <= r <= chars@.len(),
{
    let mut i: usize = at;
    while i < chars.len() && chars[i] == '\\'
        invariant
            at <= i <= chars@.len(),
            find_where(chars@, not_escaping(), at as int) == find_where(
                chars@,
                not_escaping(),
                i as int,
            ),
        decreases chars@.len() - i,
    {
        i += 1;
    }
    i
}

/// The value that the separators at `at` lead to.
fn find_value(chars: &Vec<char>, at: usize) -> (r: (usize, usize))
    requires
        at <= chars@.len(),
    ensures
        r.0 == value_behind(chars@, at as int).start,
        r.1 == value_behind(chars@, at as int).end,
        at <= r.0 <= r.1 <= chars@.len(),
    decreases chars@.len() - at,
{
    let n: usize = chars.len();
    let mut start: usize = at;
    while start < n && is_separating(chars[start])
        invariant
            n == chars@.len(),
            at <= start <= n,
            find_where(chars@, not_separating(), at as int) == find_where(
                chars@,
                not_separating(),
                start as int,
            ),
        decreases n - start,
    {
        start += 1;
    }
    let quote: usize = past_escapes(chars, start);
    if quote < n && chars[quote] == '"' {
        let (end, stop) = find_closing(chars, quote + 1, own_escapes(quote - start));
        if end == quote + 1 && stop < n && chars[stop] == '"' {
            return find_value(chars, stop + 1);
        }
        return (quote + 1, end);
    }
    let mut end: usize = start;
    while end < n && !is_ending(chars[end])
        invariant
            n == chars@.len(),
            start <= end <= n,
            find_where(chars@, value_ending(), start as int) == find_where(
                chars@,
                value_ending(),
                end as int,
            ),
        decreases n - end,
    {
        end += 1;
    }
    (start, end)
}

/// The value whose name ends at `at`.
fn find_named_value(chars: &Vec<char>, at: usize) -> (r: (usize, usize))
    requires
        at <= chars@.len(),
    ensures
        r.0 == value_of(chars@, at as int).start,
        r.1 == value_of(chars@, at as int).end,
        at <= r.0 <= r.1 <= chars@.len(),
{
    let quote: usize = past_escapes(chars, at);
    if quote < chars.len() && chars[quote] == '"' {
        find_value(chars, quote + 1)
    } else {
        find_value(chars, at)
    }
}

proof fn find_where_in_rest(s: Seq<char>, f: spec_fn(char) -> bool, n: int, from: int)
    requires
        0 <= n <= s.len(),
        0 <= from <= s.len() - n,
    ensures
        find_where(s, f, n + from) == n + find_where(s.skip(n), f, from),
    decreases s.len() - from,
{
    let rest = s.skip(n);
    if from < rest.len() && !f(rest[from]) {
        find_where_in_rest(s, f, n, from + 1);
    }
}

proof fn escapes_bounds(run: int)
    requires
        0 <= run,
    ensures
        0 <= escapes(run) <= run,
        escapes(escapes(run)) == escapes(run),
    decreases run,
{
    if run % 2 != 0 {
        escapes_bounds(run / 2);
        assert((1 + 2 * escapes(run / 2)) / 2 == escapes(run / 2));
    }
}

/// What is known of where a quoted text ends.
proof fn closing_bounds(s: Seq<char>, at: int, run: int, own: int)
    requires
        0 <= run <= at <= s.len(),
        forall|j: int| at - run <= j < at ==> #[trigger] s[j] == '\\',
    ensures
        ({
            let (end, stop) = closing(s, at, run, own);
            &&& at - run <= end <= stop <= s.len()
            &&& at <= stop
            &&& forall|j: int| end <= j < stop ==> #[trigger] s[j] == '\\'
            &&& stop == s.len() ==> end == stop
            &&& stop < s.len() ==> (s[stop] == '\n' && end == stop) || (s[stop] == '"' && escapes(
                stop - end,
            ) == stop - end <= own)
        }),
    decreases s.len() - at,
{
    escapes_bounds(run);
    if at < s.len() && s[at] != '\n' && !(s[at] == '"' && escapes(run) <= own) {
        if s[at] == '\\' {
            closing_bounds(s, at + 1, run + 1, own);
        } else {
            closing_bounds(s, at + 1, 0, own);
        }
    }
}

proof fn closing_in_rest(s: Seq<char>, n: int, at: int, run: int, own: int)
    requires
        0 <= n <= s.len(),
        0 <= at <= s.len() - n,
    ensures
        closing(s, n + at, run, own) == (
            n + closing(s.skip(n), at, run, own).0,
            n + closing(s.skip(n), at, run, own).1,
        ),
    decreases s.len() - at,
{
    let rest = s.skip(n);
    if at < rest.len() {
        assert(rest[at] == s[n + at]);
        if s[n + at] == '\\' {
            closing_in_rest(s, n, at + 1, run + 1, own);
        } else {
            closing_in_rest(s, n, at + 1, 0, own);
        }
    }
}

/// What is known of a value whose separators, or whose name's end, stand at `at`.
spec fn proper_place(s: Seq<char>, at: int, v: Place) -> bool {
    &&& at <= v.start <= v.end <= v.stop <= s.len()
    &&& forall|j: int| at <= j < v.start ==> leads(#[trigger] s[j])
    &&& at < v.start ==> s[v.start - 1] != '\\'
    &&& forall|j: int| v.end <= j < v.stop ==> #[trigger] s[j] == '\\'
    &&& v.stop == s.len() ==> v.end == v.stop
    &&& v.stop < s.len() ==> ends_value(s[v.stop])
}

proof fn separators_lead(s: Seq<char>, at: int)
    requires
        0 <= at <= s.len(),
    ensures
        ({
            let start = find_where(s, not_separating(), at);
            let quote = find_where(s, not_escaping(), start);
            &&& at <= start <= quote <= s.len()
            &&& forall|j: int| at <= j < start ==> separates(#[trigger] s[j])
            &&& forall|j: int| start <= j < quote ==> #[trigger] s[j] == '\\'
            &&& start < s.len() ==> !separates(s[start])
            &&& quote < s.len() ==> s[quote] != '\\'
        }),
{
    find_where_is_first(s, not_separating(), at);
    let start = find_where(s, not_separating(), at);
    find_where_is_first(s, not_escaping(), start);
    let quote = find_where(s, not_escaping(), start);
    assert forall|j: int| at <= j < start implies separates(#[trigger] s[j]) by {
        assert(!not_separating()(s[j]));
    }
    assert forall|j: int| start <= j < quote implies #[trigger] s[j] == '\\' by {
        assert(!not_escaping()(s[j]));
    }
}

/// What is known of the value that the separators at `at` lead to.
proof fn value_bounds(s: Seq<char>, at: int)
    requires
        0 <= at <= s.len(),
    ensures
        proper_place(s, at, value_behind(s, at)),
    decreases s.len() - at,
{
    separators_lead(s, at);
    let start = find_where(s, not_separating(), at);
    let quote = find_where(s, not_escaping(), start);
    if quote < s.len() && s[quote] == '"' {
        closing_bounds(s, quote + 1, 0, escapes(quote - start));
        let (end, stop) = closing(s, quote + 1, 0, escapes(quote - start));
        if end == quote + 1 && stop < s.len() && s[stop] == '"' {
            value_bounds(s, stop + 1);
        }
    } else {
        find_where_is_first(s, value_ending(), start);
    }
}

/// What is known of the value whose name ends at `at`.
proof fn named_value_bounds(s: Seq<char>, at: int)
    requires
        0 <= at <= s.len(),
    ensures
        proper_place(s, at, value_of(s, at)),
{
    find_where_is_first(s, not_escaping(), at);
    let quote = find_where(s, not_escaping(), at);
    assert forall|j: int| at <= j < quote implies #[trigger] s[j] == '\\' by {
        assert(!not_escaping()(s[j]));
    }
    if quote < s.len() && s[quote] == '"' {
        value_bounds(s, quote + 1);
    } else {
        value_bounds(s, at);
    }
}

/// `v`, `n` characters further on.
spec fn further(v: Place, n: int) -> Place {
    Place { start: n + v.start, end: n + v.end, stop: n + v.stop }
}

proof fn value_behind_in_rest(s: Seq<char>, n: int, at: int)
    requires
        0 <= n <= s.len(),
        0 <= at <= s.len() - n,
    ensures
        value_behind(s, n + at) == further(value_behind(s.skip(n), at), n),
    decreases s.len() - at,
{
    let rest = s.skip(n);
    separators_lead(rest, at);
    let start = find_where(rest, not_separating(), at);
    let quote = find_where(rest, not_escaping(), start);
    find_where_in_rest(s, not_separating(), n, at);
    find_where_in_rest(s, not_escaping(), n, start);
    if quote < rest.len() && rest[quote] == '"' {
        let own = escapes(quote - start);
        closing_in_rest(s, n, quote + 1, 0, own);
        closing_bounds(rest, quote + 1, 0, own);
        let (end, stop) = closing(rest, quote + 1, 0, own);
        if end == quote + 1 && stop < rest.len() && rest[stop] == '"' {
            assert(s[n + stop] == '"');
            value_behind_in_rest(s, n, stop + 1);
        }
    } else {
        find_where_in_rest(s, value_ending(), n, start);
    }
}

proof fn value_of_in_rest(s: Seq<char>, n: int, at: int)
    requires
        0 <= n <= s.len(),
        0 <= at <= s.len() - n,
    ensures
        value_of(s, n + at) == further(value_of(s.skip(n), at), n),
{
    let rest = s.skip(n);
    find_where_is_first(rest, not_escaping(), at);
    find_where_in_rest(s, not_escaping(), n, at);
    let quote = find_where(rest, not_escaping(), at);
    if quote < rest.len() && rest[quote] == '"' {
        value_behind_in_rest(s, n, quote + 1);
    } else {
        value_behind_in_rest(s, n, at);
    }
}

/// Scrubbing a rest whose first name stands at `at` of the whole.
proof fn scrubbing_a_rest(s: Seq<char>, key: Seq<char>, begin: int, at: int)
    requires
        key.len() > 0,
        0 <= begin <= s.len(),
        find_text(s, key, begin) == Some(at),
        begin <= at,
        at + key.len() <= s.len(),
    ensures
        ({
            let v = value_of(s, at + key.len());
            scrubbed(s.skip(begin), key) == s.subrange(begin, v.start) + replacement(v) + scrubbed(
                s.skip(v.end),
                key,
            )
        }),
{
    let rest = s.skip(begin);
    let after = at + key.len();
    let v = value_of(s, after);
    find_text_in_rest(s, key, begin, 0);
    find_text_is_first(rest, key, 0);
    assert(find_text(rest, key, 0) == Some(at - begin));
    value_of_in_rest(s, begin, after - begin);
    named_value_bounds(s, after);
    assert(rest.skip(v.end - begin) =~= s.skip(v.end));
    assert(rest.take(v.start - begin) =~= s.subrange(begin, v.start));
}

/// Replace every value that follows `key`.
fn scrub(text: &str, key: &str) -> (r: String)
    requires
        key@.len() > 0,
    ensures
        r@ == scrubbed(text@, key@),
{
    let chars = to_chars(text);
    let name = to_chars(key);
    let n: usize = chars.len();
    let mut out = String::new();
    let mut from: usize = 0;
    assert(text@.skip(0) =~= text@);
    assert(out@ + scrubbed(text@.skip(0), key@) =~= scrubbed(text@, key@));
    loop
        invariant
            n == chars@.len(),
            chars@ == text@,
            name@ == key@,
            key@.len() > 0,
            from <= n,
            scrubbed(text@, key@) == out@ + scrubbed(text@.skip(from as int), key@),
        decreases n - from,
    {
        let ghost begin = from as int;
        let ghost before = out@;
        match find(&chars, &name, from) {
            None => {
                proof {
                    find_text_in_rest(text@, key@, begin, 0);
                    assert(text@.subrange(begin, n as int) =~= text@.skip(begin));
                }
                out.append(of_chars(&chars, from, n).as_str());
                return out;
            },
            Some(at) => {
                let (start, end) = find_named_value(&chars, at + name.len());
                proof {
                    scrubbing_a_rest(text@, key@, begin, at as int);
                }
                let ghost head = text@.subrange(begin, start as int);
                let ghost tail = scrubbed(text@.skip(end as int), key@);
                out.append(of_chars(&chars, from, start).as_str());
                if end > start {
                    out.append("<redacted>");
                    assert(out@ + tail =~= before + (head + mask() + tail));
                } else {
                    assert(out@ + tail =~= before + (head + Seq::empty() + tail));
                }
                from = end;
            },
        }
    }
}

/// Replace every credential value in `text` with `<redacted>`.
pub fn redact(text: &str) -> (r: String)
    ensures
        r@ == redacted(text@),
{
    proof {
        reveal_strlit("passToken");
        reveal_strlit("ssecurity");
        reveal_strlit("serviceToken");
        reveal_strlit("cUserId");
    }
    let a = scrub(text, "passToken");
    let b = scrub(a.as_str(), "ssecurity");
    let c = scrub(b.as_str(), "serviceToken");
    scrub(c.as_str(), "cUserId")
}

/// The beginning of a text, as far as an error message shows it.
pub open spec fn excerpt(text: Seq<char>) -> Seq<char> {
    if redacted(text).len() > 300 {
        redacted(text).take(300)
    } else {
        redacted(text)
    }
}

/// Bound a body for an error message, credentials removed first.
pub fn snippet(text: &str) -> (r: String)
    ensures
        r@ == excerpt(text@),
{
    let clean = redact(text);
    if clean.as_str().unicode_len() > 300 {
        let part = clean.as_str().substring_char(0, 300);
        assert(part@ =~= clean@.take(300));
        part.to_owned()
    } else {
        clean
    }
}

/// Whether what follows a name that ends at `at` gives nothing away: there is no
/// value, or the whole value is the mask.
pub open spec fn hidden(s: Seq<char>, at: int) -> bool {
    let v = value_of(s, at);
    v.end == v.start || s.subrange(v.start, v.end) == mask()
}

/// Whether every value that follows `key` in `s` is hidden.
pub open spec fn keeps_secret(s: Seq<char>, key: Seq<char>) -> bool {
    forall|p: int| #[trigger] occurs_at(s, key, p) ==> hidden(s, p + key.len())
}

/// What a credential's name looks like: none of its characters separates, ends a
/// value or brackets the mask, and one of them is not in the mask at all.
spec fn proper_name(key: Seq<char>) -> bool {
    &&& key.len() > 0
    &&& forall|i: int|
        0 <= i < key.len() ==> !separates(#[trigger] key[i]) && !ends_value(key[i]) && key[i]
            != '<' && key[i] != '>' && key[i] != '\\'
    &&& exists|i: int| 0 <= i < key.len() && !mask().contains(#[trigger] key[i])
}

proof fn mask_shape()
    ensures
        mask().len() == 10,
        mask()[0] == '<',
        mask()[9] == '>',
        forall|i: int|
            0 <= i < 10 ==> !separates(#[trigger] mask()[i]) && !ends_value(mask()[i]) && mask()[i]
                != '\\',
{
    reveal_strlit("<redacted>");
}

proof fn find_where_is(s: Seq<char>, f: spec_fn(char) -> bool, from: int, at: int)
    requires
        0 <= from <= at <= s.len(),
        forall|j: int| from <= j < at ==> !f(#[trigger] s[j]),
        at < s.len() ==> f(s[at]),
    ensures
        find_where(s, f, from) == at,
    decreases at - from,
{
    if from < at {
        find_where_is(s, f, from + 1, at);
    }
}

/// Whether `s` and `o` are the same from `at` up to and including `end`, or both end
/// there.
spec fn same_until(s: Seq<char>, o: Seq<char>, at: int, end: int) -> bool {
    &&& 0 <= at <= end <= s.len()
    &&& end <= o.len()
    &&& end < s.len() <==> end < o.len()
    &&& forall|j: int| at <= j <= end && j < s.len() ==> #[trigger] s[j] == o[j]
}

proof fn find_where_is_local(
    s: Seq<char>,
    o: Seq<char>,
    f: spec_fn(char) -> bool,
    at: int,
)
    requires
        0 <= at <= s.len(),
        same_until(s, o, at, find_where(s, f, at)),
    ensures
        find_where(o, f, at) == find_where(s, f, at),
{
    find_where_is_first(s, f, at);
    let end = find_where(s, f, at);
    assert forall|j: int| at <= j < end implies !f(#[trigger] o[j]) by {
        assert(s[j] == o[j]);
    }
    if end < o.len() {
        assert(s[end] == o[end]);
    }
    find_where_is(o, f, at, end);
}

proof fn closing_is_local(s: Seq<char>, o: Seq<char>, at: int, run: int, own: int)
    requires
        0 <= run <= at <= s.len(),
        forall|j: int| at - run <= j < at ==> #[trigger] s[j] == '\\',
        same_until(s, o, at, closing(s, at, run, own).1),
    ensures
        closing(o, at, run, own) == closing(s, at, run, own),
    decreases s.len() - at,
{
    closing_bounds(s, at, run, own);
    if at < s.len() {
        assert(s[at] == o[at]);
        if s[at] != '\n' && !(s[at] == '"' && escapes(run) <= own) {
            if s[at] == '\\' {
                closing_bounds(s, at + 1, run + 1, own);
                closing_is_local(s, o, at + 1, run + 1, own);
            } else {
                closing_bounds(s, at + 1, 0, own);
                closing_is_local(s, o, at + 1, 0, own);
            }
        }
    }
}

/// Where a value is depends on nothing behind the character that ends it.
proof fn value_is_local(s: Seq<char>, o: Seq<char>, at: int)
    requires
        0 <= at <= s.len(),
        same_until(s, o, at, value_behind(s, at).stop),
    ensures
        value_behind(o, at) == value_behind(s, at),
    decreases s.len() - at,
{
    value_bounds(s, at);
    separators_lead(s, at);
    let start = find_where(s, not_separating(), at);
    let quote = find_where(s, not_escaping(), start);
    if quote < s.len() && s[quote] == '"' {
        let own = escapes(quote - start);
        closing_bounds(s, quote + 1, 0, own);
        let (end, stop) = closing(s, quote + 1, 0, own);
        let again = end == quote + 1 && stop < s.len() && s[stop] == '"';
        if again {
            value_bounds(s, stop + 1);
        }
        assert(stop <= value_behind(s, at).stop);
        find_where_is_local(s, o, not_separating(), at);
        find_where_is_local(s, o, not_escaping(), start);
        assert(o[quote] == s[quote]);
        closing_is_local(s, o, quote + 1, 0, own);
        if again {
            assert(o[stop] == s[stop]);
            value_is_local(s, o, stop + 1);
        } else if stop < o.len() {
            assert(stop < s.len());
            assert(o[stop] == s[stop]);
        }
    } else {
        find_where_is_first(s, value_ending(), start);
        let end = find_where(s, value_ending(), start);
        assert(quote <= end) by {
            if end < quote {
                assert(s[end] == '\\');
            }
        }
        find_where_is_local(s, o, not_separating(), at);
        find_where_is_local(s, o, not_escaping(), start);
        find_where_is_local(s, o, value_ending(), start);
        if quote < o.len() {
            assert(quote < s.len());
            assert(o[quote] == s[quote]);
        }
    }
}

/// Where a named value is depends on nothing behind the character that ends it.
proof fn named_value_is_local(s: Seq<char>, o: Seq<char>, at: int)
    requires
        0 <= at <= s.len(),
        same_until(s, o, at, value_of(s, at).stop),
    ensures
        value_of(o, at) == value_of(s, at),
{
    find_where_is_first(s, not_escaping(), at);
    let quote = find_where(s, not_escaping(), at);
    assert forall|j: int| at <= j < quote implies #[trigger] s[j] == '\\' by {
        assert(!not_escaping()(s[j]));
    }
    if quote < s.len() && s[quote] == '"' {
        value_bounds(s, quote + 1);
        find_where_is_local(s, o, not_escaping(), at);
        assert(o[quote] == s[quote]);
        value_is_local(s, o, quote + 1);
    } else {
        value_bounds(s, at);
        let v = value_behind(s, at);
        assert(quote <= v.stop) by {
            if v.stop < quote {
                assert(s[v.stop] == '\\');
            }
        }
        find_where_is_local(s, o, not_escaping(), at);
        if quote < o.len() {
            assert(quote < s.len());
            assert(o[quote] == s[quote]);
        }
        value_is_local(s, o, at);
    }
}

/// Whether `o` is `s` with the value at `v` replaced by the mask, as far as the
/// character that ends it.
spec fn masked_at(s: Seq<char>, o: Seq<char>, v: Place) -> bool {
    let next = v.start + 10;
    &&& 0 <= v.start < v.end <= v.stop <= s.len()
    &&& next + (v.stop - v.end) <= o.len()
    &&& v.stop < s.len() <==> next + (v.stop - v.end) < o.len()
    &&& forall|j: int| 0 <= j < v.start ==> #[trigger] s[j] == o[j]
    &&& forall|j: int| v.start <= j < next ==> #[trigger] o[j] == mask()[j - v.start]
    &&& forall|j: int|
        v.end <= j <= v.stop && j < s.len() ==> #[trigger] s[j] == o[next + (j - v.end)]
}

/// The search passes over characters that mean nothing to it.
proof fn closing_passes_over(s: Seq<char>, at: int, to: int, run: int, own: int)
    requires
        0 <= at < to <= s.len(),
        forall|j: int|
            at <= j < to ==> #[trigger] s[j] != '"' && s[j] != '\n' && s[j] != '\\',
    ensures
        closing(s, at, run, own) == closing(s, to, 0, own),
    decreases to - at,
{
    assert(s[at] != '"' && s[at] != '\n' && s[at] != '\\');
    if at + 1 < to {
        closing_passes_over(s, at + 1, to, 0, own);
    }
}

/// The search counts backslashes.
proof fn closing_counts(s: Seq<char>, at: int, to: int, run: int, own: int)
    requires
        0 <= at <= to <= s.len(),
        forall|j: int| at <= j < to ==> #[trigger] s[j] == '\\',
    ensures
        closing(s, at, run, own) == closing(s, to, run + (to - at), own),
    decreases to - at,
{
    if at < to {
        assert(s[at] == '\\');
        closing_counts(s, at + 1, to, run + 1, own);
    }
}

/// A masked value is just where the value was.
proof fn masked_value(s: Seq<char>, o: Seq<char>, at: int)
    requires
        0 <= at <= s.len(),
        masked_at(s, o, value_behind(s, at)),
    ensures
        value_behind(o, at).start == value_behind(s, at).start,
        value_behind(o, at).end == value_behind(s, at).start + 10,
    decreases s.len() - at,
{
    mask_shape();
    value_bounds(s, at);
    separators_lead(s, at);
    let v = value_behind(s, at);
    let start = find_where(s, not_separating(), at);
    let quote = find_where(s, not_escaping(), start);
    let next = v.start + 10;
    assert(start <= v.start) by {
        if quote < s.len() && s[quote] == '"' {
            closing_bounds(s, quote + 1, 0, escapes(quote - start));
            let stop = closing(s, quote + 1, 0, escapes(quote - start)).1;
            if stop < s.len() {
                value_bounds(s, stop + 1);
            }
        }
    }
    assert forall|j: int| at <= j < start implies !not_separating()(#[trigger] o[j]) by {
        assert(s[j] == o[j]);
    }
    assert(o[v.start] == mask()[0]);
    if quote < s.len() && s[quote] == '"' {
        let own = escapes(quote - start);
        closing_bounds(s, quote + 1, 0, own);
        let (end, stop) = closing(s, quote + 1, 0, own);
        let again = end == quote + 1 && stop < s.len() && s[stop] == '"';
        if again {
            value_bounds(s, stop + 1);
        }
        assert(quote < v.start);
        assert forall|j: int| start <= j < quote implies !not_escaping()(#[trigger] o[j]) by {
            assert(s[j] == o[j]);
        }
        assert(o[start] == s[start] && o[quote] == s[quote]);
        find_where_is(o, not_separating(), at, start);
        find_where_is(o, not_escaping(), start, quote);
        if again {
            assert(stop < v.start);
            assert(same_until(s, o, quote + 1, stop)) by {
                assert forall|j: int| quote + 1 <= j <= stop && j < s.len() implies #[trigger] s[j]
                    == o[j] by {}
            }
            closing_is_local(s, o, quote + 1, 0, own);
            assert(o[stop] == s[stop]);
            masked_value(s, o, stop + 1);
        } else {
            let last = next + (stop - end);
            assert forall|j: int| v.start <= j < next implies #[trigger] o[j] != '"' && o[j] != '\n'
                && o[j] != '\\' by {
                assert(o[j] == mask()[j - v.start]);
            }
            assert forall|j: int| next <= j < last implies #[trigger] o[j] == '\\' by {
                assert(s[end + (j - next)] == o[next + (end + (j - next) - end)]);
            }
            closing_passes_over(o, v.start, next, 0, own);
            closing_counts(o, next, last, 0, own);
            if stop < s.len() {
                assert(s[stop] == o[next + (stop - end)]);
            }
        }
    } else {
        find_where_is_first(s, value_ending(), start);
        find_where_is(o, not_separating(), at, start);
        assert(find_where(o, not_escaping(), start) == start);
        assert forall|j: int| start <= j < next implies !value_ending()(#[trigger] o[j]) by {
            assert(o[j] == mask()[j - v.start]);
        }
        if next < o.len() {
            assert(s[v.stop] == o[next + (v.stop - v.end)]);
        }
        find_where_is(o, value_ending(), start, next);
    }
}

/// Nothing is given away where the value was left as it is and is hidden.
proof fn kept_value_is_hidden(s: Seq<char>, o: Seq<char>, at: int)
    requires
        0 <= at <= s.len(),
        hidden(s, at),
        same_until(s, o, at, value_of(s, at).stop),
    ensures
        hidden(o, at),
{
    named_value_bounds(s, at);
    named_value_is_local(s, o, at);
    let v = value_of(s, at);
    assert(o.subrange(v.start, v.end) =~= s.subrange(v.start, v.end));
}

/// Nothing is given away where the value was replaced.
proof fn masked_value_is_hidden(s: Seq<char>, o: Seq<char>, at: int)
    requires
        0 <= at <= s.len(),
        masked_at(s, o, value_of(s, at)),
    ensures
        hidden(o, at),
{
    mask_shape();
    named_value_bounds(s, at);
    let v = value_of(s, at);
    find_where_is_first(s, not_escaping(), at);
    let quote = find_where(s, not_escaping(), at);
    assert forall|j: int| at <= j < quote implies #[trigger] s[j] == '\\' by {
        assert(!not_escaping()(s[j]));
    }
    assert(o[v.start] == mask()[0]);
    if quote < s.len() && s[quote] == '"' {
        value_bounds(s, quote + 1);
        assert(quote < v.start);
        assert forall|j: int| at <= j < quote implies !not_escaping()(#[trigger] o[j]) by {
            assert(s[j] == o[j]);
        }
        assert(o[quote] == s[quote]);
        find_where_is(o, not_escaping(), at, quote);
        masked_value(s, o, quote + 1);
    } else {
        value_bounds(s, at);
        masked_value(s, o, at);
        let to = if quote < v.start {
            quote
        } else {
            v.start
        };
        assert forall|j: int| at <= j < to implies !not_escaping()(#[trigger] o[j]) by {
            assert(s[j] == o[j]);
        }
        if quote < v.start {
            assert(o[quote] == s[quote]);
        }
        find_where_is(o, not_escaping(), at, to);
    }
    assert(o.subrange(v.start, v.start + 10) =~= mask());
}

/// What is known of the first place where `key` stands in `s`, and of the value
/// behind it.
proof fn first_value(s: Seq<char>, key: Seq<char>)
    requires
        proper_name(key),
        find_text(s, key, 0) is Some,
    ensures
        ({
            let at = find_text(s, key, 0)->0;
            let v = value_of(s, at + key.len());
            &&& 0 <= at
            &&& occurs_at(s, key, at)
            &&& forall|j: int| 0 <= j < at ==> !occurs_at(s, key, j)
            &&& proper_place(s, at + key.len(), v)
            &&& s[v.start - 1] != '\\'
            &&& scrubbed(s, key) == s.take(v.start) + replacement(v) + scrubbed(
                s.skip(v.end),
                key,
            )
        }),
{
    find_text_is_first(s, key, 0);
    let at = find_text(s, key, 0)->0;
    named_value_bounds(s, at + key.len());
    assert(s.subrange(at, at + key.len())[key.len() - 1] == s[at + key.len() - 1]);
}

/// Whether `c` is in no credential's name.
spec fn nameless(c: char) -> bool {
    c == '\\' || ends_value(c)
}

/// Scrubbing keeps what stands in front and is in no name.
proof fn scrubbing_keeps_the_front(s: Seq<char>, key: Seq<char>, n: int)
    requires
        proper_name(key),
        0 <= n <= s.len(),
        forall|j: int| 0 <= j < n ==> nameless(#[trigger] s[j]),
    ensures
        s.len() == 0 ==> scrubbed(s, key).len() == 0,
        n <= scrubbed(s, key).len(),
        forall|j: int| 0 <= j < n ==> #[trigger] scrubbed(s, key)[j] == s[j],
{
    if find_text(s, key, 0) is Some {
        first_value(s, key);
        let at = find_text(s, key, 0)->0;
        let start = value_of(s, at + key.len()).start;
        assert(s.subrange(at, at + key.len())[0] == s[at]);
        assert(at >= n);
        assert forall|j: int| 0 <= j < n implies #[trigger] scrubbed(s, key)[j] == s[j] by {
            assert(s.take(start)[j] == s[j]);
        }
    }
}

/// Hiding depends only on what comes after.
proof fn hidden_in_rest(s: Seq<char>, n: int, at: int)
    requires
        0 <= n <= at <= s.len(),
    ensures
        hidden(s.skip(n), at - n) == hidden(s, at),
{
    value_of_in_rest(s, n, at - n);
    named_value_bounds(s, at);
    let v = value_of(s, at);
    assert(s.skip(n).subrange(v.start - n, v.end - n) =~= s.subrange(v.start, v.end));
}

proof fn secrets_kept_in_rest(s: Seq<char>, key: Seq<char>, n: int)
    requires
        keeps_secret(s, key),
        0 <= n <= s.len(),
    ensures
        keeps_secret(s.skip(n), key),
{
    let rest = s.skip(n);
    assert forall|p: int| #[trigger] occurs_at(rest, key, p) implies hidden(rest, p + key.len()) by {
        assert(rest.subrange(p, p + key.len()) =~= s.subrange(n + p, n + p + key.len()));
        assert(occurs_at(s, key, n + p));
        hidden_in_rest(s, n, n + p + key.len());
    }
}

/// A name that stands in scrubbed text stands either in front of the first value
/// or in what was scrubbed behind it.
proof fn names_do_not_straddle(
    head: Seq<char>,
    mid: Seq<char>,
    rest: Seq<char>,
    key: Seq<char>,
    p: int,
)
    requires
        proper_name(key),
        mid == mask() || (mid.len() == 0 && (rest.len() > 0 ==> nameless(rest[0]))),
        occurs_at(head + mid + rest, key, p),
    ensures
        p + key.len() <= head.len() || p >= head.len() + mid.len(),
{
    mask_shape();
    let all = head + mid + rest;
    let h = head.len() as int;
    let m = mid.len() as int;
    assert forall|i: int| 0 <= i < key.len() implies #[trigger] key[i] == all[p + i] by {
        assert(all.subrange(p, p + key.len())[i] == all[p + i]);
    }
    if p < h && p + key.len() > h {
        assert(key[h - p] == all[h]);
        if m > 0 {
            assert(all[h] == mask()[0]);
        } else {
            assert(all[h] == rest[0]);
        }
    } else if h <= p < h + m {
        if p + key.len() > h + m - 1 {
            assert(key[h + m - 1 - p] == all[h + m - 1]);
            assert(all[h + m - 1] == mask()[9]);
        } else {
            let i = choose|i: int| 0 <= i < key.len() && !mask().contains(#[trigger] key[i]);
            assert(key[i] == all[p + i]);
            assert(all[p + i] == mask()[p + i - h]);
        }
    }
}

/// What stands behind the first value stays behind it.
proof fn behind_the_first_value(s: Seq<char>, key: Seq<char>)
    requires
        proper_name(key),
        find_text(s, key, 0) is Some,
    ensures
        ({
            let v = value_of(s, find_text(s, key, 0)->0 + key.len());
            let rest = scrubbed(s.skip(v.end), key);
            &&& v.stop < s.len() <==> v.stop - v.end < rest.len()
            &&& v.stop - v.end <= rest.len()
            &&& forall|j: int|
                v.end <= j <= v.stop && j < s.len() ==> #[trigger] s[j] == rest[j - v.end]
            &&& rest.len() > 0 ==> nameless(rest[0])
        }),
{
    first_value(s, key);
    let v = value_of(s, find_text(s, key, 0)->0 + key.len());
    let tail = s.skip(v.end);
    let n = if v.stop < s.len() {
        v.stop - v.end + 1
    } else {
        0
    };
    assert forall|j: int| 0 <= j < n implies nameless(#[trigger] tail[j]) by {
        assert(tail[j] == s[v.end + j]);
    }
    scrubbing_keeps_the_front(tail, key, n);
    let rest = scrubbed(tail, key);
    assert forall|j: int| v.end <= j <= v.stop && j < s.len() implies #[trigger] s[j] == rest[j
        - v.end] by {
        assert(tail[j - v.end] == s[j]);
    }
}

/// What scrubbing does to the first value hides it.
proof fn first_value_is_hidden(s: Seq<char>, key: Seq<char>)
    requires
        proper_name(key),
        find_text(s, key, 0) is Some,
    ensures
        hidden(scrubbed(s, key), find_text(s, key, 0)->0 + key.len()),
{
    first_value(s, key);
    behind_the_first_value(s, key);
    mask_shape();
    let out = scrubbed(s, key);
    let after = find_text(s, key, 0)->0 + key.len();
    let v = value_of(s, after);
    let rest = scrubbed(s.skip(v.end), key);
    assert forall|j: int| 0 <= j < v.start implies #[trigger] s[j] == out[j] by {
        assert(s.take(v.start)[j] == s[j]);
    }
    if v.end > v.start {
        let next = v.start + 10;
        assert forall|j: int| v.start <= j < next implies #[trigger] out[j] == mask()[j
            - v.start] by {}
        assert forall|j: int| v.end <= j <= v.stop && j < s.len() implies #[trigger] s[j]
            == out[next + (j - v.end)] by {
            assert(out[next + (j - v.end)] == rest[j - v.end]);
        }
        masked_value_is_hidden(s, out, after);
    } else {
        assert forall|j: int| after <= j <= v.stop && j < s.len() implies #[trigger] s[j]
            == out[j] by {
            if j >= v.start {
                assert(out[j] == rest[j - v.end]);
            }
        }
        kept_value_is_hidden(s, out, after);
    }
}

/// Scrubbing a name hides its values.
proof fn scrubbing_hides(s: Seq<char>, key: Seq<char>)
    requires
        proper_name(key),
    ensures
        keeps_secret(scrubbed(s, key), key),
    decreases s.len(),
{
    let out = scrubbed(s, key);
    find_text_is_first(s, key, 0);
    if find_text(s, key, 0) is None {
        assert forall|p: int| #[trigger] occurs_at(out, key, p) implies hidden(
            out,
            p + key.len(),
        ) by {}
    } else {
        first_value(s, key);
        let at = find_text(s, key, 0)->0;
        let v = value_of(s, at + key.len());
        let head = s.take(v.start);
        let mid = replacement(v);
        let rest = scrubbed(s.skip(v.end), key);
        scrubbing_hides(s.skip(v.end), key);
        behind_the_first_value(s, key);
        first_value_is_hidden(s, key);
        assert(out == head + mid + rest);
        assert forall|p: int| #[trigger] occurs_at(out, key, p) implies hidden(
            out,
            p + key.len(),
        ) by {
            names_do_not_straddle(head, mid, rest, key, p);
            if p + key.len() <= v.start {
                assert(out.subrange(p, p + key.len()) =~= s.subrange(p, p + key.len()));
                assert(occurs_at(s, key, p));
                if p > at {
                    let i = key.len() - 1;
                    assert(s.subrange(p, p + key.len())[i] == s[p + i]);
                    assert(leads(s[p + i]));
                }
                assert(p == at);
            } else {
                let n = v.start + mid.len();
                assert(out.skip(n) =~= rest);
                assert(rest.subrange(p - n, p - n + key.len()) =~= out.subrange(p, p + key.len()));
                assert(occurs_at(rest, key, p - n));
                hidden_in_rest(out, n, p + key.len());
            }
        }
    }
}

/// Scrubbing one name does not uncover another's values.
proof fn scrubbing_does_not_uncover(s: Seq<char>, key: Seq<char>, other: Seq<char>)
    requires
        proper_name(key),
        proper_name(other),
        keeps_secret(s, other),
    ensures
        keeps_secret(scrubbed(s, key), other),
    decreases s.len(),
{
    let out = scrubbed(s, key);
    find_text_is_first(s, key, 0);
    if find_text(s, key, 0) is Some {
        first_value(s, key);
        let at = find_text(s, key, 0)->0;
        let after = at + key.len();
        let v = value_of(s, after);
        let head = s.take(v.start);
        let mid = replacement(v);
        let rest = scrubbed(s.skip(v.end), key);
        secrets_kept_in_rest(s, other, v.end);
        scrubbing_does_not_uncover(s.skip(v.end), key, other);
        behind_the_first_value(s, key);
        first_value_is_hidden(s, key);
        assert(out == head + mid + rest);
        assert forall|p: int| #[trigger] occurs_at(out, other, p) implies hidden(
            out,
            p + other.len(),
        ) by {
            names_do_not_straddle(head, mid, rest, other, p);
            let q = p + other.len();
            if q <= v.start {
                assert(out.subrange(p, q) =~= s.subrange(p, q));
                assert(occurs_at(s, other, p));
                named_value_bounds(s, q);
                let w = value_of(s, q);
                if w.stop < v.start {
                    assert forall|j: int| q <= j <= w.stop && j < s.len() implies #[trigger] s[j]
                        == out[j] by {
                        assert(head[j] == s[j]);
                    }
                    kept_value_is_hidden(s, out, q);
                } else if w.start < v.start {
                    if w.end < v.start {
                        assert(s[v.start - 1] == '\\');
                    }
                    the_mask_names_nothing(s, key, at, v.start, w.start, w.end);
                } else {
                    if q < after {
                        assert(s.subrange(at, after)[key.len() - 1] == s[after - 1]);
                        assert(leads(s[after - 1]));
                    }
                    if q > after {
                        assert(s.subrange(p, q)[other.len() - 1] == s[q - 1]);
                        assert(leads(s[q - 1]));
                    }
                    assert(q == after);
                }
            } else {
                let n = v.start + mid.len();
                assert(out.skip(n) =~= rest);
                assert(rest.subrange(p - n, q - n) =~= out.subrange(p, q));
                assert(occurs_at(rest, other, p - n));
                hidden_in_rest(out, n, q);
            }
        }
    }
}

/// No name ends, with its separators, inside a mask.
proof fn the_mask_names_nothing(s: Seq<char>, key: Seq<char>, at: int, start: int, v: int, t: int)
    requires
        proper_name(key),
        occurs_at(s, key, at),
        at + key.len() <= start <= s.len(),
        forall|j: int|
            at + key.len() <= j < start ==> leads(#[trigger] s[j]),
        0 <= v < start <= t <= s.len(),
    ensures
        s.subrange(v, t) != mask(),
{
    if s.subrange(v, t) == mask() {
        mask_shape();
        let after = at + key.len();
        assert forall|j: int| v <= j < t implies #[trigger] s[j] == mask()[j - v] by {
            assert(s.subrange(v, t)[j - v] == s[j]);
        }
        assert forall|i: int| 0 <= i < key.len() implies #[trigger] key[i] == s[at + i] by {
            assert(s.subrange(at, after)[i] == s[at + i]);
        }
        if start > after {
            assert(leads(s[start - 1]));
            assert(s[start - 1] == mask()[start - 1 - v]);
        } else if at < v {
            assert(key[v - at] == s[v]);
            assert(s[v] == mask()[0]);
        } else {
            let i = choose|i: int| 0 <= i < key.len() && !mask().contains(#[trigger] key[i]);
            assert(key[i] == s[at + i]);
            assert(s[at + i] == mask()[at + i - v]);
        }
    }
}

proof fn secret_keys_are_proper()
    ensures
        proper_name("passToken"@),
        proper_name("ssecurity"@),
        proper_name("serviceToken"@),
        proper_name("cUserId"@),
{
    reveal_strlit("<redacted>");
    reveal_strlit("passToken");
    reveal_strlit("ssecurity");
    reveal_strlit("serviceToken");
    reveal_strlit("cUserId");
    assert(!mask().contains("passToken"@[0]));
    assert(!mask().contains("ssecurity"@[0]));
    assert(!mask().contains("serviceToken"@[0]));
    assert(!mask().contains("cUserId"@[1]));
}

/// No credential survives redaction: wherever the name of one stands in redacted
/// text, it has no value, or its whole value is the mask. A value in quotes is all
/// that the quotes enclose; any other ends where a field or a cookie does. This
/// holds of any text, whether or not it parses.
pub proof fn credentials_never_survive_redaction(text: Seq<char>)
    ensures
        forall|i: int|
            0 <= i < secret_keys().len() ==> keeps_secret(
                redacted(text),
                #[trigger] secret_keys()[i],
            ),
{
    secret_keys_are_proper();
    let a = scrubbed(text, "passToken"@);
    let b = scrubbed(a, "ssecurity"@);
    let c = scrubbed(b, "serviceToken"@);
    scrubbing_hides(text, "passToken"@);
    scrubbing_does_not_uncover(a, "ssecurity"@, "passToken"@);
    scrubbing_hides(a, "ssecurity"@);
    scrubbing_does_not_uncover(b, "serviceToken"@, "passToken"@);
    scrubbing_does_not_uncover(b, "serviceToken"@, "ssecurity"@);
    scrubbing_hides(b, "serviceToken"@);
    scrubbing_does_not_uncover(c, "cUserId"@, "passToken"@);
    scrubbing_does_not_uncover(c, "cUserId"@, "ssecurity"@);
    scrubbing_does_not_uncover(c, "cUserId"@, "serviceToken"@);
    scrubbing_hides(c, "cUserId"@);
}

/// Text in which every value of a name is hidden is left as it is.
proof fn hidden_text_is_left(s: Seq<char>, key: Seq<char>)
    requires
        proper_name(key),
        keeps_secret(s, key),
    ensures
        scrubbed(s, key) == s,
    decreases s.len(),
{
    if find_text(s, key, 0) is Some {
        first_value(s, key);
        let at = find_text(s, key, 0)->0;
        let v = value_of(s, at + key.len());
        assert(hidden(s, at + key.len()));
        secrets_kept_in_rest(s, key, v.end);
        hidden_text_is_left(s.skip(v.end), key);
        assert(replacement(v) =~= s.subrange(v.start, v.end));
        assert(s.take(v.start) + s.subrange(v.start, v.end) + s.skip(v.end) =~= s);
    }
}

/// Redacting what is redacted already changes nothing.
pub proof fn redacting_twice_is_redacting_once(text: Seq<char>)
    ensures
        redacted(redacted(text)) == redacted(text),
{
    let clean = redacted(text);
    secret_keys_are_proper();
    credentials_never_survive_redaction(text);
    assert(keeps_secret(clean, secret_keys()[0]));
    assert(keeps_secret(clean, secret_keys()[1]));
    assert(keeps_secret(clean, secret_keys()[2]));
    assert(keeps_secret(clean, secret_keys()[3]));
    hidden_text_is_left(clean, "passToken"@);
    hidden_text_is_left(clean, "ssecurity"@);
    hidden_text_is_left(clean, "serviceToken"@);
    hidden_text_is_left(clean, "cUserId"@);
}

/// Text that names no credential is left as it is.
pub proof fn text_without_credentials_is_left(text: Seq<char>)
    requires
        forall|i: int|
            0 <= i < secret_keys().len() ==> !contains(text, #[trigger] secret_keys()[i]),
    ensures
        redacted(text) == text,
{
    assert forall|i: int| 0 <= i < secret_keys().len() implies scrubbed(
        text,
        #[trigger] secret_keys()[i],
    ) == text by {
        find_text_is_first(text, secret_keys()[i], 0);
    }
    assert(scrubbed(text, secret_keys()[0]) == text);
    assert(scrubbed(text, secret_keys()[1]) == text);
    assert(scrubbed(text, secret_keys()[2]) == text);
    assert(scrubbed(text, secret_keys()[3]) == text);
}

proof fn named_first(before: Seq<char>, key: Seq<char>, behind: Seq<char>)
    requires
        key.len() > 0,
        find_text(before + key, key, 0) == Some(before.len() as int),
    ensures
        find_text(before + key + behind, key, 0) == Some(before.len() as int),
{
    let short = before + key;
    let s = short + behind;
    let n = before.len() as int;
    find_text_is_first(short, key, 0);
    find_text_is_first(s, key, 0);
    assert(s.subrange(n, n + key.len()) =~= key);
    assert(occurs_at(s, key, n));
    assert forall|j: int| 0 <= j < n implies !occurs_at(s, key, j) by {
        if occurs_at(s, key, j) {
            assert(short.subrange(j, j + key.len()) =~= s.subrange(j, j + key.len()));
            assert(occurs_at(short, key, j));
        }
    }
}

/// A credential in quotes, as JSON has it, is masked whole: the name, the quotes and all
/// that stands before stay as they are, and what stands behind is gone through in turn.
pub proof fn a_quoted_credential_is_masked(
    before: Seq<char>,
    key: Seq<char>,
    value: Seq<char>,
    behind: Seq<char>,
)
    requires
        key == "passToken"@ || key == "ssecurity"@ || key == "serviceToken"@ || key == "cUserId"@,
        find_text(before + key, key, 0) == Some(before.len() as int),
        value.len() > 0,
        !value.contains('"'),
        !value.contains('\\'),
        !value.contains('\n'),
    ensures
        scrubbed(before + key + seq!['"', ':', '"'] + value + (seq!['"'] + behind), key) == before
            + key + seq!['"', ':', '"'] + "<redacted>"@ + scrubbed(seq!['"'] + behind, key),
{
    secret_keys_are_proper();
    let open = seq!['"', ':', '"'];
    let tail = seq!['"'] + behind;
    let s = before + key + open + value + tail;
    assert(s =~= before + key + (open + value + tail));
    named_first(before, key, open + value + tail);
    first_value(s, key);
    let at = (before.len() + key.len()) as int;
    let to = at + 3 + value.len();
    assert(s[at] == '"' && s[at + 1] == ':' && s[at + 2] == '"' && s[to] == '"');
    assert forall|j: int| at + 3 <= j < to implies #[trigger] s[j] != '"' && s[j] != '\n' && s[j]
        != '\\' by {
        assert(s[j] == value[j - at - 3]);
        assert(value.contains(value[j - at - 3]));
    }
    find_where_is(s, not_escaping(), at, at);
    find_where_is(s, not_separating(), at + 1, at + 2);
    find_where_is(s, not_escaping(), at + 2, at + 2);
    closing_passes_over(s, at + 3, to, 0, 0);
    assert(escapes(0) == 0);
    assert(closing(s, to, 0, 0) == (to, to));
    let v = value_of(s, at);
    assert(v.start == at + 3 && v.end == to);
    assert(s.take(at + 3) =~= before + key + open);
    assert(s.skip(to) =~= tail);
}

/// A credential without quotes, as a cookie or a log has it, is masked from behind the
/// colon, equals sign or spaces that lead to it up to the semicolon, comma, brace, quote or
/// line break behind it, or to the end of the text.
pub proof fn a_bare_credential_is_masked(
    before: Seq<char>,
    key: Seq<char>,
    lead: Seq<char>,
    value: Seq<char>,
    behind: Seq<char>,
)
    requires
        key == "passToken"@ || key == "ssecurity"@ || key == "serviceToken"@ || key == "cUserId"@,
        find_text(before + key, key, 0) == Some(before.len() as int),
        lead.len() > 0,
        forall|i: int|
            0 <= i < lead.len() ==> (#[trigger] lead[i] == ':' || lead[i] == '=' || lead[i] == ' '),
        value.len() > 0,
        value[0] != ':' && value[0] != '=' && value[0] != ' ' && value[0] != '\\',
        forall|i: int|
            0 <= i < value.len() ==> (#[trigger] value[i] != '"' && value[i] != ';' && value[i]
                != ',' && value[i] != '}' && value[i] != '\n'),
        behind.len() == 0 || behind[0] == '"' || behind[0] == ';' || behind[0] == ',' || behind[0]
            == '}' || behind[0] == '\n',
    ensures
        scrubbed(before + key + lead + value + behind, key) == before + key + lead
            + "<redacted>"@ + scrubbed(behind, key),
{
    secret_keys_are_proper();
    let s = before + key + lead + value + behind;
    assert(s =~= before + key + (lead + value + behind));
    named_first(before, key, lead + value + behind);
    first_value(s, key);
    let at = (before.len() + key.len()) as int;
    let from = at + lead.len();
    let to = from + value.len();
    assert forall|j: int| at <= j < from implies separates(#[trigger] s[j]) by {
        assert(s[j] == lead[j - at]);
    }
    assert(s[from] == value[0]);
    assert forall|j: int| from <= j < to implies !ends_value(#[trigger] s[j]) by {
        assert(s[j] == value[j - from]);
    }
    if behind.len() > 0 {
        assert(s[to] == behind[0]);
    }
    assert(separates(s[at]));
    find_where_is(s, not_escaping(), at, at);
    find_where_is(s, not_separating(), at, from);
    find_where_is(s, not_escaping(), from, from);
    find_where_is(s, value_ending(), from, to);
    let v = value_of(s, at);
    assert(v.start == from && v.end == to);
    assert(s.take(from) =~= before + key + lead);
    assert(s.skip(to) =~= behind);
}

/// Redaction sees to the pass token, the security token, the service token and the user's
/// own id, each of them wherever it stands.
pub proof fn every_credential_is_seen_to(text: Seq<char>)
    ensures
        keeps_secret(redacted(text), "passToken"@),
        keeps_secret(redacted(text), "ssecurity"@),
        keeps_secret(redacted(text), "serviceToken"@),
        keeps_secret(redacted(text), "cUserId"@),
{
    credentials_never_survive_redaction(text);
    assert(secret_keys()[0] == "passToken"@);
    assert(secret_keys()[1] == "ssecurity"@);
    assert(secret_keys()[2] == "serviceToken"@);
    assert(secret_keys()[3] == "cUserId"@);
}

/// An excerpt is the beginning of the redacted text, at most three hundred characters of
/// it, and shorter only where there is no more.
pub proof fn an_excerpt_is_the_beginning(text: Seq<char>)
    ensures
        excerpt(text).is_prefix_of(redacted(text)),
        excerpt(text).len() <= 300,
        excerpt(text).len() < 300 ==> excerpt(text) == redacted(text),
{
    assert(excerpt(text) =~= redacted(text).take(excerpt(text).len() as int));
}

/// A quote that is escaped once more doubles the backslashes before it and adds one; an
/// even number of them escapes no quote at all.
pub proof fn escaping_once_more_doubles_the_backslashes(run: int)
    requires
        0 <= run,
    ensures
        escapes(2 * run + 1) == 2 * escapes(run) + 1,
        escapes(2 * run) == 0,
{
    assert((2 * run + 1) / 2 == run);
    assert((2 * run + 1) % 2 == 1);
    assert((2 * run) % 2 == 0);
}

/// A credential in a text that was itself quoted, once or more, is masked too: its quotes
/// stand behind as many backslashes as belong to them, and these stay as they are.
pub proof fn a_credential_in_quoted_text_is_masked(
    before: Seq<char>,
    key: Seq<char>,
    run: nat,
    value: Seq<char>,
    behind: Seq<char>,
)
    requires
        key == "passToken"@ || key == "ssecurity"@ || key == "serviceToken"@ || key == "cUserId"@,
        find_text(before + key, key, 0) == Some(before.len() as int),
        escapes(run as int) == run,
        value.len() > 0,
        !value.contains('"'),
        !value.contains('\\'),
        !value.contains('\n'),
    ensures
        ({
            let slashes = Seq::new(run, |i: int| '\\');
            let open = slashes + seq!['"', ':'] + slashes + seq!['"'];
            let tail = slashes + seq!['"'] + behind;
            scrubbed(before + key + open + value + tail, key) == before + key + open
                + "<redacted>"@ + scrubbed(tail, key)
        }),
{
    secret_keys_are_proper();
    let slashes = Seq::new(run, |i: int| '\\');
    let open = slashes + seq!['"', ':'] + slashes + seq!['"'];
    let tail = slashes + seq!['"'] + behind;
    let s = before + key + open + value + tail;
    assert(s =~= before + key + (open + value + tail));
    named_first(before, key, open + value + tail);
    first_value(s, key);
    let r = run as int;
    let at = (before.len() + key.len()) as int;
    let from = at + 2 * r + 3;
    let to = from + value.len();
    assert(open.len() == 2 * r + 3);
    assert forall|j: int| at <= j < from implies #[trigger] s[j] == open[j - at] by {}
    assert forall|j: int| from <= j < to implies #[trigger] s[j] == value[j - from] by {}
    assert forall|j: int| to <= j < s.len() implies #[trigger] s[j] == tail[j - to] by {}
    assert forall|j: int| from <= j < to implies #[trigger] s[j] != '"' && s[j] != '\n' && s[j]
        != '\\' by {
        assert(value.contains(value[j - from]));
    }
    quoted_value_place(s, at, r, to);
    assert(s.take(from) =~= before + key + open);
    assert(s.skip(to) =~= tail);
}

proof fn quoted_value_place(s: Seq<char>, at: int, r: int, to: int)
    requires
        0 <= at,
        0 <= r,
        escapes(r) == r,
        at + 2 * r + 3 < to,
        to + r < s.len(),
        forall|j: int| at <= j < at + r ==> #[trigger] s[j] == '\\',
        s[at + r] == '"',
        s[at + r + 1] == ':',
        forall|j: int| at + r + 2 <= j < at + 2 * r + 2 ==> #[trigger] s[j] == '\\',
        s[at + 2 * r + 2] == '"',
        forall|j: int|
            at + 2 * r + 3 <= j < to ==> #[trigger] s[j] != '"' && s[j] != '\n' && s[j] != '\\',
        forall|j: int| to <= j < to + r ==> #[trigger] s[j] == '\\',
        s[to + r] == '"',
    ensures
        value_of(s, at).start == at + 2 * r + 3,
        value_of(s, at).end == to,
{
    let from = at + 2 * r + 3;
    find_where_is(s, not_escaping(), at, at + r);
    assert(!separates(s[at + r + 2]));
    find_where_is(s, not_separating(), at + r + 1, at + r + 2);
    find_where_is(s, not_escaping(), at + r + 2, at + 2 * r + 2);
    closing_passes_over(s, from, to, 0, r);
    closing_counts(s, to, to + r, 0, r);
    assert(closing(s, to + r, r, r) == (to, to + r));
    assert(closing(s, from, 0, r) == (to, to + r));
}

} // verus!
