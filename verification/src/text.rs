//! Verified operations on Unicode text.
//!
//! Every function here is stated over the view of a string, a `Seq<char>`.

use vstd::prelude::*;

verus! {

/// `String::push` appends one character.
pub assume_specification[ String::push ](s: &mut String, c: char)
    ensures
        final(s)@ == old(s)@.push(c),
;

/// The characters with Unicode's `White_Space` property.
pub open spec fn white_space(c: char) -> bool {
    let u = c as u32;
    ||| 0x9 <= u <= 0xd
    ||| u == 0x20
    ||| u == 0x85
    ||| u == 0xa0
    ||| u == 0x1680
    ||| 0x2000 <= u <= 0x200a
    ||| u == 0x2028
    ||| u == 0x2029
    ||| u == 0x202f
    ||| u == 0x205f
    ||| u == 0x3000
}

/// Whether `c` has the `White_Space` property.
pub fn is_white_space(c: char) -> (r: bool)
    ensures
        r == white_space(c),
{
    let u: u32 = c as u32;
    (0x9 <= u && u <= 0xd) || u == 0x20 || u == 0x85 || u == 0xa0 || u == 0x1680 || (0x2000 <= u
        && u <= 0x200a) || u == 0x2028 || u == 0x2029 || u == 0x202f || u == 0x205f || u == 0x3000
}

/// `s` without its leading white space.
pub open spec fn trim_start(s: Seq<char>) -> Seq<char>
    decreases s.len(),
{
    if s.len() > 0 && white_space(s[0]) {
        trim_start(s.skip(1))
    } else {
        s
    }
}

/// `s` without its trailing white space.
pub open spec fn trim_end(s: Seq<char>) -> Seq<char>
    decreases s.len(),
{
    if s.len() > 0 && white_space(s.last()) {
        trim_end(s.drop_last())
    } else {
        s
    }
}

/// `s` without white space at either end.
pub open spec fn trimmed(s: Seq<char>) -> Seq<char> {
    trim_end(trim_start(s))
}

/// Remove the white space at both ends.
pub fn trim(s: &str) -> (r: &str)
    ensures
        r@ == trimmed(s@),
{
    let n: usize = s.unicode_len();
    let mut i: usize = 0;
    assert(s@.skip(0) =~= s@);
    while i < n && is_white_space(s.get_char(i))
        invariant
            n == s@.len(),
            i <= n,
            trim_start(s@) == trim_start(s@.skip(i as int)),
        decreases n - i,
    {
        assert(s@.skip(i as int)[0] == s@[i as int]);
        assert(s@.skip(i as int).skip(1) =~= s@.skip(i + 1));
        i += 1;
    }
    let ghost rest = s@.skip(i as int);
    assert(trim_start(rest) == rest) by {
        if rest.len() > 0 {
            assert(rest[0] == s@[i as int]);
        }
    }
    let mut j: usize = n;
    assert(s@.subrange(i as int, n as int) =~= rest);
    while j > i && is_white_space(s.get_char(j - 1))
        invariant
            n == s@.len(),
            i <= j <= n,
            trim_end(rest) == trim_end(s@.subrange(i as int, j as int)),
        decreases j,
    {
        let ghost part = s@.subrange(i as int, j as int);
        assert(part.last() == s@[j - 1]);
        assert(part.drop_last() =~= s@.subrange(i as int, j - 1));
        j -= 1;
    }
    proof {
        let part = s@.subrange(i as int, j as int);
        if part.len() > 0 {
            assert(part.last() == s@[j - 1]);
        }
    }
    s.substring_char(i, j)
}

/// Trimming never lengthens, and leaves text without white space at its ends
/// as it is.
pub proof fn trimmed_is_idempotent(s: Seq<char>)
    ensures
        trimmed(trimmed(s)) == trimmed(s),
        trimmed(s).len() <= s.len(),
{
    trim_start_ends(s);
    trim_end_ends(trim_start(s));
    let t = trimmed(s);
    if t.len() > 0 {
        assert(t[0] == trim_start(s)[0]);
        assert(!white_space(t[0]));
    }
}

proof fn trim_start_ends(s: Seq<char>)
    ensures
        trim_start(s).len() <= s.len(),
        trim_start(s).len() > 0 ==> !white_space(trim_start(s)[0]),
    decreases s.len(),
{
    if s.len() > 0 && white_space(s[0]) {
        trim_start_ends(s.skip(1));
    }
}

proof fn trim_end_ends(s: Seq<char>)
    ensures
        trim_end(s).len() <= s.len(),
        trim_end(s).len() > 0 ==> !white_space(trim_end(s).last()) && trim_end(s)[0] == s[0],
    decreases s.len(),
{
    if s.len() > 0 && white_space(s.last()) {
        trim_end_ends(s.drop_last());
    }
}

/// Whether two strings hold the same characters.
pub fn same(a: &str, b: &str) -> (r: bool)
    ensures
        r == (a@ == b@),
{
    a.to_owned() == b.to_owned()
}

/// Whether `s` begins with `prefix`.
pub fn starts_with(s: &str, prefix: &str) -> (r: bool)
    ensures
        r == prefix@.is_prefix_of(s@),
{
    let k: usize = prefix.unicode_len();
    if s.unicode_len() < k {
        return false;
    }
    same(s.substring_char(0, k), prefix)
}

/// What follows `prefix` in `s`.
pub fn strip_prefix<'a>(s: &'a str, prefix: &str) -> (r: Option<&'a str>)
    ensures
        r is Some <==> prefix@.is_prefix_of(s@),
        r matches Some(rest) ==> rest@ == s@.skip(prefix@.len() as int),
{
    if starts_with(s, prefix) {
        let rest = s.substring_char(prefix.unicode_len(), s.unicode_len());
        assert(rest@ =~= s@.skip(prefix@.len() as int));
        Some(rest)
    } else {
        None
    }
}

/// What comes before `suffix` in `s`.
pub fn strip_suffix<'a>(s: &'a str, suffix: &str) -> (r: Option<&'a str>)
    ensures
        r is Some <==> suffix@.is_suffix_of(s@),
        r matches Some(rest) ==> rest@ == s@.take(s@.len() - suffix@.len()),
{
    let n: usize = s.unicode_len();
    let k: usize = suffix.unicode_len();
    if n < k {
        return None;
    }
    if same(s.substring_char(n - k, n), suffix) {
        let rest = s.substring_char(0, n - k);
        assert(rest@ =~= s@.take(s@.len() - suffix@.len()));
        Some(rest)
    } else {
        None
    }
}

/// The characters of `s`, one by one.
pub fn to_chars(s: &str) -> (r: Vec<char>)
    ensures
        r@ == s@,
{
    let mut out: Vec<char> = Vec::new();
    for c in it: s.chars()
        invariant
            it.seq() == s@,
            out@ == s@.take(it.index() as int),
    {
        out.push(c);
        assert(out@ =~= s@.take(it.index() + 1));
    }
    assert(s@.take(s@.len() as int) =~= s@);
    out
}

/// The string made of `chars[from..to]`.
pub fn of_chars(chars: &Vec<char>, from: usize, to: usize) -> (r: String)
    requires
        from <= to <= chars@.len(),
    ensures
        r@ == chars@.subrange(from as int, to as int),
{
    let mut out = String::new();
    let mut i: usize = from;
    assert(out@ =~= chars@.subrange(from as int, from as int));
    while i < to
        invariant
            from <= i <= to <= chars@.len(),
            out@ == chars@.subrange(from as int, i as int),
        decreases to - i,
    {
        out.push(chars[i]);
        i += 1;
        assert(out@ =~= chars@.subrange(from as int, i as int));
    }
    out
}

/// The first index at or after `from` whose character satisfies `f`, or the
/// length of `s` when there is none.
pub open spec fn find_where(s: Seq<char>, f: spec_fn(char) -> bool, from: int) -> int
    decreases s.len() - from,
{
    if from >= s.len() {
        s.len() as int
    } else if f(s[from]) {
        from
    } else {
        find_where(s, f, from + 1)
    }
}

/// What [`find_where`] finds.
pub proof fn find_where_is_first(s: Seq<char>, f: spec_fn(char) -> bool, from: int)
    requires
        0 <= from <= s.len(),
    ensures
        from <= find_where(s, f, from) <= s.len(),
        forall|j: int| from <= j < find_where(s, f, from) ==> !f(#[trigger] s[j]),
        find_where(s, f, from) < s.len() ==> f(s[find_where(s, f, from)]),
    decreases s.len() - from,
{
    if from < s.len() && !f(s[from]) {
        find_where_is_first(s, f, from + 1);
    }
}

/// The first index of `c` at or after `from`, or the length of `s`.
pub open spec fn find_char(s: Seq<char>, c: char, from: int) -> int {
    find_where(s, |x: char| x == c, from)
}

/// What [`find_char`] finds.
pub proof fn find_char_is_first(s: Seq<char>, c: char, from: int)
    requires
        0 <= from <= s.len(),
    ensures
        from <= find_char(s, c, from) <= s.len(),
        forall|j: int| from <= j < find_char(s, c, from) ==> #[trigger] s[j] != c,
        find_char(s, c, from) < s.len() ==> s[find_char(s, c, from)] == c,
    decreases s.len() - from,
{
    if from < s.len() && s[from] != c {
        find_char_is_first(s, c, from + 1);
        assert(find_char(s, c, from) == find_char(s, c, from + 1));
    }
}

/// The first index of `c` in `chars[from..]`, or the length.
pub fn index_of(chars: &Vec<char>, c: char, from: usize) -> (r: usize)
    requires
        from <= chars@.len(),
    ensures
        r == find_char(chars@, c, from as int),
        from <= r <= chars@.len(),
        r < chars@.len() ==> chars@[r as int] == c,
{
    let mut i: usize = from;
    while i < chars.len() && chars[i] != c
        invariant
            from <= i <= chars@.len(),
            find_char(chars@, c, from as int) == find_char(chars@, c, i as int),
        decreases chars@.len() - i,
    {
        i += 1;
    }
    i
}

/// Whether `p` stands in `s` at index `i`.
pub open spec fn occurs_at(s: Seq<char>, p: Seq<char>, i: int) -> bool {
    0 <= i && i + p.len() <= s.len() && s.subrange(i, i + p.len()) == p
}

/// Whether `p` stands anywhere in `s`.
pub open spec fn contains(s: Seq<char>, p: Seq<char>) -> bool {
    exists|i: int| occurs_at(s, p, i)
}

/// The first place at or after `from` where `p` stands in `s`.
pub open spec fn find_text(s: Seq<char>, p: Seq<char>, from: int) -> Option<int>
    decreases s.len() + 1 - from,
{
    if from + p.len() > s.len() {
        None
    } else if occurs_at(s, p, from) {
        Some(from)
    } else {
        find_text(s, p, from + 1)
    }
}

/// What [`find_text`] finds.
pub proof fn find_text_is_first(s: Seq<char>, p: Seq<char>, from: int)
    requires
        0 <= from,
    ensures
        find_text(s, p, from) matches Some(i) ==> from <= i && occurs_at(s, p, i) && forall|j: int|
            from <= j < i ==> !occurs_at(s, p, j),
        find_text(s, p, from) is None ==> forall|j: int| from <= j ==> !occurs_at(s, p, j),
    decreases s.len() + 1 - from,
{
    if from + p.len() <= s.len() && !occurs_at(s, p, from) {
        find_text_is_first(s, p, from + 1);
    }
}

/// Whether `p` stands in `s` at index `i`.
pub fn is_at(s: &Vec<char>, p: &Vec<char>, i: usize) -> (r: bool)
    requires
        i <= s@.len(),
    ensures
        r == occurs_at(s@, p@, i as int),
{
    let n: usize = s.len();
    if n - i < p.len() {
        return false;
    }
    let mut k: usize = 0;
    while k < p.len()
        invariant
            n == s@.len(),
            i + p@.len() <= n,
            k <= p@.len(),
            forall|j: int| 0 <= j < k ==> s@[i + j] == #[trigger] p@[j],
        decreases p@.len() - k,
    {
        if s[i + k] != p[k] {
            assert(s@.subrange(i as int, i + p@.len())[k as int] == s@[i + k]);
            return false;
        }
        k += 1;
    }
    assert(s@.subrange(i as int, i + p@.len()) =~= p@);
    true
}

/// The first place at or after `from` where `p` stands in `s`.
pub fn find(s: &Vec<char>, p: &Vec<char>, from: usize) -> (r: Option<usize>)
    requires
        from <= s@.len(),
    ensures
        r is Some <==> find_text(s@, p@, from as int) is Some,
        r matches Some(i) ==> find_text(s@, p@, from as int) == Some(i as int) && i + p@.len()
            <= s@.len() && from <= i,
{
    let mut i: usize = from;
    loop
        invariant
            from <= i <= s@.len(),
            find_text(s@, p@, from as int) == find_text(s@, p@, i as int),
        decreases s@.len() - i,
    {
        if s.len() - i < p.len() {
            return None;
        }
        if is_at(s, p, i) {
            return Some(i);
        }
        assert(i < s@.len()) by {
            if i == s@.len() {
                assert(s@.subrange(i as int, i as int) =~= p@);
            }
        }
        i += 1;
    }
}

/// Whether `p` stands anywhere in `s`.
pub fn has(s: &str, p: &str) -> (r: bool)
    ensures
        r == contains(s@, p@),
{
    let found = find(&to_chars(s), &to_chars(p), 0);
    proof {
        find_text_is_first(s@, p@, 0);
    }
    found.is_some()
}

/// Every non-overlapping occurrence of `p` in `s`, from the left, replaced by
/// `by`. `p` is not empty.
pub open spec fn replaced(s: Seq<char>, p: Seq<char>, by: Seq<char>) -> Seq<char>
    decreases s.len(),
{
    if p.len() == 0 || s.len() == 0 {
        s
    } else if p.is_prefix_of(s) {
        by + replaced(s.skip(p.len() as int), p, by)
    } else {
        seq![s[0]] + replaced(s.skip(1), p, by)
    }
}

/// Replace every occurrence of `p` by `by`.
pub fn replace(s: &str, p: &str, by: &str) -> (r: String)
    requires
        p@.len() > 0,
    ensures
        r@ == replaced(s@, p@, by@),
{
    let chars = to_chars(s);
    let pat = to_chars(p);
    let n: usize = chars.len();
    let mut out = String::new();
    let mut i: usize = 0;
    assert(s@.skip(0) =~= s@);
    while i < n
        invariant
            n == chars@.len(),
            chars@ == s@,
            pat@ == p@,
            p@.len() > 0,
            i <= n,
            replaced(s@, p@, by@) == out@ + replaced(s@.skip(i as int), p@, by@),
        decreases n - i,
    {
        let ghost rest = s@.skip(i as int);
        let ghost before = out@;
        if is_at(&chars, &pat, i) {
            proof {
                assert(rest.subrange(0, p@.len() as int) =~= s@.subrange(
                    i as int,
                    i + p@.len(),
                ));
                assert(rest.skip(p@.len() as int) =~= s@.skip(i + p@.len()));
            }
            out.append(by);
            i += pat.len();
            assert(out@ + replaced(s@.skip(i as int), p@, by@) =~= before + (by@ + replaced(
                s@.skip(i as int),
                p@,
                by@,
            )));
        } else {
            proof {
                if p@.is_prefix_of(rest) {
                    assert(s@.subrange(i as int, i + p@.len()) =~= rest.subrange(
                        0,
                        p@.len() as int,
                    ));
                }
                assert(rest.skip(1) =~= s@.skip(i + 1));
            }
            out.push(chars[i]);
            i += 1;
            assert(out@ + replaced(s@.skip(i as int), p@, by@) =~= before + (seq![rest[0]]
                + replaced(s@.skip(i as int), p@, by@)));
        }
    }
    assert(out@ + replaced(s@.skip(i as int), p@, by@) =~= out@);
    out
}

/// `s` without the run of `c` at its end.
pub open spec fn trim_end_of(s: Seq<char>, c: char) -> Seq<char>
    decreases s.len(),
{
    if s.len() > 0 && s.last() == c {
        trim_end_of(s.drop_last(), c)
    } else {
        s
    }
}

/// Remove the run of `c` at the end of `s`.
pub fn trim_end_matches(s: &str, c: char) -> (r: &str)
    ensures
        r@ == trim_end_of(s@, c),
{
    let mut j: usize = s.unicode_len();
    assert(s@.take(j as int) =~= s@);
    while j > 0 && s.get_char(j - 1) == c
        invariant
            j <= s@.len(),
            trim_end_of(s@, c) == trim_end_of(s@.take(j as int), c),
        decreases j,
    {
        assert(s@.take(j as int).drop_last() =~= s@.take(j - 1));
        j -= 1;
    }
    assert(s@.take(j as int) =~= s@.subrange(0, j as int));
    s.substring_char(0, j)
}

/// `s` without the run of `c` at its start.
pub open spec fn trim_start_of(s: Seq<char>, c: char) -> Seq<char>
    decreases s.len(),
{
    if s.len() > 0 && s[0] == c {
        trim_start_of(s.skip(1), c)
    } else {
        s
    }
}

/// Remove the run of `c` at the start of `s`.
pub fn trim_start_matches(s: &str, c: char) -> (r: &str)
    ensures
        r@ == trim_start_of(s@, c),
{
    let n: usize = s.unicode_len();
    let mut i: usize = 0;
    assert(s@.skip(0) =~= s@);
    while i < n && s.get_char(i) == c
        invariant
            n == s@.len(),
            i <= n,
            trim_start_of(s@, c) == trim_start_of(s@.skip(i as int), c),
        decreases n - i,
    {
        assert(s@.skip(i as int)[0] == s@[i as int]);
        assert(s@.skip(i as int).skip(1) =~= s@.skip(i + 1));
        i += 1;
    }
    assert(s@.skip(i as int) =~= s@.subrange(i as int, n as int));
    s.substring_char(i, n)
}

/// Cutting a trailing run leaves no such character at the end, whatever was
/// there before.
pub proof fn trim_end_of_ends(s: Seq<char>, c: char)
    ensures
        trim_end_of(s, c).len() > 0 ==> trim_end_of(s, c).last() != c,
        trim_end_of(s, c).is_prefix_of(s),
    decreases s.len(),
{
    if s.len() > 0 && s.last() == c {
        trim_end_of_ends(s.drop_last(), c);
        assert(s.drop_last().is_prefix_of(s));
        assert(trim_end_of(s, c).is_prefix_of(s));
    }
}

/// The pieces of `s` between the occurrences of `sep`, which is not empty.
pub open spec fn pieces(s: Seq<char>, sep: Seq<char>) -> Seq<Seq<char>>
    decreases s.len(),
{
    match find_text(s, sep, 0) {
        Some(i) => if sep.len() > 0 && 0 <= i && i + sep.len() <= s.len() {
            seq![s.take(i)] + pieces(s.skip(i + sep.len()), sep)
        } else {
            seq![s]
        },
        None => seq![s],
    }
}

/// Searching a rest is searching the whole from there on.
pub proof fn find_text_in_rest(s: Seq<char>, p: Seq<char>, n: int, from: int)
    requires
        0 <= n <= s.len(),
        0 <= from,
    ensures
        match find_text(s.skip(n), p, from) {
            Some(i) => find_text(s, p, n + from) == Some(n + i),
            None => find_text(s, p, n + from) is None,
        },
    decreases s.len() + 1 - (n + from),
{
    let rest = s.skip(n);
    if from + p.len() <= rest.len() {
        assert(rest.subrange(from, from + p.len()) =~= s.subrange(n + from, n + from + p.len()));
        if !occurs_at(rest, p, from) {
            find_text_in_rest(s, p, n, from + 1);
        }
    }
}

/// Split `s` at every occurrence of `sep`.
pub fn split(s: &str, sep: &str) -> (r: Vec<String>)
    requires
        sep@.len() > 0,
    ensures
        views(r@) == pieces(s@, sep@),
{
    let chars = to_chars(s);
    let mark = to_chars(sep);
    let n: usize = chars.len();
    let mut out: Vec<String> = Vec::new();
    let mut from: usize = 0;
    assert(s@.skip(0) =~= s@);
    assert(views(out@) =~= Seq::<Seq<char>>::empty());
    assert(pieces(s@, sep@) =~= views(out@) + pieces(s@.skip(0), sep@));
    loop
        invariant
            n == chars@.len(),
            chars@ == s@,
            mark@ == sep@,
            sep@.len() > 0,
            from <= n,
            pieces(s@, sep@) == views(out@) + pieces(s@.skip(from as int), sep@),
        decreases chars@.len() - from,
    {
        let ghost rest = s@.skip(from as int);
        let ghost before = views(out@);
        proof {
            find_text_in_rest(s@, sep@, from as int, 0);
            find_text_is_first(rest, sep@, 0);
        }
        match find(&chars, &mark, from) {
            Some(i) => {
                let piece = of_chars(&chars, from, i);
                proof {
                    let k = i - from;
                    assert(find_text(rest, sep@, 0) == Some(k));
                    assert(piece@ =~= rest.take(k));
                    assert(rest.skip(k + sep@.len()) =~= s@.skip(i + sep@.len()));
                }
                out.push(piece);
                from = i + mark.len();
                assert(views(out@) =~= before.push(piece@));
                assert(views(out@) + pieces(s@.skip(from as int), sep@) =~= before + (seq![
                    piece@,
                ] + pieces(s@.skip(from as int), sep@)));
            },
            None => {
                let piece = of_chars(&chars, from, chars.len());
                assert(piece@ =~= rest);
                out.push(piece);
                assert(views(out@) =~= before + seq![rest]);
                return out;
            },
        }
    }
}

/// The views of a list of strings.
pub open spec fn views(list: Seq<String>) -> Seq<Seq<char>> {
    list.map_values(|s: String| s@)
}

/// The parts of `list` with `sep` between neighbours.
pub open spec fn joined(list: Seq<Seq<char>>, sep: Seq<char>) -> Seq<char>
    decreases list.len(),
{
    if list.len() == 0 {
        Seq::empty()
    } else if list.len() == 1 {
        list[0]
    } else {
        joined(list.drop_last(), sep) + sep + list.last()
    }
}

/// Join a list of strings.
pub fn join(list: &Vec<String>, sep: &str) -> (r: String)
    ensures
        r@ == joined(views(list@), sep@),
{
    let mut out = String::new();
    let mut i: usize = 0;
    let ghost all = views(list@);
    while i < list.len()
        invariant
            all == views(list@),
            i <= list@.len(),
            out@ == joined(all.take(i as int), sep@),
        decreases list@.len() - i,
    {
        assert(all.take(i + 1).drop_last() =~= all.take(i as int));
        assert(all.take(i + 1).last() == list@[i as int]@);
        if i > 0 {
            out.append(sep);
            out.append(list[i].as_str());
        } else {
            out.append(list[i].as_str());
            assert(out@ =~= list@[0]@);
        }
        i += 1;
    }
    assert(all.take(list@.len() as int) =~= all);
    out
}

/// Alphabetical order by code point, strictly.
pub open spec fn text_less(a: Seq<char>, b: Seq<char>) -> bool
    decreases a.len(),
{
    if b.len() == 0 {
        false
    } else if a.len() == 0 {
        true
    } else if a[0] != b[0] {
        a[0] < b[0]
    } else {
        text_less(a.skip(1), b.skip(1))
    }
}

/// Compare two strings alphabetically by code point.
pub fn is_before(a: &str, b: &str) -> (r: bool)
    ensures
        r == text_less(a@, b@),
{
    let x = to_chars(a);
    let y = to_chars(b);
    let mut i: usize = 0;
    assert(a@.skip(0) =~= a@);
    assert(b@.skip(0) =~= b@);
    loop
        invariant
            x@ == a@,
            y@ == b@,
            i <= a@.len(),
            i <= b@.len(),
            text_less(a@, b@) == text_less(a@.skip(i as int), b@.skip(i as int)),
        decreases a@.len() - i,
    {
        if i == y.len() {
            return false;
        }
        if i == x.len() {
            return true;
        }
        if x[i] != y[i] {
            return x[i] < y[i];
        }
        assert(a@.skip(i as int).skip(1) =~= a@.skip(i + 1));
        assert(b@.skip(i as int).skip(1) =~= b@.skip(i + 1));
        i += 1;
    }
}

/// Alphabetical order is strict and total.
pub proof fn text_order(a: Seq<char>, b: Seq<char>)
    ensures
        text_less(a, b) ==> !text_less(b, a) && a != b,
        text_less(a, b) || text_less(b, a) || a == b,
    decreases a.len(),
{
    if a.len() > 0 && b.len() > 0 && a[0] == b[0] {
        text_order(a.skip(1), b.skip(1));
        if a.skip(1) == b.skip(1) {
            assert(a =~= seq![a[0]] + a.skip(1));
            assert(b =~= seq![b[0]] + b.skip(1));
        }
    } else if a.len() == 0 && b.len() == 0 {
        assert(a =~= b);
    }
}

/// Alphabetical order is transitive.
pub proof fn text_order_chains(a: Seq<char>, b: Seq<char>, c: Seq<char>)
    requires
        text_less(a, b),
        text_less(b, c),
    ensures
        text_less(a, c),
    decreases a.len(),
{
    if a.len() > 0 && b.len() > 0 && c.len() > 0 && a[0] == b[0] && b[0] == c[0] {
        text_order_chains(a.skip(1), b.skip(1), c.skip(1));
    }
}

/// Trimming cuts white space off the ends and nothing else: what is left stands in the
/// text with only white space before and behind it, and has none at its own ends.
pub proof fn trimming_cuts_only_white_space(s: Seq<char>) -> (at: int)
    ensures
        0 <= at,
        at + trimmed(s).len() <= s.len(),
        trimmed(s) == s.subrange(at, at + trimmed(s).len()),
        forall|i: int| 0 <= i < at ==> white_space(#[trigger] s[i]),
        forall|i: int| at + trimmed(s).len() <= i < s.len() ==> white_space(#[trigger] s[i]),
        trimmed(s).len() > 0 ==> !white_space(trimmed(s)[0]) && !white_space(trimmed(s).last()),
        trimmed(s).len() > 0 <==> exists|i: int| 0 <= i < s.len() && !white_space(#[trigger] s[i]),
{
    let at = start_cut(s);
    let rest = trim_start(s);
    end_cut(rest);
    trim_start_ends(s);
    trim_end_ends(rest);
    let t = trimmed(s);
    assert(t =~= s.subrange(at, at + t.len()));
    assert forall|i: int| at + t.len() <= i < s.len() implies white_space(#[trigger] s[i]) by {
        assert(rest[i - at] == s[i]);
    }
    if t.len() > 0 {
        assert(t[0] == rest[0]);
        assert(s[at] == t[0]);
        assert(!white_space(s[at]));
    } else {
        assert forall|i: int| 0 <= i < s.len() implies white_space(#[trigger] s[i]) by {
            if i < at {
                assert(white_space(s[i]));
            }
        }
    }
    at
}

proof fn start_cut(s: Seq<char>) -> (at: int)
    ensures
        0 <= at <= s.len(),
        trim_start(s) == s.skip(at),
        forall|i: int| 0 <= i < at ==> white_space(#[trigger] s[i]),
    decreases s.len(),
{
    if s.len() > 0 && white_space(s[0]) {
        let k = start_cut(s.skip(1));
        assert(s.skip(1).skip(k) =~= s.skip(k + 1));
        assert forall|i: int| 0 <= i < k + 1 implies white_space(#[trigger] s[i]) by {
            if i > 0 {
                assert(s.skip(1)[i - 1] == s[i]);
            }
        }
        k + 1
    } else {
        assert(s.skip(0) =~= s);
        0
    }
}

proof fn end_cut(s: Seq<char>)
    ensures
        trim_end(s).len() <= s.len(),
        trim_end(s) == s.take(trim_end(s).len() as int),
        forall|i: int| trim_end(s).len() <= i < s.len() ==> white_space(#[trigger] s[i]),
    decreases s.len(),
{
    if s.len() > 0 && white_space(s.last()) {
        let rest = s.drop_last();
        end_cut(rest);
        assert(rest.take(trim_end(rest).len() as int) =~= s.take(trim_end(rest).len() as int));
        assert forall|i: int| trim_end(s).len() <= i < s.len() implies white_space(
            #[trigger] s[i],
        ) by {
            if i < rest.len() {
                assert(rest[i] == s[i]);
            }
        }
    } else {
        assert(s.take(s.len() as int) =~= s);
    }
}

/// Text with no white space at its ends is left as it is, and white space added at
/// either end makes no difference.
pub proof fn trimming_ignores_white_space_around(before: Seq<char>, s: Seq<char>, behind: Seq<char>)
    requires
        s.len() > 0,
        !white_space(s[0]),
        !white_space(s.last()),
        forall|i: int| 0 <= i < before.len() ==> white_space(#[trigger] before[i]),
        forall|i: int| 0 <= i < behind.len() ==> white_space(#[trigger] behind[i]),
    ensures
        trimmed(s) == s,
        trimmed(before + s + behind) == s,
    decreases before.len() + behind.len(),
{
    let all = before + s + behind;
    if before.len() > 0 {
        assert(all[0] == before[0]);
        assert(all.skip(1) =~= before.skip(1) + s + behind);
        assert forall|i: int| 0 <= i < before.skip(1).len() implies white_space(
            #[trigger] before.skip(1)[i],
        ) by {
            assert(before.skip(1)[i] == before[i + 1]);
        }
        trimming_ignores_white_space_around(before.skip(1), s, behind);
    } else if behind.len() > 0 {
        let fewer = behind.drop_last();
        assert(all =~= s + behind);
        assert(all[0] == s[0]);
        assert(all.last() == behind.last());
        assert(all.drop_last() =~= before + s + fewer);
        assert forall|i: int| 0 <= i < fewer.len() implies white_space(#[trigger] fewer[i]) by {
            assert(fewer[i] == behind[i]);
        }
        trimming_ignores_white_space_around(before, s, fewer);
        assert((before + s + fewer)[0] == s[0]);
    } else {
        assert(all =~= s);
    }
}

/// What opens a text still opens it when white space around it is cut.
pub proof fn trimming_keeps_an_opening(opening: Seq<char>, rest: Seq<char>)
    requires
        opening.len() > 0,
        !white_space(opening[0]),
        !white_space(opening.last()),
    ensures
        opening.is_prefix_of(trimmed(opening + rest)),
{
    let text = opening + rest;
    let at = trimming_cuts_only_white_space(text);
    assert(text[0] == opening[0]);
    assert(at == 0);
    let last = opening.len() - 1;
    assert(text[last] == opening.last());
    if trimmed(text).len() <= last {
        assert(white_space(text[last]));
    }
    assert(opening =~= trimmed(text).take(opening.len() as int));
}

/// Cutting a trailing run cuts nothing but that run.
pub proof fn only_the_trailing_run_is_cut(s: Seq<char>, c: char)
    ensures
        trim_end_of(s, c).len() <= s.len(),
        trim_end_of(s, c) == s.take(trim_end_of(s, c).len() as int),
        forall|i: int| trim_end_of(s, c).len() <= i < s.len() ==> #[trigger] s[i] == c,
        trim_end_of(s, c).len() > 0 ==> trim_end_of(s, c).last() != c,
    decreases s.len(),
{
    if s.len() > 0 && s.last() == c {
        let rest = s.drop_last();
        only_the_trailing_run_is_cut(rest, c);
        assert(rest.take(trim_end_of(rest, c).len() as int) =~= s.take(
            trim_end_of(rest, c).len() as int,
        ));
        assert forall|i: int| trim_end_of(s, c).len() <= i < s.len() implies #[trigger] s[i] == c by {
            if i < rest.len() {
                assert(rest[i] == s[i]);
            }
        }
    } else {
        assert(s.take(s.len() as int) =~= s);
    }
}

/// Cutting a leading run cuts nothing but that run.
pub proof fn only_the_leading_run_is_cut(s: Seq<char>, c: char)
    ensures
        trim_start_of(s, c).len() <= s.len(),
        trim_start_of(s, c) == s.skip(s.len() - trim_start_of(s, c).len()),
        forall|i: int| 0 <= i < s.len() - trim_start_of(s, c).len() ==> #[trigger] s[i] == c,
        trim_start_of(s, c).len() > 0 ==> trim_start_of(s, c)[0] != c,
    decreases s.len(),
{
    if s.len() > 0 && s[0] == c {
        let rest = s.skip(1);
        only_the_leading_run_is_cut(rest, c);
        assert(rest.skip(rest.len() - trim_start_of(rest, c).len()) =~= s.skip(
            s.len() - trim_start_of(s, c).len(),
        ));
        assert forall|i: int| 0 <= i < s.len() - trim_start_of(s, c).len() implies #[trigger] s[i]
            == c by {
            if i > 0 {
                assert(rest[i - 1] == s[i]);
            }
        }
    } else {
        assert(s.skip(0) =~= s);
    }
}

/// A joined list is taken apart again by its separator: joining one more part puts the
/// separator and that part behind what was joined before, one part alone is itself,
/// and nothing joins to nothing.
pub proof fn joining_keeps_every_part(list: Seq<Seq<char>>, part: Seq<char>, sep: Seq<char>)
    ensures
        joined(Seq::empty(), sep).len() == 0,
        joined(seq![part], sep) == part,
        list.len() > 0 ==> joined(list.push(part), sep) == joined(list, sep) + sep + part,
        forall|i: int| 0 <= i < list.len() ==> contains(joined(list, sep), #[trigger] list[i]),
    decreases list.len(),
{
    assert(list.push(part).drop_last() =~= list);
    if list.len() == 1 {
        assert(occurs_at(list[0], list[0], 0)) by {
            assert(list[0].subrange(0, list[0].len() as int) =~= list[0]);
        }
    } else if list.len() > 1 {
        let before = list.drop_last();
        joining_keeps_every_part(before, part, sep);
        let whole = joined(list, sep);
        let head = joined(before, sep);
        assert(whole == head + sep + list.last());
        assert forall|i: int| 0 <= i < list.len() implies contains(whole, #[trigger] list[i]) by {
            if i < before.len() {
                assert(before[i] == list[i]);
                let k = choose|k: int| occurs_at(head, list[i], k);
                assert(whole.subrange(k, k + list[i].len()) =~= head.subrange(
                    k,
                    k + list[i].len(),
                ));
                assert(occurs_at(whole, list[i], k));
            } else {
                let k = (head.len() + sep.len()) as int;
                assert(whole.subrange(k, k + list[i].len()) =~= list[i]);
                assert(occurs_at(whole, list[i], k));
            }
        }
    }
}

/// A text that stands between two others is contained in what they make together.
pub proof fn what_is_put_in_is_contained(before: Seq<char>, s: Seq<char>, behind: Seq<char>)
    ensures
        contains(before + s + behind, s),
        contains(before + s, s),
{
    let k = before.len() as int;
    assert((before + s + behind).subrange(k, k + s.len()) =~= s);
    assert(occurs_at(before + s + behind, s, k));
    assert((before + s).subrange(k, k + s.len()) =~= s);
    assert(occurs_at(before + s, s, k));
}

/// The pieces of a text, joined again, are the text, and no piece holds the separator.
pub proof fn splitting_loses_nothing(s: Seq<char>, sep: Seq<char>)
    requires
        sep.len() > 0,
    ensures
        pieces(s, sep).len() > 0,
        joined(pieces(s, sep), sep) == s,
        forall|i: int| 0 <= i < pieces(s, sep).len() ==> !contains(#[trigger] pieces(s, sep)[i], sep),
    decreases s.len(),
{
    find_text_is_first(s, sep, 0);
    match find_text(s, sep, 0) {
        Some(k) => {
            let rest = s.skip(k + sep.len());
            splitting_loses_nothing(rest, sep);
            let tail = pieces(rest, sep);
            joined_with_a_head(s.take(k), tail, sep);
            assert(s.subrange(k, k + sep.len()) == sep);
            assert(s.take(k) + sep + rest =~= s);
            assert forall|i: int| 0 <= i < pieces(s, sep).len() implies !contains(
                #[trigger] pieces(s, sep)[i],
                sep,
            ) by {
                if i == 0 {
                    let head = s.take(k);
                    if contains(head, sep) {
                        let j = choose|j: int| occurs_at(head, sep, j);
                        assert(s.subrange(j, j + sep.len()) =~= head.subrange(j, j + sep.len()));
                        assert(occurs_at(s, sep, j));
                    }
                } else {
                    assert(pieces(s, sep)[i] == tail[i - 1]);
                }
            }
        },
        None => {
            if contains(s, sep) {
                let j = choose|j: int| occurs_at(s, sep, j);
                assert(occurs_at(s, sep, j));
            }
        },
    }
}

proof fn joined_with_a_head(head: Seq<char>, tail: Seq<Seq<char>>, sep: Seq<char>)
    requires
        tail.len() > 0,
    ensures
        joined(seq![head] + tail, sep) == head + sep + joined(tail, sep),
    decreases tail.len(),
{
    let all = seq![head] + tail;
    if tail.len() == 1 {
        assert(all.drop_last() =~= seq![head]);
        reveal_with_fuel(joined, 2);
    } else {
        joined_with_a_head(head, tail.drop_last(), sep);
        assert(all.drop_last() =~= seq![head] + tail.drop_last());
        assert(joined(all, sep) =~= head + sep + joined(tail, sep));
    }
}

/// Replacing leaves text alone that does not hold the pattern, and turns a pattern
/// behind such text into its replacement, going on behind it.
pub proof fn replacing_replaces_the_pattern_alone(
    before: Seq<char>,
    p: Seq<char>,
    by: Seq<char>,
    behind: Seq<char>,
)
    requires
        p.len() > 0,
        find_text(before + p, p, 0) == Some(before.len() as int),
    ensures
        replaced(before, p, by) == before,
        replaced(before + p + behind, p, by) == before + by + replaced(behind, p, by),
    decreases before.len(),
{
    let all = before + p + behind;
    find_text_is_first(before + p, p, 0);
    if before.len() == 0 {
        assert(all.take(p.len() as int) =~= p);
        assert(p.is_prefix_of(all));
        assert(all.skip(p.len() as int) =~= behind);
        assert(before + by =~= by);
        assert(replaced(before, p, by) =~= before);
    } else {
        let rest = before.skip(1);
        assert(!occurs_at(before + p, p, 0));
        if p.is_prefix_of(all) {
            assert((before + p).subrange(0, p.len() as int) =~= all.take(p.len() as int));
        }
        if p.is_prefix_of(before) {
            assert((before + p).subrange(0, p.len() as int) =~= before.take(p.len() as int));
        }
        assert((before + p).skip(1) =~= rest + p);
        find_text_in_rest(before + p, p, 1, 0);
        assert(find_text(before + p, p, 1) == Some(before.len() as int));
        replacing_replaces_the_pattern_alone(rest, p, by, behind);
        assert(all.skip(1) =~= rest + p + behind);
        assert(seq![before[0]] + rest =~= before);
        assert(replaced(all, p, by) =~= before + by + replaced(behind, p, by));
        assert(replaced(before, p, by) =~= before);
    }
}

/// Alphabetical order goes by the first character that differs; the start of a text
/// comes before the text.
pub proof fn text_order_goes_by_the_first_difference(
    start: Seq<char>,
    a: char,
    b: char,
    x: Seq<char>,
    y: Seq<char>,
)
    requires
        a < b,
    ensures
        text_less(start + seq![a] + x, start + seq![b] + y),
        text_less(start, start + seq![b] + y),
    decreases start.len(),
{
    let s = start + seq![a] + x;
    let t = start + seq![b] + y;
    if start.len() > 0 {
        let rest = start.skip(1);
        text_order_goes_by_the_first_difference(rest, a, b, x, y);
        assert(s[0] == start[0] && t[0] == start[0]);
        assert(s.skip(1) =~= rest + seq![a] + x);
        assert(t.skip(1) =~= rest + seq![b] + y);
    } else {
        assert(s[0] == a && t[0] == b);
    }
}

/// Text that does not hold the pattern is left as it is.
pub proof fn replacing_nothing_changes_nothing(s: Seq<char>, p: Seq<char>, by: Seq<char>)
    requires
        p.len() > 0,
        !contains(s, p),
    ensures
        replaced(s, p, by) == s,
    decreases s.len(),
{
    if s.len() > 0 {
        if p.is_prefix_of(s) {
            assert(s.subrange(0, p.len() as int) =~= p);
            assert(occurs_at(s, p, 0));
        }
        let rest = s.skip(1);
        if contains(rest, p) {
            let k = choose|k: int| occurs_at(rest, p, k);
            assert(s.subrange(k + 1, k + 1 + p.len()) =~= rest.subrange(k, k + p.len()));
            assert(occurs_at(s, p, k + 1));
        }
        replacing_nothing_changes_nothing(rest, p, by);
        assert(seq![s[0]] + rest =~= s);
    }
}

/// The view of a list of strings is the view of each, in order.
pub proof fn a_list_shows_each_string(list: Seq<String>)
    ensures
        views(list).len() == list.len(),
        forall|i: int| 0 <= i < list.len() ==> #[trigger] views(list)[i] == list[i]@,
{
}

proof fn kept_text_is_the_texts_own(s: Seq<char>, p: Seq<char>, by: Seq<char>, q: Seq<char>)
    requires
        p.len() > 0,
        by.len() > 0,
        !q.contains(by[0]),
        q.is_prefix_of(replaced(s, p, by)),
    ensures
        q.is_prefix_of(s),
    decreases s.len(),
{
    if q.len() > 0 {
        let done = replaced(s, p, by);
        assert(q[0] == done[0]);
        if s.len() > 0 {
            if p.is_prefix_of(s) {
                assert(done[0] == by[0]);
                assert(q.contains(q[0]));
            } else {
                let rest = s.skip(1);
                let more = replaced(rest, p, by);
                assert(done =~= seq![s[0]] + more);
                let qq = q.skip(1);
                assert(qq =~= more.take(qq.len() as int)) by {
                    assert forall|i: int| 0 <= i < qq.len() implies qq[i] == more[i] by {
                        assert(q[i + 1] == done[i + 1]);
                    }
                }
                assert(!qq.contains(by[0])) by {
                    if qq.contains(by[0]) {
                        let i = qq.index_of(by[0]);
                        assert(q[i + 1] == by[0]);
                    }
                }
                kept_text_is_the_texts_own(rest, p, by, qq);
                assert(q =~= s.take(q.len() as int)) by {
                    assert forall|i: int| 0 <= i < q.len() implies q[i] == s[i] by {
                        if i > 0 {
                            assert(qq[i - 1] == rest[i - 1]);
                        }
                    }
                }
            }
        }
    }
}

/// What is replaced is gone: nothing of the pattern is left, nor made anew, where the
/// replacement does not hold it and is set off by characters at its ends that the pattern
/// does not have.
pub proof fn what_is_replaced_is_gone(s: Seq<char>, p: Seq<char>, by: Seq<char>)
    requires
        p.len() > 0,
        by.len() > 0,
        !p.contains(by[0]),
        !p.contains(by.last()),
        !contains(by, p),
    ensures
        !contains(replaced(s, p, by), p),
    decreases s.len(),
{
    let done = replaced(s, p, by);
    if contains(done, p) {
        let k = choose|k: int| occurs_at(done, p, k);
        let found = done.subrange(k, k + p.len());
        if s.len() == 0 {
            assert(done.len() == 0);
        } else if p.is_prefix_of(s) {
            let rest = s.skip(p.len() as int);
            let more = replaced(rest, p, by);
            let n = by.len() as int;
            what_is_replaced_is_gone(rest, p, by);
            assert(done =~= by + more);
            if k >= n {
                assert(more.subrange(k - n, k - n + p.len()) =~= found);
                assert(occurs_at(more, p, k - n));
            } else if k + p.len() <= n {
                assert(by.subrange(k, k + p.len()) =~= found);
                assert(occurs_at(by, p, k));
            } else {
                assert(found[n - 1 - k] == by[n - 1]);
                assert(p.contains(p[n - 1 - k]));
            }
        } else {
            let rest = s.skip(1);
            let more = replaced(rest, p, by);
            what_is_replaced_is_gone(rest, p, by);
            assert(done =~= seq![s[0]] + more);
            if k >= 1 {
                assert(more.subrange(k - 1, k - 1 + p.len()) =~= found);
                assert(occurs_at(more, p, k - 1));
            } else {
                assert(p =~= done.take(p.len() as int));
                kept_text_is_the_texts_own(s, p, by, p);
            }
        }
    }
}

/// White space is what Unicode has as such: the five controls from tab to carriage return,
/// the spaces of every width, the breaks of lines and paragraphs, and nothing else.
pub proof fn white_space_is_unicodes(c: char)
    ensures
        white_space(c) <==> {
            ||| '\u{9}' <= c <= '\u{d}'
            ||| c == ' '
            ||| c == '\u{85}'
            ||| c == '\u{a0}'
            ||| c == '\u{1680}'
            ||| '\u{2000}' <= c <= '\u{200a}'
            ||| c == '\u{2028}'
            ||| c == '\u{2029}'
            ||| c == '\u{202f}'
            ||| c == '\u{205f}'
            ||| c == '\u{3000}'
        },
{
}

} // verus!
