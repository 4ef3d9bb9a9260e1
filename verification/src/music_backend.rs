//! A bare music server: a request path is a pattern, and the first audio file it
//! matches is served. It decrypts nothing, so it leaves encrypted containers out.

use crate::music::{
    contains_pushed, file_uri, hit, is_plain_audio, plain_audio, position, unslashed, wanted,
};
use crate::pattern::{compile, is_match, regex_compiles, regex_matches, regex_source};
use crate::percent::{escaped, unescaped};
use crate::text::views;
use vstd::prelude::*;
use vstd::utf8::encode_utf8;

verus! {

/// The longest pattern, in bytes.
pub const MAX_PATTERN_BYTES: usize = 64;

/// Whether `c` is cut off the ends of a found path.
pub open spec fn cut(c: char) -> bool {
    c == '.' || c == '/'
}

/// `s` without the dots and slashes at its start.
pub open spec fn cut_start(s: Seq<char>) -> Seq<char>
    decreases s.len(),
{
    if s.len() > 0 && cut(s[0]) {
        cut_start(s.skip(1))
    } else {
        s
    }
}

/// `s` without the dots and slashes at its end.
pub open spec fn cut_end(s: Seq<char>) -> Seq<char>
    decreases s.len(),
{
    if s.len() > 0 && cut(s.last()) {
        cut_end(s.drop_last())
    } else {
        s
    }
}

/// A found path as it is indexed.
pub open spec fn clean(path: Seq<char>) -> Seq<char> {
    cut_end(cut_start(path))
}

/// A found path as it is indexed.
fn cleaned(path: &str) -> (r: &str)
    ensures
        r@ == clean(path@),
{
    let n: usize = path.unicode_len();
    let mut i: usize = 0;
    assert(path@.skip(0) =~= path@);
    while i < n && (path.get_char(i) == '.' || path.get_char(i) == '/')
        invariant
            n == path@.len(),
            i <= n,
            cut_start(path@) == cut_start(path@.skip(i as int)),
        decreases n - i,
    {
        assert(path@.skip(i as int)[0] == path@[i as int]);
        assert(path@.skip(i as int).skip(1) =~= path@.skip(i + 1));
        i += 1;
    }
    let ghost rest = path@.skip(i as int);
    assert(cut_start(rest) == rest) by {
        if rest.len() > 0 {
            assert(rest[0] == path@[i as int]);
        }
    }
    let mut j: usize = n;
    assert(path@.subrange(i as int, n as int) =~= rest);
    while j > i && (path.get_char(j - 1) == '.' || path.get_char(j - 1) == '/')
        invariant
            n == path@.len(),
            i <= j <= n,
            cut_end(rest) == cut_end(path@.subrange(i as int, j as int)),
        decreases j,
    {
        let ghost part = path@.subrange(i as int, j as int);
        assert(part.last() == path@[j - 1]);
        assert(part.drop_last() =~= path@.subrange(i as int, j - 1));
        j -= 1;
    }
    proof {
        let part = path@.subrange(i as int, j as int);
        if part.len() > 0 {
            assert(part.last() == path@[j - 1]);
        }
    }
    path.substring_char(i, j)
}

/// The first audio file at or after `from` whose indexed path matches.
pub open spec fn first_match(files: Seq<Seq<char>>, pattern: Seq<char>, from: int) -> Option<int>
    decreases files.len() - from,
{
    if from < 0 || from >= files.len() {
        None
    } else if plain_audio(files[from]) && regex_matches(pattern, clean(files[from])) {
        Some(from)
    } else {
        first_match(files, pattern, from + 1)
    }
}

/// The paths that the audio files among `files` are indexed under.
pub open spec fn indexed(files: Seq<Seq<char>>, path: Seq<char>) -> bool {
    exists|i: int| 0 <= i < files.len() && plain_audio(#[trigger] files[i]) && clean(files[i]) == path
}

/// The answer to a request.
#[derive(Debug, Clone, PartialEq, Eq)]
pub enum FileReply {
    /// Serve this path of the file server.
    Serve(String),
    /// 400, "Too long".
    TooLong,
    /// 404, "Music not match".
    NoMatch,
}

impl FileReply {
    /// The status and words of a refusal.
    pub fn refusal(&self) -> (r: Option<(u16, &'static str)>)
        ensures
            match *self {
                FileReply::Serve(_) => r is None,
                FileReply::TooLong => r matches Some((code, words)) && code == 400 && words@
                    == "Too long"@,
                FileReply::NoMatch => r matches Some((code, words)) && code == 404 && words@
                    == "Music not match"@,
            },
    {
        match self {
            FileReply::Serve(_) => None,
            FileReply::TooLong => Some((400, "Too long")),
            FileReply::NoMatch => Some((404, "Music not match")),
        }
    }
}

/// Find the file for a decoded request in the paths indexed so far, else in the
/// files found on disk, which are indexed up to the first that matches.
fn search(state: &mut Vec<String>, pattern: &regex::Regex, files: &Vec<String>) -> (r: FileReply)
    ensures
        ({
            let before = views(old(state)@);
            let now = views(final(state)@);
            let source = regex_source(*pattern);
            let all = views(files@);
            match r {
                FileReply::TooLong => false,
                FileReply::Serve(uri) => {
                    ||| now == before && exists|p: Seq<char>|
                        hit(before, source, p) && uri@ == #[trigger] ("/"@ + escaped(p))
                    ||| {
                        &&& forall|p: Seq<char>| !#[trigger] hit(before, source, p)
                        &&& first_match(all, source, 0) matches Some(k) && uri@ == "/"@ + escaped(
                            clean(all[k]),
                        ) && forall|p: Seq<char>|
                            #[trigger] now.contains(p) <==> before.contains(p) || indexed(
                                all.take(k + 1),
                                p,
                            )
                    }
                },
                FileReply::NoMatch => {
                    &&& forall|p: Seq<char>| !#[trigger] hit(before, source, p)
                    &&& first_match(all, source, 0) is None
                    &&& forall|p: Seq<char>|
                        #[trigger] now.contains(p) <==> before.contains(p) || indexed(all, p)
                },
            }
        }),
{
    let ghost before = views(state@);
    let ghost source = regex_source(*pattern);
    let ghost all = views(files@);
    let mut i: usize = 0;
    while i < state.len()
        invariant
            i <= state@.len(),
            before == views(state@),
            *state == *old(state),
            source == regex_source(*pattern),
            forall|k: int| 0 <= k < i ==> !regex_matches(source, #[trigger] before[k]),
        decreases state@.len() - i,
    {
        assert(before[i as int] == state@[i as int]@);
        if is_match(pattern, state[i].as_str()) {
            assert(before.contains(before[i as int]));
            assert(hit(before, source, before[i as int]));
            let uri = file_uri(state[i].as_str());
            assert(uri@ == "/"@ + escaped(before[i as int]));
            return FileReply::Serve(uri);
        }
        i += 1;
    }
    assert forall|p: Seq<char>| !#[trigger] hit(before, source, p) by {
        if before.contains(p) {
            let k = before.index_of(p);
            assert(before[k] == p);
        }
    }
    let mut j: usize = 0;
    while j < files.len()
        invariant
            j <= files@.len(),
            all == views(files@),
            before == views(old(state)@),
            source == regex_source(*pattern),
            forall|p: Seq<char>| !#[trigger] hit(before, source, p),
            first_match(all, source, 0) == first_match(all, source, j as int),
            forall|p: Seq<char>|
                #[trigger] views(state@).contains(p) <==> before.contains(p) || indexed(
                    all.take(j as int),
                    p,
                ),
        decreases files@.len() - j,
    {
        let ghost held = views(state@);
        let ghost this = all[j as int];
        assert(this == files@[j as int]@);
        let ghost upto = all.take(j as int);
        let ghost next = all.take(j + 1);
        assert(next =~= upto.push(this));
        if is_plain_audio(files[j].as_str()) {
            let path = cleaned(files[j].as_str());
            if position(state, path).is_none() {
                state.push(path.to_owned());
                assert(views(state@) =~= held.push(path@));
            }
            proof {
                let now = views(state@);
                assert forall|p: Seq<char>| #[trigger] now.contains(p) <==> before.contains(p)
                    || indexed(next, p) by {
                    one_more_indexed(upto, this, p);
                    assert(held.contains(p) <==> before.contains(p) || indexed(upto, p));
                    if now != held {
                        contains_pushed(held, path@, p);
                    }
                }
            }
            if is_match(pattern, path) {
                return FileReply::Serve(file_uri(path));
            }
        } else {
            proof {
                assert forall|p: Seq<char>| #[trigger] held.contains(p) <==> before.contains(p)
                    || indexed(next, p) by {
                    one_more_indexed(upto, this, p);
                    assert(held.contains(p) <==> before.contains(p) || indexed(upto, p));
                }
            }
        }
        j += 1;
    }
    assert(all.take(all.len() as int) =~= all);
    FileReply::NoMatch
}

proof fn one_more_indexed(files: Seq<Seq<char>>, file: Seq<char>, p: Seq<char>)
    ensures
        indexed(files.push(file), p) <==> indexed(files, p) || (plain_audio(file) && clean(file) == p),
{
    let longer = files.push(file);
    if indexed(files, p) {
        let k = choose|i: int|
            0 <= i < files.len() && plain_audio(#[trigger] files[i]) && clean(files[i]) == p;
        assert(longer[k] == files[k]);
    }
    if plain_audio(file) && clean(file) == p {
        assert(longer[files.len() as int] == file);
    }
    if indexed(longer, p) {
        let k = choose|i: int|
            0 <= i < longer.len() && plain_audio(#[trigger] longer[i]) && clean(longer[i]) == p;
        if k < files.len() {
            assert(longer[k] == files[k]);
        }
    }
}

/// Answer a request. `None` when it cannot be answered at all: its path is not
/// UTF-8, or it is short enough for a pattern but none.
pub fn find_file(state: &mut Vec<String>, path: &str, files: &Vec<String>) -> (r: Option<FileReply>)
    ensures
        ({
            let before = views(old(state)@);
            let now = views(final(state)@);
            let all = views(files@);
            match unescaped(unslashed(path@)) {
                None => r is None && now == before,
                Some(source) => if encode_utf8(source).len() > MAX_PATTERN_BYTES {
                    r == Some(FileReply::TooLong) && now == before
                } else if !regex_compiles(source) {
                    r is None && now == before
                } else {
                    match r {
                        None => false,
                        Some(FileReply::TooLong) => false,
                        Some(FileReply::Serve(uri)) => {
                            ||| now == before && exists|p: Seq<char>|
                                hit(before, source, p) && uri@ == #[trigger] ("/"@ + escaped(p))
                            ||| {
                                &&& forall|p: Seq<char>| !#[trigger] hit(before, source, p)
                                &&& first_match(all, source, 0) matches Some(k) && uri@ == "/"@
                                    + escaped(clean(all[k])) && forall|p: Seq<char>|
                                    #[trigger] now.contains(p) <==> before.contains(p) || indexed(
                                        all.take(k + 1),
                                        p,
                                    )
                            }
                        },
                        Some(FileReply::NoMatch) => {
                            &&& forall|p: Seq<char>| !#[trigger] hit(before, source, p)
                            &&& first_match(all, source, 0) is None
                            &&& forall|p: Seq<char>|
                                #[trigger] now.contains(p) <==> before.contains(p) || indexed(
                                    all,
                                    p,
                                )
                        },
                    }
                },
            }
        }),
        r == Some(FileReply::TooLong) <==> (unescaped(unslashed(path@)) matches Some(source)
            && encode_utf8(source).len() > 64),
{
    let text = match wanted(path) {
        Ok(text) => text,
        Err(_) => {
            return None;
        },
    };
    if text.as_str().as_bytes().len() > MAX_PATTERN_BYTES {
        return Some(FileReply::TooLong);
    }
    match compile(text.as_str()) {
        Some(pattern) => Some(search(state, &pattern, files)),
        None => None,
    }
}

/// Cleaning a path cuts dots and slashes off its two ends and nothing else: what is left
/// stands in the path with only those before and behind it, and has none at its own ends.
pub proof fn cleaning_cuts_only_dots_and_slashes(path: Seq<char>) -> (at: int)
    ensures
        0 <= at,
        at + clean(path).len() <= path.len(),
        clean(path) == path.subrange(at, at + clean(path).len()),
        forall|i: int| 0 <= i < at ==> (#[trigger] path[i] == '.' || path[i] == '/'),
        forall|i: int|
            at + clean(path).len() <= i < path.len() ==> (#[trigger] path[i] == '.' || path[i]
                == '/'),
        clean(path).len() > 0 ==> clean(path)[0] != '.' && clean(path)[0] != '/'
            && clean(path).last() != '.' && clean(path).last() != '/',
{
    let at = cut_at_start(path);
    let rest = cut_start(path);
    cut_at_end(rest);
    let t = clean(path);
    assert(t =~= path.subrange(at, at + t.len()));
    assert forall|i: int| at + t.len() <= i < path.len() implies (#[trigger] path[i] == '.'
        || path[i] == '/') by {
        assert(rest[i - at] == path[i]);
    }
    if t.len() > 0 {
        assert(t[0] == rest[0]);
    }
    at
}

proof fn cut_at_start(s: Seq<char>) -> (at: int)
    ensures
        0 <= at <= s.len(),
        cut_start(s) == s.skip(at),
        forall|i: int| 0 <= i < at ==> cut(#[trigger] s[i]),
        cut_start(s).len() > 0 ==> !cut(cut_start(s)[0]),
    decreases s.len(),
{
    if s.len() > 0 && cut(s[0]) {
        let k = cut_at_start(s.skip(1));
        assert(s.skip(1).skip(k) =~= s.skip(k + 1));
        assert forall|i: int| 0 <= i < k + 1 implies cut(#[trigger] s[i]) by {
            if i > 0 {
                assert(s.skip(1)[i - 1] == s[i]);
            }
        }
        k + 1
    } else {
        assert(s.skip(0) =~= s);
        0
    }
}

proof fn cut_at_end(s: Seq<char>)
    ensures
        cut_end(s).len() <= s.len(),
        cut_end(s) == s.take(cut_end(s).len() as int),
        forall|i: int| cut_end(s).len() <= i < s.len() ==> cut(#[trigger] s[i]),
        cut_end(s).len() > 0 ==> !cut(cut_end(s).last()),
    decreases s.len(),
{
    if s.len() > 0 && cut(s.last()) {
        let rest = s.drop_last();
        cut_at_end(rest);
        assert(rest.take(cut_end(rest).len() as int) =~= s.take(cut_end(rest).len() as int));
        assert forall|i: int| cut_end(s).len() <= i < s.len() implies cut(#[trigger] s[i]) by {
            if i < rest.len() {
                assert(rest[i] == s[i]);
            }
        }
    } else {
        assert(s.take(s.len() as int) =~= s);
    }
}

/// The file served is the first music file whose cleaned path matches; nothing is found
/// only where no music file matches.
pub proof fn the_first_matching_file_is_served(
    files: Seq<Seq<char>>,
    pattern: Seq<char>,
    from: int,
)
    requires
        0 <= from <= files.len(),
    ensures
        match first_match(files, pattern, from) {
            Some(k) => {
                &&& from <= k < files.len()
                &&& plain_audio(files[k])
                &&& regex_matches(pattern, clean(files[k]))
                &&& forall|i: int|
                    from <= i < k ==> !(plain_audio(#[trigger] files[i]) && regex_matches(
                        pattern,
                        clean(files[i]),
                    ))
            },
            None => forall|i: int|
                from <= i < files.len() ==> !(plain_audio(#[trigger] files[i]) && regex_matches(
                    pattern,
                    clean(files[i]),
                )),
        },
    decreases files.len() - from,
{
    if from < files.len() {
        the_first_matching_file_is_served(files, pattern, from + 1);
    }
}

/// Every music file is kept under its cleaned path, and nothing else is.
pub proof fn every_music_file_is_kept(files: Seq<Seq<char>>, i: int, path: Seq<char>)
    requires
        0 <= i < files.len(),
    ensures
        plain_audio(files[i]) ==> indexed(files, clean(files[i])),
        indexed(files, path) ==> exists|k: int|
            0 <= k < files.len() && plain_audio(#[trigger] files[k]) && clean(files[k]) == path,
{
    if plain_audio(files[i]) {
        assert(clean(files[i]) == clean(files[i]));
    }
}

} // verus!
