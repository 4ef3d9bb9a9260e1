//! Serving local audio to the speaker.
//!
//! A request path is looked up as a file of the music directory first; only if
//! there is none is it a pattern, and the first file it matches is served. `.ncm`,
//! NetEase's encrypted container, is indexed like any track but decrypted on the
//! way out.

use crate::digest::ascii_upper;
use crate::json::opt_string;
use crate::pattern::{compile, is_match, regex_compiles, regex_escaped, regex_matches, regex_source};
use crate::percent::{decode, decoding_undoes_encoding, encode, escaped, unescaped};
use crate::random::below;
use crate::text::{contains, same, strip_prefix, strip_suffix, views};
use vstd::prelude::*;

verus! {

/// A pattern longer than this is assumed junk, not a song name.
pub const MAX_PATTERN_LEN: usize = 64;

/// The extension of a path.
pub uninterp spec fn path_extension(path: Seq<char>) -> Option<Seq<char>>;

/// `std::path::Path::extension`: what follows the last dot of the file name, when
/// there is a file name with a dot past its start. The path alone decides.
#[verifier::external_body]
fn extension(path: &str) -> (r: Option<String>)
    ensures
        opt_string(r) == path_extension(path@),
{
    std::path::Path::new(path).extension().and_then(|e| e.to_str()).map(|e| e.to_owned())
}

/// The top-level media type that a path's extension is known for.
pub uninterp spec fn media_kind(path: Seq<char>) -> Seq<char>;

/// `mime_guess::MimeGuess::from_path`: the top-level media type that the extension
/// of `path` is known for, `application` when it is unknown. The path alone
/// decides; no file is looked at.
#[verifier::external_body]
fn media_type(path: &str) -> (r: String)
    ensures
        r@ == media_kind(path@),
{
    mime_guess::MimeGuess::from_path(path).first_or_octet_stream().type_().as_str().to_owned()
}

/// Whether `ext` is `ncm`, in letters of either case.
pub open spec fn ncm_extension(ext: Seq<char>) -> bool {
    &&& ext.len() == 3
    &&& ext[0] == 'n' || ext[0] == 'N'
    &&& ext[1] == 'c' || ext[1] == 'C'
    &&& ext[2] == 'm' || ext[2] == 'M'
}

/// Whether a path names an encrypted container.
pub open spec fn ncm(path: Seq<char>) -> bool {
    path_extension(path) matches Some(ext) && ncm_extension(ext)
}

/// Whether a path names an encrypted container.
pub fn is_ncm(path: &str) -> (r: bool)
    ensures
        r == ncm(path@),
{
    match extension(path) {
        Some(ext) => {
            let e = ext.as_str();
            e.unicode_len() == 3 && (e.get_char(0) == 'n' || e.get_char(0) == 'N') && (e.get_char(1)
                == 'c' || e.get_char(1) == 'C') && (e.get_char(2) == 'm' || e.get_char(2) == 'M')
        },
        None => false,
    }
}

/// Whether a path is known for an audio media type.
pub open spec fn plain_audio(path: Seq<char>) -> bool {
    media_kind(path) == "audio"@
}

/// Whether a path is known for an audio media type.
pub(crate) fn is_plain_audio(path: &str) -> (r: bool)
    ensures
        r == plain_audio(path@),
{
    same(media_type(path).as_str(), "audio")
}

/// Whether a path names audio. The encrypted container has no media type of its
/// own.
pub open spec fn audio(path: Seq<char>) -> bool {
    ncm(path) || plain_audio(path)
}

/// Whether a path names audio.
pub fn is_audio(path: &str) -> (r: bool)
    ensures
        r == audio(path@),
{
    is_ncm(path) || is_plain_audio(path)
}

/// The audio files under a directory, as relative paths. Rebuilt only on a miss,
/// which also picks up files added since.
#[derive(Debug)]
pub struct MusicIndex {
    root: String,
    paths: Vec<String>,
}

/// Whether no text occurs twice.
pub open spec fn distinct(list: Seq<Seq<char>>) -> bool {
    forall|i: int, j: int| 0 <= i < j < list.len() ==> #[trigger] list[i] != #[trigger] list[j]
}

/// Whether `path` is one of `list` and matches the expression made from `pattern`.
pub open spec fn hit(list: Seq<Seq<char>>, pattern: Seq<char>, path: Seq<char>) -> bool {
    list.contains(path) && regex_matches(pattern, path)
}

/// Those of `list` that match the expression made from `pattern`, in order.
pub open spec fn hits(list: Seq<Seq<char>>, pattern: Seq<char>) -> Seq<Seq<char>> {
    list.filter(|p: Seq<char>| regex_matches(pattern, p))
}

/// Every path that matches is a hit.
pub(crate) proof fn hits_are_all(list: Seq<Seq<char>>, pattern: Seq<char>, path: Seq<char>)
    requires
        hit(list, pattern, path),
    ensures
        hits(list, pattern).contains(path),
    decreases list.len(),
{
    reveal(Seq::filter);
    let f = |p: Seq<char>| regex_matches(pattern, p);
    let k = list.index_of(path);
    assert(list[k] == path);
    let rest = list.drop_last();
    let all = list.filter(f);
    assert(hits(list, pattern) == all);
    if k == list.len() - 1 {
        assert(all == rest.filter(f).push(path));
        assert(all[all.len() - 1] == path);
    } else {
        assert(rest[k] == path);
        hits_are_all(rest, pattern, path);
        let before = rest.filter(f);
        assert(hits(rest, pattern) == before);
        let m = before.index_of(path);
        assert(before[m] == path);
        assert(all[m] == path);
    }
}

impl MusicIndex {
    /// The indexed paths, in no particular order.
    pub closed spec fn list(&self) -> Seq<Seq<char>> {
        views(self.paths@)
    }

    /// The directory.
    pub closed spec fn directory(&self) -> Seq<char> {
        self.root@
    }

    /// Every path is audio and is indexed once.
    pub open spec fn wf(&self) -> bool {
        &&& distinct(self.list())
        &&& forall|i: int| 0 <= i < self.list().len() ==> audio(#[trigger] self.list()[i])
    }

    /// An index of `root` that has not looked yet.
    pub fn new(root: &str) -> (r: Self)
        ensures
            r.wf(),
            r.directory() == root@,
            r.list() == Seq::<Seq<char>>::empty(),
    {
        let r = MusicIndex { root: root.to_owned(), paths: Vec::new() };
        assert(r.list() =~= Seq::<Seq<char>>::empty());
        r
    }

    /// The directory the indexed paths are relative to.
    pub fn root(&self) -> (r: &str)
        ensures
            r@ == self.directory(),
    {
        self.root.as_str()
    }

    /// Rebuild the index from the files found under the directory, given as paths
    /// relative to it.
    pub fn rescan(&mut self, files: &Vec<String>)
        ensures
            final(self).wf(),
            final(self).directory() == old(self).directory(),
            forall|p: Seq<char>|
                #[trigger] final(self).list().contains(p) <==> views(files@).contains(p) && audio(p),
    {
        let ghost all = views(files@);
        let mut paths: Vec<String> = Vec::new();
        let mut i: usize = 0;
        assert(views(paths@) =~= Seq::<Seq<char>>::empty());
        while i < files.len()
            invariant
                i <= files@.len(),
                all == views(files@),
                distinct(views(paths@)),
                forall|k: int| 0 <= k < paths@.len() ==> audio(#[trigger] views(paths@)[k]),
                forall|p: Seq<char>|
                    #[trigger] views(paths@).contains(p) <==> all.take(i as int).contains(p)
                        && audio(p),
            decreases files@.len() - i,
        {
            let ghost before = views(paths@);
            let ghost seen = all.take(i as int);
            let ghost this = files@[i as int]@;
            let file = &files[i];
            assert(all.take(i + 1) =~= seen.push(this));
            let known = position(&paths, file.as_str());
            if is_audio(file.as_str()) && known.is_none() {
                paths.push(file.clone());
                assert(views(paths@) =~= before.push(this));
                proof {
                    let after = views(paths@);
                    assert forall|p: Seq<char>| #[trigger] after.contains(p) <==> all.take(
                        i + 1,
                    ).contains(p) && audio(p) by {
                        contains_pushed(before, this, p);
                        contains_pushed(seen, this, p);
                        assert(before.contains(p) <==> seen.contains(p) && audio(p));
                    }
                    assert forall|k: int| 0 <= k < after.len() implies audio(#[trigger] after[k]) by {
                        if k < before.len() {
                            assert(after[k] == before[k]);
                        }
                    }
                }
            } else {
                proof {
                    assert forall|p: Seq<char>| #[trigger] before.contains(p) <==> all.take(
                        i + 1,
                    ).contains(p) && audio(p) by {
                        contains_pushed(seen, this, p);
                        assert(before.contains(p) <==> seen.contains(p) && audio(p));
                    }
                }
            }
            i += 1;
        }
        assert(all.take(all.len() as int) =~= all);
        self.paths = paths;
    }

    /// Whether `rel` is indexed. This is the only way to turn a caller's text into
    /// a path: what is indexed is a file under the directory.
    pub fn contains(&self, rel: &str) -> (r: bool)
        ensures
            r == self.list().contains(rel@),
    {
        position(&self.paths, rel).is_some()
    }

    /// Some indexed path that the expression matches.
    pub fn find(&self, pattern: &regex::Regex) -> (r: Option<String>)
        ensures
            match r {
                Some(path) => hit(self.list(), regex_source(*pattern), path@),
                None => forall|p: Seq<char>|
                    !#[trigger] hit(self.list(), regex_source(*pattern), p),
            },
    {
        let ghost source = regex_source(*pattern);
        let ghost list = self.list();
        let mut i: usize = 0;
        while i < self.paths.len()
            invariant
                i <= self.paths@.len(),
                list == views(self.paths@),
                list == self.list(),
                source == regex_source(*pattern),
                forall|k: int| 0 <= k < i ==> !regex_matches(source, #[trigger] list[k]),
            decreases self.paths@.len() - i,
        {
            assert(list[i as int] == self.paths@[i as int]@);
            if is_match(pattern, self.paths[i].as_str()) {
                assert(list.contains(list[i as int]));
                return Some(self.paths[i].clone());
            }
            i += 1;
        }
        assert forall|p: Seq<char>| !#[trigger] hit(list, source, p) by {
            if list.contains(p) {
                let k = list.index_of(p);
                assert(list[k] == p);
            }
        }
        None
    }

    /// Up to `limit` indexed paths that the expression matches.
    pub fn find_all(&self, pattern: &regex::Regex, limit: usize) -> (r: Vec<String>)
        ensures
            views(r@) == ({
                let all = hits(self.list(), regex_source(*pattern));
                if all.len() > limit {
                    all.take(limit as int)
                } else {
                    all
                }
            }),
    {
        let ghost source = regex_source(*pattern);
        let ghost list = self.list();
        let ghost f = |p: Seq<char>| regex_matches(source, p);
        let mut out: Vec<String> = Vec::new();
        let mut i: usize = 0;
        proof {
            assert(list.take(0) =~= Seq::<Seq<char>>::empty());
            reveal(Seq::filter);
            assert(views(out@) =~= list.take(0).filter(f));
        }
        while i < self.paths.len() && out.len() < limit
            invariant
                i <= self.paths@.len(),
                list == views(self.paths@),
                list == self.list(),
                source == regex_source(*pattern),
                f == (|p: Seq<char>| regex_matches(source, p)),
                views(out@) == list.take(i as int).filter(f),
                out@.len() <= limit,
            decreases self.paths@.len() - i,
        {
            let ghost before = views(out@);
            proof {
                assert(list[i as int] == self.paths@[i as int]@);
                assert(list.take(i + 1).drop_last() =~= list.take(i as int));
                reveal(Seq::filter);
            }
            if is_match(pattern, self.paths[i].as_str()) {
                out.push(self.paths[i].clone());
                assert(views(out@) =~= before.push(list[i as int]));
            }
            i += 1;
        }
        proof {
            let part = list.take(i as int);
            let rest = list.skip(i as int);
            assert(list =~= part + rest);
            Seq::filter_distributes_over_add(part, rest, f);
            let all = list.filter(f);
            assert(hits(list, source) == all);
            assert(all == part.filter(f) + rest.filter(f));
            assert(out@.len() == views(out@).len());
            if i == self.paths@.len() {
                assert(rest =~= Seq::<Seq<char>>::empty());
                reveal(Seq::filter);
                assert(all =~= views(out@));
            } else {
                assert(all.take(limit as int) =~= views(out@));
                if all.len() == limit {
                    assert(all =~= views(out@));
                }
            }
        }
        out
    }

    /// A random indexed path, of those that the expression matches where there is
    /// one.
    pub fn choose_path(&self, pattern: Option<&regex::Regex>) -> (r: Option<String>)
        ensures
            match (r, pattern) {
                (Some(path), Some(re)) => hit(self.list(), regex_source(*re), path@),
                (Some(path), None) => self.list().contains(path@),
                (None, Some(re)) => forall|p: Seq<char>|
                    !#[trigger] hit(self.list(), regex_source(*re), p),
                (None, None) => self.list().len() == 0,
            },
    {
        let ghost list = self.list();
        match pattern {
            None => {
                if self.paths.len() == 0 {
                    return None;
                }
                let k: usize = below(self.paths.len());
                assert(list[k as int] == self.paths@[k as int]@);
                Some(self.paths[k].clone())
            },
            Some(re) => {
                let ghost source = regex_source(*re);
                let mut found: Vec<usize> = Vec::new();
                let mut i: usize = 0;
                while i < self.paths.len()
                    invariant
                        i <= self.paths@.len(),
                        list == views(self.paths@),
                        source == regex_source(*re),
                        forall|k: int|
                            0 <= k < found@.len() ==> #[trigger] found@[k] < i && regex_matches(
                                source,
                                list[found@[k] as int],
                            ),
                        forall|k: int|
                            0 <= k < i && regex_matches(source, #[trigger] list[k])
                                ==> found@.len() > 0,
                    decreases self.paths@.len() - i,
                {
                    assert(list[i as int] == self.paths@[i as int]@);
                    if is_match(re, self.paths[i].as_str()) {
                        found.push(i);
                    }
                    i += 1;
                }
                if found.len() == 0 {
                    assert forall|p: Seq<char>| !#[trigger] hit(list, source, p) by {
                        if list.contains(p) {
                            let k = list.index_of(p);
                            assert(list[k] == p);
                        }
                    }
                    return None;
                }
                let k: usize = found[below(found.len())];
                assert(list[k as int] == self.paths@[k as int]@);
                assert(list.contains(list[k as int]));
                Some(self.paths[k].clone())
            },
        }
    }
}

pub(crate) proof fn contains_pushed(list: Seq<Seq<char>>, item: Seq<char>, p: Seq<char>)
    ensures
        list.push(item).contains(p) <==> list.contains(p) || p == item,
{
    let longer = list.push(item);
    if list.contains(p) {
        let k = list.index_of(p);
        assert(longer[k] == p);
    }
    if p == item {
        assert(longer[list.len() as int] == p);
    }
    if longer.contains(p) {
        let k = longer.index_of(p);
        if k < list.len() {
            assert(list[k] == p);
        }
    }
}

/// Where `text` stands in `list`.
pub(crate) fn position(list: &Vec<String>, text: &str) -> (r: Option<usize>)
    ensures
        r is Some <==> views(list@).contains(text@),
{
    let mut i: usize = 0;
    while i < list.len()
        invariant
            i <= list@.len(),
            forall|k: int| 0 <= k < i ==> views(list@)[k] != text@,
        decreases list@.len() - i,
    {
        if same(list[i].as_str(), text) {
            assert(views(list@)[i as int] == text@);
            return Some(i);
        }
        assert(views(list@)[i as int] != text@);
        i += 1;
    }
    None
}

/// How far the lookup of a request has come.
#[derive(Debug, Clone, Copy, PartialEq, Eq, Structural)]
pub enum Lookup {
    /// Nothing has been looked at.
    First,
    /// The index has been rebuilt once.
    Again,
    /// The index has been rebuilt for the pattern, too.
    Last,
}

/// Why a request is refused.
#[derive(Debug, Clone, Copy, PartialEq, Eq, Structural)]
pub enum Refusal {
    NotUtf8,
    TooLong,
    NotAPattern,
    NoMatch,
}

impl Refusal {
    /// The HTTP status of this.
    pub open spec fn code(self) -> int {
        match self {
            Refusal::NoMatch => 404,
            _ => 400,
        }
    }

    /// The HTTP status of this.
    pub fn status(self) -> (r: u16)
        ensures
            r == self.code(),
    {
        match self {
            Refusal::NoMatch => 404,
            _ => 400,
        }
    }

    /// The words of this.
    pub open spec fn words(self) -> Seq<char> {
        match self {
            Refusal::NotUtf8 => "Path is not valid UTF-8"@,
            Refusal::TooLong => "Pattern too long"@,
            Refusal::NotAPattern => "Not a valid pattern"@,
            Refusal::NoMatch => "No music matches"@,
        }
    }

    /// The words of this.
    pub fn text(self) -> (r: &'static str)
        ensures
            r@ == self.words(),
    {
        match self {
            Refusal::NotUtf8 => "Path is not valid UTF-8",
            Refusal::TooLong => "Pattern too long",
            Refusal::NotAPattern => "Not a valid pattern",
            Refusal::NoMatch => "No music matches",
        }
    }
}

/// What a lookup came to.
#[derive(Debug, Clone, PartialEq, Eq)]
pub enum Resolved {
    /// This indexed file.
    Hit(String),
    Refused(Refusal),
    /// Rebuild the index, and look again from here.
    Rescan(Lookup),
}

/// The file that `wanted` refers to. An exact path wins; only otherwise is it a
/// pattern that speech produced.
pub fn resolve(index: &MusicIndex, wanted: &str, at: Lookup) -> (r: Resolved)
    ensures
        ({
            let list = index.list();
            if list.contains(wanted@) && at != Lookup::Last {
                r matches Resolved::Hit(path) && path@ == wanted@
            } else if at == Lookup::First {
                r == Resolved::Rescan(Lookup::Again)
            } else if wanted@.len() > MAX_PATTERN_LEN {
                r == Resolved::Refused(Refusal::TooLong)
            } else if !regex_compiles(wanted@) {
                r == Resolved::Refused(Refusal::NotAPattern)
            } else {
                match r {
                    Resolved::Hit(path) => hit(list, wanted@, path@),
                    Resolved::Rescan(next) => at == Lookup::Again && next == Lookup::Last && forall|
                        p: Seq<char>,
                    | !#[trigger] hit(list, wanted@, p),
                    Resolved::Refused(why) => at == Lookup::Last && why == Refusal::NoMatch
                        && forall|p: Seq<char>| !#[trigger] hit(list, wanted@, p),
                }
            }
        }),
        r == Resolved::Refused(Refusal::TooLong) ==> wanted@.len() > 64,
        at == Lookup::Last && wanted@.len() > 64 ==> r == Resolved::Refused(Refusal::TooLong),
        r matches Resolved::Hit(path) ==> index.list().contains(path@),
{
    let last: bool = match at {
        Lookup::Last => true,
        _ => false,
    };
    if !last && index.contains(wanted) {
        return Resolved::Hit(wanted.to_owned());
    }
    match at {
        Lookup::First => {
            return Resolved::Rescan(Lookup::Again);
        },
        _ => {},
    }
    if wanted.unicode_len() > MAX_PATTERN_LEN {
        return Resolved::Refused(Refusal::TooLong);
    }
    let pattern = match compile(wanted) {
        Some(pattern) => pattern,
        None => {
            return Resolved::Refused(Refusal::NotAPattern);
        },
    };
    match index.find(&pattern) {
        Some(path) => Resolved::Hit(path),
        None => if last {
            Resolved::Refused(Refusal::NoMatch)
        } else {
            Resolved::Rescan(Lookup::Last)
        },
    }
}

/// A request path without its leading slash.
pub open spec fn unslashed(path: Seq<char>) -> Seq<char> {
    if path.len() > 0 && path[0] == '/' {
        path.skip(1)
    } else {
        path
    }
}

/// What a request path asks for, decoded.
pub fn wanted(path: &str) -> (r: Result<String, Refusal>)
    ensures
        match r {
            Ok(text) => unescaped(unslashed(path@)) == Some(text@),
            Err(why) => unescaped(unslashed(path@)) is None && why == Refusal::NotUtf8,
        },
{
    proof {
        reveal_strlit("/");
        if path@.len() > 0 && path@[0] == '/' {
            assert("/"@ =~= path@.subrange(0, 1));
        }
        if "/"@.is_prefix_of(path@) {
            assert(path@.subrange(0, 1)[0] == '/');
        }
    }
    let rest = match strip_prefix(path, "/") {
        Some(rest) => rest,
        None => path,
    };
    match decode(rest) {
        Some(text) => Ok(text),
        None => Err(Refusal::NotUtf8),
    }
}

/// How a file is served.
#[derive(Debug, Clone, PartialEq, Eq)]
pub enum Serving {
    /// Decrypted on the way out: this file under the directory.
    Decrypt(String),
    /// As it is: this path of the file server.
    File(String),
}

/// How the file `hit` is served. An encrypted container must not go out as it is.
pub fn resolve_pattern(hit: &str) -> (r: Serving)
    ensures
        match r {
            Serving::Decrypt(path) => ncm(hit@) && path@ == hit@,
            Serving::File(uri) => !ncm(hit@) && uri@ == "/"@ + escaped(hit@),
        },
{
    if is_ncm(hit) {
        Serving::Decrypt(hit.to_owned())
    } else {
        Serving::File(file_uri(hit))
    }
}

/// The path of the file server that stands for `path`.
pub fn file_uri(path: &str) -> (r: String)
    ensures
        r@ == "/"@ + escaped(path@),
{
    let mut out = "/".to_owned();
    out.append(encode(path).as_str());
    out
}

/// The prefix that audio is mounted under, by the whole path of a request and the
/// path inside the mount.
pub open spec fn prefix_of(original: Seq<char>, inner: Seq<char>) -> Seq<char> {
    if inner.is_suffix_of(original) {
        original.take(original.len() - inner.len())
    } else {
        ""@
    }
}

/// The prefix that audio is mounted under. A redirect must carry it, or it would
/// point outside the mount.
pub fn mount_prefix<'a>(original: &'a str, inner: &str) -> (r: &'a str)
    ensures
        r@ == prefix_of(original@, inner@),
{
    match strip_suffix(original, inner) {
        Some(prefix) => prefix,
        None => "",
    }
}

/// Where a random pick redirects to, if there is one.
pub fn redirect_to(hit: Option<String>, prefix: &str) -> (r: Option<String>)
    ensures
        opt_string(r) == match hit {
            Some(path) => Some(prefix@ + "/"@ + escaped(path@)),
            None => None,
        },
{
    match hit {
        Some(path) => {
            let mut out = prefix.to_owned();
            out.append("/");
            out.append(encode(path.as_str()).as_str());
            Some(out)
        },
        None => None,
    }
}

/// The answer to a request for a random track.
#[derive(Debug, Clone, PartialEq, Eq)]
pub enum RandomReply {
    /// See this instead.
    Redirect(String),
    NotFound(&'static str),
    BadRequest(&'static str),
}

/// A random track.
pub fn random(index: &MusicIndex, prefix: &str) -> (r: RandomReply)
    ensures
        match r {
            RandomReply::Redirect(to) => exists|p: Seq<char>|
                index.list().contains(p) && to@ == #[trigger] (prefix@ + "/"@ + escaped(p)),
            RandomReply::NotFound(words) => index.list().len() == 0 && words@ == "No music found"@,
            RandomReply::BadRequest(_) => false,
        },
{
    let pick = index.choose_path(None);
    let ghost chosen = opt_string(pick);
    match redirect_to(pick, prefix) {
        Some(to) => {
            assert(to@ == prefix@ + "/"@ + escaped(chosen->0));
            RandomReply::Redirect(to)
        },
        None => RandomReply::NotFound("No music found"),
    }
}

/// A random track whose path names `artist`, literally.
pub fn random_by_artist(index: &MusicIndex, artist: &str, prefix: &str) -> (r: RandomReply)
    ensures
        ({
            let list = index.list();
            match r {
                RandomReply::Redirect(to) => exists|p: Seq<char>|
                    list.contains(p) && contains(p, artist@) && to@ == #[trigger] (prefix@ + "/"@
                        + escaped(p)),
                RandomReply::NotFound(words) => words@ == "No music found for that artist"@
                    && forall|p: Seq<char>| #[trigger] list.contains(p) ==> !contains(p, artist@),
                RandomReply::BadRequest(words) => words@ == "Not a valid artist"@,
            }
        }),
        r is BadRequest <==> !regex_compiles(regex_escaped(artist@)),
{
    let text = crate::pattern::escape(artist);
    let pattern = match compile(text.as_str()) {
        Some(pattern) => pattern,
        None => {
            return RandomReply::BadRequest("Not a valid artist");
        },
    };
    let only = Some(&pattern);
    let pick = index.choose_path(only);
    let ghost chosen = opt_string(pick);
    let ghost source = regex_source(*only->0);
    assert(source == text@);
    match redirect_to(pick, prefix) {
        Some(to) => {
            assert(hit(index.list(), source, chosen->0));
            assert(regex_matches(text@, chosen->0));
            assert(to@ == prefix@ + "/"@ + escaped(chosen->0));
            RandomReply::Redirect(to)
        },
        None => {
            assert(pick is None);
            assert forall|p: Seq<char>| #[trigger] index.list().contains(p) implies !contains(
                p,
                artist@,
            ) by {
                assert(!hit(index.list(), source, p));
                assert(regex_matches(text@, p) == contains(p, artist@));
            }
            RandomReply::NotFound("No music found for that artist")
        },
    }
}

/// The media type of a decrypted container, by the format its metadata names.
pub open spec fn format_type(format: Seq<char>) -> Seq<char> {
    if format == "mp3"@ {
        "audio/mpeg"@
    } else if format == "flac"@ {
        "audio/flac"@
    } else {
        "application/octet-stream"@
    }
}

/// The media type of a decrypted container. Its extension says nothing: MP3 and
/// FLAC are both stored in it.
pub fn content_type(format: &str) -> (r: &'static str)
    ensures
        r@ == format_type(format@),
{
    if same(format, "mp3") {
        "audio/mpeg"
    } else if same(format, "flac") {
        "audio/flac"
    } else {
        "application/octet-stream"
    }
}

/// What opening an encrypted container came to.
#[derive(Debug)]
pub enum Opened {
    /// It is one, of this format.
    Format(String),
    /// It is none that can be read.
    Failed(String),
    /// Nobody is left to tell.
    Died,
}

/// The answer to a request for an encrypted container, before any of its bytes: a
/// status, and the media type or the words of the failure. A corrupt file is an
/// error, not a success that turns out empty.
pub fn serve_ncm(opened: &Opened) -> (r: (u16, &'static str))
    ensures
        match *opened {
            Opened::Format(format) => r.0 == 200 && r.1@ == format_type(format@),
            Opened::Failed(_) => r.0 == 500 && r.1@ == "Cannot decrypt"@,
            Opened::Died => r.0 == 500 && r.1@ == "Decrypt task died"@,
        },
{
    match opened {
        Opened::Format(format) => (200, content_type(format.as_str())),
        Opened::Failed(_) => (500, "Cannot decrypt"),
        Opened::Died => (500, "Decrypt task died"),
    }
}

/// A redirect leads to the very file that was picked: its path inside the mount
/// asks for that file and for nothing else.
pub proof fn a_handed_out_path_asks_for_its_file(path: Seq<char>)
    ensures
        unescaped(unslashed("/"@ + escaped(path))) == Some(path),
{
    reveal_strlit("/");
    let uri = "/"@ + escaped(path);
    assert(uri[0] == '/');
    assert(uri.skip(1) =~= escaped(path));
    decoding_undoes_encoding(path);
}

/// A random redirect stays inside the mount it was asked through.
pub proof fn a_redirect_keeps_its_mount(prefix: Seq<char>, inner: Seq<char>, path: Seq<char>)
    ensures
        prefix_of(prefix + inner, inner) == prefix,
        prefix.is_prefix_of(prefix_of(prefix + inner, inner) + "/"@ + escaped(path)),
{
    let original = prefix + inner;
    assert(original.skip(original.len() - inner.len()) =~= inner);
    assert(inner.is_suffix_of(original));
    assert(original.take(original.len() - inner.len()) =~= prefix);
    let to = prefix + "/"@ + escaped(path);
    assert(to.take(prefix.len() as int) =~= prefix);
}

/// An encrypted file is one whose extension is `ncm`, in upper or lower case.
pub proof fn the_extension_counts_in_either_case(ext: Seq<char>)
    ensures
        ncm_extension(ext) <==> ext.map_values(|c: char| ascii_upper(c)) == "NCM"@,
{
    reveal_strlit("NCM");
    let upper = ext.map_values(|c: char| ascii_upper(c));
    assert(forall|c: char| #[trigger] ascii_upper(c) == 'N' <==> c == 'n' || c == 'N');
    assert(forall|c: char| #[trigger] ascii_upper(c) == 'C' <==> c == 'c' || c == 'C');
    assert(forall|c: char| #[trigger] ascii_upper(c) == 'M' <==> c == 'm' || c == 'M');
    if ncm_extension(ext) {
        assert(upper =~= "NCM"@);
    }
    if upper == "NCM"@ {
        assert(upper.len() == ext.len());
        assert(upper[0] == ascii_upper(ext[0]));
        assert(upper[1] == ascii_upper(ext[1]));
        assert(upper[2] == ascii_upper(ext[2]));
    }
}

/// Music is what is encrypted or is plain audio, and nothing else.
pub proof fn music_is_encrypted_or_plain_audio(path: Seq<char>)
    ensures
        audio(path) <==> media_kind(path) == "audio"@ || (path_extension(path) matches Some(ext)
            && ncm_extension(ext)),
{
}

proof fn a_hit_is_in_the_list(list: Seq<Seq<char>>, pattern: Seq<char>, path: Seq<char>)
    requires
        hits(list, pattern).contains(path),
    ensures
        list.contains(path),
        regex_matches(pattern, path),
    decreases list.len(),
{
    reveal(Seq::filter);
    let f = |p: Seq<char>| regex_matches(pattern, p);
    let all = list.filter(f);
    assert(hits(list, pattern) == all);
    let k = all.index_of(path);
    assert(all[k] == path);
    let rest = list.drop_last();
    let before = rest.filter(f);
    assert(hits(rest, pattern) == before);
    if f(list.last()) && k == all.len() - 1 {
        assert(list[list.len() - 1] == path);
    } else {
        assert(before[k] == path);
        a_hit_is_in_the_list(rest, pattern, path);
        let m = rest.index_of(path);
        assert(list[m] == path);
    }
}

/// The hits of a pattern are the paths that it matches, all of them and no others, in the
/// order of the list.
pub proof fn hits_are_the_matching_paths(
    list: Seq<Seq<char>>,
    more: Seq<Seq<char>>,
    pattern: Seq<char>,
    path: Seq<char>,
)
    ensures
        hits(list, pattern).contains(path) <==> list.contains(path) && regex_matches(pattern, path),
        hit(list, pattern, path) <==> list.contains(path) && regex_matches(pattern, path),
        hits(list + more, pattern) == hits(list, pattern) + hits(more, pattern),
        hits(seq![path], pattern) == if regex_matches(pattern, path) {
            seq![path]
        } else {
            Seq::empty()
        },
{
    let f = |p: Seq<char>| regex_matches(pattern, p);
    if list.contains(path) && regex_matches(pattern, path) {
        hits_are_all(list, pattern, path);
    }
    if hits(list, pattern).contains(path) {
        a_hit_is_in_the_list(list, pattern, path);
    }
    Seq::filter_distributes_over_add(list, more, f);
    reveal(Seq::filter);
    reveal_with_fuel(Seq::filter, 2);
    assert(seq![path].drop_last() =~= Seq::empty());
    assert(seq![path].last() == path);
    assert(hits(seq![path], pattern) =~= if regex_matches(pattern, path) {
        seq![path]
    } else {
        Seq::empty()
    });
}

/// Only a request that nothing matches is answered that there is no such thing; the others
/// are refused as requests. No two refusals use the same words.
pub proof fn refusals_are_told_apart(a: Refusal, b: Refusal)
    ensures
        a.code() == 404 <==> a == Refusal::NoMatch,
        a.code() == 400 <==> a != Refusal::NoMatch,
        a.words() == b.words() <==> a == b,
{
    reveal_strlit("Path is not valid UTF-8");
    reveal_strlit("Pattern too long");
    reveal_strlit("Not a valid pattern");
    reveal_strlit("No music matches");
    assert("Path is not valid UTF-8"@.len() == 23);
    assert("Pattern too long"@.len() == 16);
    assert("Not a valid pattern"@.len() == 19);
    assert("No music matches"@.len() == 16);
    assert("Pattern too long"@[0] != "No music matches"@[0]);
}

/// One slash before a path is taken off, and nothing else.
pub proof fn one_leading_slash_is_taken_off(path: Seq<char>)
    ensures
        unslashed(seq!['/'] + path) == path,
        path.len() == 0 || path[0] != '/' ==> unslashed(path) == path,
{
    assert((seq!['/'] + path).skip(1) =~= path);
}

/// The mount of a request is what stands before the path inside it; a path that is not at
/// the end of the request has none.
pub proof fn the_mount_is_what_stands_before(original: Seq<char>, inner: Seq<char>)
    ensures
        inner.is_suffix_of(original) ==> prefix_of(original, inner) + inner == original,
        !inner.is_suffix_of(original) ==> prefix_of(original, inner).len() == 0,
{
    reveal_strlit("");
    if inner.is_suffix_of(original) {
        assert(prefix_of(original, inner) + inner =~= original);
    }
}

/// Each of the two audio formats has its own content type, and what is neither is sent as
/// plain bytes.
pub proof fn each_format_has_its_content_type(format: Seq<char>)
    ensures
        format_type(format) == "audio/mpeg"@ <==> format == "mp3"@,
        format_type(format) == "audio/flac"@ <==> format == "flac"@,
        format_type(format) == "application/octet-stream"@ <==> format != "mp3"@ && format
            != "flac"@,
{
    reveal_strlit("mp3");
    reveal_strlit("flac");
    reveal_strlit("audio/mpeg");
    reveal_strlit("audio/flac");
    reveal_strlit("application/octet-stream");
    assert("mp3"@.len() == 3 && "flac"@.len() == 4);
    assert("audio/mpeg"@[6] != "audio/flac"@[6]);
    assert("application/octet-stream"@.len() == 24);
    assert("audio/mpeg"@.len() == 10 && "audio/flac"@.len() == 10);
}

} // verus!
