//! The music directory as a source. The URLs it hands out lead back to the very
//! files the server's index holds.

use crate::brain::error::{BrainErr, BrainErrView};
use crate::brain::traits::{Playable, PlayableView, Track, TrackView};
use crate::json::opt_string;
use crate::music::{
    hit, hits, hits_are_all, hits_are_the_matching_paths, is_ncm, ncm, unslashed, MusicIndex,
};
use crate::pattern::{compile, escape, regex_compiles, regex_escaped, regex_matches, regex_source};
use crate::percent::{decoding_undoes_encoding, encode, escaped, unescaped};
use crate::text::{
    contains, join, joined, joining_keeps_every_part, same, trim, trimmed, trimmed_is_idempotent,
    views,
};
use crate::tools::resolved_view;
use vstd::prelude::*;

verus! {

/// Name this source is known by.
pub const NAME: &'static str = "local";

/// Cap on search hits: the model reads these.
pub const MAX_RESULTS: usize = 20;

/// The file name of a path without its extension.
pub uninterp spec fn path_stem(path: Seq<char>) -> Option<Seq<char>>;

/// `std::path::Path::file_stem`: the file name of `path` without its extension.
/// The path alone decides.
#[verifier::external_body]
fn stem(path: &str) -> (r: Option<String>)
    ensures
        opt_string(r) == path_stem(path@),
{
    std::path::Path::new(path).file_stem().and_then(|s| s.to_str()).map(|s| s.to_owned())
}

/// The path that a path's file is in.
pub uninterp spec fn path_parent(path: Seq<char>) -> Option<Seq<char>>;

/// `std::path::Path::parent`: `path` without its last component. The path alone
/// decides.
#[verifier::external_body]
fn parent(path: &str) -> (r: Option<String>)
    ensures
        opt_string(r) == path_parent(path@),
{
    std::path::Path::new(path).parent().and_then(|p| p.to_str()).map(|s| s.to_owned())
}

/// The last component of a path.
pub uninterp spec fn path_name(path: Seq<char>) -> Option<Seq<char>>;

/// `std::path::Path::file_name`: the last component of `path`, if it is a name.
/// The path alone decides.
#[verifier::external_body]
fn file_name(path: &str) -> (r: Option<String>)
    ensures
        opt_string(r) == path_name(path@),
{
    std::path::Path::new(path).file_name().and_then(|s| s.to_str()).map(|s| s.to_owned())
}

/// The track that a path `Artist/Title.ext` names. One loose at the root has no
/// known artist.
pub open spec fn named_track(rel: Seq<char>) -> TrackView {
    TrackView {
        id: rel,
        title: match path_stem(rel) {
            Some(stem) => stem,
            None => rel,
        },
        artist: match path_parent(rel) {
            Some(parent) => match path_name(parent) {
                Some(name) => name,
                None => Seq::empty(),
            },
            None => Seq::empty(),
        },
        source: NAME@,
        duration_ms: None,
    }
}

/// The track that a path names, out of the parts of the path.
pub fn track_of_parts(rel: &str, stem: Option<String>, folder: Option<String>) -> (r: Track)
    ensures
        r@ == (TrackView {
            id: rel@,
            title: match opt_string(stem) {
                Some(s) => s,
                None => rel@,
            },
            artist: match opt_string(folder) {
                Some(name) => name,
                None => Seq::empty(),
            },
            source: NAME@,
            duration_ms: None,
        }),
{
    Track {
        id: rel.to_owned(),
        title: match stem {
            Some(s) => s,
            None => rel.to_owned(),
        },
        artist: match folder {
            Some(name) => name,
            None => String::new(),
        },
        source: NAME.to_owned(),
        duration_ms: None,
    }
}

/// The track that a path names.
pub fn track_from_path(rel: &str) -> (r: Track)
    ensures
        r@ == named_track(rel@),
{
    let folder = match parent(rel) {
        Some(p) => file_name(p.as_str()),
        None => None,
    };
    track_of_parts(rel, stem(rel), folder)
}

/// The metadata of an encrypted container.
#[derive(Debug, Clone)]
pub struct NcmMeta {
    pub music_name: String,
    pub artists: Vec<String>,
    /// Milliseconds; zero means not set.
    pub duration: usize,
}

/// The track that metadata describes.
pub open spec fn described(rel: Seq<char>, meta: NcmMeta) -> TrackView {
    TrackView {
        id: rel,
        title: meta.music_name@,
        artist: joined(views(meta.artists@), ", "@),
        source: NAME@,
        duration_ms: if meta.duration > 0 {
            Some(meta.duration as u64)
        } else {
            None
        },
    }
}

/// The track at an indexed path, by its metadata where it is an encrypted
/// container that could be read, else by its path: a corrupt file keeps its name
/// rather than vanishing.
pub fn describe(rel: &str, meta: Option<NcmMeta>) -> (r: Track)
    ensures
        r@ == match meta {
            Some(m) => if ncm(rel@) {
                described(rel@, m)
            } else {
                named_track(rel@)
            },
            None => named_track(rel@),
        },
{
    match meta {
        Some(m) => if is_ncm(rel) {
            return Track {
                id: rel.to_owned(),
                title: m.music_name,
                artist: join(&m.artists, ", "),
                source: NAME.to_owned(),
                duration_ms: if m.duration > 0 {
                    Some(m.duration as u64)
                } else {
                    None
                },
            };
        },
        None => {},
    }
    track_from_path(rel)
}

/// The pattern that finds `query` in any case, literally.
pub open spec fn loose_pattern(query: Seq<char>) -> Seq<char> {
    "(?i)"@ + regex_escaped(trimmed(query))
}

/// A literal, case-insensitive matcher: the query comes from speech and is no
/// trustworthy expression. Text that makes no expression at all matches nothing.
pub fn loose(query: &str) -> (r: Option<regex::Regex>)
    ensures
        r is Some <==> regex_compiles(loose_pattern(query@)),
        r matches Some(re) ==> regex_source(re) == loose_pattern(query@),
        forall|s: Seq<char>|
            contains(s, trimmed(query@)) ==> #[trigger] regex_matches(loose_pattern(query@), s),
{
    let mut pattern = "(?i)".to_owned();
    let literal = escape(trim(query));
    pattern.append(literal.as_str());
    assert(loose_pattern(query@) == "(?i)"@ + literal@);
    compile(pattern.as_str())
}

/// What a search finds in an index.
pub open spec fn search_hits(list: Seq<Seq<char>>, query: Seq<char>) -> Seq<Seq<char>> {
    if !regex_compiles(loose_pattern(query)) {
        Seq::empty()
    } else {
        let all = hits(list, loose_pattern(query));
        if all.len() > MAX_RESULTS {
            all.take(MAX_RESULTS as int)
        } else {
            all
        }
    }
}

/// The music directory. The base URL is the speaker-facing one of our own server.
#[derive(Debug)]
pub struct LocalSource {
    base_url: String,
}

impl LocalSource {
    /// The speaker-facing URL of our own server.
    pub closed spec fn base(&self) -> Seq<char> {
        self.base_url@
    }

    pub fn new(base_url: &str) -> (r: Self)
        ensures
            r.base() == base_url@,
    {
        LocalSource { base_url: base_url.to_owned() }
    }

    /// The name of this source.
    pub fn name(&self) -> (r: &'static str)
        ensures
            r@ == NAME@,
    {
        NAME
    }

    /// The indexed files that a query finds, in an index that has just been
    /// rebuilt. A file whose path holds the query is among them, unless there are
    /// too many.
    pub fn search(&self, index: &MusicIndex, query: &str) -> (r: Result<Vec<String>, BrainErr>)
        ensures
            match r {
                Err(e) => trimmed(query@).len() == 0 && e@ == BrainErrView::InvalidArguments(
                    "a search needs something to search for"@,
                ),
                Ok(paths) => trimmed(query@).len() > 0 && views(paths@) == search_hits(
                    index.list(),
                    query@,
                ),
            },
            r matches Ok(paths) ==> regex_compiles(loose_pattern(query@)) && paths@.len()
                < MAX_RESULTS ==> forall|p: Seq<char>|
                #[trigger] index.list().contains(p) && contains(p, trimmed(query@)) ==> views(
                    paths@,
                ).contains(p),
    {
        let text = trim(query);
        if text.unicode_len() == 0 {
            return Err(
                BrainErr::InvalidArguments("a search needs something to search for".to_owned()),
            );
        }
        match loose(query) {
            Some(pattern) => {
                let paths = index.find_all(&pattern, MAX_RESULTS);
                proof {
                    let source = loose_pattern(query@);
                    let found = views(paths@);
                    assert(found.len() == paths@.len());
                    if paths@.len() < MAX_RESULTS {
                        assert forall|p: Seq<char>| #[trigger] index.list().contains(p) && contains(
                            p,
                            trimmed(query@),
                        ) implies found.contains(p) by {
                            assert(regex_matches(source, p));
                            hits_are_all(index.list(), source, p);
                        }
                    }
                }
                Ok(paths)
            },
            None => {
                let none: Vec<String> = Vec::new();
                assert(views(none@) =~= Seq::<Seq<char>>::empty());
                Ok(none)
            },
        }
    }

    /// What plays `track`: a URL, since the speaker cannot see this filesystem. A
    /// track of another source is not claimed.
    pub fn resolve(&self, track: &Track) -> (r: Result<Playable, BrainErr>)
        ensures
            resolved_view(r) == if track@.source != NAME@ {
                Err::<PlayableView, BrainErrView>(
                    BrainErrView::NotFound(track@.id + " is not a local track"@),
                )
            } else {
                Ok(PlayableView::Url(self.base() + "/"@ + escaped(track@.id)))
            },
    {
        if !same(track.source.as_str(), NAME) {
            let mut message = track.id.clone();
            message.append(" is not a local track");
            return Err(BrainErr::NotFound(message));
        }
        let mut url = self.base_url.clone();
        url.append("/");
        url.append(encode(track.id.as_str()).as_str());
        Ok(Playable::Url(url))
    }

    /// A random indexed file, of those that the filter finds where there is one, in
    /// an index that has just been rebuilt.
    pub fn random(&self, index: &MusicIndex, filter: Option<&str>) -> (r: Option<String>)
        ensures
            match filter {
                None => match r {
                    Some(path) => index.list().contains(path@),
                    None => index.list().len() == 0,
                },
                Some(text) => match r {
                    Some(path) => regex_compiles(loose_pattern(text@)) && hit(
                        index.list(),
                        loose_pattern(text@),
                        path@,
                    ),
                    None => regex_compiles(loose_pattern(text@)) ==> forall|p: Seq<char>|
                        !#[trigger] hit(index.list(), loose_pattern(text@), p),
                },
            },
    {
        match filter {
            None => index.choose_path(None),
            Some(text) => match loose(text) {
                Some(pattern) => {
                    let only = Some(&pattern);
                    let pick = index.choose_path(only);
                    assert(regex_source(*only->0) == loose_pattern(text@));
                    if pick.is_none() {
                        assert forall|p: Seq<char>| !#[trigger] hit(
                            index.list(),
                            loose_pattern(text@),
                            p,
                        ) by {
                            assert(!hit(index.list(), regex_source(*only->0), p));
                        }
                    }
                    pick
                },
                None => None,
            },
        }
    }
}

/// A URL that a local track resolves to asks our server for exactly that track's
/// file: the path behind the base URL decodes to the track's id.
pub proof fn a_local_url_leads_back_to_its_file(base: Seq<char>, id: Seq<char>)
    ensures
        ({
            let url = base + "/"@ + escaped(id);
            &&& base.is_prefix_of(url)
            &&& unescaped(unslashed(url.skip(base.len() as int))) == Some(id)
        }),
{
    reveal_strlit("/");
    let url = base + "/"@ + escaped(id);
    assert(url.take(base.len() as int) =~= base);
    let path = url.skip(base.len() as int);
    assert(path =~= "/"@ + escaped(id));
    assert(path[0] == '/');
    assert(path.skip(1) =~= escaped(id));
    decoding_undoes_encoding(id);
}

/// A file's track is found again by its path. Its title is the file's name without the
/// extension and its artist the name of the folder it stands in, where there are any.
pub proof fn a_file_is_named_after_itself_and_its_folder(rel: Seq<char>)
    ensures
        ({
            let track = named_track(rel);
            &&& track.id == rel
            &&& track.source == "local"@
            &&& track.duration_ms is None
            &&& match path_stem(rel) {
                Some(stem) => track.title == stem,
                None => track.title == rel,
            }
            &&& match path_parent(rel) {
                Some(parent) => match path_name(parent) {
                    Some(name) => track.artist == name,
                    None => track.artist.len() == 0,
                },
                None => track.artist.len() == 0,
            }
        }),
{
}

/// A track with a description of its own goes by that: its title, every artist it names,
/// and its length where it is known. It is still found again by its path.
pub proof fn a_described_track_goes_by_its_description(rel: Seq<char>, meta: NcmMeta)
    ensures
        ({
            let track = described(rel, meta);
            &&& track.id == rel
            &&& track.source == "local"@
            &&& track.title == meta.music_name@
            &&& forall|i: int|
                0 <= i < meta.artists@.len() ==> contains(
                    track.artist,
                    (#[trigger] meta.artists@[i])@,
                )
            &&& meta.artists@.len() == 0 ==> track.artist.len() == 0
            &&& meta.artists@.len() == 1 ==> track.artist == meta.artists@[0]@
            &&& meta.artists@.len() == 2 ==> track.artist == meta.artists@[0]@ + ", "@
                + meta.artists@[1]@
            &&& meta.duration > 0 ==> (track.duration_ms matches Some(ms) && ms == meta.duration)
            &&& meta.duration == 0 ==> track.duration_ms is None
        }),
{
    let list = views(meta.artists@);
    joining_keeps_every_part(list, Seq::empty(), ", "@);
    assert forall|i: int| 0 <= i < meta.artists@.len() implies contains(
        described(rel, meta).artist,
        (#[trigger] meta.artists@[i])@,
    ) by {
        assert(list[i] == meta.artists@[i]@);
    }
    if list.len() == 0 {
        assert(list =~= Seq::empty());
    }
    if list.len() == 1 {
        joining_keeps_every_part(list, list[0], ", "@);
        assert(list =~= seq![list[0]]);
    }
    if list.len() == 2 {
        joining_keeps_every_part(seq![list[0]], list[1], ", "@);
        joining_keeps_every_part(seq![list[0]], list[0], ", "@);
        assert(list =~= seq![list[0]].push(list[1]));
    }
}

/// What is looked for is the query's own text, in either case, whatever white space is
/// around it.
pub proof fn a_query_is_looked_for_as_it_is(query: Seq<char>)
    ensures
        loose_pattern(query) == "(?i)"@ + regex_escaped(trimmed(query)),
        loose_pattern(trimmed(query)) == loose_pattern(query),
{
    trimmed_is_idempotent(query);
}

/// A search finds paths that match and no others, in the order of the list, the first
/// twenty of them.
pub proof fn the_first_twenty_matches_are_found(
    list: Seq<Seq<char>>,
    query: Seq<char>,
    path: Seq<char>,
)
    ensures
        search_hits(list, query).len() <= 20,
        search_hits(list, query).is_prefix_of(hits(list, loose_pattern(query))),
        search_hits(list, query).contains(path) ==> list.contains(path) && regex_matches(
            loose_pattern(query),
            path,
        ),
        regex_compiles(loose_pattern(query)) && search_hits(list, query).len() < 20
            && list.contains(path) && regex_matches(loose_pattern(query), path) ==> search_hits(
            list,
            query,
        ).contains(path),
{
    let all = hits(list, loose_pattern(query));
    let found = search_hits(list, query);
    hits_are_the_matching_paths(list, Seq::empty(), loose_pattern(query), path);
    assert(found =~= all.take(found.len() as int));
    if found.contains(path) {
        let i = found.index_of(path);
        assert(all[i] == path);
    }
}

} // verus!
