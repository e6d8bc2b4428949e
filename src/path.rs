use vstd::prelude::*;
use vstd::string::*;

use crate::error::MirrorError;
use crate::package::ProviderPackageVersion;
use crate::registry::{archive_map, archive_url_of, platform_key, PlatformArchPair};

verus! {

/// The segments of a path, split at every `/`; a path without `/` is one segment.
pub open spec fn split_path(s: Seq<char>) -> Seq<Seq<char>>
    decreases s.len(),
{
    if s.len() == 0 {
        seq![Seq::empty()]
    } else {
        let prev = split_path(s.drop_last());
        if s.last() == '/' {
            prev.push(Seq::empty())
        } else {
            prev.update(prev.len() - 1, prev.last().push(s.last()))
        }
    }
}

/// A usable path segment: not empty, and free of `/`.
pub open spec fn is_segment(s: Seq<char>) -> bool {
    s.len() > 0 && !s.contains('/')
}

/// The three requests a mirror answers, below `/{hostname}/{namespace}/{name}/`.
pub ghost enum RequestShape {
    Index,
    Packages(Seq<char>),
    Download(Seq<char>, Seq<char>, Seq<char>),
}

/// The request that a path below `/{hostname}/{namespace}/{name}/` stands for:
/// `index.json`, `{version}.json`, or `{version}/download/{os}/{arch}`; `None` for
/// any other shape.
pub open spec fn request_of(path: Seq<char>) -> Option<RequestShape> {
    let segs = split_path(path);
    if segs.len() == 1 {
        let seg = segs[0];
        if seg == "index.json"@ {
            Some(RequestShape::Index)
        } else if seg.len() > 5 && seg.subrange(seg.len() - 5, seg.len() as int) == ".json"@ {
            Some(RequestShape::Packages(seg.subrange(0, seg.len() - 5)))
        } else {
            None
        }
    } else if segs.len() == 4 && segs[1] == "download"@ && segs[0].len() > 0 && segs[2].len() > 0
        && segs[3].len() > 0 {
        Some(RequestShape::Download(segs[0], segs[2], segs[3]))
    } else {
        None
    }
}

/// A parsed mirror request.
pub enum MirrorRequest {
    /// `index.json`: the version listing.
    Index,
    /// `{version}.json`: the archive listing of one version.
    Packages(String),
    /// `{version}/download/{os}/{arch}`: one archive.
    Download(ProviderPackageVersion),
}

impl View for MirrorRequest {
    type V = RequestShape;

    open spec fn view(&self) -> RequestShape {
        match self {
            MirrorRequest::Index => RequestShape::Index,
            MirrorRequest::Packages(v) => RequestShape::Packages(v@),
            MirrorRequest::Download(v) => RequestShape::Download(v.num@, v.os@, v.arch@),
        }
    }
}

/// The character sequences of a sequence of strings.
pub open spec fn views_of(v: Seq<String>) -> Seq<Seq<char>> {
    v.map_values(|s: String| s@)
}

proof fn lemma_split_nonempty(s: Seq<char>)
    ensures
        split_path(s).len() >= 1,
    decreases s.len(),
{
    if s.len() > 0 {
        lemma_split_nonempty(s.drop_last());
    }
}

/// A path without `/` is a single segment.
proof fn lemma_split_no_slash(s: Seq<char>)
    requires
        !s.contains('/'),
    ensures
        split_path(s) == seq![s],
    decreases s.len(),
{
    if s.len() > 0 {
        let p = s.drop_last();
        assert(!p.contains('/')) by {
            if p.contains('/') {
                let i = choose|i: int| 0 <= i < p.len() && p[i] == '/';
                assert(s[i] == '/');
            }
        }
        lemma_split_no_slash(p);
        assert(s.last() != '/') by {
            if s.last() == '/' {
                assert(s[s.len() - 1] == '/');
            }
        }
        assert(p.push(s.last()) =~= s);
        assert(split_path(s) =~= seq![s]);
    } else {
        assert(s =~= Seq::<char>::empty());
    }
}

/// Splitting at a `/` splits the path into the segments of each side.
proof fn lemma_split_at_slash(a: Seq<char>, b: Seq<char>)
    ensures
        split_path(a + seq!['/'] + b) == split_path(a) + split_path(b),
    decreases b.len(),
{
    let s = a + seq!['/'] + b;
    if b.len() == 0 {
        assert(s.drop_last() =~= a);
        assert(split_path(b) =~= seq![Seq::<char>::empty()]);
        assert(split_path(s) =~= split_path(a) + split_path(b));
    } else {
        let b0 = b.drop_last();
        lemma_split_at_slash(a, b0);
        lemma_split_nonempty(b0);
        assert(s.drop_last() =~= a + seq!['/'] + b0);
        assert(s.last() == b.last());
        assert(b0 =~= b.drop_last());
        assert(split_path(s) =~= split_path(a) + split_path(b));
    }
}

/// The segments of `path`, split at every `/`.
fn split_segments(path: &str) -> (r: Vec<String>)
    ensures
        views_of(r@) == split_path(path@),
{
    let n = path.unicode_len();
    let mut segs: Vec<String> = Vec::new();
    let mut start: usize = 0;
    let mut i: usize = 0;
    assert(path@.subrange(0, 0) =~= Seq::<char>::empty());
    assert(views_of(segs@) =~= Seq::<Seq<char>>::empty());
    assert(split_path(Seq::<char>::empty()) =~= views_of(segs@).push(Seq::<char>::empty()));
    while i < n
        invariant
            n == path@.len(),
            start <= i <= n,
            split_path(path@.subrange(0, i as int)) == views_of(segs@).push(
                path@.subrange(start as int, i as int),
            ),
        decreases n - i,
    {
        let c = path.get_char(i);
        let ghost prefix = path@.subrange(0, i + 1);
        assert(prefix.drop_last() =~= path@.subrange(0, i as int));
        assert(prefix.last() == c);
        if c == '/' {
            let seg = String::from_str(path.substring_char(start, i));
            let ghost before = segs@;
            segs.push(seg);
            assert(views_of(segs@) =~= views_of(before).push(path@.subrange(start as int, i as int)));
            start = i + 1;
            assert(path@.subrange(start as int, start as int) =~= Seq::<char>::empty());
        } else {
            assert(path@.subrange(start as int, i as int).push(c) =~= path@.subrange(
                start as int,
                i + 1,
            ));
            assert(split_path(prefix) =~= views_of(segs@).push(
                path@.subrange(start as int, i + 1),
            ));
        }
        i += 1;
    }
    let seg = String::from_str(path.substring_char(start, n));
    let ghost before = segs@;
    segs.push(seg);
    assert(views_of(segs@) =~= views_of(before).push(path@.subrange(start as int, n as int)));
    assert(path@.subrange(0, n as int) =~= path@);
    segs
}

/// Parses the part of a mirror path below `/{hostname}/{namespace}/{name}/` into
/// the request it names; `InvalidRequest` for any other shape.
pub fn parse_mirror_path(path: &str) -> (r: Result<MirrorRequest, MirrorError>)
    ensures
        match r {
            Ok(req) => request_of(path@) == Some(req@),
            Err(e) => e == MirrorError::InvalidRequest && request_of(path@) is None,
        },
{
    let segs = split_segments(path);
    proof {
        lemma_split_nonempty(path@);
    }
    assert(segs@.len() == split_path(path@).len());
    if segs.len() == 1 {
        let seg = segs[0].as_str();
        assert(seg@ == split_path(path@)[0]);
        let index = String::from_str("index.json");
        if segs[0] == index {
            return Ok(MirrorRequest::Index);
        }
        let n = seg.unicode_len();
        if n > 5 {
            let tail = String::from_str(seg.substring_char(n - 5, n));
            let suffix = String::from_str(".json");
            if tail == suffix {
                let version = String::from_str(seg.substring_char(0, n - 5));
                return Ok(MirrorRequest::Packages(version));
            }
        }
        Err(MirrorError::InvalidRequest)
    } else if segs.len() == 4 {
        assert(segs@[1]@ == split_path(path@)[1]);
        assert(segs@[0]@ == split_path(path@)[0]);
        assert(segs@[2]@ == split_path(path@)[2]);
        assert(segs@[3]@ == split_path(path@)[3]);
        let download = String::from_str("download");
        if segs[1] == download && segs[0].as_str().unicode_len() > 0
            && segs[2].as_str().unicode_len() > 0 && segs[3].as_str().unicode_len() > 0 {
            let v = ProviderPackageVersion::new(segs[0].clone(), segs[2].clone(), segs[3].clone());
            Ok(MirrorRequest::Download(v))
        } else {
            Err(MirrorError::InvalidRequest)
        }
    } else {
        Err(MirrorError::InvalidRequest)
    }
}

/// The download location that an archive listing hands out for a version and
/// platform parses back into that same version and platform.
pub proof fn lemma_archive_url_round_trip(version: Seq<char>, os: Seq<char>, arch: Seq<char>)
    requires
        is_segment(version),
        is_segment(os),
        is_segment(arch),
    ensures
        request_of(archive_url_of(version, os, arch)) == Some(
            RequestShape::Download(version, os, arch),
        ),
{
    reveal_strlit("/download/");
    reveal_strlit("/");
    reveal_strlit("download");
    let word = "download"@;
    assert("/download/"@ =~= seq!['/'] + word + seq!['/']);
    assert("/"@ =~= seq!['/']);
    assert(!word.contains('/')) by {
        if word.contains('/') {
            let i = choose|i: int| 0 <= i < word.len() && word[i] == '/';
            assert(word[i] != '/');
        }
    }
    let tail = os + seq!['/'] + arch;
    let mid = word + seq!['/'] + tail;
    assert(archive_url_of(version, os, arch) =~= version + seq!['/'] + mid);
    lemma_split_at_slash(os, arch);
    lemma_split_at_slash(word, tail);
    lemma_split_at_slash(version, mid);
    lemma_split_no_slash(version);
    lemma_split_no_slash(word);
    lemma_split_no_slash(os);
    lemma_split_no_slash(arch);
    let segs = split_path(archive_url_of(version, os, arch));
    assert(segs =~= seq![version, word, os, arch]);
}

/// Every download location in the archive listing of a version parses back into
/// that version and the platform the entry was made for.
pub proof fn lemma_listed_urls_round_trip(
    version: Seq<char>,
    platforms: Seq<PlatformArchPair>,
    key: Seq<char>,
)
    requires
        is_segment(version),
        forall|i: int|
            0 <= i < platforms.len() ==> is_segment(#[trigger] platforms[i].os@) && is_segment(
                platforms[i].arch@,
            ),
        archive_map(version, platforms).contains_key(key),
    ensures
        exists|i: int|
            0 <= i < platforms.len() && platform_key(platforms[i].os@, platforms[i].arch@) == key
                && request_of(#[trigger] archive_map(version, platforms)[key]) == Some(
                RequestShape::Download(version, platforms[i].os@, platforms[i].arch@),
            ),
    decreases platforms.len(),
{
    let n = platforms.len() as int;
    let p = platforms.last();
    let rest = platforms.drop_last();
    if platform_key(p.os@, p.arch@) == key {
        assert(is_segment(platforms[n - 1].os@));
        lemma_archive_url_round_trip(version, p.os@, p.arch@);
        assert(archive_map(version, platforms)[key] == archive_url_of(version, p.os@, p.arch@));
    } else {
        assert forall|i: int| 0 <= i < rest.len() implies is_segment(#[trigger] rest[i].os@)
            && is_segment(rest[i].arch@) by {
            assert(rest[i] == platforms[i]);
        }
        lemma_listed_urls_round_trip(version, rest, key);
        let i = choose|i: int|
            0 <= i < rest.len() && platform_key(rest[i].os@, rest[i].arch@) == key && request_of(
                #[trigger] archive_map(version, rest)[key],
            ) == Some(RequestShape::Download(version, rest[i].os@, rest[i].arch@));
        assert(rest[i] == platforms[i]);
        assert(archive_map(version, platforms)[key] == archive_map(version, rest)[key]);
    }
}

} // verus!
