use vstd::prelude::*;

use crate::error::ManifestError;
use crate::reference::{
    docker_reference, full_name, is_name_char, parse_reference, parts_well_formed, registry_prefix,
    spelled, ReferenceParts, ReferenceView,
};

verus! {

/// Relies on String::push: the character is appended at the end.
pub assume_specification[ String::push ](s: &mut String, ch: char)
    ensures
        final(s)@ == old(s)@.push(ch),
;

/// Characters that may stand in a file name unchanged.
pub open spec fn is_file_char(c: char) -> bool {
    ('A' <= c && c <= 'Z') || ('a' <= c && c <= 'z') || ('0' <= c && c <= '9') || c == '.'
        || c == '_' || c == '-'
}

/// A character kept as is, or `_` in its place.
pub open spec fn sanitized_char(c: char) -> char {
    if is_file_char(c) {
        c
    } else {
        '_'
    }
}

/// Every character outside `[A-Za-z0-9._-]` replaced by `_`.
pub open spec fn sanitized(s: Seq<char>) -> Seq<char> {
    s.map_values(|c: char| sanitized_char(c))
}

pub open spec fn tarball_prefix() -> Seq<char> {
    seq!['i', 'm', 'a', 'g', 'e', 's', '/']
}

pub open spec fn tarball_suffix() -> Seq<char> {
    seq!['.', 't', 'a', 'r', '.', 'g', 'z']
}

/// `images/<sanitized image>.tar.gz`
pub open spec fn tarball_of(image: Seq<char>) -> Seq<char> {
    tarball_prefix() + sanitized(image) + tarball_suffix()
}

/// Replaces every character outside `[A-Za-z0-9._-]` with `_`.
pub fn sanitize_filename(s: &str) -> (r: String)
    ensures
        r@ == sanitized(s@),
{
    let n = s.unicode_len();
    let mut out = String::new();
    let mut i: usize = 0;
    while i < n
        invariant
            n == s@.len(),
            i <= n,
            out@ == sanitized(s@.subrange(0, i as int)),
        decreases n - i,
    {
        let c = s.get_char(i);
        let keep = ('A' <= c && c <= 'Z') || ('a' <= c && c <= 'z') || ('0' <= c && c <= '9')
            || c == '.' || c == '_' || c == '-';
        if keep {
            out.push(c);
        } else {
            out.push('_');
        }
        assert(s@.subrange(0, i + 1) =~= s@.subrange(0, i as int).push(c));
        assert(sanitized(s@.subrange(0, i + 1)) =~= sanitized(s@.subrange(0, i as int)).push(
            sanitized_char(c),
        ));
        i = i + 1;
    }
    assert(s@.subrange(0, n as int) =~= s@);
    out
}

/// The path of the tarball of an image: `images/<sanitized image>.tar.gz`.
pub fn tarball_path(image: &str) -> (r: String)
    ensures
        r@ == tarball_of(image@),
{
    let mut out = String::from_str("images/");
    let name = sanitize_filename(image);
    out.append(name.as_str());
    out.append(".tar.gz");
    proof {
        reveal_strlit("images/");
        reveal_strlit(".tar.gz");
    }
    assert(out@ =~= tarball_of(image@));
    out
}

/// The tag given to a reference that names none.
pub open spec fn default_tag() -> Seq<char> {
    seq!['l', 'a', 't', 'e', 's', 't']
}

/// An image of a manifest: the reference as given, its repository and tag, and the path
/// of its tarball.
#[derive(Debug, PartialEq, Eq)]
pub struct Image {
    pub image: String,
    pub repository: String,
    pub tag: String,
    pub tarball: String,
}

pub struct ImageView {
    pub image: Seq<char>,
    pub repository: Seq<char>,
    pub tag: Seq<char>,
    pub tarball: Seq<char>,
}

impl View for Image {
    type V = ImageView;

    open spec fn view(&self) -> ImageView {
        ImageView {
            image: self.image@,
            repository: self.repository@,
            tag: self.tag@,
            tarball: self.tarball@,
        }
    }
}

/// The image that a reference describes, given its parts.
pub open spec fn image_of(s: Seq<char>, p: ReferenceView) -> ImageView {
    ImageView {
        image: s,
        repository: full_name(p),
        tag: match p.tag {
            Some(t) => t,
            None => default_tag(),
        },
        tarball: tarball_of(s),
    }
}

/// The image that a reference describes, if it is well formed.
pub open spec fn described(s: Seq<char>) -> Option<ImageView> {
    match docker_reference(s) {
        Some(p) => Some(image_of(s, p)),
        None => None,
    }
}

/// `s` reads `<repo>:<tag>`, where neither part holds `:` or `@`, and the tag holds no `/`.
pub open spec fn tagged_as(s: Seq<char>, repo: Seq<char>, tag: Seq<char>) -> bool {
    &&& s == repo + seq![':'] + tag
    &&& forall|i: int| 0 <= i < repo.len() ==> repo[i] != ':' && repo[i] != '@'
    &&& forall|i: int| 0 <= i < tag.len() ==> tag[i] != ':' && tag[i] != '@' && tag[i] != '/'
}

/// A reference without a `:` has no tag.
proof fn lemma_no_colon_no_tag(s: Seq<char>, p: ReferenceView)
    requires
        spelled(p) == s,
        !s.contains(':'),
    ensures
        p.tag is None,
{
    if p.tag is Some {
        assert(s[full_name(p).len() as int] == ':');
    }
}

/// A reference that reads `<repo>:<tag>` splits into that repository and that tag.
proof fn lemma_tagged_split(s: Seq<char>, repo: Seq<char>, tag: Seq<char>, p: ReferenceView)
    requires
        tagged_as(s, repo, tag),
        spelled(p) == s,
        parts_well_formed(p),
    ensures
        full_name(p) == repo,
        p.tag == Some(tag),
{
    let len = repo.len() as int;
    assert forall|k: int| 0 <= k < s.len() implies s[k] != '@' && (s[k] == ':' ==> k == len) && (
    s[k] == '/' ==> k < len) by {
        if k < len {
            assert(s[k] == repo[k]);
        } else if k > len {
            assert(s[k] == tag[k - len - 1]);
        }
    }
    let full = full_name(p);
    let rpart = registry_prefix(p);
    let tpart = match p.tag {
        Some(t) => seq![':'] + t,
        None => Seq::<char>::empty(),
    };
    let dpart = match p.digest {
        Some(d) => seq!['@'] + d,
        None => Seq::<char>::empty(),
    };
    assert(s == full + tpart + dpart);
    if p.digest is Some {
        assert(s[(full.len() + tpart.len()) as int] == '@');
    }
    assert(s =~= full + tpart);
    if p.tag is None {
        assert(s[len] == ':');
        if len < rpart.len() {
            assert(s[rpart.len() - 1] == '/');
        } else {
            assert(p.name[len - rpart.len()] == ':');
            assert(is_name_char(p.name[len - rpart.len()]));
        }
    }
    let t = p.tag->Some_0;
    assert(s[full.len() as int] == ':');
    assert(full =~= s.subrange(0, len));
    assert(repo =~= s.subrange(0, len));
    assert(t =~= s.subrange(len + 1, s.len() as int));
    assert(tag =~= s.subrange(len + 1, s.len() as int));
}

impl Image {
    /// The image of a reference split into the given parts: the repository is the name
    /// after the registry and a `/`, if there is a registry; the tag is the given one or `latest`, and the tarball path is derived from the
    /// reference.
    pub fn from_reference(image: &str, parts: ReferenceParts) -> (r: Image)
        ensures
            r@ == image_of(image@, parts@),
    {
        let tag = match parts.tag {
            Some(t) => t,
            None => {
                let latest = String::from_str("latest");
                proof {
                    reveal_strlit("latest");
                }
                assert(latest@ =~= default_tag());
                latest
            },
        };
        let repository = match parts.registry {
            Some(registry) => {
                let mut full = registry;
                full.push('/');
                full.append(parts.name.as_str());
                full
            },
            None => parts.name,
        };
        let tarball = tarball_path(image);
        let r = Image { image: String::from_str(image), repository, tag, tarball };
        assert(r.repository@ =~= full_name(parts@));
        r
    }

    /// Describes an image reference: its repository, its tag (`latest` where it names
    /// none) and the path of its tarball. A reference that does not split is refused.
    pub fn parse_image(image: &str) -> (r: Result<Image, ManifestError>)
        ensures
            r is Ok <==> docker_reference(image@) is Some,
            r matches Ok(i) ==> described(image@) == Some(i@),
            r matches Err(e) ==> e matches ManifestError::Parse(s) && s@ == image@,
            r matches Ok(i) ==> i.image@ == image@ && i.tarball@ == tarball_of(image@),
            r is Ok && !image@.contains(':') ==> r->Ok_0.tag@ == default_tag(),
            forall|repo: Seq<char>, tag: Seq<char>| #[trigger]
                tagged_as(image@, repo, tag) && r is Ok ==> r->Ok_0.repository@ == repo
                    && r->Ok_0.tag@ == tag,
    {
        match parse_reference(image) {
            Ok(parts) => {
                let ghost p = parts@;
                let r = Image::from_reference(image, parts);
                proof {
                    if !image@.contains(':') {
                        lemma_no_colon_no_tag(image@, p);
                    }
                    assert forall|repo: Seq<char>, t: Seq<char>| #[trigger]
                        tagged_as(image@, repo, t) implies r.repository@ == repo && r.tag@ == t by {
                        lemma_tagged_split(image@, repo, t, p);
                    }
                }
                Ok(r)
            },
            Err(_) => Err(ManifestError::Parse(String::from_str(image))),
        }
    }
}

} // verus!
