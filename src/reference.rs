use vstd::prelude::*;

verus! {

#[verifier::external_type_specification]
#[verifier::external_body]
pub struct ExDockerImageError(docker_image::DockerImageError);

/// The parts of an image reference `[registry/]name[:tag][@digest]`.
pub struct ReferenceParts {
    pub registry: Option<String>,
    pub name: String,
    pub tag: Option<String>,
    pub digest: Option<String>,
}

pub struct ReferenceView {
    pub registry: Option<Seq<char>>,
    pub name: Seq<char>,
    pub tag: Option<Seq<char>>,
    pub digest: Option<Seq<char>>,
}

pub open spec fn opt_view(o: Option<String>) -> Option<Seq<char>> {
    match o {
        Some(s) => Some(s@),
        None => None,
    }
}

impl View for ReferenceParts {
    type V = ReferenceView;

    open spec fn view(&self) -> ReferenceView {
        ReferenceView {
            registry: opt_view(self.registry),
            name: self.name@,
            tag: opt_view(self.tag),
            digest: opt_view(self.digest),
        }
    }
}

/// How a reference splits, where it is well formed.
pub uninterp spec fn docker_reference(s: Seq<char>) -> Option<ReferenceView>;

/// The registry followed by `/`, or nothing where the reference names no registry.
pub open spec fn registry_prefix(p: ReferenceView) -> Seq<char> {
    match p.registry {
        Some(r) => r.push('/'),
        None => Seq::empty(),
    }
}

/// The repository as written in the reference: `[registry/]name`.
pub open spec fn full_name(p: ReferenceView) -> Seq<char> {
    registry_prefix(p) + p.name
}

/// The parts written out again: `[registry/]name[:tag][@digest]`.
pub open spec fn spelled(p: ReferenceView) -> Seq<char> {
    full_name(p) + (match p.tag {
        Some(t) => seq![':'] + t,
        None => Seq::empty(),
    }) + (match p.digest {
        Some(d) => seq!['@'] + d,
        None => Seq::empty(),
    })
}

pub open spec fn is_lower_alnum(c: char) -> bool {
    ('a' <= c && c <= 'z') || ('0' <= c && c <= '9')
}

/// Characters of a repository name: `[a-z0-9._/-]`.
pub open spec fn is_name_char(c: char) -> bool {
    is_lower_alnum(c) || c == '.' || c == '_' || c == '-' || c == '/'
}

/// Characters of a tag: `[A-Za-z0-9._-]`.
pub open spec fn is_tag_char(c: char) -> bool {
    ('A' <= c && c <= 'Z') || is_lower_alnum(c) || c == '.' || c == '_' || c == '-'
}

/// What the syntax of a reference guarantees of its parts.
pub open spec fn parts_well_formed(p: ReferenceView) -> bool {
    &&& forall|i: int| 0 <= i < p.name.len() ==> is_name_char(#[trigger] p.name[i])
    &&& p.tag matches Some(t) ==> forall|i: int| 0 <= i < t.len() ==> is_tag_char(#[trigger] t[i])
}

/// Relies on docker_image::DockerImage::parse, which matches the reference against an
/// anchored pattern `[registry/]name[:tag][@digest]`: on a match the parts spell the input
/// again, the name is made of `[a-z0-9._/-]` and the tag of `[A-Za-z0-9._-]`; otherwise it
/// returns `InvalidFormat`. The outcome depends on the input alone.
#[verifier::external_body]
pub(crate) fn parse_reference(s: &str) -> (r: Result<ReferenceParts, docker_image::DockerImageError>)
    ensures
        r is Err ==> docker_reference(s@) is None,
        r matches Ok(p) ==> docker_reference(s@) == Some(p@),
        r matches Ok(p) ==> spelled(p@) == s@,
        r matches Ok(p) ==> parts_well_formed(p@),
{
    match docker_image::DockerImage::parse(s) {
        Ok(d) => Ok(ReferenceParts { registry: d.registry, name: d.name, tag: d.tag, digest: d.digest }),
        Err(e) => Err(e),
    }
}

} // verus!
