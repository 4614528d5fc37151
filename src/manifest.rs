use vstd::prelude::*;

use crate::error::ManifestError;
use crate::image::{described, Image, ImageView};

verus! {

pub open spec fn images_view(v: Seq<Image>) -> Seq<ImageView> {
    v.map_values(|i: Image| i@)
}

/// A manifest viewed as a map from namespace to its images.
pub type ManifestView = Map<Seq<char>, Seq<ImageView>>;

/// The manifest that results when a fresh namespace is laid over an earlier manifest: the
/// fresh entry replaces any earlier entry of the same namespace, whole.
pub open spec fn merged(base: ManifestView, namespace: Seq<char>, images: Seq<ImageView>) -> ManifestView {
    base.insert(namespace, images)
}

pub open spec fn base_view(base: Option<Manifest>) -> ManifestView {
    match base {
        Some(m) => m@,
        None => Map::empty(),
    }
}

/// One namespace of a manifest and its images, in order.
pub struct NamespaceEntry {
    pub namespace: String,
    pub images: Vec<Image>,
}

/// A map from namespace to images, each namespace held once.
pub struct Manifest {
    entries: Vec<NamespaceEntry>,
    model: Ghost<ManifestView>,
}

impl View for Manifest {
    type V = ManifestView;

    closed spec fn view(&self) -> ManifestView {
        self.model@
    }
}

impl Manifest {
    /// Namespaces are distinct, and the entries are exactly the view.
    pub closed spec fn wf(&self) -> bool {
        &&& forall|i: int, j: int|
            0 <= i < j < self.entries.len() ==> self.entries[i].namespace@
                != self.entries[j].namespace@
        &&& forall|k: Seq<char>|
            #![trigger self.model@.contains_key(k)]
            self.model@.contains_key(k) <==> exists|i: int|
                0 <= i < self.entries.len() && self.entries[i].namespace@ == k
        &&& forall|i: int|
            0 <= i < self.entries.len() ==> self.model@[#[trigger] self.entries[i].namespace@]
                == images_view(self.entries[i].images@)
    }

    /// The manifest with no namespace.
    pub fn new() -> (r: Manifest)
        ensures
            r.wf(),
            r@ == Map::<Seq<char>, Seq<ImageView>>::empty(),
    {
        Manifest { entries: Vec::new(), model: Ghost(Map::empty()) }
    }

    /// Writing one entry, at index `i` (in place, or just past the end), whose namespace no
    /// other entry holds, and setting that namespace in the model, keeps the manifest well
    /// formed.
    proof fn lemma_write_entry(pre: Manifest, post: Manifest, i: int)
        requires
            pre.wf(),
            0 <= i <= pre.entries.len(),
            post.entries.len() == if i < pre.entries.len() {
                pre.entries.len() as int
            } else {
                pre.entries.len() + 1
            },
            forall|j: int| 0 <= j < pre.entries.len() && j != i ==> post.entries[j] == pre.entries[j],
            i < pre.entries.len() ==> pre.entries[i].namespace@ == post.entries[i].namespace@,
            forall|j: int|
                0 <= j < pre.entries.len() && j != i ==> pre.entries[j].namespace@
                    != post.entries[i].namespace@,
            post.model@ == pre.model@.insert(
                post.entries[i].namespace@,
                images_view(post.entries[i].images@),
            ),
        ensures
            post.wf(),
    {
        let key = post.entries[i].namespace@;
        assert forall|k: Seq<char>| #[trigger]
            post.model@.contains_key(k) implies exists|j: int|
            0 <= j < post.entries.len() && post.entries[j].namespace@ == k by {
            if k != key {
                assert(pre.model@.contains_key(k));
                let j = choose|j: int| 0 <= j < pre.entries.len() && pre.entries[j].namespace@ == k;
                assert(post.entries[j].namespace@ == k);
            }
        }
        assert forall|j: int| 0 <= j < post.entries.len() implies post.model@[
            #[trigger] post.entries[j].namespace@] == images_view(post.entries[j].images@) by {
            if j != i {
                assert(pre.entries[j] == post.entries[j]);
            }
        }
    }

    /// Maps the namespace to the images, replacing what it was mapped to before.
    pub fn insert(&mut self, namespace: String, images: Vec<Image>)
        requires
            old(self).wf(),
        ensures
            final(self).wf(),
            final(self)@ == old(self)@.insert(namespace@, images_view(images@)),
    {
        let ghost pre = *self;
        let ghost key = namespace@;
        let ghost value = images_view(images@);
        let n = self.entries.len();
        let mut i: usize = 0;
        while i < n
            invariant
                n == self.entries.len(),
                i <= n,
                *self == pre,
                pre == *old(self),
                pre.wf(),
                namespace@ == key,
                images_view(images@) == value,
                forall|j: int| 0 <= j < i ==> self.entries[j].namespace@ != key,
            decreases n - i,
        {
            if self.entries[i].namespace == namespace {
                self.entries.set(i, NamespaceEntry { namespace, images });
                self.model = Ghost(self.model@.insert(key, value));
                proof {
                    Manifest::lemma_write_entry(pre, *self, i as int);
                }
                return;
            }
            i = i + 1;
        }
        self.entries.push(NamespaceEntry { namespace, images });
        self.model = Ghost(self.model@.insert(key, value));
        proof {
            Manifest::lemma_write_entry(pre, *self, n as int);
        }
    }

    /// The images of a namespace, if the manifest has it.
    pub fn get(&self, namespace: &String) -> (r: Option<&Vec<Image>>)
        requires
            self.wf(),
        ensures
            r is Some <==> self@.contains_key(namespace@),
            r matches Some(v) ==> images_view(v@) == self@[namespace@],
    {
        let mut i: usize = 0;
        while i < self.entries.len()
            invariant
                self.wf(),
                i <= self.entries.len(),
                forall|j: int| 0 <= j < i ==> self.entries[j].namespace@ != namespace@,
            decreases self.entries.len() - i,
        {
            if self.entries[i].namespace == *namespace {
                return Some(&self.entries[i].images);
            }
            i = i + 1;
        }
        None
    }

    /// The entries, one per namespace, each namespace once.
    pub fn into_entries(self) -> (r: Vec<NamespaceEntry>)
        requires
            self.wf(),
        ensures
            forall|i: int, j: int| 0 <= i < j < r.len() ==> r[i].namespace@ != r[j].namespace@,
            forall|k: Seq<char>|
                self@.contains_key(k) <==> exists|i: int| 0 <= i < r.len() && r[i].namespace@ == k,
            forall|i: int| 0 <= i < r.len() ==> self@[#[trigger] r[i].namespace@] == images_view(r[i].images@),
    {
        self.entries
    }
}

/// The images of a list of references that all describe one.
pub open spec fn described_images(images: Seq<String>) -> Seq<ImageView> {
    images.map_values(|s: String| described(s@)->Some_0)
}

pub open spec fn all_described(images: Seq<String>) -> bool {
    forall|i: int| 0 <= i < images.len() ==> (#[trigger] described(images[i]@)) is Some
}

/// Describes each reference in order; refuses the list at the first that does not split.
pub fn parse_images(images: &Vec<String>) -> (r: Result<Vec<Image>, ManifestError>)
    ensures
        r is Ok <==> all_described(images@),
        r matches Ok(v) ==> images_view(v@) == described_images(images@),
        r matches Err(e) ==> exists|k: int|
            0 <= k < images.len() && described(#[trigger] images@[k]@) is None && (forall|j: int|
                0 <= j < k ==> (#[trigger] described(images@[j]@)) is Some) && e
                == ManifestError::Parse(images@[k]),
{
    let mut out: Vec<Image> = Vec::new();
    let mut i: usize = 0;
    while i < images.len()
        invariant
            i <= images.len(),
            out.len() == i,
            forall|j: int| 0 <= j < i ==> (#[trigger] described(images@[j]@)) is Some,
            images_view(out@) == described_images(images@.subrange(0, i as int)),
        decreases images.len() - i,
    {
        match Image::parse_image(images[i].as_str()) {
            Ok(img) => {
                let ghost prev = out@;
                let ghost sub = images@.subrange(0, i as int);
                assert(described(images@[i as int]@) == Some(img@));
                out.push(img);
                assert(images_view(out@) =~= images_view(prev).push(img@));
                assert(images@.subrange(0, i + 1) =~= sub.push(images@[i as int]));
                assert(described_images(sub.push(images@[i as int])) =~= described_images(sub).push(
                    img@,
                ));
            },
            Err(e) => {
                let ghost k = i as int;
                assert(described(images@[k]@) is None);
                return Err(ManifestError::Parse(images[i].clone()));
            },
        }
        i = i + 1;
    }
    assert(images@.subrange(0, images.len() as int) =~= images@);
    Ok(out)
}

/// Lays a fresh namespace over an optional earlier manifest.
pub fn merge_namespace(base: Option<Manifest>, namespace: String, images: Vec<Image>) -> (r: Manifest)
    requires
        base matches Some(m) ==> m.wf(),
    ensures
        r.wf(),
        r@ == merged(base_view(base), namespace@, images_view(images@)),
{
    let mut m = match base {
        Some(m) => m,
        None => Manifest::new(),
    };
    m.insert(namespace, images);
    m
}

/// The manifest of one run: the references described under the namespace, laid over the
/// earlier manifest if one is given. Refused, with the first reference that does not
/// split, unless all do.
pub fn build_manifest(images: &Vec<String>, namespace: String, base: Option<Manifest>) -> (r: Result<
    Manifest,
    ManifestError,
>)
    requires
        base matches Some(m) ==> m.wf(),
    ensures
        r is Ok <==> all_described(images@),
        r matches Ok(m) ==> m.wf() && m@ == merged(
            base_view(base),
            namespace@,
            described_images(images@),
        ),
        r matches Err(e) ==> exists|k: int|
            0 <= k < images.len() && described(#[trigger] images@[k]@) is None && (forall|j: int|
                0 <= j < k ==> (#[trigger] described(images@[j]@)) is Some) && e
                == ManifestError::Parse(images@[k]),
{
    let parsed = parse_images(images)?;
    Ok(merge_namespace(base, namespace, parsed))
}

/// Laying a namespace over a manifest that lacks it gives the union of the two: every
/// earlier namespace keeps its images, and the new one has the fresh images.
pub proof fn lemma_merge_disjoint(base: ManifestView, namespace: Seq<char>, images: Seq<ImageView>)
    requires
        !base.contains_key(namespace),
    ensures
        merged(base, namespace, images) == base.union_prefer_right(map![namespace => images]),
        merged(base, namespace, images).dom() == base.dom().insert(namespace),
        forall|k: Seq<char>| #[trigger]
            base.contains_key(k) ==> merged(base, namespace, images)[k] == base[k],
        merged(base, namespace, images)[namespace] == images,
{
    assert(merged(base, namespace, images).dom() =~= base.dom().insert(namespace));
    assert(merged(base, namespace, images) =~= base.union_prefer_right(map![namespace => images]));
}

/// Laying a namespace over a manifest that has it keeps the same namespaces, and maps that
/// one to the fresh images alone; the earlier images of it are dropped.
pub proof fn lemma_merge_shared(base: ManifestView, namespace: Seq<char>, images: Seq<ImageView>)
    requires
        base.contains_key(namespace),
    ensures
        merged(base, namespace, images).dom() == base.dom(),
        merged(base, namespace, images)[namespace] == images,
        forall|k: Seq<char>| #[trigger]
            base.contains_key(k) && k != namespace ==> merged(base, namespace, images)[k] == base[k],
{
    assert(merged(base, namespace, images).dom() =~= base.dom());
}

} // verus!
