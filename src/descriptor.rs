//! The descriptor of one run: configurations, images and session templates,
//! and the checks that a descriptor must pass before anything is changed.

use vstd::prelude::*;
use crate::authz::{all_permitted, check_scopes, first_refused, lists};
use crate::tag::{resolve_name, with_tag};

verus! {

/// One layer of a configuration: a playbook from a source repository or product.
#[derive(Clone, Debug)]
pub struct Layer {
    pub name: Option<String>,
    pub source: String,
    pub commit: Option<String>,
    pub branch: Option<String>,
    pub playbook: String,
}

/// A named, ordered list of layers.
#[derive(Clone, Debug)]
pub struct ConfigurationSpec {
    pub name: String,
    pub layers: Vec<Layer>,
}

/// How an image is obtained.
#[derive(Clone, Debug)]
pub enum ImageSource {
    /// Built by a job that applies a configuration to a base artifact.
    Build { configuration: String, base: String },
    /// An existing image, found by name.
    ByName { name: String },
    /// The image that an earlier spec of the same run bound to a reference name.
    ByRef { ref_name: String },
}

/// One image to obtain, optionally bound to a reference name for later specs.
#[derive(Clone, Debug)]
pub struct ImageSpec {
    pub name: String,
    pub source: ImageSource,
    pub ref_name: Option<String>,
    pub groups: Vec<String>,
}

/// The image that a session template boots.
#[derive(Clone, Debug)]
pub enum TemplateImage {
    ByName(String),
    ByRef(String),
}

/// A session template: a configuration, an image and the node groups it targets.
#[derive(Clone, Debug)]
pub struct TemplateSpec {
    pub name: String,
    pub configuration: String,
    pub image: TemplateImage,
    pub node_groups: Vec<String>,
}

/// A whole descriptor, in document order.
#[derive(Clone, Debug)]
pub struct Descriptor {
    pub configurations: Vec<ConfigurationSpec>,
    pub images: Vec<ImageSpec>,
    pub templates: Vec<TemplateSpec>,
}

/// A section of a descriptor.
#[derive(Clone, Copy, Debug, PartialEq, Eq, Structural)]
pub enum Section {
    Configurations,
    Images,
    SessionTemplates,
}

/// Whether a caller authorized for `authorized` may target every scope of `d`.
pub open spec fn authorized_for(d: Descriptor, authorized: Seq<String>) -> bool {
    (forall|j: int| 0 <= j < d.images.len() ==> all_permitted(#[trigger] d.images@[j].groups@, authorized))
        && (forall|k: int| 0 <= k < d.templates.len() ==> all_permitted(#[trigger] d.templates@[k].node_groups@, authorized))
}

/// A scope that a spec targets and the caller may not, with the spec and the
/// scopes that the caller may target.
#[derive(Debug)]
pub struct RefusedScope {
    pub section: Section,
    pub index: usize,
    pub scope: String,
    pub authorized: Vec<String>,
}

/// Whether `scope` is the first refused scope of `scopes`.
pub open spec fn first_refused_of(scopes: Seq<String>, authorized: Seq<String>, scope: Seq<char>) -> bool {
    exists|i: int| first_refused(scopes, authorized, i) && #[trigger] scopes[i]@ == scope
}

/// Whether `e` names the first spec of `d`, images before session templates,
/// that targets a scope the caller may not, and the first such scope of it.
pub open spec fn first_refused_scope(d: Descriptor, authorized: Seq<String>, e: RefusedScope) -> bool {
    e.authorized@ == authorized && match e.section {
        Section::Configurations => false,
        Section::Images => e.index < d.images.len() && (forall|j: int|
            0 <= j < e.index ==> all_permitted(#[trigger] d.images@[j].groups@, authorized)) && first_refused_of(
            d.images@[e.index as int].groups@,
            authorized,
            e.scope@,
        ),
        Section::SessionTemplates => (forall|j: int|
            0 <= j < d.images.len() ==> all_permitted(#[trigger] d.images@[j].groups@, authorized)) && e.index
            < d.templates.len() && (forall|k: int|
            0 <= k < e.index ==> all_permitted(#[trigger] d.templates@[k].node_groups@, authorized))
            && first_refused_of(d.templates@[e.index as int].node_groups@, authorized, e.scope@),
    }
}

/// Checks every scope that `d` targets against `authorized`, before anything
/// is changed, and names the first spec that targets a refused scope.
pub fn check_authorization(d: &Descriptor, authorized: &Vec<String>) -> (r: Result<(), RefusedScope>)
    ensures
        r is Ok <==> authorized_for(*d, authorized@),
        r matches Err(e) ==> first_refused_scope(*d, authorized@, e),
{
    let mut j: usize = 0;
    while j < d.images.len()
        invariant
            j <= d.images.len(),
            forall|m: int| 0 <= m < j ==> all_permitted(#[trigger] d.images@[m].groups@, authorized@),
        decreases d.images.len() - j,
    {
        match check_scopes(&d.images[j].groups, authorized) {
            Ok(()) => {},
            Err(e) => {
                proof {
                    let i = choose|i: int| first_refused(d.images@[j as int].groups@, authorized@, i) && e.scope@ == d.images@[j as int].groups@[i]@;
                    assert(first_refused_of(d.images@[j as int].groups@, authorized@, e.scope@));
                }
                return Err(RefusedScope { section: Section::Images, index: j, scope: e.scope, authorized: e.authorized });
            },
        }
        j = j + 1;
    }
    let mut k: usize = 0;
    while k < d.templates.len()
        invariant
            j == d.images.len(),
            forall|m: int| 0 <= m < j ==> all_permitted(#[trigger] d.images@[m].groups@, authorized@),
            k <= d.templates.len(),
            forall|m: int| 0 <= m < k ==> all_permitted(#[trigger] d.templates@[m].node_groups@, authorized@),
        decreases d.templates.len() - k,
    {
        match check_scopes(&d.templates[k].node_groups, authorized) {
            Ok(()) => {},
            Err(e) => {
                proof {
                    let i = choose|i: int| first_refused(d.templates@[k as int].node_groups@, authorized@, i) && e.scope@ == d.templates@[k as int].node_groups@[i]@;
                    assert(first_refused_of(d.templates@[k as int].node_groups@, authorized@, e.scope@));
                }
                return Err(
                    RefusedScope { section: Section::SessionTemplates, index: k, scope: e.scope, authorized: e.authorized },
                );
            },
        }
        k = k + 1;
    }
    Ok(())
}

/// Whether an image spec before position `j` binds, once `tag` is applied,
/// the reference name `key`.
pub open spec fn produced_before(d: Descriptor, tag: Seq<char>, j: int, key: Seq<char>) -> bool {
    exists|m: int|
        0 <= m < j && #[trigger] d.images@[m].ref_name is Some && with_tag(d.images@[m].ref_name->0@, tag)
            == key
}

/// Whether image spec `j` reads a reference name that no earlier spec binds.
pub open spec fn image_unresolved(d: Descriptor, tag: Seq<char>, j: int) -> bool {
    d.images@[j].source matches ImageSource::ByRef { ref_name } && !produced_before(
        d,
        tag,
        j,
        with_tag(ref_name@, tag),
    )
}

/// Whether session template `k` reads a reference name that no image spec binds.
pub open spec fn template_unresolved(d: Descriptor, tag: Seq<char>, k: int) -> bool {
    d.templates@[k].image matches TemplateImage::ByRef(ref_name) && !produced_before(
        d,
        tag,
        d.images.len() as int,
        with_tag(ref_name@, tag),
    )
}

/// Whether every reference name that `d` reads is bound by an earlier image spec.
pub open spec fn references_resolved(d: Descriptor, tag: Seq<char>) -> bool {
    (forall|j: int| 0 <= j < d.images.len() ==> !#[trigger] image_unresolved(d, tag, j))
        && (forall|k: int| 0 <= k < d.templates.len() ==> !#[trigger] template_unresolved(d, tag, k))
}

/// A reference name that nothing before its reader binds.
#[derive(Debug)]
pub struct UnresolvedReference {
    pub section: Section,
    pub index: usize,
    pub ref_name: String,
}

/// Whether `e` names the first reader, in document order, of a reference
/// name that no earlier image spec binds.
pub open spec fn first_unresolved(d: Descriptor, tag: Seq<char>, e: UnresolvedReference) -> bool {
    match e.section {
        Section::Configurations => false,
        Section::Images => e.index < d.images.len() && image_unresolved(d, tag, e.index as int) && (forall|j: int|
            0 <= j < e.index ==> !#[trigger] image_unresolved(d, tag, j)) && (d.images@[e.index as int].source matches ImageSource::ByRef {
            ref_name,
        } && e.ref_name@ == with_tag(ref_name@, tag)),
        Section::SessionTemplates => e.index < d.templates.len() && template_unresolved(d, tag, e.index as int)
            && (forall|j: int| 0 <= j < d.images.len() ==> !#[trigger] image_unresolved(d, tag, j)) && (forall|k: int|
            0 <= k < e.index ==> !#[trigger] template_unresolved(d, tag, k)) && (d.templates@[e.index as int].image matches TemplateImage::ByRef(
            ref_name,
        ) && e.ref_name@ == with_tag(ref_name@, tag)),
    }
}

fn bound_before(d: &Descriptor, tag: &String, j: usize, key: &String) -> (r: bool)
    requires
        j <= d.images.len(),
    ensures
        r == produced_before(*d, tag@, j as int, key@),
{
    let mut m: usize = 0;
    while m < j
        invariant
            j <= d.images.len(),
            m <= j,
            forall|i: int|
                0 <= i < m && #[trigger] d.images@[i].ref_name is Some ==> with_tag(
                    d.images@[i].ref_name->0@,
                    tag@,
                ) != key@,
        decreases j - m,
    {
        match &d.images[m].ref_name {
            Some(n) => {
                if resolve_name(n.as_str(), tag.as_str()) == *key {
                    return true;
                }
            },
            None => {},
        }
        m = m + 1;
    }
    false
}

/// Checks, before anything is changed, that every reference name is bound by
/// an image spec that comes before its reader.
pub fn check_references(d: &Descriptor, tag: &String) -> (r: Result<(), UnresolvedReference>)
    ensures
        r is Ok <==> references_resolved(*d, tag@),
        r matches Err(e) ==> first_unresolved(*d, tag@, e),
{
    let mut j: usize = 0;
    while j < d.images.len()
        invariant
            j <= d.images.len(),
            forall|m: int| 0 <= m < j ==> !#[trigger] image_unresolved(*d, tag@, m),
        decreases d.images.len() - j,
    {
        match &d.images[j].source {
            ImageSource::ByRef { ref_name } => {
                let key = resolve_name(ref_name.as_str(), tag.as_str());
                if !bound_before(d, tag, j, &key) {
                    assert(image_unresolved(*d, tag@, j as int));
                    return Err(UnresolvedReference { section: Section::Images, index: j, ref_name: key });
                }
            },
            _ => {},
        }
        j = j + 1;
    }
    let n = d.images.len();
    let mut k: usize = 0;
    while k < d.templates.len()
        invariant
            n == d.images.len(),
            forall|m: int| 0 <= m < n ==> !#[trigger] image_unresolved(*d, tag@, m),
            k <= d.templates.len(),
            forall|m: int| 0 <= m < k ==> !#[trigger] template_unresolved(*d, tag@, m),
        decreases d.templates.len() - k,
    {
        match &d.templates[k].image {
            TemplateImage::ByRef(ref_name) => {
                let key = resolve_name(ref_name.as_str(), tag.as_str());
                if !bound_before(d, tag, n, &key) {
                    assert(template_unresolved(*d, tag@, k as int));
                    return Err(
                        UnresolvedReference { section: Section::SessionTemplates, index: k, ref_name: key },
                    );
                }
            },
            _ => {},
        }
        k = k + 1;
    }
    Ok(())
}

/// Whether configuration `i` of `d` resolves under `tag` to the name of an
/// earlier one.
pub open spec fn configuration_repeats(d: Descriptor, tag: Seq<char>, i: int) -> bool {
    exists|m: int|
        0 <= m < i && with_tag(#[trigger] d.configurations@[m].name@, tag) == with_tag(d.configurations@[i].name@, tag)
}

/// Whether the configurations of `d` resolve under `tag` to distinct names.
pub open spec fn configuration_names_unique(d: Descriptor, tag: Seq<char>) -> bool {
    forall|i: int| 0 <= i < d.configurations.len() ==> !#[trigger] configuration_repeats(d, tag, i)
}

/// Finds the first configuration whose resolved name an earlier one has.
pub fn first_repeated_configuration(d: &Descriptor, tag: &String) -> (r: Option<usize>)
    ensures
        r is None <==> configuration_names_unique(*d, tag@),
        r matches Some(i) ==> i < d.configurations.len() && configuration_repeats(*d, tag@, i as int) && forall|j: int|
            0 <= j < i ==> !#[trigger] configuration_repeats(*d, tag@, j),
{
    let mut i: usize = 0;
    while i < d.configurations.len()
        invariant
            i <= d.configurations.len(),
            forall|j: int| 0 <= j < i ==> !#[trigger] configuration_repeats(*d, tag@, j),
        decreases d.configurations.len() - i,
    {
        let name = resolve_name(d.configurations[i].name.as_str(), tag.as_str());
        let mut m: usize = 0;
        while m < i
            invariant
                i < d.configurations.len(),
                name@ == with_tag(d.configurations@[i as int].name@, tag@),
                forall|j: int| 0 <= j < i ==> !#[trigger] configuration_repeats(*d, tag@, j),
                m <= i,
                forall|k: int| 0 <= k < m ==> with_tag(#[trigger] d.configurations@[k].name@, tag@) != name@,
            decreases i - m,
        {
            if resolve_name(d.configurations[m].name.as_str(), tag.as_str()) == name {
                assert(configuration_repeats(*d, tag@, i as int));
                return Some(i);
            }
            m = m + 1;
        }
        i = i + 1;
    }
    None
}

/// The node group that a session template targets: the caller's override
/// when the template does not declare it, else the first declared group.
pub open spec fn chosen_group(groups: Seq<String>, override_group: Option<String>) -> Option<String> {
    if override_group is Some && !lists(groups, override_group->0@) {
        override_group
    } else if groups.len() > 0 {
        Some(groups[0])
    } else {
        None
    }
}

/// Picks the node group that a session template targets.
pub fn effective_node_group(groups: &Vec<String>, override_group: &Option<String>) -> (r: Option<String>)
    ensures
        r == chosen_group(groups@, *override_group),
{
    match override_group {
        Some(o) => {
            if !crate::authz::contains_scope(groups, o) {
                return Some(o.clone());
            }
        },
        None => {},
    }
    if groups.len() > 0 {
        Some(groups[0].clone())
    } else {
        None
    }
}

/// The same descriptor without its session templates: a run of it creates
/// configurations and images and binds no session template.
pub fn images_only(d: Descriptor) -> (r: Descriptor)
    ensures
        r.configurations == d.configurations,
        r.images == d.images,
        r.templates.len() == 0,
{
    Descriptor { configurations: d.configurations, images: d.images, templates: Vec::new() }
}

} // verus!
