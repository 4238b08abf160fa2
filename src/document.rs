//! A descriptor document as a tree of plain values, and the reading of a
//! descriptor out of it.

use vstd::prelude::*;
use crate::descriptor::{
    ConfigurationSpec, Descriptor, ImageSource, ImageSpec, Layer, Section, TemplateImage, TemplateSpec,
};

verus! {

/// A node of a descriptor document.
#[derive(Debug)]
pub enum Node {
    Null,
    Bool(bool),
    Int(i64),
    Text(String),
    List(Vec<Node>),
    Mapping(Vec<(String, Node)>),
}

/// The first value stored under `key` among `entries`.
pub open spec fn lookup(entries: Seq<(String, Node)>, key: Seq<char>) -> Option<Node>
    decreases entries.len(),
{
    if entries.len() == 0 {
        None
    } else if entries[0].0@ == key {
        Some(entries[0].1)
    } else {
        lookup(entries.skip(1), key)
    }
}

/// The value of `n` under `key`, if `n` is a map that has one.
pub open spec fn field(n: Node, key: Seq<char>) -> Option<Node> {
    match n {
        Node::Mapping(entries) => lookup(entries@, key),
        _ => None,
    }
}

/// The text of `n`, if it is text.
pub open spec fn text_of(n: Node) -> Option<String> {
    match n {
        Node::Text(s) => Some(s),
        _ => None,
    }
}

/// The text of `n` under `key`.
pub open spec fn text_field(n: Node, key: Seq<char>) -> Option<String> {
    match field(n, key) {
        Some(v) => text_of(v),
        None => None,
    }
}

/// The text of `n` under `key`, then `inner`.
pub open spec fn text_path(n: Node, key: Seq<char>, inner: Seq<char>) -> Option<String> {
    match field(n, key) {
        Some(v) => text_field(v, inner),
        None => None,
    }
}

/// The items of `n`, if it is a list.
pub open spec fn items_of(n: Option<Node>) -> Option<Seq<Node>> {
    match n {
        Some(Node::List(items)) => Some(items@),
        _ => None,
    }
}

/// Whether `names` holds, one for one, the texts of the items of `n`; a
/// missing list reads as empty.
pub open spec fn texts_read(n: Option<Node>, names: Seq<String>) -> bool {
    match n {
        None => names.len() == 0,
        Some(Node::List(items)) => items.len() == names.len() && forall|i: int|
            0 <= i < items.len() ==> text_of(#[trigger] items@[i]) == Some(names[i]),
        _ => false,
    }
}

/// Whether `n` is missing, or a list of texts.
pub open spec fn texts_readable(n: Option<Node>) -> bool {
    match n {
        None => true,
        Some(Node::List(items)) => forall|i: int| 0 <= i < items.len() ==> (#[trigger] text_of(items@[i])) is Some,
        _ => false,
    }
}

/// The layer that `n` describes: its source is the `git.url` or else the
/// `product.name`; its branch the `git.branch` or else the `product.branch`;
/// a playbook is required.
pub open spec fn layer_of(n: Node) -> Option<Layer> {
    let source = if text_path(n, "git"@, "url"@) is Some {
        text_path(n, "git"@, "url"@)
    } else {
        text_path(n, "product"@, "name"@)
    };
    let branch = if text_path(n, "git"@, "branch"@) is Some {
        text_path(n, "git"@, "branch"@)
    } else {
        text_path(n, "product"@, "branch"@)
    };
    if source is Some && text_field(n, "playbook"@) is Some {
        Some(
            Layer {
                name: text_field(n, "name"@),
                source: source->0,
                commit: text_path(n, "git"@, "commit"@),
                branch,
                playbook: text_field(n, "playbook"@)->0,
            },
        )
    } else {
        None
    }
}

/// Whether `n` describes a configuration: a name and a list of layers.
pub open spec fn configuration_readable(n: Node) -> bool {
    text_field(n, "name"@) is Some && match field(n, "layers"@) {
        None => true,
        Some(Node::List(items)) => forall|i: int| 0 <= i < items.len() ==> (#[trigger] layer_of(items@[i])) is Some,
        _ => false,
    }
}

/// Whether `c` is the configuration that `n` describes.
pub open spec fn configuration_read(n: Node, c: ConfigurationSpec) -> bool {
    Some(c.name) == text_field(n, "name"@) && match field(n, "layers"@) {
        None => c.layers.len() == 0,
        Some(Node::List(items)) => items.len() == c.layers.len() && forall|i: int|
            0 <= i < items.len() ==> layer_of(#[trigger] items@[i]) == Some(c.layers@[i]),
        _ => false,
    }
}

/// The base artifact of an image node: `base.ims.id`, else `base.ims.name`,
/// else `base.product.name`.
pub open spec fn base_of(n: Node) -> Option<String> {
    match field(n, "base"@) {
        Some(b) => if text_path(b, "ims"@, "id"@) is Some {
            text_path(b, "ims"@, "id"@)
        } else if text_path(b, "ims"@, "name"@) is Some {
            text_path(b, "ims"@, "name"@)
        } else {
            text_path(b, "product"@, "name"@)
        },
        None => None,
    }
}

/// How the image that `n` describes is obtained, by precedence: built when
/// it names a configuration, else looked up by `base.ims.name`, else read
/// from `base.image_ref`.
pub open spec fn source_of(n: Node) -> Option<ImageSource> {
    if text_field(n, "configuration"@) is Some {
        if base_of(n) is Some {
            Some(ImageSource::Build { configuration: text_field(n, "configuration"@)->0, base: base_of(n)->0 })
        } else {
            None
        }
    } else {
        match field(n, "base"@) {
            Some(b) => if text_path(b, "ims"@, "name"@) is Some {
                Some(ImageSource::ByName { name: text_path(b, "ims"@, "name"@)->0 })
            } else if text_field(b, "image_ref"@) is Some {
                Some(ImageSource::ByRef { ref_name: text_field(b, "image_ref"@)->0 })
            } else {
                None
            },
            None => None,
        }
    }
}

/// Whether `n` describes an image.
pub open spec fn image_readable(n: Node) -> bool {
    text_field(n, "name"@) is Some && source_of(n) is Some && texts_readable(field(n, "configuration_group_names"@))
}

/// Whether `m` is the image that `n` describes.
pub open spec fn image_read(n: Node, m: ImageSpec) -> bool {
    Some(m.name) == text_field(n, "name"@) && Some(m.source) == source_of(n) && m.ref_name == text_field(n, "ref_name"@)
        && texts_read(field(n, "configuration_group_names"@), m.groups@)
}

/// The boot sets of a session template node.
pub open spec fn boot_sets(n: Node) -> Option<Node> {
    match field(n, "bos_parameters"@) {
        Some(p) => field(p, "boot_sets"@),
        None => None,
    }
}

/// The boot set that declares the node groups: `compute`, else `uan`.
pub open spec fn group_set(n: Node) -> Option<Node> {
    match boot_sets(n) {
        Some(b) => if field(b, "compute"@) is Some {
            field(b, "compute"@)
        } else {
            field(b, "uan"@)
        },
        None => None,
    }
}

/// The image that a session template node boots.
pub open spec fn template_image_of(n: Node) -> Option<TemplateImage> {
    match field(n, "image"@) {
        Some(i) => if field(i, "ims"@) is Some {
            match text_path(i, "ims"@, "name"@) {
                Some(s) => Some(TemplateImage::ByName(s)),
                None => None,
            }
        } else {
            match text_field(i, "image_ref"@) {
                Some(s) => Some(TemplateImage::ByRef(s)),
                None => None,
            }
        },
        None => None,
    }
}

/// Whether `n` describes a session template.
pub open spec fn template_readable(n: Node) -> bool {
    text_field(n, "name"@) is Some && text_field(n, "configuration"@) is Some && template_image_of(n) is Some
        && group_set(n) is Some && texts_readable(field(group_set(n)->0, "node_groups"@))
}

/// Whether `t` is the session template that `n` describes.
pub open spec fn template_read(n: Node, t: TemplateSpec) -> bool {
    Some(t.name) == text_field(n, "name"@) && Some(t.configuration) == text_field(n, "configuration"@) && Some(t.image)
        == template_image_of(n) && group_set(n) is Some && texts_read(field(group_set(n)->0, "node_groups"@), t.node_groups@)
}

/// The specs of a section of the document; a missing section, or one that
/// is not a list, reads as empty.
pub open spec fn section_of(doc: Node, key: Seq<char>) -> Seq<Node> {
    match field(doc, key) {
        Some(Node::List(items)) => items@,
        _ => Seq::empty(),
    }
}

/// Whether every spec of the document is readable.
pub open spec fn document_readable(doc: Node) -> bool {
    (forall|i: int| 0 <= i < section_of(doc, "configurations"@).len() ==> #[trigger] configuration_readable(section_of(doc, "configurations"@)[i]))
        && (forall|i: int| 0 <= i < section_of(doc, "images"@).len() ==> #[trigger] image_readable(section_of(doc, "images"@)[i]))
        && (forall|i: int| 0 <= i < section_of(doc, "session_templates"@).len() ==> #[trigger] template_readable(section_of(doc, "session_templates"@)[i]))
}

/// Whether `d` is the descriptor that `doc` describes, spec for spec.
pub open spec fn document_read(doc: Node, d: Descriptor) -> bool {
    let cs = section_of(doc, "configurations"@);
    let is = section_of(doc, "images"@);
    let ts = section_of(doc, "session_templates"@);
    &&& d.configurations.len() == cs.len()
    &&& forall|i: int| 0 <= i < cs.len() ==> configuration_read(cs[i], #[trigger] d.configurations@[i])
    &&& d.images.len() == is.len()
    &&& forall|i: int| 0 <= i < is.len() ==> image_read(is[i], #[trigger] d.images@[i])
    &&& d.templates.len() == ts.len()
    &&& forall|i: int| 0 <= i < ts.len() ==> template_read(ts[i], #[trigger] d.templates@[i])
}

/// A spec of the document that cannot be read.
#[derive(Debug)]
pub struct DocumentError {
    pub section: Section,
    pub index: usize,
}

/// Whether `e` names the first spec, in document order, that cannot be read.
pub open spec fn first_unreadable(doc: Node, e: DocumentError) -> bool {
    let cs = section_of(doc, "configurations"@);
    let is = section_of(doc, "images"@);
    let ts = section_of(doc, "session_templates"@);
    let cs_ok = forall|i: int| 0 <= i < cs.len() ==> #[trigger] configuration_readable(cs[i]);
    let is_ok = forall|i: int| 0 <= i < is.len() ==> #[trigger] image_readable(is[i]);
    match e.section {
        Section::Configurations => e.index < cs.len() && !configuration_readable(cs[e.index as int]) && forall|i: int|
            0 <= i < e.index ==> #[trigger] configuration_readable(cs[i]),
        Section::Images => cs_ok && e.index < is.len() && !image_readable(is[e.index as int]) && forall|i: int|
            0 <= i < e.index ==> #[trigger] image_readable(is[i]),
        Section::SessionTemplates => cs_ok && is_ok && e.index < ts.len() && !template_readable(ts[e.index as int])
            && forall|i: int| 0 <= i < e.index ==> #[trigger] template_readable(ts[i]),
    }
}

/// The value of `n` under `key`.
pub fn get<'a>(n: &'a Node, key: &str) -> (r: Option<&'a Node>)
    ensures
        match r {
            Some(v) => field(*n, key@) == Some(*v),
            None => field(*n, key@) is None,
        },
{
    match n {
        Node::Mapping(entries) => {
            let wanted = String::from_str(key);
            let mut i: usize = 0;
            assert(entries@.skip(0) =~= entries@);
            while i < entries.len()
                invariant
                    *n == Node::Mapping(*entries),
                    wanted@ == key@,
                    i <= entries.len(),
                    lookup(entries@, key@) == lookup(entries@.skip(i as int), key@),
                decreases entries.len() - i,
            {
                assert(entries@.skip(i as int).skip(1) =~= entries@.skip(i + 1));
                assert(entries@.skip(i as int)[0] == entries@[i as int]);
                if entries[i].0 == wanted {
                    return Some(&entries[i].1);
                }
                i = i + 1;
            }
            None
        },
        _ => None,
    }
}

/// The text of `n`, if it is text.
pub fn text(n: &Node) -> (r: Option<String>)
    ensures
        r == text_of(*n),
{
    match n {
        Node::Text(s) => Some(s.clone()),
        _ => None,
    }
}

/// The text of `n` under `key`.
pub fn get_text(n: &Node, key: &str) -> (r: Option<String>)
    ensures
        r == text_field(*n, key@),
{
    match get(n, key) {
        Some(v) => text(v),
        None => None,
    }
}

/// The text of `n` under `key`, then `inner`.
pub fn get_text_path(n: &Node, key: &str, inner: &str) -> (r: Option<String>)
    ensures
        r == text_path(*n, key@, inner@),
{
    match get(n, key) {
        Some(v) => get_text(v, inner),
        None => None,
    }
}

/// Reads a list of texts; a missing list reads as empty.
pub fn read_texts(n: Option<&Node>) -> (r: Option<Vec<String>>)
    ensures
        r is Some <==> texts_readable(match n { Some(v) => Some(*v), None => None }),
        r matches Some(names) ==> texts_read(match n { Some(v) => Some(*v), None => None }, names@),
{
    match n {
        None => Some(Vec::new()),
        Some(Node::List(items)) => {
            let mut names: Vec<String> = Vec::new();
            let mut i: usize = 0;
            while i < items.len()
                invariant
                    n == Some(&Node::List(*items)),
                    i <= items.len(),
                    names.len() == i,
                    forall|k: int| 0 <= k < i ==> text_of(#[trigger] items@[k]) == Some(names@[k]),
                decreases items.len() - i,
            {
                match text(&items[i]) {
                    Some(s) => names.push(s),
                    None => {
                        assert(text_of(items@[i as int]) is None);
                        return None;
                    },
                }
                i = i + 1;
            }
            Some(names)
        },
        Some(_) => None,
    }
}

/// Reads one layer.
pub fn read_layer(n: &Node) -> (r: Option<Layer>)
    ensures
        r == layer_of(*n),
{
    let source = match get_text_path(n, "git", "url") {
        Some(u) => Some(u),
        None => get_text_path(n, "product", "name"),
    };
    let branch = match get_text_path(n, "git", "branch") {
        Some(b) => Some(b),
        None => get_text_path(n, "product", "branch"),
    };
    let playbook = get_text(n, "playbook");
    match (source, playbook) {
        (Some(source), Some(playbook)) => Some(
            Layer {
                name: get_text(n, "name"),
                source,
                commit: get_text_path(n, "git", "commit"),
                branch,
                playbook,
            },
        ),
        _ => None,
    }
}

/// Reads one configuration.
pub fn read_configuration(n: &Node) -> (r: Option<ConfigurationSpec>)
    ensures
        r is Some <==> configuration_readable(*n),
        r matches Some(c) ==> configuration_read(*n, c),
{
    let name = match get_text(n, "name") {
        Some(s) => s,
        None => return None,
    };
    let mut layers: Vec<Layer> = Vec::new();
    match get(n, "layers") {
        None => {},
        Some(Node::List(items)) => {
            let mut i: usize = 0;
            while i < items.len()
                invariant
                    field(*n, "layers"@) == Some(Node::List(*items)),
                    i <= items.len(),
                    layers.len() == i,
                    forall|k: int| 0 <= k < i ==> layer_of(#[trigger] items@[k]) == Some(layers@[k]),
                decreases items.len() - i,
            {
                match read_layer(&items[i]) {
                    Some(l) => layers.push(l),
                    None => {
                        assert(layer_of(items@[i as int]) is None);
                        return None;
                    },
                }
                i = i + 1;
            }
        },
        Some(_) => return None,
    }
    Some(ConfigurationSpec { name, layers })
}

fn read_base(n: &Node) -> (r: Option<String>)
    ensures
        r == base_of(*n),
{
    match get(n, "base") {
        Some(b) => match get_text_path(b, "ims", "id") {
            Some(s) => Some(s),
            None => match get_text_path(b, "ims", "name") {
                Some(s) => Some(s),
                None => get_text_path(b, "product", "name"),
            },
        },
        None => None,
    }
}

fn read_source(n: &Node) -> (r: Option<ImageSource>)
    ensures
        r == source_of(*n),
{
    match get_text(n, "configuration") {
        Some(configuration) => match read_base(n) {
            Some(base) => Some(ImageSource::Build { configuration, base }),
            None => None,
        },
        None => match get(n, "base") {
            Some(b) => match get_text_path(b, "ims", "name") {
                Some(name) => Some(ImageSource::ByName { name }),
                None => match get_text(b, "image_ref") {
                    Some(ref_name) => Some(ImageSource::ByRef { ref_name }),
                    None => None,
                },
            },
            None => None,
        },
    }
}

/// Reads one image.
pub fn read_image(n: &Node) -> (r: Option<ImageSpec>)
    ensures
        r is Some <==> image_readable(*n),
        r matches Some(m) ==> image_read(*n, m),
{
    let name = get_text(n, "name");
    let source = read_source(n);
    let groups = read_texts(get(n, "configuration_group_names"));
    match (name, source, groups) {
        (Some(name), Some(source), Some(groups)) => Some(
            ImageSpec { name, source, ref_name: get_text(n, "ref_name"), groups },
        ),
        _ => None,
    }
}

fn read_group_set(n: &Node) -> (r: Option<&Node>)
    ensures
        match r {
            Some(v) => group_set(*n) == Some(*v),
            None => group_set(*n) is None,
        },
{
    match get(n, "bos_parameters") {
        Some(p) => match get(p, "boot_sets") {
            Some(b) => match get(b, "compute") {
                Some(c) => Some(c),
                None => get(b, "uan"),
            },
            None => None,
        },
        None => None,
    }
}

fn read_template_image(n: &Node) -> (r: Option<TemplateImage>)
    ensures
        r == template_image_of(*n),
{
    match get(n, "image") {
        Some(i) => match get(i, "ims") {
            Some(_) => match get_text_path(i, "ims", "name") {
                Some(s) => Some(TemplateImage::ByName(s)),
                None => None,
            },
            None => match get_text(i, "image_ref") {
                Some(s) => Some(TemplateImage::ByRef(s)),
                None => None,
            },
        },
        None => None,
    }
}

/// Reads one session template.
pub fn read_template(n: &Node) -> (r: Option<TemplateSpec>)
    ensures
        r is Some <==> template_readable(*n),
        r matches Some(t) ==> template_read(*n, t),
{
    let name = get_text(n, "name");
    let configuration = get_text(n, "configuration");
    let image = read_template_image(n);
    let groups = match read_group_set(n) {
        Some(set) => read_texts(get(set, "node_groups")),
        None => None,
    };
    match (name, configuration, image, groups) {
        (Some(name), Some(configuration), Some(image), Some(node_groups)) => Some(
            TemplateSpec { name, configuration, image, node_groups },
        ),
        _ => None,
    }
}

fn section<'a>(doc: &'a Node, key: &str) -> (r: &'a [Node])
    ensures
        r@ == section_of(*doc, key@),
{
    match get(doc, key) {
        Some(Node::List(items)) => items.as_slice(),
        _ => &[],
    }
}

/// Reads the descriptor that a document describes, or names the first spec
/// that cannot be read.
pub fn read_descriptor(doc: &Node) -> (r: Result<Descriptor, DocumentError>)
    ensures
        r is Ok <==> document_readable(*doc),
        r matches Ok(d) ==> document_read(*doc, d),
        r matches Err(e) ==> first_unreadable(*doc, e),
{
    let cs = section(doc, "configurations");
    let mut configurations: Vec<ConfigurationSpec> = Vec::new();
    let mut i: usize = 0;
    while i < cs.len()
        invariant
            cs@ == section_of(*doc, "configurations"@),
            i <= cs.len(),
            configurations.len() == i,
            forall|k: int| 0 <= k < i ==> #[trigger] configuration_readable(cs@[k]),
            forall|k: int| 0 <= k < i ==> configuration_read(cs@[k], #[trigger] configurations@[k]),
        decreases cs.len() - i,
    {
        match read_configuration(&cs[i]) {
            Some(c) => configurations.push(c),
            None => return Err(DocumentError { section: Section::Configurations, index: i }),
        }
        i = i + 1;
    }
    let is = section(doc, "images");
    let mut images: Vec<ImageSpec> = Vec::new();
    let mut j: usize = 0;
    while j < is.len()
        invariant
            cs@ == section_of(*doc, "configurations"@),
            forall|k: int| 0 <= k < cs.len() ==> #[trigger] configuration_readable(cs@[k]),
            is@ == section_of(*doc, "images"@),
            j <= is.len(),
            images.len() == j,
            forall|k: int| 0 <= k < j ==> #[trigger] image_readable(is@[k]),
            forall|k: int| 0 <= k < j ==> image_read(is@[k], #[trigger] images@[k]),
        decreases is.len() - j,
    {
        match read_image(&is[j]) {
            Some(m) => images.push(m),
            None => return Err(DocumentError { section: Section::Images, index: j }),
        }
        j = j + 1;
    }
    let ts = section(doc, "session_templates");
    let mut templates: Vec<TemplateSpec> = Vec::new();
    let mut k: usize = 0;
    while k < ts.len()
        invariant
            cs@ == section_of(*doc, "configurations"@),
            forall|m: int| 0 <= m < cs.len() ==> #[trigger] configuration_readable(cs@[m]),
            is@ == section_of(*doc, "images"@),
            forall|m: int| 0 <= m < is.len() ==> #[trigger] image_readable(is@[m]),
            ts@ == section_of(*doc, "session_templates"@),
            k <= ts.len(),
            templates.len() == k,
            forall|m: int| 0 <= m < k ==> #[trigger] template_readable(ts@[m]),
            forall|m: int| 0 <= m < k ==> template_read(ts@[m], #[trigger] templates@[m]),
        decreases ts.len() - k,
    {
        match read_template(&ts[k]) {
            Some(t) => templates.push(t),
            None => return Err(DocumentError { section: Section::SessionTemplates, index: k }),
        }
        k = k + 1;
    }
    Ok(Descriptor { configurations, images, templates })
}

} // verus!
