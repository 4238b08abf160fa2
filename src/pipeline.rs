//! The pipeline orchestrator. It holds one run's descriptor and context and
//! decides, from each reply of the remote back-ends, the next operation to
//! issue: configurations first, then images, then session templates, each
//! bound template followed by its rollout. The caller performs each
//! operation and hands the reply back.

use vstd::prelude::*;
use crate::descriptor::{
    authorized_for, check_authorization, first_refused_scope, RefusedScope, check_references, chosen_group, configuration_names_unique,
    configuration_repeats, effective_node_group, first_repeated_configuration,
    first_unresolved, references_resolved, Descriptor, ImageSource, Section, TemplateImage,
    UnresolvedReference,
};
use crate::poller::{poll_step, JobState, PollDecision, Poller};
use crate::refmap::ImageRefMap;
use crate::tag::{has_placeholder, lemma_untagged_name_is_fixed, resolve_name, with_tag};

verus! {

/// What the pipeline knows of an image it binds into a session template.
#[derive(Clone, Debug)]
pub struct ImageRecord {
    pub id: String,
    pub name: String,
    pub etag: String,
    pub path: String,
    pub kind: String,
}

/// Why a run stopped.
#[derive(Debug)]
pub enum PipelineError {
    /// A scope that a spec targets is neither universal nor authorized.
    Authorization(RefusedScope),
    /// A reference name is read before any spec binds it.
    UnresolvedReference { section: Section, index: usize, ref_name: String },
    /// Two configurations resolve to the same name.
    DuplicateConfiguration { index: usize, name: String },
    /// A session template declares no node group and no override is given.
    MissingNodeGroup { index: usize },
    /// The image or configuration that a spec names does not exist.
    NotFound { section: Section, index: usize, name: String },
    /// The build job of image spec `index` ended in failure.
    BuildFailed { index: usize, job: String },
    /// The build job of image spec `index` was still running when the
    /// attempts were spent.
    Timeout { index: usize, job: String },
    /// A back-end refused the operation issued for a spec.
    Remote { section: Section, index: usize, detail: String },
    /// A reply that does not answer the operation last issued.
    UnexpectedReply,
}

/// An operation for the caller to perform.
#[derive(Debug)]
pub enum Action {
    UpsertConfiguration { index: usize, name: String },
    SubmitBuild { index: usize, name: String, configuration: String },
    FetchJobStatus { job: String },
    Sleep { seconds: u64 },
    FindImage { name: String },
    GetImage { id: String },
    UpsertTemplate {
        index: usize,
        name: String,
        configuration: String,
        image: ImageRecord,
        node_group: String,
    },
    ResolveNodes { node_group: String },
    Shutdown { nodes: Vec<String> },
    Boot { template: String, nodes: Vec<String> },
    Audit { index: usize, template: String },
    Finish,
    Fail(PipelineError),
}

/// The outcome of the operation last issued.
#[derive(Debug)]
pub enum Reply {
    /// The operation succeeded and returns nothing.
    Done,
    /// The back-end refused the operation.
    Rejected { detail: String },
    JobSubmitted { job: String },
    Status { state: JobState, result_id: String },
    Image { found: Option<ImageRecord> },
    Nodes { nodes: Vec<String> },
}

/// Where the run stands: which operation it waits on, for which spec.
#[derive(Debug)]
pub enum Phase {
    Configuring { index: usize },
    Submitting { index: usize },
    Polling { index: usize, job: String, poller: Poller },
    Waiting { index: usize, job: String, poller: Poller },
    LookingUp { index: usize },
    Fetching { index: usize },
    Binding { index: usize, node_group: String },
    Resolving { index: usize, node_group: String },
    ShuttingDown { index: usize, nodes: Vec<String> },
    Booting { index: usize, nodes: Vec<String> },
    Auditing { index: usize },
    Done,
    Failed,
}

/// The context threaded through every stage of one run.
#[derive(Debug)]
pub struct RunContext {
    pub tag: String,
    pub authorized: Vec<String>,
    pub refs: ImageRefMap,
}

/// The caller's choices for a run.
#[derive(Debug)]
pub struct Settings {
    /// A node group that replaces those the templates declare.
    pub override_group: Option<String>,
    /// Whether bound templates are rolled out to their nodes.
    pub rollout: bool,
    /// The watch that each build job starts with.
    pub watch: Poller,
}

/// One run of the pipeline.
#[derive(Debug)]
pub struct Pipeline {
    descriptor: Descriptor,
    context: RunContext,
    settings: Settings,
    phase: Phase,
}

/// Whether `ph` is a phase that the run can be in for `d` and `s`.
pub open spec fn phase_fits(d: Descriptor, s: Settings, ph: Phase) -> bool {
    match ph {
        Phase::Configuring { index } => index < d.configurations.len(),
        Phase::Submitting { index } => index < d.images.len() && d.images@[index as int].source is Build,
        Phase::Polling { index, .. } => index < d.images.len() && d.images@[index as int].source is Build,
        Phase::Waiting { index, .. } => index < d.images.len() && d.images@[index as int].source is Build,
        Phase::LookingUp { index } => index < d.images.len() && d.images@[index as int].source is ByName,
        Phase::Fetching { index } => index < d.templates.len(),
        Phase::Binding { index, .. } => index < d.templates.len(),
        Phase::Resolving { index, .. } => index < d.templates.len() && s.rollout,
        Phase::ShuttingDown { index, .. } => index < d.templates.len() && s.rollout,
        Phase::Booting { index, .. } => index < d.templates.len() && s.rollout,
        Phase::Auditing { index } => index < d.templates.len(),
        Phase::Done => true,
        Phase::Failed => true,
    }
}

/// `refs` after the image of a spec that declares `ref_name` resolved to `id`:
/// the first binding of a name stands.
pub open spec fn bind_ref(
    refs: Map<Seq<char>, Seq<char>>,
    ref_name: Option<String>,
    tag: Seq<char>,
    id: Seq<char>,
) -> Map<Seq<char>, Seq<char>> {
    match ref_name {
        Some(n) => if refs.contains_key(with_tag(n@, tag)) {
            refs
        } else {
            refs.insert(with_tag(n@, tag), id)
        },
        None => refs,
    }
}

/// Entering the session templates at `k`: look up the image of template `k`,
/// or finish when none is left.
pub open spec fn entered_templates(
    d: Descriptor,
    tag: Seq<char>,
    k: int,
    refs: Map<Seq<char>, Seq<char>>,
    ph: Phase,
    a: Action,
) -> bool {
    if k >= d.templates.len() {
        ph is Done && a is Finish
    } else {
        match d.templates@[k].image {
            TemplateImage::ByName(n) => ph == (Phase::Fetching { index: k as usize }) && (a matches Action::FindImage {
                name,
            } && name@ == with_tag(n@, tag)),
            TemplateImage::ByRef(r) => if refs.contains_key(with_tag(r@, tag)) {
                ph == (Phase::Fetching { index: k as usize }) && (a matches Action::GetImage { id } && id@ == refs[with_tag(r@, tag)])
            } else {
                ph is Failed && (a matches Action::Fail(PipelineError::UnresolvedReference { section, index, ref_name })
                    && section == Section::SessionTemplates && index == k && ref_name@ == with_tag(r@, tag))
            },
        }
    }
}

/// Entering the images at `j`, from `refs_in`: specs that read a reference
/// are resolved on the spot, with no remote call; the first spec that needs
/// one is issued, or the templates are entered when none is left.
pub open spec fn entered_images(
    d: Descriptor,
    tag: Seq<char>,
    j: int,
    refs_in: Map<Seq<char>, Seq<char>>,
    refs_out: Map<Seq<char>, Seq<char>>,
    ph: Phase,
    a: Action,
) -> bool
    decreases d.images.len() - j,
{
    if j < 0 {
        false
    } else if j >= d.images.len() {
        refs_out == refs_in && entered_templates(d, tag, 0, refs_in, ph, a)
    } else {
        let spec_j = d.images@[j];
        match spec_j.source {
            ImageSource::Build { configuration, .. } => refs_out == refs_in && ph == (Phase::Submitting {
                index: j as usize,
            }) && (a matches Action::SubmitBuild { index, name, configuration: c } && index == j && name@
                == with_tag(spec_j.name@, tag) && c@ == with_tag(configuration@, tag)),
            ImageSource::ByName { name: n } => refs_out == refs_in && ph == (Phase::LookingUp {
                index: j as usize,
            }) && (a matches Action::FindImage { name } && name@ == with_tag(n@, tag)),
            ImageSource::ByRef { ref_name: r } => if refs_in.contains_key(with_tag(r@, tag)) {
                entered_images(
                    d,
                    tag,
                    j + 1,
                    bind_ref(refs_in, spec_j.ref_name, tag, refs_in[with_tag(r@, tag)]),
                    refs_out,
                    ph,
                    a,
                )
            } else {
                refs_out == refs_in && ph is Failed && (a matches Action::Fail(
                    PipelineError::UnresolvedReference { section, index, ref_name },
                ) && section == Section::Images && index == j && ref_name@ == with_tag(r@, tag))
            },
        }
    }
}

/// Entering the configurations at `i`: upsert configuration `i`, or go on
/// to the images when none is left.
pub open spec fn entered_configurations(
    d: Descriptor,
    tag: Seq<char>,
    i: int,
    refs_in: Map<Seq<char>, Seq<char>>,
    refs_out: Map<Seq<char>, Seq<char>>,
    ph: Phase,
    a: Action,
) -> bool {
    if 0 <= i < d.configurations.len() {
        refs_out == refs_in && ph == (Phase::Configuring { index: i as usize }) && (a matches Action::UpsertConfiguration {
            index,
            name,
        } && index == i && name@ == with_tag(d.configurations@[i].name@, tag))
    } else {
        i >= 0 && entered_images(d, tag, 0, refs_in, refs_out, ph, a)
    }
}

fn enter_templates(d: &Descriptor, tag: &String, refs: &ImageRefMap, s: &Settings, k: usize) -> (r: (Phase, Action))
    requires
        refs.well_formed(),
    ensures
        phase_fits(*d, *s, r.0),
        entered_templates(*d, tag@, k as int, refs@, r.0, r.1),
{
    if k >= d.templates.len() {
        return (Phase::Done, Action::Finish);
    }
    match &d.templates[k].image {
        TemplateImage::ByName(n) => {
            (Phase::Fetching { index: k }, Action::FindImage { name: resolve_name(n.as_str(), tag.as_str()) })
        },
        TemplateImage::ByRef(r) => {
            let key = resolve_name(r.as_str(), tag.as_str());
            match refs.get(&key) {
                Some(id) => (Phase::Fetching { index: k }, Action::GetImage { id }),
                None => (
                    Phase::Failed,
                    Action::Fail(
                        PipelineError::UnresolvedReference {
                            section: Section::SessionTemplates,
                            index: k,
                            ref_name: key,
                        },
                    ),
                ),
            }
        },
    }
}

fn bind(refs: &mut ImageRefMap, ref_name: &Option<String>, tag: &String, id: &String)
    requires
        old(refs).well_formed(),
    ensures
        final(refs).well_formed(),
        final(refs)@ == bind_ref(old(refs)@, *ref_name, tag@, id@),
{
    match ref_name {
        Some(n) => {
            let key = resolve_name(n.as_str(), tag.as_str());
            refs.record(&key, id);
        },
        None => {},
    }
}

fn enter_images(d: &Descriptor, tag: &String, refs: &mut ImageRefMap, s: &Settings, j: usize) -> (r: (Phase, Action))
    requires
        old(refs).well_formed(),
        j <= d.images.len(),
    ensures
        final(refs).well_formed(),
        phase_fits(*d, *s, r.0),
        entered_images(*d, tag@, j as int, old(refs)@, final(refs)@, r.0, r.1),
    decreases d.images.len() - j,
{
    if j >= d.images.len() {
        return enter_templates(d, tag, refs, s, 0);
    }
    let spec_j = &d.images[j];
    match &spec_j.source {
        ImageSource::Build { configuration, .. } => (
            Phase::Submitting { index: j },
            Action::SubmitBuild {
                index: j,
                name: resolve_name(spec_j.name.as_str(), tag.as_str()),
                configuration: resolve_name(configuration.as_str(), tag.as_str()),
            },
        ),
        ImageSource::ByName { name } => (
            Phase::LookingUp { index: j },
            Action::FindImage { name: resolve_name(name.as_str(), tag.as_str()) },
        ),
        ImageSource::ByRef { ref_name } => {
            let key = resolve_name(ref_name.as_str(), tag.as_str());
            match refs.get(&key) {
                Some(id) => {
                    bind(refs, &spec_j.ref_name, tag, &id);
                    enter_images(d, tag, refs, s, j + 1)
                },
                None => (
                    Phase::Failed,
                    Action::Fail(
                        PipelineError::UnresolvedReference { section: Section::Images, index: j, ref_name: key },
                    ),
                ),
            }
        },
    }
}

fn enter_configurations(d: &Descriptor, tag: &String, refs: &mut ImageRefMap, s: &Settings, i: usize) -> (r: (Phase, Action))
    requires
        old(refs).well_formed(),
        i <= d.configurations.len(),
    ensures
        final(refs).well_formed(),
        phase_fits(*d, *s, r.0),
        entered_configurations(*d, tag@, i as int, old(refs)@, final(refs)@, r.0, r.1),
{
    if i < d.configurations.len() {
        (
            Phase::Configuring { index: i },
            Action::UpsertConfiguration {
                index: i,
                name: resolve_name(d.configurations[i].name.as_str(), tag.as_str()),
            },
        )
    } else {
        enter_images(d, tag, refs, s, 0)
    }
}


/// The section of the spec that a run in phase `ph` works on.
pub open spec fn phase_section(ph: Phase) -> Section {
    match ph {
        Phase::Configuring { .. } => Section::Configurations,
        Phase::Submitting { .. } => Section::Images,
        Phase::Polling { .. } => Section::Images,
        Phase::Waiting { .. } => Section::Images,
        Phase::LookingUp { .. } => Section::Images,
        Phase::Done => Section::Configurations,
        Phase::Failed => Section::Configurations,
        _ => Section::SessionTemplates,
    }
}

/// The index, in its section, of the spec that a run in phase `ph` works on.
pub open spec fn phase_index(ph: Phase) -> usize {
    match ph {
        Phase::Configuring { index } => index,
        Phase::Submitting { index } => index,
        Phase::Polling { index, .. } => index,
        Phase::Waiting { index, .. } => index,
        Phase::LookingUp { index } => index,
        Phase::Fetching { index } => index,
        Phase::Binding { index, .. } => index,
        Phase::Resolving { index, .. } => index,
        Phase::ShuttingDown { index, .. } => index,
        Phase::Booting { index, .. } => index,
        Phase::Auditing { index } => index,
        Phase::Done => 0,
        Phase::Failed => 0,
    }
}

/// Whether a configuration of `d` resolves under `tag` to `name`: whether
/// the run creates a configuration of that name.
pub open spec fn creates_configuration(d: Descriptor, tag: Seq<char>, name: Seq<char>) -> bool {
    exists|i: int| 0 <= i < d.configurations.len() && with_tag(#[trigger] d.configurations@[i].name@, tag) == name
}

/// The result of a reply that does not answer the operation last issued.
pub open spec fn refused_reply(
    refs: Map<Seq<char>, Seq<char>>,
    refs2: Map<Seq<char>, Seq<char>>,
    ph2: Phase,
    a: Action,
) -> bool {
    refs2 == refs && ph2 is Failed && a == Action::Fail(PipelineError::UnexpectedReply)
}

/// The result of a failure `e`.
pub open spec fn failed_with(
    refs: Map<Seq<char>, Seq<char>>,
    refs2: Map<Seq<char>, Seq<char>>,
    ph2: Phase,
    a: Action,
    e: PipelineError,
) -> bool {
    refs2 == refs && ph2 is Failed && a == Action::Fail(e)
}

/// The name under which the image of template `t` is looked up.
pub open spec fn template_image_name(t: crate::descriptor::TemplateSpec) -> Seq<char> {
    match t.image {
        TemplateImage::ByName(n) => n@,
        TemplateImage::ByRef(r) => r@,
    }
}

/// One step of a run of `d` under `tag` and `s`: from phase `ph` and
/// reference map `refs`, the reply `r` leads to phase `ph2`, map `refs2`
/// and the next operation `a`.
pub open spec fn stepped(
    d: Descriptor,
    tag: Seq<char>,
    s: Settings,
    ph: Phase,
    refs: Map<Seq<char>, Seq<char>>,
    r: Reply,
    ph2: Phase,
    refs2: Map<Seq<char>, Seq<char>>,
    a: Action,
) -> bool {
    match r {
        Reply::Rejected { detail } => failed_with(
            refs,
            refs2,
            ph2,
            a,
            PipelineError::Remote { section: phase_section(ph), index: phase_index(ph), detail },
        ),
        _ => match ph {
            Phase::Configuring { index } => if r is Done {
                entered_configurations(d, tag, index + 1, refs, refs2, ph2, a)
            } else {
                refused_reply(refs, refs2, ph2, a)
            },
            Phase::Submitting { index } => match r {
                Reply::JobSubmitted { job } => refs2 == refs && ph2 == (Phase::Polling {
                    index,
                    job,
                    poller: s.watch,
                }) && a == (Action::FetchJobStatus { job }),
                _ => refused_reply(refs, refs2, ph2, a),
            },
            Phase::Polling { index, job, poller } => match r {
                Reply::Status { state, result_id } => match poll_step(poller, state).1 {
                    PollDecision::Succeeded => entered_images(
                        d,
                        tag,
                        index + 1,
                        bind_ref(refs, d.images@[index as int].ref_name, tag, result_id@),
                        refs2,
                        ph2,
                        a,
                    ),
                    PollDecision::Failed => failed_with(refs, refs2, ph2, a, PipelineError::BuildFailed { index, job }),
                    PollDecision::TimedOut => failed_with(refs, refs2, ph2, a, PipelineError::Timeout { index, job }),
                    PollDecision::Wait { seconds } => refs2 == refs && ph2 == (Phase::Waiting {
                        index,
                        job,
                        poller: poll_step(poller, state).0,
                    }) && a == (Action::Sleep { seconds }),
                },
                _ => refused_reply(refs, refs2, ph2, a),
            },
            Phase::Waiting { index, job, poller } => if r is Done {
                refs2 == refs && ph2 == (Phase::Polling { index, job, poller }) && a == (Action::FetchJobStatus { job })
            } else {
                refused_reply(refs, refs2, ph2, a)
            },
            Phase::LookingUp { index } => match r {
                Reply::Image { found: Some(image) } => entered_images(
                    d,
                    tag,
                    index + 1,
                    bind_ref(refs, d.images@[index as int].ref_name, tag, image.id@),
                    refs2,
                    ph2,
                    a,
                ),
                Reply::Image { found: None } => refs2 == refs && ph2 is Failed && (a matches Action::Fail(
                    PipelineError::NotFound { section, index: i2, name },
                ) && section == Section::Images && i2 == index && (d.images@[index as int].source matches ImageSource::ByName {
                    name: n,
                } && name@ == with_tag(n@, tag))),
                _ => refused_reply(refs, refs2, ph2, a),
            },
            Phase::Fetching { index } => match r {
                Reply::Image { found: Some(image) } => if !creates_configuration(
                    d,
                    tag,
                    with_tag(d.templates@[index as int].configuration@, tag),
                ) {
                    refs2 == refs && ph2 is Failed && (a matches Action::Fail(
                        PipelineError::NotFound { section, index: i2, name },
                    ) && section == Section::SessionTemplates && i2 == index && name@ == with_tag(
                        d.templates@[index as int].configuration@,
                        tag,
                    ))
                } else {
                    match chosen_group(d.templates@[index as int].node_groups@, s.override_group) {
                        Some(g) => refs2 == refs && ph2 == (Phase::Binding { index, node_group: g }) && (a matches Action::UpsertTemplate {
                            index: i2,
                            name,
                            configuration,
                            image: image2,
                            node_group,
                        } && i2 == index && name@ == with_tag(d.templates@[index as int].name@, tag)
                            && configuration@ == with_tag(d.templates@[index as int].configuration@, tag)
                            && image2 == image && node_group == g),
                        None => failed_with(refs, refs2, ph2, a, PipelineError::MissingNodeGroup { index }),
                    }
                },
                Reply::Image { found: None } => refs2 == refs && ph2 is Failed && (a matches Action::Fail(
                    PipelineError::NotFound { section, index: i2, name },
                ) && section == Section::SessionTemplates && i2 == index && name@ == with_tag(
                    template_image_name(d.templates@[index as int]),
                    tag,
                )),
                _ => refused_reply(refs, refs2, ph2, a),
            },
            Phase::Binding { index, node_group } => if r is Done {
                refs2 == refs && if s.rollout {
                    ph2 == (Phase::Resolving { index, node_group }) && a == (Action::ResolveNodes { node_group })
                } else {
                    ph2 == (Phase::Auditing { index }) && (a matches Action::Audit { index: i2, template } && i2
                        == index && template@ == with_tag(d.templates@[index as int].name@, tag))
                }
            } else {
                refused_reply(refs, refs2, ph2, a)
            },
            Phase::Resolving { index, .. } => match r {
                Reply::Nodes { nodes } => refs2 == refs && ph2 == (Phase::ShuttingDown { index, nodes }) && (a matches Action::Shutdown {
                    nodes: n2,
                } && n2@ == nodes@),
                _ => refused_reply(refs, refs2, ph2, a),
            },
            Phase::ShuttingDown { index, nodes } => if r is Done {
                refs2 == refs && ph2 == (Phase::Booting { index, nodes }) && (a matches Action::Boot {
                    template,
                    nodes: n2,
                } && template@ == with_tag(d.templates@[index as int].name@, tag) && n2@ == nodes@)
            } else {
                refused_reply(refs, refs2, ph2, a)
            },
            Phase::Booting { index, .. } => if r is Done {
                refs2 == refs && ph2 == (Phase::Auditing { index }) && (a matches Action::Audit { index: i2, template }
                    && i2 == index && template@ == with_tag(d.templates@[index as int].name@, tag))
            } else {
                refused_reply(refs, refs2, ph2, a)
            },
            Phase::Auditing { index } => if r is Done {
                refs2 == refs && entered_templates(d, tag, index + 1, refs, ph2, a)
            } else {
                refused_reply(refs, refs2, ph2, a)
            },
            Phase::Done => false,
            Phase::Failed => false,
        },
    }
}

/// Whether template `k` is the first that targets no node group under
/// `override_group`.
pub open spec fn first_without_group(d: Descriptor, override_group: Option<String>, k: int) -> bool {
    0 <= k < d.templates.len() && chosen_group(d.templates@[k].node_groups@, override_group) is None && forall|m: int|
        0 <= m < k ==> #[trigger] chosen_group(d.templates@[m].node_groups@, override_group) is Some
}

/// Whether every template targets a node group under `override_group`.
pub open spec fn all_grouped(d: Descriptor, override_group: Option<String>) -> bool {
    forall|k: int| 0 <= k < d.templates.len() ==> #[trigger] chosen_group(d.templates@[k].node_groups@, override_group) is Some
}

impl Pipeline {
    #[verifier::type_invariant]
    spec fn inv(self) -> bool {
        self.well_formed()
    }

    /// The reference map is well formed and the phase fits the descriptor.
    pub open spec fn well_formed(self) -> bool {
        self.run_context().refs.well_formed() && phase_fits(self.run_descriptor(), self.run_settings(), self.run_phase())
    }

    /// The descriptor that the run follows.
    pub closed spec fn run_descriptor(self) -> Descriptor {
        self.descriptor
    }

    /// The context that the run threads through its stages.
    pub closed spec fn run_context(self) -> RunContext {
        self.context
    }

    /// The phase that the run is in.
    pub closed spec fn run_phase(self) -> Phase {
        self.phase
    }

    /// The caller's choices for the run.
    pub closed spec fn run_settings(self) -> Settings {
        self.settings
    }

    /// Whether the run has finished or failed.
    pub open spec fn over(self) -> bool {
        self.run_phase() is Done || self.run_phase() is Failed
    }

    /// Whether `n` runs the same descriptor, in the same context and with
    /// the same settings, as `self`.
    pub open spec fn same_run(self, n: Pipeline) -> bool {
        n.run_descriptor() == self.run_descriptor() && n.run_context().tag == self.run_context().tag && n.run_context().authorized
            == self.run_context().authorized && n.run_settings() == self.run_settings()
    }

    /// The run `p`, shown reply `r`, becomes `n` and issues `a`.
    pub open spec fn transition(p: Pipeline, r: Reply, n: Pipeline, a: Action) -> bool {
        p.same_run(n) && stepped(
            p.run_descriptor(),
            p.run_context().tag@,
            p.run_settings(),
            p.run_phase(),
            p.run_context().refs@,
            r,
            n.run_phase(),
            n.run_context().refs@,
            a,
        )
    }

    /// A run of `d` under `tag`, for a caller authorized for `authorized`,
    /// begins as `n` and issues `a`: the authorization check, the reference
    /// check, the check that configuration names are unique and the
    /// node-group check run, in that order, before anything is issued, and
    /// the first configuration comes after them.
    pub open spec fn started(
        d: Descriptor,
        tag: String,
        authorized: Vec<String>,
        s: Settings,
        n: Pipeline,
        a: Action,
    ) -> bool {
        &&& n.run_descriptor() == d && n.run_context().tag == tag && n.run_context().authorized == authorized && n.run_settings() == s
        &&& if !authorized_for(d, authorized@) {
            n.run_phase() is Failed && (a matches Action::Fail(PipelineError::Authorization(e)) && first_refused_scope(
                d,
                authorized@,
                e,
            ))
        } else if !references_resolved(d, tag@) {
            n.run_phase() is Failed && (a matches Action::Fail(
                PipelineError::UnresolvedReference { section, index, ref_name },
            ) && first_unresolved(d, tag@, UnresolvedReference { section, index, ref_name }))
        } else if !configuration_names_unique(d, tag@) {
            n.run_phase() is Failed && (a matches Action::Fail(PipelineError::DuplicateConfiguration { index, name })
                && index < d.configurations.len() && configuration_repeats(d, tag@, index as int) && (forall|j: int|
                0 <= j < index ==> !#[trigger] configuration_repeats(d, tag@, j)) && name@ == with_tag(
                d.configurations@[index as int].name@,
                tag@,
            ))
        } else if !all_grouped(d, s.override_group) {
            n.run_phase() is Failed && (a matches Action::Fail(PipelineError::MissingNodeGroup { index })
                && first_without_group(d, s.override_group, index as int))
        } else {
            entered_configurations(d, tag@, 0, Map::empty(), n.run_context().refs@, n.run_phase(), a)
        }
    }

    /// Begins a run: checks the descriptor and issues the first operation.
    pub fn start(descriptor: Descriptor, tag: String, authorized: Vec<String>, settings: Settings) -> (r: (
        Pipeline,
        Action,
    ))
        ensures
            Pipeline::started(descriptor, tag, authorized, settings, r.0, r.1),
    {
        let mut refs = ImageRefMap::new();
        let checked = check_authorization(&descriptor, &authorized);
        let (phase, action) = match checked {
            Err(e) => (Phase::Failed, Action::Fail(PipelineError::Authorization(e))),
            Ok(()) => match check_references(&descriptor, &tag) {
                Err(e) => (
                    Phase::Failed,
                    Action::Fail(
                        PipelineError::UnresolvedReference {
                            section: e.section,
                            index: e.index,
                            ref_name: e.ref_name,
                        },
                    ),
                ),
                Ok(()) => match first_repeated_configuration(&descriptor, &tag) {
                    Some(i) => {
                        let name = resolve_name(descriptor.configurations[i].name.as_str(), tag.as_str());
                        (Phase::Failed, Action::Fail(PipelineError::DuplicateConfiguration { index: i, name }))
                    },
                    None => match first_ungrouped(&descriptor, &settings.override_group) {
                        Some(k) => (Phase::Failed, Action::Fail(PipelineError::MissingNodeGroup { index: k })),
                        None => enter_configurations(&descriptor, &tag, &mut refs, &settings, 0),
                    },
                },
            },
        };
        let context = RunContext { tag, authorized, refs };
        (Pipeline { descriptor, context, settings, phase }, action)
    }

    /// Whether the run has finished or failed; no operation follows then.
    pub fn is_over(&self) -> (r: bool)
        ensures
            r == self.over(),
    {
        match self.phase {
            Phase::Done => true,
            Phase::Failed => true,
            _ => false,
        }
    }

    /// Takes in the reply to the operation last issued and issues the next.
    pub fn step(self, reply: Reply) -> (r: (Pipeline, Action))
        requires
            !self.over(),
        ensures
            Pipeline::transition(self, reply, r.0, r.1),
    {
        proof {
            use_type_invariant(&self);
        }
        let Pipeline { descriptor, mut context, settings, phase } = self;
        let (phase, action) = advance(&descriptor, &context.tag, &settings, phase, &mut context.refs, reply);
        (Pipeline { descriptor, context, settings, phase }, action)
    }

    /// The descriptor of this run.
    pub fn descriptor(&self) -> (r: &Descriptor)
        ensures
            *r == self.run_descriptor(),
    {
        &self.descriptor
    }

    /// The context of this run.
    pub fn context(&self) -> (r: &RunContext)
        ensures
            *r == self.run_context(),
    {
        &self.context
    }
}

fn first_ungrouped(d: &Descriptor, override_group: &Option<String>) -> (r: Option<usize>)
    ensures
        r is None <==> all_grouped(*d, *override_group),
        r matches Some(k) ==> first_without_group(*d, *override_group, k as int),
{
    let mut k: usize = 0;
    while k < d.templates.len()
        invariant
            k <= d.templates.len(),
            forall|m: int| 0 <= m < k ==> #[trigger] chosen_group(d.templates@[m].node_groups@, *override_group) is Some,
        decreases d.templates.len() - k,
    {
        if effective_node_group(&d.templates[k].node_groups, override_group).is_none() {
            return Some(k);
        }
        k = k + 1;
    }
    None
}

fn advance(
    d: &Descriptor,
    tag: &String,
    s: &Settings,
    phase: Phase,
    refs: &mut ImageRefMap,
    reply: Reply,
) -> (r: (Phase, Action))
    requires
        old(refs).well_formed(),
        phase_fits(*d, *s, phase),
        !(phase is Done || phase is Failed),
    ensures
        final(refs).well_formed(),
        phase_fits(*d, *s, r.0),
        stepped(*d, tag@, *s, phase, old(refs)@, reply, r.0, final(refs)@, r.1),
{
    let reply = match reply {
        Reply::Rejected { detail } => {
            let (section, index) = phase_place(&phase);
            return (Phase::Failed, Action::Fail(PipelineError::Remote { section, index, detail }));
        },
        other => other,
    };
    match phase {
        Phase::Configuring { index } => match reply {
            Reply::Done => enter_configurations(d, tag, refs, s, index + 1),
            _ => unexpected(),
        },
        Phase::Submitting { index } => match reply {
            Reply::JobSubmitted { job } => {
                let again = job.clone();
                (Phase::Polling { index, job, poller: s.watch }, Action::FetchJobStatus { job: again })
            },
            _ => unexpected(),
        },
        Phase::Polling { index, job, poller } => match reply {
            Reply::Status { state, result_id } => {
                let mut watch = poller;
                match watch.observe(state) {
                    PollDecision::Succeeded => {
                        bind(refs, &d.images[index].ref_name, tag, &result_id);
                        enter_images(d, tag, refs, s, index + 1)
                    },
                    PollDecision::Failed => (Phase::Failed, Action::Fail(PipelineError::BuildFailed { index, job })),
                    PollDecision::TimedOut => (Phase::Failed, Action::Fail(PipelineError::Timeout { index, job })),
                    PollDecision::Wait { seconds } => (
                        Phase::Waiting { index, job, poller: watch },
                        Action::Sleep { seconds },
                    ),
                }
            },
            _ => unexpected(),
        },
        Phase::Waiting { index, job, poller } => match reply {
            Reply::Done => {
                let again = job.clone();
                (Phase::Polling { index, job, poller }, Action::FetchJobStatus { job: again })
            },
            _ => unexpected(),
        },
        Phase::LookingUp { index } => match reply {
            Reply::Image { found: Some(image) } => {
                bind(refs, &d.images[index].ref_name, tag, &image.id);
                enter_images(d, tag, refs, s, index + 1)
            },
            Reply::Image { found: None } => {
                let name = match &d.images[index].source {
                    ImageSource::ByName { name } => resolve_name(name.as_str(), tag.as_str()),
                    _ => String::new(),
                };
                (Phase::Failed, Action::Fail(PipelineError::NotFound { section: Section::Images, index, name }))
            },
            _ => unexpected(),
        },
        Phase::Fetching { index } => {
            let t = &d.templates[index];
            match reply {
                Reply::Image { found: Some(image) } => {
                    let configuration = resolve_name(t.configuration.as_str(), tag.as_str());
                    if !creates(d, tag, &configuration) {
                        (
                            Phase::Failed,
                            Action::Fail(
                                PipelineError::NotFound {
                                    section: Section::SessionTemplates,
                                    index,
                                    name: configuration,
                                },
                            ),
                        )
                    } else {
                        match effective_node_group(&t.node_groups, &s.override_group) {
                            Some(g) => {
                                let node_group = g.clone();
                                (
                                    Phase::Binding { index, node_group: g },
                                    Action::UpsertTemplate {
                                        index,
                                        name: resolve_name(t.name.as_str(), tag.as_str()),
                                        configuration,
                                        image,
                                        node_group,
                                    },
                                )
                            },
                            None => (Phase::Failed, Action::Fail(PipelineError::MissingNodeGroup { index })),
                        }
                    }
                },
                Reply::Image { found: None } => {
                    let raw = match &t.image {
                        TemplateImage::ByName(n) => n,
                        TemplateImage::ByRef(r) => r,
                    };
                    (
                        Phase::Failed,
                        Action::Fail(
                            PipelineError::NotFound {
                                section: Section::SessionTemplates,
                                index,
                                name: resolve_name(raw.as_str(), tag.as_str()),
                            },
                        ),
                    )
                },
                _ => unexpected(),
            }
        },
        Phase::Binding { index, node_group } => match reply {
            Reply::Done => {
                if s.rollout {
                    let again = node_group.clone();
                    (Phase::Resolving { index, node_group }, Action::ResolveNodes { node_group: again })
                } else {
                    (
                        Phase::Auditing { index },
                        Action::Audit {
                            index,
                            template: resolve_name(d.templates[index].name.as_str(), tag.as_str()),
                        },
                    )
                }
            },
            _ => unexpected(),
        },
        Phase::Resolving { index, .. } => match reply {
            Reply::Nodes { nodes } => {
                let copy = crate::authz::copy_strings(&nodes);
                (Phase::ShuttingDown { index, nodes }, Action::Shutdown { nodes: copy })
            },
            _ => unexpected(),
        },
        Phase::ShuttingDown { index, nodes } => match reply {
            Reply::Done => {
                let copy = crate::authz::copy_strings(&nodes);
                let template = resolve_name(d.templates[index].name.as_str(), tag.as_str());
                (Phase::Booting { index, nodes }, Action::Boot { template, nodes: copy })
            },
            _ => unexpected(),
        },
        Phase::Booting { index, .. } => match reply {
            Reply::Done => (
                Phase::Auditing { index },
                Action::Audit { index, template: resolve_name(d.templates[index].name.as_str(), tag.as_str()) },
            ),
            _ => unexpected(),
        },
        Phase::Auditing { index } => match reply {
            Reply::Done => enter_templates(d, tag, refs, s, index + 1),
            _ => unexpected(),
        },
        Phase::Done => (Phase::Failed, Action::Fail(PipelineError::UnexpectedReply)),
        Phase::Failed => (Phase::Failed, Action::Fail(PipelineError::UnexpectedReply)),
    }
}

/// Whether `a` is an operation issued on entering a spec: a build, an image
/// lookup, the end of the run or a failure.
pub open spec fn entry_action(a: Action) -> bool {
    a is SubmitBuild || a is FindImage || a is GetImage || a is Finish || a is Fail
}

proof fn lemma_entered_templates_action(d: Descriptor, tag: Seq<char>, k: int, refs: Map<Seq<char>, Seq<char>>, ph: Phase, a: Action)
    requires
        entered_templates(d, tag, k, refs, ph, a),
    ensures
        entry_action(a),
{
}

proof fn lemma_entered_images_action(
    d: Descriptor,
    tag: Seq<char>,
    j: int,
    refs_in: Map<Seq<char>, Seq<char>>,
    refs_out: Map<Seq<char>, Seq<char>>,
    ph: Phase,
    a: Action,
)
    requires
        entered_images(d, tag, j, refs_in, refs_out, ph, a),
    ensures
        entry_action(a),
    decreases d.images.len() - j,
{
    if j >= d.images.len() {
        lemma_entered_templates_action(d, tag, 0, refs_in, ph, a);
    } else {
        match d.images@[j].source {
            ImageSource::ByRef { ref_name: r } => if refs_in.contains_key(with_tag(r@, tag)) {
                lemma_entered_images_action(
                    d,
                    tag,
                    j + 1,
                    bind_ref(refs_in, d.images@[j].ref_name, tag, refs_in[with_tag(r@, tag)]),
                    refs_out,
                    ph,
                    a,
                );
            },
            _ => {},
        }
    }
}

/// Whether the names in `a`, if it upserts, are those that `d` gives under
/// `tag` to the spec it upserts.
pub open spec fn names_follow(d: Descriptor, tag: Seq<char>, a: Action) -> bool {
    match a {
        Action::UpsertConfiguration { index, name } => name@ == with_tag(d.configurations@[index as int].name@, tag),
        Action::UpsertTemplate { index, name, configuration, .. } => name@ == with_tag(d.templates@[index as int].name@, tag)
            && configuration@ == with_tag(d.templates@[index as int].configuration@, tag),
        _ => true,
    }
}

proof fn lemma_step_shape(p: Pipeline, r: Reply, n: Pipeline, a: Action)
    requires
        Pipeline::transition(p, r, n, a),
    ensures
        names_follow(p.descriptor, p.context.tag@, a),
        a is Shutdown ==> p.phase is Resolving,
        a is Boot ==> p.phase is ShuttingDown,
        a is ResolveNodes ==> p.phase is Binding,
        a is UpsertTemplate ==> p.phase is Fetching,
        n.phase is ShuttingDown ==> p.phase is Resolving,
{
    let d = p.descriptor;
    let tag = p.context.tag@;
    let refs = p.context.refs@;
    let refs2 = n.context.refs@;
    if !(r is Rejected) {
        match p.phase {
            Phase::Configuring { index } => if r is Done && index + 1 >= d.configurations.len() {
                lemma_entered_images_action(d, tag, 0, refs, refs2, n.phase, a);
                lemma_entered_images_phase(d, tag, 0, refs, refs2, n.phase, a);
            },
            Phase::Polling { index, job, poller } => match r {
                Reply::Status { state, result_id } => if poll_step(poller, state).1 is Succeeded {
                    let b = bind_ref(refs, d.images@[index as int].ref_name, tag, result_id@);
                    lemma_entered_images_action(d, tag, index + 1, b, refs2, n.phase, a);
                    lemma_entered_images_phase(d, tag, index + 1, b, refs2, n.phase, a);
                },
                _ => {},
            },
            Phase::LookingUp { index } => match r {
                Reply::Image { found: Some(image) } => {
                    let b = bind_ref(refs, d.images@[index as int].ref_name, tag, image.id@);
                    lemma_entered_images_action(d, tag, index + 1, b, refs2, n.phase, a);
                    lemma_entered_images_phase(d, tag, index + 1, b, refs2, n.phase, a);
                },
                _ => {},
            },
            Phase::Auditing { index } => if r is Done {
                lemma_entered_templates_action(d, tag, index + 1, refs, n.phase, a);
            },
            _ => {},
        }
    }
}

/// Running the same descriptor under the same tag twice upserts each
/// configuration and each session template under the same names both times,
/// whatever the back-ends replied on the way.
pub proof fn lemma_rerun_upserts_same_names(
    p1: Pipeline,
    r1: Reply,
    n1: Pipeline,
    a1: Action,
    p2: Pipeline,
    r2: Reply,
    n2: Pipeline,
    a2: Action,
)
    requires
        Pipeline::transition(p1, r1, n1, a1),
        Pipeline::transition(p2, r2, n2, a2),
        p1.run_descriptor() == p2.run_descriptor(),
        p1.run_context().tag@ == p2.run_context().tag@,
    ensures
        match (a1, a2) {
            (
                Action::UpsertConfiguration { index: i1, name: x1 },
                Action::UpsertConfiguration { index: i2, name: x2 },
            ) => i1 == i2 ==> x1@ == x2@,
            (
                Action::UpsertTemplate { index: i1, name: x1, configuration: c1, .. },
                Action::UpsertTemplate { index: i2, name: x2, configuration: c2, .. },
            ) => i1 == i2 ==> x1@ == x2@ && c1@ == c2@,
            _ => true,
        },
{
    lemma_step_shape(p1, r1, n1, a1);
    lemma_step_shape(p2, r2, n2, a2);
}

/// Two runs of the same descriptor under the same tag begin by upserting the
/// same configuration under the same name.
pub proof fn lemma_rerun_starts_with_same_name(
    d: Descriptor,
    tag1: String,
    tag2: String,
    authorized1: Vec<String>,
    authorized2: Vec<String>,
    s1: Settings,
    s2: Settings,
    n1: Pipeline,
    a1: Action,
    n2: Pipeline,
    a2: Action,
)
    requires
        Pipeline::started(d, tag1, authorized1, s1, n1, a1),
        Pipeline::started(d, tag2, authorized2, s2, n2, a2),
        tag1@ == tag2@,
    ensures
        match (a1, a2) {
            (
                Action::UpsertConfiguration { index: i1, name: x1 },
                Action::UpsertConfiguration { index: i2, name: x2 },
            ) => i1 == 0 && i2 == 0 && x1@ == x2@,
            _ => true,
        },
{
    if a1 is UpsertConfiguration && d.configurations.len() == 0 {
        lemma_entered_images_action(d, tag1@, 0, Map::empty(), n1.context.refs@, n1.phase, a1);
    }
    if a2 is UpsertConfiguration && d.configurations.len() == 0 {
        lemma_entered_images_action(d, tag2@, 0, Map::empty(), n2.context.refs@, n2.phase, a2);
    }
}

/// A caller not authorized for a scope that the descriptor targets gets an
/// authorization failure at the start, and the run is over before any
/// configuration, image or session template is touched.
pub proof fn lemma_unauthorized_run_changes_nothing(
    d: Descriptor,
    tag: String,
    authorized: Vec<String>,
    s: Settings,
    n: Pipeline,
    a: Action,
)
    requires
        Pipeline::started(d, tag, authorized, s, n, a),
        !authorized_for(d, authorized@),
    ensures
        n.over(),
        a matches Action::Fail(PipelineError::Authorization(e)) && first_refused_scope(d, authorized@, e),
{
}

/// An authorized descriptor in which a spec reads a reference name that no
/// earlier image spec binds fails at the start, naming the first such reader,
/// and the run is over before any remote call.
pub proof fn lemma_unresolved_reference_changes_nothing(
    d: Descriptor,
    tag: String,
    authorized: Vec<String>,
    s: Settings,
    n: Pipeline,
    a: Action,
)
    requires
        Pipeline::started(d, tag, authorized, s, n, a),
        authorized_for(d, authorized@),
        !references_resolved(d, tag@),
    ensures
        n.over(),
        a matches Action::Fail(PipelineError::UnresolvedReference { section, index, ref_name })
            && first_unresolved(d, tag@, UnresolvedReference { section, index, ref_name }),
{
}

/// A boot is issued only right after the shutdown of the same node set was
/// acknowledged, and the shutdown is the only way into that wait.
pub proof fn lemma_boot_follows_shutdown(p: Pipeline, r: Reply, n: Pipeline, a: Action)
    requires
        Pipeline::transition(p, r, n, a),
    ensures
        match a {
            Action::Boot { nodes, .. } => r is Done && (p.run_phase() matches Phase::ShuttingDown { nodes: shut, .. }
                && shut@ == nodes@),
            _ => true,
        },
        match n.run_phase() {
            Phase::ShuttingDown { nodes, .. } => a matches Action::Shutdown { nodes: shut } && shut@ == nodes@,
            _ => true,
        },
{
    lemma_step_shape(p, r, n, a);
}

proof fn lemma_entered_images_phase(
    d: Descriptor,
    tag: Seq<char>,
    j: int,
    refs_in: Map<Seq<char>, Seq<char>>,
    refs_out: Map<Seq<char>, Seq<char>>,
    ph: Phase,
    a: Action,
)
    requires
        entered_images(d, tag, j, refs_in, refs_out, ph, a),
    ensures
        ph is Submitting || ph is LookingUp || ph is Fetching || ph is Done || ph is Failed,
    decreases d.images.len() - j,
{
    if 0 <= j < d.images.len() {
        match d.images@[j].source {
            ImageSource::ByRef { ref_name: r } => if refs_in.contains_key(with_tag(r@, tag)) {
                lemma_entered_images_phase(
                    d,
                    tag,
                    j + 1,
                    bind_ref(refs_in, d.images@[j].ref_name, tag, refs_in[with_tag(r@, tag)]),
                    refs_out,
                    ph,
                    a,
                );
            },
            _ => {},
        }
    }
}

/// With rollout turned off by the caller, no step of a run ever issues a
/// shutdown or a boot.
pub proof fn lemma_no_power_calls_without_rollout(p: Pipeline, r: Reply, n: Pipeline, a: Action)
    requires
        p.well_formed(),
        !p.run_settings().rollout,
        Pipeline::transition(p, r, n, a),
    ensures
        !(a is ResolveNodes),
        !(a is Shutdown),
        !(a is Boot),
{
    lemma_step_shape(p, r, n, a);
}

/// A run of a descriptor without session templates, such as one made by
/// `images_only`, never upserts a session template nor resolves, shuts down
/// or boots nodes.
pub proof fn lemma_images_only_step_binds_nothing(p: Pipeline, r: Reply, n: Pipeline, a: Action)
    requires
        p.well_formed(),
        p.run_descriptor().templates.len() == 0,
        Pipeline::transition(p, r, n, a),
    ensures
        !(a is UpsertTemplate),
        !(a is ResolveNodes),
        !(a is Shutdown),
        !(a is Boot),
{
    lemma_step_shape(p, r, n, a);
}

proof fn lemma_start_shape(d: Descriptor, tag: String, authorized: Vec<String>, s: Settings, n: Pipeline, a: Action)
    requires
        Pipeline::started(d, tag, authorized, s, n, a),
    ensures
        entry_action(a) || a is UpsertConfiguration,
        n.phase is Configuring || n.phase is Submitting || n.phase is LookingUp || n.phase is Fetching
            || n.phase is Done || n.phase is Failed,
{
    if authorized_for(d, authorized@) && references_resolved(d, tag@) && configuration_names_unique(d, tag@)
        && all_grouped(d, s.override_group) && d.configurations.len() == 0 {
        lemma_entered_images_action(d, tag@, 0, Map::empty(), n.context.refs@, n.phase, a);
        lemma_entered_images_phase(d, tag@, 0, Map::empty(), n.context.refs@, n.phase, a);
    }
}

/// Whether `runs` and `actions` are a run of the pipeline from its start:
/// `runs[0]` and `actions[0]` are what `start` gave for `d`, `tag`,
/// `authorized` and `s`, and each later state and action is what `step`
/// gave for the reply before it. Every state of a run is well formed.
pub open spec fn is_run(
    d: Descriptor,
    tag: String,
    authorized: Vec<String>,
    s: Settings,
    runs: Seq<Pipeline>,
    replies: Seq<Reply>,
    actions: Seq<Action>,
) -> bool {
    &&& runs.len() > 0
    &&& runs.len() == actions.len()
    &&& replies.len() + 1 == runs.len()
    &&& Pipeline::started(d, tag, authorized, s, runs[0], actions[0])
    &&& forall|i: int| 0 <= i < runs.len() ==> (#[trigger] runs[i]).well_formed()
    &&& forall|i: int|
        0 <= i < replies.len() ==> Pipeline::transition(#[trigger] runs[i], replies[i], runs[i + 1], actions[i + 1])
}

proof fn lemma_run_action(
    d: Descriptor,
    tag: String,
    authorized: Vec<String>,
    s: Settings,
    runs: Seq<Pipeline>,
    replies: Seq<Reply>,
    actions: Seq<Action>,
    i: int,
)
    requires
        is_run(d, tag, authorized, s, runs, replies, actions),
        0 <= i < actions.len(),
    ensures
        names_follow(d, tag@, actions[i]),
        actions[i] is Boot ==> i > 0 && runs[i - 1].phase is ShuttingDown,
        actions[i] is Shutdown ==> i > 0 && runs[i - 1].phase is Resolving,
        actions[i] is ResolveNodes ==> i > 0 && runs[i - 1].phase is Binding,
        actions[i] is UpsertTemplate ==> i > 0 && runs[i - 1].phase is Fetching,
        runs[i].phase is ShuttingDown ==> i > 0 && (actions[i] matches Action::Shutdown { nodes }
            && runs[i].phase->ShuttingDown_nodes@ == nodes@),
        runs[i].descriptor == d && runs[i].context.tag == tag && runs[i].settings == s,
    decreases i,
{
    if i == 0 {
        lemma_start_shape(d, tag, authorized, s, runs[0], actions[0]);
    } else {
        lemma_run_action(d, tag, authorized, s, runs, replies, actions, i - 1);
        assert(Pipeline::transition(runs[i - 1], replies[i - 1], runs[i], actions[i]));
        lemma_step_shape(runs[i - 1], replies[i - 1], runs[i], actions[i]);
        lemma_boot_follows_shutdown(runs[i - 1], replies[i - 1], runs[i], actions[i]);
    }
}

/// Over two whole runs of the same descriptor under the same tag, every
/// upsert of a configuration, and every upsert of a session template, of a
/// given index carries the same names in both runs, whatever the replies.
pub proof fn lemma_reruns_upsert_same_names(
    d: Descriptor,
    tag: String,
    authorized1: Vec<String>,
    s1: Settings,
    runs1: Seq<Pipeline>,
    replies1: Seq<Reply>,
    actions1: Seq<Action>,
    authorized2: Vec<String>,
    s2: Settings,
    runs2: Seq<Pipeline>,
    replies2: Seq<Reply>,
    actions2: Seq<Action>,
)
    requires
        is_run(d, tag, authorized1, s1, runs1, replies1, actions1),
        is_run(d, tag, authorized2, s2, runs2, replies2, actions2),
    ensures
        forall|i: int, j: int|
            0 <= i < actions1.len() && 0 <= j < actions2.len() ==> match (#[trigger] actions1[i], #[trigger] actions2[j]) {
                (
                    Action::UpsertConfiguration { index: i1, name: x1 },
                    Action::UpsertConfiguration { index: i2, name: x2 },
                ) => i1 == i2 ==> x1@ == x2@,
                (
                    Action::UpsertTemplate { index: i1, name: x1, configuration: c1, .. },
                    Action::UpsertTemplate { index: i2, name: x2, configuration: c2, .. },
                ) => i1 == i2 ==> x1@ == x2@ && c1@ == c2@,
                _ => true,
            },
{
    assert forall|i: int, j: int| 0 <= i < actions1.len() && 0 <= j < actions2.len() implies match (
        #[trigger] actions1[i],
        #[trigger] actions2[j],
    ) {
        (
            Action::UpsertConfiguration { index: i1, name: x1 },
            Action::UpsertConfiguration { index: i2, name: x2 },
        ) => i1 == i2 ==> x1@ == x2@,
        (
            Action::UpsertTemplate { index: i1, name: x1, configuration: c1, .. },
            Action::UpsertTemplate { index: i2, name: x2, configuration: c2, .. },
        ) => i1 == i2 ==> x1@ == x2@ && c1@ == c2@,
        _ => true,
    } by {
        lemma_run_action(d, tag, authorized1, s1, runs1, replies1, actions1, i);
        lemma_run_action(d, tag, authorized2, s2, runs2, replies2, actions2, j);
    }
}

/// A session template whose name holds no placeholder is upserted under
/// that very name in every run, whatever the tag: runs under different tags
/// collide on it.
pub proof fn lemma_untagged_template_name_collides(
    d: Descriptor,
    tag: String,
    authorized: Vec<String>,
    s: Settings,
    runs: Seq<Pipeline>,
    replies: Seq<Reply>,
    actions: Seq<Action>,
    i: int,
)
    requires
        is_run(d, tag, authorized, s, runs, replies, actions),
        0 <= i < actions.len(),
    ensures
        match actions[i] {
            Action::UpsertTemplate { index, name, .. } => !has_placeholder(d.templates@[index as int].name@) ==> name@
                == d.templates@[index as int].name@,
            Action::UpsertConfiguration { index, name } => !has_placeholder(d.configurations@[index as int].name@)
                ==> name@ == d.configurations@[index as int].name@,
            _ => true,
        },
{
    lemma_run_action(d, tag, authorized, s, runs, replies, actions, i);
    match actions[i] {
        Action::UpsertTemplate { index, .. } => if !has_placeholder(d.templates@[index as int].name@) {
            lemma_untagged_name_is_fixed(d.templates@[index as int].name@, tag@, tag@);
        },
        Action::UpsertConfiguration { index, .. } => if !has_placeholder(d.configurations@[index as int].name@) {
            lemma_untagged_name_is_fixed(d.configurations@[index as int].name@, tag@, tag@);
        },
        _ => {},
    }
}

/// Over a whole run, every boot comes right after a shutdown of the same
/// node set; with rollout off, no node set is resolved, shut down or
/// booted; and a descriptor without session templates binds none.
pub proof fn lemma_run_rollout_order(
    d: Descriptor,
    tag: String,
    authorized: Vec<String>,
    s: Settings,
    runs: Seq<Pipeline>,
    replies: Seq<Reply>,
    actions: Seq<Action>,
)
    requires
        is_run(d, tag, authorized, s, runs, replies, actions),
    ensures
        forall|i: int|
            0 <= i < actions.len() ==> match #[trigger] actions[i] {
                Action::Boot { nodes, .. } => i > 0 && (actions[i - 1] matches Action::Shutdown { nodes: shut }
                    && shut@ == nodes@),
                _ => true,
            },
        !s.rollout ==> forall|i: int|
            0 <= i < actions.len() ==> !(#[trigger] actions[i] is ResolveNodes) && !(actions[i] is Shutdown)
                && !(actions[i] is Boot),
        d.templates.len() == 0 ==> forall|i: int|
            0 <= i < actions.len() ==> !(#[trigger] actions[i] is UpsertTemplate) && !(actions[i] is ResolveNodes)
                && !(actions[i] is Shutdown) && !(actions[i] is Boot),
{
    assert forall|i: int| 0 <= i < actions.len() implies match #[trigger] actions[i] {
        Action::Boot { nodes, .. } => i > 0 && (actions[i - 1] matches Action::Shutdown { nodes: shut }
            && shut@ == nodes@),
        _ => true,
    } by {
        lemma_run_action(d, tag, authorized, s, runs, replies, actions, i);
        if actions[i] is Boot {
            lemma_run_action(d, tag, authorized, s, runs, replies, actions, i - 1);
            lemma_boot_follows_shutdown(runs[i - 1], replies[i - 1], runs[i], actions[i]);
        }
    }
    assert forall|i: int| 0 <= i < actions.len() implies (!s.rollout ==> !(#[trigger] actions[i] is ResolveNodes)
        && !(actions[i] is Shutdown) && !(actions[i] is Boot)) && (d.templates.len() == 0 ==> !(
    actions[i] is UpsertTemplate) && !(actions[i] is ResolveNodes) && !(actions[i] is Shutdown) && !(
    actions[i] is Boot)) by {
        lemma_run_action(d, tag, authorized, s, runs, replies, actions, i);
        if i > 0 {
            assert(runs[i - 1].well_formed());
        }
    }
}

fn phase_place(ph: &Phase) -> (r: (Section, usize))
    ensures
        r == (phase_section(*ph), phase_index(*ph)),
{
    match ph {
        Phase::Configuring { index } => (Section::Configurations, *index),
        Phase::Submitting { index } => (Section::Images, *index),
        Phase::Polling { index, .. } => (Section::Images, *index),
        Phase::Waiting { index, .. } => (Section::Images, *index),
        Phase::LookingUp { index } => (Section::Images, *index),
        Phase::Fetching { index } => (Section::SessionTemplates, *index),
        Phase::Binding { index, .. } => (Section::SessionTemplates, *index),
        Phase::Resolving { index, .. } => (Section::SessionTemplates, *index),
        Phase::ShuttingDown { index, .. } => (Section::SessionTemplates, *index),
        Phase::Booting { index, .. } => (Section::SessionTemplates, *index),
        Phase::Auditing { index } => (Section::SessionTemplates, *index),
        Phase::Done => (Section::Configurations, 0),
        Phase::Failed => (Section::Configurations, 0),
    }
}

fn creates(d: &Descriptor, tag: &String, name: &String) -> (r: bool)
    ensures
        r == creates_configuration(*d, tag@, name@),
{
    let mut i: usize = 0;
    while i < d.configurations.len()
        invariant
            i <= d.configurations.len(),
            forall|k: int| 0 <= k < i ==> with_tag(#[trigger] d.configurations@[k].name@, tag@) != name@,
        decreases d.configurations.len() - i,
    {
        if resolve_name(d.configurations[i].name.as_str(), tag.as_str()) == *name {
            return true;
        }
        i = i + 1;
    }
    false
}

fn unexpected() -> (r: (Phase, Action))
    ensures
        r.0 is Failed,
        r.1 == Action::Fail(PipelineError::UnexpectedReply),
{
    (Phase::Failed, Action::Fail(PipelineError::UnexpectedReply))
}

} // verus!
