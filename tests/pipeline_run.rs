use manta_rollout::descriptor::{
    images_only, ConfigurationSpec, Descriptor, ImageSource, ImageSpec, Layer, Section, TemplateImage, TemplateSpec,
};
use manta_rollout::pipeline::{Action, ImageRecord, Pipeline, PipelineError, Reply, Settings};
use manta_rollout::poller::{JobState, Poller};

/// A back-end that answers every operation and records what it was asked.
struct Fake {
    statuses: Vec<JobState>,
    next_status: usize,
    image_exists: bool,
    nodes: Vec<String>,
    refuse_shutdown: bool,
    log: Vec<String>,
    mutations: usize,
    slept: u64,
    next_job: usize,
}

impl Fake {
    fn new() -> Fake {
        Fake {
            statuses: vec![JobState::Succeeded],
            next_status: 0,
            image_exists: true,
            nodes: vec!["x1000c0s0b0n0".to_string(), "x1000c0s0b0n1".to_string()],
            refuse_shutdown: false,
            log: Vec::new(),
            mutations: 0,
            slept: 0,
            next_job: 0,
        }
    }

    fn image(id: &str) -> ImageRecord {
        ImageRecord {
            id: id.to_string(),
            name: format!("image-{}", id),
            etag: "etag".to_string(),
            path: format!("s3://boot-images/{}/boot.json", id),
            kind: "s3".to_string(),
        }
    }

    fn answer(&mut self, action: &Action) -> Reply {
        match action {
            Action::UpsertConfiguration { name, .. } => {
                self.mutations += 1;
                self.log.push(format!("upsert-configuration {}", name));
                Reply::Done
            }
            Action::SubmitBuild { name, .. } => {
                self.mutations += 1;
                self.next_job += 1;
                self.log.push(format!("submit {}", name));
                Reply::JobSubmitted { job: format!("job-{}", self.next_job) }
            }
            Action::FetchJobStatus { job } => {
                let state = if self.next_status < self.statuses.len() {
                    self.statuses[self.next_status]
                } else {
                    *self.statuses.last().unwrap()
                };
                self.next_status += 1;
                self.log.push(format!("status {}", job));
                Reply::Status { state, result_id: format!("built-{}", job) }
            }
            Action::Sleep { seconds } => {
                self.slept += *seconds;
                self.log.push("sleep".to_string());
                Reply::Done
            }
            Action::FindImage { name } => {
                self.log.push(format!("find-image {}", name));
                Reply::Image { found: if self.image_exists { Some(Fake::image(name)) } else { None } }
            }
            Action::GetImage { id } => {
                self.log.push(format!("get-image {}", id));
                Reply::Image { found: Some(Fake::image(id)) }
            }
            Action::UpsertTemplate { name, image, node_group, .. } => {
                self.mutations += 1;
                self.log.push(format!("upsert-template {} {} {}", name, image.id, node_group));
                Reply::Done
            }
            Action::ResolveNodes { node_group } => {
                self.log.push(format!("resolve {}", node_group));
                Reply::Nodes { nodes: self.nodes.clone() }
            }
            Action::Shutdown { nodes } => {
                self.mutations += 1;
                self.log.push(format!("shutdown {}", nodes.join(",")));
                if self.refuse_shutdown {
                    Reply::Rejected { detail: "power off refused".to_string() }
                } else {
                    Reply::Done
                }
            }
            Action::Boot { template, nodes } => {
                self.mutations += 1;
                self.log.push(format!("boot {} {}", template, nodes.join(",")));
                Reply::Done
            }
            Action::Audit { template, .. } => {
                self.log.push(format!("audit {}", template));
                Reply::Done
            }
            Action::Finish | Action::Fail(_) => Reply::Done,
        }
    }
}

/// Runs a pipeline against `fake` until it is over; returns the last action.
fn drive(start: (Pipeline, Action), fake: &mut Fake) -> Action {
    let (mut pipeline, mut action) = start;
    while !pipeline.is_over() {
        let reply = fake.answer(&action);
        let (next, next_action) = pipeline.step(reply);
        pipeline = next;
        action = next_action;
    }
    action
}

fn settings(rollout: bool) -> Settings {
    Settings { override_group: None, rollout, watch: Poller::new(10, 2) }
}

fn layer() -> Layer {
    Layer {
        name: Some("base".to_string()),
        source: "https://git.example/cray/csm-config.git".to_string(),
        commit: None,
        branch: Some("main".to_string()),
        playbook: "site.yml".to_string(),
    }
}

fn build(name: &str, ref_name: Option<&str>) -> ImageSpec {
    ImageSpec {
        name: name.to_string(),
        source: ImageSource::Build { configuration: "cfg-__DATE__".to_string(), base: "base-image".to_string() },
        ref_name: ref_name.map(|r| r.to_string()),
        groups: vec!["blue".to_string()],
    }
}

fn by_ref(name: &str, ref_name: &str) -> ImageSpec {
    ImageSpec {
        name: name.to_string(),
        source: ImageSource::ByRef { ref_name: ref_name.to_string() },
        ref_name: None,
        groups: vec![],
    }
}

fn template(name: &str, image: TemplateImage, groups: &[&str]) -> TemplateSpec {
    TemplateSpec {
        name: name.to_string(),
        configuration: "cfg-__DATE__".to_string(),
        image,
        node_groups: groups.iter().map(|g| g.to_string()).collect(),
    }
}

fn cluster() -> Descriptor {
    Descriptor {
        configurations: vec![ConfigurationSpec { name: "cfg-__DATE__".to_string(), layers: vec![layer()] }],
        images: vec![build("img-__DATE__", Some("base"))],
        templates: vec![template("tpl-__DATE__", TemplateImage::ByRef("base".to_string()), &["blue"])],
    }
}

fn blue() -> Vec<String> {
    vec!["blue".to_string()]
}

#[test]
fn unresolved_reference_fails_before_any_call() {
    let d = Descriptor {
        configurations: vec![ConfigurationSpec { name: "cfg".to_string(), layers: vec![] }],
        images: vec![build("A", Some("ref1")), by_ref("B", "ref1"), by_ref("C", "ref2")],
        templates: vec![],
    };
    let mut fake = Fake::new();
    let last = drive(Pipeline::start(d, "20240101".to_string(), blue(), settings(true)), &mut fake);
    match last {
        Action::Fail(PipelineError::UnresolvedReference { section, index, ref_name }) => {
            assert_eq!(section, Section::Images);
            assert_eq!(index, 2);
            assert_eq!(ref_name, "ref2");
        }
        other => panic!("unexpected {:?}", other),
    }
    assert!(fake.log.is_empty());
}

#[test]
fn same_descriptor_same_tag_gives_same_names() {
    let mut first = Fake::new();
    let mut second = Fake::new();
    second.next_job = 40;
    let a = drive(Pipeline::start(cluster(), "20240101".to_string(), blue(), settings(true)), &mut first);
    let b = drive(Pipeline::start(cluster(), "20240101".to_string(), blue(), settings(true)), &mut second);
    assert!(matches!(a, Action::Finish));
    assert!(matches!(b, Action::Finish));
    let names = |log: &Vec<String>| -> Vec<String> {
        log.iter()
            .filter(|l| l.starts_with("upsert-configuration") || l.starts_with("upsert-template"))
            .map(|l| l.split(' ').take(2).collect::<Vec<_>>().join(" "))
            .collect()
    };
    assert_eq!(names(&first.log), names(&second.log));
    assert_eq!(
        names(&first.log),
        vec!["upsert-configuration cfg-20240101".to_string(), "upsert-template tpl-20240101".to_string()]
    );
}

#[test]
fn job_succeeds_after_five_waits() {
    let d = Descriptor {
        configurations: vec![],
        images: vec![build("img", None)],
        templates: vec![],
    };
    let mut fake = Fake::new();
    fake.statuses = vec![JobState::Running; 5];
    fake.statuses.push(JobState::Succeeded);
    let last = drive(Pipeline::start(d, "t".to_string(), blue(), settings(false)), &mut fake);
    assert!(matches!(last, Action::Finish));
    assert_eq!(fake.log.iter().filter(|l| *l == "sleep").count(), 5);
    assert_eq!(fake.slept, 10);
    assert_eq!(fake.next_status, 6);
}

#[test]
fn job_always_running_times_out_after_budget() {
    let d = Descriptor {
        configurations: vec![],
        images: vec![build("img", None)],
        templates: vec![],
    };
    let mut fake = Fake::new();
    fake.statuses = vec![JobState::Running];
    let last = drive(Pipeline::start(d, "t".to_string(), blue(), settings(false)), &mut fake);
    match last {
        Action::Fail(PipelineError::Timeout { index, job }) => {
            assert_eq!(index, 0);
            assert_eq!(job, "job-1");
        }
        other => panic!("unexpected {:?}", other),
    }
    assert_eq!(fake.log.iter().filter(|l| *l == "sleep").count(), 9);
    assert_eq!(fake.next_status, 10);
}

#[test]
fn failed_job_is_a_build_failure() {
    let d = Descriptor { configurations: vec![], images: vec![build("img", None)], templates: vec![] };
    let mut fake = Fake::new();
    fake.statuses = vec![JobState::Running, JobState::Failed];
    let last = drive(Pipeline::start(d, "t".to_string(), blue(), settings(false)), &mut fake);
    match last {
        Action::Fail(PipelineError::BuildFailed { index, job }) => {
            assert_eq!(index, 0);
            assert_eq!(job, "job-1");
        }
        other => panic!("unexpected {:?}", other),
    }
}

#[test]
fn unauthorized_node_group_fails_before_mutation() {
    let mut d = cluster();
    d.templates = vec![template("tpl", TemplateImage::ByRef("base".to_string()), &["red"])];
    let mut fake = Fake::new();
    let last = drive(Pipeline::start(d, "t".to_string(), blue(), settings(true)), &mut fake);
    match last {
        Action::Fail(PipelineError::Authorization(e)) => {
            assert_eq!(e.section, Section::SessionTemplates);
            assert_eq!(e.index, 0);
            assert_eq!(e.scope, "red");
            assert_eq!(e.authorized, vec!["blue".to_string()]);
        }
        other => panic!("unexpected {:?}", other),
    }
    assert_eq!(fake.mutations, 0);
    assert!(fake.log.is_empty());
}

#[test]
fn universal_scope_needs_no_authorization() {
    let mut d = cluster();
    d.images[0].groups = vec!["Compute".to_string(), "APPLICATION_UAN".to_string()];
    let mut fake = Fake::new();
    let last = drive(Pipeline::start(d, "t".to_string(), blue(), settings(false)), &mut fake);
    assert!(matches!(last, Action::Finish));
}

#[test]
fn shutdown_comes_before_boot_on_same_nodes() {
    let mut fake = Fake::new();
    let last = drive(Pipeline::start(cluster(), "20240101".to_string(), blue(), settings(true)), &mut fake);
    assert!(matches!(last, Action::Finish));
    let shutdown = fake.log.iter().position(|l| l.starts_with("shutdown")).unwrap();
    let boot = fake.log.iter().position(|l| l.starts_with("boot")).unwrap();
    assert!(shutdown < boot);
    assert_eq!(fake.log[shutdown], "shutdown x1000c0s0b0n0,x1000c0s0b0n1");
    assert_eq!(fake.log[boot], "boot tpl-20240101 x1000c0s0b0n0,x1000c0s0b0n1");
    assert_eq!(fake.log.last().unwrap(), "audit tpl-20240101");
}

#[test]
fn no_power_calls_when_rollout_is_off() {
    let mut fake = Fake::new();
    let last = drive(Pipeline::start(cluster(), "20240101".to_string(), blue(), settings(false)), &mut fake);
    assert!(matches!(last, Action::Finish));
    assert!(!fake.log.iter().any(|l| l.starts_with("shutdown") || l.starts_with("boot") || l.starts_with("resolve")));
    assert_eq!(fake.log.last().unwrap(), "audit tpl-20240101");
}

#[test]
fn refused_shutdown_stops_before_boot() {
    let mut fake = Fake::new();
    fake.refuse_shutdown = true;
    let last = drive(Pipeline::start(cluster(), "t".to_string(), blue(), settings(true)), &mut fake);
    match last {
        Action::Fail(PipelineError::Remote { section, index, detail }) => {
            assert_eq!(section, Section::SessionTemplates);
            assert_eq!(index, 0);
            assert_eq!(detail, "power off refused");
        }
        other => panic!("unexpected {:?}", other),
    }
    assert!(!fake.log.iter().any(|l| l.starts_with("boot") || l.starts_with("audit")));
}

#[test]
fn full_run_issues_operations_in_order() {
    let mut fake = Fake::new();
    let last = drive(Pipeline::start(cluster(), "20240101".to_string(), blue(), settings(true)), &mut fake);
    assert!(matches!(last, Action::Finish));
    assert_eq!(
        fake.log,
        vec![
            "upsert-configuration cfg-20240101",
            "submit img-20240101",
            "status job-1",
            "get-image built-job-1",
            "upsert-template tpl-20240101 built-job-1 blue",
            "resolve blue",
            "shutdown x1000c0s0b0n0,x1000c0s0b0n1",
            "boot tpl-20240101 x1000c0s0b0n0,x1000c0s0b0n1",
            "audit tpl-20240101",
        ]
    );
}

#[test]
fn reference_spec_reuses_built_image_without_call() {
    let mut d = cluster();
    d.images.push(ImageSpec {
        name: "again".to_string(),
        source: ImageSource::ByRef { ref_name: "base".to_string() },
        ref_name: Some("second".to_string()),
        groups: vec![],
    });
    d.templates = vec![template("tpl", TemplateImage::ByRef("second".to_string()), &["blue"])];
    let mut fake = Fake::new();
    let last = drive(Pipeline::start(d, "t".to_string(), blue(), settings(false)), &mut fake);
    assert!(matches!(last, Action::Finish));
    assert_eq!(fake.log.iter().filter(|l| l.starts_with("submit")).count(), 1);
    assert!(fake.log.contains(&"get-image built-job-1".to_string()));
}

#[test]
fn missing_image_by_name_is_not_found() {
    let d = Descriptor {
        configurations: vec![],
        images: vec![ImageSpec {
            name: "lookup".to_string(),
            source: ImageSource::ByName { name: "sles15-__DATE__".to_string() },
            ref_name: None,
            groups: vec![],
        }],
        templates: vec![],
    };
    let mut fake = Fake::new();
    fake.image_exists = false;
    let last = drive(Pipeline::start(d, "x".to_string(), blue(), settings(false)), &mut fake);
    match last {
        Action::Fail(PipelineError::NotFound { section, index, name }) => {
            assert_eq!(section, Section::Images);
            assert_eq!(index, 0);
            assert_eq!(name, "sles15-x");
        }
        other => panic!("unexpected {:?}", other),
    }
}

#[test]
fn configuration_not_created_in_run_is_not_found() {
    let mut d = cluster();
    d.templates[0].configuration = "other-__DATE__".to_string();
    let mut fake = Fake::new();
    let last = drive(Pipeline::start(d, "20240101".to_string(), blue(), settings(true)), &mut fake);
    match last {
        Action::Fail(PipelineError::NotFound { section, index, name }) => {
            assert_eq!(section, Section::SessionTemplates);
            assert_eq!(index, 0);
            assert_eq!(name, "other-20240101");
        }
        other => panic!("unexpected {:?}", other),
    }
    assert!(!fake.log.iter().any(|l| l.starts_with("upsert-template")));
}

#[test]
fn override_group_not_declared_is_used() {
    let mut fake = Fake::new();
    let s = Settings { override_group: Some("green".to_string()), rollout: true, watch: Poller::new(10, 2) };
    let last = drive(Pipeline::start(cluster(), "t".to_string(), blue(), s), &mut fake);
    assert!(matches!(last, Action::Finish));
    assert!(fake.log.contains(&"resolve green".to_string()));
}

#[test]
fn template_without_group_or_override_fails() {
    let mut d = cluster();
    d.templates = vec![template("tpl", TemplateImage::ByName("img".to_string()), &[])];
    let mut fake = Fake::new();
    let last = drive(Pipeline::start(d, "t".to_string(), blue(), settings(true)), &mut fake);
    match last {
        Action::Fail(PipelineError::MissingNodeGroup { index }) => assert_eq!(index, 0),
        other => panic!("unexpected {:?}", other),
    }
    assert!(fake.log.is_empty());
}

#[test]
fn reply_that_does_not_fit_fails() {
    let (p, a) = Pipeline::start(cluster(), "t".to_string(), blue(), settings(true));
    assert!(matches!(a, Action::UpsertConfiguration { index: 0, .. }));
    let (p, a) = p.step(Reply::Nodes { nodes: vec![] });
    assert!(matches!(a, Action::Fail(PipelineError::UnexpectedReply)));
    assert!(p.is_over());
}

#[test]
fn rejected_upsert_is_a_remote_error() {
    let (p, _) = Pipeline::start(cluster(), "t".to_string(), blue(), settings(true));
    let (p, a) = p.step(Reply::Rejected { detail: "409 conflict".to_string() });
    match a {
        Action::Fail(PipelineError::Remote { section, index, detail }) => {
            assert_eq!(section, Section::Configurations);
            assert_eq!(index, 0);
            assert_eq!(detail, "409 conflict");
        }
        other => panic!("unexpected {:?}", other),
    }
    assert!(p.is_over());
}

#[test]
fn empty_descriptor_finishes_at_once() {
    let d = Descriptor { configurations: vec![], images: vec![], templates: vec![] };
    let (p, a) = Pipeline::start(d, "t".to_string(), vec![], settings(true));
    assert!(matches!(a, Action::Finish));
    assert!(p.is_over());
}

#[test]
fn configuration_names_must_differ_after_tag() {
    let mut d = cluster();
    d.configurations.push(ConfigurationSpec { name: "cfg-20240101".to_string(), layers: vec![] });
    let mut fake = Fake::new();
    let last = drive(Pipeline::start(d, "20240101".to_string(), blue(), settings(true)), &mut fake);
    match last {
        Action::Fail(PipelineError::DuplicateConfiguration { index, name }) => {
            assert_eq!(index, 1);
            assert_eq!(name, "cfg-20240101");
        }
        other => panic!("unexpected {:?}", other),
    }
    assert!(fake.log.is_empty());
}

#[test]
fn images_only_run_binds_no_template() {
    let d = images_only(cluster());
    assert!(d.templates.is_empty());
    assert_eq!(d.images.len(), 1);
    let mut fake = Fake::new();
    let last = drive(Pipeline::start(d, "20240101".to_string(), blue(), settings(true)), &mut fake);
    assert!(matches!(last, Action::Finish));
    assert_eq!(fake.log, vec!["upsert-configuration cfg-20240101", "submit img-20240101", "status job-1"]);
}

#[test]
fn unauthorized_image_group_names_the_image() {
    let mut d = cluster();
    d.images[0].groups = vec!["compute".to_string(), "red".to_string()];
    let mut fake = Fake::new();
    let last = drive(Pipeline::start(d, "t".to_string(), blue(), settings(true)), &mut fake);
    match last {
        Action::Fail(PipelineError::Authorization(e)) => {
            assert_eq!(e.section, Section::Images);
            assert_eq!(e.index, 0);
            assert_eq!(e.scope, "red");
        }
        other => panic!("unexpected {:?}", other),
    }
    assert!(fake.log.is_empty());
}
