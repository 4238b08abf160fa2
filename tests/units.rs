use manta_rollout::authz::{check_scopes, eq_ignore_ascii_case, is_universal_scope, scopes_from_roles};
use manta_rollout::descriptor::{
    check_authorization, check_references, effective_node_group, Descriptor, ImageSource, ImageSpec,
    Section, TemplateImage, TemplateSpec,
};
use manta_rollout::document::{read_descriptor, Node};
use manta_rollout::poller::{job_state, JobState, PollDecision, Poller};
use manta_rollout::refmap::ImageRefMap;
use manta_rollout::tag::resolve_name;

fn text(s: &str) -> Node {
    Node::Text(s.to_string())
}

fn map(entries: Vec<(&str, Node)>) -> Node {
    Node::Mapping(entries.into_iter().map(|(k, v)| (k.to_string(), v)).collect())
}

fn strings(v: &[&str]) -> Vec<String> {
    v.iter().map(|s| s.to_string()).collect()
}

#[test]
fn placeholder_is_replaced_by_tag() {
    assert_eq!(resolve_name("cluster-__DATE__", "20240101"), "cluster-20240101");
}

#[test]
fn name_without_placeholder_collides_across_tags() {
    let a = resolve_name("cluster", "20240101");
    let b = resolve_name("cluster", "20240202");
    assert_eq!(a, "cluster");
    assert_eq!(a, b);
}

#[test]
fn every_placeholder_is_replaced() {
    assert_eq!(resolve_name("__DATE__-x-__DATE__", "T"), "T-x-T");
    assert_eq!(resolve_name("__DATE_", "T"), "__DATE_");
    assert_eq!(resolve_name("", "T"), "");
    assert_eq!(resolve_name("___DATE__", "T"), "_T");
}

#[test]
fn ascii_case_is_ignored() {
    assert!(eq_ignore_ascii_case("Compute", "cOMPUTE"));
    assert!(!eq_ignore_ascii_case("compute", "computer"));
    assert!(!eq_ignore_ascii_case("compute", "c0mpute"));
}

#[test]
fn universal_scopes_are_recognized() {
    assert!(is_universal_scope("Compute"));
    assert!(is_universal_scope("application"));
    assert!(is_universal_scope("Application_UAN"));
    assert!(!is_universal_scope("blue"));
    assert!(!is_universal_scope("uan"));
}

#[test]
fn first_unauthorized_scope_is_named() {
    let r = check_scopes(&strings(&["compute", "blue", "red", "green"]), &strings(&["blue"]));
    let e = r.unwrap_err();
    assert_eq!(e.scope, "red");
    assert_eq!(e.authorized, strings(&["blue"]));
    assert!(check_scopes(&strings(&["blue", "Compute"]), &strings(&["blue"])).is_ok());
    assert!(check_scopes(&vec![], &vec![]).is_ok());
}

#[test]
fn first_reference_binding_wins() {
    let mut refs = ImageRefMap::new();
    assert!(refs.get(&"r".to_string()).is_none());
    refs.record(&"r".to_string(), &"id-1".to_string());
    refs.record(&"r".to_string(), &"id-2".to_string());
    refs.record(&"s".to_string(), &"id-3".to_string());
    assert_eq!(refs.get(&"r".to_string()), Some("id-1".to_string()));
    assert_eq!(refs.get(&"s".to_string()), Some("id-3".to_string()));
}

#[test]
fn status_texts_are_read() {
    assert_eq!(job_state("succeeded"), JobState::Succeeded);
    assert_eq!(job_state("failed"), JobState::Failed);
    assert_eq!(job_state("running"), JobState::Running);
    assert_eq!(job_state("pending"), JobState::Running);
    assert_eq!(job_state("Succeeded"), JobState::Running);
}

#[test]
fn poller_waits_then_times_out() {
    let mut p = Poller::new(3, 3);
    assert_eq!(p.observe(JobState::Running), PollDecision::Wait { seconds: 3 });
    assert_eq!(p.observe(JobState::Running), PollDecision::Wait { seconds: 3 });
    assert_eq!(p.observe(JobState::Running), PollDecision::TimedOut);
    assert_eq!(p.attempts, 2);
}

#[test]
fn poller_stops_on_terminal_state() {
    let mut p = Poller::standard();
    assert_eq!(p.max_attempts, 1800);
    assert_eq!(p.interval_secs, 2);
    assert_eq!(p.observe(JobState::Running), PollDecision::Wait { seconds: 2 });
    assert_eq!(p.observe(JobState::Succeeded), PollDecision::Succeeded);
    assert_eq!(p.observe(JobState::Failed), PollDecision::Failed);
    assert_eq!(p.attempts, 1);
}

#[test]
fn zero_budget_times_out_at_once() {
    let mut p = Poller::new(0, 2);
    assert_eq!(p.observe(JobState::Running), PollDecision::TimedOut);
    assert_eq!(p.observe(JobState::Succeeded), PollDecision::Succeeded);
}

#[test]
fn override_group_precedence() {
    let groups = strings(&["blue", "green"]);
    assert_eq!(effective_node_group(&groups, &None), Some("blue".to_string()));
    assert_eq!(effective_node_group(&groups, &Some("red".to_string())), Some("red".to_string()));
    assert_eq!(effective_node_group(&groups, &Some("green".to_string())), Some("blue".to_string()));
    assert_eq!(effective_node_group(&vec![], &None), None);
    assert_eq!(effective_node_group(&vec![], &Some("red".to_string())), Some("red".to_string()));
}

fn image(name: &str, source: ImageSource, ref_name: Option<&str>) -> ImageSpec {
    ImageSpec { name: name.to_string(), source, ref_name: ref_name.map(|s| s.to_string()), groups: vec![] }
}

#[test]
fn references_must_be_bound_earlier() {
    let d = Descriptor {
        configurations: vec![],
        images: vec![
            image("a", ImageSource::ByRef { ref_name: "later".to_string() }, None),
            image("b", ImageSource::ByName { name: "x".to_string() }, Some("later")),
        ],
        templates: vec![],
    };
    let e = check_references(&d, &"t".to_string()).unwrap_err();
    assert_eq!(e.section, Section::Images);
    assert_eq!(e.index, 0);
    assert_eq!(e.ref_name, "later");
}

#[test]
fn references_compare_after_tag() {
    let d = Descriptor {
        configurations: vec![],
        images: vec![image("a", ImageSource::ByName { name: "x".to_string() }, Some("r-__DATE__"))],
        templates: vec![TemplateSpec {
            name: "t".to_string(),
            configuration: "c".to_string(),
            image: TemplateImage::ByRef("r-20240101".to_string()),
            node_groups: strings(&["blue"]),
        }],
    };
    assert!(check_references(&d, &"20240101".to_string()).is_ok());
    let e = check_references(&d, &"20240202".to_string()).unwrap_err();
    assert_eq!(e.section, Section::SessionTemplates);
    assert_eq!(e.index, 0);
}

#[test]
fn descriptor_scopes_are_checked() {
    let mut d = Descriptor {
        configurations: vec![],
        images: vec![image("a", ImageSource::ByName { name: "x".to_string() }, None)],
        templates: vec![],
    };
    d.images[0].groups = strings(&["Application", "purple"]);
    let e = check_authorization(&d, &strings(&["blue"])).unwrap_err();
    assert_eq!(e.section, Section::Images);
    assert_eq!(e.index, 0);
    assert_eq!(e.scope, "purple");
    assert_eq!(e.authorized, strings(&["blue"]));
    assert!(check_authorization(&d, &strings(&["purple"])).is_ok());
}

fn sample_document() -> Node {
    map(vec![
        ("hardware", Node::List(vec![text("x1000")])),
        (
            "configurations",
            Node::List(vec![map(vec![
                ("name", text("cfg-__DATE__")),
                (
                    "layers",
                    Node::List(vec![
                        map(vec![
                            ("name", text("csm")),
                            ("playbook", text("site.yml")),
                            ("git", map(vec![("url", text("https://git/csm.git")), ("branch", text("main"))])),
                        ]),
                        map(vec![
                            ("playbook", text("cos.yml")),
                            ("product", map(vec![("name", text("cos")), ("branch", text("integration"))])),
                        ]),
                    ]),
                ),
            ])]),
        ),
        (
            "images",
            Node::List(vec![
                map(vec![
                    ("name", text("img-__DATE__")),
                    ("ref_name", text("base")),
                    ("configuration", text("cfg-__DATE__")),
                    ("base", map(vec![("ims", map(vec![("id", text("abc-123"))]))])),
                    ("configuration_group_names", Node::List(vec![text("Compute"), text("blue")])),
                ]),
                map(vec![("name", text("reuse")), ("base", map(vec![("image_ref", text("base"))]))]),
                map(vec![
                    ("name", text("lookup")),
                    ("base", map(vec![("ims", map(vec![("name", text("sles15"))]))])),
                ]),
            ]),
        ),
        (
            "session_templates",
            Node::List(vec![map(vec![
                ("name", text("tpl-__DATE__")),
                ("configuration", text("cfg-__DATE__")),
                ("image", map(vec![("image_ref", text("base"))])),
                (
                    "bos_parameters",
                    map(vec![(
                        "boot_sets",
                        map(vec![("uan", map(vec![("node_groups", Node::List(vec![text("blue")]))]))]),
                    )]),
                ),
            ])]),
        ),
    ])
}

#[test]
fn document_is_read_into_descriptor() {
    let d = read_descriptor(&sample_document()).unwrap();
    assert_eq!(d.configurations.len(), 1);
    assert_eq!(d.configurations[0].name, "cfg-__DATE__");
    assert_eq!(d.configurations[0].layers.len(), 2);
    assert_eq!(d.configurations[0].layers[0].source, "https://git/csm.git");
    assert_eq!(d.configurations[0].layers[0].branch, Some("main".to_string()));
    assert_eq!(d.configurations[0].layers[1].source, "cos");
    assert_eq!(d.configurations[0].layers[1].name, None);
    assert_eq!(d.configurations[0].layers[1].branch, Some("integration".to_string()));
    assert_eq!(d.images.len(), 3);
    assert!(matches!(&d.images[0].source, ImageSource::Build { configuration, base }
        if configuration == "cfg-__DATE__" && base == "abc-123"));
    assert_eq!(d.images[0].ref_name, Some("base".to_string()));
    assert_eq!(d.images[0].groups, strings(&["Compute", "blue"]));
    assert!(matches!(&d.images[1].source, ImageSource::ByRef { ref_name } if ref_name == "base"));
    assert!(matches!(&d.images[2].source, ImageSource::ByName { name } if name == "sles15"));
    assert_eq!(d.templates.len(), 1);
    assert!(matches!(&d.templates[0].image, TemplateImage::ByRef(r) if r == "base"));
    assert_eq!(d.templates[0].node_groups, strings(&["blue"]));
}

#[test]
fn template_without_boot_set_is_unreadable() {
    let doc = map(vec![(
        "session_templates",
        Node::List(vec![map(vec![
            ("name", text("tpl")),
            ("configuration", text("cfg")),
            ("image", map(vec![("image_ref", text("base"))])),
        ])]),
    )]);
    let e = read_descriptor(&doc).unwrap_err();
    assert_eq!(e.section, Section::SessionTemplates);
    assert_eq!(e.index, 0);
}

#[test]
fn non_text_group_is_unreadable() {
    let doc = map(vec![(
        "images",
        Node::List(vec![
            map(vec![("name", text("ok")), ("base", map(vec![("image_ref", text("r"))]))]),
            map(vec![
                ("name", text("bad")),
                ("base", map(vec![("image_ref", text("r"))])),
                ("configuration_group_names", Node::List(vec![Node::Int(7)])),
            ]),
        ]),
    )]);
    let e = read_descriptor(&doc).unwrap_err();
    assert_eq!(e.section, Section::Images);
    assert_eq!(e.index, 1);
}

#[test]
fn missing_sections_read_as_empty() {
    let d = read_descriptor(&map(vec![("hardware", Node::Null)])).unwrap();
    assert!(d.configurations.is_empty() && d.images.is_empty() && d.templates.is_empty());
    let d = read_descriptor(&Node::Bool(true)).unwrap();
    assert!(d.templates.is_empty());
}

#[test]
fn bookkeeping_roles_are_not_scopes() {
    let roles = strings(&["offline_access", "blue", "uma_authorization", "red"]);
    assert_eq!(scopes_from_roles(&roles), strings(&["blue", "red"]));
    assert!(scopes_from_roles(&vec![]).is_empty());
}

#[test]
fn budget_of_one_allows_one_check() {
    let mut p = Poller::new(1, 2);
    assert_eq!(p.observe(JobState::Running), PollDecision::TimedOut);
    let mut q = Poller::standard();
    for _ in 0..1799 {
        assert_eq!(q.observe(JobState::Running), PollDecision::Wait { seconds: 2 });
    }
    assert_eq!(q.observe(JobState::Running), PollDecision::TimedOut);
}
