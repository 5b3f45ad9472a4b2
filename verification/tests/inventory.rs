use ddui::api::inventory::{
    classify_stack, discover_host, discover_hosts, discover_stacks, get_inventory, glob_has_sops,
    has_manifest, manifest_name, secret_name, Inventory, StackKind,
};
use ddui::tree::DirEntry;

fn file(parent: &str, name: &str) -> DirEntry {
    DirEntry::file(name.to_string(), format!("{}/{}", parent, name))
}

fn dir(parent: &str, name: &str, entries: Vec<DirEntry>) -> DirEntry {
    DirEntry::dir(name.to_string(), format!("{}/{}", parent, name), entries)
}

fn unreadable_dir(parent: &str, name: &str) -> DirEntry {
    DirEntry {
        name: name.to_string(),
        path: format!("{}/{}", parent, name),
        is_dir: true,
        is_file: false,
        entries: None,
    }
}

fn other(parent: &str, name: &str) -> DirEntry {
    DirEntry {
        name: name.to_string(),
        path: format!("{}/{}", parent, name),
        is_dir: false,
        is_file: false,
        entries: None,
    }
}

fn stack_with(names: &[&str]) -> DirEntry {
    dir("/srv/h", "s", names.iter().map(|n| file("/srv/h/s", n)).collect())
}

fn example_root() -> Option<Vec<DirEntry>> {
    Some(vec![dir(
        "/srv",
        "hostA",
        vec![
            dir("/srv/hostA", "stackX", vec![file("/srv/hostA/stackX", "docker-compose.yaml")]),
            dir(
                "/srv/hostA",
                "stackY",
                vec![
                    file("/srv/hostA/stackY", "deploy.sh"),
                    file("/srv/hostA/stackY", "secret.env.sops"),
                ],
            ),
        ],
    )])
}

fn shape(inv: &Inventory) -> Vec<(String, Vec<(String, StackKind, String, bool)>)> {
    inv.hosts
        .iter()
        .map(|h| {
            (
                h.host.clone(),
                h.stacks.iter().map(|s| (s.name.clone(), s.kind, s.path.clone(), s.sops)).collect(),
            )
        })
        .collect()
}

#[test]
fn example_tree_gives_one_host_with_two_stacks() {
    let inv = get_inventory(&example_root());
    assert_eq!(inv.hosts.len(), 1);
    let host = &inv.hosts[0];
    assert_eq!(host.host, "hostA");
    assert!(host.groups.is_empty());
    assert_eq!(host.stacks.len(), 2);
    assert_eq!(host.stacks[0].name, "stackX");
    assert_eq!(host.stacks[0].kind, StackKind::Compose);
    assert_eq!(host.stacks[0].path, "/srv/hostA/stackX");
    assert!(!host.stacks[0].sops);
    assert!(host.stacks[0].containers.is_empty());
    assert_eq!(host.stacks[1].name, "stackY");
    assert_eq!(host.stacks[1].kind, StackKind::Script);
    assert_eq!(host.stacks[1].path, "/srv/hostA/stackY");
    assert!(host.stacks[1].sops);
    assert!(host.stacks[1].containers.is_empty());
}

#[test]
fn absent_root_gives_empty_inventory() {
    let inv = get_inventory(&None);
    assert!(inv.hosts.is_empty());
}

#[test]
fn empty_root_gives_empty_inventory() {
    let inv = get_inventory(&Some(Vec::new()));
    assert!(inv.hosts.is_empty());
}

#[test]
fn one_host_per_top_level_directory_in_listing_order() {
    let root = Some(vec![
        file("/srv", "README.md"),
        dir("/srv", "zeta", vec![]),
        other("/srv", "socket"),
        dir("/srv", "alpha", vec![]),
        file("/srv", "notes.txt"),
        dir("/srv", "mid", vec![]),
    ]);
    let inv = get_inventory(&root);
    let names: Vec<&str> = inv.hosts.iter().map(|h| h.host.as_str()).collect();
    assert_eq!(names, vec!["zeta", "alpha", "mid"]);
    for host in &inv.hosts {
        assert!(host.stacks.is_empty());
        assert!(host.groups.is_empty());
    }
}

#[test]
fn files_directly_under_a_host_are_not_stacks() {
    let host = dir(
        "/srv",
        "h",
        vec![
            file("/srv/h", "docker-compose.yaml"),
            dir("/srv/h", "web", vec![]),
            file("/srv/h", "x.env.sops"),
            dir("/srv/h", "db", vec![]),
        ],
    );
    let found = discover_host(&host);
    assert_eq!(found.host, "h");
    let names: Vec<&str> = found.stacks.iter().map(|s| s.name.as_str()).collect();
    assert_eq!(names, vec!["web", "db"]);
    assert_eq!(found.stacks[0].path, "/srv/h/web");
    assert_eq!(found.stacks[1].path, "/srv/h/db");
}

#[test]
fn unreadable_host_is_kept_without_stacks() {
    let root = Some(vec![unreadable_dir("/srv", "locked"), dir("/srv", "open", vec![dir("/srv/open", "s", vec![])])]);
    let inv = get_inventory(&root);
    assert_eq!(inv.hosts.len(), 2);
    assert_eq!(inv.hosts[0].host, "locked");
    assert!(inv.hosts[0].stacks.is_empty());
    assert_eq!(inv.hosts[1].host, "open");
    assert_eq!(inv.hosts[1].stacks.len(), 1);
}

#[test]
fn unreadable_stack_is_a_script_stack_without_secrets() {
    let stack = classify_stack(&unreadable_dir("/srv/h", "s"));
    assert_eq!(stack.name, "s");
    assert_eq!(stack.path, "/srv/h/s");
    assert_eq!(stack.kind, StackKind::Script);
    assert!(!stack.sops);
    assert!(stack.containers.is_empty());
}

#[test]
fn plain_manifest_means_compose() {
    assert_eq!(classify_stack(&stack_with(&["docker-compose.yaml"])).kind, StackKind::Compose);
}

#[test]
fn templated_manifest_means_compose() {
    assert_eq!(classify_stack(&stack_with(&["a.txt", "docker-compose.tpl.yaml"])).kind, StackKind::Compose);
}

#[test]
fn both_manifests_mean_compose() {
    let stack = classify_stack(&stack_with(&["docker-compose.tpl.yaml", "docker-compose.yaml"]));
    assert_eq!(stack.kind, StackKind::Compose);
}

#[test]
fn no_manifest_means_script_whatever_else_is_there() {
    let stack = classify_stack(&stack_with(&[
        "deploy.sh",
        "docker-compose.yml",
        "compose.yaml",
        "docker-compose.yaml.bak",
        "Docker-Compose.yaml",
        "xdocker-compose.yaml",
    ]));
    assert_eq!(stack.kind, StackKind::Script);
    assert_eq!(classify_stack(&stack_with(&[])).kind, StackKind::Script);
}

#[test]
fn manifest_names_are_exact() {
    assert!(manifest_name(&"docker-compose.yaml".to_string()));
    assert!(manifest_name(&"docker-compose.tpl.yaml".to_string()));
    assert!(!manifest_name(&"DOCKER-COMPOSE.YAML".to_string()));
    assert!(!manifest_name(&"docker-compose.yml".to_string()));
    assert!(!manifest_name(&"docker-compose.tpl.yaml ".to_string()));
    assert!(!manifest_name(&"".to_string()));
}

#[test]
fn manifest_in_a_subdirectory_does_not_count() {
    let stack = dir(
        "/srv/h",
        "s",
        vec![dir("/srv/h/s", "sub", vec![file("/srv/h/s/sub", "docker-compose.yaml")])],
    );
    assert_eq!(classify_stack(&stack).kind, StackKind::Script);
}

#[test]
fn secret_names_by_suffix_and_infix() {
    assert!(secret_name(&"secret.env.sops".to_string()));
    assert!(secret_name(&".env.sops".to_string()));
    assert!(secret_name(&"prod.sops.yaml".to_string()));
    assert!(secret_name(&"a.sops.".to_string()));
    assert!(!secret_name(&"secret.env".to_string()));
    assert!(!secret_name(&"sops.yaml".to_string()));
    assert!(secret_name(&"secret.env.sops.bak".to_string()));
    assert!(!secret_name(&"env.sops".to_string()));
    assert!(!secret_name(&"file.sops".to_string()));
    assert!(!secret_name(&"".to_string()));
}

#[test]
fn secret_names_ignore_case() {
    assert!(secret_name(&"SECRET.ENV.SOPS".to_string()));
    assert!(secret_name(&"Secret.Env.Sops".to_string()));
    assert!(secret_name(&"Prod.SOPS.Yaml".to_string()));
    assert!(!secret_name(&"PROD.SOPS".to_string()));
}

#[test]
fn secret_flag_needs_a_regular_file() {
    let stack = dir(
        "/srv/h",
        "s",
        vec![dir("/srv/h/s", "keys.env.sops", vec![]), other("/srv/h/s", "link.sops.yaml"), file("/srv/h/s", "deploy.sh")],
    );
    assert!(!glob_has_sops(stack.entries.as_ref().unwrap()));
    assert!(!classify_stack(&stack).sops);
}

#[test]
fn secret_flag_is_set_by_any_matching_file() {
    let entries = vec![file("/s", "a.txt"), file("/s", "b.txt"), file("/s", "C.SOPS.JSON"), file("/s", "d.txt")];
    assert!(glob_has_sops(&entries));
    assert!(!has_manifest(&entries));
    assert!(!glob_has_sops(&Vec::new()));
}

#[test]
fn secret_file_in_a_subdirectory_does_not_count() {
    let stack = dir(
        "/srv/h",
        "s",
        vec![
            file("/srv/h/s", "docker-compose.yaml"),
            dir("/srv/h/s", "secrets", vec![file("/srv/h/s/secrets", "db.env.sops")]),
        ],
    );
    let found = classify_stack(&stack);
    assert_eq!(found.kind, StackKind::Compose);
    assert!(!found.sops);
}

#[test]
fn nested_contents_never_change_a_stack() {
    let bare = dir("/srv/h", "s", vec![file("/srv/h/s", "run.sh"), dir("/srv/h/s", "sub", vec![])]);
    let deep = dir(
        "/srv/h",
        "s",
        vec![
            file("/srv/h/s", "run.sh"),
            dir(
                "/srv/h/s",
                "sub",
                vec![file("/srv/h/s/sub", "x.sops.yaml"), file("/srv/h/s/sub", "docker-compose.yaml")],
            ),
        ],
    );
    let a = classify_stack(&bare);
    let b = classify_stack(&deep);
    assert_eq!((a.name, a.kind, a.path, a.sops), (b.name, b.kind, b.path, b.sops));
}

#[test]
fn scanning_twice_gives_the_same_inventory() {
    let root = example_root();
    let first = get_inventory(&root);
    let second = get_inventory(&root);
    assert_eq!(shape(&first), shape(&second));
    assert_eq!(
        shape(&first),
        vec![(
            "hostA".to_string(),
            vec![
                ("stackX".to_string(), StackKind::Compose, "/srv/hostA/stackX".to_string(), false),
                ("stackY".to_string(), StackKind::Script, "/srv/hostA/stackY".to_string(), true),
            ]
        )]
    );
}

#[test]
fn hosts_and_stacks_walk_the_listing() {
    let entries = vec![dir("/r", "b", vec![]), file("/r", "f"), dir("/r", "a", vec![])];
    let hosts = discover_hosts(&entries);
    assert_eq!(hosts.iter().map(|h| h.host.as_str()).collect::<Vec<_>>(), vec!["b", "a"]);
    let stacks = discover_stacks(&entries);
    assert_eq!(stacks.iter().map(|s| s.name.as_str()).collect::<Vec<_>>(), vec!["b", "a"]);
    assert_eq!(stacks[0].path, "/r/b");
    assert!(discover_hosts(&Vec::new()).is_empty());
    assert!(discover_stacks(&Vec::new()).is_empty());
}

#[test]
fn stack_kinds_are_spelled_compose_and_script() {
    assert_eq!(StackKind::Compose.as_str(), "compose");
    assert_eq!(StackKind::Script.as_str(), "script");
}
