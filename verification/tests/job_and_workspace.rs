use ansible_operator::command::render_ansible_command;
use ansible_operator::errors::{ReconcileError, RenderError};
use ansible_operator::fingerprint::ExecutionHash;
use ansible_operator::job::{create_job_for_host, VolumeModel};
use ansible_operator::model::{
    ConnectionStrategy, ExecutionMode, FilesSource, Hosts, Inventory, PlanMeta, PlaybookPlanSpec,
    PlaybookTemplate, PlaybookVariableSource, SecretRef, SshConfig,
};
use ansible_operator::strutil::{encode_base36, generate_id};
use ansible_operator::workspace::{render_inventory, render_playbook, render_secret};

fn meta() -> PlanMeta {
    PlanMeta {
        name: Some("plan".to_string()),
        namespace: Some("default".to_string()),
        uid: Some("uid-1".to_string()),
        generation: Some(3),
        deletion_timestamp: None,
    }
}

fn ssh_spec() -> PlaybookPlanSpec {
    PlaybookPlanSpec {
        image: "registry.tld/ansible:1.0.0".to_string(),
        mode: ExecutionMode::OneShot,
        schedule: None,
        time_zone: None,
        inventory: vec![Inventory {
            name: "all-hosts".to_string(),
            hosts: Hosts::FromStaticList {
                from_list: vec!["host-1".to_string()],
            },
        }],
        connection_strategy: ConnectionStrategy::Ssh {
            ssh: SshConfig {
                user: "root".to_string(),
                secret_ref: SecretRef {
                    name: "ssh-key".to_string(),
                },
            },
        },
        template: PlaybookTemplate {
            playbook: "- hosts: all\n".to_string(),
            variables: Some(vec![
                PlaybookVariableSource::Inline {
                    inline: "key: value\n".to_string(),
                },
                PlaybookVariableSource::SecretRef {
                    secret_ref: SecretRef {
                        name: "vars-secret".to_string(),
                    },
                },
                PlaybookVariableSource::Inline {
                    inline: "other: thing\n".to_string(),
                },
            ]),
            files: None,
            requirements: None,
        },
    }
}

#[test]
fn test_generate_id_values() {
    assert_eq!(encode_base36(0), "aaaaaa");
    assert_eq!(encode_base36(1), "b");
    assert_eq!(encode_base36(36), "ba");
    assert_eq!(generate_id(0), "aaaaa");
    assert_eq!(generate_id(1), "aaaab");
    assert_eq!(generate_id(36), "aaaba");
}

#[test]
fn test_job_name_idempotence() {
    let m = meta();
    let spec = ssh_spec();
    let hash = ExecutionHash(0xdead_beef);
    let j1 = create_job_for_host("host-1", &hash, Some(1_700_000_000), &m, &spec).unwrap();
    let j2 = create_job_for_host("host-1", &hash, Some(1_700_000_000), &m, &spec).unwrap();
    assert_eq!(j1.name, j2.name);
    // A different start time yields a different id for the same fingerprint.
    let j3 = create_job_for_host("host-1", &hash, Some(1_700_000_001), &m, &spec).unwrap();
    assert_ne!(j1.name, j3.name);
}

#[test]
fn test_job_name_shape_without_start() {
    let m = meta();
    let spec = ssh_spec();
    let hash = ExecutionHash(77);
    let job = create_job_for_host("host-1", &hash, None, &m, &spec).unwrap();
    let expected = format!("apply-plan-{}-on-host-1", generate_id(77 ^ 1));
    assert_eq!(job.name, expected);
}

#[test]
fn test_job_labels_and_owner() {
    let m = meta();
    let spec = ssh_spec();
    let hash = ExecutionHash(255);
    let job = create_job_for_host("host-1", &hash, None, &m, &spec).unwrap();
    assert_eq!(job.namespace, "default");
    assert_eq!(
        job.labels,
        vec![
            ("playbookplan.name".to_string(), "plan".to_string()),
            ("playbookplan.hash".to_string(), "ff".to_string()),
            ("playbookplan.host".to_string(), "host-1".to_string()),
        ]
    );
    assert_eq!(job.owner.api_version, "ansible.cloudbending.dev/v1beta1");
    assert_eq!(job.owner.kind, "PlaybookPlan");
    assert_eq!(job.owner.name, "plan");
    assert_eq!(job.owner.uid, "uid-1");
    assert_eq!(job.backoff_limit, 0);
    assert_eq!(job.restart_policy, "Never");
}

#[test]
fn test_job_requires_complete_metadata() {
    let mut m = meta();
    m.uid = None;
    let spec = ssh_spec();
    let r = create_job_for_host("host-1", &ExecutionHash(1), None, &m, &spec);
    assert!(matches!(r, Err(ReconcileError::PreconditionFailed(_))));
}

#[test]
fn test_ssh_command_line() {
    let spec = ssh_spec();
    let extra = vec!["vars-secret".to_string()];
    let cmd = render_ansible_command(&spec, "host-1", &extra);
    let expected: Vec<String> = [
        "ansible-playbook",
        "--extra-vars",
        "@static-variables-0.yml",
        "--extra-vars",
        "@static-variables-1.yml",
        "--extra-vars",
        "@/run/ansible-operator/vars/vars-secret/variables.yaml",
        "--ssh-common-args='-o UserKnownHostsFile=/ssh/known_hosts'",
        "--private-key",
        "/ssh/id_rsa",
        "--user",
        "root",
        "-i",
        "inventory.yml",
        "-l",
        "host-1,",
        "playbook.yml",
    ]
    .iter()
    .map(|s| s.to_string())
    .collect();
    assert_eq!(cmd, expected);
}

#[test]
fn test_chroot_command_line_and_pinning() {
    let mut spec = ssh_spec();
    spec.connection_strategy = ConnectionStrategy::Chroot {};
    spec.template.variables = None;
    let cmd = render_ansible_command(&spec, "node-7", &Vec::new());
    let expected: Vec<String> = [
        "ansible-playbook",
        "-c",
        "community.general.chroot",
        "-i",
        "/mnt/rootfs,",
        "playbook.yml",
    ]
    .iter()
    .map(|s| s.to_string())
    .collect();
    assert_eq!(cmd, expected);

    let job = create_job_for_host("node-7", &ExecutionHash(1), None, &meta(), &spec).unwrap();
    assert!(job.host_ipc && job.host_network && job.host_pid && job.host_users);
    assert!(job.container.privileged);
    assert_eq!(
        job.node_selector,
        vec![("kubernetes.io/hostname".to_string(), "node-7".to_string())]
    );
    assert!(job.volumes.iter().any(|v| matches!(
        v,
        VolumeModel::HostPath { name, path, .. } if name == "rootfs" && path == "/"
    )));
}

#[test]
fn test_job_mounts_workspace_and_variable_secrets() {
    let m = meta();
    let spec = ssh_spec();
    let job = create_job_for_host("host-1", &ExecutionHash(1), None, &m, &spec).unwrap();
    assert!(job.volumes.iter().any(|v| matches!(
        v,
        VolumeModel::Secret { name, secret_name, .. } if name == "playbook" && secret_name == "plan"
    )));
    assert!(job.volumes.iter().any(|v| matches!(
        v,
        VolumeModel::Secret { name, default_mode, .. }
            if name == "vars-secret" && *default_mode == Some(0o400)
    )));
    assert!(job
        .container
        .volume_mounts
        .iter()
        .any(|mnt| mnt.name == "playbook" && mnt.mount_path == "/run/ansible-operator"));
    assert!(job.container.volume_mounts.iter().any(
        |mnt| mnt.name == "vars-secret" && mnt.mount_path == "/run/ansible-operator/vars/vars-secret"
    ));
    assert_eq!(job.init_containers.len(), 0);
}

#[test]
fn test_job_with_requirements_gets_installer() {
    let m = meta();
    let mut spec = ssh_spec();
    spec.template.requirements = Some("collections: []\n".to_string());
    let job = create_job_for_host("host-1", &ExecutionHash(1), None, &m, &spec).unwrap();
    assert_eq!(job.init_containers.len(), 1);
    let installer = &job.init_containers[0];
    assert_eq!(installer.name, "download-collections");
    let expected: Vec<String> = ["ansible-galaxy", "install", "-r", "requirements.yml"]
        .iter()
        .map(|s| s.to_string())
        .collect();
    assert_eq!(installer.command, expected);
    assert!(job
        .container
        .volume_mounts
        .iter()
        .any(|mnt| mnt.name == "collections" && mnt.mount_path == "/etc/ansible/collections"));
}

#[test]
fn test_render_inventory_text() {
    let groups = vec![
        (
            "g1".to_string(),
            vec!["h1".to_string(), "h2".to_string()],
        ),
        ("g2".to_string(), Vec::new()),
    ];
    let text = render_inventory(&groups).unwrap();
    assert_eq!(
        text,
        "\"g1\":\n  hosts:\n    \"h1\": {}\n    \"h2\": {}\n\"g2\":\n  hosts: {}\n"
    );
}

#[test]
fn test_render_inventory_quotes_ambiguous_names() {
    // A name YAML would otherwise read as a boolean or number stays a string.
    let groups = vec![("true".to_string(), vec!["123".to_string()])];
    let text = render_inventory(&groups).unwrap();
    assert_eq!(text, "\"true\":\n  hosts:\n    \"123\": {}\n");
}

#[test]
fn test_render_inventory_escapes_quotes() {
    let groups = vec![("g\"1".to_string(), vec!["h\\1".to_string()])];
    let text = render_inventory(&groups).unwrap();
    assert_eq!(text, "\"g\\\"1\":\n  hosts:\n    \"h\\\\1\": {}\n");
}

#[test]
fn test_render_playbook_normalizes() {
    let mut spec = ssh_spec();
    spec.template.playbook = "[{hosts: all}]".to_string();
    let rendered = render_playbook(&spec).unwrap();
    assert_eq!(rendered, "- hosts: all\n");
}

#[test]
fn test_render_playbook_rejects_invalid_yaml() {
    let mut spec = ssh_spec();
    spec.template.playbook = "key: [unclosed".to_string();
    let r = render_playbook(&spec);
    assert!(matches!(r, Err(RenderError::SerializationError(_))));
}

#[test]
fn test_render_secret_contents() {
    let m = meta();
    let mut spec = ssh_spec();
    spec.template.requirements = Some("collections: []\n".to_string());
    let groups = vec![("g1".to_string(), vec!["h1".to_string()])];
    let w = render_secret(&m, &spec, &groups).unwrap();
    assert_eq!(w.name, "plan");
    assert_eq!(w.namespace, "default");
    assert_eq!(w.owner.kind, "PlaybookPlan");
    let expected: Vec<(String, String)> = vec![
        ("playbook.yml".to_string(), "- hosts: all\n".to_string()),
        (
            "inventory.yml".to_string(),
            "\"g1\":\n  hosts:\n    \"h1\": {}\n".to_string(),
        ),
        ("requirements.yml".to_string(), "collections: []\n".to_string()),
        ("static-variables-0.yml".to_string(), "key: value\n".to_string()),
        ("static-variables-1.yml".to_string(), "other: thing\n".to_string()),
    ];
    assert_eq!(w.string_data, expected);
}

#[test]
fn test_render_secret_propagates_render_error() {
    let m = meta();
    let mut spec = ssh_spec();
    spec.template.playbook = "key: [unclosed".to_string();
    let r = render_secret(&m, &spec, &Vec::new());
    assert!(matches!(
        r,
        Err(ReconcileError::RenderError(RenderError::SerializationError(_)))
    ));
}

#[test]
fn test_file_sources_become_volumes() {
    let m = meta();
    let mut spec = ssh_spec();
    spec.template.files = Some(vec![
        FilesSource::Secret {
            name: "some-configs".to_string(),
            secret_ref: SecretRef {
                name: "secret-with-config-files".to_string(),
            },
        },
        FilesSource::Other {
            name: "binary-assets".to_string(),
            extra: "{\"image\":{\"reference\":\"my.registry.tld/the-image:v2\"}}".to_string(),
        },
    ]);
    let job = create_job_for_host("host-1", &ExecutionHash(1), None, &m, &spec).unwrap();
    assert!(job.volumes.iter().any(|v| matches!(
        v,
        VolumeModel::Secret { name, secret_name, .. }
            if name == "some-configs" && secret_name == "secret-with-config-files"
    )));
    assert!(job.volumes.iter().any(|v| matches!(
        v,
        VolumeModel::Other { name, extra }
            if name == "binary-assets" && extra.contains("my.registry.tld/the-image:v2")
    )));
    assert!(job.container.volume_mounts.iter().any(|mnt| {
        mnt.name == "binary-assets"
            && mnt.mount_path == "/run/ansible-operator/files/binary-assets"
    }));
}
