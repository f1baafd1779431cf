use ansible_operator::execution::{find_all_hosts, find_outdated_hosts};
use ansible_operator::fingerprint::{calculate_execution_hash, ExecutionHash, SecretData};
use ansible_operator::model::{HostStatus, PlaybookPlanStatus};

fn status_with_hosts(hosts: Vec<&str>) -> PlaybookPlanStatus {
    let mut s = PlaybookPlanStatus::empty();
    s.eligible_hosts = Some(vec![(
        "test-inventory".to_string(),
        hosts.into_iter().map(|h| h.to_string()).collect(),
    )]);
    s
}

#[test]
pub fn test_must_execute_returns_none_when_eligible_hosts_empty() {
    // Given
    let status = PlaybookPlanStatus::empty();

    // When
    let to_execute = find_outdated_hosts(&status, &ExecutionHash(1));

    // Then
    assert_eq!(to_execute.unwrap().len(), 0);
}

#[test]
pub fn test_must_execute_returns_all_when_hosts_status_empty() {
    // Given
    let status = status_with_hosts(vec!["host-1", "host-2", "host-3"]);

    // When
    let to_execute = find_outdated_hosts(&status, &ExecutionHash(1));

    // Then
    let expected_hostnames = [
        "host-1".to_owned(),
        "host-2".to_owned(),
        "host-3".to_owned(),
    ];
    let expected: Vec<String> = expected_hostnames.to_vec();
    let actual: Vec<String> = to_execute.unwrap();

    assert!(expected.eq(&actual));
}

#[test]
pub fn test_must_execute_returns_correct_hosts() {
    // Given
    let mut status = status_with_hosts(vec!["host-1", "host-2", "host-3"]);
    status.hosts_status = Some(vec![
        (
            "host-1".to_owned(),
            HostStatus {
                last_applied_hash: "1".to_owned(),
            },
        ),
        (
            "host-2".to_owned(),
            HostStatus {
                last_applied_hash: "2".to_owned(),
            },
        ),
        (
            "host-3".to_owned(),
            HostStatus {
                last_applied_hash: "1".to_owned(),
            },
        ),
    ]);

    // When
    let to_execute = find_outdated_hosts(&status, &ExecutionHash(2));

    // Then
    let expected_hostnames = ["host-1".to_owned(), "host-3".to_owned()];
    let expected: Vec<String> = expected_hostnames.to_vec();
    let actual: Vec<String> = to_execute.unwrap();

    assert_eq!(expected, actual);
}

#[test]
pub fn test_calculate_execution_hash_is_order_insensitive() {
    // Given
    let playbook = "awesome playbook here";
    let secret1_data: SecretData = vec![
        ("key-1".to_string(), b"data-1".to_vec()),
        ("key-2".to_string(), b"value-2".to_vec()),
    ];
    let secret2_data: SecretData = vec![("meaningful_number".to_string(), b"73".to_vec())];
    let secret3_data: SecretData = vec![("answer".to_string(), b"forty-two".to_vec())];

    // When
    let hashed_1 = calculate_execution_hash(
        playbook,
        &vec![
            secret1_data.clone(),
            secret2_data.clone(),
            secret3_data.clone(),
        ],
    );
    let hashed_2 = calculate_execution_hash(
        playbook,
        &vec![
            secret2_data.clone(),
            secret1_data.clone(),
            secret3_data.clone(),
        ],
    );
    let hashed_3 = calculate_execution_hash(
        playbook,
        &vec![secret3_data, secret2_data, secret1_data],
    );

    // Then
    assert_eq!(hashed_1, hashed_2);
    assert_eq!(hashed_2, hashed_3);
}

#[test]
pub fn test_execution_hash_display() {
    // Given
    let hash = ExecutionHash(255);

    // When
    let as_string = hash.hex_string();

    // Then
    assert_eq!("ff", as_string)
}

#[test]
fn test_execution_hash_changes_with_playbook() {
    let secrets: Vec<SecretData> = vec![vec![("k".to_string(), b"v".to_vec())]];
    let h1 = calculate_execution_hash("playbook one", &secrets);
    let h2 = calculate_execution_hash("playbook two", &secrets);
    assert_ne!(h1, h2);
}

#[test]
fn test_execution_hash_changes_with_secret_byte() {
    let playbook = "P";
    let s1: Vec<SecretData> = vec![vec![("k".to_string(), b"value-a".to_vec())]];
    let s2: Vec<SecretData> = vec![vec![("k".to_string(), b"value-b".to_vec())]];
    let h1 = calculate_execution_hash(playbook, &s1);
    let h2 = calculate_execution_hash(playbook, &s2);
    assert_ne!(h1, h2);
}

#[test]
fn test_execution_hash_changes_with_secret_key() {
    let playbook = "P";
    let s1: Vec<SecretData> = vec![vec![("key-a".to_string(), b"v".to_vec())]];
    let s2: Vec<SecretData> = vec![vec![("key-b".to_string(), b"v".to_vec())]];
    assert_ne!(
        calculate_execution_hash(playbook, &s1),
        calculate_execution_hash(playbook, &s2)
    );
}

#[test]
fn test_find_all_hosts_flattens_in_order() {
    let mut status = PlaybookPlanStatus::empty();
    status.eligible_hosts = Some(vec![
        ("g1".to_string(), vec!["h1".to_string(), "h2".to_string()]),
        ("g2".to_string(), vec!["h1".to_string()]),
    ]);
    let all = find_all_hosts(&status);
    assert_eq!(all, vec!["h1".to_string(), "h2".to_string(), "h1".to_string()]);
}

#[test]
fn test_execution_hash_zero_renders_as_zero() {
    assert_eq!("0", ExecutionHash(0).hex_string());
}
