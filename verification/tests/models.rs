use keyring::models::{BitwardenCipher, BitwardenCipherSshKey};

fn cipher(archived_date: Option<&str>) -> BitwardenCipher {
    BitwardenCipher {
        id: None,
        organization_id: None,
        cipher_type: None,
        name: None,
        deleted_date: None,
        archived_date: archived_date.map(str::to_owned),
        key: None,
        ssh_key: None,
    }
}

#[test]
fn archived_state_requires_a_non_blank_date() {
    // The three payloads `{}`, `{"archivedDate":null}` and `{"archivedDate":"  "}`.
    for archived in [None, None, Some("  ")] {
        assert!(!cipher(archived).is_archived());
    }

    assert!(cipher(Some("2026-08-11T00:00:00Z")).is_archived());
}

#[test]
fn ssh_key_and_deletion_state() {
    let mut c = cipher(None);
    assert!(!c.is_ssh_key());
    c.cipher_type = Some(1);
    assert!(!c.is_ssh_key());
    c.cipher_type = Some(5);
    assert!(c.is_ssh_key());
    c.deleted_date = Some("\t".to_owned());
    assert!(!c.is_deleted());
    c.deleted_date = Some("2026-01-01T00:00:00Z".to_owned());
    assert!(c.is_deleted());
    c.ssh_key = Some(BitwardenCipherSshKey { private_key: None });
    assert!(c.ssh_key.is_some());
}
