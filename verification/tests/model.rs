//! Identifiers, content hashes and value objects.

use mail_sync_kit::outbox_service::sent_marker;
use mail_sync_kit::{
    AccountId, Address, BlobHash, FolderDelta, FolderId, IngestBatch, IngestStats, MessageId,
    MessagePage, OutboxId, SortDir, SortField, SortSpec, Window,
};

#[test]
fn blob_hash_hex_roundtrip_and_shard() {
    let digest = [0xab_u8; 32];
    let h = BlobHash::from_digest(&digest);
    assert_eq!(h.to_hex().len(), 64);
    assert_eq!(BlobHash::parse_hex(h.to_hex()), Some(h.clone()));
    assert_eq!(h.shard_prefix(), "ab/ab");
    assert_eq!(BlobHash::parse_hex(&h.to_hex().to_uppercase()), Some(h));
    assert_eq!(BlobHash::parse_hex("zz"), None);
    assert_eq!(BlobHash::parse_hex("abc"), None);
}

#[test]
fn blob_hash_tells_digests_apart() {
    let mut digest = [0u8; 32];
    for (i, byte) in digest.iter_mut().enumerate() {
        *byte = (i * 8 + 1) as u8;
    }
    let h = BlobHash::from_digest(&digest);
    assert_eq!(
        h.to_string(),
        "0109111921293139414951596169717981899199a1a9b1b9c1c9d1d9e1e9f1f9"
    );
    assert_eq!(h.shard_prefix(), "01/09");
    assert_eq!(h.debug_text(), format!("BlobHash({})", h.to_hex()));
    assert_eq!(format!("{h:?}"), h.debug_text());
    assert_eq!(format!("{h:#?}"), h.debug_text());
    assert_ne!(h, BlobHash::from_digest(&[0u8; 32]));
    // A digest one byte short, and one that is no hexadecimal text.
    assert_eq!(BlobHash::parse_hex(&"ab".repeat(31)), None);
    assert_eq!(BlobHash::parse_hex(&"xy".repeat(32)), None);
    assert_eq!(BlobHash::decode_hex("00fF"), Some(vec![0x00, 0xff]));
    assert_eq!(BlobHash::encode_hex(&[0x00, 0xff, 0x1a]), "00ff1a");
}

#[test]
fn distinct_id_types_do_not_mix() {
    fn assert_distinct(_: &AccountId, _: &MessageId) {}
    let u = uuid::Uuid::now_v7().as_u128();
    assert_distinct(&AccountId::from_uuid(u), &MessageId::from_uuid(u));
    let id = AccountId::from_uuid(u);
    assert_eq!(AccountId::parse(&id.to_string()), Some(id));
}

#[test]
fn ids_read_and_write_as_uuids() {
    let text = "67e55044-10b1-426f-9247-bb680e5fe0c8";
    let number = 0x67e5_5044_10b1_426f_9247_bb68_0e5f_e0c8_u128;
    assert_eq!(FolderId::from_uuid(number).to_string(), text);
    assert_eq!(OutboxId::from_uuid(number).to_string(), text);
    assert_eq!(MessageId::from_uuid(number).to_string(), text);
    assert_eq!(FolderId::from_uuid(number).as_uuid(), number);
    for form in [
        text.to_string(),
        text.to_uppercase(),
        text.replace('-', ""),
        format!("{{{text}}}"),
        format!("urn:uuid:{text}"),
        format!("URN:Uuid:{text}"),
    ] {
        assert_eq!(AccountId::parse(&form), Some(AccountId::from_uuid(number)), "{form}");
        assert_eq!(FolderId::parse(&form), Some(FolderId::from_uuid(number)));
        assert_eq!(MessageId::parse(&form), Some(MessageId::from_uuid(number)));
        assert_eq!(OutboxId::parse(&form), Some(OutboxId::from_uuid(number)));
    }
    for form in ["", "67e55044", "67e55044-10b1-426f-9247-bb680e5fe0cg", "{}"] {
        assert_eq!(AccountId::parse(form), None, "{form}");
    }
}

#[test]
fn ids_are_shown_as_uuids() {
    // What a derived form over the UUID itself shows.
    #[derive(Debug)]
    #[allow(dead_code)]
    struct AccountId2(uuid::Uuid);
    let number = 0x67e5_5044_10b1_426f_9247_bb68_0e5f_e0c8_u128;
    let derived = AccountId2(uuid::Uuid::from_u128(number));
    let id = AccountId::from_uuid(number);
    assert_eq!(format!("{id:?}"), "AccountId(67e55044-10b1-426f-9247-bb680e5fe0c8)");
    assert_eq!(format!("{id:?}"), format!("{derived:?}").replace("AccountId2", "AccountId"));
    assert_eq!(format!("{id:#?}"), format!("{derived:#?}").replace("AccountId2", "AccountId"));
    let (nested, plain) = (Some(vec![id]), Some(vec![derived]));
    assert_eq!(
        format!("{nested:#?}"),
        format!("{plain:#?}").replace("AccountId2", "AccountId")
    );
    let text = uuid::Uuid::from_u128(number).to_string();
    assert_eq!(format!("{:?}", FolderId::from_uuid(number)), format!("FolderId({text})"));
    assert_eq!(format!("{:?}", MessageId::from_uuid(number)), format!("MessageId({text})"));
    assert_eq!(format!("{:?}", OutboxId::from_uuid(number)), format!("OutboxId({text})"));
}

#[test]
fn sent_markers_are_fresh_version_7_ids() {
    let (a, b) = (sent_marker(), sent_marker());
    assert_ne!(a, b);
    let id = uuid::Uuid::from_u128(a.as_uuid());
    assert_eq!(id.get_version_num(), 7);
    assert_eq!(id.get_variant(), uuid::Variant::RFC4122);
}

#[test]
fn value_objects_have_their_defaults() {
    assert_eq!(Window::default(), Window { offset: 0, limit: 50 });
    assert_eq!(
        SortSpec::default(),
        SortSpec {
            field: SortField::Date,
            dir: SortDir::Desc
        }
    );
    assert_eq!(
        FolderDelta::default(),
        FolderDelta {
            new: 0,
            total: 0,
            unread: 0
        }
    );
    assert_eq!(
        IngestStats::default(),
        IngestStats {
            inserted: 0,
            updated: 0
        }
    );
    assert!(IngestBatch::<u8>::default().messages.is_empty());
    let page = MessagePage::default();
    assert!(page.items.is_empty());
    assert_eq!(page.total, 0);
    assert_eq!(
        Address::bare("a@b.c"),
        Address {
            name: None,
            email: "a@b.c".to_string()
        }
    );
}
