use groupware::dnsbl::{after_cache, after_lookup, listed_address, AfterCache, AfterLookup, Cached, Lookup};
use groupware::namespace::shared_prefix;
use groupware::sieve::{
    first_id, has_id, script_compiled, script_source, script_value, select_ids, stored_script,
    Envelope, Parameter, Response, ScriptModification, ScriptProperty, ScriptResult, ScriptValue,
    StoredScript,
};

fn changes() -> Vec<ScriptModification> {
    vec![
        ScriptModification::SetEnvelope { name: Envelope::From, value: "a@b".to_string() },
        ScriptModification::AddHeader { name: "X-Test".to_string(), value: "1".to_string() },
    ]
}

#[test]
fn a_response_reports_the_outcome() {
    match Response::from_result(ScriptResult::Accept { modifications: changes() }) {
        Response::Accept { modifications } => assert_eq!(modifications.len(), 2),
        other => panic!("{other:?}"),
    }
    match Response::from_result(ScriptResult::Reject("no".to_string())) {
        Response::Reject { reason } => assert_eq!(reason, "no"),
        other => panic!("{other:?}"),
    }
    assert!(matches!(Response::from_result(ScriptResult::Discard), Response::Discard));
}

#[test]
fn a_replaced_message_becomes_text() {
    let result = ScriptResult::Replace { message: b"Subject: hi\xff\r\n".to_vec(), modifications: changes() };
    match Response::from_result(result) {
        Response::Replace { message, modifications } => {
            assert_eq!(message, "Subject: hi\u{fffd}\r\n");
            assert_eq!(modifications.len(), 2);
        }
        other => panic!("{other:?}"),
    }
}

#[test]
fn parameters_are_routed_by_name() {
    match Parameter::route("env_to", "Ann@Example.ORG") {
        Parameter::Recipient(value) => assert_eq!(value, "ann@example.org"),
        other => panic!("{other:?}"),
    }
    match Parameter::route("env_to[1]", "BOB@x") {
        Parameter::Recipient(value) => assert_eq!(value, "bob@x"),
        other => panic!("{other:?}"),
    }
    let envelopes = [
        ("env_from", Envelope::From),
        ("env_orcpt", Envelope::Orcpt),
        ("env_ret", Envelope::Ret),
        ("env_notify", Envelope::Notify),
        ("env_id", Envelope::Envid),
        ("env_bym", Envelope::ByMode),
        ("env_byt", Envelope::ByTrace),
        ("env_byta", Envelope::ByTimeAbsolute),
        ("env_bytr", Envelope::ByTimeRelative),
    ];
    for (key, expected) in envelopes {
        match Parameter::route(key, "Value") {
            Parameter::Envelope(name, value) => {
                assert_eq!(name, expected);
                assert_eq!(value, "Value");
            }
            other => panic!("{other:?}"),
        }
        assert_eq!(Envelope::from_key(key), Some(expected));
    }
    match Parameter::route("subject", "Hello") {
        Parameter::Variable(name, value) => {
            assert_eq!(name, "subject");
            assert_eq!(value, "Hello");
        }
        other => panic!("{other:?}"),
    }
    assert_eq!(Envelope::from_key("env_to"), None);
    assert_eq!(Envelope::from_key("ENV_FROM"), None);
}

#[test]
fn a_stored_script_comes_apart_at_the_offset() {
    let stored = stored_script(b"keep;", &[1, 2, 3]);
    assert_eq!(stored, b"keep;\x01\x02\x03".to_vec());
    assert_eq!(script_source(&stored, 5), Some(&b"keep;"[..]));
    assert_eq!(script_compiled(&stored, 5), Some(&[1u8, 2, 3][..]));
    assert_eq!(script_source(&stored, 8), Some(&stored[..]));
    assert_eq!(script_compiled(&stored, 8), Some(&[][..]));
    assert_eq!(script_source(&stored, 9), None);
    assert_eq!(script_compiled(&stored, 9), None);
    assert_eq!(script_source(&stored, 0), Some(&[][..]));
}

#[test]
fn ids_are_those_asked_for_or_the_first_existing() {
    let existing = vec![5, 3, 9, 1];
    assert_eq!(select_ids(Some(vec![9, 7]), &existing, 1), vec![9, 7]);
    assert_eq!(select_ids(None, &existing, 2), vec![5, 3]);
    assert_eq!(select_ids(None, &existing, 10), vec![5, 3, 9, 1]);
    assert_eq!(select_ids(None, &existing, 0), Vec::<u32>::new());
    assert!(has_id(&existing, 9));
    assert!(!has_id(&existing, 7));
    assert_eq!(first_id(&existing), Some(1));
    assert_eq!(first_id(&vec![]), None);
}

#[test]
fn the_cache_and_the_lookup_settle_a_block_list() {
    assert!(matches!(after_cache(Cached::Listed(vec![1, 2])), AfterCache::Evaluate(a) if a == vec![1, 2]));
    assert!(matches!(after_cache(Cached::Absent), AfterCache::Nothing));
    assert!(matches!(after_cache(Cached::Unknown), AfterCache::Resolve));
    assert!(matches!(after_lookup(Lookup::Found(vec![7])), AfterLookup::Evaluate(entry) if entry == vec![7]));
    assert!(matches!(after_lookup(Lookup::NotFound), AfterLookup::RememberAbsent { seconds: 86400 }));
    assert!(matches!(after_lookup(Lookup::Failed), AfterLookup::Nothing));
    assert_eq!(listed_address(&vec![0x7f000002, 0x7f000003]), 0x7f000002);
    assert_eq!(listed_address(&vec![]), 0xffffffff);
}

#[test]
fn shared_folders_are_announced_to_those_who_see_more_than_their_own() {
    assert_eq!(shared_prefix(2, "Shared Folders").as_deref(), Some("Shared Folders"));
    assert_eq!(shared_prefix(1, "Shared Folders"), None);
    assert_eq!(shared_prefix(0, "Shared Folders"), None);
}

#[test]
fn properties_of_a_script_are_answered_from_the_store() {
    let stored = StoredScript { name: Some("vacation".to_string()), is_active: Some(true), blob_size: Some(42) };
    assert!(matches!(script_value(ScriptProperty::Id, 7, &stored), Some(ScriptValue::Id(7))));
    assert!(matches!(
        script_value(ScriptProperty::Name, 7, &stored),
        Some(ScriptValue::Text(name)) if name == "vacation"
    ));
    assert!(matches!(script_value(ScriptProperty::IsActive, 7, &stored), Some(ScriptValue::Bool(true))));
    assert!(matches!(
        script_value(ScriptProperty::BlobId, 7, &stored),
        Some(ScriptValue::Blob { document_id: 7, section_size: 42 })
    ));
    assert!(matches!(script_value(ScriptProperty::Other, 7, &stored), Some(ScriptValue::Null)));
    let bare = StoredScript { name: None, is_active: None, blob_size: None };
    assert!(matches!(script_value(ScriptProperty::Name, 7, &bare), Some(ScriptValue::Null)));
    assert!(matches!(script_value(ScriptProperty::IsActive, 7, &bare), Some(ScriptValue::Null)));
    assert!(script_value(ScriptProperty::BlobId, 7, &bare).is_none());
}
