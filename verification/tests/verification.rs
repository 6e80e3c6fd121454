use matrix_crypto_core::machine::MachineError;
use matrix_crypto_core::observer::CryptoSignal;
use matrix_crypto_core::identity::TrustState;
use matrix_crypto_core::verification::{
    bare_start_candidates, begin_comparison_check, cancel_target, is_finished, material_check,
    mentions_start_event, self_flow_refusal, stage_from, start_event_type, CancelTarget, ComparisonPhase,
    FlowRecord, FlowRegistry, FlowStage, InboundFlow, RequestPhase, SasEmoji, SasMaterial,
};

#[test]
fn the_three_flow_errors_are_distinct() {
    assert_ne!(MachineError::UnknownFlow, MachineError::WrongStage);
    assert_ne!(MachineError::WrongStage, MachineError::MaterialNotReady);
    assert_ne!(MachineError::UnknownFlow, MachineError::MaterialNotReady);
}

#[test]
fn the_authentication_material_never_reaches_a_debug_line() {
    let material = SasMaterial {
        emoji: Some(vec![SasEmoji {
            symbol: "\u{1f436}".to_string(),
            description: "Dog".to_string(),
        }]),
        decimals: (1234, 5678, 9012),
    };
    let rendered = material.debug_string();
    assert!(
        !rendered.contains("1234") && !rendered.contains("5678") && !rendered.contains("9012"),
        "the decimal short authentication string must not be printable: {rendered}"
    );
    assert!(
        !rendered.contains('\u{1f436}') && !rendered.contains("Dog"),
        "the symbol short authentication string must not be printable: {rendered}"
    );
    let one = SasEmoji {
        symbol: "\u{1f436}".to_string(),
        description: "Dog".to_string(),
    }
    .debug_string();
    assert!(
        !one.contains('\u{1f436}') && !one.contains("Dog"),
        "one symbol is a seventh of the answer and must not be printable: {one}"
    );
}

#[test]
fn the_material_rendering_shows_only_the_symbol_count() {
    let seven = SasMaterial {
        emoji: Some(vec![SasEmoji { symbol: "x".to_string(), description: "y".to_string() }; 7]),
        decimals: (1, 2, 3),
    };
    assert_eq!(seven.debug_string(), "SasMaterial { emoji_count: Some(7), decimals: \"[redacted]\" }");
    let digits_only = SasMaterial { emoji: None, decimals: (4, 5, 6) };
    assert_eq!(digits_only.debug_string(), "SasMaterial { emoji_count: None, decimals: \"[redacted]\" }");
}

#[test]
fn stages_fold_upstream_phases() {
    assert_eq!(stage_from(Some(RequestPhase::Requested), None), FlowStage::Requested);
    assert_eq!(stage_from(Some(RequestPhase::Created), None), FlowStage::Requested);
    assert_eq!(stage_from(Some(RequestPhase::Ready), None), FlowStage::Ready);
    assert_eq!(
        stage_from(Some(RequestPhase::Transitioned { comparison: Some(ComparisonPhase::KeysExchanged) }), None),
        FlowStage::KeysExchanged
    );
    assert_eq!(stage_from(Some(RequestPhase::Transitioned { comparison: None }), None), FlowStage::Started);
    assert_eq!(stage_from(None, Some(ComparisonPhase::Accepted)), FlowStage::Started);
    assert_eq!(stage_from(Some(RequestPhase::Ready), Some(ComparisonPhase::Confirmed)), FlowStage::Confirmed);
    assert_eq!(stage_from(None, None), FlowStage::Cancelled);
    assert!(is_finished(FlowStage::Done));
    assert!(is_finished(FlowStage::Cancelled));
    assert!(!is_finished(FlowStage::KeysExchanged));
}

#[test]
fn the_string_is_read_only_once_the_keys_are_exchanged() {
    assert_eq!(material_check(Some(ComparisonPhase::KeysExchanged)), Ok(()));
    assert_eq!(material_check(Some(ComparisonPhase::Started)), Err(MachineError::MaterialNotReady));
    assert_eq!(material_check(Some(ComparisonPhase::Done)), Err(MachineError::WrongStage));
    assert_eq!(material_check(None), Err(MachineError::WrongStage));
    assert_eq!(begin_comparison_check(FlowStage::Ready, true), Ok(()));
    assert_eq!(begin_comparison_check(FlowStage::Ready, false), Err(MachineError::WrongStage));
    assert_eq!(begin_comparison_check(FlowStage::Started, true), Err(MachineError::WrongStage));
    assert_eq!(cancel_target(true, true), Ok(CancelTarget::Comparison));
    assert_eq!(cancel_target(true, false), Ok(CancelTarget::Request));
    assert_eq!(cancel_target(false, false), Err(MachineError::WrongStage));
    assert_eq!(self_flow_refusal(true), MachineError::IdentityNotKnown);
    assert_eq!(self_flow_refusal(false), MachineError::AccountKeysNotFetched);
}

#[test]
fn a_live_flow_is_registered_once_and_a_finished_one_is_swept() {
    let mut registry: FlowRegistry<u32> = FlowRegistry::new();
    let first = registry.register("f1".to_string(), FlowRecord::from_request(RequestPhase::Requested), 1, true);
    assert!(first.inserted);
    let again = registry.register("f1".to_string(), FlowRecord::from_request(RequestPhase::Ready), 2, true);
    assert!(!again.inserted);
    assert_eq!(again.refused, Some(2));
    assert_eq!(registry.flow_count(), 1);
    assert_eq!(registry.handles(&"f1".to_string()), Some(&1));

    assert!(registry.observe(&"f1".to_string(), Some(RequestPhase::Cancelled), None));
    assert_eq!(registry.cached(&"f1".to_string()), Some(FlowStage::Cancelled));
    let released = registry.release_finished(true);
    assert_eq!(released, vec![1]);
    assert_eq!(registry.flow_count(), 0);
    assert_eq!(registry.cached(&"f1".to_string()), None);
}

#[test]
fn a_finished_flow_is_not_adopted() {
    let mut registry: FlowRegistry<u32> = FlowRegistry::new();
    let refused = registry.adopt("f2".to_string(), FlowRecord::from_comparison(ComparisonPhase::Cancelled), 7, true);
    assert_eq!(refused.err(), Some((MachineError::UnknownFlow, 7)));
    assert_eq!(registry.flow_count(), 0);
    let adopted = registry.adopt("f2".to_string(), FlowRecord::from_comparison(ComparisonPhase::Started), 8, true);
    assert!(adopted.unwrap().inserted);
    assert_eq!(registry.forget_flow(&"f2".to_string()), Some(8));
    assert_eq!(registry.forget_flow(&"f2".to_string()), None);
}

#[test]
fn a_completion_is_taken_once() {
    let mut registry: FlowRegistry<u32> = FlowRegistry::new();
    registry.register("done".to_string(), FlowRecord::from_request(RequestPhase::Ready), 1, true);
    assert_eq!(registry.remember_comparison(&"done".to_string(), ComparisonPhase::Done, 2), 1);
    assert_eq!(registry.remember_comparison(&"missing".to_string(), ComparisonPhase::Done, 3), 3);
    assert_eq!(registry.take_pending_completions(), vec!["done".to_string()]);
    assert_eq!(registry.take_pending_completions(), Vec::<String>::new());
    assert_eq!(registry.release_finished(true), vec![2]);
}

#[test]
fn nothing_is_announced_or_consumed_with_nobody_listening() {
    let mut registry: FlowRegistry<u32> = FlowRegistry::new();
    let inbound = vec![InboundFlow {
        flow_id: "in".to_string(),
        user: "@bob:example.org".to_string(),
        device_id: "BOBDEV".to_string(),
        record: FlowRecord::from_request(RequestPhase::Requested),
        handles: 5,
    }];
    let pass = registry.announce_state_changes(false, &vec![], &"@alice:example.org".to_string(), true, inbound, vec![]);
    assert!(pass.signals.is_empty());
    assert_eq!(registry.flow_count(), 0);
}

#[test]
fn an_announcement_pass_sorts_trust_and_announces_each_invitation_once() {
    let mut registry: FlowRegistry<u32> = FlowRegistry::new();
    let completions = vec![
        ("@zed:example.org".to_string(), true),
        ("@amy:example.org".to_string(), true),
        ("@zed:example.org".to_string(), true),
        ("@ignored:example.org".to_string(), false),
    ];
    let inbound = |id: &str, handles: u32| InboundFlow {
        flow_id: id.to_string(),
        user: "@bob:example.org".to_string(),
        device_id: "BOBDEV".to_string(),
        record: FlowRecord::from_request(RequestPhase::Requested),
        handles,
    };
    let pass = registry.announce_state_changes(
        true,
        &completions,
        &"@alice:example.org".to_string(),
        true,
        vec![inbound("in", 5), inbound("in", 6)],
        vec![],
    );
    assert_eq!(pass.trust_changes, 2);
    assert_eq!(
        pass.signals,
        vec![
            CryptoSignal::TrustChanged { user: "@amy:example.org".to_string(), state: TrustState::Verified },
            CryptoSignal::TrustChanged { user: "@zed:example.org".to_string(), state: TrustState::Verified },
            CryptoSignal::TrustChanged { user: "@alice:example.org".to_string(), state: TrustState::Verified },
            CryptoSignal::VerificationRequested {
                user: "@bob:example.org".to_string(),
                device_id: "BOBDEV".to_string(),
                flow_id: "in".to_string(),
            },
        ]
    );
    assert_eq!(pass.refused, vec![6]);
    assert_eq!(registry.flow_count(), 1);

    let second = registry.announce_state_changes(true, &vec![], &"@alice:example.org".to_string(), false, vec![inbound("in", 7)], vec![]);
    assert!(second.signals.is_empty(), "a registered flow is not announced again");
    assert_eq!(second.refused, vec![7]);
}

#[test]
fn an_invitation_announced_to_nobody_is_released() {
    let mut registry: FlowRegistry<u32> = FlowRegistry::new();
    let pass = registry.announce_state_changes(
        true,
        &vec![],
        &"@alice:example.org".to_string(),
        false,
        vec![InboundFlow {
            flow_id: "in".to_string(),
            user: "@bob:example.org".to_string(),
            device_id: "BOBDEV".to_string(),
            record: FlowRecord::from_request(RequestPhase::Requested),
            handles: 5,
        }],
        vec![],
    );
    assert_eq!(registry.flow_count(), 1);
    let deliveries: Vec<(CryptoSignal, bool)> = pass.signals.into_iter().map(|signal| (signal, false)).collect();
    assert_eq!(registry.announce(deliveries), vec![5]);
    assert_eq!(registry.flow_count(), 0);
}

#[test]
fn only_the_invitation_nobody_took_is_released() {
    let mut registry: FlowRegistry<u32> = FlowRegistry::new();
    registry.register("heard".to_string(), FlowRecord::from_request(RequestPhase::Requested), 1, true);
    registry.register("unheard".to_string(), FlowRecord::from_request(RequestPhase::Requested), 2, true);
    let invitation = |id: &str| CryptoSignal::VerificationRequested {
        user: "@bob:example.org".to_string(),
        device_id: "BOBDEV".to_string(),
        flow_id: id.to_string(),
    };
    let trust = CryptoSignal::TrustChanged { user: "@bob:example.org".to_string(), state: TrustState::Verified };
    let released = registry.announce(vec![(trust, false), (invitation("heard"), true), (invitation("unheard"), false)]);
    assert_eq!(released, vec![2]);
    assert_eq!(registry.flow_count(), 1);
    assert_eq!(registry.handles(&"heard".to_string()), Some(&1));
}

#[test]
fn a_reset_hands_back_every_handle() {
    let mut registry: FlowRegistry<u32> = FlowRegistry::new();
    registry.register("a".to_string(), FlowRecord::from_request(RequestPhase::Requested), 1, false);
    registry.register("b".to_string(), FlowRecord::from_comparison(ComparisonPhase::Started), 2, false);
    assert_eq!(registry.reset_flows_for_test(), vec![1, 2]);
    assert_eq!(registry.flow_count(), 0);
}

#[test]
fn start_events_are_found_by_type_sender_and_transaction() {
    assert_eq!(start_event_type(), "m.key.verification.start");
    assert!(mentions_start_event("{\"type\":\"m.key.verification.start\"}"));
    assert!(!mentions_start_event("{\"type\":\"m.room_key\"}"));
    let raw = |t: &str, s: &str, x: &str| {
        format!("{{\"type\":\"{t}\",\"sender\":\"{s}\",\"content\":{{\"transaction_id\":\"{x}\"}}}}")
    };
    let raws = vec![
        raw("m.key.verification.start", "@bob:example.org", "t1"),
        raw("m.key.verification.request", "@bob:example.org", "t2"),
        raw("m.key.verification.start", "not-a-user", "t3"),
        "{\"type\":\"m.key.verification.start\",\"sender\":\"@carol:example.org\",\"content\":{}}".to_string(),
        "{\"type\":\"m.key.verification.start\",\"sender\":\"@carol:example.org\",\"content\":{\"transaction_id\":7}}".to_string(),
        "m.key.verification.start is mentioned but this is not JSON".to_string(),
        raw("m.key.verification.start", "@carol:example.org", "t5"),
    ];
    assert_eq!(
        bare_start_candidates(&raws),
        vec![
            ("@bob:example.org".to_string(), "t1".to_string()),
            ("@carol:example.org".to_string(), "t5".to_string()),
        ]
    );
}

#[test]
fn adopting_a_held_flow_leaves_the_registry_as_the_sweep_left_it() {
    let mut registry: FlowRegistry<u32> = FlowRegistry::new();
    registry.register("a".to_string(), FlowRecord::from_request(RequestPhase::Requested), 1, true);
    registry.register("b".to_string(), FlowRecord::from_request(RequestPhase::Ready), 2, true);
    let outcome = registry.adopt("a".to_string(), FlowRecord::from_request(RequestPhase::Requested), 3, true).unwrap();
    assert!(!outcome.inserted);
    assert_eq!(outcome.refused, Some(3));
    assert_eq!(registry.flow_count(), 2);
    assert_eq!(registry.handles(&"a".to_string()), Some(&1));
    assert_eq!(registry.handles(&"b".to_string()), Some(&2));
}

#[test]
fn an_invited_flow_that_completes_is_taken_as_a_completion() {
    let mut registry: FlowRegistry<u32> = FlowRegistry::new();
    registry.announce_state_changes(
        true,
        &vec![],
        &"@alice:example.org".to_string(),
        false,
        vec![InboundFlow {
            flow_id: "in".to_string(),
            user: "@bob:example.org".to_string(),
            device_id: "BOBDEV".to_string(),
            record: FlowRecord::from_request(RequestPhase::Requested),
            handles: 5,
        }],
        vec![],
    );
    assert_eq!(registry.remember_comparison(&"in".to_string(), ComparisonPhase::Done, 6), 5);
    assert_eq!(registry.take_pending_completions(), vec!["in".to_string()]);
}
