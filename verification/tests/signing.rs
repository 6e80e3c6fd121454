use matrix_crypto_core::machine::MachineError;
use matrix_crypto_core::signing::{
    bootstrap_identity_step, identity_is_unpublished, may_create, may_publish, queue_publication,
    queue_republication, unpublished_identity_key, IdentityStatus, PublicationPart, Refusal, SigningState,
};

#[test]
fn publishing_and_creating_are_served_in_states_that_never_overlap() {
    let mut both_served = Vec::new();
    for account_keys_fetched in [false, true] {
        for identity_known in [false, true] {
            for private_keys_held in [false, true] {
                for account_keys_answer_unsettled in [false, true] {
                    for identity_publication_pending in [false, true] {
                        let status = IdentityStatus {
                            account_keys_fetched,
                            identity_known,
                            private_keys_held,
                            account_keys_answer_unsettled,
                            identity_publication_pending,
                        };

                        let publish = if !account_keys_fetched {
                            Err(MachineError::AccountKeysNotFetched)
                        } else if !identity_known || identity_publication_pending {
                            Err(MachineError::IdentityNotKnown)
                        } else if !private_keys_held {
                            Err(MachineError::IdentityAlreadyExists)
                        } else {
                            Ok(())
                        };
                        assert_eq!(may_publish(&status), publish, "publish, for {status:?}");

                        let create = if !account_keys_fetched {
                            Err(MachineError::AccountKeysNotFetched)
                        } else if identity_known && !identity_publication_pending {
                            Err(MachineError::IdentityAlreadyExists)
                        } else {
                            Ok(())
                        };
                        assert_eq!(may_create(&status), create, "create, for {status:?}");

                        if publish.is_ok() && create.is_ok() {
                            both_served.push(status);
                        }
                    }
                }
            }
        }
    }
    assert!(
        both_served.is_empty(),
        "no state may serve both publishing and creating; these did: {both_served:?}"
    );
}

#[test]
fn neither_call_is_served_before_the_server_has_been_asked() {
    let unasked = IdentityStatus {
        account_keys_fetched: false,
        identity_known: false,
        private_keys_held: false,
        account_keys_answer_unsettled: false,
        identity_publication_pending: false,
    };
    assert_eq!(may_publish(&unasked), Err(MachineError::AccountKeysNotFetched));
    assert_eq!(may_create(&unasked), Err(MachineError::AccountKeysNotFetched));

    let unsettled = IdentityStatus {
        account_keys_answer_unsettled: true,
        ..unasked
    };
    assert_eq!(may_publish(&unsettled), Err(MachineError::AccountKeysNotFetched));
    assert_eq!(may_create(&unsettled), Err(MachineError::AccountKeysNotFetched));
}

#[test]
fn an_account_that_already_has_an_identity_is_never_created_over() {
    for private_keys_held in [false, true] {
        let known = IdentityStatus {
            account_keys_fetched: true,
            identity_known: true,
            private_keys_held,
            account_keys_answer_unsettled: false,
            identity_publication_pending: false,
        };
        assert_eq!(
            may_create(&known),
            Err(MachineError::IdentityAlreadyExists),
            "creating over a known identity is refused, keys held or not: {known:?}"
        );
    }
}

#[test]
fn an_unconfirmed_identity_is_published_by_nothing() {
    for private_keys_held in [false, true] {
        let pending = IdentityStatus {
            account_keys_fetched: true,
            identity_known: true,
            private_keys_held,
            account_keys_answer_unsettled: false,
            identity_publication_pending: true,
        };
        assert_eq!(
            may_publish(&pending),
            Err(MachineError::IdentityNotKnown),
            "the launch-time call may not publish an unconfirmed identity: {pending:?}"
        );
        assert_eq!(may_create(&pending), Ok(()), "and finishing it must stay reachable: {pending:?}");
    }
}

#[test]
fn an_account_with_no_identity_is_published_by_nothing() {
    let none = IdentityStatus {
        account_keys_fetched: true,
        identity_known: false,
        private_keys_held: false,
        account_keys_answer_unsettled: false,
        identity_publication_pending: false,
    };
    assert_eq!(may_publish(&none), Err(MachineError::IdentityNotKnown), "nothing to publish: {none:?}");
    assert_eq!(may_create(&none), Ok(()));
}

fn answered_without_identity() -> IdentityStatus {
    IdentityStatus {
        account_keys_fetched: true,
        identity_known: false,
        private_keys_held: false,
        account_keys_answer_unsettled: false,
        identity_publication_pending: false,
    }
}

#[test]
fn a_refusal_for_want_of_an_answer_queues_the_query_that_lifts_it() {
    let unasked = IdentityStatus { account_keys_fetched: false, ..answered_without_identity() };
    assert_eq!(
        bootstrap_identity_step(&unasked),
        Err(Refusal { error: MachineError::AccountKeysNotFetched, queue_account_key_query: true })
    );
    assert_eq!(
        bootstrap_identity_step(&answered_without_identity()),
        Err(Refusal { error: MachineError::IdentityNotKnown, queue_account_key_query: false })
    );
    let held = IdentityStatus { identity_known: true, private_keys_held: true, ..answered_without_identity() };
    assert_eq!(bootstrap_identity_step(&held), Ok(()));
}

#[test]
fn a_creation_is_served_only_on_an_answer_it_asked_for() {
    let status = answered_without_identity();
    let mut state = SigningState::new();

    // No ask outstanding: refused as stale, and the ask is recorded.
    assert_eq!(
        state.create_identity_step(&status, 3),
        Err(Refusal { error: MachineError::AccountKeysStale, queue_account_key_query: true })
    );
    assert!(!state.publication_answer_is_fresh(3));

    // The same count again is still not an answer to that ask.
    assert_eq!(
        state.create_identity_step(&status, 3),
        Err(Refusal { error: MachineError::AccountKeysStale, queue_account_key_query: true })
    );

    // One answer settles: served once, and the ask is spent.
    assert!(state.publication_answer_is_fresh(4));
    assert_eq!(state.create_identity_step(&status, 4), Ok(()));
    assert!(!state.publication_answer_is_fresh(4));
    assert_eq!(
        state.create_identity_step(&status, 4),
        Err(Refusal { error: MachineError::AccountKeysStale, queue_account_key_query: true })
    );
}

#[test]
fn a_creation_over_a_confirmed_identity_is_refused_before_any_ask() {
    let known = IdentityStatus { identity_known: true, ..answered_without_identity() };
    let mut state = SigningState::new();
    assert_eq!(
        state.create_identity_step(&known, 9),
        Err(Refusal { error: MachineError::IdentityAlreadyExists, queue_account_key_query: false })
    );
    assert!(!state.publication_answer_is_fresh(10));
}

#[test]
fn an_arrival_of_private_keys_is_news_exactly_once() {
    let mut state = SigningState::new();
    assert!(!state.note_private_keys_held(false));
    assert!(state.note_private_keys_held(true));
    assert!(!state.note_private_keys_held(true));
    state.seed_private_keys_held(false);
    assert!(state.note_private_keys_held(true));
    state.seed_private_keys_held(true);
    assert!(!state.note_private_keys_held(true));
}

#[test]
fn forgetting_an_ask_makes_no_answer_fresh() {
    let mut state = SigningState::new();
    state.note_publication_asked(2);
    assert!(state.publication_answer_is_fresh(5));
    state.forget_publication_ask_for_test();
    assert!(!state.publication_answer_is_fresh(5));
    state.note_publication_asked(2);
    state.spend_publication_ask();
    assert!(!state.publication_answer_is_fresh(5));
}

#[test]
fn a_republication_never_carries_the_signing_keys_upload() {
    assert_eq!(
        queue_publication(true),
        vec![PublicationPart::DeviceKeysUpload, PublicationPart::SigningKeysUpload, PublicationPart::SignatureUpload]
    );
    assert_eq!(queue_publication(false), vec![PublicationPart::SigningKeysUpload, PublicationPart::SignatureUpload]);
    assert_eq!(queue_republication(true), vec![PublicationPart::DeviceKeysUpload, PublicationPart::SignatureUpload]);
    assert_eq!(queue_republication(false), vec![PublicationPart::SignatureUpload]);
}

#[test]
fn an_unpublished_record_names_exactly_the_identity_held() {
    let key = Some("MASTER".to_string());
    assert!(identity_is_unpublished(&key, &Some("MASTER".to_string())));
    assert!(!identity_is_unpublished(&key, &Some("OTHER".to_string())));
    assert!(!identity_is_unpublished(&key, &None));
    assert!(!identity_is_unpublished(&None, &Some("MASTER".to_string())));
    assert_eq!(unpublished_identity_key(), "org.linagora.rnmc.unpublished_identity");
}
