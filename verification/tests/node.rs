use xenom_miner::evaluator::{hash, Solution};
use xenom_miner::hexcode::InputError;
use xenom_miner::mine_loop::{
    begin, mine_loop, LoopAction, LoopEvent, LoopState, NEXT_TEMPLATE_DELAY_MS, RETRY_DELAY_MS,
};
use xenom_miner::node_client::{
    has_explicit_target, MiningSubmission, MiningTemplate, NodeClient, SubmissionResponse,
};
use xenom_miner::target::compact_bits_to_target;

fn template(header: &str, bits: &str, target: &str) -> MiningTemplate {
    MiningTemplate {
        height: 42,
        header_prefix_hex: header.to_string(),
        difficulty_bits: bits.to_string(),
        target_hex: target.to_string(),
        timestamp: 1_700_000_000,
        miner_address: "miner".to_string(),
    }
}

fn solution(mv: &[u8]) -> Solution {
    Solution { mutation_vector: mv.to_vec(), digest: hash(b"", mv) }
}

#[test]
fn a_target_field_names_a_target_unless_empty_or_null() {
    assert!(has_explicit_target("00ff"));
    assert!(has_explicit_target("nul"));
    assert!(has_explicit_target("nulls"));
    assert!(has_explicit_target("NULL"));
    assert!(has_explicit_target("zz"));
    assert!(!has_explicit_target(""));
    assert!(!has_explicit_target("null"));
}

#[test]
fn a_template_with_a_target_uses_it() {
    let t = template("0a0b", "1f00ffff", "01ff");
    let (header, target) = t.work().unwrap();
    assert_eq!(header, vec![0x0a, 0x0b]);
    let mut expected = [0u8; 32];
    expected[30] = 0x01;
    expected[31] = 0xff;
    assert_eq!(target.bytes, expected);
    assert_eq!(t.target().unwrap().bytes, expected);
    assert_eq!(t.header_prefix(), Ok(vec![0x0a, 0x0b]));
    let t = template("", "junk", "01ff");
    assert_eq!(t.work().unwrap().1.bytes, expected);
}

#[test]
fn a_template_without_a_target_uses_its_bits() {
    for target in ["", "null"] {
        let t = template("0a0b", "1f00ffff", target);
        let (header, target) = t.work().unwrap();
        assert_eq!(header, vec![0x0a, 0x0b]);
        assert_eq!(target.bytes, compact_bits_to_target(0x1f00ffff).bytes);
    }
}

#[test]
fn a_defective_template_is_rejected() {
    assert_eq!(template("0a0", "1f00ffff", "01ff").work().err(), Some(InputError::MalformedHex));
    assert_eq!(template("0a0b", "1f00ffff", "01f").work().err(), Some(InputError::MalformedHex));
    assert_eq!(template("0a0b", "xyz", "").work().err(), Some(InputError::InvalidBits));
    assert_eq!(template("0a0b", "", "null").work().err(), Some(InputError::InvalidBits));
    assert_eq!(template("zz", "xyz", "").work().err(), Some(InputError::MalformedHex));
    assert_eq!(template("0a0b", "xyz", "").target().err(), Some(InputError::InvalidBits));
    assert_eq!(template("0a0", "1f", "").header_prefix(), Err(InputError::MalformedHex));
}

#[test]
fn a_submission_carries_the_vector_in_hex() {
    let s = MiningSubmission::for_solution(7, &solution(&[0x00, 0xab, 0xff]), 99, None);
    assert_eq!(s.height, 7);
    assert_eq!(s.timestamp, 99);
    assert_eq!(s.mutation_vector_hex, "00abff");
    assert_eq!(s.miner_address, None);
    let s = MiningSubmission::for_solution(7, &solution(&[]), 99, Some("addr".to_string()));
    assert_eq!(s.mutation_vector_hex, "");
    assert_eq!(s.miner_address, Some("addr".to_string()));
}

#[test]
fn the_loop_fetches_mines_submits_and_pauses() {
    let address = Some("addr".to_string());
    let (state, action) = begin();
    assert_eq!(state, LoopState::Fetching);
    assert!(matches!(action, LoopAction::Fetch));
    let event = LoopEvent::Template(template("0a0b", "1f00ffff", ""));
    let (state, action) = mine_loop(state, event, &address);
    assert_eq!(state, LoopState::Mining { height: 42, timestamp: 1_700_000_000 });
    match action {
        LoopAction::Mine { header_prefix, target } => {
            assert_eq!(header_prefix, vec![0x0a, 0x0b]);
            assert_eq!(target.bytes, compact_bits_to_target(0x1f00ffff).bytes);
        }
        _ => panic!("the work is to be searched"),
    }
    let (state, action) = mine_loop(state, LoopEvent::Mined(Some(solution(&[1, 2]))), &address);
    assert_eq!(state, LoopState::Submitting);
    match action {
        LoopAction::Submit(s) => {
            assert_eq!((s.height, s.timestamp), (42, 1_700_000_000));
            assert_eq!(s.mutation_vector_hex, "0102");
            assert_eq!(s.miner_address, address);
        }
        _ => panic!("the solution is to be submitted"),
    }
    let response =
        SubmissionResponse { success: true, message: "ok".to_string(), hash: None };
    let (state, action) = mine_loop(state, LoopEvent::Submitted(response), &address);
    assert_eq!(state, LoopState::Pausing);
    assert!(matches!(action, LoopAction::Wait(NEXT_TEMPLATE_DELAY_MS)));
    let (state, action) = mine_loop(state, LoopEvent::Waited, &address);
    assert_eq!(state, LoopState::Fetching);
    assert!(matches!(action, LoopAction::Fetch));
}

#[test]
fn the_loop_goes_on_after_a_rejection_or_a_lost_submission() {
    let response =
        SubmissionResponse { success: false, message: "stale".to_string(), hash: None };
    let (state, action) = mine_loop(LoopState::Submitting, LoopEvent::Submitted(response), &None);
    assert_eq!(state, LoopState::Pausing);
    assert!(matches!(action, LoopAction::Wait(500)));
    let (state, action) = mine_loop(LoopState::Submitting, LoopEvent::SubmitFailed, &None);
    assert_eq!(state, LoopState::Pausing);
    assert!(matches!(action, LoopAction::Wait(500)));
    let mining = LoopState::Mining { height: 1, timestamp: 2 };
    let (state, action) = mine_loop(mining, LoopEvent::Mined(None), &None);
    assert_eq!(state, LoopState::Pausing);
    assert!(matches!(action, LoopAction::Wait(500)));
}

#[test]
fn a_failed_fetch_is_tried_again_after_a_delay() {
    let (state, action) = mine_loop(LoopState::Fetching, LoopEvent::FetchFailed, &None);
    assert_eq!(state, LoopState::Retrying);
    assert!(matches!(action, LoopAction::Wait(RETRY_DELAY_MS)));
    assert_eq!(RETRY_DELAY_MS, 5000);
    let (state, action) = mine_loop(state, LoopEvent::Waited, &None);
    assert_eq!(state, LoopState::Fetching);
    assert!(matches!(action, LoopAction::Fetch));
}

#[test]
fn a_defective_template_ends_the_loop() {
    let event = LoopEvent::Template(template("0a0b", "xyz", ""));
    let (state, action) = mine_loop(LoopState::Fetching, event, &None);
    assert_eq!(state, LoopState::Stopped(InputError::InvalidBits));
    assert!(matches!(action, LoopAction::Abort(InputError::InvalidBits)));
    let (state, action) = mine_loop(state, LoopEvent::Waited, &None);
    assert_eq!(state, LoopState::Stopped(InputError::InvalidBits));
    assert!(matches!(action, LoopAction::Abort(InputError::InvalidBits)));
    let event = LoopEvent::Template(template("0", "1f00ffff", ""));
    let (state, _) = mine_loop(LoopState::Fetching, event, &None);
    assert_eq!(state, LoopState::Stopped(InputError::MalformedHex));
}

#[test]
fn an_event_out_of_place_asks_for_a_fresh_template() {
    let cases = [
        (LoopState::Fetching, LoopEvent::Waited),
        (LoopState::Retrying, LoopEvent::FetchFailed),
        (LoopState::Pausing, LoopEvent::Mined(None)),
        (LoopState::Submitting, LoopEvent::Waited),
        (LoopState::Mining { height: 1, timestamp: 2 }, LoopEvent::SubmitFailed),
    ];
    for (state, event) in cases {
        let (state, action) = mine_loop(state, event, &None);
        assert_eq!(state, LoopState::Fetching);
        assert!(matches!(action, LoopAction::Fetch));
    }
}

#[test]
fn a_client_knows_where_to_fetch_and_where_to_submit() {
    let client = NodeClient::new("http://localhost:36669".to_string());
    assert_eq!(client.miner_address, None);
    assert_eq!(client.template_url(), "http://localhost:36669/mining/template");
    assert_eq!(client.submit_url(), "http://localhost:36669/mining/submit");
    let client = client.with_miner_address("xen1abc".to_string());
    assert_eq!(client.base_url, "http://localhost:36669");
    assert_eq!(client.miner_address, Some("xen1abc".to_string()));
    assert_eq!(
        client.template_url(),
        "http://localhost:36669/mining/template?address=xen1abc"
    );
    assert_eq!(client.submit_url(), "http://localhost:36669/mining/submit");
    assert_eq!(NodeClient::new(String::new()).template_url(), "/mining/template");
}
