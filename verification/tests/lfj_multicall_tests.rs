use monad_arb::lfj::lfj_pool_fee;
use monad_arb::address::Address;
use monad_arb::lfj::{decode_active_id_response, decode_bin_step_response, DecodeError};
use monad_arb::multicall::{collect_lfj_readings, plan_batches, strip_bin_step, CallResult, CallType, PriceCall};

fn word(v: u64) -> Vec<u8> {
    let mut w = vec![0u8; 32];
    w[24..].copy_from_slice(&v.to_be_bytes());
    w
}

fn call(name: &str, t: CallType, fee: u32) -> PriceCall {
    PriceCall {
        pool_name: name.to_string(),
        pool_address: Address { high: 0, mid: 0, low: 1 },
        calldata: vec![],
        fee_bps: fee,
        call_type: t,
    }
}

#[test]
fn decodes_lfj_answers() {
    assert_eq!(decode_active_id_response(&word(8_388_608)), Ok(8_388_608));
    assert_eq!(decode_bin_step_response(&word(25)), Ok(25));
    assert_eq!(decode_active_id_response(&[0u8; 31]), Err(DecodeError::Abi));
    assert_eq!(decode_bin_step_response(&[]), Err(DecodeError::Abi));
    // the higher bytes of the word are not looked at
    let mut w = word(5);
    w[0] = 0xff;
    assert_eq!(decode_bin_step_response(&w), Ok(5));
}

#[test]
fn bin_step_names() {
    assert_eq!(strip_bin_step("LFJ_binStep"), "LFJ");
    assert_eq!(strip_bin_step("LFJ"), "LFJ");
    assert_eq!(strip_bin_step("_binStep"), "");
}

#[test]
fn pairs_lfj_answers_by_pool() {
    let calls = vec![
        call("Uniswap", CallType::V3Slot0, 30),
        call("LFJ", CallType::LfjActiveId, 10),
        call("LFJ_binStep", CallType::LfjBinStep, 10),
        call("Other", CallType::LfjActiveId, 20),
        call("Lone_binStep", CallType::LfjBinStep, 20),
    ];
    let results = vec![
        CallResult { success: true, return_data: word(1) },
        CallResult { success: true, return_data: word(8_388_610) },
        CallResult { success: true, return_data: word(15) },
        CallResult { success: false, return_data: word(8_388_600) },
        CallResult { success: true, return_data: word(5) },
    ];
    let r = collect_lfj_readings(&calls, &results);
    assert_eq!(r.len(), 1);
    assert_eq!(r[0].pool_name, "LFJ");
    assert_eq!(r[0].active_id, 8_388_610);
    assert_eq!(r[0].bin_step, 15);
    assert_eq!(r[0].fee_bps, 10);
}

#[test]
fn batch_plans() {
    let b = plan_batches(250, 100, false);
    assert_eq!(b.len(), 3);
    assert_eq!((b[0].start, b[0].end, b[0].pause_after), (0, 100, true));
    assert_eq!((b[1].start, b[1].end, b[1].pause_after), (100, 200, true));
    assert_eq!((b[2].start, b[2].end, b[2].pause_after), (200, 250, false));
    let local = plan_batches(200, 100, true);
    assert_eq!(local.len(), 2);
    assert!(!local[0].pause_after);
    assert!(plan_batches(0, 50, false).is_empty());
}

#[test]
fn lfj_pair_fee() {
    // base factor 5000 at bin step 20: 10 bps
    assert_eq!(lfj_pool_fee(Some(5000), 20), 1000);
    assert_eq!(lfj_pool_fee(None, 15), 1500);
}
