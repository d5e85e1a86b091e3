use shielded_ledger::params::{ChainParameters, ChainParametersMessage, FmdParameters, ParamsError, Ratio, RatioError};
use std::cmp::Ordering;

#[test]
fn ratio_compares_by_cross_multiplication() {
    assert!(Ratio::new(1, 2) == Ratio::new(2, 4));
    assert!(Ratio::new(1, 3) < Ratio::new(1, 2));
    assert!(Ratio::new(40, 100) > Ratio::new(1, 3));
    assert_eq!(Ratio::new(u64::MAX, 1).compare(&Ratio::new(u64::MAX, 1)), Ordering::Equal);
    assert_eq!(Ratio::new(u64::MAX, u64::MAX - 1).compare(&Ratio::new(1, 1)), Ordering::Greater);
    assert_eq!(Ratio::new(3, 7).numerator(), 3);
    assert_eq!(Ratio::new(3, 7).denominator(), 7);
}

#[test]
fn ratio_parses_numerator_slash_denominator() {
    let r: Ratio = "40/100".parse().unwrap();
    assert_eq!((r.numerator(), r.denominator()), (40, 100));
    let r = Ratio::parse("+5/18446744073709551615").unwrap();
    assert_eq!((r.numerator(), r.denominator()), (5, u64::MAX));
    assert_eq!(Ratio::parse("40").err(), Some(RatioError::MissingDenominator));
    assert_eq!(Ratio::parse("1/2/3").err(), Some(RatioError::TooManyParts));
    assert_eq!(Ratio::parse("a/2").err(), Some(RatioError::InvalidNumber));
    assert_eq!(Ratio::parse("1/").err(), Some(RatioError::InvalidNumber));
    assert_eq!(Ratio::parse("").err(), Some(RatioError::InvalidNumber));
    assert_eq!(Ratio::parse("18446744073709551616/1").err(), Some(RatioError::InvalidNumber));
    assert_eq!(Ratio::parse("+/1").err(), Some(RatioError::InvalidNumber));
}

#[test]
fn fmd_parameters_default() {
    let p = FmdParameters::default();
    assert_eq!(p.precision_bits, 0);
    assert_eq!(p.as_of_block_height, 1);
}

fn message() -> ChainParametersMessage {
    ChainParametersMessage {
        chain_id: "test-chain".to_string(),
        epoch_duration: 719,
        unbonding_epochs: 2,
        active_validator_limit: 80,
        base_reward_rate: 3_0000,
        slashing_penalty_misbehavior: 1000_0000,
        slashing_penalty_downtime: 1_0000,
        signed_blocks_window_len: 10000,
        missed_blocks_maximum: 9500,
        ibc_enabled: true,
        inbound_ics20_transfers_enabled: true,
        outbound_ics20_transfers_enabled: false,
        proposal_voting_blocks: 17_280,
        proposal_deposit_amount: Some(10_000_000),
        proposal_valid_quorum: "40/100".to_string(),
        proposal_pass_threshold: "1/2".to_string(),
        proposal_slash_threshold: "80/100".to_string(),
        dao_spend_proposals_enabled: true,
    }
}

#[test]
fn chain_parameters_decode_their_ratios() {
    let p = ChainParameters::from_message(message()).unwrap();
    assert!(p.proposal_pass_threshold == Ratio::new(50, 100));
    assert_eq!(p.proposal_valid_quorum.numerator(), 40);
    assert_eq!(p.chain_id, "test-chain");
    assert!(!p.outbound_ics20_transfers_enabled);
    let mut m = message();
    m.proposal_deposit_amount = None;
    assert_eq!(ChainParameters::from_message(m).err(), Some(ParamsError::MissingDepositAmount));
    let mut m = message();
    m.proposal_pass_threshold = "1".to_string();
    assert_eq!(ChainParameters::from_message(m).err(), Some(ParamsError::PassThreshold(RatioError::MissingDenominator)));
    let mut m = message();
    m.proposal_slash_threshold = "1/2/3".to_string();
    assert_eq!(ChainParameters::from_message(m).err(), Some(ParamsError::SlashThreshold(RatioError::TooManyParts)));
    let mut m = message();
    m.proposal_valid_quorum = "x/2".to_string();
    assert_eq!(ChainParameters::from_message(m).err(), Some(ParamsError::ValidQuorum(RatioError::InvalidNumber)));
}

#[test]
fn chain_parameters_default() {
    let p = ChainParameters::default();
    assert_eq!(p.epoch_duration, 719);
    assert_eq!(p.proposal_deposit_amount, 10_000_000);
    assert!(p.proposal_slash_threshold == Ratio::new(4, 5));
}
