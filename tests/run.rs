use regtest_transfer::classify::{classify, TxOutput};
use regtest_transfer::config::Config;
use regtest_transfer::maturation::{Maturation, MaturationAction};
use regtest_transfer::pipeline::{advance, confirmation_block_hash, Stage};
use regtest_transfer::report::{build_report, render_report, COINBASE_SUBSIDY_SAT};

/// Mines against a fresh chain on which a coinbase output matures after 100
/// further blocks; returns the loop's final action.
fn mature(max_blocks: Option<u64>) -> MaturationAction {
    let mut m = Maturation::new(max_blocks);
    loop {
        match m.next_action() {
            MaturationAction::MineBlock => {
                let height = m.blocks_mined + 1;
                let balance = if height > 100 { (height - 100) * COINBASE_SUBSIDY_SAT } else { 0 };
                m.record_block(balance);
            }
            done => return done,
        }
    }
}

#[test]
fn maturation_takes_101_blocks() {
    assert_eq!(
        mature(None),
        MaturationAction::Done { blocks_mined: 101, balance_sat: 5_000_000_000 }
    );
}

#[test]
fn maturation_guard_gives_up() {
    assert_eq!(mature(Some(50)), MaturationAction::GiveUp { blocks_mined: 50 });
    assert_eq!(mature(Some(0)), MaturationAction::GiveUp { blocks_mined: 0 });
}

#[test]
fn maturation_starts_at_zero() {
    let m = Maturation::new(None);
    assert_eq!(m.blocks_mined, 0);
    assert_eq!(m.balance_sat, 0);
    assert_eq!(m.next_action(), MaturationAction::MineBlock);
}

#[test]
fn full_transfer_report() {
    let outs = vec![
        TxOutput { amount_sat: 2_999_999_859, address: Some("bcrt1qminerchange".to_string()) },
        TxOutput { amount_sat: 2_000_000_000, address: Some("bcrt1qtrader".to_string()) },
    ];
    let sender = "bcrt1qminer".to_string();
    let c = classify(&outs, 2_000_000_000, &sender).unwrap();
    let r = build_report(
        "ab".repeat(32),
        sender,
        COINBASE_SUBSIDY_SAT,
        2_000_000_000,
        c,
        141,
        102,
        "cd".repeat(32),
    );
    let text = render_report(&r);
    let lines: Vec<&str> = text.split('\n').collect();
    assert_eq!(lines.len(), 11);
    assert_eq!(lines[0], "ab".repeat(32));
    assert_eq!(lines[1], "bcrt1qminer");
    assert_eq!(lines[2], "50.0");
    assert_eq!(lines[3], "bcrt1qtrader");
    assert_eq!(lines[4], "20.0");
    assert_eq!(lines[5], "bcrt1qminerchange");
    assert_eq!(lines[6], "29.99999859");
    assert_eq!(lines[7], "0.00000141");
    assert_eq!(lines[8], "102");
    assert_eq!(lines[9], "cd".repeat(32));
    assert_eq!(lines[10], "");
}

#[test]
fn report_without_change() {
    let outs = vec![TxOutput { amount_sat: 2_000_000_000, address: Some("bcrt1qtrader".to_string()) }];
    let sender = "bcrt1qminer".to_string();
    let c = classify(&outs, 2_000_000_000, &sender).unwrap();
    let r = build_report("t".to_string(), sender, COINBASE_SUBSIDY_SAT, 2_000_000_000, c, 0, 7, "h".to_string());
    assert_eq!(
        render_report(&r),
        "t\nbcrt1qminer\n50.0\nbcrt1qtrader\n20.0\nbcrt1qminer\n0.0\n0.00000000\n7\nh\n"
    );
}

#[test]
fn stages_move_forward_or_fail() {
    let mut s = Stage::Init;
    let order = [Stage::WalletsReady, Stage::Matured, Stage::Transferred, Stage::Confirmed, Stage::Reported];
    for next in order {
        s = advance(s, true);
        assert_eq!(s, next);
    }
    assert_eq!(advance(Stage::Reported, false), Stage::Reported);
    assert_eq!(advance(Stage::Matured, false), Stage::Failed);
    assert_eq!(advance(Stage::Failed, true), Stage::Failed);
}

#[test]
fn first_mined_hash_confirms() {
    assert_eq!(confirmation_block_hash(&vec!["aa".to_string(), "bb".to_string()]), Some("aa".to_string()));
    assert_eq!(confirmation_block_hash(&vec![]), None);
}

#[test]
fn regtest_endpoints() {
    let c = Config::regtest_default();
    assert_eq!(c.node_url(), "http://127.0.0.1:18443");
    assert_eq!(c.wallet_url("Miner"), "http://127.0.0.1:18443/wallet/Miner");
    assert_eq!(c.transfer_amount_sat, 2_000_000_000);
    assert_eq!(c.output_path, "../out.txt");
}
