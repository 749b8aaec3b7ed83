use tikka::creation::RaffleDeployment;
use tikka::types::{
    effective_limit, AdminOp, ConfigKey, FactoryEvent, LeaderboardMetric, PaginationParams,
    RaffleConfig, RecurringRaffleConfig, TIMELOCK_DELAY_SECONDS,
};
use tikka::{Address, ContractError, RaffleFactory};

const ZERO_CONTRACT: &str = "CAAAAAAAAAAAAAAAAAAAAAAAAAAAAAAAAAAAAAAAAAAAAAAAAAAABSC4";

fn addr(s: &str) -> Address {
    Address::from_strkey(s.to_string())
}

fn test_env() -> soroban_sdk::Env {
    soroban_sdk::Env::new_with_config(soroban_sdk::testutils::EnvTestConfig {
        capture_snapshot_at_drop: false,
    })
}

/// An initialized factory: admin `GADMIN`, treasury `GTREASURY`, no fee, no
/// creation delay.
fn setup_factory() -> (RaffleFactory, Vec<FactoryEvent>) {
    let mut f = RaffleFactory::new(addr("CFACTORY"));
    let mut events = Vec::new();
    f.init_factory(&mut events, 0, addr("GADMIN"), [0u8; 32], 0, addr("GTREASURY"))
        .unwrap();
    f.set_creation_delay(&addr("GADMIN"), 0).unwrap();
    (f, events)
}

fn config(description: &str, category: Option<&str>) -> RaffleConfig {
    RaffleConfig {
        description: description.to_string(),
        category: category.map(|c| c.to_string()),
        protocol_fee_bp: 0,
        treasury_address: None,
    }
}

/// Creates a raffle for `creator` at `now`, deploying it at `raffle`.
fn create(
    f: &mut RaffleFactory,
    events: &mut Vec<FactoryEvent>,
    env: &soroban_sdk::Env,
    now: u64,
    creator: &str,
    raffle: &str,
    category: Option<&str>,
) -> Result<u32, ContractError> {
    let deployment: RaffleDeployment =
        f.create_raffle(events, now, &addr(creator), addr(creator), config(raffle, category))?;
    Ok(f.register_raffle(
        events,
        env,
        now,
        1,
        deployment.creator,
        deployment.config.category,
        addr(raffle),
    ))
}

fn page(limit: u32, offset: u32) -> PaginationParams {
    PaginationParams { limit, offset }
}

fn strkeys(v: &[Address]) -> Vec<String> {
    v.iter().map(|a| a.strkey.clone()).collect()
}

#[test]
fn every_factory_admin_entrypoint_succeeds_for_admin() {
    let (mut f, mut events) = setup_factory();
    let admin = addr("GADMIN");

    for entrypoint in ["pause_factory", "unpause_factory"] {
        match entrypoint {
            "pause_factory" => f.pause_factory(&mut events, 0, &admin).unwrap(),
            "unpause_factory" => f.unpause_factory(&mut events, 0, &admin).unwrap(),
            _ => unreachable!(),
        }
    }

    assert!(!f.is_factory_paused());
}

#[test]
fn every_factory_admin_entrypoint_rejects_non_admin() {
    let (mut f, mut events) = setup_factory();
    let stranger = addr("GSTRANGER");

    for entrypoint in ["pause_factory", "unpause_factory"] {
        let result = match entrypoint {
            "pause_factory" => f.pause_factory(&mut events, 0, &stranger),
            "unpause_factory" => f.unpause_factory(&mut events, 0, &stranger),
            _ => unreachable!(),
        };
        assert!(result.is_err());
    }
}

#[test]
fn init_factory_records_configuration() {
    let mut f = RaffleFactory::new(addr("CFACTORY"));
    let mut events = Vec::new();
    f.init_factory(&mut events, 77, addr("GADMIN"), [9u8; 32], 250, addr("GTREASURY"))
        .unwrap();
    assert_eq!(f.get_admin().unwrap().strkey, "GADMIN");
    let stats = f.get_protocol_stats();
    assert_eq!(stats.protocol_fee_bp, 250);
    assert_eq!(stats.total_raffles_created, 0);
    assert!(!stats.paused);
    assert_eq!(events.len(), 1);
    match &events[0] {
        FactoryEvent::FactoryInitialized { admin, protocol_fee_bp, treasury, timestamp } => {
            assert_eq!(admin.strkey, "GADMIN");
            assert_eq!(*protocol_fee_bp, 250);
            assert_eq!(treasury.strkey, "GTREASURY");
            assert_eq!(*timestamp, 77);
        },
        _ => panic!("expected FactoryInitialized"),
    }
}

#[test]
fn init_factory_rejects_bad_input() {
    let (mut f, mut events) = setup_factory();
    assert_eq!(
        f.init_factory(&mut events, 0, addr("GADMIN"), [0u8; 32], 0, addr("GTREASURY")),
        Err(ContractError::AlreadyInitialized)
    );
    let cases = [
        ("GADMIN", 2001u32, "GTREASURY"),
        ("CFACTORY", 0, "GTREASURY"),
        ("GADMIN", 0, "CFACTORY"),
        (ZERO_CONTRACT, 0, "GTREASURY"),
        ("GADMIN", 0, ZERO_CONTRACT),
    ];
    for (admin, fee, treasury) in cases {
        let mut g = RaffleFactory::new(addr("CFACTORY"));
        let mut ev = Vec::new();
        assert_eq!(
            g.init_factory(&mut ev, 0, addr(admin), [0u8; 32], fee, addr(treasury)),
            Err(ContractError::InvalidParameters)
        );
        assert!(g.get_admin().is_err());
        assert!(ev.is_empty());
    }
}

#[test]
fn fee_change_waits_for_the_timelock() {
    let (mut f, mut events) = setup_factory();
    let admin = addr("GADMIN");
    let op_id = f.propose_fee_change(&mut events, 1_000, &admin, 500).unwrap();
    assert_eq!(op_id, 1);
    assert_eq!(f.get_op_counter(), 1);
    assert_eq!(f.get_pending_op(op_id).unwrap().effective_timestamp, 1_000 + TIMELOCK_DELAY_SECONDS);
    assert_eq!(
        f.execute_config_change(&mut events, 1_000 + TIMELOCK_DELAY_SECONDS - 1, &admin, op_id),
        Err(ContractError::TimelockNotElapsed)
    );
    assert_eq!(f.get_protocol_stats().protocol_fee_bp, 0);
    f.execute_config_change(&mut events, 1_000 + TIMELOCK_DELAY_SECONDS, &admin, op_id).unwrap();
    assert_eq!(f.get_protocol_stats().protocol_fee_bp, 500);
    assert!(f.get_pending_op(op_id).is_none());
    assert_eq!(
        f.execute_config_change(&mut events, 1_000 + TIMELOCK_DELAY_SECONDS, &admin, op_id),
        Err(ContractError::NoPendingOp)
    );
}

#[test]
fn propose_fee_change_rejects_excessive_protocol_fee() {
    let (mut f, mut events) = setup_factory();
    assert_eq!(
        f.propose_fee_change(&mut events, 0, &addr("GADMIN"), 2_001),
        Err(ContractError::InvalidParameters)
    );
    assert_eq!(
        f.propose_fee_change(&mut events, 0, &addr("GSTRANGER"), 10),
        Err(ContractError::NotAuthorized)
    );
    assert_eq!(f.get_op_counter(), 0);
}

#[test]
fn cancelled_change_cannot_be_executed() {
    let (mut f, mut events) = setup_factory();
    let admin = addr("GADMIN");
    let op_id = f.propose_wasm_upgrade(&mut events, 0, &admin, [7u8; 32]).unwrap();
    f.cancel_config_change(&mut events, 5, &admin, op_id).unwrap();
    assert_eq!(
        f.cancel_config_change(&mut events, 5, &admin, op_id),
        Err(ContractError::NoPendingOp)
    );
    assert_eq!(
        f.execute_config_change(&mut events, TIMELOCK_DELAY_SECONDS, &admin, op_id),
        Err(ContractError::NoPendingOp)
    );
}

#[test]
fn treasury_change_is_validated_when_proposed_and_applied() {
    let (mut f, mut events) = setup_factory();
    let admin = addr("GADMIN");
    assert_eq!(
        f.set_config(&mut events, 0, &admin, ConfigKey::Treasury, addr("CFACTORY")),
        Err(ContractError::InvalidParameters)
    );
    let op_id = f.set_config(&mut events, 0, &admin, ConfigKey::Treasury, addr("GNEWTREASURY")).unwrap();
    assert_eq!(op_id, 1);
    assert_eq!(
        f.set_config(&mut events, 0, &admin, ConfigKey::Treasury, addr(ZERO_CONTRACT)),
        Err(ContractError::InvalidParameters)
    );
    f.execute_config_change(&mut events, TIMELOCK_DELAY_SECONDS, &admin, op_id).unwrap();
    assert_eq!(f.treasury.as_ref().unwrap().strkey, "GNEWTREASURY");
}

#[test]
fn executed_operation_publishes_execution_record() {
    let (mut f, mut events) = setup_factory();
    let admin = addr("GADMIN");
    let op_id = f.propose_wasm_upgrade(&mut events, 0, &admin, [3u8; 32]).unwrap();
    let before = events.len();
    f.execute_config_change(&mut events, TIMELOCK_DELAY_SECONDS, &admin, op_id).unwrap();
    assert_eq!(f.instance_wasm_hash, Some([3u8; 32]));
    assert_eq!(events.len(), before + 1);
    match &events[before] {
        FactoryEvent::AdminOpExecuted { op_id: id, op, executed_at, .. } => {
            assert_eq!(*id, op_id);
            assert!(matches!(op, AdminOp::UpdateWasmHash(h) if *h == [3u8; 32]));
            assert_eq!(*executed_at, TIMELOCK_DELAY_SECONDS);
        },
        _ => panic!("expected AdminOpExecuted"),
    }
}

#[test]
fn create_raffle_registers_with_stable_ids() {
    let env = test_env();
    let (mut f, mut events) = setup_factory();
    assert_eq!(f.get_next_raffle_id(), 0);
    let id0 = create(&mut f, &mut events, &env, 10, "GCREATOR", "CRAFFLE0", Some("art")).unwrap();
    let id1 = create(&mut f, &mut events, &env, 20, "GCREATOR", "CRAFFLE1", None).unwrap();
    assert_eq!((id0, id1), (0, 1));
    assert_eq!(f.get_raffle_by_id(1).unwrap().strkey, "CRAFFLE1");
    assert_eq!(f.get_next_raffle_id(), 2);
    assert_eq!(f.get_raffle_count(), 2);
    assert_eq!(f.get_protocol_stats().total_raffles_created, 2);
    let mine = f.get_raffles_by_creator(&addr("GCREATOR"), page(0, 0));
    assert_eq!(strkeys(&mine.items), vec!["CRAFFLE0", "CRAFFLE1"]);
    let art = f.get_raffles_by_category(&"art".to_string(), page(0, 0));
    assert_eq!(strkeys(&art.items), vec!["CRAFFLE0"]);
    assert_eq!(f.get_profile(&addr("GCREATOR")).raffles_created, 2);
}

#[test]
fn create_raffle_injects_fee_and_treasury() {
    let (mut f, mut events) = setup_factory();
    f.protocol_fee_bp = 300;
    let mut c = config("fees", None);
    c.protocol_fee_bp = 9;
    c.treasury_address = Some(addr("GELSEWHERE"));
    let d = f.create_raffle(&mut events, 0, &addr("GCREATOR"), addr("GCREATOR"), c).unwrap();
    assert_eq!(d.config.protocol_fee_bp, 300);
    assert_eq!(d.config.treasury_address.unwrap().strkey, "GTREASURY");
    assert_eq!(d.admin.strkey, "GADMIN");
    assert_eq!(d.wasm_hash, [0u8; 32]);
    assert_eq!(d.nonce, u64::from(f.get_next_raffle_id()));
    assert_eq!(d.config.description, "fees");
}

#[test]
fn create_raffle_checks_in_order() {
    let (mut f, mut events) = setup_factory();
    let creator = addr("GCREATOR");
    assert_eq!(
        f.create_raffle(&mut events, 0, &addr("GOTHER"), addr("GCREATOR"), config("x", None)).err(),
        Some(ContractError::NotAuthorized)
    );
    f.pause_factory(&mut events, 0, &addr("GADMIN")).unwrap();
    assert_eq!(
        f.create_raffle(&mut events, 0, &creator, addr("GCREATOR"), config("x", None)).err(),
        Some(ContractError::ContractPaused)
    );
    f.unpause_factory(&mut events, 0, &addr("GADMIN")).unwrap();
    f.set_creation_paused(&mut events, 0, &addr("GADMIN"), true).unwrap();
    assert!(f.is_creation_paused());
    assert_eq!(
        f.create_raffle(&mut events, 0, &creator, addr("GCREATOR"), config("x", None)).err(),
        Some(ContractError::CreationPaused)
    );
    let mut fresh = RaffleFactory::new(addr("CFACTORY"));
    assert_eq!(
        fresh.create_raffle(&mut events, 1_000, &creator, addr("GCREATOR"), config("x", None)).err(),
        Some(ContractError::TreasuryNotSet)
    );
}

#[test]
fn non_whitelisted_creator_is_rate_limited() {
    let env = test_env();
    let (mut f, mut events) = setup_factory();
    let delay: u64 = 300;
    f.set_creation_delay(&addr("GADMIN"), delay).unwrap();

    create(&mut f, &mut events, &env, 1_000, "GCREATOR", "CR1", None).unwrap();

    let start_events = events.len();
    assert_eq!(
        create(&mut f, &mut events, &env, 1_000, "GCREATOR", "CR2", None),
        Err(ContractError::RateLimitExceeded)
    );
    assert_eq!(events.len(), start_events + 1);
    match &events[start_events] {
        FactoryEvent::CreationRateLimited { creator, unlock_timestamp, timestamp } => {
            assert_eq!(creator.strkey, "GCREATOR");
            assert_eq!(*unlock_timestamp, 1_300);
            assert_eq!(*timestamp, 1_000);
        },
        _ => panic!("expected CreationRateLimited"),
    }

    create(&mut f, &mut events, &env, 1_000 + delay, "GCREATOR", "CR3", None).unwrap();
}

#[test]
fn whitelisted_partner_bypasses_rate_limit() {
    let env = test_env();
    let (mut f, mut events) = setup_factory();
    f.set_creation_delay(&addr("GADMIN"), 300).unwrap();
    f.set_whitelist_status(&addr("GADMIN"), addr("GPARTNER"), true).unwrap();
    create(&mut f, &mut events, &env, 1_000, "GPARTNER", "CW1", None).unwrap();
    create(&mut f, &mut events, &env, 1_000, "GPARTNER", "CW2", None).unwrap();
}

#[test]
fn partner_dashboard_tracks_stats_across_creations() {
    let env = test_env();
    let (mut f, mut events) = setup_factory();
    let partner = addr("GPARTNER");
    let outsider = addr("GOUTSIDER");

    assert!(f.get_partner_stats(&partner).is_none());
    f.set_whitelist_status(&addr("GADMIN"), addr("GPARTNER"), true).unwrap();

    let empty = f.get_partner_stats(&partner).unwrap();
    assert_eq!(empty.total_raffles, 0);
    assert_eq!(empty.total_volume, 0);
    assert_eq!(empty.total_fees_generated, 0);

    let partners = f.get_all_partners(page(10, 0));
    assert_eq!(strkeys(&partners), vec!["GPARTNER"]);

    create(&mut f, &mut events, &env, 5_000, "GPARTNER", "CP1", None).unwrap();
    create(&mut f, &mut events, &env, 5_100, "GPARTNER", "CP2", None).unwrap();
    create(&mut f, &mut events, &env, 5_200, "GPARTNER", "CP3", None).unwrap();

    let stats = f.get_partner_stats(&partner).unwrap();
    assert_eq!(stats.total_raffles, 3);
    assert_eq!(stats.first_raffle_at, 5_000);
    assert_eq!(stats.latest_raffle_at, 5_200);
    assert_eq!(stats.total_volume, 0);
    assert_eq!(stats.total_fees_generated, 0);

    assert!(f.get_partner_stats(&outsider).is_none());
    f.set_whitelist_status(&addr("GADMIN"), addr("GPARTNER"), false).unwrap();
    assert!(f.get_partner_stats(&partner).is_none());
    assert_eq!(f.get_all_partners(page(10, 0)).len(), 0);
}

#[test]
fn whitelisting_twice_lists_once() {
    let (mut f, _events) = setup_factory();
    let admin = addr("GADMIN");
    f.set_whitelist_status(&admin, addr("GP1"), true).unwrap();
    f.set_whitelist_status(&admin, addr("GP2"), true).unwrap();
    f.set_whitelist_status(&admin, addr("GP1"), true).unwrap();
    f.set_whitelist_status(&admin, addr("GP3"), true).unwrap();
    assert_eq!(strkeys(&f.get_all_partners(page(0, 0))), vec!["GP1", "GP2", "GP3"]);
    f.set_whitelist_status(&admin, addr("GP2"), false).unwrap();
    assert_eq!(strkeys(&f.get_all_partners(page(0, 0))), vec!["GP1", "GP3"]);
    assert_eq!(strkeys(&f.get_all_partners(page(1, 1))), vec!["GP3"]);
    assert_eq!(
        f.set_whitelist_status(&addr("GSTRANGER"), addr("GP4"), true),
        Err(ContractError::NotAuthorized)
    );
}

#[test]
fn set_creation_delay_affects_rate_limiter() {
    let env = test_env();
    let (mut f, mut events) = setup_factory();
    f.set_creation_delay(&addr("GADMIN"), 60).unwrap();
    create(&mut f, &mut events, &env, 1_000, "GCREATOR", "CD1", None).unwrap();
    let start_events = events.len();
    assert_eq!(
        create(&mut f, &mut events, &env, 1_059, "GCREATOR", "CD2", None),
        Err(ContractError::RateLimitExceeded)
    );
    assert_eq!(events.len(), start_events + 1);
    create(&mut f, &mut events, &env, 1_060, "GCREATOR", "CD3", None).unwrap();
}

#[test]
fn checkpoint_is_taken_every_thousand_raffles() {
    let env = test_env();
    let (mut f, mut events) = setup_factory();
    f.set_whitelist_status(&addr("GADMIN"), addr("GPARTNER"), true).unwrap();
    for i in 0..1000u32 {
        let name = format!("CR{i}");
        create(&mut f, &mut events, &env, 5_000, "GPARTNER", &name, None).unwrap();
    }
    assert_eq!(f.get_latest_checkpoint_index(), 1);
    let c = f.get_checkpoint(1).unwrap();
    assert_eq!(c.index, 1);
    assert_eq!(c.raffle_count, 1000);
    assert_eq!(c.ledger_timestamp, 5_000);
    assert_eq!(
        c.aggregate_hash,
        tikka::hashing::checkpoint_digest(&env, 1000, 1, 5_000)
    );
    assert!(f.get_checkpoint(2).is_none());
    let checkpoints = events
        .iter()
        .filter(|e| matches!(e, FactoryEvent::CheckpointCreated { .. }))
        .count();
    assert_eq!(checkpoints, 1);
}

#[test]
fn get_raffles_page_skips_tombstoned_slots() {
    let env = test_env();
    let (mut f, mut events) = setup_factory();
    f.set_whitelist_status(&addr("GADMIN"), addr("GPARTNER"), true).unwrap();
    for i in 0..5u32 {
        let name = format!("CR{i}");
        create(&mut f, &mut events, &env, 0, "GPARTNER", &name, None).unwrap();
    }
    let cleaned = f.clean_old_raffle(&mut events, 9, &addr("GADMIN"), 2).unwrap();
    assert_eq!(cleaned.strkey, "CR2");
    assert!(f.get_raffle_by_id(2).is_none());
    let p = f.get_raffles_page(page(10, 0));
    assert_eq!(strkeys(&p.items), vec!["CR0", "CR1", "CR3", "CR4"]);
    assert_eq!(p.total, 4);
    assert!(!p.has_more);
    let p = f.get_raffles_page(page(2, 1));
    assert_eq!(strkeys(&p.items), vec!["CR1"]);
    assert!(p.has_more);
    assert_eq!(
        f.clean_old_raffle(&mut events, 9, &addr("GADMIN"), 2).err(),
        Some(ContractError::InvalidRaffleId)
    );
    assert_eq!(
        f.clean_old_raffle(&mut events, 9, &addr("GADMIN"), 77).err(),
        Some(ContractError::InvalidRaffleId)
    );
    let next = create(&mut f, &mut events, &env, 0, "GPARTNER", "CR5", None).unwrap();
    assert_eq!(next, 5);
    assert!(f.get_raffle_by_id(2).is_none());
}

#[test]
fn get_raffles_page_limits() {
    let env = test_env();
    let (mut f, mut events) = setup_factory();
    let empty = f.get_raffles_page(page(0, 0));
    assert!(empty.items.is_empty());
    assert_eq!(empty.total, 0);
    assert!(!empty.has_more);
    f.set_whitelist_status(&addr("GADMIN"), addr("GPARTNER"), true).unwrap();
    for i in 0..250u32 {
        let name = format!("CR{i}");
        create(&mut f, &mut events, &env, 0, "GPARTNER", &name, None).unwrap();
    }
    let default_page = f.get_raffles_page(page(0, 0));
    assert_eq!(default_page.items.len(), 100);
    assert!(default_page.has_more);
    let clamped = f.get_raffles_page(page(1_000, 0));
    assert_eq!(clamped.items.len(), 200);
    let last = f.get_raffles_page(page(100, 200));
    assert_eq!(last.items.len(), 50);
    assert!(!last.has_more);
    assert!(f.get_raffles_page(page(10, 300)).items.is_empty());
    assert_eq!(effective_limit(0), 100);
    assert_eq!(effective_limit(201), 200);
    assert_eq!(effective_limit(7), 7);
}

#[test]
fn get_raffles_by_creator_pagination() {
    let env = test_env();
    let (mut f, mut events) = setup_factory();
    for i in 0..5u32 {
        let name = format!("CA{i}");
        create(&mut f, &mut events, &env, 0, "GALICE", &name, None).unwrap();
    }
    create(&mut f, &mut events, &env, 0, "GBOB", "CB0", None).unwrap();
    let p = f.get_raffles_by_creator(&addr("GALICE"), page(2, 2));
    assert_eq!(strkeys(&p.items), vec!["CA2", "CA3"]);
    assert_eq!(p.total, 5);
    assert!(p.has_more);
    let p = f.get_raffles_by_creator(&addr("GALICE"), page(2, 4));
    assert_eq!(strkeys(&p.items), vec!["CA4"]);
    assert!(!p.has_more);
    let p = f.get_raffles_by_creator(&addr("GBOB"), page(0, 0));
    assert_eq!(strkeys(&p.items), vec!["CB0"]);
    let p = f.get_raffles_by_creator(&addr("GNOBODY"), page(0, 0));
    assert!(p.items.is_empty());
    assert_eq!(p.total, 0);
}

#[test]
fn get_raffles_by_category_unknown_is_empty() {
    let (f, _events) = setup_factory();
    let p = f.get_raffles_by_category(&"nothing".to_string(), page(10, 0));
    assert!(p.items.is_empty());
    assert_eq!(p.total, 0);
    assert!(!p.has_more);
}

#[test]
fn admin_transfer_two_step_completes_correctly() {
    let (mut f, mut events) = setup_factory();
    let admin = addr("GADMIN");
    f.transfer_factory_admin(&mut events, 1, &admin, addr("GNEW")).unwrap();
    assert_eq!(f.get_admin().unwrap().strkey, "GADMIN");
    assert_eq!(
        f.transfer_factory_admin(&mut events, 1, &admin, addr("GOTHER")),
        Err(ContractError::AdminTransferPending)
    );
    assert_eq!(
        f.accept_factory_admin(&mut events, 2, &addr("GOTHER")),
        Err(ContractError::NotAuthorized)
    );
    f.accept_factory_admin(&mut events, 2, &addr("GNEW")).unwrap();
    assert_eq!(f.get_admin().unwrap().strkey, "GNEW");
    assert_eq!(
        f.accept_factory_admin(&mut events, 3, &addr("GNEW")),
        Err(ContractError::NoPendingTransfer)
    );
    assert_eq!(f.pause_factory(&mut events, 3, &admin), Err(ContractError::NotAuthorized));
    f.pause_factory(&mut events, 3, &addr("GNEW")).unwrap();
}

#[test]
fn admin_transfer_to_same_address_clears_pending() {
    let (mut f, mut events) = setup_factory();
    let admin = addr("GADMIN");
    f.transfer_factory_admin(&mut events, 1, &admin, addr("GNEW")).unwrap();
    f.transfer_factory_admin(&mut events, 1, &admin, addr("GADMIN")).unwrap();
    assert!(f.pending_admin.is_none());
    assert_eq!(
        f.accept_factory_admin(&mut events, 2, &addr("GNEW")),
        Err(ContractError::NoPendingTransfer)
    );
    assert_eq!(
        f.transfer_factory_admin(&mut events, 1, &admin, addr("CFACTORY")),
        Err(ContractError::InvalidParameters)
    );
    assert_eq!(
        f.transfer_factory_admin(&mut events, 1, &admin, addr(ZERO_CONTRACT)),
        Err(ContractError::InvalidParameters)
    );
    f.transfer_factory_admin(&mut events, 1, &admin, addr("GNOTYETONLEDGER")).unwrap();
    assert_eq!(f.pending_admin.as_ref().unwrap().strkey, "GNOTYETONLEDGER");
}

fn recurring(interval_seconds: u64, max_rounds: u32, auto_fund: bool) -> RecurringRaffleConfig {
    RecurringRaffleConfig {
        base_config: config("weekly", Some("games")),
        interval_seconds,
        max_rounds,
        auto_fund,
    }
}

#[test]
fn recurring_raffle_runs_its_rounds() {
    let env = test_env();
    let (mut f, mut events) = setup_factory();
    let creator = addr("GCREATOR");
    let id = f.create_recurring_raffle(&mut events, 1_000, &creator, addr("GCREATOR"), recurring(3_600, 2, true)).unwrap();
    assert_eq!(id, 0);
    let id2 = f.create_recurring_raffle(&mut events, 1_000, &creator, addr("GCREATOR"), recurring(3_600, 0, false)).unwrap();
    assert_eq!(id2, 1);
    assert!(f.get_recurring_instances(id).is_empty());
    assert_eq!(f.get_recurring_raffle(id).unwrap().next_due, 4_600);

    assert_eq!(f.trigger_next_round(4_599, id).err(), Some(ContractError::IntervalNotElapsed));
    let d = f.trigger_next_round(4_600, id).unwrap();
    assert_eq!(d.creator.strkey, "GCREATOR");
    assert_eq!(d.config.description, "weekly");
    let round = f.register_round_raffle(&mut events, &env, 4_600, 1, id, addr("CROUND1"));
    assert_eq!(round, 1);
    let entry = f.get_recurring_raffle(id).unwrap();
    assert_eq!(entry.current_round, 1);
    assert_eq!(entry.next_due, 8_200);
    assert_eq!(entry.last_raffle_address.unwrap().strkey, "CROUND1");
    assert_eq!(strkeys(&f.get_recurring_instances(id)), vec!["CROUND1"]);
    assert_eq!(f.get_raffle_by_id(0).unwrap().strkey, "CROUND1");

    f.trigger_next_round(8_200, id).unwrap();
    f.register_round_raffle(&mut events, &env, 8_200, 1, id, addr("CROUND2"));
    assert_eq!(f.trigger_next_round(20_000, id).err(), Some(ContractError::MaxRoundsReached));
    assert_eq!(f.trigger_next_round(0, 9).err(), Some(ContractError::RecurringNotFound));
}

#[test]
fn recurring_raffle_validates_schedule() {
    let (mut f, mut events) = setup_factory();
    let creator = addr("GCREATOR");
    for bad in [recurring(3_599, 1, false), recurring(31_536_001, 1, false), recurring(3_600, 0, true)] {
        assert_eq!(
            f.create_recurring_raffle(&mut events, 0, &creator, addr("GCREATOR"), bad),
            Err(ContractError::InvalidParameters)
        );
    }
    assert!(f.get_recurring_raffle(0).is_none());
}

#[test]
fn recurring_raffle_cancellation() {
    let (mut f, mut events) = setup_factory();
    let creator = addr("GCREATOR");
    let id = f.create_recurring_raffle(&mut events, 0, &creator, addr("GCREATOR"), recurring(3_600, 0, false)).unwrap();
    assert_eq!(
        f.cancel_recurring_raffle(&mut events, 5, &addr("GSTRANGER"), id, addr("GSTRANGER")),
        Err(ContractError::NotAuthorized)
    );
    assert_eq!(
        f.cancel_recurring_raffle(&mut events, 5, &creator, 7, addr("GCREATOR")),
        Err(ContractError::RecurringNotFound)
    );
    f.cancel_recurring_raffle(&mut events, 5, &addr("GADMIN"), id, addr("GADMIN")).unwrap();
    assert!(!f.get_recurring_raffle(id).unwrap().active);
    assert_eq!(f.trigger_next_round(10_000, id).err(), Some(ContractError::RecurringInactive));
    let id2 = f.create_recurring_raffle(&mut events, 0, &creator, addr("GCREATOR"), recurring(3_600, 0, false)).unwrap();
    f.cancel_recurring_raffle(&mut events, 5, &creator, id2, addr("GCREATOR")).unwrap();
    assert!(!f.get_recurring_raffle(id2).unwrap().active);
}

#[test]
fn record_volume_overflow() {
    let (mut f, _events) = setup_factory();
    let asset = addr("CASSET");
    f.record_volume(addr("CASSET"), i128::MAX).unwrap();
    assert_eq!(f.record_volume(addr("CASSET"), 1), Err(ContractError::ArithmeticOverflow));
    assert_eq!(f.get_total_volume(&asset), i128::MAX);
    f.record_volume(addr("CASSET"), -5).unwrap();
    assert_eq!(f.get_total_volume(&asset), i128::MAX - 5);
    assert_eq!(f.get_total_volume(&addr("COTHER")), 0);
}

#[test]
fn participants_are_counted_once() {
    let (mut f, _events) = setup_factory();
    f.track_participant(&addr("GP1"), addr("GP1")).unwrap();
    f.track_participant(&addr("GP1"), addr("GP1")).unwrap();
    f.track_participant(&addr("GP2"), addr("GP2")).unwrap();
    assert_eq!(f.get_unique_participants(), 2);
    assert_eq!(f.get_protocol_stats().total_unique_participants, 2);
    assert_eq!(f.track_participant(&addr("GP1"), addr("GP3")), Err(ContractError::NotAuthorized));
    assert_eq!(f.get_unique_participants(), 2);
}

#[test]
fn leaderboard_keeps_top_ten_once_each() {
    let (mut f, _events) = setup_factory();
    for i in 0..12i128 {
        let raffle = format!("CR{i}");
        f.record_leaderboard_entry(&addr(&raffle), addr(&raffle), i, 100 - i, i * 10).unwrap();
    }
    let tickets = f.get_leaderboard(LeaderboardMetric::TicketsSold);
    assert_eq!(tickets.len(), 10);
    let metrics: Vec<i128> = tickets.iter().map(|e| e.1).collect();
    assert_eq!(metrics, vec![11, 10, 9, 8, 7, 6, 5, 4, 3, 2]);
    let prize = f.get_leaderboard(LeaderboardMetric::PrizeAmount);
    assert_eq!(prize[0].0.strkey, "CR0");
    assert_eq!(prize[0].1, 100);
    f.record_leaderboard_entry(&addr("CR0"), addr("CR0"), 50, 0, 0).unwrap();
    let tickets = f.get_leaderboard(LeaderboardMetric::TicketsSold);
    assert_eq!(tickets[0].0.strkey, "CR0");
    assert_eq!(tickets[0].1, 50);
    assert_eq!(tickets.iter().filter(|e| e.0.strkey == "CR0").count(), 1);
    let volume = f.get_leaderboard(LeaderboardMetric::TotalVolume);
    assert_eq!(volume[0].1, 110);
    assert_eq!(
        f.record_leaderboard_entry(&addr("GSTRANGER"), addr("CR1"), 1, 1, 1),
        Err(ContractError::NotAuthorized)
    );
}

#[test]
fn creator_profile_updates() {
    let env = test_env();
    let (mut f, mut events) = setup_factory();
    let creator = addr("GCREATOR");
    let p = f.get_profile(&creator);
    assert_eq!(p.name, "");
    assert!(!p.verified);
    assert_eq!(p.raffles_created, 0);
    f.set_profile_name(&mut events, 3, &creator, addr("GCREATOR"), "Alice".to_string()).unwrap();
    f.set_verified(&mut events, 4, &addr("GADMIN"), addr("GCREATOR"), true).unwrap();
    create(&mut f, &mut events, &env, 5, "GCREATOR", "CR0", None).unwrap();
    let p = f.get_profile(&creator);
    assert_eq!(p.name, "Alice");
    assert!(p.verified);
    assert_eq!(p.raffles_created, 1);
    assert_eq!(
        f.set_profile_name(&mut events, 3, &creator, addr("GCREATOR"), "x".repeat(1_001)),
        Err(ContractError::InvalidParameters)
    );
    f.set_profile_name(&mut events, 3, &creator, addr("GCREATOR"), "é".repeat(500)).unwrap();
    assert_eq!(
        f.set_profile_name(&mut events, 3, &creator, addr("GCREATOR"), "é".repeat(501)),
        Err(ContractError::InvalidParameters)
    );
    assert_eq!(
        f.set_profile_name(&mut events, 3, &addr("GOTHER"), addr("GCREATOR"), "Eve".to_string()),
        Err(ContractError::NotAuthorized)
    );
    assert_eq!(
        f.set_verified(&mut events, 4, &addr("GOTHER"), addr("GCREATOR"), false),
        Err(ContractError::NotAuthorized)
    );
}

#[test]
fn rescue_tokens_checks_and_records() {
    let (f, mut events) = setup_factory();
    assert_eq!(
        f.rescue_tokens(&addr("GADMIN"), addr("CTOKEN"), addr("GRECIPIENT"), 0).err(),
        Some(ContractError::InvalidParameters)
    );
    assert_eq!(
        f.rescue_tokens(&addr("GSTRANGER"), addr("CTOKEN"), addr("GRECIPIENT"), 5).err(),
        Some(ContractError::NotAuthorized)
    );
    let t = f.rescue_tokens(&addr("GADMIN"), addr("CTOKEN"), addr("GRECIPIENT"), 5).unwrap();
    assert_eq!(t.from.strkey, "CFACTORY");
    assert_eq!(t.amount, 5);
    let before = events.len();
    let t2 = f.rescue_tokens(&addr("GADMIN"), addr("CTOKEN"), addr("GRECIPIENT"), 5).unwrap();
    assert_eq!(f.confirm_rescue(&mut events, 1, t2, false), Err(ContractError::InvalidParameters));
    assert_eq!(events.len(), before);
    f.confirm_rescue(&mut events, 1, t, true).unwrap();
    assert_eq!(events.len(), before + 1);
}

#[test]
fn emergency_pause_and_instance_controls_need_admin() {
    let (mut f, mut events) = setup_factory();
    let admin = addr("GADMIN");
    f.emergency_pause_all(&mut events, 1, &admin, "incident".to_string()).unwrap();
    assert!(f.is_global_paused());
    f.emergency_unpause_all(&mut events, 2, &admin).unwrap();
    assert!(!f.is_global_paused());
    assert_eq!(f.sync_admin(&admin).unwrap().strkey, "GADMIN");
    assert!(f.pause_instance(&admin).is_ok());
    assert!(f.unpause_instance(&admin).is_ok());
    let stranger = addr("GSTRANGER");
    assert_eq!(f.emergency_unpause_all(&mut events, 2, &stranger), Err(ContractError::NotAuthorized));
    assert_eq!(f.sync_admin(&stranger).err(), Some(ContractError::NotAuthorized));
    assert_eq!(f.pause_instance(&stranger), Err(ContractError::NotAuthorized));
    assert_eq!(f.upgrade(&mut events, 3, &stranger, [1u8; 32]), Err(ContractError::NotAuthorized));
    f.upgrade(&mut events, 3, &admin, [1u8; 32]).unwrap();
    assert!(matches!(events.last(), Some(FactoryEvent::FactoryUpgraded { .. })));
}

#[test]
fn error_codes_are_stable() {
    assert_eq!(ContractError::AlreadyInitialized.code(), 1);
    assert_eq!(ContractError::InvalidParameters.code(), 4);
    assert_eq!(ContractError::AdminTransferPending.code(), 11);
    assert_eq!(ContractError::ArithmeticOverflow.code(), 18);
    assert_eq!(ContractError::CreationPaused.code(), 24);
}

#[test]
fn leaderboard_tie_order_follows_the_exchange_sort() {
    let (mut f, _events) = setup_factory();
    for (raffle, metric) in [("CA", 5i128), ("CB", 5), ("CC", 7), ("CD", 5), ("CE", 9)] {
        f.record_leaderboard_entry(&addr(raffle), addr(raffle), metric, 0, 0).unwrap();
    }
    let board = f.get_leaderboard(LeaderboardMetric::TicketsSold);
    let order: Vec<(String, i128)> = board.iter().map(|e| (e.0.strkey.clone(), e.1)).collect();
    assert_eq!(
        order,
        vec![
            ("CE".to_string(), 9),
            ("CC".to_string(), 7),
            ("CA".to_string(), 5),
            ("CD".to_string(), 5),
            ("CB".to_string(), 5),
        ]
    );

    let (mut g, _events) = setup_factory();
    for i in 0..12u32 {
        let raffle = format!("CR{i}");
        let metric: i128 = if i % 2 == 1 { 3 } else { 4 };
        g.record_leaderboard_entry(&addr(&raffle), addr(&raffle), metric, 0, 0).unwrap();
    }
    let names: Vec<String> = g
        .get_leaderboard(LeaderboardMetric::TicketsSold)
        .iter()
        .map(|e| e.0.strkey.clone())
        .collect();
    assert_eq!(
        names,
        vec!["CR0", "CR2", "CR4", "CR6", "CR8", "CR10", "CR3", "CR7", "CR1", "CR9"]
    );
}
