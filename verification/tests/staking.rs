use orga::coins::staking::staking::{tm_pubkey_hash, BeginBlockCtx, VoteInfo, EDIT_INTERVAL_SECONDS};
use orga::coins::staking::{Commission, Declaration, Staking, Validators, UNBONDING_SECONDS};
use orga::coins::{Address, Amount, Balance, Decimal, Give, Symbol};
use orga::error::{Error, Result};

#[derive(Clone, Debug, Default)]
struct Simp;
impl Symbol for Simp {
    const INDEX: u8 = 0;
    const NAME: &'static str = "SIMP";
}

#[derive(Clone, Debug, Default)]
struct Alt;
impl Symbol for Alt {
    const INDEX: u8 = 1;
    const NAME: &'static str = "ALT";
}

/// One unbonding period, in seconds: the clock steps of these scenarios.
const PERIOD: i64 = UNBONDING_SECONDS as i64;

fn half() -> Decimal {
    Amount::new(1).div_amount(Amount::new(2)).unwrap()
}

fn commission(rate: Decimal) -> Result<Commission> {
    Ok(Commission {
        rate,
        max: Decimal::from_u64(1),
        max_change: Amount::new(1).div_amount(Amount::new(10))?,
    })
}

fn declaration(consensus_key: [u8; 32], amount: u64) -> Result<Declaration> {
    declaration_with(consensus_key, amount, 1, Decimal::from_u64(0))
}

fn declaration_with(
    consensus_key: [u8; 32],
    amount: u64,
    min_self_delegation: u64,
    rate: Decimal,
) -> Result<Declaration> {
    Ok(Declaration {
        consensus_key,
        commission: commission(rate)?,
        amount: Amount::new(amount),
        min_self_delegation: Amount::new(min_self_delegation),
        validator_info: vec![],
    })
}

fn addr(i: u8) -> Address {
    Address::from_pubkey([i; 33])
}

fn setup_state() -> Result<(Staking<Simp>, Validators)> {
    let mut staking = Staking::<Simp>::new();
    staking.downtime_jail_seconds = 5;
    staking.unbonding_seconds = UNBONDING_SECONDS;
    staking.max_validators = 100;
    staking.max_offline_blocks = 50_000;
    staking.slash_fraction_downtime = half();
    staking.slash_fraction_double_sign = half();
    staking.min_self_delegation_min = 1;
    Ok((staking, Validators::new()))
}

/// Declares validator `i` (operator `addr(i)`, consensus key `[i; 32]`).
fn declare_val(
    staking: &mut Staking<Simp>,
    ctx: &mut Validators,
    i: u8,
    amount: u64,
    min_self_delegation: u64,
    paid: u64,
) -> Result<()> {
    staking.declare(
        addr(i),
        declaration_with([i; 32], amount, min_self_delegation, Decimal::from_u64(0))?,
        Simp::mint(Amount::new(paid)),
        ctx,
    )
}

/// The last voting power reported for a consensus key.
fn power_of(ctx: &Validators, key: [u8; 32]) -> Option<u64> {
    ctx.voting_power.iter().rev().find(|(k, _)| *k == key).map(|(_, p)| *p)
}

fn power(ctx: &Validators, i: u8) -> u64 {
    power_of(ctx, [i; 32]).unwrap()
}

fn staked(staking: &Staking<Simp>) -> u64 {
    staking.staked().unwrap().value
}

/// Staked amount and liquid balance of `denom` of a delegator of a validator.
fn delegation_denom(staking: &mut Staking<Simp>, val: Address, del: Address, denom: u8) -> (u64, u64) {
    let infos = staking.validator_delegations(val).unwrap();
    match infos.iter().find(|(a, _)| a.bytes == del.bytes) {
        Some((_, info)) => {
            let liquid = info.liquid.iter().find(|(d, _)| *d == denom).map(|(_, a)| a.value).unwrap_or(0);
            (info.staked.value, liquid)
        }
        None => (0, 0),
    }
}

fn delegation(staking: &mut Staking<Simp>, val: Address, del: Address) -> (u64, u64) {
    delegation_denom(staking, val, del, Simp::INDEX)
}

fn staked_to(staking: &mut Staking<Simp>, val: Address, del: Address) -> u64 {
    delegation(staking, val, del).0
}

fn liquid_at(staking: &mut Staking<Simp>, val: Address, del: Address) -> u64 {
    delegation(staking, val, del).1
}

/// The balance of a validator's pool of delegators.
fn delegators_balance(staking: &mut Staking<Simp>, val: Address) -> u64 {
    let child = staking.validators.get_mut(val).unwrap();
    let balance = Balance::<Simp, Decimal>::balance(&child.entry.inner.delegators);
    staking.validators.commit(child);
    balance.unwrap().amount().unwrap().value
}

/// The balance of a validator as counted for voting power.
fn validator_staked(staking: &mut Staking<Simp>, val: Address) -> u64 {
    let child = staking.validators.get_mut(val).unwrap();
    let staked = child.entry.inner.staked();
    staking.validators.commit(child);
    staked.unwrap().value
}

fn give_to_validator(staking: &mut Staking<Simp>, val: Address, amount: u64) -> Result<()> {
    let mut child = staking.validators.get_mut(val)?;
    let res = child.entry.inner.give(Simp::mint(Amount::new(amount)));
    staking.validators.commit(child);
    res
}

fn unjail_validator(staking: &mut Staking<Simp>, val: Address, now: i64) -> Result<()> {
    let mut child = staking.validators.get_mut(val)?;
    let res = child.entry.inner.try_unjail(now);
    staking.validators.commit(child);
    res
}

#[test]
fn tests_staking() -> Result<()> {
    let mut staking = Staking::<Simp>::new();
    staking.downtime_jail_seconds = 5;
    staking.slash_fraction_downtime = half();
    let mut ctx = Validators::new();
    let mut now: i64 = 0;

    let alice = addr(0);
    let alice_con = [4; 32];
    let bob = addr(1);
    let bob_con = [5; 32];
    let carol = addr(2);
    let dave = addr(3);
    let dave_con = [6; 32];

    staking
        .give(Simp::mint(Amount::new(100)))
        .expect_err("Cannot give to empty validator set");
    assert_eq!(staked(&staking), 0);
    staking
        .delegate(alice, alice, Simp::mint(Amount::new(100)))
        .expect_err("Should not be able to delegate to an undeclared validator");
    staking.declare(alice, declaration(alice_con, 50)?, Simp::mint(Amount::new(50)), &mut ctx)?;
    staking
        .declare(alice, declaration(alice_con, 50)?, Simp::mint(Amount::new(50)), &mut ctx)
        .expect_err("Should not be able to redeclare validator");
    staking
        .declare(carol, declaration(alice_con, 50)?, Simp::mint(Amount::new(50)), &mut ctx)
        .expect_err("Should not be able to declare using an existing consensus key");

    staking.end_block_step(0, now, &mut ctx)?;
    assert_eq!(staked(&staking), 50);
    staking.delegate(alice, alice, Simp::mint(Amount::new(50)))?;
    assert_eq!(staked(&staking), 100);
    staking.declare(bob, declaration(bob_con, 50)?, Simp::mint(Amount::new(50)), &mut ctx)?;
    staking.end_block_step(0, now, &mut ctx)?;
    assert_eq!(staked(&staking), 150);

    staking.delegate(bob, bob, Simp::mint(Amount::new(250)))?;
    staking.delegate(bob, carol, Simp::mint(Amount::new(100)))?;
    staking.delegate(bob, carol, Simp::mint(Amount::new(200)))?;
    staking.delegate(bob, dave, Simp::mint(Amount::new(400)))?;
    assert_eq!(staked(&staking), 1100);

    staking.end_block_step(0, now, &mut ctx)?;
    assert_eq!(staking.consensus_key(alice)?, alice_con);
    assert_eq!(power_of(&ctx, alice_con), Some(100));
    assert_eq!(power_of(&ctx, bob_con), Some(1000));

    assert_eq!(staked_to(&mut staking, alice, alice), 100);
    assert_eq!(staked_to(&mut staking, bob, bob), 300);
    assert_eq!(staked_to(&mut staking, bob, carol), 300);
    assert_eq!(validator_staked(&mut staking, alice), 100);
    assert_eq!(validator_staked(&mut staking, bob), 1000);

    // Big block rewards, doubling all balances
    staking.give(Simp::mint(Amount::new(600)))?;
    staking.give(Simp::mint(Amount::new(500)))?;
    assert_eq!(staked(&staking), 1100);

    assert_eq!(liquid_at(&mut staking, alice, alice), 100);
    assert_eq!(staked_to(&mut staking, bob, carol), 300);
    assert_eq!(liquid_at(&mut staking, bob, carol), 300);
    assert_eq!(validator_staked(&mut staking, bob), 1000);
    assert_eq!(power_of(&ctx, bob_con), Some(1000));

    // Bob gets slashed 50%
    staking.punish_downtime(bob, now)?;
    staking.end_block_step(0, now, &mut ctx)?;
    // Bob has been jailed and should no longer have any voting power
    assert_eq!(power_of(&ctx, bob_con), Some(0));

    staking
        .deduct(bob, dave, Amount::new(401), Simp::INDEX, now)
        .expect_err("Dave has not unbonded coins yet");
    // Bob's staked coins should no longer be present in the global staking
    // balance
    assert_eq!(staked(&staking), 100);

    // Carol can still withdraw her 300 coins from Bob's jailed validator
    {
        staking.unbond(bob, carol, Amount::new(150), now)?;
        assert_eq!(staked(&staking), 100);
        staking
            .deduct(bob, carol, Amount::new(450), Simp::INDEX, now)
            .expect_err("Should not be able to take coins before unbonding period has elapsed");
        assert_eq!(staked(&staking), 100);
        now = PERIOD;
        staking.deduct(bob, carol, Amount::new(450), Simp::INDEX, now)?;
    }

    {
        // Bob withdraws a third of his self-delegation
        staking.unbond(bob, bob, Amount::new(100), now)?;
        now = 2 * PERIOD;
        staking.deduct(bob, bob, Amount::new(100), Simp::INDEX, now)?;
        staking
            .unbond(bob, bob, Amount::new(201), now)
            .expect_err("Should not be able to unbond more than we have staked");

        staking.unbond(bob, bob, Amount::new(50), now)?;
        now = 3 * PERIOD;
        staking
            .deduct(bob, bob, Amount::new(501), Simp::INDEX, now)
            .expect_err("Should not be able to take more than we have unbonded");
        staking.deduct(bob, bob, Amount::new(350), Simp::INDEX, now)?;
    }

    assert_eq!(staked(&staking), 100);
    assert_eq!(liquid_at(&mut staking, alice, alice), 100);
    assert_eq!(staked_to(&mut staking, alice, alice), 100);

    // More block reward, but bob's delegators are jailed and should not
    // earn from it
    staking.give(Simp::mint(Amount::new(200)))?;
    assert_eq!(staked(&staking), 100);
    assert_eq!(validator_staked(&mut staking, alice), 100);
    assert_eq!(liquid_at(&mut staking, alice, alice), 300);

    staking
        .unbond(bob, dave, Amount::new(401), now)
        .expect_err("Dave should only have 400 unbondable coins");

    staking.unbond(bob, dave, Amount::new(200), now)?;
    // Bob slashed another 50% while Dave unbonds
    staking.punish_downtime(bob, now)?;

    now = 4 * PERIOD;
    staking.deduct(bob, dave, Amount::new(500), Simp::INDEX, now)?;

    assert_eq!(staked(&staking), 100);
    staking.declare(dave, declaration(dave_con, 300)?, Simp::mint(Amount::new(300)), &mut ctx)?;
    staking.end_block_step(0, now, &mut ctx)?;
    assert_eq!(staked(&staking), 400);
    staking.end_block_step(0, now, &mut ctx)?;
    assert_eq!(power_of(&ctx, alice_con), Some(100));
    assert_eq!(power_of(&ctx, dave_con), Some(300));
    staking.delegate(dave, carol, Simp::mint(Amount::new(300)))?;
    assert_eq!(staked(&staking), 700);

    staking.end_block_step(0, now, &mut ctx)?;
    assert_eq!(power_of(&ctx, dave_con), Some(600));
    staking.unbond(dave, dave, Amount::new(150), now)?;
    assert_eq!(staked(&staking), 550);
    staking.end_block_step(0, now, &mut ctx)?;
    assert_eq!(power_of(&ctx, dave_con), Some(450));

    // Test commissions
    let edith = addr(7);
    let edith_con = [201; 32];

    staking.declare(
        edith,
        declaration_with(edith_con, 550, 1, half())?,
        Simp::mint(Amount::new(550)),
        &mut ctx,
    )?;

    staking.delegate(edith, carol, Simp::mint(Amount::new(550)))?;

    give_to_validator(&mut staking, edith, 500)?;

    assert_eq!(liquid_at(&mut staking, edith, edith), 375);
    assert_eq!(liquid_at(&mut staking, edith, carol), 125);

    staking.punish_double_sign(dave)?;
    staking.end_block_step(0, now, &mut ctx)?;
    assert_eq!(power_of(&ctx, dave_con), Some(0));

    Ok(())
}

#[test]
fn val_size_limit() -> Result<()> {
    let mut staking = Staking::<Simp>::new();
    let mut ctx = Validators::new();
    let now: i64 = 0;
    staking.max_validators = 2;

    for i in 1..10u8 {
        staking.declare(
            addr(i),
            declaration([i; 32], i as u64 * 100)?,
            Simp::mint(Amount::new(i as u64 * 100)),
            &mut ctx,
        )?;
    }
    staking.end_block_step(0, now, &mut ctx)?;
    assert_eq!(staked(&staking), 1700);
    assert_eq!(power_of(&ctx, [7; 32]), None);
    assert_eq!(power(&ctx, 8), 800);
    assert_eq!(power(&ctx, 9), 900);
    staking.give(Simp::mint(Amount::new(3400)))?;
    assert_eq!(liquid_at(&mut staking, addr(4), addr(4)), 0);
    assert_eq!(liquid_at(&mut staking, addr(8), addr(8)), 1600);
    assert_eq!(liquid_at(&mut staking, addr(9), addr(9)), 1800);

    staking.declare(addr(10), declaration([10; 32], 1000)?, Simp::mint(Amount::new(1000)), &mut ctx)?;

    staking.end_block_step(0, now, &mut ctx)?;

    assert_eq!(power(&ctx, 8), 0);
    assert_eq!(power(&ctx, 9), 900);
    assert_eq!(power(&ctx, 10), 1000);
    staking.give(Simp::mint(Amount::new(1900)))?;

    assert_eq!(liquid_at(&mut staking, addr(8), addr(8)), 1600);
    assert_eq!(liquid_at(&mut staking, addr(9), addr(9)), 2700);
    assert_eq!(liquid_at(&mut staking, addr(10), addr(10)), 1000);

    Ok(())
}

#[test]
fn undelegate() -> Result<()> {
    let (mut staking, mut ctx) = setup_state()?;
    let now: i64 = 0;
    let val_0 = addr(0);
    declare_val(&mut staking, &mut ctx, 0, 100, 1, 100)?;
    let staker = addr(1);

    staking.delegate(val_0, staker, Simp::mint(Amount::new(100)))?;
    staking.end_block_step(0, now, &mut ctx)?;
    assert_eq!(power(&ctx, 0), 200);

    staking.unbond(val_0, staker, Amount::new(100), now)?;
    staking.end_block_step(0, now, &mut ctx)?;
    assert_eq!(power(&ctx, 0), 100);
    assert_eq!(staked_to(&mut staking, val_0, staker), 0);

    Ok(())
}

#[test]
fn undelegate_slash_before_unbond() -> Result<()> {
    let (mut staking, mut ctx) = setup_state()?;
    let mut now: i64 = 0;
    let val_0 = addr(0);
    declare_val(&mut staking, &mut ctx, 0, 100, 1, 100)?;
    let staker = addr(1);

    staking.delegate(val_0, staker, Simp::mint(Amount::new(100)))?;
    staking.end_block_step(0, now, &mut ctx)?;
    assert_eq!(power(&ctx, 0), 200);

    staking.unbond(val_0, staker, Amount::new(100), now)?;
    staking.end_block_step(0, now, &mut ctx)?;

    staking.punish_double_sign(val_0)?;
    staking.end_block_step(0, now, &mut ctx)?;

    assert_eq!(power(&ctx, 0), 0);
    assert_eq!(staked_to(&mut staking, val_0, staker), 0);
    assert_eq!(delegators_balance(&mut staking, val_0), 50);

    now = PERIOD;
    staking.end_block_step(0, now, &mut ctx)?;
    assert_eq!(liquid_at(&mut staking, val_0, staker), 50);

    Ok(())
}

#[test]
fn undelegate_slash_after_unbond() -> Result<()> {
    let (mut staking, mut ctx) = setup_state()?;
    let mut now: i64 = 0;
    let val_0 = addr(0);
    declare_val(&mut staking, &mut ctx, 0, 100, 1, 100)?;
    let staker = addr(1);

    staking.delegate(val_0, staker, Simp::mint(Amount::new(100)))?;
    staking.end_block_step(0, now, &mut ctx)?;
    assert_eq!(power(&ctx, 0), 200);

    staking.unbond(val_0, staker, Amount::new(100), now)?;

    now = PERIOD;
    staking.end_block_step(0, now, &mut ctx)?;

    staking.punish_double_sign(val_0)?;
    staking.end_block_step(0, now, &mut ctx)?;

    assert_eq!(power(&ctx, 0), 0);
    assert_eq!(staked_to(&mut staking, val_0, staker), 0);
    assert_eq!(delegators_balance(&mut staking, val_0), 50);

    staking.end_block_step(0, now, &mut ctx)?;
    assert_eq!(liquid_at(&mut staking, val_0, staker), 100);

    Ok(())
}

#[test]
fn redelegate() -> Result<()> {
    let (mut staking, mut ctx) = setup_state()?;
    let now: i64 = 0;
    for i in 0..2u8 {
        declare_val(&mut staking, &mut ctx, i, 100, 1, 100)?;
    }
    let staker = addr(2);

    staking.delegate(addr(0), staker, Simp::mint(Amount::new(100)))?;
    staking.end_block_step(0, now, &mut ctx)?;
    assert_eq!(power(&ctx, 0), 200);

    staking.redelegate(addr(0), addr(1), staker, Amount::new(100), now)?;
    staking.end_block_step(0, now, &mut ctx)?;
    assert_eq!(power(&ctx, 0), 100);
    assert_eq!(power(&ctx, 1), 200);

    Ok(())
}

#[test]
fn redelegate_slash_before_unbond() -> Result<()> {
    let (mut staking, mut ctx) = setup_state()?;
    let now: i64 = 0;
    for i in 0..2u8 {
        declare_val(&mut staking, &mut ctx, i, 100, 1, 100)?;
    }
    let staker = addr(2);

    staking.delegate(addr(0), staker, Simp::mint(Amount::new(100)))?;
    staking.end_block_step(0, now, &mut ctx)?;
    assert_eq!(power(&ctx, 0), 200);

    staking.redelegate(addr(0), addr(1), staker, Amount::new(100), now)?;
    staking.end_block_step(0, now, &mut ctx)?;
    assert_eq!(power(&ctx, 0), 100);
    assert_eq!(power(&ctx, 1), 200);

    staking.punish_double_sign(addr(0))?;
    staking.end_block_step(0, now, &mut ctx)?;

    let val_0 = addr(0);
    let val_1 = addr(1);
    assert_eq!(staked_to(&mut staking, val_0, staker), 0);
    assert_eq!(staked_to(&mut staking, val_1, staker), 50);
    assert_eq!(delegators_balance(&mut staking, val_0), 50);
    assert_eq!(delegators_balance(&mut staking, val_1), 150);

    Ok(())
}

#[test]
fn redelegate_slash_after_unbond() -> Result<()> {
    let (mut staking, mut ctx) = setup_state()?;
    let mut now: i64 = 0;
    for i in 0..2u8 {
        declare_val(&mut staking, &mut ctx, i, 100, 1, 100)?;
    }
    let staker = addr(2);

    staking.delegate(addr(0), staker, Simp::mint(Amount::new(100)))?;
    staking.end_block_step(0, now, &mut ctx)?;
    assert_eq!(power(&ctx, 0), 200);

    staking.redelegate(addr(0), addr(1), staker, Amount::new(100), now)?;
    staking.end_block_step(0, now, &mut ctx)?;
    assert_eq!(power(&ctx, 0), 100);
    assert_eq!(power(&ctx, 1), 200);

    now = PERIOD;
    staking.end_block_step(0, now, &mut ctx)?;

    staking.punish_double_sign(addr(0))?;
    staking.end_block_step(0, now, &mut ctx)?;

    let val_0 = addr(0);
    let val_1 = addr(1);
    assert_eq!(staked_to(&mut staking, val_0, staker), 0);
    assert_eq!(staked_to(&mut staking, val_1, staker), 100);
    assert_eq!(delegators_balance(&mut staking, val_0), 50);
    assert_eq!(delegators_balance(&mut staking, val_1), 200);

    Ok(())
}

/// Three validators, a staker delegating 100 to each, then three
/// redelegations (0 to 2, 1 to 0, 1 to 2) and a double sign by validator 1.
fn three_validators_redelegated() -> Result<(Staking<Simp>, Validators, Address)> {
    let (mut staking, mut ctx) = setup_state()?;
    let now: i64 = 0;
    for i in 0..3u8 {
        declare_val(&mut staking, &mut ctx, i, 100, 1, 100)?;
    }
    let staker = addr(3);

    staking.delegate(addr(0), staker, Simp::mint(Amount::new(100)))?;
    staking.delegate(addr(1), staker, Simp::mint(Amount::new(100)))?;
    staking.delegate(addr(2), staker, Simp::mint(Amount::new(100)))?;
    staking.end_block_step(0, now, &mut ctx)?;

    staking.redelegate(addr(0), addr(2), staker, Amount::new(50), now)?;
    staking.end_block_step(0, now, &mut ctx)?;
    assert_eq!(power(&ctx, 0), 150);
    assert_eq!(power(&ctx, 1), 200);
    assert_eq!(power(&ctx, 2), 250);

    staking.redelegate(addr(1), addr(0), staker, Amount::new(30), now)?;
    staking.end_block_step(0, now, &mut ctx)?;
    assert_eq!(power(&ctx, 0), 180);
    assert_eq!(power(&ctx, 1), 170);
    assert_eq!(power(&ctx, 2), 250);

    staking.redelegate(addr(1), addr(2), staker, Amount::new(30), now)?;
    staking.end_block_step(0, now, &mut ctx)?;
    assert_eq!(power(&ctx, 0), 180);
    assert_eq!(power(&ctx, 1), 140);
    assert_eq!(power(&ctx, 2), 280);

    staking.punish_double_sign(addr(1))?;
    staking.end_block_step(0, now, &mut ctx)?;

    assert_eq!(staked_to(&mut staking, addr(0), staker), 65);
    assert_eq!(staked_to(&mut staking, addr(1), staker), 20);
    assert_eq!(staked_to(&mut staking, addr(2), staker), 165);
    assert_eq!(delegators_balance(&mut staking, addr(0)), 165);
    assert_eq!(delegators_balance(&mut staking, addr(1)), 70);
    assert_eq!(delegators_balance(&mut staking, addr(2)), 265);

    Ok((staking, ctx, staker))
}

#[test]
fn redelegation_slash() -> Result<()> {
    let (mut staking, mut ctx, staker) = three_validators_redelegated()?;
    let now: i64 = 0;
    let (val_0, val_1, val_2) = (addr(0), addr(1), addr(2));

    staking.punish_double_sign(val_0)?;
    staking.end_block_step(0, now, &mut ctx)?;
    assert_eq!(staked_to(&mut staking, val_0, staker), 32);
    assert_eq!(staked_to(&mut staking, val_1, staker), 20);
    assert_eq!(staked_to(&mut staking, val_2, staker), 140);

    assert_eq!(delegators_balance(&mut staking, val_0), 82);
    assert_eq!(delegators_balance(&mut staking, val_1), 70);
    assert_eq!(delegators_balance(&mut staking, val_2), 240);

    Ok(())
}

#[test]
fn redelegation_double_slash() -> Result<()> {
    let (mut staking, mut ctx) = setup_state()?;
    let now: i64 = 0;
    for i in 0..2u8 {
        declare_val(&mut staking, &mut ctx, i, 100, 1, 100)?;
    }
    let staker = addr(2);
    let val_0 = addr(0);
    let val_1 = addr(1);

    staking.delegate(val_0, staker, Simp::mint(Amount::new(100)))?;
    staking.end_block_step(0, now, &mut ctx)?;

    staking.redelegate(val_0, val_1, staker, Amount::new(100), now)?;
    staking.end_block_step(0, now, &mut ctx)?;

    staking.punish_double_sign(val_0)?;
    staking.punish_double_sign(val_1)?;
    staking.end_block_step(0, now, &mut ctx)?;

    assert_eq!(staked_to(&mut staking, val_0, staker), 0);
    assert_eq!(staked_to(&mut staking, val_1, staker), 25);

    Ok(())
}

#[test]
fn redelegation_slash_with_unbond() -> Result<()> {
    let (mut staking, mut ctx, staker) = three_validators_redelegated()?;
    let mut now: i64 = 0;
    let (val_0, val_1, val_2) = (addr(0), addr(1), addr(2));

    staking.unbond(val_2, staker, Amount::new(100), now)?;
    staking.end_block_step(0, now, &mut ctx)?;

    staking.punish_double_sign(val_0)?;
    staking.end_block_step(0, now, &mut ctx)?;

    assert_eq!(staked_to(&mut staking, val_0, staker), 32);
    assert_eq!(staked_to(&mut staking, val_1, staker), 20);
    assert_eq!(staked_to(&mut staking, val_2, staker), 40);

    assert_eq!(delegators_balance(&mut staking, val_0), 82);
    assert_eq!(delegators_balance(&mut staking, val_1), 70);
    assert_eq!(delegators_balance(&mut staking, val_2), 140);

    now = PERIOD;
    staking.end_block_step(0, now, &mut ctx)?;

    assert_eq!(liquid_at(&mut staking, val_2, staker), 100);

    Ok(())
}

#[test]
fn redelegation_slash_with_slash_unbond_overflow() -> Result<()> {
    let (mut staking, mut ctx, staker) = three_validators_redelegated()?;
    let mut now: i64 = 0;
    let (val_0, val_1, val_2) = (addr(0), addr(1), addr(2));

    for _ in 0..15 {
        staking.unbond(val_2, staker, Amount::new(10), now)?;
    }

    staking.end_block_step(0, now, &mut ctx)?;

    assert_eq!(staked_to(&mut staking, val_2, staker), 15);

    staking.punish_double_sign(val_0)?;
    staking.end_block_step(0, now, &mut ctx)?;

    assert_eq!(staked_to(&mut staking, val_0, staker), 32);
    assert_eq!(staked_to(&mut staking, val_1, staker), 20);
    assert_eq!(staked_to(&mut staking, val_2, staker), 0);

    assert_eq!(delegators_balance(&mut staking, val_0), 82);
    assert_eq!(delegators_balance(&mut staking, val_1), 70);
    assert_eq!(delegators_balance(&mut staking, val_2), 100);

    now = PERIOD;
    staking.end_block_step(0, now, &mut ctx)?;

    assert_eq!(liquid_at(&mut staking, val_2, staker), 140);

    Ok(())
}

#[test]
#[should_panic]
fn delegate_slashed_fail() {
    let (mut staking, mut ctx) = setup_state().unwrap();
    let now: i64 = 0;

    declare_val(&mut staking, &mut ctx, 0, 0, 1, 100).unwrap();

    let staker = addr(3);

    staking.end_block_step(0, now, &mut ctx).unwrap();

    staking.punish_double_sign(addr(0)).unwrap();
    staking.end_block_step(0, now, &mut ctx).unwrap();

    staking.delegate(addr(0), staker, Simp::mint(Amount::new(100))).unwrap();
}

#[test]
fn min_delegation_fall_below() -> Result<()> {
    let (mut staking, mut ctx) = setup_state()?;
    let mut now: i64 = 0;

    declare_val(&mut staking, &mut ctx, 0, 0, 75, 100)?;
    let val_0 = addr(0);

    staking.end_block_step(0, now, &mut ctx)?;

    staking.punish_downtime(val_0, now)?;
    assert_eq!(delegators_balance(&mut staking, val_0), 50);
    now = PERIOD;

    staking.end_block_step(0, now, &mut ctx)?;

    unjail_validator(&mut staking, val_0, now)?;
    staking.update_vp(val_0)?;

    staking.end_block_step(0, now, &mut ctx)?;

    assert_eq!(power(&ctx, 0), 0);
    staking.delegate(val_0, val_0, Simp::mint(Amount::new(25)))?;

    staking.end_block_step(0, now, &mut ctx)?;

    assert_eq!(delegators_balance(&mut staking, val_0), 75);
    assert_eq!(power(&ctx, 0), 75);

    Ok(())
}

#[test]
fn min_delegation_fall_below_unbond() -> Result<()> {
    let (mut staking, mut ctx) = setup_state()?;
    let now: i64 = 0;

    for i in 0..2u8 {
        declare_val(&mut staking, &mut ctx, i, 0, 75, 100)?;
    }
    let val_0 = addr(0);
    let val_1 = addr(1);

    staking.end_block_step(0, now, &mut ctx)?;
    staking.unbond(val_0, val_0, Amount::new(50), now)?;
    staking.end_block_step(0, now, &mut ctx)?;

    assert_eq!(delegators_balance(&mut staking, val_0), 50);

    staking.end_block_step(0, now, &mut ctx)?;

    assert_eq!(power(&ctx, 0), 0);
    staking.delegate(val_0, val_0, Simp::mint(Amount::new(25)))?;

    staking.end_block_step(0, now, &mut ctx)?;

    assert_eq!(delegators_balance(&mut staking, val_0), 75);
    assert_eq!(power(&ctx, 0), 75);

    staking.redelegate(val_0, val_1, val_0, Amount::new(25), now)?;

    staking.end_block_step(0, now, &mut ctx)?;

    assert_eq!(delegators_balance(&mut staking, val_0), 50);

    staking.end_block_step(0, now, &mut ctx)?;

    assert_eq!(power(&ctx, 0), 0);
    staking.delegate(val_0, val_0, Simp::mint(Amount::new(25)))?;

    staking.end_block_step(0, now, &mut ctx)?;

    assert_eq!(delegators_balance(&mut staking, val_0), 75);
    assert_eq!(power(&ctx, 0), 75);

    Ok(())
}

#[test]
fn punish_downtime_jailed() -> Result<()> {
    let (mut staking, mut ctx) = setup_state()?;
    let now: i64 = 0;

    declare_val(&mut staking, &mut ctx, 0, 0, 75, 100)?;
    let val_0 = addr(0);
    staking.end_block_step(0, now, &mut ctx)?;

    staking.punish_downtime(val_0, now)?;
    assert_eq!(delegators_balance(&mut staking, val_0), 50);
    staking.end_block_step(0, now, &mut ctx)?;

    staking.punish_double_sign(val_0)?;
    staking.end_block_step(0, now, &mut ctx)?;

    assert_eq!(delegators_balance(&mut staking, val_0), 25);

    Ok(())
}

#[test]
fn unclaimed_rewards_slash() -> Result<()> {
    let (mut staking, mut ctx) = setup_state()?;
    let now: i64 = 0;

    declare_val(&mut staking, &mut ctx, 0, 100, 1, 100)?;
    let val_0 = addr(0);
    let staker = addr(1);

    staking.end_block_step(0, now, &mut ctx)?;

    staking.delegate(val_0, staker, Simp::mint(Amount::new(100)))?;
    staking.give(Simp::mint(Amount::new(100)))?;

    staking.end_block_step(0, now, &mut ctx)?;

    assert_eq!(liquid_at(&mut staking, val_0, staker), 50);
    staking.end_block_step(0, now, &mut ctx)?;

    staking.punish_downtime(val_0, now)?;

    staking.end_block_step(0, now, &mut ctx)?;
    assert_eq!(liquid_at(&mut staking, val_0, staker), 50);

    Ok(())
}

#[test]
fn reward_with_unbond() -> Result<()> {
    let (mut staking, mut ctx) = setup_state()?;
    let now: i64 = 0;

    for i in 0..2u8 {
        declare_val(&mut staking, &mut ctx, i, 100, 1, 100)?;
    }
    let val_0 = addr(0);
    let val_1 = addr(1);
    staking.end_block_step(0, now, &mut ctx)?;

    staking.give(Simp::mint(Amount::new(100)))?;
    staking.end_block_step(0, now, &mut ctx)?;

    assert_eq!(liquid_at(&mut staking, val_0, val_0), 50);
    assert_eq!(liquid_at(&mut staking, val_1, val_1), 50);
    staking.end_block_step(0, now, &mut ctx)?;

    staking.unbond(val_0, val_0, Amount::new(100), now)?;
    staking.end_block_step(0, now, &mut ctx)?;

    assert_eq!(power(&ctx, 0), 0);
    staking.give(Simp::mint(Amount::new(100)))?;
    staking.end_block_step(0, now, &mut ctx)?;

    assert_eq!(liquid_at(&mut staking, val_0, val_0), 50);
    assert_eq!(liquid_at(&mut staking, val_1, val_1), 150);

    Ok(())
}

#[test]
#[should_panic(expected = "Cannot redelegate from validator with inbound redelegations")]
fn redelegate_from_to_failure() {
    let (mut staking, mut ctx) = setup_state().unwrap();
    let now: i64 = 0;

    for i in 0..2u8 {
        declare_val(&mut staking, &mut ctx, i, 100, 1, 100).unwrap();
    }

    let val_0 = addr(0);
    let val_1 = addr(1);
    let staker = addr(2);

    staking.delegate(val_0, staker, Simp::mint(Amount::new(100))).unwrap();
    staking.delegate(val_1, staker, Simp::mint(Amount::new(100))).unwrap();

    staking.end_block_step(0, now, &mut ctx).unwrap();

    staking.redelegate(val_0, val_1, staker, Amount::new(100), now).unwrap();

    staking.end_block_step(0, now, &mut ctx).unwrap();

    staking.redelegate(val_1, val_0, staker, Amount::new(100), now).unwrap();
}

#[test]
#[should_panic(expected = "Cannot redelegate from validator with inbound redelegations")]
fn redelegate_from_to_two_stakers() {
    let (mut staking, mut ctx) = setup_state().unwrap();
    let now: i64 = 0;

    for i in 0..2u8 {
        declare_val(&mut staking, &mut ctx, i, 100, 1, 100).unwrap();
    }

    let val_0 = addr(0);
    let val_1 = addr(1);
    let staker_0 = addr(2);
    let staker_1 = addr(2);

    staking.delegate(val_0, staker_0, Simp::mint(Amount::new(100))).unwrap();
    staking.delegate(val_1, staker_1, Simp::mint(Amount::new(100))).unwrap();

    staking.end_block_step(0, now, &mut ctx).unwrap();

    staking.redelegate(val_0, val_1, staker_0, Amount::new(100), now).unwrap();

    staking.end_block_step(0, now, &mut ctx).unwrap();

    staking.redelegate(val_1, val_0, staker_1, Amount::new(100), now).unwrap();
}

#[test]
fn alt_coin_rewards() -> Result<()> {
    let (mut staking, mut ctx) = setup_state()?;
    let now: i64 = 0;

    for i in 0..2u8 {
        declare_val(&mut staking, &mut ctx, i, 100, 1, 100)?;
    }

    let val_0 = addr(0);
    let val_1 = addr(1);
    let staker_0 = addr(2);

    staking.delegate(val_0, staker_0, Simp::mint(Amount::new(100)))?;
    staking.delegate(val_1, staker_0, Simp::mint(Amount::new(100)))?;

    staking.end_block_step(0, now, &mut ctx)?;

    staking.give(Alt::mint(Amount::new(100)))?;
    staking.end_block_step(0, now, &mut ctx)?;
    assert_eq!(delegation_denom(&mut staking, val_0, val_0, Alt::INDEX).1, 25);
    assert_eq!(delegation_denom(&mut staking, val_0, staker_0, Alt::INDEX).1, 25);
    assert_eq!(delegation_denom(&mut staking, val_1, val_1, Alt::INDEX).1, 25);
    assert_eq!(delegation_denom(&mut staking, val_1, staker_0, Alt::INDEX).1, 25);

    staking.end_block_step(0, now, &mut ctx)?;

    Ok(())
}

#[test]
fn redelegate_to_same_validator_fails() -> Result<()> {
    let mut staking = Staking::<Simp>::new();
    let a = addr(9);
    match staking.redelegate(a, a, a, Amount::new(1), 0) {
        Err(Error::Coins(msg)) => assert_eq!(msg, "Cannot redelegate to the same validator"),
        other => panic!("unexpected {:?}", other),
    }
    Ok(())
}

#[test]
fn declare_rejects_bad_commission() -> Result<()> {
    let mut staking = Staking::<Simp>::new();
    let mut ctx = Validators::new();
    let a = addr(9);
    let mut d = declaration([1; 32], 10)?;
    d.commission.rate = Decimal::from_u64(2);
    match staking.declare(a, d, Simp::mint(Amount::new(10)), &mut ctx) {
        Err(Error::Coins(msg)) => {
            assert_eq!(msg, "Initial commission must be between 0 and max commission")
        }
        other => panic!("unexpected {:?}", other),
    }
    let d = declaration([1; 32], 10)?;
    match staking.declare(a, d, Simp::mint(Amount::new(0)), &mut ctx) {
        Err(Error::Coins(msg)) => assert_eq!(msg, "Insufficient self-delegation"),
        other => panic!("unexpected {:?}", other),
    }
    assert!(ctx.operators.is_empty());
    Ok(())
}

#[test]
fn unsigned_calls_fail() {
    let mut staking = Staking::<Simp>::new();
    let a = addr(9);
    match staking.unbond_self(a, Amount::new(0), None, 0) {
        Err(Error::Coins(msg)) => assert_eq!(msg, "Amount must be positive"),
        other => panic!("unexpected {:?}", other),
    }
    match staking.unbond_self(a, Amount::new(1), None, 0) {
        Err(Error::Coins(msg)) => assert_eq!(msg, "Call must be signed"),
        other => panic!("unexpected {:?}", other),
    }
}

#[test]
fn begin_block_records_signers_and_jails_offline_validators() -> Result<()> {
    let (mut staking, mut ctx) = setup_state()?;
    staking.max_offline_blocks = 2;
    declare_val(&mut staking, &mut ctx, 0, 100, 1, 100)?;
    declare_val(&mut staking, &mut ctx, 1, 100, 1, 100)?;
    staking.end_block_step(0, 0, &mut ctx)?;
    let h0 = tm_pubkey_hash([0; 32])?;
    let h1 = tm_pubkey_hash([1; 32])?;
    assert_eq!(staking.last_signed_block.get(&h0), Some(&0));

    let signed = |h: [u8; 20]| VoteInfo { validator_address: Some(h.to_vec()), signed_last_block: true };
    let block = BeginBlockCtx {
        height: 1,
        last_commit_info: Some(vec![signed(h0), signed(h1)]),
        byzantine_validators: vec![],
    };
    staking.begin_block(&block, 0)?;
    assert_eq!(staking.last_signed_block.get(&h0), Some(&1));
    assert_eq!(staking.last_signed_block.get(&h1), Some(&1));

    // Only validator 1 signs; validator 0 was last seen at height 1, and
    // 1 + 2 < 4.
    let block = BeginBlockCtx { height: 4, last_commit_info: Some(vec![signed(h1)]), byzantine_validators: vec![] };
    staking.begin_block(&block, 0)?;
    assert_eq!(staking.last_signed_block.get(&h0), None);
    assert_eq!(staking.last_signed_block.get(&h1), Some(&4));
    let jailed = staking.validators.get(addr(0))?.value().jailed_until;
    assert_eq!(jailed, Some(5));
    assert_eq!(delegators_balance(&mut staking, addr(0)), 50);

    // A wrong-length address is refused.
    let bad = BeginBlockCtx {
        height: 5,
        last_commit_info: Some(vec![VoteInfo { validator_address: Some(vec![1, 2, 3]), signed_last_block: true }]),
        byzantine_validators: vec![],
    };
    match staking.begin_block(&bad, 0) {
        Err(Error::Coins(msg)) => assert_eq!(msg, "Invalid pubkey length from Tendermint"),
        other => panic!("unexpected {:?}", other),
    }
    Ok(())
}

#[test]
fn edit_validator_checks() -> Result<()> {
    let (mut staking, mut ctx) = setup_state()?;
    declare_val(&mut staking, &mut ctx, 0, 100, 10, 100)?;
    let val = addr(0);
    let coins_error = |r: Result<()>| match r {
        Err(Error::Coins(msg)) => msg,
        other => panic!("unexpected {:?}", other),
    };
    let tenth = Amount::new(1).div_amount(Amount::new(10))?;
    let twentieth = Amount::new(1).div_amount(Amount::new(20))?;
    assert_eq!(
        coins_error(staking.edit_validator(val, twentieth, Amount::new(101), vec![], 0)),
        "Min self-delegation cannot exceed current staked amount"
    );
    assert_eq!(
        coins_error(staking.edit_validator(val, twentieth, Amount::new(5), vec![], 0)),
        "Min self-delegation setting may not decrease"
    );
    assert_eq!(
        coins_error(staking.edit_validator(val, Decimal::from_u64(2), Amount::new(10), vec![], 0)),
        "Commission must be between 0 and max commission"
    );
    assert_eq!(
        coins_error(staking.edit_validator(val, half(), Amount::new(10), vec![], 0)),
        "Commission change is greater than the validator's commission max change setting"
    );
    staking.edit_validator(val, tenth, Amount::new(20), vec![7], 0)?;
    assert_eq!(
        coins_error(staking.edit_validator(val, twentieth, Amount::new(20), vec![], 10)),
        "Validators may only be edited once per 24 hours"
    );
    staking.edit_validator(val, twentieth, Amount::new(20), vec![], EDIT_INTERVAL_SECONDS as i64)?;
    let v = staking.validators.get(val)?;
    assert!(v.value().commission.rate.value_eq(&twentieth));
    assert_eq!(v.value().min_self_delegation.value, 20);
    Ok(())
}

#[test]
fn repair_removes_validators_without_info_and_empties_queues() -> Result<()> {
    let (mut staking, mut ctx) = setup_state()?;
    let mut d = declaration([0; 32], 100)?;
    d.validator_info = vec![1];
    staking.declare(addr(0), d, Simp::mint(Amount::new(100)), &mut ctx)?;
    declare_val(&mut staking, &mut ctx, 1, 100, 1, 100)?;
    staking.end_block_step(0, 0, &mut ctx)?;
    staking.unbond(addr(0), addr(0), Amount::new(10), 0)?;
    assert_eq!(staking.unbonding_delegation_queue.len(), 1);

    staking.repair()?;
    let keys = staking.validators.keys();
    assert_eq!(keys.len(), 1);
    assert_eq!(keys[0].bytes, addr(0).bytes);
    assert_eq!(staking.unbonding_delegation_queue.len(), 0);
    assert_eq!(staking.redelegation_queue.len(), 0);
    Ok(())
}
