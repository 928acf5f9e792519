use orga::coins::{Amount, Faucet, FaucetOptions, Symbol};
use orga::error::Result;

#[derive(Clone, Debug, Default)]
struct Simp;
impl Symbol for Simp {
    const INDEX: u8 = 0;
    const NAME: &'static str = "SIMP";
}

fn run_schedule(decay_num: u64, decay_den: u64) -> Result<Vec<u64>> {
    let mut faucet: Faucet<Simp> = Faucet::new();

    let _ = faucet
        .mint(0)
        .expect_err("Should not be able to mint before configuring");

    let total = 210_000_000;
    faucet.configure(FaucetOptions {
        num_periods: 9,
        period_length: 10,
        total_coins: Amount::new(total),
        period_decay: Amount::new(decay_num).div_amount(Amount::new(decay_den))?,
        start_seconds: 10,
    })?;

    let mut minted = vec![];
    for i in 0..23i64 {
        let now = i * 5;
        if i == 6 {
            continue;
        }
        minted.push(faucet.mint(now)?);
        if i == 12 {
            minted.push(faucet.mint(now)?);
        }
    }
    Ok(minted.iter().map(|coin| coin.amount.value).collect())
}

#[test]
fn halvenings() -> Result<()> {
    let minted_amounts = run_schedule(1, 2)?;
    assert_eq!(
        minted_amounts,
        vec![
            0, 0, 0, 52602740, 52602739, 26301370, 39452055, 13150685, 6575343, 6575342,
            3287671, 3287671, 0, 1643836, 1643836, 821917, 821918, 410959, 410959, 205480,
            205479, 0, 0
        ]
    );
    assert_eq!(minted_amounts.iter().sum::<u64>(), 210_000_000);

    Ok(())
}

#[test]
fn thirdenings() -> Result<()> {
    let minted_amounts = run_schedule(2, 3)?;
    assert_eq!(
        minted_amounts,
        vec![
            0, 0, 0, 35934745, 35934745, 23956497, 39927495, 15970998, 10647332, 10647331,
            7098222, 7098221, 0, 4732148, 4732147, 3154765, 3154765, 2103177, 2103176, 1402118,
            1402118, 0, 0
        ]
    );
    assert_eq!(minted_amounts.iter().sum::<u64>(), 210_000_000);

    Ok(())
}

#[test]
fn mint_before_start_is_zero_and_unconfigured_fails() -> Result<()> {
    let mut faucet: Faucet<Simp> = Faucet::new();
    assert!(faucet.mint(100).is_err());
    faucet.configure(FaucetOptions {
        num_periods: 1,
        period_length: 10,
        total_coins: Amount::new(100),
        period_decay: Amount::new(1).div_amount(Amount::new(2))?,
        start_seconds: 50,
    })?;
    assert_eq!(faucet.mint(50)?.amount.value, 0);
    assert_eq!(faucet.mint(55)?.amount.value, 50);
    assert_eq!(faucet.mint(70)?.amount.value, 50);
    assert_eq!(faucet.amount_minted.value, 100);
    Ok(())
}
