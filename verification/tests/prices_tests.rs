use gbm_sim::calendar::Date;
use gbm_sim::prices::{initial_price, PlanError, PriceData, PriceRow, PriceType, RowError};

fn date(year: i32, month: u32, day: u32) -> Date {
    Date { year, month, day }
}

fn row(base: u64) -> PriceRow {
    PriceRow {
        open: base,
        high: base + 1,
        low: base + 2,
        close: base + 3,
        adj_close: base + 4,
        volume: base + 5,
    }
}

/// Five rows dated 2018-01-02 to 2018-01-06, row i with prices from 10 * i.
fn table() -> PriceData {
    let mut data = PriceData::new();
    for (i, cell) in ["01/02/2018", "01/03/2018", "01/04/2018", "01/05/2018", "01/06/2018"]
        .iter()
        .enumerate()
    {
        data.create(cell, row(10 * i as u64)).unwrap();
    }
    data
}

#[test]
fn new_table_is_empty() {
    let data = PriceData::new();
    assert_eq!(data.len(), 0);
    assert!(data.date.is_empty() && data.open.is_empty() && data.volumn.is_empty());
}

#[test]
fn create_appends_one_row_to_every_column() {
    let mut data = PriceData::new();
    assert_eq!(data.create("03/15/2021", row(7)), Ok(()));
    assert_eq!(data.len(), 1);
    assert_eq!(data.date, vec![date(2021, 3, 15)]);
    assert_eq!(data.open, vec![7]);
    assert_eq!(data.high, vec![8]);
    assert_eq!(data.low, vec![9]);
    assert_eq!(data.close, vec![10]);
    assert_eq!(data.adj_close, vec![11]);
    assert_eq!(data.volumn, vec![12]);
}

#[test]
fn create_rejects_unreadable_dates_and_keeps_the_table() {
    let mut data = table();
    assert_eq!(data.create("2018-01-08", row(99)), Err(RowError::UnreadableDate));
    assert_eq!(data.create("Date", row(99)), Err(RowError::UnreadableDate));
    assert_eq!(data.len(), 5);
    assert_eq!(data.open, vec![0, 10, 20, 30, 40]);
}

#[test]
fn column_follows_price_type() {
    let data = table();
    assert_eq!(data.column(PriceType::Open), &vec![0, 10, 20, 30, 40]);
    assert_eq!(data.column(PriceType::High), &vec![1, 11, 21, 31, 41]);
    assert_eq!(data.column(PriceType::Low), &vec![2, 12, 22, 32, 42]);
    assert_eq!(data.column(PriceType::Close), &vec![3, 13, 23, 33, 43]);
    assert_eq!(data.column(PriceType::Adjclose), &vec![4, 14, 24, 34, 44]);
}

#[test]
fn index_of_date_finds_the_first_match() {
    let mut data = table();
    data.create("01/03/2018", row(50)).unwrap();
    assert_eq!(data.index_of_date(date(2018, 1, 3)), 1);
    assert_eq!(data.index_of_date(date(2018, 1, 2)), 0);
    assert_eq!(data.index_of_date(date(2018, 1, 6)), 4);
}

#[test]
fn index_of_missing_date_is_zero() {
    let data = table();
    assert_eq!(data.index_of_date(date(2018, 1, 7)), 0);
    assert_eq!(PriceData::new().index_of_date(date(2018, 1, 7)), 0);
}

#[test]
fn training_prices_are_the_rows_between_the_dates() {
    let data = table();
    assert_eq!(data.training_prices(Some(PriceType::Close), 1, 4), vec![13, 23, 33]);
    assert_eq!(data.training_prices(Some(PriceType::Open), 2, 2), Vec::<u64>::new());
    assert_eq!(data.training_prices(None, 1, 4), Vec::<u64>::new());
}

#[test]
fn real_price_lies_steps_rows_after_the_end() {
    let data = table();
    assert_eq!(data.real_price(Some(PriceType::High), 2, 2), Some(41));
    assert_eq!(data.real_price(Some(PriceType::Low), 3, 0), Some(32));
    assert_eq!(data.real_price(None, 2, 2), None);
}

#[test]
fn initial_price_is_the_last_training_price() {
    assert_eq!(initial_price(&vec![5, 6, 7]), 7);
    assert_eq!(initial_price(&vec![9]), 9);
}

#[test]
fn plan_takes_window_start_price_and_real_price() {
    let data = table();
    let plan = data
        .plan_simulation(date(2018, 1, 2), date(2018, 1, 5), Some(PriceType::Adjclose), 1)
        .unwrap();
    assert_eq!(plan.start_index, 0);
    assert_eq!(plan.end_index, 3);
    assert_eq!(plan.training, vec![4, 14, 24]);
    assert_eq!(plan.initial, 24);
    assert_eq!(plan.actual, 44);
}

#[test]
fn plan_errors_follow_their_order() {
    let data = table();
    let s = date(2018, 1, 2);
    let e = date(2018, 1, 5);
    assert_eq!(data.plan_simulation(s, e, None, 1).err(), Some(PlanError::NoPriceType));
    assert_eq!(
        data.plan_simulation(e, s, Some(PriceType::Open), 1).err(),
        Some(PlanError::WindowReversed)
    );
    assert_eq!(
        data.plan_simulation(s, date(2018, 1, 3), Some(PriceType::Open), 1).err(),
        Some(PlanError::WindowTooShort)
    );
    // A missing end date counts as row 0, so the window is empty.
    assert_eq!(
        data.plan_simulation(s, date(2019, 1, 1), Some(PriceType::Open), 1).err(),
        Some(PlanError::WindowTooShort)
    );
    assert_eq!(
        data.plan_simulation(s, e, Some(PriceType::Open), -1).err(),
        Some(PlanError::NegativeSteps)
    );
    assert_eq!(
        data.plan_simulation(s, e, Some(PriceType::Open), 2).err(),
        Some(PlanError::NoRealPrice)
    );
}

#[test]
fn appended_date_is_found_in_its_row() {
    let mut data = table();
    let before = data.len();
    data.create("02/01/2018", row(60)).unwrap();
    assert_eq!(data.index_of_date(date(2018, 2, 1)), before);
    assert_eq!(data.date[before], date(2018, 2, 1));
}
