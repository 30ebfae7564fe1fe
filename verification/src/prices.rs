//! The table of daily prices read from a CSV price file, and the choice of the
//! prices that a simulation is trained on.
//!
//! A price is held as the 64-bit pattern of the number it was read as: the table
//! only stores, selects and hands back prices, it never computes with them.
use crate::calendar::{Date, chrono_parsed_date, parse_price_file_date, valid_date};
use crate::price_file::PRICE_FIELDS;
use vstd::prelude::*;

verus! {

/// Which of the daily prices a simulation is trained on.
#[derive(Clone, Copy, Debug, PartialEq, Eq, Structural)]
pub enum PriceType {
    High,
    Low,
    Close,
    Adjclose,
    Open,
}

/// The six numeric fields of a row of the price file, in file order.
#[derive(Clone, Copy, Debug, PartialEq, Eq, Structural)]
pub struct PriceRow {
    pub open: u64,
    pub high: u64,
    pub low: u64,
    pub close: u64,
    pub adj_close: u64,
    pub volume: u64,
}

/// Why a row of the price file was not taken into the table.
#[derive(Clone, Copy, Debug, PartialEq, Eq, Structural)]
pub enum RowError {
    /// The date cell is not a month/day/year date.
    UnreadableDate,
}

/// The price file as columns: row `i` of the file is entry `i` of every column.
pub struct PriceData {
    pub date: Vec<Date>,
    pub open: Vec<u64>,
    pub high: Vec<u64>,
    pub low: Vec<u64>,
    pub close: Vec<u64>,
    pub adj_close: Vec<u64>,
    pub volumn: Vec<u64>,
}

/// What a simulation starts from, taken out of the price table.
pub struct SimulationInputs {
    /// Row of the first training day.
    pub start_index: usize,
    /// Row just after the last training day.
    pub end_index: usize,
    /// The training prices, rows `start_index` up to `end_index`.
    pub training: Vec<u64>,
    /// The price every simulated path starts from: the last training price.
    pub initial: u64,
    /// The real price `steps` rows after `end_index`, to compare the prediction with.
    pub actual: u64,
}

/// Why no simulation can be set up from the table.
#[derive(Clone, Copy, Debug, PartialEq, Eq, Structural)]
pub enum PlanError {
    /// No price type has been chosen.
    NoPriceType,
    /// The start date's row lies after the end date's row.
    WindowReversed,
    /// Fewer than two training prices lie between the two rows.
    WindowTooShort,
    /// The number of prediction steps is negative.
    NegativeSteps,
    /// The table ends before the predicted row.
    NoRealPrice,
}

/// The first position of `x` in `s`, or 0 where `x` does not occur.
pub open spec fn date_index(s: Seq<Date>, x: Date) -> int {
    if exists|i: int| 0 <= i < s.len() && s[i] == x {
        choose|i: int| 0 <= i < s.len() && s[i] == x && forall|j: int| 0 <= j < i ==> s[j] != x
    } else {
        0
    }
}

impl PriceData {
    /// All columns have one entry per row.
    pub open spec fn well_formed(&self) -> bool {
        &&& self.open@.len() == self.date@.len()
        &&& self.high@.len() == self.date@.len()
        &&& self.low@.len() == self.date@.len()
        &&& self.close@.len() == self.date@.len()
        &&& self.adj_close@.len() == self.date@.len()
        &&& self.volumn@.len() == self.date@.len()
    }

    /// The number of rows.
    pub open spec fn rows(&self) -> nat {
        self.date@.len()
    }

    /// The column that holds the prices of the given type.
    pub open spec fn column_of(&self, price: PriceType) -> Seq<u64> {
        match price {
            PriceType::Open => self.open@,
            PriceType::Low => self.low@,
            PriceType::Close => self.close@,
            PriceType::High => self.high@,
            PriceType::Adjclose => self.adj_close@,
        }
    }

    /// The prices of row `i`.
    pub open spec fn row_at(&self, i: int) -> PriceRow {
        PriceRow {
            open: self.open@[i],
            high: self.high@[i],
            low: self.low@[i],
            close: self.close@[i],
            adj_close: self.adj_close@[i],
            volume: self.volumn@[i],
        }
    }

    /// The table with `row` appended under `date`.
    pub open spec fn appended(&self, other: &PriceData, date: Date, row: PriceRow) -> bool {
        &&& other.date@ == self.date@.push(date)
        &&& other.open@ == self.open@.push(row.open)
        &&& other.high@ == self.high@.push(row.high)
        &&& other.low@ == self.low@.push(row.low)
        &&& other.close@ == self.close@.push(row.close)
        &&& other.adj_close@ == self.adj_close@.push(row.adj_close)
        &&& other.volumn@ == self.volumn@.push(row.volume)
    }

    /// The two tables hold the same rows.
    pub open spec fn same_rows(&self, other: &PriceData) -> bool {
        &&& other.date@ == self.date@
        &&& other.open@ == self.open@
        &&& other.high@ == self.high@
        &&& other.low@ == self.low@
        &&& other.close@ == self.close@
        &&& other.adj_close@ == self.adj_close@
        &&& other.volumn@ == self.volumn@
    }

    /// Why `plan_simulation` fails on these arguments, checked in this order; `None`
    /// where it succeeds.
    pub open spec fn plan_failure(
        &self,
        start_date: Date,
        end_date: Date,
        selected: Option<PriceType>,
        steps: i64,
    ) -> Option<PlanError> {
        let s = date_index(self.date@, start_date);
        let e = date_index(self.date@, end_date);
        if selected is None {
            Some(PlanError::NoPriceType)
        } else if s > e {
            Some(PlanError::WindowReversed)
        } else if e - s < 2 {
            Some(PlanError::WindowTooShort)
        } else if steps < 0 {
            Some(PlanError::NegativeSteps)
        } else if e + steps >= self.rows() {
            Some(PlanError::NoRealPrice)
        } else {
            None
        }
    }

    /// An empty table.
    pub fn new() -> (r: PriceData)
        ensures
            r.well_formed(),
            r.rows() == 0,
    {
        PriceData {
            date: Vec::new(),
            open: Vec::new(),
            high: Vec::new(),
            low: Vec::new(),
            close: Vec::new(),
            adj_close: Vec::new(),
            volumn: Vec::new(),
        }
    }

    /// Appends a row whose date has already been read.
    pub fn push_row(&mut self, date: Date, row: PriceRow)
        requires
            old(self).well_formed(),
        ensures
            final(self).well_formed(),
            old(self).appended(&*final(self), date, row),
            final(self).date@ == old(self).date@.push(date),
            final(self).open@ == old(self).open@.push(row.open),
            final(self).high@ == old(self).high@.push(row.high),
            final(self).low@ == old(self).low@.push(row.low),
            final(self).close@ == old(self).close@.push(row.close),
            final(self).adj_close@ == old(self).adj_close@.push(row.adj_close),
            final(self).volumn@ == old(self).volumn@.push(row.volume),
    {
        self.date.push(date);
        self.open.push(row.open);
        self.high.push(row.high);
        self.low.push(row.low);
        self.close.push(row.close);
        self.adj_close.push(row.adj_close);
        self.volumn.push(row.volume);
    }

    /// Takes a row of the price file into the table: its date cell, written
    /// month/day/year, and its six prices. A row whose date cell cannot be read
    /// leaves the table unchanged.
    pub fn create(&mut self, date_field: &str, row: PriceRow) -> (r: Result<(), RowError>)
        requires
            old(self).well_formed(),
        ensures
            final(self).well_formed(),
            r is Ok <==> chrono_parsed_date(date_field@, "%m/%d/%Y"@) is Some,
            r is Ok ==> old(self).appended(
                &*final(self),
                chrono_parsed_date(date_field@, "%m/%d/%Y"@).unwrap(),
                row,
            ),
            r is Ok ==> valid_date(final(self).date@.last()),
            r is Ok ==> {
                &&& final(self).date@ == old(self).date@.push(
                    chrono_parsed_date(date_field@, "%m/%d/%Y"@).unwrap(),
                )
                &&& final(self).open@ == old(self).open@.push(row.open)
                &&& final(self).high@ == old(self).high@.push(row.high)
                &&& final(self).low@ == old(self).low@.push(row.low)
                &&& final(self).close@ == old(self).close@.push(row.close)
                &&& final(self).adj_close@ == old(self).adj_close@.push(row.adj_close)
                &&& final(self).volumn@ == old(self).volumn@.push(row.volume)
            },
            r is Err ==> {
                &&& final(self).date@ == old(self).date@
                &&& final(self).open@ == old(self).open@
                &&& final(self).high@ == old(self).high@
                &&& final(self).low@ == old(self).low@
                &&& final(self).close@ == old(self).close@
                &&& final(self).adj_close@ == old(self).adj_close@
                &&& final(self).volumn@ == old(self).volumn@
            },
            r is Err ==> r == Err::<(), RowError>(RowError::UnreadableDate) && old(self).same_rows(
                &*final(self),
            ),
    {
        match parse_price_file_date(date_field) {
            Some(date) => {
                self.push_row(date, row);
                Ok(())
            },
            None => Err(RowError::UnreadableDate),
        }
    }

    /// Builds the table from the records of a price file: record `i` gives row `i`,
    /// dated by its first field (month/day/year), with the prices `prices[i]` read
    /// from its six price fields. Fails with the number of the first record whose
    /// date field cannot be read.
    pub fn from_records(records: &Vec<Vec<String>>, prices: &Vec<PriceRow>) -> (r: Result<
        PriceData,
        usize,
    >)
        requires
            prices@.len() == records@.len(),
            forall|j: int| 0 <= j < records@.len() ==> records@[j]@.len() >= PRICE_FIELDS,
        ensures
            match r {
                Ok(t) => {
                    &&& t.well_formed()
                    &&& t.rows() == records@.len()
                    &&& t.open@.len() == records@.len()
                    &&& t.volumn@.len() == records@.len()
                    &&& forall|i: int|
                        0 <= i < records@.len() ==> chrono_parsed_date(
                            records@[i]@[0]@,
                            "%m/%d/%Y"@,
                        ) == Some(#[trigger] t.date@[i]) && t.row_at(i) == prices@[i]
                    &&& forall|i: int|
                        0 <= i < records@.len() ==> {
                            &&& #[trigger] t.open@[i] == prices@[i].open
                            &&& t.high@[i] == prices@[i].high
                            &&& t.low@[i] == prices@[i].low
                            &&& t.close@[i] == prices@[i].close
                            &&& t.adj_close@[i] == prices@[i].adj_close
                            &&& t.volumn@[i] == prices@[i].volume
                        }
                },
                Err(i) => {
                    &&& i < records@.len()
                    &&& chrono_parsed_date(records@[i as int]@[0]@, "%m/%d/%Y"@) is None
                    &&& forall|j: int|
                        0 <= j < i ==> chrono_parsed_date(
                            #[trigger] records@[j]@[0]@,
                            "%m/%d/%Y"@,
                        ) is Some
                },
            },
    {
        let n = records.len();
        let mut data = PriceData::new();
        let mut i: usize = 0;
        while i < n
            invariant
                n == records@.len(),
                prices@.len() == n,
                forall|j: int| 0 <= j < n ==> records@[j]@.len() >= PRICE_FIELDS,
                i <= n,
                data.well_formed(),
                data.rows() == i,
                forall|j: int|
                    0 <= j < i ==> chrono_parsed_date(records@[j]@[0]@, "%m/%d/%Y"@) == Some(
                        #[trigger] data.date@[j],
                    ) && data.row_at(j) == prices@[j],
            decreases n - i,
        {
            let record = &records[i];
            assert(record@.len() >= PRICE_FIELDS);
            let cell: &str = record[0].as_str();
            let ghost before = data;
            match data.create(cell, prices[i]) {
                Ok(()) => {},
                Err(_) => {
                    assert forall|j: int| 0 <= j < i implies chrono_parsed_date(
                        #[trigger] records@[j]@[0]@,
                        "%m/%d/%Y"@,
                    ) is Some by {
                        assert(chrono_parsed_date(records@[j]@[0]@, "%m/%d/%Y"@) == Some(
                            before.date@[j],
                        ));
                    }
                    return Err(i);
                },
            }
            assert forall|j: int| 0 <= j < i + 1 implies chrono_parsed_date(
                records@[j]@[0]@,
                "%m/%d/%Y"@,
            ) == Some(#[trigger] data.date@[j]) && data.row_at(j) == prices@[j] by {
                if j < i {
                    assert(data.date@[j] == before.date@[j]);
                    assert(data.row_at(j) == before.row_at(j));
                }
            }
            i = i + 1;
        }
        assert forall|i: int| 0 <= i < n implies {
            &&& #[trigger] data.open@[i] == prices@[i].open
            &&& data.high@[i] == prices@[i].high
            &&& data.low@[i] == prices@[i].low
            &&& data.close@[i] == prices@[i].close
            &&& data.adj_close@[i] == prices@[i].adj_close
            &&& data.volumn@[i] == prices@[i].volume
        } by {
            assert(chrono_parsed_date(records@[i]@[0]@, "%m/%d/%Y"@) == Some(data.date@[i]));
            assert(data.row_at(i) == prices@[i]);
        }
        Ok(data)
    }

    /// The number of rows.
    pub fn len(&self) -> (r: usize)
        ensures
            r == self.rows(),
    {
        self.date.len()
    }

    /// The column that holds the prices of the given type.
    pub fn column(&self, price: PriceType) -> (r: &Vec<u64>)
        ensures
            r@ == self.column_of(price),
            price == PriceType::Open ==> r@ == self.open@,
            price == PriceType::High ==> r@ == self.high@,
            price == PriceType::Low ==> r@ == self.low@,
            price == PriceType::Close ==> r@ == self.close@,
            price == PriceType::Adjclose ==> r@ == self.adj_close@,
    {
        match price {
            PriceType::Open => &self.open,
            PriceType::Low => &self.low,
            PriceType::Close => &self.close,
            PriceType::High => &self.high,
            PriceType::Adjclose => &self.adj_close,
        }
    }

    /// The row of the first occurrence of `target` among the dates, or row 0 where
    /// the date does not occur.
    pub fn index_of_date(&self, target: Date) -> (r: usize)
        ensures
            r == date_index(self.date@, target),
            (exists|i: int| 0 <= i < self.date@.len() && self.date@[i] == target) ==> {
                &&& r < self.date@.len()
                &&& self.date@[r as int] == target
                &&& forall|j: int| 0 <= j < r ==> self.date@[j] != target
            },
            !(exists|i: int| 0 <= i < self.date@.len() && self.date@[i] == target) ==> r == 0,
    {
        let n = self.date.len();
        let mut i: usize = 0;
        while i < n
            invariant
                n == self.date@.len(),
                i <= n,
                forall|j: int| 0 <= j < i ==> self.date@[j] != target,
            decreases n - i,
        {
            if self.date[i] == target {
                proof {
                    let s = self.date@;
                    let c = choose|k: int|
                        0 <= k < s.len() && s[k] == target && forall|j: int| 0 <= j < k ==> s[j] != target;
                    assert(0 <= i < s.len() && s[i as int] == target && forall|j: int|
                        0 <= j < i ==> s[j] != target);
                    if c < i {
                        assert(s[c] != target);
                    } else if c > i {
                        assert(s[i as int] != target);
                    }
                }
                return i;
            }
            i = i + 1;
        }
        0
    }

    /// The prices of the chosen type from row `start` up to, not including, row
    /// `end`; no prices where no type is chosen.
    pub fn training_prices(&self, selected: Option<PriceType>, start: usize, end: usize) -> (r: Vec<
        u64,
    >)
        requires
            self.well_formed(),
            selected is Some ==> start <= end <= self.rows(),
        ensures
            r@ == match selected {
                Some(p) => self.column_of(p).subrange(start as int, end as int),
                None => Seq::<u64>::empty(),
            },
    {
        match selected {
            Some(p) => {
                let column = self.column(p);
                let mut out: Vec<u64> = Vec::new();
                let mut i: usize = start;
                while i < end
                    invariant
                        start <= i <= end,
                        end <= column@.len(),
                        out@ == column@.subrange(start as int, i as int),
                    decreases end - i,
                {
                    out.push(column[i]);
                    i = i + 1;
                }
                out
            },
            None => Vec::new(),
        }
    }

    /// The real price of the chosen type `steps` rows after row `end_index`; none
    /// where no type is chosen.
    pub fn real_price(&self, selected: Option<PriceType>, end_index: usize, steps: i64) -> (r:
        Option<u64>)
        requires
            self.well_formed(),
            selected is Some ==> 0 <= steps && end_index + steps < self.rows(),
        ensures
            r is Some <==> selected is Some,
            r matches Some(v) ==> v == self.column_of(selected.unwrap())[end_index + steps],
    {
        match selected {
            Some(p) => {
                let column = self.column(p);
                let n = column.len();
                assert(column@.len() == self.rows());
                assert(steps < n);
                let offset: usize = steps as usize;
                assert(offset == steps);
                Some(column[end_index + offset])
            },
            None => None,
        }
    }

    /// Sets up a simulation: finds the rows of the start and end dates (row 0
    /// where a date does not occur), takes the training prices of the chosen type
    /// between them, the last of which every simulated path starts from, and the
    /// real price `steps` rows after the end row. Fails, in this order, where no
    /// type is chosen, where the start row lies after the end row, where fewer than
    /// two training prices lie between them, where `steps` is negative, and where
    /// the table ends before the predicted row.
    pub fn plan_simulation(
        &self,
        start_date: Date,
        end_date: Date,
        selected: Option<PriceType>,
        steps: i64,
    ) -> (r: Result<SimulationInputs, PlanError>)
        requires
            self.well_formed(),
        ensures
            ({
                let s = date_index(self.date@, start_date);
                let e = date_index(self.date@, end_date);
                match r {
                    Err(err) => self.plan_failure(start_date, end_date, selected, steps) == Some(err),
                    Ok(plan) => {
                        &&& self.plan_failure(start_date, end_date, selected, steps) is None
                        &&& plan.start_index == s
                        &&& plan.end_index == e
                        &&& plan.training@ == self.column_of(selected.unwrap()).subrange(s, e)
                        &&& plan.initial == self.column_of(selected.unwrap())[e - 1]
                        &&& plan.actual == self.column_of(selected.unwrap())[e + steps]
                    },
                }
            }),
            ({
                let s = date_index(self.date@, start_date);
                let e = date_index(self.date@, end_date);
                &&& r is Ok <==> (selected is Some && s <= e && e - s >= 2 && steps >= 0 && e + steps
                    < self.rows())
                &&& r == Err::<SimulationInputs, PlanError>(PlanError::NoPriceType) <==> selected is None
                &&& r == Err::<SimulationInputs, PlanError>(PlanError::WindowReversed) <==> (
                selected is Some && s > e)
                &&& r == Err::<SimulationInputs, PlanError>(PlanError::WindowTooShort) <==> (
                selected is Some && s <= e && e - s < 2)
                &&& r == Err::<SimulationInputs, PlanError>(PlanError::NegativeSteps) <==> (
                selected is Some && s <= e && e - s >= 2 && steps < 0)
                &&& r == Err::<SimulationInputs, PlanError>(PlanError::NoRealPrice) <==> (
                selected is Some && s <= e && e - s >= 2 && steps >= 0 && e + steps >= self.rows())
            }),
            r matches Ok(plan) ==> {
                &&& plan.training@.len() == plan.end_index - plan.start_index
                &&& plan.initial == plan.training@.last()
                &&& forall|i: int|
                    0 <= i < plan.training@.len() ==> #[trigger] plan.training@[i]
                        == self.column_of(selected.unwrap())[plan.start_index + i]
            },
    {
        let start_index = self.index_of_date(start_date);
        let end_index = self.index_of_date(end_date);
        let p = match selected {
            Some(p) => p,
            None => {
                return Err(PlanError::NoPriceType);
            },
        };
        if start_index > end_index {
            return Err(PlanError::WindowReversed);
        }
        if end_index - start_index < 2 {
            return Err(PlanError::WindowTooShort);
        }
        if steps < 0 {
            return Err(PlanError::NegativeSteps);
        }
        let n = self.len();
        if steps as u64 >= (n - end_index) as u64 {
            return Err(PlanError::NoRealPrice);
        }
        let training = self.training_prices(selected, start_index, end_index);
        let initial = initial_price(&training);
        let column = self.column(p);
        let offset: usize = steps as usize;
        let actual = column[end_index + offset];
        Ok(SimulationInputs { start_index, end_index, training, initial, actual })
    }
}

/// Choosing a price type chooses the column of the table named after it, on every
/// table.
pub proof fn lemma_price_type_selects_its_column(t: &PriceData)
    ensures
        t.column_of(PriceType::Open) == t.open@,
        t.column_of(PriceType::High) == t.high@,
        t.column_of(PriceType::Low) == t.low@,
        t.column_of(PriceType::Close) == t.close@,
        t.column_of(PriceType::Adjclose) == t.adj_close@,
{
}

/// `plan_simulation` fails exactly in the five cases where the original cannot
/// simulate: no price type chosen, the start row after the end row, fewer than
/// two training rows, negative steps, or no row `steps` after the end row. Every
/// window of two rows or more that ends early enough is accepted, however long.
pub proof fn lemma_plan_fails_only_where_simulation_cannot_run(
    t: &PriceData,
    start_date: Date,
    end_date: Date,
    selected: Option<PriceType>,
    steps: i64,
)
    ensures
        ({
            let s = date_index(t.date@, start_date);
            let e = date_index(t.date@, end_date);
            t.plan_failure(start_date, end_date, selected, steps) is None <==> (selected is Some && s
                <= e && e - s >= 2 && steps >= 0 && e + steps < t.rows())
        }),
{
}

/// A date appended to a table that did not hold it is found again, in the row it
/// was appended as.
pub proof fn lemma_appended_date_is_found(
    before: &PriceData,
    after: &PriceData,
    date: Date,
    row: PriceRow,
)
    requires
        before.appended(after, date, row),
        !before.date@.contains(date),
    ensures
        date_index(after.date@, date) == before.rows(),
{
    let s = after.date@;
    let n: int = before.rows() as int;
    assert(s[n] == date);
    assert forall|j: int| 0 <= j < n implies s[j] != date by {
        assert(s[j] == before.date@[j]);
    }
    let c = choose|k: int| 0 <= k < s.len() && s[k] == date && forall|j: int| 0 <= j < k ==> s[j] != date;
    assert(0 <= n < s.len() && s[n] == date && forall|j: int| 0 <= j < n ==> s[j] != date);
    if c < n {
        assert(s[c] != date);
    } else if c > n {
        assert(s[n] != date);
    }
}

/// The price every simulated path starts from: the last training price.
pub fn initial_price(training: &Vec<u64>) -> (r: u64)
    requires
        training@.len() > 0,
    ensures
        r == training@.last(),
{
    training[training.len() - 1]
}

} // verus!
