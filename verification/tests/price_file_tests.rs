use gbm_sim::calendar::Date;
use gbm_sim::price_file::{first_short_record, price_file_records, PRICE_FIELDS};
use gbm_sim::prices::{PriceData, PriceRow, PriceType};

const FILE: &str = "Date,Open,High,Low,Close,Adj Close,Volume\n\
01/02/2018,1.5,2.5,0.5,2.0,1.9,100\n\
01/03/2018,2.0,3.0,1.0,2.5,2.4,200\n";

fn strings(fields: &[&str]) -> Vec<String> {
    fields.iter().map(|f| f.to_string()).collect()
}

fn row(base: u64) -> PriceRow {
    PriceRow { open: base, high: base + 1, low: base + 2, close: base + 3, adj_close: base + 4, volume: base + 5 }
}

#[test]
fn header_record_is_left_out() {
    let records = price_file_records(FILE.as_bytes(), true).unwrap();
    assert_eq!(
        records,
        vec![
            strings(&["01/02/2018", "1.5", "2.5", "0.5", "2.0", "1.9", "100"]),
            strings(&["01/03/2018", "2.0", "3.0", "1.0", "2.5", "2.4", "200"]),
        ]
    );
}

#[test]
fn header_record_is_kept_without_headers() {
    let records = price_file_records(FILE.as_bytes(), false).unwrap();
    assert_eq!(records.len(), 3);
    assert_eq!(records[0], strings(&["Date", "Open", "High", "Low", "Close", "Adj Close", "Volume"]));
}

#[test]
fn records_of_unequal_length_are_rejected() {
    let bad = "a,b,c\n1,2,3\n4,5\n";
    assert_eq!(price_file_records(bad.as_bytes(), true), None);
    assert_eq!(price_file_records(b"", true), Some(Vec::new()));
}

#[test]
fn short_records_are_found() {
    let records = vec![strings(&["a", "b", "c", "d", "e", "f", "g"]), strings(&["a", "b"]), strings(&["x"])];
    assert_eq!(first_short_record(&records), Some(1));
    assert_eq!(first_short_record(&records[..1].to_vec()), None);
    assert_eq!(first_short_record(&Vec::new()), None);
    assert_eq!(PRICE_FIELDS, 7);
}

#[test]
fn table_from_records_has_one_row_per_record() {
    let records = price_file_records(FILE.as_bytes(), true).unwrap();
    let prices = vec![row(10), row(20)];
    let data = PriceData::from_records(&records, &prices).unwrap();
    assert_eq!(data.len(), 2);
    assert_eq!(
        data.date,
        vec![Date { year: 2018, month: 1, day: 2 }, Date { year: 2018, month: 1, day: 3 }]
    );
    assert_eq!(data.column(PriceType::Open), &vec![10, 20]);
    assert_eq!(data.volumn, vec![15, 25]);
    for column in [&data.open, &data.high, &data.low, &data.close, &data.adj_close, &data.volumn] {
        assert_eq!(column.len(), 2);
    }
}

#[test]
fn table_from_records_reports_first_unreadable_date() {
    let records = vec![
        strings(&["01/02/2018", "1", "1", "1", "1", "1", "1"]),
        strings(&["2018-01-03", "1", "1", "1", "1", "1", "1"]),
        strings(&["bad", "1", "1", "1", "1", "1", "1"]),
    ];
    let prices = vec![row(1), row(2), row(3)];
    assert_eq!(PriceData::from_records(&records, &prices).err(), Some(1));
    assert_eq!(PriceData::from_records(&Vec::new(), &Vec::new()).unwrap().len(), 0);
}
