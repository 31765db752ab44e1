use viztra::deal::{Amount, Deal, DealColumns};

fn amount(x: f64) -> Amount {
    Amount::from_bits(x.to_bits())
}

fn sample_deal(ticket: i64, time: i64, deal_type: i64, entry: i64, symbol: &str, profit: f64) -> Deal {
    Deal {
        ticket,
        order: ticket + 1000,
        time,
        time_msc: time * 1000,
        deal_type,
        entry,
        magic: 7,
        position_id: ticket * 10,
        reason: 3,
        volume: amount(0.5),
        price: amount(1.2345),
        commission: amount(-0.7),
        swap: amount(0.0),
        profit: amount(profit),
        fee: amount(0.1),
        symbol: symbol.to_string(),
        comment: format!("deal {}", ticket),
        external_id: format!("ext-{}", ticket),
    }
}

fn same_deal(a: &Deal, b: &Deal) -> bool {
    a.ticket == b.ticket
        && a.order == b.order
        && a.time == b.time
        && a.time_msc == b.time_msc
        && a.deal_type == b.deal_type
        && a.entry == b.entry
        && a.magic == b.magic
        && a.position_id == b.position_id
        && a.reason == b.reason
        && a.volume == b.volume
        && a.price == b.price
        && a.commission == b.commission
        && a.swap == b.swap
        && a.profit == b.profit
        && a.fee == b.fee
        && a.symbol == b.symbol
        && a.comment == b.comment
        && a.external_id == b.external_id
}

#[test]
fn round_trip_keeps_every_field() {
    let rows = vec![
        sample_deal(1, 100, 0, 0, "EURUSD", 12.5),
        sample_deal(2, 50, 2, 0, "", -3.25),
        sample_deal(3, 75, 1, 1, "GBPUSD", 0.0),
    ];
    let columns = DealColumns::from_deals(&rows);
    assert_eq!(columns.height, 3);
    let back = columns.to_deals();
    assert_eq!(back.len(), rows.len());
    for (a, b) in rows.iter().zip(back.iter()) {
        assert!(same_deal(a, b));
    }
    assert_eq!(f64::from_bits(back[1].profit.to_bits()), -3.25);
}

#[test]
fn round_trip_of_no_rows_is_empty() {
    let columns = DealColumns::from_deals(&Vec::new());
    assert_eq!(columns.height, 0);
    assert!(columns.to_deals().is_empty());
}

#[test]
fn missing_cells_read_as_zero_or_empty() {
    let mut columns = DealColumns::from_deals(&vec![sample_deal(9, 10, 2, 0, "XAUUSD", 4.0)]);
    columns.ticket[0] = None;
    columns.profit[0] = None;
    columns.symbol[0] = None;
    columns.comment.clear();
    let row = columns.row(0);
    assert_eq!(row.ticket, 0);
    assert_eq!(row.profit, Amount::zero());
    assert_eq!(f64::from_bits(row.profit.to_bits()), 0.0);
    assert_eq!(row.symbol, "");
    assert_eq!(row.comment, "");
    assert_eq!(row.time, 10);
    assert_eq!(row.external_id, "ext-9");
}

#[test]
fn rows_beyond_short_columns_default() {
    let mut columns = DealColumns::from_deals(&vec![sample_deal(1, 10, 0, 0, "A", 1.0)]);
    columns.height = 2;
    let rows = columns.to_deals();
    assert_eq!(rows.len(), 2);
    assert_eq!(rows[1].ticket, 0);
    assert_eq!(rows[1].symbol, "");
    assert_eq!(rows[1].volume.to_bits(), 0);
}
