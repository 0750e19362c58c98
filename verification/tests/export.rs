use bazaar_feed::catalog::{BazaarResponse, Order, Product, QuickStatus};
use bazaar_feed::decimal::FixedPoint;
use bazaar_feed::error::FeedError;
use bazaar_feed::export::{encode_table, export_csv, summary_rows};
use bazaar_feed::text::decimal_string;

fn product(id: &str, sell_price: &str, sell_volume: u64, buy_price: &str, buy_volume: u64, sell_orders: u32, buy_orders: u32) -> Product {
    Product {
        product_id: id.to_string(),
        sell_summary: vec![Order { amount: 7, price_per_unit: FixedPoint::from_int(420), orders: 2 }],
        buy_summary: Vec::new(),
        quick_status: QuickStatus {
            product_id: id.to_string(),
            sell_price: sell_price.to_string(),
            sell_volume,
            sell_moving_week: 11,
            sell_orders,
            buy_price: buy_price.to_string(),
            buy_volume,
            buy_moving_week: 12,
            buy_orders,
        },
    }
}

fn ink_sac() -> BazaarResponse {
    BazaarResponse {
        success: true,
        last_updated: 1700000000000,
        products: vec![("INK_SAC".to_string(), product("INK_SAC", "4.2", 100, "3.1", 50, 2, 1))],
    }
}

fn row(fields: &[&str]) -> Vec<String> {
    fields.iter().map(|f| f.to_string()).collect()
}

#[test]
fn decimal_string_writes_the_digits() {
    assert_eq!(decimal_string(0), "0");
    assert_eq!(decimal_string(7), "7");
    assert_eq!(decimal_string(10), "10");
    assert_eq!(decimal_string(1700000000000), "1700000000000");
    assert_eq!(decimal_string(u64::MAX), "18446744073709551615");
}

#[test]
fn summary_rows_of_one_product() {
    let rows = summary_rows(&ink_sac());
    assert_eq!(rows.len(), 3);
    assert_eq!(rows[0], row(&["last_updated", "1700000000000", "", "", "", "", ""]));
    assert_eq!(
        rows[1],
        row(&["product_id", "sell_price", "sell_volume", "buy_price", "buy_volume", "sell_orders", "buy_orders"])
    );
    assert_eq!(rows[2], row(&["INK_SAC", "4.2", "100", "3.1", "50", "2", "1"]));
}

#[test]
fn summary_rows_of_an_empty_catalog() {
    let empty = BazaarResponse { success: false, last_updated: 0, products: Vec::new() };
    let rows = summary_rows(&empty);
    assert_eq!(rows.len(), 2);
    assert_eq!(rows[0], row(&["last_updated", "0", "", "", "", "", ""]));
}

#[test]
fn summary_rows_keep_the_catalog_order() {
    let mut response = ink_sac();
    response.products.push(("WHEAT".to_string(), product("WHEAT", "2.5", 9, "2", 8, 0, 3)));
    response.products.push(("APPLE".to_string(), product("APPLE", "0.1", 1, "0.05", 2, 3, 4)));
    let rows = summary_rows(&response);
    assert_eq!(rows.len(), 5);
    assert_eq!(rows[2][0], "INK_SAC");
    assert_eq!(rows[3], row(&["WHEAT", "2.5", "9", "2", "8", "0", "3"]));
    assert_eq!(rows[4], row(&["APPLE", "0.1", "1", "0.05", "2", "3", "4"]));
}

#[test]
fn row_takes_the_product_own_identifier() {
    let mut response = ink_sac();
    response.products[0].0 = "OTHER_KEY".to_string();
    let rows = summary_rows(&response);
    assert_eq!(rows[2][0], "INK_SAC");
}

#[test]
fn export_end_to_end() {
    let bytes = export_csv(&ink_sac()).unwrap();
    let text = String::from_utf8(bytes).unwrap();
    let lines: Vec<&str> = text.lines().collect();
    assert_eq!(lines.len(), 3);
    assert_eq!(lines[0], "last_updated,1700000000000,,,,,");
    assert_eq!(lines[1], "product_id,sell_price,sell_volume,buy_price,buy_volume,sell_orders,buy_orders");
    assert_eq!(lines[2], "INK_SAC,4.2,100,3.1,50,2,1");
    assert_eq!(
        text,
        "last_updated,1700000000000,,,,,\nproduct_id,sell_price,sell_volume,buy_price,buy_volume,sell_orders,buy_orders\nINK_SAC,4.2,100,3.1,50,2,1\n"
    );
}

#[test]
fn export_agrees_with_the_writer() {
    let response = ink_sac();
    let mut writer = csv::Writer::from_writer(Vec::new());
    for r in summary_rows(&response) {
        writer.write_record(&r).unwrap();
    }
    let expected = writer.into_inner().unwrap();
    assert_eq!(export_csv(&response), Ok(expected));
}

#[test]
fn encode_table_quotes_where_needed() {
    let table = vec![row(&["a", "b,c"]), row(&["say \"hi\"", ""])];
    let bytes = encode_table(&table).unwrap();
    assert_eq!(String::from_utf8(bytes).unwrap(), "a,\"b,c\"\n\"say \"\"hi\"\"\",\n");
}

#[test]
fn encode_table_of_nothing_is_empty() {
    assert_eq!(encode_table(&Vec::new()), Ok(Vec::new()));
}

#[test]
fn encode_table_refuses_uneven_rows() {
    let table = vec![row(&["a", "b"]), row(&["c"])];
    assert_eq!(encode_table(&table), Err(FeedError::IoError));
    let table = vec![row(&["a"]), row(&["b"]), row(&["c", "d"])];
    assert_eq!(encode_table(&table), Err(FeedError::IoError));
}

#[test]
fn decimal_string_agrees_with_the_standard_form() {
    for n in [0u64, 1, 9, 10, 99, 100, 12345, 1700000000000, u64::MAX] {
        assert_eq!(decimal_string(n), n.to_string());
    }
}
