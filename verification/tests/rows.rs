use ws_bench::csv::{csv_header, result_file_name};
use ws_bench::decimal::to_decimal;
use ws_bench::message::ServerMessage;

fn response() -> ServerMessage {
    ServerMessage {
        client_id: 7,
        msg_id: 3,
        msg: String::from("abc"),
        created_at: 1_700_000_000_120,
        client_ts: 1_700_000_000_100,
        server_latency: 20,
    }
}

#[test]
fn format_writes_the_seven_columns_in_order() {
    let line = response().format(1_700_000_000_125);
    assert_eq!(line, "1700000000125,7,3,1700000000120,1700000000100,5,20\n");
}

#[test]
fn format_with_equal_clocks_gives_zero_client_latency() {
    let line = response().format(1_700_000_000_120);
    assert_eq!(line, "1700000000120,7,3,1700000000120,1700000000100,0,20\n");
}

#[test]
fn decimal_of_zero_is_a_single_digit() {
    assert_eq!(to_decimal(0), "0");
}

#[test]
fn decimal_of_the_largest_value() {
    assert_eq!(to_decimal(u128::MAX), "340282366920938463463374607431768211455");
    assert_eq!(to_decimal(u128::MAX), format!("{}", u128::MAX));
}

#[test]
fn decimal_keeps_inner_zeros() {
    assert_eq!(to_decimal(1_000_203), "1000203");
    assert_eq!(to_decimal(10), "10");
    assert_eq!(to_decimal(9), "9");
}

#[test]
fn header_is_the_documented_line() {
    assert_eq!(
        csv_header(),
        "timestamp,client_id,msg_id,server_created_at,client_created_at,client_latency,server_latency\n"
    );
}

#[test]
fn file_name_carries_the_run_settings() {
    assert_eq!(result_file_name(1000, 1, 1, 100), "result_c1000_b1_n1_w100.csv");
    assert_eq!(result_file_name(0, 0, 0, 0), "result_c0_b0_n0_w0.csv");
}
