use solana_indexer::utils::format::{
    balance_change, format_number, format_timestamp, timestamp_text, tracking_label, truncate,
    BalanceChange, FIRST_CALENDAR_SECOND, LAST_CALENDAR_SECOND,
};

#[test]
fn numbers_are_grouped_in_threes() {
    assert_eq!(format_number(0), "0");
    assert_eq!(format_number(7), "7");
    assert_eq!(format_number(42), "42");
    assert_eq!(format_number(999), "999");
    assert_eq!(format_number(1000), "1,000");
    assert_eq!(format_number(1001), "1,001");
    assert_eq!(format_number(12_345), "12,345");
    assert_eq!(format_number(100_200), "100,200");
    assert_eq!(format_number(1_000_000), "1,000,000");
    assert_eq!(format_number(1_000_000_000), "1,000,000,000");
    assert_eq!(format_number(2_039_280), "2,039,280");
    assert_eq!(format_number(u64::MAX), "18,446,744,073,709,551,615");
}

#[test]
fn long_texts_keep_their_two_ends() {
    let address = "9WzDXwBbmkg8ZTbNMqUxvQRAyrZzDsGYdLVL9zYtAWWM";
    assert_eq!(truncate(address, 20), "9WzDXwBb...9zYtAWWM");
    assert_eq!(truncate(address, 16), "9WzDXw...YtAWWM");
    assert_eq!(truncate(address, 24), "9WzDXwBbmk...VL9zYtAWWM");
    assert_eq!(truncate(address, 4), "...");
    assert_eq!(truncate(address, 5), "...");
    assert_eq!(truncate(address, 6), "9...M");
}

#[test]
fn short_texts_stay_whole() {
    assert_eq!(truncate("short", 20), "short");
    assert_eq!(truncate("", 4), "");
    assert_eq!(truncate("abcd", 4), "abcd");
    assert_eq!(truncate("abcde", 4), "...");
    assert_eq!(truncate("12345678901234567890", 20), "12345678901234567890");
    assert_eq!(truncate("123456789012345678901", 20), "12345678...45678901");
}

#[test]
fn time_of_day_in_utc() {
    assert_eq!(format_timestamp(0), "00:00:00");
    assert_eq!(format_timestamp(1_431_648_000), "00:00:00");
    assert_eq!(format_timestamp(1_700_000_000), "22:13:20");
    assert_eq!(format_timestamp(86_399), "23:59:59");
    assert_eq!(format_timestamp(-1), "23:59:59");
    assert_eq!(format_timestamp(3_661), "01:01:01");
}

#[test]
fn every_time_in_the_years_one_to_9999_has_a_time_of_day() {
    assert_eq!(FIRST_CALENDAR_SECOND, -62_135_596_800);
    assert_eq!(LAST_CALENDAR_SECOND, 253_402_300_799);
    assert_eq!(format_timestamp(FIRST_CALENDAR_SECOND), "00:00:00");
    assert_eq!(format_timestamp(FIRST_CALENDAR_SECOND + 1), "00:00:01");
    assert_eq!(format_timestamp(LAST_CALENDAR_SECOND), "23:59:59");
    assert_eq!(format_timestamp(LAST_CALENDAR_SECOND - 3_600), "22:59:59");
}

#[test]
fn time_out_of_reach_is_unknown() {
    assert_eq!(format_timestamp(i64::MAX), "unknown");
    assert_eq!(format_timestamp(i64::MIN), "unknown");
    assert_eq!(timestamp_text(None), "unknown");
    assert_eq!(timestamp_text(Some("12:00:00".to_string())), "12:00:00");
}

#[test]
fn balance_change_goes_by_the_direction() {
    assert_eq!(balance_change(5, 9), BalanceChange::Increase);
    assert_eq!(balance_change(9, 5), BalanceChange::Decrease);
    assert_eq!(balance_change(9, 9), BalanceChange::DataChanged);
    assert_eq!(balance_change(0, u64::MAX), BalanceChange::Increase);
    assert_eq!(balance_change(u64::MAX, 0), BalanceChange::Decrease);
}

#[test]
fn tracking_label_names_what_is_shown() {
    assert_eq!(tracking_label(false, false, false), "slots");
    assert_eq!(tracking_label(true, false, false), "slots, leaders");
    assert_eq!(tracking_label(false, true, false), "slots, txs");
    assert_eq!(tracking_label(false, false, true), "slots, saving");
    assert_eq!(tracking_label(true, true, true), "slots, leaders, txs, saving");
}
