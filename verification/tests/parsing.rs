use adminbot::engine::{parse_command, Command};
use adminbot::parse::{parse_i32, parse_i64, parse_u64};

#[test]
fn parse_u64_plain_values() {
    assert_eq!(parse_u64("0"), Some(0));
    assert_eq!(parse_u64("123"), Some(123));
    assert_eq!(parse_u64("+42"), Some(42));
    assert_eq!(parse_u64("18446744073709551615"), Some(u64::MAX));
}

#[test]
fn parse_u64_rejects_malformed_and_overflow() {
    assert_eq!(parse_u64(""), None);
    assert_eq!(parse_u64("+"), None);
    assert_eq!(parse_u64("-1"), None);
    assert_eq!(parse_u64("12a"), None);
    assert_eq!(parse_u64("a12"), None);
    assert_eq!(parse_u64("1 2"), None);
    assert_eq!(parse_u64("18446744073709551616"), None);
    assert_eq!(parse_u64("99999999999999999999999999"), None);
}

#[test]
fn parse_i64_signs_and_limits() {
    assert_eq!(parse_i64("123"), Some(123));
    assert_eq!(parse_i64("-123"), Some(-123));
    assert_eq!(parse_i64("+7"), Some(7));
    assert_eq!(parse_i64("-0"), Some(0));
    assert_eq!(parse_i64("9223372036854775807"), Some(i64::MAX));
    assert_eq!(parse_i64("-9223372036854775808"), Some(i64::MIN));
    assert_eq!(parse_i64("9223372036854775808"), None);
    assert_eq!(parse_i64("-9223372036854775809"), None);
    assert_eq!(parse_i64("-"), None);
    assert_eq!(parse_i64("--1"), None);
}

#[test]
fn parse_i32_signs_and_limits() {
    assert_eq!(parse_i32("5"), Some(5));
    assert_eq!(parse_i32("-5"), Some(-5));
    assert_eq!(parse_i32("2147483647"), Some(i32::MAX));
    assert_eq!(parse_i32("-2147483648"), Some(i32::MIN));
    assert_eq!(parse_i32("2147483648"), None);
    assert_eq!(parse_i32("-2147483649"), None);
    assert_eq!(parse_i32("9999999999"), None);
    assert_eq!(parse_i32("x"), None);
}

#[test]
fn command_table_maps_every_command() {
    assert!(matches!(parse_command("/whitelist_group"), Some(Command::WhitelistGroup)));
    assert!(matches!(parse_command("/whitelist_thread"), Some(Command::WhitelistThread)));
    assert!(matches!(parse_command("/unwhitelist_group"), Some(Command::UnwhitelistGroup)));
    assert!(matches!(parse_command("/unwhitelist_thread"), Some(Command::UnwhitelistThread)));
    assert!(matches!(parse_command("/remove_admin"), Some(Command::RemoveAdmin)));
    assert!(matches!(parse_command("/make_superadmin"), Some(Command::MakeSuperadmin)));
    assert!(matches!(parse_command("/list_admins"), Some(Command::ListAdmins)));
    assert!(matches!(
        parse_command("/list_whitelisted_groups"),
        Some(Command::ListWhitelistedGroups)
    ));
    assert!(matches!(
        parse_command("/list_whitelisted_threads"),
        Some(Command::ListWhitelistedThreads)
    ));
    assert!(matches!(parse_command("/become_admin"), Some(Command::BecomeAdmin)));
    assert!(matches!(
        parse_command("/approve_become_admin"),
        Some(Command::ApproveBecomeAdmin)
    ));
    assert!(matches!(parse_command("/reject_become_admin"), Some(Command::RejectBecomeAdmin)));
    assert!(matches!(
        parse_command("/list_become_admin_requests"),
        Some(Command::ListBecomeAdminRequests)
    ));
    assert!(matches!(parse_command("/help"), Some(Command::Help)));
}

#[test]
fn command_table_rejects_unknown_tokens() {
    assert!(parse_command("/frobnicate").is_none());
    assert!(parse_command("help").is_none());
    assert!(parse_command("/help!").is_none());
    assert!(parse_command("").is_none());
}
