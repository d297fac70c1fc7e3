use mytop_tui::utils::{clear_command, commify, prog_candidates, short_scale, sum};

#[test]
fn clear_command_depends_on_platform() {
    assert_eq!(clear_command(false), "clear");
    assert_eq!(clear_command(true), "\n\n\n");
}

#[test]
fn sum_and_commify_helpers_work() {
    assert_eq!(sum(&[1, 2, 3]), 6);
    assert_eq!(sum(&[]), 0);
    assert_eq!(commify(1_234_567), "1,234,567");
    assert_eq!(commify(0), "0");
    assert_eq!(commify(999), "999");
    assert_eq!(commify(1000), "1,000");
    assert_eq!(commify(123_456), "123,456");
    assert_eq!(commify(u64::MAX), "18,446,744,073,709,551,615");
}

#[test]
fn short_scale_picks_largest_reached_unit() {
    assert_eq!(short_scale(999), None);
    assert_eq!(short_scale(1_000), Some((1_000, "k")));
    assert_eq!(short_scale(2_200_000), Some((1_000_000, "M")));
    assert_eq!(short_scale(2_500_000_000), Some((1_000_000_000, "G")));
    assert_eq!(short_scale(1_000_000_000_000), Some((1_000_000_000_000, "T")));
}

#[test]
fn prog_candidates_join_directory_and_name() {
    assert_eq!(
        prog_candidates("less", &["/usr/bin", "/bin"]),
        vec!["/usr/bin/less".to_string(), "/bin/less".to_string()]
    );
    assert!(prog_candidates("less", &[]).is_empty());
}
