use zkemail_layout::sizing::SizingError;
use zkemail_layout::sizing::direct_sizing;
use zkemail_layout::sizing::probe_sizing;

#[test]
fn direct_sizing_reads_labeled_counts() {
    let report = "template instances: 5\nnon-linear constraints: 6000\nlinear constraints: 0\nwires: 9000\nlabels: 12\n";
    // max(6000, 9000) = 9000; 2^13 = 8192 <= 9000 < 16384 = 2^14.
    assert_eq!(direct_sizing(report), 14);
}

#[test]
fn direct_sizing_powers_of_two_boundary() {
    // With a count of exactly 2^k, the next power is needed.
    assert_eq!(direct_sizing("wires: 8192\n"), 14);
    assert_eq!(direct_sizing("wires: 8191\n"), 13);
    assert_eq!(direct_sizing("wires: 1\n"), 1);
    assert_eq!(direct_sizing("wires: 2\n"), 2);
    assert_eq!(direct_sizing("wires: 3\n"), 2);
}

#[test]
fn direct_sizing_missing_counts_read_as_zero() {
    assert_eq!(direct_sizing(""), 0);
    assert_eq!(direct_sizing("nothing relevant here\n"), 0);
    assert_eq!(direct_sizing("wires: not a number\n"), 0);
}

#[test]
fn direct_sizing_last_line_wins() {
    let report = "wires: 100\nwires: 7\n";
    // 2^2 = 4 <= 7 < 8 = 2^3.
    assert_eq!(direct_sizing(report), 3);
}

#[test]
fn direct_sizing_value_stops_at_second_colon() {
    // Only the text between the label's colon and the next colon counts.
    assert_eq!(direct_sizing("wires: 5: 900\n"), 3);
}

#[test]
fn direct_sizing_trims_whitespace_and_carriage_returns() {
    assert_eq!(direct_sizing("wires: \t 6000 \r\n"), 13);
}

#[test]
fn direct_sizing_is_monotone_in_counts() {
    let small = direct_sizing("wires: 1000\n");
    let large = direct_sizing("wires: 2000\n");
    assert!(small <= large);
}

#[test]
fn probe_sizing_reads_first_star_pattern() {
    // 262144 = 2^18, so the required power is 18 + 1.
    let diagnostic = "circuit too big for this power of tau ceremony. 262144*2 constraints";
    assert_eq!(probe_sizing(diagnostic), Ok(19));
}

#[test]
fn probe_sizing_non_power_of_two() {
    // clog2(34) = 6 (2^5 = 32 < 34 <= 64 = 2^6), so k = 7.
    assert_eq!(probe_sizing("at 34*8 units"), Ok(7));
    // clog2(7) = 3, so k = 4.
    assert_eq!(probe_sizing("7*9"), Ok(4));
    // clog2(1) = 0, so k = 1.
    assert_eq!(probe_sizing("1*2"), Ok(1));
}

#[test]
fn probe_sizing_takes_leftmost_match() {
    // "12" is followed by a letter, not a star; "34*5" is the first match.
    assert_eq!(probe_sizing("12a34*5"), Ok(7));
}

#[test]
fn probe_sizing_requires_digit_after_star() {
    assert_eq!(
        probe_sizing("12* and 99 *4"),
        Err(SizingError::PowerOfTauUnknown)
    );
}

#[test]
fn probe_sizing_fails_without_pattern() {
    assert_eq!(probe_sizing(""), Err(SizingError::PowerOfTauUnknown));
    assert_eq!(
        probe_sizing("everything went fine"),
        Err(SizingError::PowerOfTauUnknown)
    );
}

#[test]
fn probe_sizing_rejects_values_beyond_machine_word() {
    let diagnostic = "99999999999999999999999999999999*2";
    assert_eq!(probe_sizing(diagnostic), Err(SizingError::PowerOfTauUnknown));
}
