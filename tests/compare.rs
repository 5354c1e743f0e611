use jam::{ip_filter, maybe_absent_compare, maybe_absent_list};

#[test]
fn compare_value_is_the_same() {
    assert_eq!(maybe_absent_compare(&Some(42), &42), true);
}

#[test]
fn compare_value_is_not_the_same() {
    assert_eq!(maybe_absent_compare(&Some(42), &0), false);
}

#[test]
fn compare_value_none() {
    assert_eq!(maybe_absent_compare(&None, &42), true);
}

#[test]
fn compare_list_does_contain() {
    assert_eq!(maybe_absent_list(&vec!["https"], &"https"), true);
}

#[test]
fn compare_list_does_not_contain() {
    assert_eq!(maybe_absent_list(&vec!["https"], &"rsync"), false);
}

#[test]
fn compare_list_is_empty() {
    assert_eq!(maybe_absent_list(&vec![], &"https"), true);
}

#[test]
fn compare_list_finds_later_entry() {
    assert_eq!(maybe_absent_list(&vec!["http", "ftp", "rsync"], &"rsync"), true);
    assert_eq!(maybe_absent_list(&vec!["http", "ftp", "rsync"], &"https"), false);
}

#[test]
fn require_ipv4() {
    let args: (bool, bool) = (true, false);

    let has_ipv4: (bool, bool) = (true, false);
    let no_ipv4: (bool, bool) = (false, true);
    let has_both: (bool, bool) = (true, true);
    let has_neither: (bool, bool) = (false, false);

    assert_eq!(ip_filter(args, has_ipv4), true);
    assert_eq!(ip_filter(args, no_ipv4), false);
    assert_eq!(ip_filter(args, has_both), true);
    assert_eq!(ip_filter(args, has_neither), false);
}

#[test]
fn require_ipv6() {
    let args: (bool, bool) = (false, true);

    let has_ipv6: (bool, bool) = (false, true);
    let no_ipv6: (bool, bool) = (true, false);
    let has_both: (bool, bool) = (true, true);
    let has_neither: (bool, bool) = (false, false);

    assert_eq!(ip_filter(args, has_ipv6), true);
    assert_eq!(ip_filter(args, no_ipv6), false);
    assert_eq!(ip_filter(args, has_both), true);
    assert_eq!(ip_filter(args, has_neither), false);
}

#[test]
fn require_both_ip() {
    let args: (bool, bool) = (true, true);

    let has_ipv4: (bool, bool) = (true, false);
    let no_ipv4: (bool, bool) = (false, true);
    let has_both: (bool, bool) = (true, true);
    let has_neither: (bool, bool) = (false, false);

    assert_eq!(ip_filter(args, has_ipv4), false);
    assert_eq!(ip_filter(args, no_ipv4), false);
    assert_eq!(ip_filter(args, has_both), true);
    assert_eq!(ip_filter(args, has_neither), false);
}

#[test]
fn require_neither_ip() {
    let args: (bool, bool) = (false, false);

    let has_ipv4: (bool, bool) = (true, false);
    let no_ipv4: (bool, bool) = (false, true);
    let has_both: (bool, bool) = (true, true);
    let has_neither: (bool, bool) = (false, false);

    assert_eq!(ip_filter(args, has_ipv4), true);
    assert_eq!(ip_filter(args, no_ipv4), true);
    assert_eq!(ip_filter(args, has_both), true);
    assert_eq!(ip_filter(args, has_neither), true);
}
