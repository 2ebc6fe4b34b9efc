use zelp::probe::check_session_exists;

#[test]
fn session_on_a_line_of_its_own_is_found() {
    assert!(check_session_exists("main\ndev\nwork\n", "dev"));
}

#[test]
fn session_that_is_the_whole_listing_is_found() {
    assert!(check_session_exists("dev", "dev"));
}

#[test]
fn session_at_either_end_is_found() {
    assert!(check_session_exists("dev [Created 2h ago]\nother", "dev"));
    assert!(check_session_exists("other\ndev", "dev"));
}

#[test]
fn absent_session_is_not_found() {
    assert!(!check_session_exists("main\nwork\n", "dev"));
}

#[test]
fn nothing_is_found_in_an_empty_listing() {
    assert!(!check_session_exists("", "dev"));
}

#[test]
fn name_longer_than_listing_is_not_found() {
    assert!(!check_session_exists("de", "dev"));
}

#[test]
fn part_of_another_name_counts_as_found() {
    assert!(check_session_exists("ework\n", "work"));
    assert!(check_session_exists("work2\n", "work"));
    assert!(check_session_exists("network-tools\n", "work"));
}

#[test]
fn name_split_over_two_lines_is_not_found() {
    assert!(!check_session_exists("de\nv\n", "dev"));
}

#[test]
fn letters_in_another_order_are_not_found() {
    assert!(!check_session_exists("dve ved edv", "dev"));
}

#[test]
fn case_matters() {
    assert!(!check_session_exists("DEV\nDev\n", "dev"));
}

#[test]
fn almost_matching_start_does_not_hide_a_match() {
    assert!(check_session_exists("dedev", "dev"));
    assert!(check_session_exists("aaab", "aab"));
    assert!(!check_session_exists("aaac", "aab"));
}

#[test]
fn empty_name_is_found_everywhere() {
    assert!(check_session_exists("main\n", ""));
    assert!(check_session_exists("", ""));
}

#[test]
fn names_beyond_ascii() {
    assert!(check_session_exists("büro\nküche\n", "küche"));
    assert!(!check_session_exists("büro\nkuche\n", "küche"));
    assert!(check_session_exists("🚀 rakete", "rakete"));
}

#[test]
fn agrees_with_str_contains() {
    let listings = ["", "a", "ab", "abc", "dev", "x dev y", "ddev", "de v", "dévdev", "vedved"];
    let names = ["", "a", "b", "dev", "ev", "d", "é", "ved", "x dev y z"];
    for listing in listings {
        for name in names {
            assert_eq!(check_session_exists(listing, name), listing.contains(name));
        }
    }
}
