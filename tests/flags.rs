use nkscgeosync::flags::{flag_is_off, flag_is_on, switch_flag_on, toggle_flags, FlagRequest, NoiseFlag};
use nkscgeosync::layout::fit_name_in;
use nkscgeosync::text::replace_str;

const SETTINGS: &str = "a NoiseReduction.chkSpike\"&gt;0&lt; b NoiseReduction.cbMethod\"&gt;1&lt; c NoiseReduction.chkEdge\"&gt;0&lt; d NoiseReduction.chkEdge\"&gt;0&lt;";

#[test]
fn flag_state_is_read_from_its_marker() {
    assert!(flag_is_off(SETTINGS, NoiseFlag::Astro));
    assert!(!flag_is_on(SETTINGS, NoiseFlag::Astro));
    assert!(flag_is_on(SETTINGS, NoiseFlag::BestQuality));
    assert!(!flag_is_off(SETTINGS, NoiseFlag::BestQuality));
}

#[test]
fn switching_a_flag_replaces_every_off_marker() {
    let s = switch_flag_on(SETTINGS, NoiseFlag::Edge);
    assert!(!s.contains("chkEdge\"&gt;0&lt;"));
    assert_eq!(s.matches("chkEdge\"&gt;1&lt;").count(), 2);
    assert!(s.contains("chkSpike\"&gt;0&lt;"));
}

#[test]
fn toggling_switches_only_requested_flags_that_are_off() {
    let req = FlagRequest { astro: true, best_quality: true, edge: false };
    let out = toggle_flags(SETTINGS, &req, true);
    assert!(out.astro);
    assert!(!out.best_quality);
    assert!(!out.edge);
    let s = out.new_text.unwrap();
    assert!(s.contains("chkSpike\"&gt;1&lt;"));
    assert!(s.contains("chkEdge\"&gt;0&lt;"));
}

#[test]
fn toggling_with_nothing_due_writes_nothing() {
    let req = FlagRequest { astro: false, best_quality: true, edge: false };
    let out = toggle_flags(SETTINGS, &req, true);
    assert!(out.new_text.is_none());
}

#[test]
fn replace_matches_std_replace() {
    for (s, from, to) in [("aaa", "aa", "b"), ("abcabc", "bc", "X"), ("", "a", "b"), ("héllo wörld", "ö", "o")] {
        assert_eq!(replace_str(s, from, to), s.replace(from, to), "{} {} {}", s, from, to);
    }
}

#[test]
fn long_names_are_truncated_from_the_front() {
    let s = fit_name_in(&"abcdefghij".to_string(), 7);
    assert_eq!(s, "...ghij");
}

#[test]
fn short_names_are_padded_with_spaces() {
    assert_eq!(fit_name_in(&"abc".to_string(), 6), "abc   ");
    assert_eq!(fit_name_in(&"abc".to_string(), 3), "abc");
    assert_eq!(fit_name_in(&"".to_string(), 2), "  ");
}

#[test]
fn list_only_toggling_reports_but_writes_nothing() {
    let req = FlagRequest { astro: true, best_quality: false, edge: true };
    let out = toggle_flags(SETTINGS, &req, false);
    assert!(out.astro && out.edge);
    assert!(out.new_text.is_none());
}
