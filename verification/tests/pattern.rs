use meminfo::{LinePattern, PatternError, LINE_GROUPS, MEMINFO_LINE_PATTERN};

fn line_pattern() -> LinePattern {
    match LinePattern::new(MEMINFO_LINE_PATTERN) {
        Ok(pattern) => pattern,
        Err(error) => panic!("the line pattern was refused: {:?}", error),
    }
}

#[test]
fn the_line_pattern_is_accepted() {
    assert!(LinePattern::new(MEMINFO_LINE_PATTERN).is_ok());
    assert_eq!(LINE_GROUPS, 4);
}

#[test]
fn the_line_pattern_has_four_static_groups() {
    let re = regex::Regex::new(MEMINFO_LINE_PATTERN).unwrap();
    assert_eq!(re.static_captures_len(), Some(LINE_GROUPS));
}

#[test]
fn pattern_that_does_not_compile_is_invalid() {
    match LinePattern::new("([[:alpha:]]+") {
        Err(PatternError::Invalid(error)) => {
            assert_eq!(Err(error), regex::Regex::new("([[:alpha:]]+").map(|_| ()));
        }
        _ => panic!("an unclosed group was accepted"),
    }
}

#[test]
fn pattern_with_too_few_groups_is_refused() {
    assert_eq!(
        LinePattern::new("([a-z]+):([0-9]+)").err(),
        Some(PatternError::GroupCount(Some(3)))
    );
    assert_eq!(LinePattern::new("Dirty").err(), Some(PatternError::GroupCount(Some(1))));
}

#[test]
fn pattern_with_too_many_groups_is_refused() {
    assert_eq!(
        LinePattern::new("(a)(b)(c)(d)").err(),
        Some(PatternError::GroupCount(Some(5)))
    );
}

#[test]
fn pattern_whose_groups_vary_is_refused() {
    assert_eq!(LinePattern::new("(a)(b)(c)|(d)").err(), Some(PatternError::GroupCount(None)));
    assert_eq!(LinePattern::new("(a)(b)(c)?").err(), Some(PatternError::GroupCount(None)));
}

#[test]
fn from_compiled_passes_the_compile_error_on() {
    let compiled = regex::Regex::new("a{2,1}");
    let expected = compiled.clone().err();
    assert!(expected.is_some());
    match LinePattern::from_compiled(compiled) {
        Err(PatternError::Invalid(error)) => assert_eq!(Some(error), expected),
        _ => panic!("a pattern that did not compile was accepted"),
    }
}

#[test]
fn from_compiled_accepts_three_groups() {
    let compiled = regex::Regex::new("(a)(b)(c)|(d)(e)(f)");
    let pattern = LinePattern::from_compiled(compiled);
    assert!(pattern.is_ok());
    let map = pattern.unwrap().sample("xdefx abc");
    assert_eq!(map.get("d"), Some(("e", "f")));
    assert_eq!(map.get("a"), Some(("b", "c")));
}

#[test]
fn sample_finds_each_line_of_interest() {
    let text = "MemTotal:       16314380 kB\nMemFree:         1230612 kB\nDirty:              3200 kB\nWriteback:             0 kB\n";
    let map = line_pattern().sample(text);
    assert_eq!(map.get("MemTotal"), Some(("16314380", "kB")));
    assert_eq!(map.get("MemFree"), Some(("1230612", "kB")));
    assert_eq!(map.get("Dirty"), Some(("3200", "kB")));
    assert_eq!(map.get("Writeback"), Some(("0", "kB")));
    assert_eq!(map.get("Cached"), None);
}

#[test]
fn sample_skips_lines_of_another_shape() {
    let text = "Active(anon):    2535104 kB\nDirty: abc kB\nWriteback 12 kB\nDirty:12 kB\nDirty: 12\nnothing here\n\nHugePages_Total:       0\nDirty: 12\n";
    let map = line_pattern().sample(text);
    assert_eq!(map.get("Active"), None);
    assert_eq!(map.get("anon"), None);
    assert_eq!(map.get("Dirty"), None);
    assert_eq!(map.get("Writeback"), None);
    assert_eq!(map.get("Total"), None);
}

#[test]
fn sample_takes_a_key_from_its_last_letters() {
    let map = line_pattern().sample("HugePages_Total:       0 kB\nx2Dirty: 5 kB\n");
    assert_eq!(map.get("HugePages_Total"), None);
    assert_eq!(map.get("Total"), Some(("0", "kB")));
    assert_eq!(map.get("Dirty"), Some(("5", "kB")));
}

#[test]
fn sample_makes_no_entry_of_two_lines() {
    let map = line_pattern().sample("HugePages_Total:       0\nHugePages_Free:        7\n");
    assert_eq!(map.get("Total"), None);
    assert_eq!(map.get("Free"), None);
    let map = line_pattern().sample("Dirty:\n12\nkB");
    assert_eq!(map.get("Dirty"), None);
    let map = line_pattern().sample("Dirty: 12\nWriteback: 3 kB\n");
    assert_eq!(map.get("Dirty"), None);
    assert_eq!(map.get("Writeback"), Some(("3", "kB")));
}

#[test]
fn sample_finds_every_entry_of_a_line() {
    let map = line_pattern().sample("Dirty: 1 kB Writeback: 2 kB\nClean: 3 kB");
    assert_eq!(map.get("Dirty"), Some(("1", "kB")));
    assert_eq!(map.get("Writeback"), Some(("2", "kB")));
    assert_eq!(map.get("Clean"), Some(("3", "kB")));
}

#[test]
fn sample_passes_over_what_follows_the_unit() {
    let map = line_pattern().sample("Dirty: 12 kB (estimated)\r\nWriteback: 3 kB\r\n");
    assert_eq!(map.get("Dirty"), Some(("12", "kB")));
    assert_eq!(map.get("Writeback"), Some(("3", "kB")));
}

#[test]
fn sample_of_empty_text_is_empty() {
    let map = line_pattern().sample("");
    assert_eq!(map.get("Dirty"), None);
    assert_eq!(map.get("Writeback"), None);
}

#[test]
fn sample_lets_the_last_line_of_a_key_win() {
    let text = "Dirty: 1 kB\nWriteback: 5 kB\nDirty: 2 MB\n";
    let map = line_pattern().sample(text);
    assert_eq!(map.get("Dirty"), Some(("2", "MB")));
    assert_eq!(map.get("Writeback"), Some(("5", "kB")));
}

#[test]
fn sample_takes_tabs_between_the_fields() {
    let map = line_pattern().sample("Dirty:\t\t42\tkB");
    assert_eq!(map.get("Dirty"), Some(("42", "kB")));
}

#[test]
fn sample_depends_on_the_text() {
    let pattern = line_pattern();
    assert_eq!(pattern.sample("Dirty: 1 kB").get("Dirty"), Some(("1", "kB")));
    assert_eq!(pattern.sample("Dirty: 2 kB").get("Dirty"), Some(("2", "kB")));
    assert_eq!(pattern.sample("Clean: 2 kB").get("Dirty"), None);
}
