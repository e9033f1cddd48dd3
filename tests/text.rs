use provision::text::{chars_of, ends_with, split_lines, split_words, starts_with, trimmed};

fn text(v: &[char]) -> String {
    v.iter().collect()
}

#[test]
fn lines_words_and_trimming() {
    let lines = split_lines(&chars_of("  vg0\n\nvg1  \n"));
    assert_eq!(lines.iter().map(|l| text(l)).collect::<Vec<_>>(), vec!["  vg0", "", "vg1  "]);
    assert_eq!(split_lines(&chars_of("a\nb")).len(), 2);
    assert_eq!(split_lines(&chars_of("")).len(), 0);
    assert_eq!(text(&trimmed(&chars_of(" \t root \r"))), "root");
    assert_eq!(text(&trimmed(&chars_of("   "))), "");
    let w = split_words(&chars_of("  root   vg0 -wi-a----- "));
    assert_eq!(w.iter().map(|x| text(x)).collect::<Vec<_>>(), vec!["root", "vg0", "-wi-a-----"]);
}

#[test]
fn prefixes_and_suffixes() {
    assert!(ends_with("nvme0n1p2", "p2"));
    assert!(ends_with("sda", ""));
    assert!(!ends_with("da", "sda"));
    assert!(starts_with("dm-3", "dm-"));
    assert!(!starts_with("sdm-", "dm-"));
}

#[test]
fn unicode_white_space_is_trimmed() {
    assert_eq!(text(&trimmed(&chars_of("\u{a0}vg0\u{3000}"))), "vg0");
    assert_eq!(split_words(&chars_of("a\u{2003}b")).len(), 2);
}
