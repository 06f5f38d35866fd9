use mutmut_runner::status::modified_files;

#[test]
fn strips_the_two_character_status_prefix() {
    let out = "M src/a.py\nM src/b.py\n";
    assert_eq!(
        modified_files(out),
        vec![String::from("src/a.py"), String::from("src/b.py")]
    );
}

#[test]
fn empty_output_means_no_changes() {
    assert_eq!(modified_files(""), Vec::<String>::new());
}

#[test]
fn blank_lines_are_skipped() {
    let out = "M src/a.py\n\nM src/b.py\n";
    assert_eq!(
        modified_files(out),
        vec![String::from("src/a.py"), String::from("src/b.py")]
    );
}

#[test]
fn final_newline_is_optional() {
    assert_eq!(modified_files("M src/a.py"), vec![String::from("src/a.py")]);
}

#[test]
fn duplicates_are_kept_in_listing_order() {
    let out = "M src/a.py\nM src/a.py\n";
    assert_eq!(
        modified_files(out),
        vec![String::from("src/a.py"), String::from("src/a.py")]
    );
}

#[test]
fn the_prefix_width_is_fixed_not_sniffed() {
    // Whatever the two status characters are, exactly two are dropped.
    assert_eq!(modified_files("A added.py\n"), vec![String::from("added.py")]);
    assert_eq!(modified_files("??untracked\n"), vec![String::from("untracked")]);
}

#[test]
fn a_line_of_only_the_prefix_keeps_an_empty_path() {
    assert_eq!(modified_files("M \n"), vec![String::from("")]);
}

#[test]
fn carriage_return_line_endings_are_not_part_of_the_path() {
    let out = "M src/a.py\r\nM src/b.py\r\n";
    assert_eq!(
        modified_files(out),
        vec![String::from("src/a.py"), String::from("src/b.py")]
    );
}

#[test]
fn the_prefix_is_counted_in_characters_not_bytes() {
    assert_eq!(
        modified_files("M src/\u{fc}mlaut.py\n"),
        vec![String::from("src/\u{fc}mlaut.py")]
    );
}
