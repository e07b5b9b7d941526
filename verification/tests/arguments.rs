use rcat::{file_name, separate_args};

fn strings(items: &[&str]) -> Vec<String> {
    items.iter().map(|s| s.to_string()).collect()
}

#[test]
fn separate_args_parts_flags_from_paths() {
    let parts = separate_args(&strings(&["prog", "-n", "one.txt", "-e", "two.txt"]));
    assert_eq!(
        parts,
        Some((strings(&["one.txt", "two.txt"]), strings(&["-n", "-e"])))
    );
}

#[test]
fn separate_args_skips_the_program_name() {
    assert_eq!(
        separate_args(&strings(&["-prog", "file"])),
        Some((strings(&["file"]), strings(&[])))
    );
    assert_eq!(separate_args(&strings(&["prog"])), None);
}

#[test]
fn separate_args_without_a_path_gives_nothing() {
    assert_eq!(separate_args(&strings(&[])), None);
    assert_eq!(separate_args(&strings(&["prog", "-n", "-e"])), None);
    assert_eq!(separate_args(&strings(&["prog", "-"])), None);
}

#[test]
fn separate_args_takes_the_empty_argument_for_a_path() {
    assert_eq!(
        separate_args(&strings(&["prog", "", "-r"])),
        Some((strings(&[""]), strings(&["-r"])))
    );
}

#[test]
fn file_name_is_what_follows_the_last_separator() {
    assert_eq!(file_name("dir/sub/file.txt"), "file.txt");
    assert_eq!(file_name("C:\\dir\\file.txt"), "file.txt");
    assert_eq!(file_name("mixed/dir\\file"), "file");
    assert_eq!(file_name("file"), "file");
    assert_eq!(file_name("dir/"), "");
    assert_eq!(file_name("/"), "");
    assert_eq!(file_name(""), "");
}
