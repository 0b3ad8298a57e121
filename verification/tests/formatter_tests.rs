use auto_backup::clock::Timestamp;
use auto_backup::formatter::{file_stem, variable_replacer};

fn ts() -> Timestamp {
    Timestamp { year: 2024, month: 3, day: 7, hour: 9, minute: 5, second: 3 }
}

fn render(fmt: &str, top: &str, filename: &str, count: usize) -> String {
    let out = variable_replacer(
        &fmt.as_bytes().to_vec(),
        &top.as_bytes().to_vec(),
        &filename.as_bytes().to_vec(),
        count,
        &ts(),
    );
    String::from_utf8(out).unwrap()
}

#[test]
fn no_tokens_template_unchanged() {
    assert_eq!(render("backup-folder", "proj", "a.txt", 0), "backup-folder");
    assert_eq!(render("", "proj", "a.txt", 0), "");
    assert_eq!(render("plain $ text", "proj", "a.txt", 0), "plain $ text");
}

#[test]
fn unknown_token_passes_through() {
    assert_eq!(render("$nope-$count", "proj", "a.txt", 0), "$nope-1");
}

#[test]
fn count_is_one_based() {
    assert_eq!(render("$count", "proj", "a.txt", 0), "1");
    assert_eq!(render("$count", "proj", "a.txt", 4), "5");
    assert_eq!(render("$count", "proj", "a.txt", 99), "100");
}

#[test]
fn deterministic_given_fixed_now() {
    let a = render("$top_folder-$time-$date", "proj", "a.txt", 2);
    let b = render("$top_folder-$time-$date", "proj", "a.txt", 2);
    assert_eq!(a, b);
}

#[test]
fn date_time_timestamp_tokens() {
    assert_eq!(render("$date", "proj", "a.txt", 0), "2024-03-07");
    assert_eq!(render("$time", "proj", "a.txt", 0), "09-05-03");
    assert_eq!(render("$timestamp", "proj", "a.txt", 0), "20240307_090503");
}

#[test]
fn timestamp_is_not_mangled_by_time() {
    // longest token wins: `$timestamp` must not be read as `$time` + "stamp"
    assert_eq!(render("x$timestamp", "proj", "a.txt", 0), "x20240307_090503");
}

#[test]
fn top_folder_filename_name_tokens() {
    assert_eq!(render("$top_folder", "proj", "a.txt", 0), "proj");
    assert_eq!(render("$filename", "proj", "b.tar.gz", 0), "b.tar.gz");
    assert_eq!(render("$name", "proj", "b.tar.gz", 0), "b.tar");
    assert_eq!(render("$name", "proj", "a.txt", 0), "a");
}

#[test]
fn hidden_file_keeps_its_name() {
    assert_eq!(render("$name", "proj", ".bashrc", 0), ".bashrc");
    let stem = file_stem(&b".bashrc".to_vec());
    assert_eq!(stem, b".bashrc".to_vec());
}

#[test]
fn default_template_rendering() {
    assert_eq!(
        render("$top_folder-$time-$date", "Root", "a.txt", 0),
        "Root-09-05-03-2024-03-07"
    );
}

#[test]
fn count_template_names_first_generation() {
    assert_eq!(render("$top_folder-$count", "Root", "a.txt", 0), "Root-1");
}

#[test]
fn negative_year_is_signed_and_padded() {
    let t = Timestamp { year: -44, month: 3, day: 15, hour: 12, minute: 0, second: 0 };
    let out = variable_replacer(
        &b"$date".to_vec(),
        &b"proj".to_vec(),
        &b"a.txt".to_vec(),
        0,
        &t,
    );
    assert_eq!(String::from_utf8(out).unwrap(), "-0044-03-15");
}
