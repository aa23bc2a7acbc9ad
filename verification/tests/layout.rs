use sftp_tube::config::Config;
use sftp_tube::layout::{
    download_file, join, shared_dir, user_dir, CONFIG_FILE_NAME, DIR_MODE, DOWNLOAD_DIR,
    UPLOAD_DIR,
};

fn sample() -> Config {
    Config {
        ip_and_port: "192.168.1.10:22".to_string(),
        root_folder_name: "srv".to_string(),
        temp_folder_name: "tmp".to_string(),
        temp_file_name: "clip.txt".to_string(),
    }
}

#[test]
fn fixed_names() {
    assert_eq!(CONFIG_FILE_NAME, "st-config.txt");
    assert_eq!(UPLOAD_DIR, "To Upload");
    assert_eq!(DOWNLOAD_DIR, "Downloaded");
    assert_eq!(DIR_MODE, 0o777);
}

#[test]
fn join_puts_one_slash_between() {
    assert_eq!(join("a", "b"), "a/b");
    assert_eq!(join("a/b", "c d.txt"), "a/b/c d.txt");
    assert_eq!(join("", "x"), "/x");
    assert_eq!(join("x", ""), "x/");
    assert_eq!(join("a/", "b"), "a//b");
}

#[test]
fn shared_folder_ends_with_a_slash() {
    assert_eq!(shared_dir(&sample()), "srv/tmp/");
}

#[test]
fn user_folder_is_below_the_shared_folder() {
    assert_eq!(user_dir(&sample(), "alice"), "srv/tmp/alice");
    assert_eq!(user_dir(&sample(), ""), "srv/tmp/");
}

#[test]
fn downloads_go_to_the_download_folder() {
    assert_eq!(download_file("report.pdf"), "Downloaded/report.pdf");
}
