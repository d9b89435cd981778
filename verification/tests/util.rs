use expire::error::ErrorKind;
use expire::file::util::{
    apply_home_dir, delete_element_from_fs, expand_path, replace_home, FsObject, Removal,
};
use expire::file::writer::Writer;
use expire::file::HOME_FILE_CONFIG;

#[test]
fn each_error_has_its_message() {
    assert_eq!(ErrorKind::NoTimeSpecified.as_str(), "No expiration time specified");
    assert_eq!(ErrorKind::InvalidTime.as_str(), "The time entered is invalid");
    assert_eq!(ErrorKind::CantGetAbsPath.as_str(), "Cannot get absolute path from relative");
    assert_eq!(ErrorKind::WrongFormat.as_str(), "Wrong data format, cannot parse");
    assert_eq!(ErrorKind::CantWriteToFile.as_str(), "Cannot write to file");
    assert_eq!(ErrorKind::CantFindElement.as_str(), "Cannot find element in file");
    assert_eq!(ErrorKind::FileNotFound.as_str(), "File not found on filesystem");
    assert_eq!(ErrorKind::CantOpenFile.as_str(), "Cannot open file");
}

#[test]
fn every_tilde_is_replaced() {
    assert_eq!(replace_home("~/.config/list", "/home/u"), "/home/u/.config/list");
    assert_eq!(replace_home("", "/home/u"), "");
    assert_eq!(replace_home("plain", "/home/u"), "plain");
    assert_eq!(replace_home("~", "/home/u"), "/home/u");
    assert_eq!(replace_home("a~b~", "/h"), "a/hb/h");
    assert_eq!(replace_home("~~", ""), "");
    assert_eq!(replace_home("\u{e9}~\u{4e2d}", "~"), "\u{e9}~\u{4e2d}");
}

#[test]
fn the_home_directory_is_applied() {
    let home = apply_home_dir("~").expect("no home directory");
    assert!(!home.is_empty());
    assert_eq!(apply_home_dir("~/x/~"), Some(format!("{}/x/{}", home, home)));
    assert_eq!(apply_home_dir("/tmp/x"), Some(String::from("/tmp/x")));
}

#[test]
fn a_path_is_expanded_as_a_shell_would() {
    assert_eq!(expand_path("/tmp/x"), Ok(String::from("/tmp/x")));
    assert_eq!(expand_path("./target"), Ok(String::from("./target")));
    let home = apply_home_dir("~").expect("no home directory");
    assert_eq!(expand_path("~/x"), Ok(format!("{}/x", home)));
    assert_eq!(expand_path("/tmp/~"), Ok(String::from("/tmp/~")));
    assert_eq!(
        expand_path("/tmp/$NO_SUCH_VARIABLE_OF_THE_REGISTRY_TESTS/x"),
        Err(ErrorKind::CantGetAbsPath)
    );
}

#[test]
fn a_text_without_a_variable_is_always_expanded() {
    let home = apply_home_dir("~").expect("no home directory");
    assert_eq!(expand_path(""), Ok(String::new()));
    assert_eq!(expand_path("~"), Ok(home.clone()));
    assert_eq!(expand_path("~/"), Ok(format!("{}/", home)));
    assert_eq!(expand_path("~nobody/x"), Ok(String::from("~nobody/x")));
    assert_eq!(expand_path("~~"), Ok(String::from("~~")));
    assert_eq!(expand_path("a/~/b"), Ok(String::from("a/~/b")));
    assert_eq!(expand_path("/tmp/{}\\x y"), Ok(String::from("/tmp/{}\\x y")));
    assert_eq!(expand_path("/tmp/\u{e9}"), Ok(String::from("/tmp/\u{e9}")));
}

#[test]
fn a_text_without_a_tilde_needs_no_home() {
    assert_eq!(apply_home_dir(""), Some(String::new()));
    assert_eq!(apply_home_dir("./test/list.conf"), Some(String::from("./test/list.conf")));
    assert_eq!(apply_home_dir("/tmp/$HOME/x"), Some(String::from("/tmp/$HOME/x")));
    assert_eq!(Writer::from("./test/list.conf").unwrap().path(), "./test/list.conf");
    assert_eq!(Writer::from("").unwrap().path(), "");
}

#[test]
fn removal_goes_by_what_is_there() {
    assert_eq!(delete_element_from_fs(FsObject::Missing), Err(ErrorKind::FileNotFound));
    assert_eq!(delete_element_from_fs(FsObject::Directory), Ok(Removal::Tree));
    assert_eq!(delete_element_from_fs(FsObject::File), Ok(Removal::File));
    assert_eq!(delete_element_from_fs(FsObject::Other), Ok(Removal::Nothing));
}

#[test]
fn a_new_registry_has_its_place_and_no_line() {
    let home = apply_home_dir("~").expect("no home directory");
    let usual = Writer::new().unwrap();
    assert_eq!(HOME_FILE_CONFIG, "~/.config/ExpireFolder/expirelist.conf");
    assert_eq!(usual.path(), &format!("{}/.config/ExpireFolder/expirelist.conf", home));
    assert!(usual.lines().is_empty());
    let other = Writer::from("/tmp/list.conf").unwrap();
    assert_eq!(other.path(), "/tmp/list.conf");
    assert!(other.lines().is_empty());
    assert!(other.get_all_ordered().is_empty());
    let tilde = Writer::from("~/list.conf").unwrap();
    assert_eq!(tilde.path(), &format!("{}/list.conf", home));
    let plain = Writer::at(String::from("~/list.conf"));
    assert_eq!(plain.path(), "~/list.conf");
    assert!(plain.lines().is_empty());
}
