use expire::cli::add::AddArgs;
use expire::error::ErrorKind;
use expire::file::util::{delete_element_from_fs, FsObject, Removal};
use expire::file::writer::{Row, Writer};
use expire::time::Timestamp;

const TEST_FILE_PATH: &str = "./test/.config/ExpireFolder/expirelist.conf";

/// A filesystem held in memory: what exists below the working directory.
struct Disk {
    files: Vec<String>,
    dirs: Vec<String>,
}

impl Disk {
    fn new() -> Disk {
        Disk { files: Vec::new(), dirs: vec![String::from("/work"), String::from("/work/target")] }
    }

    fn join(path: &str) -> String {
        match path.strip_prefix("./") {
            Some(rest) => format!("/work/{}", rest),
            None => String::from(path),
        }
    }

    fn probe(&self, abs: &str) -> FsObject {
        if self.dirs.iter().any(|d| d == abs) {
            FsObject::Directory
        } else if self.files.iter().any(|f| f == abs) {
            FsObject::File
        } else {
            FsObject::Missing
        }
    }

    fn is_there(&self, path: &str) -> bool {
        self.probe(&Disk::join(path)) != FsObject::Missing
    }

    fn get_abs_path(&self, path: &str) -> Option<String> {
        let abs = Disk::join(path);
        if self.probe(&abs) == FsObject::Missing {
            None
        } else {
            Some(abs)
        }
    }

    fn create_file(&mut self, path: &str) {
        self.create_dir("./test");
        self.files.push(Disk::join(path));
    }

    fn create_dir(&mut self, path: &str) {
        let abs = Disk::join(path);
        if !self.dirs.contains(&abs) {
            self.dirs.push(abs);
        }
    }

    fn delete(&mut self, abs: &str) -> Result<(), ErrorKind> {
        match delete_element_from_fs(self.probe(abs))? {
            Removal::Tree => {
                let below = format!("{}/", abs);
                self.dirs.retain(|d| d != abs && !d.starts_with(&below));
                self.files.retain(|f| !f.starts_with(&below));
            }
            Removal::File => self.files.retain(|f| f != abs),
            Removal::Nothing => {}
        }
        Ok(())
    }
}

fn new_writer() -> Writer {
    Writer::from(TEST_FILE_PATH).expect("no home directory")
}

fn delete_config_folder(wrt: &mut Writer, disk: &mut Disk) {
    let _ = disk.delete("/work/test");
    wrt.load(Vec::new());
    assert!(!disk.is_there("./test"));
}

fn add(wrt: &mut Writer, disk: &Disk, add_args: &AddArgs) -> Result<(), ErrorKind> {
    let abs = disk.get_abs_path(&add_args.path);
    wrt.add_entry(add_args, abs.as_deref())
}

fn check(wrt: &Writer, disk: &Disk, path: &str) -> Result<bool, ErrorKind> {
    let abs = disk.get_abs_path(path);
    wrt.check_entry(abs.as_deref())
}

fn remove(wrt: &mut Writer, disk: &mut Disk, path: &str) -> Result<(), ErrorKind> {
    let abs = disk.get_abs_path(path);
    let target = wrt.removal_target(abs.as_deref())?;
    let deleted = disk.delete(&target);
    wrt.remove_entry(abs.as_deref(), deleted)
}

fn save_target(wrt: &mut Writer, disk: &Disk) {
    let add_args =
        AddArgs { path: String::from("./target"), year: Some(0), day: Some(1), month: None };
    add(wrt, disk, &add_args).unwrap();
    assert!(check(wrt, disk, "./target").unwrap());
}

fn track_expired_file(wrt: &mut Writer, disk: &mut Disk, path: &str) {
    disk.create_file(path);
    let path = disk.get_abs_path(path).unwrap();
    let row = Row { path, expiration: Timestamp::from_rfc3339("2020-01-01T00:00:00Z").unwrap() };
    wrt.store_entry(&row).unwrap();
}

fn create_folder_expired(wrt: &mut Writer, disk: &mut Disk, path: &str) {
    disk.create_dir("./test");
    disk.create_dir(path);
    let path = disk.get_abs_path(path).unwrap();
    let row = Row { path, expiration: Timestamp::from_rfc3339("2020-01-01T00:00:00Z").unwrap() };
    wrt.store_entry(&row).unwrap();
}

#[test]
fn big_year() {
    let mut wrt = new_writer();
    let disk = Disk::new();
    let add_args = AddArgs {
        path: String::from("./target"),
        year: Some(100000000000),
        day: Some(1),
        month: None,
    };

    assert_eq!(add(&mut wrt, &disk, &add_args).err().unwrap(), ErrorKind::InvalidTime);
}

#[test]
fn save_entry() {
    let mut wrt = new_writer();
    let disk = Disk::new();
    let add_args =
        AddArgs { path: String::from("./target"), year: Some(0), day: Some(1), month: None };
    add(&mut wrt, &disk, &add_args).unwrap();
    assert!(check(&wrt, &disk, "./target").unwrap());
}

#[test]
fn check_expire_list() {
    let mut wrt = new_writer();
    let mut disk = Disk::new();
    delete_config_folder(&mut wrt, &mut disk);
    save_target(&mut wrt, &disk);
    let path = "./test/test.txt";
    track_expired_file(&mut wrt, &mut disk, path);

    assert!(check(&wrt, &disk, path).unwrap());
    assert_eq!(wrt.get_expired().len(), 1);
    assert_eq!(wrt.get_expired()[0].path, disk.get_abs_path(path).unwrap());
}

#[test]
#[should_panic]
fn inexistent_file() {
    let mut wrt = new_writer();
    let mut disk = Disk::new();
    delete_config_folder(&mut wrt, &mut disk);
    let path = "./test/test.txt";

    assert_eq!(wrt.get_expired().len(), 0);
    assert!(check(&wrt, &disk, path).unwrap());
}

#[test]
fn not_found_entry() {
    let mut wrt = new_writer();
    let mut disk = Disk::new();
    delete_config_folder(&mut wrt, &mut disk);
    disk.create_dir("./test");
    let path = "./test";

    assert_eq!(check(&wrt, &disk, path).unwrap(), false);
    assert_eq!(wrt.get_expired().len(), 0);
}

#[test]
fn file_deletion() {
    let mut wrt = new_writer();
    let mut disk = Disk::new();
    delete_config_folder(&mut wrt, &mut disk);
    let path = "./test/test.txt";
    let second_path = "./test/test2.txt";

    track_expired_file(&mut wrt, &mut disk, path);
    track_expired_file(&mut wrt, &mut disk, second_path);
    assert!(check(&wrt, &disk, path).unwrap());

    remove(&mut wrt, &mut disk, path).expect("Error while removing entry");
    assert!(check(&wrt, &disk, second_path).unwrap());
    assert!(disk.is_there(second_path));
    assert_eq!(disk.is_there(path), false);
}

#[test]
fn folder_deletion() {
    let mut wrt = new_writer();
    let mut disk = Disk::new();
    delete_config_folder(&mut wrt, &mut disk);
    let path = "./test/test";

    create_folder_expired(&mut wrt, &mut disk, path);
    assert!(check(&wrt, &disk, path).unwrap());

    remove(&mut wrt, &mut disk, path).expect("Error while removing entry");
    assert!(wrt.get_expired().is_empty());
    assert_eq!(disk.is_there(path), false);
}
