use exa::fs::fields::{Blocks, Links, Size, Time, Type};
use exa::fs::file::{File, FileTarget, Metadata};

fn meta(mode: u32, nlink: u64) -> Metadata {
    Metadata {
        mode,
        nlink,
        ino: 42,
        blocks: 8,
        uid: 1000,
        gid: 100,
        len: 4096,
        atime: 1,
        atime_nsec: 2,
        mtime: 3,
        mtime_nsec: 4,
        ctime: 5,
        ctime_nsec: 6,
    }
}

fn file(mode: u32, nlink: u64, name: &str) -> File {
    File::with_metadata(meta(mode, nlink), name.as_bytes().to_vec(), name.to_string(), None)
}

#[test]
fn a_directory_has_no_size_or_blocks() {
    let f = file(0o040755, 3, "src");
    assert!(f.is_directory());
    assert!(!f.is_file());
    assert_eq!(f.type_char(), Type::Directory);
    assert_eq!(f.size(), Size::Nothing);
    assert_eq!(f.blocks(), Blocks::Nothing);
    assert_eq!(f.links(), Links { count: 3, multiple: false });
}

#[test]
fn a_regular_file_with_two_links_is_highlighted() {
    let f = file(0o100644, 2, "Cargo.toml");
    assert_eq!(f.type_char(), Type::File);
    assert_eq!(f.size(), Size::Bytes(4096));
    assert_eq!(f.blocks(), Blocks::Count(8));
    assert_eq!(f.links(), Links { count: 2, multiple: true });
    assert_eq!(f.ext, Some("toml".to_string()));
    assert!(!f.is_executable_file());
}

#[test]
fn executable_files() {
    assert!(file(0o100755, 1, "run").is_executable_file());
    assert!(!file(0o040755, 1, "bin").is_executable_file());
}

#[test]
fn special_file_types() {
    assert_eq!(file(0o120777, 1, "l").type_char(), Type::Link);
    assert_eq!(file(0o010644, 1, "p").type_char(), Type::Pipe);
    assert_eq!(file(0o020644, 1, "c").type_char(), Type::CharDevice);
    assert_eq!(file(0o060644, 1, "b").type_char(), Type::BlockDevice);
    assert_eq!(file(0o140755, 1, "s").type_char(), Type::Socket);
    assert_eq!(file(0o000644, 1, "x").type_char(), Type::Special);
    assert_eq!(file(0o120777, 1, "l").blocks(), Blocks::Count(8));
}

#[test]
fn permission_bits() {
    let p = file(0o104751, 1, "f").permissions();
    assert!(p.user_read && p.user_write && p.user_execute);
    assert!(p.group_read && !p.group_write && p.group_execute);
    assert!(!p.other_read && !p.other_write && p.other_execute);
    assert!(p.setuid && !p.setgid && !p.sticky);
    let q = file(0o041777, 1, "tmp").permissions();
    assert!(q.sticky && q.other_write);
}

#[test]
fn timestamps_and_owners() {
    let f = file(0o100644, 1, "a");
    assert_eq!(f.modified_time(), Time { seconds: 3, nanoseconds: 4 });
    assert_eq!(f.accessed_time(), Time { seconds: 1, nanoseconds: 2 });
    assert_eq!(f.created_time(), Time { seconds: 5, nanoseconds: 6 });
    assert_eq!(f.user().0, 1000);
    assert_eq!(f.group().0, 100);
    assert_eq!(f.inode().0, 42);
}

#[test]
fn names_and_extensions() {
    let f = file(0o100644, 1, "photo.JPG");
    assert!(f.extension_is_one_of(&["png", "jpg"]));
    assert!(!f.extension_is_one_of(&["png", "gif"]));
    assert!(f.name_is_one_of(&["README", "photo.JPG"]));
    assert!(!file(0o100644, 1, "Makefile").extension_is_one_of(&["", "makefile"]));
    assert!(file(0o100644, 1, ".bashrc").is_dotfile());
    assert!(!f.is_dotfile());
}

#[test]
fn broken_links() {
    assert!(!FileTarget::Found(file(0o100644, 1, "a")).is_broken());
    assert!(FileTarget::Broken(b"/nowhere".to_vec()).is_broken());
    assert!(FileTarget::Failed("permission denied".to_string()).is_broken());
}
