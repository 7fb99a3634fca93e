use exa::file::{ext, is_dotfile, is_tmpfile};

#[test]
fn file_extension() {
    assert_eq!(Some("dat".to_string()), ext("fester.dat"))
}

#[test]
fn file_dotfile() {
    assert_eq!(Some("vimrc".to_string()), ext(".vimrc"))
}

#[test]
fn file_no_extension() {
    assert_eq!(None, ext("jarlsberg"))
}

#[test]
fn extension_is_lower_cased() {
    assert_eq!(Some("wav".to_string()), ext("BARRACKS.WAV"));
    assert_eq!(Some("tar.gz".to_string()).map(|_| "gz".to_string()), ext("archive.TAR.Gz"));
}

#[test]
fn extension_after_the_last_dot() {
    assert_eq!(Some("gz".to_string()), ext("archive.tar.gz"));
    assert_eq!(Some("".to_string()), ext("trailing."));
    assert_eq!(Some("ünï".to_string()), ext("naïve.ünï"));
}

#[test]
fn dotfiles_and_tmpfiles() {
    assert!(is_dotfile(".git"));
    assert!(!is_dotfile("git"));
    assert!(!is_dotfile(""));
    assert!(is_tmpfile("notes.txt~"));
    assert!(is_tmpfile("#notes.txt#"));
    assert!(!is_tmpfile("#notes.txt"));
    assert!(!is_tmpfile(""));
}
