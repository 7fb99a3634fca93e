use exa::colours::{Colour, Style, StyleStruct};
use exa::filetype::{raw_ext, File, FileType, HasType};
use exa::info::filetype::{FileExtensions, FileType as InfoType};

fn new_file(name: &str, dir: &[&str]) -> File {
    File {
        name: name.to_string(),
        directory: false,
        user_executable: false,
        dir: dir.iter().map(|s| s.to_string()).collect(),
    }
}

// These four come from the file-kind tests of the version that tells build
// files apart and lower-cases extensions; that behaviour is the one of
// `info::filetype`, where they run. Its "no special kind" is `None`.
#[test]
fn lowercase() {
    assert_eq!(Some(InfoType::Lossless), FileExtensions::get_file_type("barracks.wav", None))
}

#[test]
fn uppercase() {
    assert_eq!(Some(InfoType::Lossless), FileExtensions::get_file_type("BARRACKS.WAV", None))
}

#[test]
fn cargo() {
    assert_eq!(Some(InfoType::Immediate), FileExtensions::get_file_type("Cargo.toml", None))
}

#[test]
fn not_cargo() {
    assert_eq!(None, FileExtensions::get_file_type("cargo.toml", None))
}

#[test]
fn only_readmes_are_immediate() {
    assert_eq!(FileType::Normal, new_file("Gruntfile.js", &[]).get_type());
    assert_eq!(FileType::Normal, new_file("Makefile", &[]).get_type());
    assert_eq!(FileType::Normal, new_file("Cargo.toml", &[]).get_type());
    assert_eq!(FileType::Immediate, new_file("README", &[]).get_type());
}

#[test]
fn extensions_keep_their_case() {
    assert_eq!(FileType::Normal, new_file("photo.JPG", &[]).get_type());
    assert_eq!(FileType::Image, new_file("photo.jpg", &[]).get_type());
    assert_eq!(FileType::Lossless, new_file("barracks.wav", &[]).get_type());
    assert_eq!(FileType::Normal, new_file("BARRACKS.WAV", &[]).get_type());
    assert_eq!(FileType::Normal, new_file("x.O", &["x.c"]).get_type());
}

#[test]
fn a_trailing_dot_is_no_extension() {
    assert_eq!(raw_ext("foo."), None);
    assert_eq!(raw_ext("foo.bar"), Some("bar".to_string()));
    assert_eq!(raw_ext(".git"), Some("git".to_string()));
    assert_eq!(raw_ext("a.b.C"), Some("C".to_string()));
    assert_eq!(raw_ext("plain"), None);
    assert!(new_file("foo.", &[]).get_source_files().is_empty());
}

#[test]
fn directories_and_executables_come_first() {
    let mut dir = new_file("pics.png", &[]);
    dir.directory = true;
    assert_eq!(FileType::Directory, dir.get_type());
    let mut exe = new_file("run.png", &[]);
    exe.user_executable = true;
    assert_eq!(FileType::Executable, exe.get_type());
}

#[test]
fn readme_is_immediate() {
    assert_eq!(FileType::Immediate, new_file("README.md", &[]).get_type());
    assert_eq!(FileType::Normal, new_file("readme.md", &[]).get_type());
}

#[test]
fn kinds_by_extension() {
    assert_eq!(FileType::Image, new_file("a.eps", &[]).get_type());
    assert_eq!(FileType::Video, new_file("a.mkv", &[]).get_type());
    assert_eq!(FileType::Music, new_file("a.mp3", &[]).get_type());
    assert_eq!(FileType::Crypto, new_file("a.gpg", &[]).get_type());
    assert_eq!(FileType::Document, new_file("a.pdf", &[]).get_type());
    assert_eq!(FileType::Compressed, new_file("a.tar", &[]).get_type());
    assert_eq!(FileType::Temp, new_file("a.swp", &[]).get_type());
    assert_eq!(FileType::Temp, new_file("a.txt~", &[]).get_type());
    assert_eq!(FileType::Normal, new_file("notes~", &[]).get_type());
    assert_eq!(FileType::Normal, new_file("a.txt", &[]).get_type());
}

#[test]
fn compiled_files_and_their_sources() {
    assert_eq!(FileType::Compiled, new_file("Main.class", &["Other.java"]).get_type());
    assert_eq!(FileType::Temp, new_file("Main.class", &["Main.java"]).get_type());
    assert_eq!(FileType::Temp, new_file("x.o", &["x.cpp"]).get_type());
    assert_eq!(FileType::Normal, new_file("paper.log", &[]).get_type());
    assert_eq!(FileType::Temp, new_file("paper.log", &["paper.tex"]).get_type());
}

#[test]
fn source_file_names() {
    assert_eq!(new_file("x.o", &[]).get_source_files(), vec!["x.c".to_string(), "x.cpp".to_string()]);
    assert_eq!(new_file("a.b.pyc", &[]).get_source_files(), vec!["a.b.py".to_string()]);
    assert_eq!(new_file(".class", &[]).get_source_files(), vec![".class.java".to_string()]);
    assert!(new_file("x.rs", &[]).get_source_files().is_empty());
}

#[test]
fn styles() {
    assert_eq!(FileType::Normal.style(), Style::Plain);
    assert_eq!(
        FileType::Directory.style(),
        Style::Style(StyleStruct { foreground: Colour::Blue, background: None, bold: true, underline: false })
    );
    assert_eq!(
        FileType::Immediate.style(),
        Style::Style(StyleStruct { foreground: Colour::Yellow, background: None, bold: false, underline: true })
    );
    assert_eq!(
        FileType::Temp.style(),
        Style::Style(StyleStruct { foreground: Colour::Fixed(244), background: None, bold: false, underline: false })
    );
}
