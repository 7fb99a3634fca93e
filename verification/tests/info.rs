use exa::colours::{Colour, Style, StyleStruct};
use exa::info::filetype::{FileExtensions, FileType};

fn kind(name: &str) -> Option<FileType> {
    FileExtensions::get_file_type(name, None)
}

#[test]
fn readmes_and_build_files() {
    assert_eq!(kind("README.md"), Some(FileType::Immediate));
    assert_eq!(kind("readme"), Some(FileType::Immediate));
    assert_eq!(kind("Makefile"), Some(FileType::Immediate));
    assert_eq!(kind("Cargo.toml"), Some(FileType::Immediate));
    assert_eq!(kind("cargo.toml"), None);
    assert_eq!(kind("build.ninja"), Some(FileType::Immediate));
}

#[test]
fn by_extension() {
    assert_eq!(kind("photo.JPG"), Some(FileType::Image));
    assert_eq!(kind("film.webm"), Some(FileType::Video));
    assert_eq!(kind("song.opus"), Some(FileType::Music));
    assert_eq!(kind("song.flac"), Some(FileType::Lossless));
    assert_eq!(kind("key.gpg"), Some(FileType::Crypto));
    assert_eq!(kind("paper.pdf"), Some(FileType::Document));
    assert_eq!(kind("a.tar.zst"), Some(FileType::Compressed));
    assert_eq!(kind("a.swp"), Some(FileType::Temp));
    assert_eq!(kind("a.pyc"), Some(FileType::Compiled));
    assert_eq!(kind("a.rs"), None);
}

#[test]
fn backups_and_compiled_files() {
    assert_eq!(kind("notes~"), Some(FileType::Temp));
    assert_eq!(kind("#notes#"), Some(FileType::Temp));
    let dir = vec!["paper.tex".to_string()];
    assert_eq!(FileExtensions::get_file_type("paper.log", Some(&dir)), Some(FileType::Compiled));
    assert_eq!(FileExtensions::get_file_type("paper.log", None), None);
    assert_eq!(FileExtensions::get_file_type("other.log", Some(&dir)), None);
}

#[test]
fn colours() {
    assert_eq!(
        FileExtensions.colour_file("README", None),
        Some(Style::Style(StyleStruct { foreground: Colour::Yellow, background: None, bold: true, underline: true }))
    );
    assert_eq!(
        FileExtensions.colour_file("a.zip", None),
        Some(Style::Style(StyleStruct { foreground: Colour::Red, background: None, bold: false, underline: false }))
    );
    assert_eq!(FileExtensions.colour_file("a.rs", None), None);
}
