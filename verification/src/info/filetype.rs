//! Kinds of file (video, image, compressed, etc) that get their own
//! colours, told apart by the file's name and extension only, because
//! those are all that can be known without reading the file.

use vstd::prelude::*;

use crate::colours::{Colour, Style, StyleStruct};
use crate::file::{ascii_lowercase, ext, extension_of, is_tmpfile, is_tmpfile_name, lower_char};
use crate::filetype::{any_held, names_with_extensions, source_files_of};
use crate::text::{str_eq, texts_view};

verus! {

/// A kind of file that is coloured by its name.
#[derive(PartialEq, Eq, Debug, Copy, Clone)]
pub enum FileType {
    Image,
    Video,
    Music,
    /// Lossless music, rather than any other kind of data.
    Lossless,
    Crypto,
    Document,
    Compressed,
    Temp,
    Compiled,
    /// Something that can be run or activated somehow in order to kick off
    /// the build of a project. It's usually only present in directories
    /// full of source code.
    Immediate,
}

/// Colours files by their names and extensions.
#[derive(PartialEq, Eq, Debug)]
pub struct FileExtensions;

/// Whether a lower-case extension marks an image.
pub open spec fn is_image_extension(e: Seq<char>) -> bool {
    e == "arw"@ || e == "avif"@ || e == "bmp"@ || e == "cbr"@ || e == "cbz"@ || e == "cr2"@ ||
        e == "dvi"@ || e == "eps"@ || e == "gif"@ || e == "heif"@ || e == "heix"@ ||
        e == "ico"@ || e == "j2c"@ || e == "j2k"@ || e == "jfi"@ || e == "jfif"@ ||
        e == "jif"@ || e == "jp2"@ || e == "jpe"@ || e == "jpeg"@ || e == "jpf"@ ||
        e == "jpg"@ || e == "jpx"@ || e == "jxl"@ || e == "nef"@ || e == "orf"@ ||
        e == "pbm"@ || e == "pgm"@ || e == "png"@ || e == "pnm"@ || e == "ppm"@ ||
        e == "ps"@ || e == "psd"@ || e == "pxm"@ || e == "raw"@ || e == "stl"@ ||
        e == "svg"@ || e == "tif"@ || e == "tiff"@ || e == "webp"@ || e == "xcf"@ || e == "xpm"@
}

fn image_extension(e: &str) -> (r: bool)
    ensures
        r == is_image_extension(e@),
{
    str_eq(e, "arw") || str_eq(e, "avif") || str_eq(e, "bmp") || str_eq(e, "cbr") ||
        str_eq(e, "cbz") || str_eq(e, "cr2") || str_eq(e, "dvi") || str_eq(e, "eps") ||
        str_eq(e, "gif") || str_eq(e, "heif") || str_eq(e, "heix") || str_eq(e, "ico") ||
        str_eq(e, "j2c") || str_eq(e, "j2k") || str_eq(e, "jfi") || str_eq(e, "jfif") ||
        str_eq(e, "jif") || str_eq(e, "jp2") || str_eq(e, "jpe") || str_eq(e, "jpeg") ||
        str_eq(e, "jpf") || str_eq(e, "jpg") || str_eq(e, "jpx") || str_eq(e, "jxl") ||
        str_eq(e, "nef") || str_eq(e, "orf") || str_eq(e, "pbm") || str_eq(e, "pgm") ||
        str_eq(e, "png") || str_eq(e, "pnm") || str_eq(e, "ppm") || str_eq(e, "ps") ||
        str_eq(e, "psd") || str_eq(e, "pxm") || str_eq(e, "raw") || str_eq(e, "stl") ||
        str_eq(e, "svg") || str_eq(e, "tif") || str_eq(e, "tiff") || str_eq(e, "webp") ||
        str_eq(e, "xcf") || str_eq(e, "xpm")
}

/// Whether a lower-case extension marks a video.
pub open spec fn is_video_extension(e: Seq<char>) -> bool {
    e == "avi"@ || e == "flv"@ || e == "heic"@ || e == "m2ts"@ || e == "m2v"@ || e == "m4v"@ ||
        e == "mkv"@ || e == "mov"@ || e == "mp4"@ || e == "mpeg"@ || e == "mpg"@ ||
        e == "ogm"@ || e == "ogv"@ || e == "video"@ || e == "vob"@ || e == "webm"@ ||
        e == "wmv"@
}

fn video_extension(e: &str) -> (r: bool)
    ensures
        r == is_video_extension(e@),
{
    str_eq(e, "avi") || str_eq(e, "flv") || str_eq(e, "heic") || str_eq(e, "m2ts") ||
        str_eq(e, "m2v") || str_eq(e, "m4v") || str_eq(e, "mkv") || str_eq(e, "mov") ||
        str_eq(e, "mp4") || str_eq(e, "mpeg") || str_eq(e, "mpg") || str_eq(e, "ogm") ||
        str_eq(e, "ogv") || str_eq(e, "video") || str_eq(e, "vob") || str_eq(e, "webm") ||
        str_eq(e, "wmv")
}

/// Whether a lower-case extension marks lossy music.
pub open spec fn is_music_extension(e: Seq<char>) -> bool {
    e == "aac"@ || e == "m4a"@ || e == "mka"@ || e == "mp2"@ || e == "mp3"@ || e == "ogg"@ ||
        e == "opus"@ || e == "wma"@
}

fn music_extension(e: &str) -> (r: bool)
    ensures
        r == is_music_extension(e@),
{
    str_eq(e, "aac") || str_eq(e, "m4a") || str_eq(e, "mka") || str_eq(e, "mp2") ||
        str_eq(e, "mp3") || str_eq(e, "ogg") || str_eq(e, "opus") || str_eq(e, "wma")
}

/// Whether a lower-case extension marks lossless music.
pub open spec fn is_lossless_extension(e: Seq<char>) -> bool {
    e == "alac"@ || e == "ape"@ || e == "flac"@ || e == "wav"@
}

fn lossless_extension(e: &str) -> (r: bool)
    ensures
        r == is_lossless_extension(e@),
{
    str_eq(e, "alac") || str_eq(e, "ape") || str_eq(e, "flac") || str_eq(e, "wav")
}

/// Whether a lower-case extension marks a key, checksum or signature.
pub open spec fn is_crypto_extension(e: Seq<char>) -> bool {
    e == "asc"@ || e == "enc"@ || e == "gpg"@ || e == "kbx"@ || e == "md5"@ || e == "p12"@ ||
        e == "pfx"@ || e == "pgp"@ || e == "sha1"@ || e == "sha256"@ || e == "sig"@ ||
        e == "signature"@
}

fn crypto_extension(e: &str) -> (r: bool)
    ensures
        r == is_crypto_extension(e@),
{
    str_eq(e, "asc") || str_eq(e, "enc") || str_eq(e, "gpg") || str_eq(e, "kbx") ||
        str_eq(e, "md5") || str_eq(e, "p12") || str_eq(e, "pfx") || str_eq(e, "pgp") ||
        str_eq(e, "sha1") || str_eq(e, "sha256") || str_eq(e, "sig") || str_eq(e, "signature")
}

/// Whether a lower-case extension marks a document.
pub open spec fn is_document_extension(e: Seq<char>) -> bool {
    e == "djvu"@ || e == "doc"@ || e == "docx"@ || e == "eml"@ || e == "fotd"@ ||
        e == "gdoc"@ || e == "key"@ || e == "keynote"@ || e == "numbers"@ || e == "odp"@ ||
        e == "ods"@ || e == "odt"@ || e == "pages"@ || e == "pdf"@ || e == "ppt"@ ||
        e == "pptx"@ || e == "rtf"@ || e == "xls"@ || e == "xlsm"@ || e == "xlsx"@
}

fn document_extension(e: &str) -> (r: bool)
    ensures
        r == is_document_extension(e@),
{
    str_eq(e, "djvu") || str_eq(e, "doc") || str_eq(e, "docx") || str_eq(e, "eml") ||
        str_eq(e, "fotd") || str_eq(e, "gdoc") || str_eq(e, "key") || str_eq(e, "keynote") ||
        str_eq(e, "numbers") || str_eq(e, "odp") || str_eq(e, "ods") || str_eq(e, "odt") ||
        str_eq(e, "pages") || str_eq(e, "pdf") || str_eq(e, "ppt") || str_eq(e, "pptx") ||
        str_eq(e, "rtf") || str_eq(e, "xls") || str_eq(e, "xlsm") || str_eq(e, "xlsx")
}

/// Whether a lower-case extension marks an archive or compressed file.
pub open spec fn is_compressed_extension(e: Seq<char>) -> bool {
    e == "7z"@ || e == "a"@ || e == "ar"@ || e == "bz"@ || e == "bz2"@ || e == "cpio"@ ||
        e == "deb"@ || e == "dmg"@ || e == "gz"@ || e == "iso"@ || e == "lz"@ || e == "lz4"@ ||
        e == "lzh"@ || e == "lzo"@ || e == "lzma"@ || e == "phar"@ || e == "qcow"@ ||
        e == "qcow2"@ || e == "rar"@ || e == "rpm"@ || e == "tar"@ || e == "taz"@ ||
        e == "tbz"@ || e == "tbz2"@ || e == "tc"@ || e == "tgz"@ || e == "tlz"@ ||
        e == "txz"@ || e == "tz"@ || e == "xz"@ || e == "z"@ || e == "zip"@ || e == "zst"@
}

fn compressed_extension(e: &str) -> (r: bool)
    ensures
        r == is_compressed_extension(e@),
{
    str_eq(e, "7z") || str_eq(e, "a") || str_eq(e, "ar") || str_eq(e, "bz") ||
        str_eq(e, "bz2") || str_eq(e, "cpio") || str_eq(e, "deb") || str_eq(e, "dmg") ||
        str_eq(e, "gz") || str_eq(e, "iso") || str_eq(e, "lz") || str_eq(e, "lz4") ||
        str_eq(e, "lzh") || str_eq(e, "lzo") || str_eq(e, "lzma") || str_eq(e, "phar") ||
        str_eq(e, "qcow") || str_eq(e, "qcow2") || str_eq(e, "rar") || str_eq(e, "rpm") ||
        str_eq(e, "tar") || str_eq(e, "taz") || str_eq(e, "tbz") || str_eq(e, "tbz2") ||
        str_eq(e, "tc") || str_eq(e, "tgz") || str_eq(e, "tlz") || str_eq(e, "txz") ||
        str_eq(e, "tz") || str_eq(e, "xz") || str_eq(e, "z") || str_eq(e, "zip") ||
        str_eq(e, "zst")
}

/// Whether a lower-case extension marks a temporary or backup file.
pub open spec fn is_temp_extension(e: Seq<char>) -> bool {
    e == "bak"@ || e == "bk"@ || e == "bkp"@ || e == "swn"@ || e == "swo"@ || e == "swp"@ ||
        e == "tmp"@
}

fn temp_extension(e: &str) -> (r: bool)
    ensures
        r == is_temp_extension(e@),
{
    str_eq(e, "bak") || str_eq(e, "bk") || str_eq(e, "bkp") || str_eq(e, "swn") ||
        str_eq(e, "swo") || str_eq(e, "swp") || str_eq(e, "tmp")
}

/// Whether a lower-case extension marks the output of a compiler.
pub open spec fn is_compiled_extension(e: Seq<char>) -> bool {
    e == "class"@ || e == "elc"@ || e == "hi"@ || e == "ko"@ || e == "o"@ || e == "pyc"@ ||
        e == "pyo"@ || e == "so"@ || e == "zwc"@
}

fn compiled_extension(e: &str) -> (r: bool)
    ensures
        r == is_compiled_extension(e@),
{
    str_eq(e, "class") || str_eq(e, "elc") || str_eq(e, "hi") || str_eq(e, "ko") ||
        str_eq(e, "o") || str_eq(e, "pyc") || str_eq(e, "pyo") || str_eq(e, "so") ||
        str_eq(e, "zwc")
}

/// Whether a lower-case extension marks a build file.
pub open spec fn is_immediate_extension(e: Seq<char>) -> bool {
    e == "ninja"@
}

fn immediate_extension(e: &str) -> (r: bool)
    ensures
        r == is_immediate_extension(e@),
{
    str_eq(e, "ninja")
}

/// Whether a file name is that of a build file.
pub open spec fn is_build_file_name(name: Seq<char>) -> bool {
    name == "Brewfile"@ || name == "bsconfig.json"@ || name == "BUILD"@ ||
        name == "BUILD.bazel"@ || name == "build.gradle"@ || name == "build.sbt"@ ||
        name == "build.xml"@ || name == "Cargo.toml"@ || name == "CMakeLists.txt"@ ||
        name == "composer.json"@ || name == "Containerfile"@ || name == "Dockerfile"@ ||
        name == "Earthfile"@ || name == "Gemfile"@ || name == "GNUmakefile"@ ||
        name == "Gruntfile.coffee"@ || name == "Gruntfile.js"@ || name == "Justfile"@ ||
        name == "Makefile"@ || name == "makefile"@ || name == "meson.build"@ ||
        name == "mix.exs"@ || name == "package.json"@ || name == "Pipfile"@ ||
        name == "PKGBUILD"@ || name == "Podfile"@ || name == "pom.xml"@ ||
        name == "Procfile"@ || name == "pyproject.toml"@ || name == "Rakefile"@ ||
        name == "RoboFile.php"@ || name == "SConstruct"@ || name == "tsconfig.json"@ ||
        name == "Vagrantfile"@ || name == "webpack.config.js"@ ||
        name == "webpack.config.cjs"@ || name == "WORKSPACE"@
}

fn build_file_name(name: &str) -> (r: bool)
    ensures
        r == is_build_file_name(name@),
{
    str_eq(name, "Brewfile") || str_eq(name, "bsconfig.json") || str_eq(name, "BUILD") ||
        str_eq(name, "BUILD.bazel") || str_eq(name, "build.gradle") ||
        str_eq(name, "build.sbt") || str_eq(name, "build.xml") || str_eq(name, "Cargo.toml") ||
        str_eq(name, "CMakeLists.txt") || str_eq(name, "composer.json") ||
        str_eq(name, "Containerfile") || str_eq(name, "Dockerfile") ||
        str_eq(name, "Earthfile") || str_eq(name, "Gemfile") || str_eq(name, "GNUmakefile") ||
        str_eq(name, "Gruntfile.coffee") || str_eq(name, "Gruntfile.js") ||
        str_eq(name, "Justfile") || str_eq(name, "Makefile") || str_eq(name, "makefile") ||
        str_eq(name, "meson.build") || str_eq(name, "mix.exs") ||
        str_eq(name, "package.json") || str_eq(name, "Pipfile") || str_eq(name, "PKGBUILD") ||
        str_eq(name, "Podfile") || str_eq(name, "pom.xml") || str_eq(name, "Procfile") ||
        str_eq(name, "pyproject.toml") || str_eq(name, "Rakefile") ||
        str_eq(name, "RoboFile.php") || str_eq(name, "SConstruct") ||
        str_eq(name, "tsconfig.json") || str_eq(name, "Vagrantfile") ||
        str_eq(name, "webpack.config.js") || str_eq(name, "webpack.config.cjs") ||
        str_eq(name, "WORKSPACE")
}

/// The kind of file that a lower-case extension marks, if any.
pub open spec fn extension_type(e: Seq<char>) -> Option<FileType> {
    if is_image_extension(e) {
        Some(FileType::Image)
    } else if is_video_extension(e) {
        Some(FileType::Video)
    } else if is_music_extension(e) {
        Some(FileType::Music)
    } else if is_lossless_extension(e) {
        Some(FileType::Lossless)
    } else if is_crypto_extension(e) {
        Some(FileType::Crypto)
    } else if is_document_extension(e) {
        Some(FileType::Document)
    } else if is_compressed_extension(e) {
        Some(FileType::Compressed)
    } else if is_temp_extension(e) {
        Some(FileType::Temp)
    } else if is_compiled_extension(e) {
        Some(FileType::Compiled)
    } else if is_immediate_extension(e) {
        Some(FileType::Immediate)
    } else {
        None
    }
}

fn extension_type_of(e: &str) -> (r: Option<FileType>)
    ensures
        r == extension_type(e@),
{
    if image_extension(e) {
        Some(FileType::Image)
    } else if video_extension(e) {
        Some(FileType::Video)
    } else if music_extension(e) {
        Some(FileType::Music)
    } else if lossless_extension(e) {
        Some(FileType::Lossless)
    } else if crypto_extension(e) {
        Some(FileType::Crypto)
    } else if document_extension(e) {
        Some(FileType::Document)
    } else if compressed_extension(e) {
        Some(FileType::Compressed)
    } else if temp_extension(e) {
        Some(FileType::Temp)
    } else if compiled_extension(e) {
        Some(FileType::Compiled)
    } else if immediate_extension(e) {
        Some(FileType::Immediate)
    } else {
        None
    }
}

/// Whether a name starts with "readme", in any case.
pub open spec fn is_readme(name: Seq<char>) -> bool {
    name.len() >= 6 && ascii_lowercase(name.subrange(0, 6)) == seq!['r', 'e', 'a', 'd', 'm', 'e']
}

/// The names of a directory's files, as text.
pub open spec fn dir_view(dir: Option<&Vec<String>>) -> Option<Seq<Seq<char>>> {
    match dir {
        Some(d) => Some(texts_view(d@)),
        None => None,
    }
}

/// The kind of a file, from its name and the names of the files beside it
/// (when it is in a directory): readmes and build files first, then by
/// extension, then editor backups, then compiled files whose source is
/// beside them.
pub open spec fn file_type_by_name(name: Seq<char>, dir: Option<Seq<Seq<char>>>) -> Option<FileType> {
    if is_readme(name) || is_build_file_name(name) {
        Some(FileType::Immediate)
    } else if extension_of(name) is Some && extension_type(extension_of(name)->0) is Some {
        extension_type(extension_of(name)->0)
    } else if is_tmpfile_name(name) {
        Some(FileType::Temp)
    } else {
        match dir {
            Some(d) => if exists|k: int| 0 <= k < source_files_of(name).len() && d.contains(#[trigger] source_files_of(name)[k]) {
                Some(FileType::Compiled)
            } else {
                None
            },
            None => None,
        }
    }
}

/// The style of a kind of file.
pub open spec fn type_style(t: FileType) -> Style {
    let plain = |c: Colour| Style::Style(StyleStruct { foreground: c, background: None, bold: false, underline: false });
    match t {
        FileType::Image => plain(Colour::Fixed(133)),
        FileType::Video => plain(Colour::Fixed(135)),
        FileType::Music => plain(Colour::Fixed(92)),
        FileType::Lossless => plain(Colour::Fixed(93)),
        FileType::Crypto => plain(Colour::Fixed(109)),
        FileType::Document => plain(Colour::Fixed(105)),
        FileType::Compressed => plain(Colour::Red),
        FileType::Temp => plain(Colour::Fixed(244)),
        FileType::Compiled => plain(Colour::Fixed(137)),
        FileType::Immediate => Style::Style(
            StyleStruct { foreground: Colour::Yellow, background: None, bold: true, underline: true },
        ),
    }
}

fn readme(name: &str) -> (r: bool)
    ensures
        r == is_readme(name@),
{
    if name.unicode_len() < 6 {
        return false;
    }
    let r = lower_char(name.get_char(0)) == 'r' && lower_char(name.get_char(1)) == 'e' && lower_char(name.get_char(2)) == 'a'
        && lower_char(name.get_char(3)) == 'd' && lower_char(name.get_char(4)) == 'm' && lower_char(name.get_char(5)) == 'e';
    assert(r == (ascii_lowercase(name@.subrange(0, 6)) =~= seq!['r', 'e', 'a', 'd', 'm', 'e']));
    r
}

impl FileExtensions {
    /// The kind of a file, from its name and, when it is in a directory,
    /// the names of the files beside it.
    pub fn get_file_type(name: &str, dir: Option<&Vec<String>>) -> (r: Option<FileType>)
        ensures
            r == file_type_by_name(name@, dir_view(dir)),
    {
        if readme(name) || build_file_name(name) {
            return Some(FileType::Immediate);
        }
        match ext(name) {
            Some(e) => {
                let t = extension_type_of(e.as_str());
                if t.is_some() {
                    return t;
                }
            },
            None => {},
        }
        if is_tmpfile(name) {
            return Some(FileType::Temp);
        }
        match dir {
            Some(d) => {
                let sources = source_files(name);
                if any_held(d, &sources) {
                    Some(FileType::Compiled)
                } else {
                    None
                }
            },
            None => None,
        }
    }

    /// The colour of a file, from its kind; none for a file of no kind.
    pub fn colour_file(&self, name: &str, dir: Option<&Vec<String>>) -> (r: Option<Style>)
        ensures
            r == (match file_type_by_name(name@, dir_view(dir)) {
                Some(t) => Some(type_style(t)),
                None => None,
            }),
    {
        let plain = |c: Colour| -> (s: Style)
            ensures
                s == Style::Style(StyleStruct { foreground: c, background: None, bold: false, underline: false }),
            { Style::Style(StyleStruct { foreground: c, background: None, bold: false, underline: false }) };
        match FileExtensions::get_file_type(name, dir) {
            Some(FileType::Image) => Some(plain(Colour::Fixed(133))),
            Some(FileType::Video) => Some(plain(Colour::Fixed(135))),
            Some(FileType::Music) => Some(plain(Colour::Fixed(92))),
            Some(FileType::Lossless) => Some(plain(Colour::Fixed(93))),
            Some(FileType::Crypto) => Some(plain(Colour::Fixed(109))),
            Some(FileType::Document) => Some(plain(Colour::Fixed(105))),
            Some(FileType::Compressed) => Some(plain(Colour::Red)),
            Some(FileType::Temp) => Some(plain(Colour::Fixed(244))),
            Some(FileType::Compiled) => Some(plain(Colour::Fixed(137))),
            Some(FileType::Immediate) => Some(
                Style::Style(StyleStruct { foreground: Colour::Yellow, background: None, bold: true, underline: true }),
            ),
            None => None,
        }
    }
}

/// The names of the files that one named `name` is usually compiled from,
/// by its lower-cased extension.
pub fn source_files(name: &str) -> (r: Vec<String>)
    ensures
        texts_view(r@) == source_files_of(name@),
{
    match ext(name) {
        Some(e) => names_with_extensions(name, e.as_str()),
        None => {
            let r: Vec<String> = Vec::new();
            assert(texts_view(r@) =~= source_files_of(name@));
            r
        },
    }
}

} // verus!
