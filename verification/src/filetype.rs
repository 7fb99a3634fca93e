//! The kinds of file that are shown in their own colours (images,
//! music, archives...), told apart by name, extension and metadata.

use vstd::prelude::*;

use crate::colours::{csi, decimal, digit_char, reset, Colour, Style, StyleStruct};
use crate::file::{ext, extension_of, is_tmpfile, is_tmpfile_name, last_index_of, lemma_last_index_of};
use crate::text::{str_eq, texts_view};

verus! {

/// The kind of a file, which decides its colour.
#[derive(PartialEq, Eq, Debug, Copy, Clone)]
pub enum FileType {
    Normal,
    Directory,
    Executable,
    Immediate,
    Compiled,
    Image,
    Video,
    Music,
    Lossless,
    Compressed,
    Document,
    Temp,
    Crypto,
}

/// A foreground colour, without a background, made bold or underlined.
pub open spec fn coloured(c: Colour, bold: bool, underline: bool) -> Style {
    Style::Style(StyleStruct { foreground: c, background: None, bold, underline })
}

impl FileType {
    /// The style that files of this kind are painted in.
    pub open spec fn spec_style(self) -> Style {
        match self {
            FileType::Normal => Style::Plain,
            FileType::Directory => coloured(Colour::Blue, true, false),
            FileType::Executable => coloured(Colour::Green, true, false),
            FileType::Image => coloured(Colour::Fixed(133), false, false),
            FileType::Video => coloured(Colour::Fixed(135), false, false),
            FileType::Music => coloured(Colour::Fixed(92), false, false),
            FileType::Lossless => coloured(Colour::Fixed(93), false, false),
            FileType::Crypto => coloured(Colour::Fixed(109), false, false),
            FileType::Document => coloured(Colour::Fixed(105), false, false),
            FileType::Compressed => coloured(Colour::Red, false, false),
            FileType::Temp => coloured(Colour::Fixed(244), false, false),
            FileType::Immediate => coloured(Colour::Yellow, false, true),
            FileType::Compiled => coloured(Colour::Fixed(137), false, false),
        }
    }

    /// The style that files of this kind are painted in. (A bold underline
    /// keeps only the underline.)
    pub fn style(&self) -> (r: Style)
        ensures
            r == self.spec_style(),
    {
        match *self {
            FileType::Normal => Style::Plain,
            FileType::Directory => Colour::Blue.bold(),
            FileType::Executable => Colour::Green.bold(),
            FileType::Image => Colour::Fixed(133).normal(),
            FileType::Video => Colour::Fixed(135).normal(),
            FileType::Music => Colour::Fixed(92).normal(),
            FileType::Lossless => Colour::Fixed(93).normal(),
            FileType::Crypto => Colour::Fixed(109).normal(),
            FileType::Document => Colour::Fixed(105).normal(),
            FileType::Compressed => Colour::Red.normal(),
            FileType::Temp => Colour::Fixed(244).normal(),
            FileType::Immediate => Colour::Yellow.bold().underline(),
            FileType::Compiled => Colour::Fixed(137).normal(),
        }
    }
}

/// Whether an extension marks an image file.
pub open spec fn is_image_ext(e: Seq<char>) -> bool {
    e == "png"@ || e == "jpeg"@ || e == "jpg"@ || e == "gif"@ || e == "bmp"@ || e == "tiff"@ ||
        e == "tif"@ || e == "ppm"@ || e == "pgm"@ || e == "pbm"@ || e == "pnm"@ ||
        e == "webp"@ || e == "raw"@ || e == "arw"@ || e == "svg"@ || e == "stl"@ ||
        e == "eps"@ || e == "dvi"@ || e == "ps"@ || e == "cbr"@ || e == "cbz"@ ||
        e == "xpm"@ || e == "ico"@
}

fn image_ext(e: &str) -> (r: bool)
    ensures
        r == is_image_ext(e@),
{
    str_eq(e, "png") || str_eq(e, "jpeg") || str_eq(e, "jpg") || str_eq(e, "gif") ||
        str_eq(e, "bmp") || str_eq(e, "tiff") || str_eq(e, "tif") || str_eq(e, "ppm") ||
        str_eq(e, "pgm") || str_eq(e, "pbm") || str_eq(e, "pnm") || str_eq(e, "webp") ||
        str_eq(e, "raw") || str_eq(e, "arw") || str_eq(e, "svg") || str_eq(e, "stl") ||
        str_eq(e, "eps") || str_eq(e, "dvi") || str_eq(e, "ps") || str_eq(e, "cbr") ||
        str_eq(e, "cbz") || str_eq(e, "xpm") || str_eq(e, "ico")
}

/// Whether an extension marks a video file.
pub open spec fn is_video_ext(e: Seq<char>) -> bool {
    e == "avi"@ || e == "flv"@ || e == "m2v"@ || e == "mkv"@ || e == "mov"@ || e == "mp4"@ ||
        e == "mpeg"@ || e == "mpg"@ || e == "ogm"@ || e == "ogv"@ || e == "vob"@ || e == "wmv"@
}

fn video_ext(e: &str) -> (r: bool)
    ensures
        r == is_video_ext(e@),
{
    str_eq(e, "avi") || str_eq(e, "flv") || str_eq(e, "m2v") || str_eq(e, "mkv") ||
        str_eq(e, "mov") || str_eq(e, "mp4") || str_eq(e, "mpeg") || str_eq(e, "mpg") ||
        str_eq(e, "ogm") || str_eq(e, "ogv") || str_eq(e, "vob") || str_eq(e, "wmv")
}

/// Whether an extension marks a lossy music file.
pub open spec fn is_music_ext(e: Seq<char>) -> bool {
    e == "aac"@ || e == "m4a"@ || e == "mp3"@ || e == "ogg"@
}

fn music_ext(e: &str) -> (r: bool)
    ensures
        r == is_music_ext(e@),
{
    str_eq(e, "aac") || str_eq(e, "m4a") || str_eq(e, "mp3") || str_eq(e, "ogg")
}

/// Whether an extension marks a lossless music file.
pub open spec fn is_lossless_ext(e: Seq<char>) -> bool {
    e == "alac"@ || e == "ape"@ || e == "flac"@ || e == "wav"@
}

fn lossless_ext(e: &str) -> (r: bool)
    ensures
        r == is_lossless_ext(e@),
{
    str_eq(e, "alac") || str_eq(e, "ape") || str_eq(e, "flac") || str_eq(e, "wav")
}

/// Whether an extension marks an archive or compressed file.
pub open spec fn is_compressed_ext(e: Seq<char>) -> bool {
    e == "zip"@ || e == "tar"@ || e == "Z"@ || e == "gz"@ || e == "bz2"@ || e == "a"@ ||
        e == "ar"@ || e == "7z"@ || e == "iso"@ || e == "dmg"@ || e == "tc"@ || e == "rar"@ ||
        e == "par"@
}

fn compressed_ext(e: &str) -> (r: bool)
    ensures
        r == is_compressed_ext(e@),
{
    str_eq(e, "zip") || str_eq(e, "tar") || str_eq(e, "Z") || str_eq(e, "gz") ||
        str_eq(e, "bz2") || str_eq(e, "a") || str_eq(e, "ar") || str_eq(e, "7z") ||
        str_eq(e, "iso") || str_eq(e, "dmg") || str_eq(e, "tc") || str_eq(e, "rar") ||
        str_eq(e, "par")
}

/// Whether an extension marks a document.
pub open spec fn is_document_ext(e: Seq<char>) -> bool {
    e == "djvu"@ || e == "doc"@ || e == "docx"@ || e == "eml"@ || e == "eps"@ || e == "odp"@ ||
        e == "ods"@ || e == "odt"@ || e == "pdf"@ || e == "ppt"@ || e == "pptx"@ ||
        e == "xls"@ || e == "xlsx"@
}

fn document_ext(e: &str) -> (r: bool)
    ensures
        r == is_document_ext(e@),
{
    str_eq(e, "djvu") || str_eq(e, "doc") || str_eq(e, "docx") || str_eq(e, "eml") ||
        str_eq(e, "eps") || str_eq(e, "odp") || str_eq(e, "ods") || str_eq(e, "odt") ||
        str_eq(e, "pdf") || str_eq(e, "ppt") || str_eq(e, "pptx") || str_eq(e, "xls") ||
        str_eq(e, "xlsx")
}

/// Whether an extension marks a temporary or backup file.
pub open spec fn is_temp_ext(e: Seq<char>) -> bool {
    e == "tmp"@ || e == "swp"@ || e == "swo"@ || e == "swn"@ || e == "bak"@
}

fn temp_ext(e: &str) -> (r: bool)
    ensures
        r == is_temp_ext(e@),
{
    str_eq(e, "tmp") || str_eq(e, "swp") || str_eq(e, "swo") || str_eq(e, "swn") ||
        str_eq(e, "bak")
}

/// Whether an extension marks a key, signature or encrypted file.
pub open spec fn is_crypto_ext(e: Seq<char>) -> bool {
    e == "asc"@ || e == "gpg"@ || e == "sig"@ || e == "signature"@ || e == "pgp"@
}

fn crypto_ext(e: &str) -> (r: bool)
    ensures
        r == is_crypto_ext(e@),
{
    str_eq(e, "asc") || str_eq(e, "gpg") || str_eq(e, "sig") || str_eq(e, "signature") ||
        str_eq(e, "pgp")
}

/// Whether an extension marks the output of a compiler.
pub open spec fn is_compiled_ext(e: Seq<char>) -> bool {
    e == "class"@ || e == "elc"@ || e == "hi"@ || e == "o"@ || e == "pyc"@
}

fn compiled_ext(e: &str) -> (r: bool)
    ensures
        r == is_compiled_ext(e@),
{
    str_eq(e, "class") || str_eq(e, "elc") || str_eq(e, "hi") || str_eq(e, "o") ||
        str_eq(e, "pyc")
}

/// Whether a file name marks a file to read first: it starts with
/// `README`.
pub open spec fn is_readme_name(name: Seq<char>) -> bool {
    name.len() >= 6 && name.subrange(0, 6) == seq!['R', 'E', 'A', 'D', 'M', 'E']
}

fn readme_name(name: &str) -> (r: bool)
    ensures
        r == is_readme_name(name@),
{
    let readme = name.unicode_len() >= 6 && name.get_char(0) == 'R' && name.get_char(1) == 'E'
        && name.get_char(2) == 'A' && name.get_char(3) == 'D' && name.get_char(4) == 'M'
        && name.get_char(5) == 'E';
    proof {
        if name@.len() >= 6 {
            assert(readme == (name@.subrange(0, 6) =~= seq!['R', 'E', 'A', 'D', 'M', 'E']));
        }
    }
    readme
}

/// The extension of a name as this listing reads it: the characters after
/// the last dot, as they are (upper case kept), when there is at least one.
/// A name that ends with a dot, or has none, has no extension.
pub open spec fn raw_extension_of(name: Seq<char>) -> Option<Seq<char>> {
    match last_index_of(name, '.') {
        Some(i) => if i + 1 < name.len() {
            Some(name.subrange((i + 1) as int, name.len() as int))
        } else {
            None
        },
        None => None,
    }
}

/// The extension of a name: see `raw_extension_of`.
pub fn raw_ext(name: &str) -> (r: Option<String>)
    ensures
        match r {
            Some(e) => raw_extension_of(name@) == Some(e@),
            None => raw_extension_of(name@) is None,
        },
{
    let len = name.unicode_len();
    let mut i: usize = len;
    while i > 0
        invariant
            i <= len,
            len == name@.len(),
            forall|j: int| i <= j < len ==> name@[j] != '.',
        ensures
            i <= len,
            forall|j: int| i <= j < len ==> name@[j] != '.',
            i == 0 || name@[i - 1] == '.',
        decreases i,
    {
        if name.get_char(i - 1) == '.' {
            break;
        }
        i = i - 1;
    }
    proof {
        lemma_last_index_of(name@, '.', i as int);
    }
    if i == 0 {
        assert(name@.subrange(0, 0).len() == 0);
        return None;
    }
    assert(name@.subrange(0, i as int).last() == '.');
    assert(last_index_of(name@.subrange(0, i as int), '.') == Some((i - 1) as nat));
    if i == len {
        return None;
    }
    Some(String::from_str(name.substring_char(i, len)))
}

/// The extensions of the files that a file with extension `e` is usually
/// compiled or generated from.
pub open spec fn source_extensions(e: Seq<char>) -> Seq<Seq<char>> {
    if e == "class"@ {
        seq!["java"@]
    } else if e == "elc"@ {
        seq!["el"@]
    } else if e == "hi"@ {
        seq!["hs"@]
    } else if e == "o"@ {
        seq!["c"@, "cpp"@]
    } else if e == "pyc"@ {
        seq!["py"@]
    } else if e == "js"@ {
        seq!["coffee"@, "ts"@]
    } else if e == "css"@ {
        seq!["sass"@, "less"@]
    } else if e == "aux"@ || e == "bbl"@ || e == "blg"@ || e == "lof"@ || e == "log"@ || e == "lot"@
        || e == "toc"@ {
        seq!["tex"@]
    } else {
        Seq::empty()
    }
}

fn source_extensions_of(e: &str) -> (r: Vec<&'static str>)
    ensures
        r@.map_values(|s: &str| s@) == source_extensions(e@),
{
    let r = if str_eq(e, "class") {
        vec!["java"]
    } else if str_eq(e, "elc") {
        vec!["el"]
    } else if str_eq(e, "hi") {
        vec!["hs"]
    } else if str_eq(e, "o") {
        vec!["c", "cpp"]
    } else if str_eq(e, "pyc") {
        vec!["py"]
    } else if str_eq(e, "js") {
        vec!["coffee", "ts"]
    } else if str_eq(e, "css") {
        vec!["sass", "less"]
    } else if str_eq(e, "aux") || str_eq(e, "bbl") || str_eq(e, "blg") || str_eq(e, "lof") || str_eq(
        e,
        "log",
    ) || str_eq(e, "lot") || str_eq(e, "toc") {
        vec!["tex"]
    } else {
        Vec::new()
    };
    assert(r@.map_values(|s: &str| s@) =~= source_extensions(e@));
    r
}

/// The name without its extension, as a path's file stem is: everything
/// before the last dot, unless that dot starts the name.
pub open spec fn file_stem(name: Seq<char>) -> Seq<char> {
    match last_index_of(name, '.') {
        Some(i) => if i == 0 {
            name
        } else {
            name.subrange(0, i as int)
        },
        None => name,
    }
}

/// The name with its extension replaced by `e` (or `e` added, when it has
/// none), as a path's `with_extension` makes it.
pub open spec fn with_extension(name: Seq<char>, e: Seq<char>) -> Seq<char> {
    file_stem(name) + seq!['.'] + e
}

/// The names of the files that this one is usually made from, by its
/// extension as this listing reads it.
pub open spec fn raw_source_files_of(name: Seq<char>) -> Seq<Seq<char>> {
    match raw_extension_of(name) {
        Some(e) => source_extensions(e).map_values(|s: Seq<char>| with_extension(name, s)),
        None => Seq::empty(),
    }
}

/// The names of the files that this one is usually made from, by its
/// lower-cased extension.
pub open spec fn source_files_of(name: Seq<char>) -> Seq<Seq<char>> {
    match extension_of(name) {
        Some(e) => source_extensions(e).map_values(|s: Seq<char>| with_extension(name, s)),
        None => Seq::empty(),
    }
}

/// The file stem of a name: see `file_stem`.
fn stem_of(name: &str) -> (r: String)
    ensures
        r@ == file_stem(name@),
{
    let len = name.unicode_len();
    let mut i: usize = len;
    while i > 0
        invariant
            i <= len,
            len == name@.len(),
            forall|j: int| i <= j < len ==> name@[j] != '.',
        ensures
            i <= len,
            forall|j: int| i <= j < len ==> name@[j] != '.',
            i == 0 || name@[i - 1] == '.',
        decreases i,
    {
        if name.get_char(i - 1) == '.' {
            break;
        }
        i = i - 1;
    }
    proof {
        lemma_last_index_of(name@, '.', i as int);
    }
    if i <= 1 {
        proof {
            if i == 1 {
                assert(name@.subrange(0, 1).last() == '.');
                assert(last_index_of(name@.subrange(0, 1), '.') == Some(0nat));
            } else {
                assert(name@.subrange(0, 0).len() == 0);
            }
        }
        return String::from_str(name);
    }
    assert(name@.subrange(0, i as int).last() == '.');
    assert(last_index_of(name@.subrange(0, i as int), '.') == Some((i - 1) as nat));
    String::from_str(name.substring_char(0, i - 1))
}

/// What the listing knows of a file when it decides its kind.
pub struct File {
    /// The file's name.
    pub name: String,
    /// Whether it is a directory.
    pub directory: bool,
    /// Whether its owner may execute it.
    pub user_executable: bool,
    /// The names of the files in the directory that holds it.
    pub dir: Vec<String>,
}

/// The kind of a file: directories and executables first, then readmes,
/// then by extension (as `raw_extension_of` reads it, upper case kept). A
/// compiled file whose source sits beside it is counted as temporary.
pub open spec fn file_type_of(name: Seq<char>, directory: bool, executable: bool, dir: Seq<Seq<char>>) -> FileType {
    if directory {
        FileType::Directory
    } else if executable {
        FileType::Executable
    } else if is_readme_name(name) {
        FileType::Immediate
    } else {
        match raw_extension_of(name) {
            None => FileType::Normal,
            Some(e) => if is_image_ext(e) {
                FileType::Image
            } else if is_video_ext(e) {
                FileType::Video
            } else if is_music_ext(e) {
                FileType::Music
            } else if is_lossless_ext(e) {
                FileType::Lossless
            } else if is_crypto_ext(e) {
                FileType::Crypto
            } else if is_document_ext(e) {
                FileType::Document
            } else if is_compressed_ext(e) {
                FileType::Compressed
            } else if is_tmpfile_name(name) || is_temp_ext(e) {
                FileType::Temp
            } else if raw_source_files_of(name).len() == 0 {
                FileType::Normal
            } else if exists|k: int| 0 <= k < raw_source_files_of(name).len() && dir.contains(raw_source_files_of(name)[k]) {
                FileType::Temp
            } else if is_compiled_ext(e) {
                FileType::Compiled
            } else {
                FileType::Normal
            },
        }
    }
}

/// Something whose file kind can be told.
pub trait HasType {
    /// The kind of this file.
    fn get_type(&self) -> FileType;
}

impl File {
    /// The kind of this file.
    pub open spec fn spec_type(&self) -> FileType {
        file_type_of(self.name@, self.directory, self.user_executable, texts_view(self.dir@))
    }

    /// The names of the files that this one is usually compiled from: its
    /// name with the extension of each source.
    pub fn get_source_files(&self) -> (r: Vec<String>)
        ensures
            texts_view(r@) == raw_source_files_of(self.name@),
    {
        let name = self.name.as_str();
        match raw_ext(name) {
            Some(e) => names_with_extensions(name, e.as_str()),
            None => {
                let r: Vec<String> = Vec::new();
                assert(texts_view(r@) =~= raw_source_files_of(self.name@));
                r
            },
        }
    }
}

/// The name with its extension replaced by that of each source of files
/// with extension `e`.
pub(crate) fn names_with_extensions(name: &str, e: &str) -> (r: Vec<String>)
    ensures
        texts_view(r@) == source_extensions(e@).map_values(|s: Seq<char>| with_extension(name@, s)),
{
    let stem = stem_of(name);
    let sources = source_extensions_of(e);
    let ghost srcs = sources@.map_values(|s: &str| s@);
    let mut out: Vec<String> = Vec::new();
    let mut k: usize = 0;
    while k < sources.len()
        invariant
            srcs == sources@.map_values(|s: &str| s@),
            srcs == source_extensions(e@),
            stem@ == file_stem(name@),
            0 <= k <= sources@.len(),
            texts_view(out@) == srcs.subrange(0, k as int).map_values(|s: Seq<char>| with_extension(name@, s)),
        decreases sources@.len() - k,
    {
        let mut full = String::from_str(stem.as_str());
        full.append(".");
        let piece = sources[k];
        full.append(piece);
        let ghost before = texts_view(out@);
        out.push(full);
        proof {
            reveal_strlit(".");
            assert(piece@ == srcs[k as int]);
            assert(full@ =~= with_extension(name@, srcs[k as int]));
            assert(texts_view(out@) =~= before.push(with_extension(name@, srcs[k as int])));
            assert(srcs.subrange(0, k + 1).map_values(|s: Seq<char>| with_extension(name@, s))
                =~= srcs.subrange(0, k as int).map_values(|s: Seq<char>| with_extension(name@, s)).push(
                with_extension(name@, srcs[k as int])));
        }
        k = k + 1;
    }
    assert(srcs.subrange(0, srcs.len() as int) =~= srcs);
    out
}


/// Whether a list of names holds the given one.
fn holds_name(names: &Vec<String>, name: &str) -> (r: bool)
    ensures
        r == texts_view(names@).contains(name@),
{
    let mut i: usize = 0;
    while i < names.len()
        invariant
            0 <= i <= names@.len(),
            forall|j: int| 0 <= j < i ==> names@[j]@ != name@,
        decreases names@.len() - i,
    {
        if str_eq(names[i].as_str(), name) {
            assert(texts_view(names@)[i as int] == name@);
            return true;
        }
        i = i + 1;
    }
    assert forall|j: int| 0 <= j < texts_view(names@).len() implies texts_view(names@)[j] != name@ by {
        assert(texts_view(names@)[j] == names@[j]@);
    }
    false
}

/// Whether a list of names holds any of the candidates.
pub(crate) fn any_held(names: &Vec<String>, candidates: &Vec<String>) -> (r: bool)
    ensures
        r == exists|j: int|
            0 <= j < candidates@.len() && texts_view(names@).contains(#[trigger] texts_view(candidates@)[j]),
{
    let ghost cs = texts_view(candidates@);
    let mut k: usize = 0;
    while k < candidates.len()
        invariant
            cs == texts_view(candidates@),
            0 <= k <= candidates@.len(),
            forall|j: int| 0 <= j < k ==> !texts_view(names@).contains(#[trigger] cs[j]),
        decreases candidates@.len() - k,
    {
        assert(cs[k as int] == candidates@[k as int]@);
        if holds_name(names, candidates[k].as_str()) {
            return true;
        }
        k = k + 1;
    }
    false
}

impl HasType for File {
    /// The kind of this file: see `file_type_of`.
    fn get_type(&self) -> (r: FileType)
        ensures
            r == self.spec_type(),
    {
        if self.directory {
            return FileType::Directory;
        }
        if self.user_executable {
            return FileType::Executable;
        }
        let name = self.name.as_str();
        if readme_name(name) {
            return FileType::Immediate;
        }
        let e = match raw_ext(name) {
            Some(e) => e,
            None => return FileType::Normal,
        };
        let es = e.as_str();
        if image_ext(es) {
            FileType::Image
        } else if video_ext(es) {
            FileType::Video
        } else if music_ext(es) {
            FileType::Music
        } else if lossless_ext(es) {
            FileType::Lossless
        } else if crypto_ext(es) {
            FileType::Crypto
        } else if document_ext(es) {
            FileType::Document
        } else if compressed_ext(es) {
            FileType::Compressed
        } else if is_tmpfile(name) || temp_ext(es) {
            FileType::Temp
        } else {
            let sources = self.get_source_files();
            if sources.len() == 0 {
                return FileType::Normal;
            }
            if any_held(&self.dir, &sources) {
                return FileType::Temp;
            }
            if compiled_ext(es) {
                FileType::Compiled
            } else {
                FileType::Normal
            }
        }
    }
}

/// The escape code that a kind of file is painted with, between the
/// escape's opening and its closing `m` (nothing, for normal files).
pub open spec fn style_code(t: FileType) -> Seq<char> {
    match t {
        FileType::Normal => Seq::empty(),
        FileType::Directory => seq!['1', ';', '3', '4'],
        FileType::Executable => seq!['1', ';', '3', '2'],
        FileType::Image => seq!['3', '8', ';', '5', ';', '1', '3', '3'],
        FileType::Video => seq!['3', '8', ';', '5', ';', '1', '3', '5'],
        FileType::Music => seq!['3', '8', ';', '5', ';', '9', '2'],
        FileType::Lossless => seq!['3', '8', ';', '5', ';', '9', '3'],
        FileType::Crypto => seq!['3', '8', ';', '5', ';', '1', '0', '9'],
        FileType::Document => seq!['3', '8', ';', '5', ';', '1', '0', '5'],
        FileType::Compressed => seq!['3', '1'],
        FileType::Temp => seq!['3', '8', ';', '5', ';', '2', '4', '4'],
        FileType::Immediate => seq!['4', ';', '3', '3'],
        FileType::Compiled => seq!['3', '8', ';', '5', ';', '1', '3', '7'],
    }
}

/// What tells the codes apart: their length and their last two characters.
pub open spec fn code_key(t: FileType) -> (nat, char, char) {
    let c = style_code(t);
    (c.len(), c[c.len() - 1], c[c.len() - 2])
}

/// A file of any kind but normal is painted as its code between the escape
/// that opens a style and its `m`, then the reset; a normal one is not
/// painted.
pub proof fn lemma_painted_form(t: FileType, input: Seq<char>)
    ensures
        t == FileType::Normal ==> t.spec_style().spec_paint(input) == input,
        t != FileType::Normal ==> t.spec_style().spec_paint(input) == csi() + style_code(t) + "m"@ + input + reset(),
{
    reveal_strlit("1;");
    reveal_strlit("4;");
    reveal_strlit("31");
    reveal_strlit("32");
    reveal_strlit("33");
    reveal_strlit("34");
    reveal_strlit("38;5;");
    reveal_with_fuel(decimal, 3);
    assert(digit_char(0) == '0' && digit_char(1) == '1' && digit_char(2) == '2' && digit_char(3) == '3');
    assert(digit_char(4) == '4' && digit_char(5) == '5' && digit_char(7) == '7' && digit_char(9) == '9');
    let code = match t.spec_style() {
        Style::Style(st) => {
            let bo = if st.bold { "1;"@ } else { Seq::<char>::empty() };
            let un = if st.underline { "4;"@ } else { Seq::<char>::empty() };
            bo + un + st.foreground.spec_foreground_code()
        },
        _ => Seq::empty(),
    };
    if t != FileType::Normal {
        assert(code =~= style_code(t));
        let st = t.spec_style()->Style_0;
        assert(st.background is None);
    }
}

/// Two kinds of file other than normal have different codes.
proof fn lemma_code_key_differs(a: FileType, b: FileType)
    requires
        a != b,
        a != FileType::Normal,
        b != FileType::Normal,
    ensures
        code_key(a) != code_key(b),
{
}

/// Text painted with one code equals text painted with another only when
/// the codes have the same length and end in the same two characters.
proof fn lemma_same_painting(ca: Seq<char>, cb: Seq<char>, input: Seq<char>)
    requires
        ca.len() >= 2,
        cb.len() >= 2,
        csi() + ca + "m"@ + input + reset() == csi() + cb + "m"@ + input + reset(),
    ensures
        ca.len() == cb.len(),
        ca[ca.len() - 1] == cb[cb.len() - 1],
        ca[ca.len() - 2] == cb[cb.len() - 2],
{
    reveal_strlit("\x1B[");
    reveal_strlit("m");
    reveal_strlit("\x1B[0m");
    let pa = csi() + ca + "m"@ + input + reset();
    let pb = csi() + cb + "m"@ + input + reset();
    assert(pa.len() == 2 + ca.len() + 1 + input.len() + 4);
    assert(pb.len() == 2 + cb.len() + 1 + input.len() + 4);
    let n = ca.len() as int;
    assert(pa[2 + n - 1] == ca[n - 1]);
    assert(pb[2 + n - 1] == cb[n - 1]);
    assert(pa[2 + n - 2] == ca[n - 2]);
    assert(pb[2 + n - 2] == cb[n - 2]);
}

/// Files of different kinds are painted differently: whatever the name, the
/// painted text of one kind is never that of another.
pub proof fn law_kinds_paint_differently(a: FileType, b: FileType, input: Seq<char>)
    requires
        a != b,
    ensures
        a.spec_style().spec_paint(input) != b.spec_style().spec_paint(input),
{
    lemma_painted_form(a, input);
    lemma_painted_form(b, input);
    reveal_strlit("\x1B[");
    reveal_strlit("m");
    reveal_strlit("\x1B[0m");
    if a == FileType::Normal || b == FileType::Normal {
        let t = if a == FileType::Normal { b } else { a };
        assert((csi() + style_code(t) + "m"@ + input + reset()).len() > input.len());
    } else {
        assert(style_code(a).len() >= 2 && style_code(b).len() >= 2);
        lemma_code_key_differs(a, b);
        if a.spec_style().spec_paint(input) == b.spec_style().spec_paint(input) {
            lemma_same_painting(style_code(a), style_code(b), input);
        }
    }
}

/// A file whose extension is one of the image formats (png, jpeg, jpg, gif, bmp, tiff, tif, ppm, pgm, pbm, pnm, webp, raw, arw, svg, stl, eps, dvi, ps, cbr, cbz, xpm, ico) is
/// shown as an image file, when it is a plain file (not a directory, not
/// executable, not a readme).
#[verifier::spinoff_prover]
#[verifier::rlimit(50)]
pub proof fn law_image_extensions(name: Seq<char>, e: Seq<char>, dir: Seq<Seq<char>>)
    requires
        raw_extension_of(name) == Some(e),
        !is_readme_name(name),
        e == "png"@ ||
        e == "jpeg"@ ||
        e == "jpg"@ ||
        e == "gif"@ ||
        e == "bmp"@ ||
        e == "tiff"@ ||
        e == "tif"@ ||
        e == "ppm"@ ||
        e == "pgm"@ ||
        e == "pbm"@ ||
        e == "pnm"@ ||
        e == "webp"@ ||
        e == "raw"@ ||
        e == "arw"@ ||
        e == "svg"@ ||
        e == "stl"@ ||
        e == "eps"@ ||
        e == "dvi"@ ||
        e == "ps"@ ||
        e == "cbr"@ ||
        e == "cbz"@ ||
        e == "xpm"@ ||
        e == "ico"@,
    ensures
        file_type_of(name, false, false, dir) == FileType::Image,
{
    reveal_strlit("arw");
    reveal_strlit("bmp");
    reveal_strlit("cbr");
    reveal_strlit("cbz");
    reveal_strlit("dvi");
    reveal_strlit("eps");
    reveal_strlit("gif");
    reveal_strlit("ico");
    reveal_strlit("jpeg");
    reveal_strlit("jpg");
    reveal_strlit("pbm");
    reveal_strlit("pgm");
    reveal_strlit("png");
    reveal_strlit("pnm");
    reveal_strlit("ppm");
    reveal_strlit("ps");
    reveal_strlit("raw");
    reveal_strlit("stl");
    reveal_strlit("svg");
    reveal_strlit("tif");
    reveal_strlit("tiff");
    reveal_strlit("webp");
    reveal_strlit("xpm");
}

/// A file whose extension is one of the video formats (avi, flv, m2v, mkv, mov, mp4, mpeg, mpg, ogm, ogv, vob, wmv) is
/// shown as a video file, when it is a plain file (not a directory, not
/// executable, not a readme).
#[verifier::spinoff_prover]
#[verifier::rlimit(50)]
pub proof fn law_video_extensions(name: Seq<char>, e: Seq<char>, dir: Seq<Seq<char>>)
    requires
        raw_extension_of(name) == Some(e),
        !is_readme_name(name),
        e == "avi"@ ||
        e == "flv"@ ||
        e == "m2v"@ ||
        e == "mkv"@ ||
        e == "mov"@ ||
        e == "mp4"@ ||
        e == "mpeg"@ ||
        e == "mpg"@ ||
        e == "ogm"@ ||
        e == "ogv"@ ||
        e == "vob"@ ||
        e == "wmv"@,
    ensures
        file_type_of(name, false, false, dir) == FileType::Video,
{
    reveal_strlit("arw");
    reveal_strlit("avi");
    reveal_strlit("bmp");
    reveal_strlit("cbr");
    reveal_strlit("cbz");
    reveal_strlit("dvi");
    reveal_strlit("eps");
    reveal_strlit("flv");
    reveal_strlit("gif");
    reveal_strlit("ico");
    reveal_strlit("jpeg");
    reveal_strlit("jpg");
    reveal_strlit("m2v");
    reveal_strlit("mkv");
    reveal_strlit("mov");
    reveal_strlit("mp4");
    reveal_strlit("mpeg");
    reveal_strlit("mpg");
    reveal_strlit("ogm");
    reveal_strlit("ogv");
    reveal_strlit("pbm");
    reveal_strlit("pgm");
    reveal_strlit("png");
    reveal_strlit("pnm");
    reveal_strlit("ppm");
    reveal_strlit("ps");
    reveal_strlit("raw");
    reveal_strlit("stl");
    reveal_strlit("svg");
    reveal_strlit("tif");
    reveal_strlit("tiff");
    reveal_strlit("vob");
    reveal_strlit("webp");
    reveal_strlit("wmv");
    reveal_strlit("xpm");
    if e == "avi"@ {
        assert(e.len() == 3 && e[0] == 'a' && e[1] == 'v' && e[2] == 'i');
        assert(!is_image_ext(e));
    }
    if e == "flv"@ {
        assert(e.len() == 3 && e[0] == 'f' && e[1] == 'l' && e[2] == 'v');
        assert(!is_image_ext(e));
    }
    if e == "m2v"@ {
        assert(e.len() == 3 && e[0] == 'm' && e[1] == '2' && e[2] == 'v');
        assert(!is_image_ext(e));
    }
    if e == "mkv"@ {
        assert(e.len() == 3 && e[0] == 'm' && e[1] == 'k' && e[2] == 'v');
        assert(!is_image_ext(e));
    }
    if e == "mov"@ {
        assert(e.len() == 3 && e[0] == 'm' && e[1] == 'o' && e[2] == 'v');
        assert(!is_image_ext(e));
    }
    if e == "mp4"@ {
        assert(e.len() == 3 && e[0] == 'm' && e[1] == 'p' && e[2] == '4');
        assert(!is_image_ext(e));
    }
    if e == "mpeg"@ {
        assert(e.len() == 4 && e[0] == 'm' && e[1] == 'p' && e[2] == 'e' && e[3] == 'g');
        assert(!is_image_ext(e));
    }
    if e == "mpg"@ {
        assert(e.len() == 3 && e[0] == 'm' && e[1] == 'p' && e[2] == 'g');
        assert(!is_image_ext(e));
    }
    if e == "ogm"@ {
        assert(e.len() == 3 && e[0] == 'o' && e[1] == 'g' && e[2] == 'm');
        assert(!is_image_ext(e));
    }
    if e == "ogv"@ {
        assert(e.len() == 3 && e[0] == 'o' && e[1] == 'g' && e[2] == 'v');
        assert(!is_image_ext(e));
    }
    if e == "vob"@ {
        assert(e.len() == 3 && e[0] == 'v' && e[1] == 'o' && e[2] == 'b');
        assert(!is_image_ext(e));
    }
    if e == "wmv"@ {
        assert(e.len() == 3 && e[0] == 'w' && e[1] == 'm' && e[2] == 'v');
        assert(!is_image_ext(e));
    }
}

/// A file whose extension is one of the music formats (aac, m4a, mp3, ogg) is
/// shown as a music file, when it is a plain file (not a directory, not
/// executable, not a readme).
#[verifier::spinoff_prover]
#[verifier::rlimit(50)]
pub proof fn law_music_extensions(name: Seq<char>, e: Seq<char>, dir: Seq<Seq<char>>)
    requires
        raw_extension_of(name) == Some(e),
        !is_readme_name(name),
        e == "aac"@ ||
        e == "m4a"@ ||
        e == "mp3"@ ||
        e == "ogg"@,
    ensures
        file_type_of(name, false, false, dir) == FileType::Music,
{
    reveal_strlit("aac");
    reveal_strlit("arw");
    reveal_strlit("avi");
    reveal_strlit("bmp");
    reveal_strlit("cbr");
    reveal_strlit("cbz");
    reveal_strlit("dvi");
    reveal_strlit("eps");
    reveal_strlit("flv");
    reveal_strlit("gif");
    reveal_strlit("ico");
    reveal_strlit("jpeg");
    reveal_strlit("jpg");
    reveal_strlit("m2v");
    reveal_strlit("m4a");
    reveal_strlit("mkv");
    reveal_strlit("mov");
    reveal_strlit("mp3");
    reveal_strlit("mp4");
    reveal_strlit("mpeg");
    reveal_strlit("mpg");
    reveal_strlit("ogg");
    reveal_strlit("ogm");
    reveal_strlit("ogv");
    reveal_strlit("pbm");
    reveal_strlit("pgm");
    reveal_strlit("png");
    reveal_strlit("pnm");
    reveal_strlit("ppm");
    reveal_strlit("ps");
    reveal_strlit("raw");
    reveal_strlit("stl");
    reveal_strlit("svg");
    reveal_strlit("tif");
    reveal_strlit("tiff");
    reveal_strlit("vob");
    reveal_strlit("webp");
    reveal_strlit("wmv");
    reveal_strlit("xpm");
    if e == "aac"@ {
        assert(e.len() == 3 && e[0] == 'a' && e[1] == 'a' && e[2] == 'c');
        assert(!is_image_ext(e));
        assert(!is_video_ext(e));
    }
    if e == "m4a"@ {
        assert(e.len() == 3 && e[0] == 'm' && e[1] == '4' && e[2] == 'a');
        assert(!is_image_ext(e));
        assert(!is_video_ext(e));
    }
    if e == "mp3"@ {
        assert(e.len() == 3 && e[0] == 'm' && e[1] == 'p' && e[2] == '3');
        assert(!is_image_ext(e));
        assert(!is_video_ext(e));
    }
    if e == "ogg"@ {
        assert(e.len() == 3 && e[0] == 'o' && e[1] == 'g' && e[2] == 'g');
        assert(!is_image_ext(e));
        assert(!is_video_ext(e));
    }
}

/// A file whose extension is one of the lossless formats (alac, ape, flac, wav) is
/// shown as a lossless file, when it is a plain file (not a directory, not
/// executable, not a readme).
#[verifier::spinoff_prover]
#[verifier::rlimit(50)]
pub proof fn law_lossless_extensions(name: Seq<char>, e: Seq<char>, dir: Seq<Seq<char>>)
    requires
        raw_extension_of(name) == Some(e),
        !is_readme_name(name),
        e == "alac"@ ||
        e == "ape"@ ||
        e == "flac"@ ||
        e == "wav"@,
    ensures
        file_type_of(name, false, false, dir) == FileType::Lossless,
{
    reveal_strlit("aac");
    reveal_strlit("alac");
    reveal_strlit("ape");
    reveal_strlit("arw");
    reveal_strlit("avi");
    reveal_strlit("bmp");
    reveal_strlit("cbr");
    reveal_strlit("cbz");
    reveal_strlit("dvi");
    reveal_strlit("eps");
    reveal_strlit("flac");
    reveal_strlit("flv");
    reveal_strlit("gif");
    reveal_strlit("ico");
    reveal_strlit("jpeg");
    reveal_strlit("jpg");
    reveal_strlit("m2v");
    reveal_strlit("m4a");
    reveal_strlit("mkv");
    reveal_strlit("mov");
    reveal_strlit("mp3");
    reveal_strlit("mp4");
    reveal_strlit("mpeg");
    reveal_strlit("mpg");
    reveal_strlit("ogg");
    reveal_strlit("ogm");
    reveal_strlit("ogv");
    reveal_strlit("pbm");
    reveal_strlit("pgm");
    reveal_strlit("png");
    reveal_strlit("pnm");
    reveal_strlit("ppm");
    reveal_strlit("ps");
    reveal_strlit("raw");
    reveal_strlit("stl");
    reveal_strlit("svg");
    reveal_strlit("tif");
    reveal_strlit("tiff");
    reveal_strlit("vob");
    reveal_strlit("wav");
    reveal_strlit("webp");
    reveal_strlit("wmv");
    reveal_strlit("xpm");
    if e == "alac"@ {
        assert(e.len() == 4 && e[0] == 'a' && e[1] == 'l' && e[2] == 'a' && e[3] == 'c');
        assert(!is_image_ext(e));
        assert(!is_video_ext(e));
        assert(!is_music_ext(e));
    }
    if e == "ape"@ {
        assert(e.len() == 3 && e[0] == 'a' && e[1] == 'p' && e[2] == 'e');
        assert(!is_image_ext(e));
        assert(!is_video_ext(e));
        assert(!is_music_ext(e));
    }
    if e == "flac"@ {
        assert(e.len() == 4 && e[0] == 'f' && e[1] == 'l' && e[2] == 'a' && e[3] == 'c');
        assert(!is_image_ext(e));
        assert(!is_video_ext(e));
        assert(!is_music_ext(e));
    }
    if e == "wav"@ {
        assert(e.len() == 3 && e[0] == 'w' && e[1] == 'a' && e[2] == 'v');
        assert(!is_image_ext(e));
        assert(!is_video_ext(e));
        assert(!is_music_ext(e));
    }
}

/// A file whose extension is one of the crypto formats (asc, gpg, sig, signature, pgp) is
/// shown as a crypto file, when it is a plain file (not a directory, not
/// executable, not a readme).
#[verifier::spinoff_prover]
#[verifier::rlimit(50)]
pub proof fn law_crypto_extensions(name: Seq<char>, e: Seq<char>, dir: Seq<Seq<char>>)
    requires
        raw_extension_of(name) == Some(e),
        !is_readme_name(name),
        e == "asc"@ ||
        e == "gpg"@ ||
        e == "sig"@ ||
        e == "signature"@ ||
        e == "pgp"@,
    ensures
        file_type_of(name, false, false, dir) == FileType::Crypto,
{
    reveal_strlit("aac");
    reveal_strlit("alac");
    reveal_strlit("ape");
    reveal_strlit("arw");
    reveal_strlit("asc");
    reveal_strlit("avi");
    reveal_strlit("bmp");
    reveal_strlit("cbr");
    reveal_strlit("cbz");
    reveal_strlit("dvi");
    reveal_strlit("eps");
    reveal_strlit("flac");
    reveal_strlit("flv");
    reveal_strlit("gif");
    reveal_strlit("gpg");
    reveal_strlit("ico");
    reveal_strlit("jpeg");
    reveal_strlit("jpg");
    reveal_strlit("m2v");
    reveal_strlit("m4a");
    reveal_strlit("mkv");
    reveal_strlit("mov");
    reveal_strlit("mp3");
    reveal_strlit("mp4");
    reveal_strlit("mpeg");
    reveal_strlit("mpg");
    reveal_strlit("ogg");
    reveal_strlit("ogm");
    reveal_strlit("ogv");
    reveal_strlit("pbm");
    reveal_strlit("pgm");
    reveal_strlit("pgp");
    reveal_strlit("png");
    reveal_strlit("pnm");
    reveal_strlit("ppm");
    reveal_strlit("ps");
    reveal_strlit("raw");
    reveal_strlit("sig");
    reveal_strlit("signature");
    reveal_strlit("stl");
    reveal_strlit("svg");
    reveal_strlit("tif");
    reveal_strlit("tiff");
    reveal_strlit("vob");
    reveal_strlit("wav");
    reveal_strlit("webp");
    reveal_strlit("wmv");
    reveal_strlit("xpm");
    if e == "asc"@ {
        assert(e.len() == 3 && e[0] == 'a' && e[1] == 's' && e[2] == 'c');
        assert(!is_image_ext(e));
        assert(!is_video_ext(e));
        assert(!is_music_ext(e));
        assert(!is_lossless_ext(e));
    }
    if e == "gpg"@ {
        assert(e.len() == 3 && e[0] == 'g' && e[1] == 'p' && e[2] == 'g');
        assert(!is_image_ext(e));
        assert(!is_video_ext(e));
        assert(!is_music_ext(e));
        assert(!is_lossless_ext(e));
    }
    if e == "sig"@ {
        assert(e.len() == 3 && e[0] == 's' && e[1] == 'i' && e[2] == 'g');
        assert(!is_image_ext(e));
        assert(!is_video_ext(e));
        assert(!is_music_ext(e));
        assert(!is_lossless_ext(e));
    }
    if e == "signature"@ {
        assert(e.len() == 9 && e[0] == 's' && e[1] == 'i' && e[2] == 'g' && e[3] == 'n' && e[4] == 'a' && e[5] == 't' && e[6] == 'u' && e[7] == 'r' && e[8] == 'e');
        assert(!is_image_ext(e));
        assert(!is_video_ext(e));
        assert(!is_music_ext(e));
        assert(!is_lossless_ext(e));
    }
    if e == "pgp"@ {
        assert(e.len() == 3 && e[0] == 'p' && e[1] == 'g' && e[2] == 'p');
        assert(!is_image_ext(e));
        assert(!is_video_ext(e));
        assert(!is_music_ext(e));
        assert(!is_lossless_ext(e));
    }
}

/// A file whose extension is one of the document formats (djvu, doc, docx, eml, odp, ods, odt, pdf, ppt, pptx, xls, xlsx) is
/// shown as a document file, when it is a plain file (not a directory, not
/// executable, not a readme). (`eps`, also an image format, is shown as an image.)
#[verifier::spinoff_prover]
#[verifier::rlimit(50)]
pub proof fn law_document_extensions(name: Seq<char>, e: Seq<char>, dir: Seq<Seq<char>>)
    requires
        raw_extension_of(name) == Some(e),
        !is_readme_name(name),
        e == "djvu"@ ||
        e == "doc"@ ||
        e == "docx"@ ||
        e == "eml"@ ||
        e == "odp"@ ||
        e == "ods"@ ||
        e == "odt"@ ||
        e == "pdf"@ ||
        e == "ppt"@ ||
        e == "pptx"@ ||
        e == "xls"@ ||
        e == "xlsx"@,
    ensures
        file_type_of(name, false, false, dir) == FileType::Document,
{
    reveal_strlit("aac");
    reveal_strlit("alac");
    reveal_strlit("ape");
    reveal_strlit("arw");
    reveal_strlit("asc");
    reveal_strlit("avi");
    reveal_strlit("bmp");
    reveal_strlit("cbr");
    reveal_strlit("cbz");
    reveal_strlit("djvu");
    reveal_strlit("doc");
    reveal_strlit("docx");
    reveal_strlit("dvi");
    reveal_strlit("eml");
    reveal_strlit("eps");
    reveal_strlit("flac");
    reveal_strlit("flv");
    reveal_strlit("gif");
    reveal_strlit("gpg");
    reveal_strlit("ico");
    reveal_strlit("jpeg");
    reveal_strlit("jpg");
    reveal_strlit("m2v");
    reveal_strlit("m4a");
    reveal_strlit("mkv");
    reveal_strlit("mov");
    reveal_strlit("mp3");
    reveal_strlit("mp4");
    reveal_strlit("mpeg");
    reveal_strlit("mpg");
    reveal_strlit("odp");
    reveal_strlit("ods");
    reveal_strlit("odt");
    reveal_strlit("ogg");
    reveal_strlit("ogm");
    reveal_strlit("ogv");
    reveal_strlit("pbm");
    reveal_strlit("pdf");
    reveal_strlit("pgm");
    reveal_strlit("pgp");
    reveal_strlit("png");
    reveal_strlit("pnm");
    reveal_strlit("ppm");
    reveal_strlit("ppt");
    reveal_strlit("pptx");
    reveal_strlit("ps");
    reveal_strlit("raw");
    reveal_strlit("sig");
    reveal_strlit("signature");
    reveal_strlit("stl");
    reveal_strlit("svg");
    reveal_strlit("tif");
    reveal_strlit("tiff");
    reveal_strlit("vob");
    reveal_strlit("wav");
    reveal_strlit("webp");
    reveal_strlit("wmv");
    reveal_strlit("xls");
    reveal_strlit("xlsx");
    reveal_strlit("xpm");
    if e == "djvu"@ {
        assert(e.len() == 4 && e[0] == 'd' && e[1] == 'j' && e[2] == 'v' && e[3] == 'u');
        assert(!is_image_ext(e));
        assert(!is_video_ext(e));
        assert(!is_music_ext(e));
        assert(!is_lossless_ext(e));
        assert(!is_crypto_ext(e));
    }
    if e == "doc"@ {
        assert(e.len() == 3 && e[0] == 'd' && e[1] == 'o' && e[2] == 'c');
        assert(!is_image_ext(e));
        assert(!is_video_ext(e));
        assert(!is_music_ext(e));
        assert(!is_lossless_ext(e));
        assert(!is_crypto_ext(e));
    }
    if e == "docx"@ {
        assert(e.len() == 4 && e[0] == 'd' && e[1] == 'o' && e[2] == 'c' && e[3] == 'x');
        assert(!is_image_ext(e));
        assert(!is_video_ext(e));
        assert(!is_music_ext(e));
        assert(!is_lossless_ext(e));
        assert(!is_crypto_ext(e));
    }
    if e == "eml"@ {
        assert(e.len() == 3 && e[0] == 'e' && e[1] == 'm' && e[2] == 'l');
        assert(!is_image_ext(e));
        assert(!is_video_ext(e));
        assert(!is_music_ext(e));
        assert(!is_lossless_ext(e));
        assert(!is_crypto_ext(e));
    }
    if e == "odp"@ {
        assert(e.len() == 3 && e[0] == 'o' && e[1] == 'd' && e[2] == 'p');
        assert(!is_image_ext(e));
        assert(!is_video_ext(e));
        assert(!is_music_ext(e));
        assert(!is_lossless_ext(e));
        assert(!is_crypto_ext(e));
    }
    if e == "ods"@ {
        assert(e.len() == 3 && e[0] == 'o' && e[1] == 'd' && e[2] == 's');
        assert(!is_image_ext(e));
        assert(!is_video_ext(e));
        assert(!is_music_ext(e));
        assert(!is_lossless_ext(e));
        assert(!is_crypto_ext(e));
    }
    if e == "odt"@ {
        assert(e.len() == 3 && e[0] == 'o' && e[1] == 'd' && e[2] == 't');
        assert(!is_image_ext(e));
        assert(!is_video_ext(e));
        assert(!is_music_ext(e));
        assert(!is_lossless_ext(e));
        assert(!is_crypto_ext(e));
    }
    if e == "pdf"@ {
        assert(e.len() == 3 && e[0] == 'p' && e[1] == 'd' && e[2] == 'f');
        assert(!is_image_ext(e));
        assert(!is_video_ext(e));
        assert(!is_music_ext(e));
        assert(!is_lossless_ext(e));
        assert(!is_crypto_ext(e));
    }
    if e == "ppt"@ {
        assert(e.len() == 3 && e[0] == 'p' && e[1] == 'p' && e[2] == 't');
        assert(!is_image_ext(e));
        assert(!is_video_ext(e));
        assert(!is_music_ext(e));
        assert(!is_lossless_ext(e));
        assert(!is_crypto_ext(e));
    }
    if e == "pptx"@ {
        assert(e.len() == 4 && e[0] == 'p' && e[1] == 'p' && e[2] == 't' && e[3] == 'x');
        assert(!is_image_ext(e));
        assert(!is_video_ext(e));
        assert(!is_music_ext(e));
        assert(!is_lossless_ext(e));
        assert(!is_crypto_ext(e));
    }
    if e == "xls"@ {
        assert(e.len() == 3 && e[0] == 'x' && e[1] == 'l' && e[2] == 's');
        assert(!is_image_ext(e));
        assert(!is_video_ext(e));
        assert(!is_music_ext(e));
        assert(!is_lossless_ext(e));
        assert(!is_crypto_ext(e));
    }
    if e == "xlsx"@ {
        assert(e.len() == 4 && e[0] == 'x' && e[1] == 'l' && e[2] == 's' && e[3] == 'x');
        assert(!is_image_ext(e));
        assert(!is_video_ext(e));
        assert(!is_music_ext(e));
        assert(!is_lossless_ext(e));
        assert(!is_crypto_ext(e));
    }
}

/// A file whose extension is one of the compressed formats (zip, tar, Z, gz, bz2, a, ar, 7z, iso, dmg, tc, rar, par) is
/// shown as a compressed file, when it is a plain file (not a directory, not
/// executable, not a readme).
#[verifier::spinoff_prover]
#[verifier::rlimit(50)]
pub proof fn law_compressed_extensions(name: Seq<char>, e: Seq<char>, dir: Seq<Seq<char>>)
    requires
        raw_extension_of(name) == Some(e),
        !is_readme_name(name),
        e == "zip"@ ||
        e == "tar"@ ||
        e == "Z"@ ||
        e == "gz"@ ||
        e == "bz2"@ ||
        e == "a"@ ||
        e == "ar"@ ||
        e == "7z"@ ||
        e == "iso"@ ||
        e == "dmg"@ ||
        e == "tc"@ ||
        e == "rar"@ ||
        e == "par"@,
    ensures
        file_type_of(name, false, false, dir) == FileType::Compressed,
{
    reveal_strlit("7z");
    reveal_strlit("Z");
    reveal_strlit("a");
    reveal_strlit("aac");
    reveal_strlit("alac");
    reveal_strlit("ape");
    reveal_strlit("ar");
    reveal_strlit("arw");
    reveal_strlit("asc");
    reveal_strlit("avi");
    reveal_strlit("bmp");
    reveal_strlit("bz2");
    reveal_strlit("cbr");
    reveal_strlit("cbz");
    reveal_strlit("djvu");
    reveal_strlit("dmg");
    reveal_strlit("doc");
    reveal_strlit("docx");
    reveal_strlit("dvi");
    reveal_strlit("eml");
    reveal_strlit("eps");
    reveal_strlit("flac");
    reveal_strlit("flv");
    reveal_strlit("gif");
    reveal_strlit("gpg");
    reveal_strlit("gz");
    reveal_strlit("ico");
    reveal_strlit("iso");
    reveal_strlit("jpeg");
    reveal_strlit("jpg");
    reveal_strlit("m2v");
    reveal_strlit("m4a");
    reveal_strlit("mkv");
    reveal_strlit("mov");
    reveal_strlit("mp3");
    reveal_strlit("mp4");
    reveal_strlit("mpeg");
    reveal_strlit("mpg");
    reveal_strlit("odp");
    reveal_strlit("ods");
    reveal_strlit("odt");
    reveal_strlit("ogg");
    reveal_strlit("ogm");
    reveal_strlit("ogv");
    reveal_strlit("par");
    reveal_strlit("pbm");
    reveal_strlit("pdf");
    reveal_strlit("pgm");
    reveal_strlit("pgp");
    reveal_strlit("png");
    reveal_strlit("pnm");
    reveal_strlit("ppm");
    reveal_strlit("ppt");
    reveal_strlit("pptx");
    reveal_strlit("ps");
    reveal_strlit("rar");
    reveal_strlit("raw");
    reveal_strlit("sig");
    reveal_strlit("signature");
    reveal_strlit("stl");
    reveal_strlit("svg");
    reveal_strlit("tar");
    reveal_strlit("tc");
    reveal_strlit("tif");
    reveal_strlit("tiff");
    reveal_strlit("vob");
    reveal_strlit("wav");
    reveal_strlit("webp");
    reveal_strlit("wmv");
    reveal_strlit("xls");
    reveal_strlit("xlsx");
    reveal_strlit("xpm");
    reveal_strlit("zip");
    if e == "zip"@ {
        assert(e.len() == 3 && e[0] == 'z' && e[1] == 'i' && e[2] == 'p');
        assert(!is_image_ext(e));
        assert(!is_video_ext(e));
        assert(!is_music_ext(e));
        assert(!is_lossless_ext(e));
        assert(!is_crypto_ext(e));
        assert(!is_document_ext(e));
    }
    if e == "tar"@ {
        assert(e.len() == 3 && e[0] == 't' && e[1] == 'a' && e[2] == 'r');
        assert(!is_image_ext(e));
        assert(!is_video_ext(e));
        assert(!is_music_ext(e));
        assert(!is_lossless_ext(e));
        assert(!is_crypto_ext(e));
        assert(!is_document_ext(e));
    }
    if e == "Z"@ {
        assert(e.len() == 1 && e[0] == 'Z');
        assert(!is_image_ext(e));
        assert(!is_video_ext(e));
        assert(!is_music_ext(e));
        assert(!is_lossless_ext(e));
        assert(!is_crypto_ext(e));
        assert(!is_document_ext(e));
    }
    if e == "gz"@ {
        assert(e.len() == 2 && e[0] == 'g' && e[1] == 'z');
        assert(!is_image_ext(e));
        assert(!is_video_ext(e));
        assert(!is_music_ext(e));
        assert(!is_lossless_ext(e));
        assert(!is_crypto_ext(e));
        assert(!is_document_ext(e));
    }
    if e == "bz2"@ {
        assert(e.len() == 3 && e[0] == 'b' && e[1] == 'z' && e[2] == '2');
        assert(!is_image_ext(e));
        assert(!is_video_ext(e));
        assert(!is_music_ext(e));
        assert(!is_lossless_ext(e));
        assert(!is_crypto_ext(e));
        assert(!is_document_ext(e));
    }
    if e == "a"@ {
        assert(e.len() == 1 && e[0] == 'a');
        assert(!is_image_ext(e));
        assert(!is_video_ext(e));
        assert(!is_music_ext(e));
        assert(!is_lossless_ext(e));
        assert(!is_crypto_ext(e));
        assert(!is_document_ext(e));
    }
    if e == "ar"@ {
        assert(e.len() == 2 && e[0] == 'a' && e[1] == 'r');
        assert(!is_image_ext(e));
        assert(!is_video_ext(e));
        assert(!is_music_ext(e));
        assert(!is_lossless_ext(e));
        assert(!is_crypto_ext(e));
        assert(!is_document_ext(e));
    }
    if e == "7z"@ {
        assert(e.len() == 2 && e[0] == '7' && e[1] == 'z');
        assert(!is_image_ext(e));
        assert(!is_video_ext(e));
        assert(!is_music_ext(e));
        assert(!is_lossless_ext(e));
        assert(!is_crypto_ext(e));
        assert(!is_document_ext(e));
    }
    if e == "iso"@ {
        assert(e.len() == 3 && e[0] == 'i' && e[1] == 's' && e[2] == 'o');
        assert(!is_image_ext(e));
        assert(!is_video_ext(e));
        assert(!is_music_ext(e));
        assert(!is_lossless_ext(e));
        assert(!is_crypto_ext(e));
        assert(!is_document_ext(e));
    }
    if e == "dmg"@ {
        assert(e.len() == 3 && e[0] == 'd' && e[1] == 'm' && e[2] == 'g');
        assert(!is_image_ext(e));
        assert(!is_video_ext(e));
        assert(!is_music_ext(e));
        assert(!is_lossless_ext(e));
        assert(!is_crypto_ext(e));
        assert(!is_document_ext(e));
    }
    if e == "tc"@ {
        assert(e.len() == 2 && e[0] == 't' && e[1] == 'c');
        assert(!is_image_ext(e));
        assert(!is_video_ext(e));
        assert(!is_music_ext(e));
        assert(!is_lossless_ext(e));
        assert(!is_crypto_ext(e));
        assert(!is_document_ext(e));
    }
    if e == "rar"@ {
        assert(e.len() == 3 && e[0] == 'r' && e[1] == 'a' && e[2] == 'r');
        assert(!is_image_ext(e));
        assert(!is_video_ext(e));
        assert(!is_music_ext(e));
        assert(!is_lossless_ext(e));
        assert(!is_crypto_ext(e));
        assert(!is_document_ext(e));
    }
    if e == "par"@ {
        assert(e.len() == 3 && e[0] == 'p' && e[1] == 'a' && e[2] == 'r');
        assert(!is_image_ext(e));
        assert(!is_video_ext(e));
        assert(!is_music_ext(e));
        assert(!is_lossless_ext(e));
        assert(!is_crypto_ext(e));
        assert(!is_document_ext(e));
    }
}

/// A file whose extension is one of the temporary formats (tmp, swp, swo,
/// swn, bak) is shown as temporary, when it is a plain file that is not a
/// readme.
#[verifier::spinoff_prover]
#[verifier::rlimit(50)]
pub proof fn law_temp_extensions(name: Seq<char>, e: Seq<char>, dir: Seq<Seq<char>>)
    requires
        raw_extension_of(name) == Some(e),
        !is_readme_name(name),
        e == "tmp"@ ||
        e == "swp"@ ||
        e == "swo"@ ||
        e == "swn"@ ||
        e == "bak"@,
    ensures
        file_type_of(name, false, false, dir) == FileType::Temp,
{
    reveal_strlit("7z");
    reveal_strlit("Z");
    reveal_strlit("a");
    reveal_strlit("aac");
    reveal_strlit("alac");
    reveal_strlit("ape");
    reveal_strlit("ar");
    reveal_strlit("arw");
    reveal_strlit("asc");
    reveal_strlit("avi");
    reveal_strlit("bak");
    reveal_strlit("bmp");
    reveal_strlit("bz2");
    reveal_strlit("cbr");
    reveal_strlit("cbz");
    reveal_strlit("class");
    reveal_strlit("djvu");
    reveal_strlit("dmg");
    reveal_strlit("doc");
    reveal_strlit("docx");
    reveal_strlit("dvi");
    reveal_strlit("elc");
    reveal_strlit("eml");
    reveal_strlit("eps");
    reveal_strlit("flac");
    reveal_strlit("flv");
    reveal_strlit("gif");
    reveal_strlit("gpg");
    reveal_strlit("gz");
    reveal_strlit("hi");
    reveal_strlit("ico");
    reveal_strlit("iso");
    reveal_strlit("jpeg");
    reveal_strlit("jpg");
    reveal_strlit("m2v");
    reveal_strlit("m4a");
    reveal_strlit("mkv");
    reveal_strlit("mov");
    reveal_strlit("mp3");
    reveal_strlit("mp4");
    reveal_strlit("mpeg");
    reveal_strlit("mpg");
    reveal_strlit("o");
    reveal_strlit("odp");
    reveal_strlit("ods");
    reveal_strlit("odt");
    reveal_strlit("ogg");
    reveal_strlit("ogm");
    reveal_strlit("ogv");
    reveal_strlit("par");
    reveal_strlit("pbm");
    reveal_strlit("pdf");
    reveal_strlit("pgm");
    reveal_strlit("pgp");
    reveal_strlit("png");
    reveal_strlit("pnm");
    reveal_strlit("ppm");
    reveal_strlit("ppt");
    reveal_strlit("pptx");
    reveal_strlit("ps");
    reveal_strlit("pyc");
    reveal_strlit("rar");
    reveal_strlit("raw");
    reveal_strlit("sig");
    reveal_strlit("signature");
    reveal_strlit("stl");
    reveal_strlit("svg");
    reveal_strlit("swn");
    reveal_strlit("swo");
    reveal_strlit("swp");
    reveal_strlit("tar");
    reveal_strlit("tc");
    reveal_strlit("tif");
    reveal_strlit("tiff");
    reveal_strlit("tmp");
    reveal_strlit("vob");
    reveal_strlit("wav");
    reveal_strlit("webp");
    reveal_strlit("wmv");
    reveal_strlit("xls");
    reveal_strlit("xlsx");
    reveal_strlit("xpm");
    reveal_strlit("zip");
    if e == "tmp"@ {
        assert(e.len() == 3 && e[0] == 't' && e[1] == 'm' && e[2] == 'p');
        assert(!is_image_ext(e));
        assert(!is_video_ext(e));
        assert(!is_music_ext(e));
        assert(!is_lossless_ext(e));
        assert(!is_crypto_ext(e));
        assert(!is_document_ext(e));
        assert(!is_compressed_ext(e));
    }
    if e == "swp"@ {
        assert(e.len() == 3 && e[0] == 's' && e[1] == 'w' && e[2] == 'p');
        assert(!is_image_ext(e));
        assert(!is_video_ext(e));
        assert(!is_music_ext(e));
        assert(!is_lossless_ext(e));
        assert(!is_crypto_ext(e));
        assert(!is_document_ext(e));
        assert(!is_compressed_ext(e));
    }
    if e == "swo"@ {
        assert(e.len() == 3 && e[0] == 's' && e[1] == 'w' && e[2] == 'o');
        assert(!is_image_ext(e));
        assert(!is_video_ext(e));
        assert(!is_music_ext(e));
        assert(!is_lossless_ext(e));
        assert(!is_crypto_ext(e));
        assert(!is_document_ext(e));
        assert(!is_compressed_ext(e));
    }
    if e == "swn"@ {
        assert(e.len() == 3 && e[0] == 's' && e[1] == 'w' && e[2] == 'n');
        assert(!is_image_ext(e));
        assert(!is_video_ext(e));
        assert(!is_music_ext(e));
        assert(!is_lossless_ext(e));
        assert(!is_crypto_ext(e));
        assert(!is_document_ext(e));
        assert(!is_compressed_ext(e));
    }
    if e == "bak"@ {
        assert(e.len() == 3 && e[0] == 'b' && e[1] == 'a' && e[2] == 'k');
        assert(!is_image_ext(e));
        assert(!is_video_ext(e));
        assert(!is_music_ext(e));
        assert(!is_lossless_ext(e));
        assert(!is_crypto_ext(e));
        assert(!is_document_ext(e));
        assert(!is_compressed_ext(e));
    }
}

/// A compiled file (class, elc, hi, o, pyc) is shown as compiled when none
/// of the files it is compiled from is in its directory, and as temporary
/// when one of them is.
#[verifier::spinoff_prover]
#[verifier::rlimit(50)]
pub proof fn law_compiled_extensions(name: Seq<char>, e: Seq<char>, dir: Seq<Seq<char>>)
    requires
        raw_extension_of(name) == Some(e),
        !is_readme_name(name),
        !is_tmpfile_name(name),
        e == "class"@ ||
        e == "elc"@ ||
        e == "hi"@ ||
        e == "o"@ ||
        e == "pyc"@,
    ensures
        (forall|k: int| 0 <= k < raw_source_files_of(name).len() ==> !dir.contains(#[trigger] raw_source_files_of(name)[k]))
            ==> file_type_of(name, false, false, dir) == FileType::Compiled,
        (exists|k: int| 0 <= k < raw_source_files_of(name).len() && dir.contains(#[trigger] raw_source_files_of(name)[k]))
            ==> file_type_of(name, false, false, dir) == FileType::Temp,
{
    reveal_strlit("7z");
    reveal_strlit("Z");
    reveal_strlit("a");
    reveal_strlit("aac");
    reveal_strlit("alac");
    reveal_strlit("ape");
    reveal_strlit("ar");
    reveal_strlit("arw");
    reveal_strlit("asc");
    reveal_strlit("avi");
    reveal_strlit("bak");
    reveal_strlit("bmp");
    reveal_strlit("bz2");
    reveal_strlit("cbr");
    reveal_strlit("cbz");
    reveal_strlit("class");
    reveal_strlit("djvu");
    reveal_strlit("dmg");
    reveal_strlit("doc");
    reveal_strlit("docx");
    reveal_strlit("dvi");
    reveal_strlit("elc");
    reveal_strlit("eml");
    reveal_strlit("eps");
    reveal_strlit("flac");
    reveal_strlit("flv");
    reveal_strlit("gif");
    reveal_strlit("gpg");
    reveal_strlit("gz");
    reveal_strlit("hi");
    reveal_strlit("ico");
    reveal_strlit("iso");
    reveal_strlit("jpeg");
    reveal_strlit("jpg");
    reveal_strlit("m2v");
    reveal_strlit("m4a");
    reveal_strlit("mkv");
    reveal_strlit("mov");
    reveal_strlit("mp3");
    reveal_strlit("mp4");
    reveal_strlit("mpeg");
    reveal_strlit("mpg");
    reveal_strlit("o");
    reveal_strlit("odp");
    reveal_strlit("ods");
    reveal_strlit("odt");
    reveal_strlit("ogg");
    reveal_strlit("ogm");
    reveal_strlit("ogv");
    reveal_strlit("par");
    reveal_strlit("pbm");
    reveal_strlit("pdf");
    reveal_strlit("pgm");
    reveal_strlit("pgp");
    reveal_strlit("png");
    reveal_strlit("pnm");
    reveal_strlit("ppm");
    reveal_strlit("ppt");
    reveal_strlit("pptx");
    reveal_strlit("ps");
    reveal_strlit("pyc");
    reveal_strlit("rar");
    reveal_strlit("raw");
    reveal_strlit("sig");
    reveal_strlit("signature");
    reveal_strlit("stl");
    reveal_strlit("svg");
    reveal_strlit("swn");
    reveal_strlit("swo");
    reveal_strlit("swp");
    reveal_strlit("tar");
    reveal_strlit("tc");
    reveal_strlit("tif");
    reveal_strlit("tiff");
    reveal_strlit("tmp");
    reveal_strlit("vob");
    reveal_strlit("wav");
    reveal_strlit("webp");
    reveal_strlit("wmv");
    reveal_strlit("xls");
    reveal_strlit("xlsx");
    reveal_strlit("xpm");
    reveal_strlit("zip");
    reveal_strlit("java");
    reveal_strlit("el");
    reveal_strlit("hs");
    reveal_strlit("c");
    reveal_strlit("cpp");
    reveal_strlit("py");
    if e == "class"@ {
        assert(e.len() == 5 && e[0] == 'c' && e[1] == 'l' && e[2] == 'a' && e[3] == 's' && e[4] == 's');
        assert(!is_image_ext(e));
        assert(!is_video_ext(e));
        assert(!is_music_ext(e));
        assert(!is_lossless_ext(e));
        assert(!is_crypto_ext(e));
        assert(!is_document_ext(e));
        assert(!is_compressed_ext(e));
        assert(!is_temp_ext(e));
    }
    if e == "elc"@ {
        assert(e.len() == 3 && e[0] == 'e' && e[1] == 'l' && e[2] == 'c');
        assert(!is_image_ext(e));
        assert(!is_video_ext(e));
        assert(!is_music_ext(e));
        assert(!is_lossless_ext(e));
        assert(!is_crypto_ext(e));
        assert(!is_document_ext(e));
        assert(!is_compressed_ext(e));
        assert(!is_temp_ext(e));
    }
    if e == "hi"@ {
        assert(e.len() == 2 && e[0] == 'h' && e[1] == 'i');
        assert(!is_image_ext(e));
        assert(!is_video_ext(e));
        assert(!is_music_ext(e));
        assert(!is_lossless_ext(e));
        assert(!is_crypto_ext(e));
        assert(!is_document_ext(e));
        assert(!is_compressed_ext(e));
        assert(!is_temp_ext(e));
    }
    if e == "o"@ {
        assert(e.len() == 1 && e[0] == 'o');
        assert(!is_image_ext(e));
        assert(!is_video_ext(e));
        assert(!is_music_ext(e));
        assert(!is_lossless_ext(e));
        assert(!is_crypto_ext(e));
        assert(!is_document_ext(e));
        assert(!is_compressed_ext(e));
        assert(!is_temp_ext(e));
    }
    if e == "pyc"@ {
        assert(e.len() == 3 && e[0] == 'p' && e[1] == 'y' && e[2] == 'c');
        assert(!is_image_ext(e));
        assert(!is_video_ext(e));
        assert(!is_music_ext(e));
        assert(!is_lossless_ext(e));
        assert(!is_crypto_ext(e));
        assert(!is_document_ext(e));
        assert(!is_compressed_ext(e));
        assert(!is_temp_ext(e));
    }
}

/// Directories come first, then executables, then readmes: a directory is
/// shown as one whatever its name, an executable that is not a directory
/// likewise, and a plain file whose name starts with `README` is shown as
/// a file to read first. A plain file with no extension that is not a
/// readme is normal.
pub proof fn law_kind_precedence(name: Seq<char>, executable: bool, dir: Seq<Seq<char>>)
    ensures
        file_type_of(name, true, executable, dir) == FileType::Directory,
        file_type_of(name, false, true, dir) == FileType::Executable,
        is_readme_name(name) ==> file_type_of(name, false, false, dir) == FileType::Immediate,
        !is_readme_name(name) && raw_extension_of(name) is None ==> file_type_of(name, false, false, dir) == FileType::Normal,
{
}

} // verus!
