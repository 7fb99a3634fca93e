use exa::colours::{strip_formatting, Colour, Style, StyleStruct};
use exa::column::{Alignment, Cell, Column};
use exa::output::table::{SizeFormat, TimeType};

#[test]
fn painting() {
    assert_eq!(Colour::Red.paint("hi"), "\x1B[31mhi\x1B[0m");
    assert_eq!(Colour::Fixed(133).paint("hi"), "\x1B[38;5;133mhi\x1B[0m");
    assert_eq!(Style::Plain.paint("hi"), "hi");
    assert_eq!(Colour::Blue.bold().paint("d"), "\x1B[1;34md\x1B[0m");
    assert_eq!(Colour::Red.on(Colour::Yellow).paint("x"), "\x1B[43;31mx\x1B[0m");
    assert_eq!(Colour::Yellow.underline().paint("u"), "\x1B[4;33mu\x1B[0m");
}

#[test]
fn bold_and_underline_replace_each_other() {
    let s = Colour::Yellow.bold().underline();
    assert_eq!(s, Style::Style(StyleStruct { foreground: Colour::Yellow, background: None, bold: false, underline: true }));
    assert_eq!(Style::Plain.bold(), Colour::White.bold());
}

#[test]
fn stripping_formatting() {
    let painted = Colour::Red.bold().paint("warning");
    assert_eq!(strip_formatting(&painted), "warning");
    assert_eq!(strip_formatting(&"plain".to_string()), "plain");
    let two = format!("{} {}", Colour::Green.paint("a"), Colour::Fixed(244).paint("b"));
    assert_eq!(strip_formatting(&two), "a b");
}

#[test]
fn stripping_stops_at_the_nearest_m_and_not_across_lines() {
    assert_eq!(strip_formatting(&"\x1B[mm!".to_string()), "!");
    assert_eq!(strip_formatting(&"\x1B[m".to_string()), "\x1B[m");
    assert_eq!(strip_formatting(&"\x1B[1\nm".to_string()), "\x1B[1\nm");
    assert_eq!(strip_formatting(&"\x1B[1;31mred\x1B[0m and more".to_string()), "red and more");
    assert_eq!(strip_formatting(&"x\x1B[31my".to_string()), "xy");
}

#[test]
fn columns() {
    assert_eq!(Column::FileSize(SizeFormat::DecimalBytes).alignment(), Alignment::Right);
    assert_eq!(Column::User.alignment(), Alignment::Left);
    assert_eq!(Column::Timestamp(TimeType::Modified).header(), "Date Modified");
    assert_eq!(Column::Inode.header(), "inode");
    assert_eq!(Alignment::Left.pad_string(&"ab".to_string(), 3), "ab   ");
    assert_eq!(Alignment::Right.pad_string(&"ab".to_string(), 2), "  ab");
}

#[test]
fn cells_measure_what_is_shown() {
    let c = Cell::paint(Colour::Red.normal(), "日本");
    assert_eq!(c.length, 4);
    assert_eq!(c.text, "\x1B[31m日本\x1B[0m");
    let mut e = Cell::empty();
    e.add_spaces(2);
    e.append(&Cell::paint(Style::Plain, "x"));
    assert_eq!(e, Cell { length: 3, text: "  x".to_string() });
}

#[test]
fn stripping_undoes_painting() {
    let t = "file\nname m[";
    let styles = [
        Style::Plain,
        Style::Foreground(Colour::Fixed(133)),
        Colour::Yellow.bold().underline(),
        Colour::Red.bold().on(Colour::Fixed(244)),
    ];
    for s in &styles {
        assert_eq!(strip_formatting(&s.paint(t)), t);
    }
    assert_eq!(strip_formatting(&Colour::Cyan.paint(t)), t);
}
