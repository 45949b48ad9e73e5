use vertretung::lesson::Lesson;
use vertretung::plan::Day;
use vertretung::report::is_plain;

fn lesson(time: i64, subject: &str, room: &str, teacher: &str, vtype: &str, message: &str) -> Lesson {
    Lesson {
        class: "10a".to_string(),
        time,
        subject: subject.to_string(),
        room: room.to_string(),
        teacher: teacher.to_string(),
        vtype: vtype.to_string(),
        message: message.to_string(),
    }
}

fn strings(cells: &[&str]) -> Vec<String> {
    cells.iter().map(|c| c.to_string()).collect()
}

fn printed(titles: &[&str], rows: &[Vec<String>]) -> String {
    let mut table = prettytable::Table::new();
    table.set_titles(prettytable::Row::new(
        titles.iter().map(|t| prettytable::Cell::new(t)).collect(),
    ));
    for row in rows {
        table.add_row(prettytable::Row::new(
            row.iter().map(|c| prettytable::Cell::new(c)).collect(),
        ));
    }
    table.to_string()
}

#[test]
fn the_row_of_a_lesson_leaves_out_the_class() {
    assert_eq!(
        lesson(3, "Ma", "A1", "Mue", "Ausfall", "frei").to_row(),
        strings(&["3", "Ma", "A1", "Mue", "Ausfall", "frei"])
    );
    assert_eq!(lesson(10, "", "", "", "", "").to_row(), strings(&["10", "", "", "", "", ""]));
}

#[test]
fn a_lesson_is_a_change_if_it_says_so() {
    assert!(lesson(3, "Ma", "A1", "Mue", "Ausfall", "").is_change());
    assert!(lesson(3, "Ma", "A1", "Mue", "", "frei").is_change());
    assert!(!lesson(3, "Ma", "A1", "Mue", "", "").is_change());
}

#[test]
fn the_card_of_a_lesson_holds_the_fields_with_a_value() {
    assert_eq!(
        lesson(3, "Ma", "", "Mue", "", "frei").to_fields(),
        vec![
            ("3.".to_string(), " ".to_string(), false),
            ("Fach".to_string(), "Ma".to_string(), true),
            ("Lehrer".to_string(), "Mue".to_string(), true),
            ("Mitteilung".to_string(), "frei".to_string(), true),
        ]
    );
    assert_eq!(
        lesson(10, "", "A1", "", "Ausfall", "").to_fields(),
        vec![
            ("10.".to_string(), " ".to_string(), false),
            ("Raum".to_string(), "A1".to_string(), true),
            ("Art".to_string(), "Ausfall".to_string(), true),
        ]
    );
}

#[test]
fn the_table_of_a_day_has_a_row_for_each_lesson() {
    let mut day = Day::new("Montag 02.09.2024");
    assert_eq!(day.to_table(), Vec::<Vec<String>>::new());
    day.lessons[2] = vec![lesson(3, "Ma", "A1", "Mue", "Ausfall", ""), lesson(3, "De", "B2", "Scz", "", "")];
    day.lessons[0] = vec![lesson(1, "En", "C3", "Abc", "", "")];
    day.lessons[9] = vec![lesson(10, "Sp", "TH", "Xyz", "Vertretung", "Halle 2")];
    assert_eq!(
        day.to_table(),
        vec![
            strings(&["1", "En", "C3", "Abc", "", ""]),
            strings(&["3", "Ma", "A1", "Mue", "Ausfall", ""]),
            strings(&["3", "De", "B2", "Scz", "", ""]),
            strings(&["10", "Sp", "TH", "Xyz", "Vertretung", "Halle 2"]),
        ]
    );
}

#[test]
fn the_message_of_a_day_is_its_name_and_its_table() {
    let titles = ["Stunde", "Fach", "Raum", "Lehrer", "Type", "Mitteilung"];
    let mut day = Day::new("Montag 02.09.2024");
    assert_eq!(day.to_string(), format!("```Montag 02.09.2024\n{}```", printed(&titles, &[])));
    day.lessons[2] = vec![lesson(3, "Ma", "A1", "Mue", "Ausfall", "")];
    day.lessons[4] = vec![lesson(5, "De", "B2", "Scz", "", "Raum\ngetauscht")];
    let rows = vec![
        strings(&["3", "Ma", "A1", "Mue", "Ausfall", ""]),
        strings(&["5", "De", "B2", "Scz", "", "Raum\ngetauscht"]),
    ];
    let message = day.to_string();
    assert_eq!(message, format!("```Montag 02.09.2024\n{}```", printed(&titles, &rows)));
    assert!(message.contains("| Stunde | Fach | Raum | Lehrer | Type    | Mitteilung |"));
    assert!(message.contains("| 3      | Ma   | A1   | Mue    | Ausfall |            |"));
}

#[test]
fn a_text_is_plain_without_the_escape_character() {
    assert!(is_plain(""));
    assert!(is_plain("Raum\ngetauscht \u{644}\u{627}"));
    assert!(!is_plain("\u{1b}"));
    assert!(!is_plain("a\u{1b}[31m"));
    assert!(!is_plain("\u{1b}[\u{644}\u{627}\u{644}\u{627}"));
}

#[test]
fn a_day_is_printable_if_its_lessons_are_plain() {
    let mut day = Day::new("Montag \u{1b}[0m");
    assert!(day.is_printable());
    day.lessons[9] = vec![lesson(10, "Sp", "TH", "Xyz", "Vertretung", "Halle 2")];
    assert!(day.is_printable());
    assert!(lesson(1, "Ma", "A1", "Mue", "", "").is_printable());
    let broken = [
        lesson(1, "\u{1b}", "A1", "Mue", "", ""),
        lesson(1, "Ma", "A\u{1b}1", "Mue", "", ""),
        lesson(1, "Ma", "A1", "Mue\u{1b}", "", ""),
        lesson(1, "Ma", "A1", "Mue", "\u{1b}[", ""),
        lesson(1, "Ma", "A1", "Mue", "", "\u{1b}[\u{644}\u{627}\u{644}\u{627}"),
    ];
    for (i, bad) in broken.into_iter().enumerate() {
        assert!(!bad.is_printable());
        let mut day = Day::new("Montag");
        day.lessons[0] = vec![lesson(1, "Ma", "A1", "Mue", "", "")];
        day.lessons[i] = vec![lesson(2, "De", "B2", "Scz", "", ""), bad];
        assert!(!day.is_printable());
    }
    let mut classes = lesson(1, "Ma", "A1", "Mue", "", "");
    classes.class = "\u{1b}".to_string();
    assert!(classes.is_printable());
    let mut day = Day::new("Montag");
    day.lessons[3] = vec![classes];
    assert!(day.is_printable());
    assert!(day.to_string().contains("| 1      | Ma"));
}
