use vertretung::date::Date;
use vertretung::index::{links_in, pdf_links};
use vertretung::weeks::{
    is_power_of_two, read_tokens, Compared, ConvertedOption, FirstAndLast, WeekZyklus,
    WeekZyklusList, Zyklus,
};

fn date(day: u32, month: u32, year: i32) -> Date {
    Date { year, month, day }
}

fn week(start: Date, end: Date, zyklus: Zyklus) -> WeekZyklus {
    WeekZyklus { start, end, zyklus }
}

fn filler() -> WeekZyklus {
    week(date(31, 12, 262143), date(31, 12, 262143), Zyklus::I)
}

fn object(name: &str) -> lopdf::Object {
    lopdf::Object::Name(name.as_bytes().to_vec())
}

/// A PDF document of one page that shows `lines`, one below the other.
fn pdf_of(lines: &[&str]) -> Vec<u8> {
    let mut doc = lopdf::Document::with_version("1.5");
    let pages_id = doc.new_object_id();
    let mut font = lopdf::Dictionary::new();
    font.set("Type", object("Font"));
    font.set("Subtype", object("Type1"));
    font.set("BaseFont", object("Courier"));
    let font_id = doc.add_object(font);
    let mut fonts = lopdf::Dictionary::new();
    fonts.set("F1", font_id);
    let mut resources = lopdf::Dictionary::new();
    resources.set("Font", fonts);
    let resources_id = doc.add_object(resources);
    let mut operations = vec![
        lopdf::content::Operation::new("BT", vec![]),
        lopdf::content::Operation::new("Tf", vec![object("F1"), 12.into()]),
        lopdf::content::Operation::new("TL", vec![14.into()]),
        lopdf::content::Operation::new("Td", vec![50.into(), 700.into()]),
    ];
    for line in lines {
        operations.push(lopdf::content::Operation::new(
            "Tj",
            vec![lopdf::Object::string_literal(*line)],
        ));
        operations.push(lopdf::content::Operation::new("T*", vec![]));
    }
    operations.push(lopdf::content::Operation::new("ET", vec![]));
    let content = lopdf::content::Content { operations };
    let content_id = doc.add_object(lopdf::Stream::new(
        lopdf::Dictionary::new(),
        content.encode().unwrap(),
    ));
    let mut page = lopdf::Dictionary::new();
    page.set("Type", object("Page"));
    page.set("Parent", pages_id);
    page.set("Contents", content_id);
    let page_id = doc.add_object(page);
    let mut pages = lopdf::Dictionary::new();
    pages.set("Type", object("Pages"));
    pages.set("Kids", vec![page_id.into()]);
    pages.set("Count", 1);
    pages.set("Resources", resources_id);
    pages.set("MediaBox", vec![0.into(), 0.into(), 595.into(), 842.into()]);
    doc.objects.insert(pages_id, lopdf::Object::Dictionary(pages));
    let mut catalog = lopdf::Dictionary::new();
    catalog.set("Type", object("Catalog"));
    catalog.set("Pages", pages_id);
    let catalog_id = doc.add_object(catalog);
    doc.trailer.set("Root", catalog_id);
    let mut bytes = Vec::new();
    doc.save_to(&mut bytes).unwrap();
    bytes
}

#[test]
fn dates_parse_as_day_month_year() {
    assert_eq!(Date::parse("03.09.2024"), Some(date(3, 9, 2024)));
    assert_eq!(Date::parse("31.12.1999"), Some(date(31, 12, 1999)));
    assert_eq!(Date::parse("31.02.2024"), None);
    assert_eq!(Date::parse("2024-09-03"), None);
    assert_eq!(Date::parse("Dienstag"), None);
    assert_eq!(Date::parse(""), None);
}

#[test]
fn dates_are_ordered_by_year_month_day() {
    let days = [date(31, 12, 2023), date(1, 1, 2024), date(31, 1, 2024), date(1, 2, 2024)];
    for i in 0..days.len() {
        for j in 0..days.len() {
            assert_eq!(days[i].is_before(&days[j]), i < j);
            assert_eq!(days[i].is_at_most(&days[j]), i <= j);
        }
    }
    assert!(date(14, 9, 2024).is_before(&Date::far_future()));
    assert_eq!(Date::far_future(), date(31, 12, 262143));
}

#[test]
fn cycle_markers_are_i_and_ii() {
    assert_eq!(Zyklus::from_str("I"), Some(Zyklus::I));
    assert_eq!(Zyklus::from_str("II"), Some(Zyklus::II));
    assert_eq!(Zyklus::from_str("III"), None);
    assert_eq!(Zyklus::from_str(""), None);
    assert_eq!(Zyklus::from_str("i"), None);
    assert_eq!(Zyklus::from_str(" I"), None);
    assert_eq!(Zyklus::default(), Zyklus::I);
}

#[test]
fn first_and_last_keeps_the_first_and_the_latest() {
    let mut days: FirstAndLast<u32> = FirstAndLast::new();
    assert_eq!((days.first, days.last), (None, None));
    days.push(4);
    assert_eq!((days.first, days.last), (Some(4), Some(4)));
    days.push(9);
    days.push(2);
    assert_eq!((days.first, days.last), (Some(4), Some(2)));
    days.clear();
    assert_eq!((days.first, days.last), (None, None));
    days.push(7);
    assert_eq!((days.first, days.last), (Some(7), Some(7)));
}

#[test]
fn a_line_is_a_date_a_cycle_a_reset_or_nothing() {
    assert_eq!(ConvertedOption::convert("01.09.2024"), ConvertedOption::Date(date(1, 9, 2024)));
    assert_eq!(ConvertedOption::convert("01.09.2024   "), ConvertedOption::Date(date(1, 9, 2024)));
    assert_eq!(ConvertedOption::convert("I"), ConvertedOption::Zyklus(Zyklus::I));
    assert_eq!(ConvertedOption::convert("II  "), ConvertedOption::Zyklus(Zyklus::II));
    assert_eq!(ConvertedOption::convert("36"), ConvertedOption::Reset);
    assert_eq!(ConvertedOption::convert("-4 "), ConvertedOption::Reset);
    assert_eq!(ConvertedOption::convert("2147483648"), ConvertedOption::Nothing);
    assert_eq!(ConvertedOption::convert("Woche"), ConvertedOption::Nothing);
    assert_eq!(ConvertedOption::convert(" I"), ConvertedOption::Nothing);
    assert_eq!(ConvertedOption::convert(""), ConvertedOption::Nothing);
}

#[test]
fn classify_prefers_the_date() {
    let text: Vec<char> = "II".chars().collect();
    assert_eq!(
        ConvertedOption::classify(&text, Some(date(1, 9, 2024))),
        ConvertedOption::Date(date(1, 9, 2024))
    );
    assert_eq!(ConvertedOption::classify(&text, None), ConvertedOption::Zyklus(Zyklus::II));
    let number: Vec<char> = "12".chars().collect();
    assert_eq!(ConvertedOption::classify(&number, None), ConvertedOption::Reset);
    let word: Vec<char> = "Ferien".chars().collect();
    assert_eq!(ConvertedOption::classify(&word, None), ConvertedOption::Nothing);
}

#[test]
fn read_tokens_reads_line_by_line() {
    assert_eq!(
        read_tokens("01.09.2024\n07.09.2024 \nI\n\nSeite\n3\n"),
        vec![
            ConvertedOption::Date(date(1, 9, 2024)),
            ConvertedOption::Date(date(7, 9, 2024)),
            ConvertedOption::Zyklus(Zyklus::I),
            ConvertedOption::Nothing,
            ConvertedOption::Nothing,
            ConvertedOption::Reset,
        ]
    );
    assert_eq!(read_tokens(""), vec![]);
}

#[test]
fn add_tokens_pairs_first_and_last_date_with_the_cycle() {
    let mut list = WeekZyklusList::empty();
    list.add_tokens(&vec![
        ConvertedOption::Zyklus(Zyklus::II),
        ConvertedOption::Date(date(1, 9, 2024)),
        ConvertedOption::Date(date(3, 9, 2024)),
        ConvertedOption::Nothing,
        ConvertedOption::Date(date(7, 9, 2024)),
        ConvertedOption::Zyklus(Zyklus::I),
        ConvertedOption::Date(date(8, 9, 2024)),
        ConvertedOption::Reset,
        ConvertedOption::Zyklus(Zyklus::I),
        ConvertedOption::Date(date(15, 9, 2024)),
        ConvertedOption::Zyklus(Zyklus::II),
    ]);
    assert_eq!(
        list.0,
        vec![
            week(date(1, 9, 2024), date(7, 9, 2024), Zyklus::I),
            week(date(15, 9, 2024), date(15, 9, 2024), Zyklus::II),
        ]
    );
}

#[test]
fn a_cycle_marker_leaves_no_date_pending() {
    let mut list = WeekZyklusList::empty();
    list.add_tokens(&vec![
        ConvertedOption::Date(date(1, 9, 2024)),
        ConvertedOption::Date(date(7, 9, 2024)),
        ConvertedOption::Zyklus(Zyklus::I),
        ConvertedOption::Zyklus(Zyklus::II),
        ConvertedOption::Date(date(8, 9, 2024)),
        ConvertedOption::Date(date(14, 9, 2024)),
        ConvertedOption::Zyklus(Zyklus::II),
        ConvertedOption::Date(date(15, 9, 2024)),
    ]);
    assert_eq!(
        list.0,
        vec![
            week(date(1, 9, 2024), date(7, 9, 2024), Zyklus::I),
            week(date(8, 9, 2024), date(14, 9, 2024), Zyklus::II),
        ]
    );
    assert_eq!(list.get(&date(3, 9, 2024)), Some(Zyklus::I));
    assert_eq!(list.get(&date(8, 9, 2024)), Some(Zyklus::II));
}

#[test]
fn add_text_appends_to_what_is_there() {
    let mut list = WeekZyklusList(vec![week(date(1, 1, 2024), date(5, 1, 2024), Zyklus::II)]);
    list.add_text("01.09.2024\n07.09.2024\nI\n08.09.2024\n14.09.2024\nII\n");
    assert_eq!(
        list.0,
        vec![
            week(date(1, 1, 2024), date(5, 1, 2024), Zyklus::II),
            week(date(1, 9, 2024), date(7, 9, 2024), Zyklus::I),
            week(date(8, 9, 2024), date(14, 9, 2024), Zyklus::II),
        ]
    );
}

#[test]
fn power_of_two_is_std_power_of_two() {
    for n in 0usize..=1025 {
        assert_eq!(is_power_of_two(n), n.is_power_of_two(), "{}", n);
    }
    assert!(is_power_of_two(1 << 40));
    assert!(!is_power_of_two((1 << 40) + 1));
    assert!(!is_power_of_two(usize::MAX));
}

#[test]
fn pad_fills_up_to_the_next_power_of_two() {
    for (n, padded) in [(0usize, 1usize), (1, 1), (2, 2), (3, 4), (4, 4), (5, 8), (8, 8), (9, 16)] {
        let entry = week(date(1, 9, 2024), date(7, 9, 2024), Zyklus::II);
        let mut list = WeekZyklusList(vec![entry; n]);
        list.pad();
        assert_eq!(list.0.len(), padded, "{}", n);
        for k in 0..padded {
            assert_eq!(list.0[k], if k < n { entry } else { filler() });
        }
    }
}

#[test]
fn compare_tells_the_side() {
    let entry = week(date(1, 9, 2024), date(7, 9, 2024), Zyklus::II);
    assert_eq!(entry.compare(&date(31, 8, 2024)), Compared::Smaller);
    assert_eq!(entry.compare(&date(1, 9, 2024)), Compared::Right(Zyklus::II));
    assert_eq!(entry.compare(&date(4, 9, 2024)), Compared::Right(Zyklus::II));
    assert_eq!(entry.compare(&date(7, 9, 2024)), Compared::Right(Zyklus::II));
    assert_eq!(entry.compare(&date(8, 9, 2024)), Compared::Bigger);
}

#[test]
fn every_day_of_every_range_is_found_with_its_cycle() {
    for n in 0u32..=9 {
        let mut list = WeekZyklusList::empty();
        for k in 0..n {
            let cycle = if k % 2 == 0 { Zyklus::I } else { Zyklus::II };
            list.0.push(week(date(1, k + 1, 2024), date(20, k + 1, 2024), cycle));
        }
        list.pad();
        for k in 0..n {
            let cycle = if k % 2 == 0 { Zyklus::I } else { Zyklus::II };
            assert_eq!(list.get(&date(1, k + 1, 2024)), Some(cycle), "{} of {}", k, n);
            assert_eq!(list.get(&date(11, k + 1, 2024)), Some(cycle));
            assert_eq!(list.get(&date(20, k + 1, 2024)), Some(cycle));
            assert_eq!(list.get(&date(21, k + 1, 2024)), None);
        }
        assert_eq!(list.get(&date(31, 12, 2023)), None);
        assert_eq!(list.get(&date(1, 1, 2030)), None);
    }
}

#[test]
fn the_padding_date_is_found_where_the_calendar_is_padded() {
    let mut list = WeekZyklusList(vec![
        week(date(1, 9, 2024), date(7, 9, 2024), Zyklus::II),
        week(date(8, 9, 2024), date(14, 9, 2024), Zyklus::I),
        week(date(15, 9, 2024), date(21, 9, 2024), Zyklus::II),
    ]);
    list.pad();
    assert_eq!(list.get(&Date::far_future()), Some(Zyklus::I));
    assert_eq!(WeekZyklusList::empty().get(&Date::far_future()), None);
}

#[test]
fn from_texts_reads_each_document_on_its_own() {
    let texts = vec![
        "01.09.2024\n07.09.2024\nI\n08.09.2024".to_string(),
        "14.09.2024\nII\n15.09.2024\n21.09.2024\nI\n".to_string(),
        "22.09.2024\n28.09.2024\nII".to_string(),
    ];
    let list = WeekZyklusList::from_texts(&texts);
    assert_eq!(
        list.0,
        vec![
            week(date(1, 9, 2024), date(7, 9, 2024), Zyklus::I),
            week(date(14, 9, 2024), date(14, 9, 2024), Zyklus::II),
            week(date(15, 9, 2024), date(21, 9, 2024), Zyklus::I),
            week(date(22, 9, 2024), date(28, 9, 2024), Zyklus::II),
        ]
    );
    assert_eq!(WeekZyklusList::from_texts(&vec![]).0, vec![filler()]);
}

#[test]
fn add_reads_the_first_page_of_a_pdf() {
    let pdf = pdf_of(&["01.09.2024", "07.09.2024", "I", "08.09.2024", "14.09.2024", "II"]);
    let mut list = WeekZyklusList::empty();
    assert_eq!(list.add(&pdf), Ok(()));
    assert_eq!(
        list.0,
        vec![
            week(date(1, 9, 2024), date(7, 9, 2024), Zyklus::I),
            week(date(8, 9, 2024), date(14, 9, 2024), Zyklus::II),
        ]
    );
    assert_eq!(list.get(&date(3, 9, 2024)), Some(Zyklus::I));
    assert_eq!(list.get(&date(10, 9, 2024)), Some(Zyklus::II));
}

#[test]
fn add_fails_on_what_is_no_pdf() {
    let mut list = WeekZyklusList(vec![week(date(1, 9, 2024), date(7, 9, 2024), Zyklus::I)]);
    assert!(list.add(b"01.09.2024\n07.09.2024\nI\n").is_err());
    assert_eq!(list.0, vec![week(date(1, 9, 2024), date(7, 9, 2024), Zyklus::I)]);
}

#[test]
fn new_builds_the_padded_calendar_of_all_documents() {
    let pdfs = vec![
        pdf_of(&["01.09.2024", "07.09.2024", "I", "08.09.2024", "14.09.2024", "II", "12"]),
        pdf_of(&["15.09.2024", "21.09.2024", "I"]),
    ];
    let list = WeekZyklusList::new(&pdfs).unwrap();
    assert_eq!(
        list.0,
        vec![
            week(date(1, 9, 2024), date(7, 9, 2024), Zyklus::I),
            week(date(8, 9, 2024), date(14, 9, 2024), Zyklus::II),
            week(date(15, 9, 2024), date(21, 9, 2024), Zyklus::I),
            filler(),
        ]
    );
    assert_eq!(list.get(&date(10, 9, 2024)), Some(Zyklus::II));
    assert_eq!(WeekZyklusList::new(&vec![]).unwrap().0, vec![filler()]);
}

#[test]
fn new_fails_if_one_document_cannot_be_read() {
    let pdfs = vec![pdf_of(&["01.09.2024", "07.09.2024", "I"]), b"no pdf".to_vec()];
    assert!(WeekZyklusList::new(&pdfs).is_err());
}

#[test]
fn links_in_keeps_the_targets_that_end_in_pdf() {
    let groups = vec![
        vec![Some("a.pdf".to_string()), None, Some("b.html".to_string())],
        vec![],
        vec![Some(".pdf".to_string()), Some("c.pdf?x".to_string()), Some("d/e.pdf".to_string())],
    ];
    assert_eq!(links_in(&groups), vec!["a.pdf", ".pdf", "d/e.pdf"]);
    assert_eq!(links_in(&vec![]), Vec::<String>::new());
}

#[test]
fn pdf_links_finds_the_links_in_the_cells_of_the_index() {
    let page = "<html><body><table>\
        <tr><td class=\"FileListCellText\"><a href=\"index.php?dir=/up\">..</a></td></tr>\
        <tr><td class=\"FileListCellText\"><a href=\"files/Blockplan_1.pdf\">one</a>\
        <a name=\"x\">none</a><a href=\"files/Blockplan_2.pdf\">two</a></td></tr>\
        <tr><td class=\"Other\"><a href=\"files/Other.pdf\">other</a></td></tr>\
        <tr><td class=\"FileListCellText\">text</td></tr>\
        </table></body></html>";
    assert_eq!(
        pdf_links(page),
        Ok(vec!["files/Blockplan_1.pdf".to_string(), "files/Blockplan_2.pdf".to_string()])
    );
    assert_eq!(pdf_links(""), Ok(vec![]));
}
