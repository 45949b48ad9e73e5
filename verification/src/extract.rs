//! From the page of one substitution day to the day itself.

use crate::date::{parsed_date, Date, DATE_FORMAT};
use crate::failure::ParseFailure;
use crate::html::{
    row_texts, select, select_rows, selected, selected_rows, table_texts, texts, Row,
};
use crate::lesson::{all_wf, decimal, unique, unique_lessons, views, Lesson, LessonView};
use crate::text::{
    all_digits, chars_of, contains, digits_value, first_token, first_word, has_part, i64_literal,
    last_token, last_word, parse_i64, strip_trailing, trailing_run, trim, trimmed,
};
use crate::weeks::{found_in, WeekZyklus, WeekZyklusList, Zyklus};
use vstd::prelude::*;

verus! {

/// The selector of the heading that names the day.
pub const HEADING: &'static str = "h1.list-table-caption";

/// The selector of the body of the table of substitutions.
pub const TABLE: &'static str = "tbody";

/// The selector of a row of the table.
pub const TABLE_ROW: &'static str = "tr";

/// The selector of a cell of a row.
pub const TABLE_CELL: &'static str = "td";

/// The text that stands in a cell for "as in the row above".
pub open spec fn blank() -> Seq<char> {
    seq!['&', 'n', 'b', 's', 'p', ';']
}

/// One substitution day: its label (weekday and date), the cycle of its
/// week and its lessons.
#[derive(Debug, PartialEq, Eq)]
pub struct VDay(pub String, pub Zyklus, pub Vec<Lesson>);

/// What a `VDay` says.
pub struct VDayView {
    pub label: Seq<char>,
    pub zyklus: Zyklus,
    pub lessons: Seq<LessonView>,
}

impl View for VDay {
    type V = VDayView;

    open spec fn view(&self) -> VDayView {
        VDayView { label: self.0@, zyklus: self.1, lessons: views(self.2@) }
    }
}

impl VDayView {
    /// Whether the label names a weekday and each lesson has a period of the day.
    pub open spec fn wf(self) -> bool {
        first_word(self.label) is Some && all_wf(self.lessons)
    }
}

impl Clone for VDay {
    fn clone(&self) -> (r: Self)
        ensures
            r@ == self@,
    {
        let mut lessons: Vec<Lesson> = Vec::new();
        let mut k: usize = 0;
        while k < self.2.len()
            invariant
                k <= self.2.len(),
                lessons@.len() == k,
                forall|j: int| 0 <= j < k ==> lessons@[j] == self.2@[j],
            decreases self.2.len() - k,
        {
            lessons.push(self.2[k].clone());
            k += 1;
        }
        assert(views(lessons@) =~= views(self.2@));
        VDay(self.0.clone(), self.1, lessons)
    }
}

/// What each day of `days` says.
pub open spec fn vday_views(days: Seq<VDay>) -> Seq<VDayView> {
    Seq::new(days.len(), |k: int| days[k]@)
}

impl VDay {
    /// Whether the label names a weekday and each lesson has a period of the day.
    pub open spec fn wf(&self) -> bool {
        self@.wf()
    }

    /// Whether the label names a weekday and each lesson has a period of the day.
    pub fn is_valid(&self) -> (r: bool)
        ensures
            r == self.wf(),
    {
        if first_token(self.0.as_str()).is_none() {
            return false;
        }
        let mut k: usize = 0;
        while k < self.2.len()
            invariant
                k <= self.2.len(),
                forall|j: int| 0 <= j < k ==> (#[trigger] views(self.2@)[j]).wf(),
            decreases self.2.len() - k,
        {
            if self.2[k].time < 1 || self.2[k].time > 10 {
                assert(!views(self.2@)[k as int].wf());
                return false;
            }
            k += 1;
        }
        true
    }
}

/// The label of the day: the first heading without the white space around it.
pub open spec fn label_of(headings: Seq<Seq<char>>) -> Option<Seq<char>> {
    if headings.len() > 0 {
        Some(trimmed(headings[0]))
    } else {
        None
    }
}

/// Each cell without the white space around it.
pub open spec fn trimmed_all(cells: Seq<Seq<char>>) -> Seq<Seq<char>> {
    Seq::new(cells.len(), |k: int| trimmed(cells[k]))
}

/// Whether `previous` has a column for each blank cell of `cells`.
pub open spec fn fillable(cells: Seq<Seq<char>>, previous: Seq<Seq<char>>) -> bool {
    forall|k: int| 0 <= k < cells.len() && contains(#[trigger] cells[k], blank()) ==> k < previous.len()
}

/// `cells` with each blank cell replaced by the same column of `previous`.
pub open spec fn filled(cells: Seq<Seq<char>>, previous: Seq<Seq<char>>) -> Seq<Seq<char>> {
    Seq::new(
        cells.len(),
        |k: int|
            if contains(cells[k], blank()) {
                previous[k]
            } else {
                cells[k]
            },
    )
}

/// The period that a cell writes: a number from 1 to 10, with or without
/// full stops behind it.
pub open spec fn written_period(cell: Seq<char>) -> Option<int> {
    match i64_literal(strip_trailing(cell, '.')) {
        Some(period) => if 1 <= period <= 10 {
            Some(period as int)
        } else {
            None
        },
        None => None,
    }
}

/// The lesson that the cells of a row write: class, period, subject, room,
/// teacher, kind of change and message. Cells beyond these seven count for
/// nothing.
pub open spec fn lesson_of(cells: Seq<Seq<char>>) -> Option<LessonView> {
    if cells.len() < 7 {
        None
    } else {
        match written_period(cells[1]) {
            Some(period) => Some(
                LessonView {
                    class: cells[0],
                    time: period,
                    subject: cells[2],
                    room: cells[3],
                    teacher: cells[4],
                    vtype: cells[5],
                    message: cells[6],
                },
            ),
            None => None,
        }
    }
}

/// The lesson of a row that follows the lesson `previous`. In a row whose
/// HTML holds a blank, each blank cell takes the value that the same column
/// has in `previous`.
pub open spec fn row_lesson(row: (Seq<char>, Seq<Seq<char>>), previous: Option<LessonView>) -> Option<
    LessonView,
> {
    let cells = trimmed_all(row.1);
    if contains(row.0, blank()) {
        match previous {
            Some(p) => if fillable(cells, p.columns()) {
                lesson_of(filled(cells, p.columns()))
            } else {
                None
            },
            None => None,
        }
    } else {
        lesson_of(cells)
    }
}

/// The lesson that stands last in `lessons`.
pub open spec fn last_of(lessons: Seq<LessonView>) -> Option<LessonView> {
    if lessons.len() > 0 {
        Some(lessons.last())
    } else {
        None
    }
}

/// The lessons of the rows of a table, or `None` if one of the rows writes none.
pub open spec fn lessons_in(rows: Seq<(Seq<char>, Seq<Seq<char>>)>) -> Option<Seq<LessonView>>
    decreases rows.len(),
{
    if rows.len() == 0 {
        Some(Seq::empty())
    } else {
        match lessons_in(rows.drop_last()) {
            Some(before) => match row_lesson(rows.last(), last_of(before)) {
                Some(lesson) => Some(before.push(lesson)),
                None => None,
            },
            None => None,
        }
    }
}

/// The characters of the text that marks a blank cell.
fn blank_mark() -> (r: Vec<char>)
    ensures
        r@ == blank(),
{
    let r = vec!['&', 'n', 'b', 's', 'p', ';'];
    assert(r@ == blank());
    r
}

/// Each cell without the white space around it.
pub fn trim_cells(cells: &Vec<String>) -> (r: Vec<String>)
    ensures
        texts(r@) == trimmed_all(texts(cells@)),
{
    let mut r: Vec<String> = Vec::new();
    let mut k: usize = 0;
    while k < cells.len()
        invariant
            k <= cells.len(),
            r@.len() == k,
            forall|j: int| 0 <= j < k ==> (#[trigger] r@[j])@ == trimmed(cells@[j]@),
        decreases cells.len() - k,
    {
        r.push(trim(cells[k].as_str()));
        k += 1;
    }
    r
}

/// `cells` with each blank cell replaced by the same column of `previous`,
/// or `None` if `previous` lacks a column for one of them.
pub fn fill_blanks(cells: &Vec<String>, previous: &Vec<String>) -> (r: Option<Vec<String>>)
    ensures
        match r {
            Some(f) => fillable(texts(cells@), texts(previous@)) && texts(f@) == filled(
                texts(cells@),
                texts(previous@),
            ),
            None => !fillable(texts(cells@), texts(previous@)),
        },
{
    let mark = blank_mark();
    let mut r: Vec<String> = Vec::new();
    let mut k: usize = 0;
    while k < cells.len()
        invariant
            k <= cells.len(),
            mark@ == blank(),
            r@.len() == k,
            forall|j: int|
                0 <= j < k && contains(#[trigger] texts(cells@)[j], blank()) ==> j < previous.len(),
            forall|j: int|
                0 <= j < k ==> (#[trigger] r@[j])@ == filled(texts(cells@), texts(previous@))[j],
        decreases cells.len() - k,
    {
        let cell = chars_of(cells[k].as_str());
        if has_part(&cell, &mark) {
            if k >= previous.len() {
                assert(contains(texts(cells@)[k as int], blank()));
                return None;
            }
            r.push(previous[k].clone());
        } else {
            r.push(cells[k].clone());
        }
        k += 1;
    }
    Some(r)
}

/// The lesson that the cells of a row write.
pub fn lesson_from(cells: &Vec<String>) -> (r: Option<Lesson>)
    ensures
        match r {
            Some(l) => lesson_of(texts(cells@)) == Some(l@),
            None => lesson_of(texts(cells@)) is None,
        },
{
    if cells.len() < 7 {
        return None;
    }
    let number = chars_of(cells[1].as_str());
    let end = trailing_run(&number, '.');
    let digits = crate::text::subvec(&number, 0, end);
    assert(digits@ == strip_trailing(texts(cells@)[1], '.'));
    match parse_i64(&digits) {
        Some(period) => {
            if period < 1 || period > 10 {
                return None;
            }
            Some(
                Lesson {
                    class: cells[0].clone(),
                    time: period,
                    subject: cells[2].clone(),
                    room: cells[3].clone(),
                    teacher: cells[4].clone(),
                    vtype: cells[5].clone(),
                    message: cells[6].clone(),
                },
            )
        },
        None => None,
    }
}

/// What the lesson `lesson` says, if there is one.
pub open spec fn lesson_view(lesson: Option<&Lesson>) -> Option<LessonView> {
    match lesson {
        Some(l) => Some(l@),
        None => None,
    }
}

/// The lesson of the row `row` that follows the lesson `previous`.
pub fn lesson_of_row(row: &Row, previous: Option<&Lesson>) -> (r: Option<Lesson>)
    ensures
        match r {
            Some(l) => row_lesson(row@, lesson_view(previous)) == Some(l@),
            None => row_lesson(row@, lesson_view(previous)) is None,
        },
{
    let cells = trim_cells(&row.cells);
    assert(texts(cells@) == trimmed_all(texts(row.cells@)));
    let mark = blank_mark();
    let html = chars_of(row.html.as_str());
    if has_part(&html, &mark) {
        match previous {
            Some(p) => {
                let columns = p.to_vec();
                match fill_blanks(&cells, &columns) {
                    Some(f) => lesson_from(&f),
                    None => None,
                }
            },
            None => None,
        }
    } else {
        lesson_from(&cells)
    }
}

/// The lessons of the rows of a table. It fails if one of the rows writes none.
pub fn lessons_of(rows: &Vec<Row>) -> (r: Result<Vec<Lesson>, ParseFailure>)
    ensures
        match r {
            Ok(lessons) => lessons_in(row_texts(rows@)) == Some(views(lessons@)) && all_wf(
                views(lessons@),
            ),
            Err(_) => lessons_in(row_texts(rows@)) is None,
        },
{
    let mut lessons: Vec<Lesson> = Vec::new();
    let mut k: usize = 0;
    let ghost all = row_texts(rows@);
    assert(all.take(0) == Seq::<(Seq<char>, Seq<Seq<char>>)>::empty());
    assert(views(lessons@) == Seq::<LessonView>::empty());
    while k < rows.len()
        invariant
            k <= rows.len(),
            all == row_texts(rows@),
            lessons_in(all.take(k as int)) == Some(views(lessons@)),
            all_wf(views(lessons@)),
        decreases rows.len() - k,
    {
        assert(all.take(k + 1).drop_last() == all.take(k as int));
        assert(all.take(k + 1).last() == rows@[k as int]@);
        let ghost before = views(lessons@);
        let found = if lessons.len() > 0 {
            assert(before.last() == lessons@[lessons.len() - 1]@);
            lesson_of_row(&rows[k], Some(&lessons[lessons.len() - 1]))
        } else {
            lesson_of_row(&rows[k], None)
        };
        match found {
            Some(lesson) => {
                lessons.push(lesson);
                assert(views(lessons@) == before.push(lesson@));
            },
            None => {
                proof {
                    lemma_lessons_in_fail(all, k + 1);
                }
                return Err(ParseFailure);
            },
        }
        k += 1;
    }
    assert(all.take(k as int) == all);
    Ok(lessons)
}

/// A table whose first `k` rows cannot all be read cannot be read.
pub proof fn lemma_lessons_in_fail(rows: Seq<(Seq<char>, Seq<Seq<char>>)>, k: int)
    requires
        0 <= k <= rows.len(),
        lessons_in(rows.take(k)) is None,
    ensures
        lessons_in(rows) is None,
    decreases rows.len(),
{
    if k < rows.len() {
        assert(rows.drop_last().take(k) == rows.take(k));
        lemma_lessons_in_fail(rows.drop_last(), k);
    } else {
        assert(rows.take(k) == rows);
    }
}

/// A period of the day, written in decimal, reads back as itself.
pub proof fn lemma_period_reads_back(period: int)
    requires
        1 <= period <= 10,
    ensures
        written_period(decimal(period)) == Some(period),
{
    let s = decimal(period);
    reveal_with_fuel(crate::lesson::digits_of, 3);
    reveal_with_fuel(digits_value, 3);
    if period < 10 {
        assert(s == seq![(0x30 + period) as u8 as char]);
        assert(s.last() as u32 == 0x30 + period);
        assert(strip_trailing(s, '.') == s);
        assert(all_digits(s));
        assert(s.drop_last().len() == 0);
    } else {
        assert(s == seq!['1', '0']);
        assert(strip_trailing(s, '.') == s);
        assert(all_digits(s));
        assert(s.drop_last() == seq!['1']);
        assert(s.drop_last().drop_last().len() == 0);
    }
}

/// What stands in the column `k` of a lesson read from a row with the
/// trimmed cells `cells` that follows the lesson `previous`: what
/// `previous` has there if the cell is blank, else what the cell says.
pub open spec fn taken_over(cells: Seq<Seq<char>>, previous: LessonView, k: int) -> Seq<char> {
    if contains(cells[k], blank()) {
        previous.columns()[k]
    } else {
        cells[k]
    }
}

/// In a row of seven cells whose HTML holds a blank, each blank cell takes
/// what the lesson above has in that column, and each other cell gives its
/// own text. The row writes a lesson if its period is blank or a period of
/// the day.
pub proof fn lemma_blank_cells_take_over(row: (Seq<char>, Seq<Seq<char>>), previous: LessonView)
    requires
        previous.wf(),
        contains(row.0, blank()),
        row.1.len() == 7,
        contains(trimmed(row.1[1]), blank()) || written_period(trimmed(row.1[1])) is Some,
    ensures
        row_lesson(row, Some(previous)) == Some(
            LessonView {
                class: taken_over(trimmed_all(row.1), previous, 0),
                time: if contains(trimmed(row.1[1]), blank()) {
                    previous.time
                } else {
                    written_period(trimmed(row.1[1]))->0
                },
                subject: taken_over(trimmed_all(row.1), previous, 2),
                room: taken_over(trimmed_all(row.1), previous, 3),
                teacher: taken_over(trimmed_all(row.1), previous, 4),
                vtype: taken_over(trimmed_all(row.1), previous, 5),
                message: taken_over(trimmed_all(row.1), previous, 6),
            },
        ),
{
    lemma_period_reads_back(previous.time);
    let cells = trimmed_all(row.1);
    assert(fillable(cells, previous.columns()));
    let f = filled(cells, previous.columns());
    assert(f[1] == taken_over(cells, previous, 1));
}

/// What a page yields.
pub enum Extracted {
    /// The page is not that of a substitution day.
    Failed,
    /// The page names a day that is not later than the last one seen.
    Stale,
    /// The page names this later day, but its table cannot be read.
    Unreadable(Date),
    /// The page names this later day, and this is what it says of it.
    Day(Date, VDayView),
}

impl Extracted {
    /// The last day seen after the page, when `before` was the last day
    /// seen before it: the day of the page if that is later.
    pub open spec fn last_date(self, before: Date) -> Date {
        match self {
            Extracted::Failed => before,
            Extracted::Stale => before,
            Extracted::Unreadable(date) => date,
            Extracted::Day(date, _) => date,
        }
    }

    /// What is handed out for the page: the day, nothing for a day that
    /// is not later, or the failure.
    pub open spec fn outcome(self) -> Result<Option<VDayView>, ParseFailure> {
        match self {
            Extracted::Failed => Err(ParseFailure),
            Extracted::Stale => Ok(None),
            Extracted::Unreadable(_) => Err(ParseFailure),
            Extracted::Day(_, day) => Ok(Some(day)),
        }
    }
}

/// What `r` says.
pub open spec fn outcome_view(r: Result<Option<VDay>, ParseFailure>) -> Result<
    Option<VDayView>,
    ParseFailure,
> {
    match r {
        Ok(Some(day)) => Ok(Some(day@)),
        Ok(None) => Ok(None),
        Err(e) => Err(e),
    }
}

/// What the tables `tables` say, if there are any.
pub open spec fn tables_view(tables: Option<Vec<Vec<Row>>>) -> Option<
    Seq<Seq<(Seq<char>, Seq<Seq<char>>)>>,
> {
    match tables {
        Some(t) => Some(table_texts(t@)),
        None => None,
    }
}

/// The date that the label of a day ends with.
pub open spec fn date_of(label: Seq<char>) -> Option<Date> {
    match last_word(label) {
        Some(word) => parsed_date(word, DATE_FORMAT@),
        None => None,
    }
}

/// The cycle of `date`: that of the calendar `weeks`, or the first where
/// the calendar does not know the date.
pub open spec fn cycle_on(weeks: Seq<WeekZyklus>, date: Date) -> Zyklus {
    match found_in(weeks, date) {
        Some(z) => z,
        None => Zyklus::I,
    }
}

/// The lessons of the first of `tables`, each named once.
pub open spec fn lessons_of_tables(tables: Option<Seq<Seq<(Seq<char>, Seq<Seq<char>>)>>>) -> Option<
    Seq<LessonView>,
> {
    match tables {
        Some(t) => if t.len() > 0 {
            match lessons_in(t[0]) {
                Some(lessons) => Some(unique(lessons)),
                None => None,
            }
        } else {
            None
        },
        None => None,
    }
}

/// What a page with the label `label` and the tables `tables` yields when
/// its label ends with the date `date` and `last` is the last day seen. A
/// label that names no weekday makes no day.
pub open spec fn assembled(
    label: Seq<char>,
    date: Date,
    tables: Option<Seq<Seq<(Seq<char>, Seq<Seq<char>>)>>>,
    last: Date,
    weeks: Seq<WeekZyklus>,
) -> Extracted {
    if first_word(label) is None {
        Extracted::Failed
    } else if date.at_most(last) {
        Extracted::Stale
    } else {
        match lessons_of_tables(tables) {
            Some(lessons) => Extracted::Day(
                date,
                VDayView { label, zyklus: cycle_on(weeks, date), lessons },
            ),
            None => Extracted::Unreadable(date),
        }
    }
}

/// What the page `text` yields when `last` is the last day seen.
pub open spec fn extracted(text: Seq<char>, last: Date, weeks: Seq<WeekZyklus>) -> Extracted {
    match selected(text, HEADING@) {
        Some(headings) => match label_of(headings) {
            Some(label) => match date_of(label) {
                Some(date) => assembled(
                    label,
                    date,
                    selected_rows(text, TABLE@, TABLE_ROW@, TABLE_CELL@),
                    last,
                    weeks,
                ),
                None => Extracted::Failed,
            },
            None => Extracted::Failed,
        },
        None => Extracted::Failed,
    }
}

/// Every lesson read from a table has a period of the day.
pub proof fn lemma_lessons_in_wf(rows: Seq<(Seq<char>, Seq<Seq<char>>)>)
    ensures
        lessons_in(rows) matches Some(lessons) ==> all_wf(lessons),
    decreases rows.len(),
{
    if rows.len() > 0 {
        lemma_lessons_in_wf(rows.drop_last());
    }
}

/// Every day that a page yields names a weekday, and each of its lessons
/// has a period of the day.
pub proof fn lemma_extracted_day_wf(text: Seq<char>, last: Date, weeks: Seq<WeekZyklus>)
    ensures
        extracted(text, last, weeks) matches Extracted::Day(_, day) ==> day.wf(),
{
    if let Extracted::Day(_, day) = extracted(text, last, weeks) {
        let label = label_of(selected(text, HEADING@)->0)->0;
        lemma_last_word_first_word(label);
        let table = selected_rows(text, TABLE@, TABLE_ROW@, TABLE_CELL@)->0[0];
        lemma_lessons_in_wf(table);
        crate::lesson::lemma_unique_wf(lessons_in(table)->0);
    }
}

/// The label of the day: the first heading without the white space around it.
pub fn label_from(headings: &Vec<String>) -> (r: Option<String>)
    ensures
        match r {
            Some(label) => label_of(texts(headings@)) == Some(label@),
            None => label_of(texts(headings@)) is None,
        },
{
    if headings.len() > 0 {
        Some(trim(headings[0].as_str()))
    } else {
        None
    }
}

/// The cycle of `date`: that of the calendar, or the first where the
/// calendar does not know the date.
pub fn cycle_of(weeks: &WeekZyklusList, date: &Date) -> (r: Zyklus)
    ensures
        r == cycle_on(weeks@, *date),
{
    match weeks.get(date) {
        Some(z) => z,
        None => Zyklus::I,
    }
}

/// A text that has a last word has a first word.
pub proof fn lemma_last_word_first_word(s: Seq<char>)
    requires
        last_word(s) is Some,
    ensures
        first_word(s) is Some,
{
    crate::text::lemma_trim_end_keeps(s);
    crate::text::lemma_trim_start_keeps(s);
}

/// Puts a day together from what was read out of its page: the label, the
/// date that the label ends with, and the tables of the page. It fails on a
/// label that names no weekday. The day is taken only if it is later than
/// `last_date`, which then moves on to it.
pub fn assemble(
    label: String,
    date: Date,
    tables: Option<Vec<Vec<Row>>>,
    last_date: &mut Date,
    weeks: &WeekZyklusList,
) -> (r: Result<Option<VDay>, ParseFailure>)
    ensures
        outcome_view(r) == assembled(
            label@,
            date,
            tables_view(tables),
            *old(last_date),
            weeks@,
        ).outcome(),
        *final(last_date) == assembled(
            label@,
            date,
            tables_view(tables),
            *old(last_date),
            weeks@,
        ).last_date(*old(last_date)),
        r matches Ok(Some(day)) ==> day.wf(),
{
    if first_token(label.as_str()).is_none() {
        return Err(ParseFailure);
    }
    if date.is_at_most(last_date) {
        return Ok(None);
    }
    *last_date = date;
    let zyklus = cycle_of(weeks, &date);
    let tables = match tables {
        Some(t) => t,
        None => {
            return Err(ParseFailure);
        },
    };
    if tables.len() == 0 {
        return Err(ParseFailure);
    }
    let lessons = match lessons_of(&tables[0]) {
        Ok(lessons) => lessons,
        Err(e) => {
            return Err(e);
        },
    };
    let lessons = unique_lessons(lessons);
    Ok(Some(VDay(label, zyklus, lessons)))
}

/// Reads the substitution day out of its page `text`. The day is taken
/// only if it is later than `last_date`, which then moves on to it.
///
/// The page must name its day in a heading that ends with the date, and
/// hold a table with a lesson in each row; `scraper` finds heading and
/// rows, `chrono` reads the date.
pub fn get_vday(text: &String, last_date: &mut Date, weeks: &WeekZyklusList) -> (r: Result<
    Option<VDay>,
    ParseFailure,
>)
    ensures
        outcome_view(r) == extracted(text@, *old(last_date), weeks@).outcome(),
        *final(last_date) == extracted(text@, *old(last_date), weeks@).last_date(*old(last_date)),
        r matches Ok(Some(day)) ==> day.wf(),
{
    let headings = match select(text.as_str(), HEADING) {
        Some(h) => h,
        None => {
            return Err(ParseFailure);
        },
    };
    let label = match label_from(&headings) {
        Some(l) => l,
        None => {
            return Err(ParseFailure);
        },
    };
    let word = match last_token(label.as_str()) {
        Some(w) => w,
        None => {
            return Err(ParseFailure);
        },
    };
    let date = match Date::parse(word.as_str()) {
        Some(d) => d,
        None => {
            return Err(ParseFailure);
        },
    };
    proof {
        lemma_last_word_first_word(label@);
    }
    if date.is_at_most(last_date) {
        return Ok(None);
    }
    let tables = select_rows(text.as_str(), TABLE, TABLE_ROW, TABLE_CELL);
    assemble(label, date, tables, last_date, weeks)
}

} // verus!
