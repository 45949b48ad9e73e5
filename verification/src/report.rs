//! A day written out for the user: as the rows of a table, as the table
//! itself, and as the fields of one card for each lesson.

use crate::html::texts;
use crate::lesson::{decimal, decimal_string, views, Lesson, LessonView};
use crate::plan::{Day, DayView};
use crate::text::chars_of;
use vstd::prelude::*;
use vstd::string::StringExecFns;

verus! {

/// What opens and closes the table in a message.
pub const FENCE: &'static str = "```";

/// What stands between the name of the day and the table.
pub const LINE_FEED: &'static str = "\n";

/// The head of the column of periods.
pub const HEAD_PERIOD: &'static str = "Stunde";

/// The head of the column of subjects, and the name of its field.
pub const HEAD_SUBJECT: &'static str = "Fach";

/// The head of the column of rooms, and the name of its field.
pub const HEAD_ROOM: &'static str = "Raum";

/// The head of the column of teachers, and the name of its field.
pub const HEAD_TEACHER: &'static str = "Lehrer";

/// The head of the column that says what kind of change a lesson is.
pub const HEAD_KIND: &'static str = "Type";

/// The name of the field that says what kind of change a lesson is.
pub const FIELD_KIND: &'static str = "Art";

/// The head of the column of messages, and the name of its field.
pub const HEAD_MESSAGE: &'static str = "Mitteilung";

/// What ends the period in the name of the first field of a card.
pub const FULL_STOP: &'static str = ".";

/// What the first field of a card holds.
pub const SPACE: &'static str = " ";

/// The text of each cell of each row of `rows`.
pub open spec fn row_cells(rows: Seq<Vec<String>>) -> Seq<Seq<Seq<char>>> {
    Seq::new(rows.len(), |k: int| texts(rows[k]@))
}

/// What `prettytable` prints for a table with the titles `titles` and the
/// rows `rows`, in its default format, each line ended by a line feed.
pub uninterp spec fn table_text(titles: Seq<Seq<char>>, rows: Seq<Seq<Seq<char>>>) -> Seq<char>;

/// The heads of the columns of the table of a day.
pub open spec fn titles() -> Seq<Seq<char>> {
    seq![HEAD_PERIOD@, HEAD_SUBJECT@, HEAD_ROOM@, HEAD_TEACHER@, HEAD_KIND@, HEAD_MESSAGE@]
}

/// The row of a lesson: period, subject, room, teacher, kind of change
/// and message.
pub open spec fn row_of(lesson: LessonView) -> Seq<Seq<char>> {
    seq![
        decimal(lesson.time),
        lesson.subject,
        lesson.room,
        lesson.teacher,
        lesson.vtype,
        lesson.message,
    ]
}

/// The rows of `lessons`, in their order.
pub open spec fn rows_of(lessons: Seq<LessonView>) -> Seq<Seq<Seq<char>>> {
    Seq::new(lessons.len(), |k: int| row_of(lessons[k]))
}

/// The rows of the first `n` periods of a day, in the order of the periods.
pub open spec fn rows_until(periods: Seq<Seq<LessonView>>, n: int) -> Seq<Seq<Seq<char>>>
    decreases n,
{
    if n <= 0 {
        Seq::empty()
    } else {
        rows_until(periods, n - 1) + rows_of(periods[n - 1])
    }
}

/// The rows of the table of a day: one for each lesson, in the order of
/// the periods.
pub open spec fn table_rows(day: DayView) -> Seq<Seq<Seq<char>>> {
    rows_until(day.lessons, 10)
}

/// One field of the card of a lesson: its name, its value, and whether it
/// may stand beside other fields.
pub struct FieldView {
    pub name: Seq<char>,
    pub value: Seq<char>,
    pub inline: bool,
}

/// The fields among `fields` that have a value.
pub open spec fn with_value(fields: Seq<FieldView>) -> Seq<FieldView>
    decreases fields.len(),
{
    if fields.len() == 0 {
        Seq::empty()
    } else if fields.last().value.len() > 0 {
        with_value(fields.drop_last()).push(fields.last())
    } else {
        with_value(fields.drop_last())
    }
}

/// All fields of the card of a lesson, with or without a value.
pub open spec fn all_fields(lesson: LessonView) -> Seq<FieldView> {
    seq![
        FieldView { name: decimal(lesson.time) + FULL_STOP@, value: SPACE@, inline: false },
        FieldView { name: HEAD_SUBJECT@, value: lesson.subject, inline: true },
        FieldView { name: HEAD_ROOM@, value: lesson.room, inline: true },
        FieldView { name: HEAD_TEACHER@, value: lesson.teacher, inline: true },
        FieldView { name: FIELD_KIND@, value: lesson.vtype, inline: true },
        FieldView { name: HEAD_MESSAGE@, value: lesson.message, inline: true },
    ]
}

/// What each field of `fields` says.
pub open spec fn field_views(fields: Seq<(String, String, bool)>) -> Seq<FieldView> {
    Seq::new(
        fields.len(),
        |k: int| FieldView { name: fields[k].0@, value: fields[k].1@, inline: fields[k].2 },
    )
}

impl Lesson {
    /// The row of the lesson in the table of its day.
    pub fn to_row(&self) -> (r: Vec<String>)
        ensures
            texts(r@) == row_of(self@),
    {
        let r = vec![
            decimal_string(self.time),
            self.subject.clone(),
            self.room.clone(),
            self.teacher.clone(),
            self.vtype.clone(),
            self.message.clone(),
        ];
        assert(texts(r@) == row_of(self@));
        r
    }

    /// Whether the lesson is a change: it says of what kind, or carries a message.
    pub fn is_change(&self) -> (r: bool)
        ensures
            r == (self@.vtype.len() > 0 || self@.message.len() > 0),
    {
        !self.vtype.as_str().is_empty() || !self.message.as_str().is_empty()
    }

    /// The fields of the card of the lesson: those that have a value.
    pub fn to_fields(&self) -> (r: Vec<(String, String, bool)>)
        ensures
            field_views(r@) == with_value(all_fields(self@)),
    {
        let all = vec![
            (decimal_string(self.time).concat(FULL_STOP), String::from_str(SPACE), false),
            (String::from_str(HEAD_SUBJECT), self.subject.clone(), true),
            (String::from_str(HEAD_ROOM), self.room.clone(), true),
            (String::from_str(HEAD_TEACHER), self.teacher.clone(), true),
            (String::from_str(FIELD_KIND), self.vtype.clone(), true),
            (String::from_str(HEAD_MESSAGE), self.message.clone(), true),
        ];
        assert(field_views(all@) == all_fields(self@));
        let mut r: Vec<(String, String, bool)> = Vec::new();
        let mut k: usize = 0;
        assert(field_views(all@).take(0) == Seq::<FieldView>::empty());
        assert(field_views(r@) == Seq::<FieldView>::empty());
        while k < all.len()
            invariant
                k <= all.len(),
                field_views(r@) == with_value(field_views(all@).take(k as int)),
            decreases all.len() - k,
        {
            assert(field_views(all@).take(k + 1).drop_last() == field_views(all@).take(k as int));
            if !all[k].1.as_str().is_empty() {
                let ghost before = field_views(r@);
                r.push((all[k].0.clone(), all[k].1.clone(), all[k].2));
                assert(field_views(r@) == before.push(field_views(all@)[k as int]));
            }
            k += 1;
        }
        assert(field_views(all@).take(k as int) == field_views(all@));
        r
    }
}

/// Whether `s` is free of the escape character, with which a terminal
/// sequence begins.
pub open spec fn plain(s: Seq<char>) -> bool {
    forall|i: int| 0 <= i < s.len() ==> (#[trigger] s[i]) as u32 != 0x1B
}

/// Whether each of `cells` is free of the escape character.
pub open spec fn all_plain(cells: Seq<Seq<char>>) -> bool {
    forall|k: int| 0 <= k < cells.len() ==> plain(#[trigger] cells[k])
}

/// Whether each cell of each of `rows` is free of the escape character.
pub open spec fn rows_plain(rows: Seq<Seq<Seq<char>>>) -> bool {
    forall|k: int| 0 <= k < rows.len() ==> all_plain(#[trigger] rows[k])
}

/// Whether what the table shows of `lesson` is free of the escape character.
pub open spec fn lesson_plain(lesson: LessonView) -> bool {
    &&& plain(lesson.subject)
    &&& plain(lesson.room)
    &&& plain(lesson.teacher)
    &&& plain(lesson.vtype)
    &&& plain(lesson.message)
}

/// Whether what the table shows of each of `lessons` is free of the escape
/// character.
pub open spec fn lessons_plain(lessons: Seq<LessonView>) -> bool {
    forall|k: int| 0 <= k < lessons.len() ==> lesson_plain(#[trigger] lessons[k])
}

/// Whether the table of `day` can be printed: what it shows of each lesson
/// of each period is free of the escape character.
pub open spec fn printable(day: DayView) -> bool {
    forall|i: int| 0 <= i < 10 ==> lessons_plain(#[trigger] day.lessons[i])
}

/// The digits of a number hold no escape character.
pub proof fn lemma_digits_plain(n: nat)
    ensures
        plain(crate::lesson::digits_of(n)),
    decreases n,
{
    reveal_with_fuel(crate::lesson::digits_of, 2);
    if n >= 10 {
        lemma_digits_plain(n / 10);
        let s = crate::lesson::digits_of(n);
        let t = crate::lesson::digits_of(n / 10);
        assert forall|i: int| 0 <= i < s.len() implies (#[trigger] s[i]) as u32 != 0x1B by {
            if i < t.len() {
                assert(s[i] == t[i]);
            }
        }
    }
}

/// A number written in decimal holds no escape character.
pub proof fn lemma_decimal_plain(n: int)
    ensures
        plain(decimal(n)),
{
    if n < 0 {
        lemma_digits_plain((-n) as nat);
        let d = crate::lesson::digits_of((-n) as nat);
        let s = decimal(n);
        assert forall|i: int| 0 <= i < s.len() implies (#[trigger] s[i]) as u32 != 0x1B by {
            if i > 0 {
                assert(s[i] == d[i - 1]);
            }
        }
    } else {
        lemma_digits_plain(n as nat);
    }
}

/// The rows of a day that can be printed hold no escape character.
pub proof fn lemma_rows_plain(periods: Seq<Seq<LessonView>>, n: int)
    requires
        0 <= n <= periods.len(),
        forall|i: int| 0 <= i < n ==> lessons_plain(#[trigger] periods[i]),
    ensures
        rows_plain(rows_until(periods, n)),
    decreases n,
{
    if n > 0 {
        lemma_rows_plain(periods, n - 1);
        let before = rows_until(periods, n - 1);
        let more = rows_of(periods[n - 1]);
        let all = rows_until(periods, n);
        assert(lessons_plain(periods[n - 1]));
        assert forall|k: int| 0 <= k < all.len() implies all_plain(#[trigger] all[k]) by {
            if k < before.len() {
                assert(all[k] == before[k]);
            } else {
                let lesson = periods[n - 1][k - before.len()];
                assert(all[k] == more[k - before.len()]);
                assert(lesson_plain(lesson));
                lemma_decimal_plain(lesson.time);
                let row = row_of(lesson);
                assert forall|c: int| 0 <= c < row.len() implies plain(#[trigger] row[c]) by {}
            }
        }
    }
}

/// Whether `s` is free of the escape character.
pub fn is_plain(s: &str) -> (r: bool)
    ensures
        r == plain(s@),
{
    let v = chars_of(s);
    let mut i: usize = 0;
    while i < v.len()
        invariant
            i <= v.len(),
            v@ == s@,
            forall|j: int| 0 <= j < i ==> (#[trigger] v@[j]) as u32 != 0x1B,
        decreases v.len() - i,
    {
        if v[i] as u32 == 0x1B {
            return false;
        }
        i += 1;
    }
    true
}

/// Builds a `prettytable::Table` with `set_titles` and `add_row`, each
/// cell made with `prettytable::Cell::new`, and prints it with its
/// `Display`. The contract only names the outcome, which titles and rows
/// determine. No title and no cell may hold the escape character:
/// `prettytable` measures a cell as a terminal would show it, and gives up
/// on some texts that hold a broken terminal sequence.
#[verifier::external_body]
fn print_table(titles: &Vec<String>, rows: &Vec<Vec<String>>) -> (r: String)
    requires
        all_plain(texts(titles@)),
        rows_plain(row_cells(rows@)),
    ensures
        r@ == table_text(texts(titles@), row_cells(rows@)),
{
    let mut table = prettytable::Table::new();
    table.set_titles(prettytable::Row::new(titles.iter().map(|t| prettytable::Cell::new(t)).collect()));
    for row in rows.iter() {
        table.add_row(prettytable::Row::new(row.iter().map(|c| prettytable::Cell::new(c)).collect()));
    }
    table.to_string()
}

impl Lesson {
    /// Whether what the table shows of the lesson is free of the escape
    /// character.
    pub fn is_printable(&self) -> (r: bool)
        ensures
            r == lesson_plain(self@),
    {
        is_plain(self.subject.as_str()) && is_plain(self.room.as_str()) && is_plain(
            self.teacher.as_str(),
        ) && is_plain(self.vtype.as_str()) && is_plain(self.message.as_str())
    }
}

impl Day {
    /// The rows of the table of the day: one for each lesson, in the order
    /// of the periods.
    pub fn to_table(&self) -> (r: Vec<Vec<String>>)
        ensures
            row_cells(r@) == table_rows(self@),
    {
        let mut r: Vec<Vec<String>> = Vec::new();
        let mut i: usize = 0;
        assert(row_cells(r@) == Seq::<Seq<Seq<char>>>::empty());
        while i < 10
            invariant
                i <= 10,
                row_cells(r@) == rows_until(self@.lessons, i as int),
            decreases 10 - i,
        {
            let period = &self.lessons[i];
            let ghost before = row_cells(r@);
            let mut k: usize = 0;
            assert(rows_of(views(period@)).take(0) == Seq::<Seq<Seq<char>>>::empty());
            assert(before + Seq::<Seq<Seq<char>>>::empty() == before);
            while k < period.len()
                invariant
                    k <= period.len(),
                    row_cells(r@) == before + rows_of(views(period@)).take(k as int),
                decreases period.len() - k,
            {
                let ghost so_far = row_cells(r@);
                r.push(period[k].to_row());
                assert(row_cells(r@) == so_far.push(row_of(period@[k as int]@)));
                assert(rows_of(views(period@)).take(k + 1) == rows_of(views(period@)).take(
                    k as int,
                ).push(row_of(period@[k as int]@)));
                k += 1;
            }
            assert(rows_of(views(period@)).take(k as int) == rows_of(views(period@)));
            i += 1;
        }
        r
    }

    /// Whether the table of the day can be printed: what it shows of each
    /// lesson is free of the escape character.
    pub fn is_printable(&self) -> (r: bool)
        ensures
            r == printable(self@),
    {
        let mut i: usize = 0;
        while i < 10
            invariant
                i <= 10,
                forall|j: int| 0 <= j < i ==> lessons_plain(#[trigger] self@.lessons[j]),
            decreases 10 - i,
        {
            let period = &self.lessons[i];
            let mut k: usize = 0;
            while k < period.len()
                invariant
                    i < 10,
                    k <= period.len(),
                    period@ == self.lessons@[i as int]@,
                    forall|j: int| 0 <= j < k ==> lesson_plain(#[trigger] views(period@)[j]),
                decreases period.len() - k,
            {
                if !period[k].is_printable() {
                    assert(!lesson_plain(self@.lessons[i as int][k as int]));
                    return false;
                }
                k += 1;
            }
            assert(self@.lessons[i as int] == views(period@));
            i += 1;
        }
        true
    }

    /// The day as a message: its name and, below it, its table. The table
    /// holds the texts of the lessons as they are, so they must be free of
    /// the escape character; `is_printable` tells.
    pub fn to_string(&self) -> (r: String)
        requires
            printable(self@),
        ensures
            r@ == FENCE@ + self.day@ + LINE_FEED@ + table_text(titles(), table_rows(self@))
                + FENCE@,
    {
        proof {
            reveal_strlit("Stunde");
            reveal_strlit("Fach");
            reveal_strlit("Raum");
            reveal_strlit("Lehrer");
            reveal_strlit("Type");
            reveal_strlit("Mitteilung");
            lemma_rows_plain(self@.lessons, 10);
        }
        let heads = vec![
            String::from_str(HEAD_PERIOD),
            String::from_str(HEAD_SUBJECT),
            String::from_str(HEAD_ROOM),
            String::from_str(HEAD_TEACHER),
            String::from_str(HEAD_KIND),
            String::from_str(HEAD_MESSAGE),
        ];
        assert(texts(heads@) == titles());
        let rows = self.to_table();
        let table = print_table(&heads, &rows);
        String::from_str(FENCE).concat(self.day.as_str()).concat(LINE_FEED).concat(
            table.as_str(),
        ).concat(FENCE)
    }
}

} // verus!
