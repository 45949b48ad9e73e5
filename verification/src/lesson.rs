//! One lesson of a substitution day, and how equal lessons are told.

use itertools::Itertools;
use vstd::prelude::*;
use vstd::string::StringExecFns;

verus! {

/// One lesson as a substitution day or a timetable names it.
#[derive(Debug, PartialEq, Eq)]
pub struct Lesson {
    pub class: String,
    pub time: i64,
    pub subject: String,
    pub room: String,
    pub teacher: String,
    pub vtype: String,
    pub message: String,
}

/// What a `Lesson` says, as plain text and numbers.
pub struct LessonView {
    pub class: Seq<char>,
    pub time: int,
    pub subject: Seq<char>,
    pub room: Seq<char>,
    pub teacher: Seq<char>,
    pub vtype: Seq<char>,
    pub message: Seq<char>,
}

impl View for Lesson {
    type V = LessonView;

    open spec fn view(&self) -> LessonView {
        LessonView {
            class: self.class@,
            time: self.time as int,
            subject: self.subject@,
            room: self.room@,
            teacher: self.teacher@,
            vtype: self.vtype@,
            message: self.message@,
        }
    }
}

impl Clone for Lesson {
    fn clone(&self) -> (r: Self)
        ensures
            r == *self,
    {
        Lesson {
            class: self.class.clone(),
            time: self.time,
            subject: self.subject.clone(),
            room: self.room.clone(),
            teacher: self.teacher.clone(),
            vtype: self.vtype.clone(),
            message: self.message.clone(),
        }
    }
}

/// What each lesson of `lessons` says.
pub open spec fn views(lessons: Seq<Lesson>) -> Seq<LessonView> {
    Seq::new(lessons.len(), |k: int| lessons[k]@)
}

/// The decimal digits of `n`.
pub open spec fn digits_of(n: nat) -> Seq<char>
    decreases n,
{
    if n < 10 {
        seq![(0x30 + n) as u8 as char]
    } else {
        digits_of(n / 10).push((0x30 + n % 10) as u8 as char)
    }
}

/// `n` written in decimal, with a minus sign if it is negative.
pub open spec fn decimal(n: int) -> Seq<char> {
    if n < 0 {
        seq!['-'] + digits_of((-n) as nat)
    } else {
        digits_of(n as nat)
    }
}

impl LessonView {
    /// Whether the period is one of the ten of a day.
    pub open spec fn wf(self) -> bool {
        1 <= self.time <= 10
    }

    /// The double period that the lesson falls in.
    pub open spec fn pair(self) -> int {
        (self.time + 1) / 2
    }

    /// Whether `self` and `other` name the same lesson: all but the period
    /// agrees, and the periods fall in the same double period.
    pub open spec fn same_as(self, other: LessonView) -> bool {
        &&& self.class == other.class
        &&& self.subject == other.subject
        &&& self.room == other.room
        &&& self.teacher == other.teacher
        &&& self.vtype == other.vtype
        &&& self.message == other.message
        &&& self.pair() == other.pair()
    }

    /// The seven columns of the lesson as text, in the order of the table.
    pub open spec fn columns(self) -> Seq<Seq<char>> {
        seq![
            self.class,
            decimal(self.time),
            self.subject,
            self.room,
            self.teacher,
            self.vtype,
            self.message,
        ]
    }
}

/// Whether one of `lessons` names the same lesson as `lesson`.
pub open spec fn known(lessons: Seq<LessonView>, lesson: LessonView) -> bool {
    exists|j: int| 0 <= j < lessons.len() && (#[trigger] lessons[j]).same_as(lesson)
}

/// `lessons` without those that name the same lesson as an earlier one.
pub open spec fn unique(lessons: Seq<LessonView>) -> Seq<LessonView>
    decreases lessons.len(),
{
    if lessons.len() == 0 {
        Seq::empty()
    } else if known(lessons.drop_last(), lessons.last()) {
        unique(lessons.drop_last())
    } else {
        unique(lessons.drop_last()).push(lessons.last())
    }
}

/// Whether each of `lessons` has a period of the day.
pub open spec fn all_wf(lessons: Seq<LessonView>) -> bool {
    forall|k: int| 0 <= k < lessons.len() ==> (#[trigger] lessons[k]).wf()
}

impl Lesson {
    /// A lesson of a timetable: it names no class and no change.
    pub fn new(time: i64, subject: &str, room: &str, teacher: &str) -> (r: Lesson)
        ensures
            r@ == (LessonView {
                class: Seq::empty(),
                time: time as int,
                subject: subject@,
                room: room@,
                teacher: teacher@,
                vtype: Seq::empty(),
                message: Seq::empty(),
            }),
    {
        Lesson {
            class: String::new(),
            time,
            subject: String::from_str(subject),
            room: String::from_str(room),
            teacher: String::from_str(teacher),
            vtype: String::new(),
            message: String::new(),
        }
    }

    /// That by which equal lessons are told: all but the period, and the
    /// double period.
    pub fn convert_to_compareable(&self) -> (r: (String, String, String, String, String, String, i32))
        requires
            self@.wf(),
        ensures
            r.0@ == self.class@,
            r.1@ == self.subject@,
            r.2@ == self.room@,
            r.3@ == self.teacher@,
            r.4@ == self.vtype@,
            r.5@ == self.message@,
            r.6 == self@.pair(),
    {
        (
            self.class.clone(),
            self.subject.clone(),
            self.room.clone(),
            self.teacher.clone(),
            self.vtype.clone(),
            self.message.clone(),
            ((self.time + 1) / 2) as i32,
        )
    }

    /// The seven columns of the lesson as text, in the order of the table.
    pub fn to_vec(&self) -> (r: Vec<String>)
        ensures
            crate::html::texts(r@) == self@.columns(),
    {
        let r = vec![
            self.class.clone(),
            decimal_string(self.time),
            self.subject.clone(),
            self.room.clone(),
            self.teacher.clone(),
            self.vtype.clone(),
            self.message.clone(),
        ];
        assert(crate::html::texts(r@) == self@.columns());
        r
    }
}

/// The digit `d` as text.
fn digit_text(d: u64) -> (r: &'static str)
    requires
        d < 10,
    ensures
        r@ == seq![(0x30 + d) as u8 as char],
{
    proof {
        reveal_strlit("0");
        reveal_strlit("1");
        reveal_strlit("2");
        reveal_strlit("3");
        reveal_strlit("4");
        reveal_strlit("5");
        reveal_strlit("6");
        reveal_strlit("7");
        reveal_strlit("8");
        reveal_strlit("9");
    }
    let r = if d == 0 {
        "0"
    } else if d == 1 {
        "1"
    } else if d == 2 {
        "2"
    } else if d == 3 {
        "3"
    } else if d == 4 {
        "4"
    } else if d == 5 {
        "5"
    } else if d == 6 {
        "6"
    } else if d == 7 {
        "7"
    } else if d == 8 {
        "8"
    } else {
        "9"
    };
    assert(r@ =~= seq![(0x30 + d) as u8 as char]);
    r
}

/// The decimal digits of `n`.
fn digits_string(n: u64) -> (r: String)
    ensures
        r@ == digits_of(n as nat),
    decreases n,
{
    if n < 10 {
        String::from_str(digit_text(n))
    } else {
        let r = digits_string(n / 10).concat(digit_text(n % 10));
        assert(r@ =~= digits_of((n / 10) as nat).push((0x30 + n % 10) as u8 as char));
        r
    }
}

/// `n` written in decimal, with a minus sign if it is negative.
pub fn decimal_string(n: i64) -> (r: String)
    ensures
        r@ == decimal(n as int),
{
    if n < 0 {
        let magnitude: u64 = if n == i64::MIN {
            0x8000_0000_0000_0000
        } else {
            (-n) as u64
        };
        proof {
            reveal_strlit("-");
        }
        let r = String::from_str("-").concat(digits_string(magnitude).as_str());
        assert(r@ =~= seq!['-'] + digits_of((-n) as nat));
        r
    } else {
        digits_string(n as u64)
    }
}

/// `itertools::Itertools::unique_by` with the key of
/// `Lesson::convert_to_compareable`: of lessons with equal keys only the
/// first stays, and what stays keeps its order.
#[verifier::external_body]
fn unique_by_key(lessons: Vec<Lesson>) -> (r: Vec<Lesson>)
    requires
        all_wf(views(lessons@)),
    ensures
        views(r@) == unique(views(lessons@)),
{
    lessons.into_iter().unique_by(Lesson::convert_to_compareable).collect()
}

/// `lessons` without those that name the same lesson as an earlier one.
pub fn unique_lessons(lessons: Vec<Lesson>) -> (r: Vec<Lesson>)
    requires
        all_wf(views(lessons@)),
    ensures
        views(r@) == unique(views(lessons@)),
        all_wf(views(r@)),
{
    proof {
        lemma_unique_wf(views(lessons@));
    }
    unique_by_key(lessons)
}

/// Naming each lesson once leaves lessons with a period of the day.
pub proof fn lemma_unique_wf(lessons: Seq<LessonView>)
    requires
        all_wf(lessons),
    ensures
        all_wf(unique(lessons)),
{
    lemma_unique_keeps(lessons);
    assert forall|k: int| 0 <= k < unique(lessons).len() implies (#[trigger] unique(
        lessons,
    )[k]).wf() by {
        let j = choose|j: int| 0 <= j < lessons.len() && lessons[j] == unique(lessons)[k];
        assert(lessons[j].wf());
    }
}

/// What stays in `unique(lessons)` stood in `lessons`.
pub proof fn lemma_unique_keeps(lessons: Seq<LessonView>)
    ensures
        forall|k: int|
            0 <= k < unique(lessons).len() ==> exists|j: int|
                0 <= j < lessons.len() && lessons[j] == #[trigger] unique(lessons)[k],
    decreases lessons.len(),
{
    if lessons.len() > 0 {
        let before = lessons.drop_last();
        lemma_unique_keeps(before);
        assert forall|k: int| 0 <= k < unique(lessons).len() implies exists|j: int|
            0 <= j < lessons.len() && lessons[j] == #[trigger] unique(lessons)[k] by {
            if k < unique(before).len() {
                let j = choose|j: int| 0 <= j < before.len() && before[j] == unique(before)[k];
                assert(lessons[j] == unique(lessons)[k]);
            } else {
                assert(lessons[lessons.len() - 1] == unique(lessons)[k]);
            }
        }
    }
}

/// A lesson is known among `unique(lessons)` exactly if it is known among `lessons`.
pub proof fn lemma_unique_knows(lessons: Seq<LessonView>, lesson: LessonView)
    ensures
        known(unique(lessons), lesson) == known(lessons, lesson),
    decreases lessons.len(),
{
    if lessons.len() > 0 {
        let before = lessons.drop_last();
        let last = lessons.last();
        lemma_unique_knows(before, lesson);
        lemma_unique_knows(before, last);
        if known(lessons, lesson) {
            let j = choose|j: int| 0 <= j < lessons.len() && (#[trigger] lessons[j]).same_as(lesson);
            if j < before.len() {
                assert(before[j].same_as(lesson));
                assert(known(before, lesson));
                let k = choose|k: int|
                    0 <= k < unique(before).len() && (#[trigger] unique(before)[k]).same_as(lesson);
                assert(unique(lessons)[k].same_as(lesson));
            } else if known(before, last) {
                let i = choose|i: int| 0 <= i < before.len() && (#[trigger] before[i]).same_as(last);
                assert(before[i].same_as(lesson));
                assert(known(before, lesson));
                let k = choose|k: int|
                    0 <= k < unique(before).len() && (#[trigger] unique(before)[k]).same_as(lesson);
                assert(unique(lessons)[k].same_as(lesson));
            } else {
                assert(unique(lessons)[unique(before).len() as int].same_as(lesson));
            }
        }
        if known(unique(lessons), lesson) {
            let k = choose|k: int|
                0 <= k < unique(lessons).len() && (#[trigger] unique(lessons)[k]).same_as(lesson);
            if k < unique(before).len() {
                assert(unique(before)[k].same_as(lesson));
                assert(known(unique(before), lesson));
                let j = choose|j: int| 0 <= j < before.len() && (#[trigger] before[j]).same_as(lesson);
                assert(lessons[j].same_as(lesson));
            } else {
                assert(lessons[lessons.len() - 1].same_as(lesson));
            }
        }
    }
}

/// Removing the repeated lessons a second time removes nothing.
pub proof fn lemma_unique_idempotent(lessons: Seq<LessonView>)
    ensures
        unique(unique(lessons)) == unique(lessons),
    decreases lessons.len(),
{
    if lessons.len() > 0 {
        let before = lessons.drop_last();
        let last = lessons.last();
        lemma_unique_idempotent(before);
        if !known(before, last) {
            lemma_unique_knows(before, last);
            assert(unique(before).push(last).drop_last() == unique(before));
        }
    }
}

} // verus!
