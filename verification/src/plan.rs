//! A user's weekly timetable, and the day that is made of it.

use crate::lesson::{views, Lesson, LessonView};
use crate::weeks::Zyklus;
use vstd::prelude::*;
use vstd::string::StringExecFns;

verus! {

/// One lesson of the weekly timetable.
#[derive(Clone, Debug, PartialEq, Eq)]
pub struct PlanLesson {
    pub time: i64,
    pub subject: String,
    pub room: String,
    pub teacher: String,
}

/// What a `PlanLesson` says, as plain text and numbers.
pub struct PlanLessonView {
    pub time: int,
    pub subject: Seq<char>,
    pub room: Seq<char>,
    pub teacher: Seq<char>,
}

impl View for PlanLesson {
    type V = PlanLessonView;

    open spec fn view(&self) -> PlanLessonView {
        PlanLessonView {
            time: self.time as int,
            subject: self.subject@,
            room: self.room@,
            teacher: self.teacher@,
        }
    }
}

impl PlanLessonView {
    /// The lesson as it stands in a day: it names no class and no change.
    pub open spec fn lesson(self) -> LessonView {
        LessonView {
            class: Seq::empty(),
            time: self.time,
            subject: self.subject,
            room: self.room,
            teacher: self.teacher,
            vtype: Seq::empty(),
            message: Seq::empty(),
        }
    }
}

impl PlanLesson {
    /// The lesson as it stands in a day: it names no class and no change.
    pub fn to_lesson(&self) -> (r: Lesson)
        ensures
            r@ == self@.lesson(),
    {
        Lesson::new(self.time, self.subject.as_str(), self.room.as_str(), self.teacher.as_str())
    }
}

/// What the timetable holds for one double period.
#[derive(Clone, Debug, PartialEq, Eq)]
pub enum WeekOption {
    /// No lesson.
    Nothing,
    /// The same lesson in both cycles.
    AandB(PlanLesson),
    /// A lesson in the first cycle only.
    A(PlanLesson),
    /// A lesson in the second cycle only.
    B(PlanLesson),
    /// One lesson in the first cycle, another in the second.
    AorB(PlanLesson, PlanLesson),
}

/// What a `WeekOption` says.
pub enum WeekOptionView {
    Nothing,
    AandB(PlanLessonView),
    A(PlanLessonView),
    B(PlanLessonView),
    AorB(PlanLessonView, PlanLessonView),
}

impl View for WeekOption {
    type V = WeekOptionView;

    open spec fn view(&self) -> WeekOptionView {
        match *self {
            WeekOption::Nothing => WeekOptionView::Nothing,
            WeekOption::AandB(l) => WeekOptionView::AandB(l@),
            WeekOption::A(l) => WeekOptionView::A(l@),
            WeekOption::B(l) => WeekOptionView::B(l@),
            WeekOption::AorB(a, b) => WeekOptionView::AorB(a@, b@),
        }
    }
}

impl WeekOptionView {
    /// The lesson that the timetable gives in the cycle `zyklus`, if any.
    pub open spec fn usual(self, zyklus: Zyklus) -> Option<LessonView> {
        match (self, zyklus) {
            (WeekOptionView::Nothing, _) => None,
            (WeekOptionView::AandB(l), _) => Some(l.lesson()),
            (WeekOptionView::A(l), Zyklus::I) => Some(l.lesson()),
            (WeekOptionView::A(_), Zyklus::II) => None,
            (WeekOptionView::B(l), Zyklus::II) => Some(l.lesson()),
            (WeekOptionView::B(_), Zyklus::I) => None,
            (WeekOptionView::AorB(l, _), Zyklus::I) => Some(l.lesson()),
            (WeekOptionView::AorB(_, l), Zyklus::II) => Some(l.lesson()),
        }
    }
}

impl Default for WeekOption {
    fn default() -> (r: Self)
        ensures
            r is Nothing,
    {
        WeekOption::Nothing
    }
}

impl WeekOption {
    /// The lesson that the timetable gives in the cycle `zyklus`, if any.
    pub fn lesson_in(&self, zyklus: Zyklus) -> (r: Option<Lesson>)
        ensures
            match r {
                Some(l) => self@.usual(zyklus) == Some(l@),
                None => self@.usual(zyklus) is None,
            },
    {
        match self {
            WeekOption::Nothing => None,
            WeekOption::AandB(l) => Some(l.to_lesson()),
            WeekOption::A(l) => match zyklus {
                Zyklus::I => Some(l.to_lesson()),
                Zyklus::II => None,
            },
            WeekOption::B(l) => match zyklus {
                Zyklus::II => Some(l.to_lesson()),
                Zyklus::I => None,
            },
            WeekOption::AorB(l1, l2) => match zyklus {
                Zyklus::I => Some(l1.to_lesson()),
                Zyklus::II => Some(l2.to_lesson()),
            },
        }
    }
}

/// The timetable of one weekday: a lesson or none for each double period.
#[derive(Clone, Debug, PartialEq, Eq)]
pub struct PlanDay {
    pub day: String,
    pub lessons: [WeekOption; 5],
}

/// What a `PlanDay` says: the name of the weekday and what the timetable
/// holds for each of the five double periods.
pub struct PlanDayView {
    pub day: Seq<char>,
    pub lessons: Seq<WeekOptionView>,
}

impl View for PlanDay {
    type V = PlanDayView;

    open spec fn view(&self) -> PlanDayView {
        PlanDayView { day: self.day@, lessons: Seq::new(5, |i: int| self.lessons@[i]@) }
    }
}

impl Default for PlanDay {
    fn default() -> (r: Self)
        ensures
            r@ == (PlanDayView {
                day: Seq::empty(),
                lessons: Seq::new(5, |i: int| WeekOptionView::Nothing),
            }),
    {
        let r = PlanDay {
            day: String::new(),
            lessons: [
                WeekOption::Nothing,
                WeekOption::Nothing,
                WeekOption::Nothing,
                WeekOption::Nothing,
                WeekOption::Nothing,
            ],
        };
        assert(r@.lessons =~= Seq::new(5, |i: int| WeekOptionView::Nothing));
        r
    }
}

/// A user's weekly timetable, with the class and the subjects by which
/// the substitutions that concern the user are chosen.
#[derive(Clone, Debug, PartialEq, Eq)]
pub struct Plan {
    pub class_name: String,
    pub days: Vec<PlanDay>,
    pub subjects: Vec<String>,
}

/// What a `Plan` says.
pub struct PlanView {
    pub class_name: Seq<char>,
    pub days: Seq<PlanDayView>,
    pub subjects: Seq<Seq<char>>,
}

impl View for Plan {
    type V = PlanView;

    open spec fn view(&self) -> PlanView {
        PlanView {
            class_name: self.class_name@,
            days: Seq::new(self.days@.len(), |k: int| self.days@[k]@),
            subjects: Seq::new(self.subjects@.len(), |k: int| self.subjects@[k]@),
        }
    }
}

/// One day as the user sees it: for each of the ten periods the lessons
/// that take place.
#[derive(Clone, Debug, PartialEq, Eq)]
pub struct Day {
    pub day: String,
    pub lessons: [Vec<Lesson>; 10],
}

/// What a `Day` says: its name and the lessons of each of the ten periods.
pub struct DayView {
    pub day: Seq<char>,
    pub lessons: Seq<Seq<LessonView>>,
}

impl View for Day {
    type V = DayView;

    open spec fn view(&self) -> DayView {
        DayView { day: self.day@, lessons: Seq::new(10, |i: int| views(self.lessons@[i]@)) }
    }
}

impl Day {
    /// A day without lessons.
    pub fn new(day: &str) -> (r: Day)
        ensures
            r@ == (DayView { day: day@, lessons: Seq::new(10, |i: int| Seq::empty()) }),
    {
        let r = Day {
            day: String::from_str(day),
            lessons: [
                Vec::new(),
                Vec::new(),
                Vec::new(),
                Vec::new(),
                Vec::new(),
                Vec::new(),
                Vec::new(),
                Vec::new(),
                Vec::new(),
                Vec::new(),
            ],
        };
        assert forall|i: int| 0 <= i < 10 implies views(#[trigger] r.lessons@[i]@)
            =~= Seq::<LessonView>::empty() by {
            assert(r.lessons@[i]@.len() == 0);
        }
        assert(r@.lessons =~= Seq::new(10, |i: int| Seq::<LessonView>::empty()));
        r
    }
}

} // verus!
