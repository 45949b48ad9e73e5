//! A substitution day laid over a user's timetable.

use crate::extract::{VDay, VDayView};
use crate::failure::PlanMismatch;
use crate::html::texts;
use crate::lesson::{views, Lesson, LessonView};
use crate::plan::{Day, DayView, Plan, PlanDay, PlanDayView, PlanView, WeekOptionView};
use crate::text::{chars_of, contains, first_token, first_word, has_part};
use crate::weeks::Zyklus;
use vstd::prelude::*;

verus! {

/// Whether one of `parts` is a contiguous part of `s`.
pub open spec fn listed(s: Seq<char>, parts: Seq<Seq<char>>) -> bool {
    exists|k: int| 0 <= k < parts.len() && contains(s, #[trigger] parts[k])
}

/// Whether the substitution `lesson` concerns the user of `plan`: its class
/// holds the class of the plan, and its subject holds one of the subjects
/// of the plan.
pub open spec fn concerns(plan: PlanView, lesson: LessonView) -> bool {
    contains(lesson.class, plan.class_name) && listed(lesson.subject, plan.subjects)
}

/// Those of `lessons` that concern the user of `plan` and take place in the
/// period `period`, in their order.
pub open spec fn substitutions(lessons: Seq<LessonView>, plan: PlanView, period: int) -> Seq<
    LessonView,
>
    decreases lessons.len(),
{
    if lessons.len() == 0 {
        Seq::empty()
    } else if concerns(plan, lessons.last()) && lessons.last().time == period {
        substitutions(lessons.drop_last(), plan, period).push(lessons.last())
    } else {
        substitutions(lessons.drop_last(), plan, period)
    }
}

/// The first of `days` whose name holds `weekday`.
pub open spec fn day_index(days: Seq<PlanDayView>, weekday: Seq<char>) -> Option<int>
    decreases days.len(),
{
    if days.len() == 0 {
        None
    } else {
        match day_index(days.drop_last(), weekday) {
            Some(k) => Some(k),
            None => if contains(days.last().day, weekday) {
                Some(days.len() - 1)
            } else {
                None
            },
        }
    }
}

/// The lessons of the period with the index `index` (from 0 to 9): the
/// substitutions of that period. Where the first period of a double period
/// has none, the timetable's lesson for the double period stands there.
pub open spec fn slot(vday: VDayView, plan: PlanView, day: PlanDayView, index: int) -> Seq<
    LessonView,
> {
    let given = substitutions(vday.lessons, plan, index + 1);
    if index % 2 == 0 && given.len() == 0 {
        match day.lessons[index / 2].usual(vday.zyklus) {
            Some(l) => seq![l],
            None => Seq::empty(),
        }
    } else {
        given
    }
}

/// The substitution day `vday` laid over the day `day` of `plan`: the label
/// of `vday` and, for each of the ten periods, the lessons of `slot`.
pub open spec fn laid_over(vday: VDayView, plan: PlanView, day: PlanDayView) -> DayView {
    DayView { day: vday.label, lessons: Seq::new(10, |i: int| slot(vday, plan, day, i)) }
}

/// The weekday that the label of `vday` begins with.
pub open spec fn weekday_of(vday: VDayView) -> Seq<char> {
    first_word(vday.label)->0
}

/// What laying `vday` over `plan` gives: the day, laid over the first day
/// of the plan whose name holds the weekday of `vday`, or that weekday if
/// the plan has no such day.
pub open spec fn reconciled(vday: VDayView, plan: PlanView) -> Result<DayView, Seq<char>> {
    match day_index(plan.days, weekday_of(vday)) {
        Some(k) => Ok(laid_over(vday, plan, plan.days[k])),
        None => Err(weekday_of(vday)),
    }
}

/// What `r` says.
pub open spec fn result_view(r: Result<Day, PlanMismatch>) -> Result<DayView, Seq<char>> {
    match r {
        Ok(day) => Ok(day@),
        Err(mismatch) => Err(mismatch.weekday@),
    }
}

/// What each day of `days` says.
pub open spec fn day_views(days: Seq<Day>) -> Seq<DayView> {
    Seq::new(days.len(), |k: int| days[k]@)
}

/// What `r` says.
pub open spec fn results_view(r: Result<Vec<Day>, PlanMismatch>) -> Result<Seq<DayView>, Seq<char>> {
    match r {
        Ok(days) => Ok(day_views(days@)),
        Err(mismatch) => Err(mismatch.weekday@),
    }
}

/// What laying each of `vdays` over `plan` gives: the days, or the weekday
/// of the first of `vdays` for which the plan has no day.
pub open spec fn reconciled_all(vdays: Seq<VDayView>, plan: PlanView) -> Result<
    Seq<DayView>,
    Seq<char>,
>
    decreases vdays.len(),
{
    if vdays.len() == 0 {
        Ok(Seq::empty())
    } else {
        match reconciled_all(vdays.drop_last(), plan) {
            Ok(days) => match reconciled(vdays.last(), plan) {
                Ok(day) => Ok(days.push(day)),
                Err(weekday) => Err(weekday),
            },
            Err(weekday) => Err(weekday),
        }
    }
}

/// Whether one of the strings of `vec` is a contiguous part of `string`.
pub fn is_in(string: &str, vec: &Vec<String>) -> (r: bool)
    ensures
        r == listed(string@, texts(vec@)),
{
    let hay = chars_of(string);
    let mut k: usize = 0;
    while k < vec.len()
        invariant
            k <= vec.len(),
            hay@ == string@,
            forall|j: int| 0 <= j < k ==> !contains(string@, #[trigger] texts(vec@)[j]),
        decreases vec.len() - k,
    {
        let part = chars_of(vec[k].as_str());
        if has_part(&hay, &part) {
            assert(contains(string@, texts(vec@)[k as int]));
            return true;
        }
        k += 1;
    }
    false
}

/// For each of `lessons`, whether it concerns the user of `plan`.
pub fn concerning(lessons: &Vec<Lesson>, plan: &Plan) -> (r: Vec<bool>)
    ensures
        r@.len() == lessons@.len(),
        forall|k: int| 0 <= k < r@.len() ==> r@[k] == concerns(plan@, #[trigger] lessons@[k]@),
{
    let class = chars_of(plan.class_name.as_str());
    let mut r: Vec<bool> = Vec::new();
    let mut k: usize = 0;
    assert(plan@.subjects == texts(plan.subjects@));
    while k < lessons.len()
        invariant
            k <= lessons.len(),
            class@ == plan@.class_name,
            plan@.subjects == texts(plan.subjects@),
            r@.len() == k,
            forall|j: int| 0 <= j < k ==> r@[j] == concerns(plan@, #[trigger] lessons@[j]@),
        decreases lessons.len() - k,
    {
        let named = chars_of(lessons[k].class.as_str());
        let fits = has_part(&named, &class) && is_in(lessons[k].subject.as_str(), &plan.subjects);
        r.push(fits);
        k += 1;
    }
    r
}

/// What each day of `days` says.
pub open spec fn plan_days(days: Seq<PlanDay>) -> Seq<PlanDayView> {
    Seq::new(days.len(), |k: int| days[k]@)
}

/// The first of `days` whose name holds `weekday`.
pub fn find_day(days: &Vec<PlanDay>, weekday: &str) -> (r: Option<usize>)
    ensures
        match r {
            Some(k) => day_index(plan_days(days@), weekday@) == Some(k as int) && k < days.len(),
            None => day_index(plan_days(days@), weekday@) is None,
        },
{
    let word = chars_of(weekday);
    let mut k: usize = 0;
    let ghost all = plan_days(days@);
    assert(all.take(0) == Seq::<PlanDayView>::empty());
    while k < days.len()
        invariant
            k <= days.len(),
            all == plan_days(days@),
            word@ == weekday@,
            day_index(all.take(k as int), weekday@) is None,
        decreases days.len() - k,
    {
        let name = chars_of(days[k].day.as_str());
        assert(all.take(k + 1).drop_last() == all.take(k as int));
        assert(all.take(k + 1).last().day == days@[k as int].day@);
        if has_part(&name, &word) {
            proof {
                lemma_day_index_stays(all, weekday@, k + 1);
            }
            return Some(k);
        }
        k += 1;
    }
    assert(all.take(k as int) == all);
    None
}

/// A day found among the first `k` days is the day found among all.
pub proof fn lemma_day_index_stays(days: Seq<PlanDayView>, weekday: Seq<char>, k: int)
    requires
        0 <= k <= days.len(),
        day_index(days.take(k), weekday) is Some,
    ensures
        day_index(days, weekday) == day_index(days.take(k), weekday),
    decreases days.len(),
{
    if k < days.len() {
        assert(days.drop_last().take(k) == days.take(k));
        lemma_day_index_stays(days.drop_last(), weekday, k);
    } else {
        assert(days.take(k) == days);
    }
}

/// The lessons of the period with the index `index`, given for each of the
/// lessons of the day whether it concerns the user.
fn slot_lessons(vday: &VDay, fits: &Vec<bool>, plan: &Plan, day: &PlanDay, index: usize) -> (r: Vec<
    Lesson,
>)
    requires
        index < 10,
        fits@.len() == vday.2@.len(),
        forall|k: int| 0 <= k < fits@.len() ==> fits@[k] == concerns(plan@, #[trigger] vday.2@[k]@),
    ensures
        views(r@) == slot(vday@, plan@, day@, index as int),
{
    let period: i64 = index as i64 + 1;
    let mut r: Vec<Lesson> = Vec::new();
    let mut k: usize = 0;
    let ghost all = views(vday.2@);
    assert(all.take(0) == Seq::<LessonView>::empty());
    assert(views(r@) == Seq::<LessonView>::empty());
    while k < vday.2.len()
        invariant
            k <= vday.2.len(),
            period == index + 1,
            all == views(vday.2@),
            fits@.len() == vday.2@.len(),
            forall|j: int|
                0 <= j < fits@.len() ==> fits@[j] == concerns(plan@, #[trigger] vday.2@[j]@),
            views(r@) == substitutions(all.take(k as int), plan@, period as int),
        decreases vday.2.len() - k,
    {
        assert(all.take(k + 1).drop_last() == all.take(k as int));
        assert(all.take(k + 1).last() == vday.2@[k as int]@);
        if fits[k] && vday.2[k].time == period {
            let ghost before = views(r@);
            r.push(vday.2[k].clone());
            assert(views(r@) == before.push(vday.2@[k as int]@));
        }
        k += 1;
    }
    assert(all.take(k as int) == all);
    if index % 2 == 0 && r.len() == 0 {
        match day.lessons[index / 2].lesson_in(vday.1) {
            Some(l) => {
                r.push(l);
                assert(views(r@) == seq![l@]);
            },
            None => {},
        }
    }
    r
}

/// Lays the substitution day `vday` over the timetable `plan`: the day as
/// the user of the plan sees it. It fails if the plan has no day for the
/// weekday of `vday`.
pub fn get_day(vday: &VDay, plan: &Plan) -> (r: Result<Day, PlanMismatch>)
    requires
        vday@.wf(),
    ensures
        result_view(r) == reconciled(vday@, plan@),
{
    let weekday = match first_token(vday.0.as_str()) {
        Some(w) => w,
        None => {
            return Err(PlanMismatch { weekday: String::new() });
        },
    };
    assert(plan@.days == plan_days(plan.days@));
    let k = match find_day(&plan.days, weekday.as_str()) {
        Some(k) => k,
        None => {
            return Err(PlanMismatch { weekday });
        },
    };
    let day = &plan.days[k];
    let fits = concerning(&vday.2, plan);
    let r = Day {
        day: vday.0.clone(),
        lessons: [
            slot_lessons(vday, &fits, plan, day, 0),
            slot_lessons(vday, &fits, plan, day, 1),
            slot_lessons(vday, &fits, plan, day, 2),
            slot_lessons(vday, &fits, plan, day, 3),
            slot_lessons(vday, &fits, plan, day, 4),
            slot_lessons(vday, &fits, plan, day, 5),
            slot_lessons(vday, &fits, plan, day, 6),
            slot_lessons(vday, &fits, plan, day, 7),
            slot_lessons(vday, &fits, plan, day, 8),
            slot_lessons(vday, &fits, plan, day, 9),
        ],
    };
    assert(r@.lessons =~= laid_over(vday@, plan@, day@).lessons);
    Ok(r)
}

/// Lays each of `vdays` over the timetable `plan`. It fails at the first
/// of them for whose weekday the plan has no day.
pub fn get_days(vdays: &Vec<VDay>, plan: &Plan) -> (r: Result<Vec<Day>, PlanMismatch>)
    requires
        forall|k: int| 0 <= k < vdays@.len() ==> (#[trigger] vdays@[k])@.wf(),
    ensures
        results_view(r) == reconciled_all(crate::extract::vday_views(vdays@), plan@),
{
    let mut days: Vec<Day> = Vec::new();
    let mut k: usize = 0;
    let ghost all = crate::extract::vday_views(vdays@);
    assert(all.take(0) == Seq::<VDayView>::empty());
    assert(day_views(days@) == Seq::<DayView>::empty());
    while k < vdays.len()
        invariant
            k <= vdays.len(),
            all == crate::extract::vday_views(vdays@),
            forall|j: int| 0 <= j < vdays@.len() ==> (#[trigger] vdays@[j])@.wf(),
            reconciled_all(all.take(k as int), plan@) == Ok::<Seq<DayView>, Seq<char>>(
                day_views(days@),
            ),
        decreases vdays.len() - k,
    {
        assert(all.take(k + 1).drop_last() == all.take(k as int));
        assert(all.take(k + 1).last() == vdays@[k as int]@);
        match get_day(&vdays[k], plan) {
            Ok(day) => {
                let ghost before = day_views(days@);
                days.push(day);
                assert(day_views(days@) == before.push(day@));
            },
            Err(e) => {
                proof {
                    lemma_reconciled_all_fails(all, plan@, k + 1);
                }
                return Err(e);
            },
        }
        k += 1;
    }
    assert(all.take(k as int) == all);
    Ok(days)
}

/// Where laying the first `k` days over the plan fails, laying all of them
/// fails for the same weekday.
pub proof fn lemma_reconciled_all_fails(vdays: Seq<VDayView>, plan: PlanView, k: int)
    requires
        0 <= k <= vdays.len(),
        reconciled_all(vdays.take(k), plan) is Err,
    ensures
        reconciled_all(vdays, plan) == reconciled_all(vdays.take(k), plan),
    decreases vdays.len(),
{
    if k < vdays.len() {
        assert(vdays.drop_last().take(k) == vdays.take(k));
        lemma_reconciled_all_fails(vdays.drop_last(), plan, k);
    } else {
        assert(vdays.take(k) == vdays);
    }
}

/// Where a substitution stands in the first period of a double period, the
/// timetable adds nothing to either period of it.
pub proof fn lemma_substitution_suppresses(
    vday: VDayView,
    plan: PlanView,
    day: PlanDayView,
    pair: int,
)
    requires
        0 <= pair < 5,
        substitutions(vday.lessons, plan, 2 * pair + 1).len() > 0,
    ensures
        slot(vday, plan, day, 2 * pair) == substitutions(vday.lessons, plan, 2 * pair + 1),
        slot(vday, plan, day, 2 * pair + 1) == substitutions(vday.lessons, plan, 2 * pair + 2),
{
}

/// The second period of a double period holds substitutions only.
pub proof fn lemma_second_period_not_filled(
    vday: VDayView,
    plan: PlanView,
    day: PlanDayView,
    pair: int,
)
    requires
        0 <= pair < 5,
    ensures
        slot(vday, plan, day, 2 * pair + 1) == substitutions(vday.lessons, plan, 2 * pair + 2),
{
}

/// Where no substitution takes the place, a lesson of one cycle only
/// stands in the day exactly in that cycle, of two alternating lessons the
/// one of the cycle, and a lesson of both cycles always.
pub proof fn lemma_cycle_decides(vday: VDayView, plan: PlanView, day: PlanDayView, pair: int)
    requires
        0 <= pair < 5,
        substitutions(vday.lessons, plan, 2 * pair + 1).len() == 0,
    ensures
        day.lessons[pair] matches WeekOptionView::A(l) ==> slot(vday, plan, day, 2 * pair) == if vday.zyklus
            == Zyklus::I {
            seq![l.lesson()]
        } else {
            Seq::empty()
        },
        day.lessons[pair] matches WeekOptionView::B(l) ==> slot(vday, plan, day, 2 * pair) == if vday.zyklus
            == Zyklus::II {
            seq![l.lesson()]
        } else {
            Seq::empty()
        },
        day.lessons[pair] matches WeekOptionView::AorB(a, b) ==> slot(vday, plan, day, 2 * pair)
            == if vday.zyklus == Zyklus::I {
            seq![a.lesson()]
        } else {
            seq![b.lesson()]
        },
        day.lessons[pair] matches WeekOptionView::AandB(l) ==> slot(vday, plan, day, 2 * pair)
            == seq![l.lesson()],
        day.lessons[pair] is Nothing ==> slot(vday, plan, day, 2 * pair)
            == Seq::<LessonView>::empty(),
{
}

} // verus!
