//! The periodic check of the sources: what one answer of a source means,
//! and which step the loop takes next.

use crate::date::Date;
use crate::extract::{vday_views, extracted, get_vday, outcome_view, VDay, VDayView};
use crate::failure::ParseFailure;
use crate::html::texts;
use crate::weeks::{WeekZyklus, WeekZyklusList};
use vstd::prelude::*;

verus! {

/// The number of sources that the loop checks, one after the other.
pub const SOURCES: usize = 10;

/// The seconds that the loop sleeps between two rounds.
pub const PAUSE: u64 = 900;

/// What the check of one source found.
#[derive(Debug, PartialEq, Eq)]
pub enum ChangeOption<T> {
    /// The source has changed; this is its day.
    Changed(T),
    /// The source is as it was; this is its day.
    Same(T),
    /// The source gives no day this time.
    Nothing,
    /// The source could not be reached.
    End,
}

impl View for ChangeOption<VDay> {
    type V = ChangeOption<VDayView>;

    open spec fn view(&self) -> ChangeOption<VDayView> {
        match *self {
            ChangeOption::Changed(day) => ChangeOption::Changed(day@),
            ChangeOption::Same(day) => ChangeOption::Same(day@),
            ChangeOption::Nothing => ChangeOption::Nothing,
            ChangeOption::End => ChangeOption::End,
        }
    }
}

/// What a source answered: whether with success, the mark of its last
/// change, and its text.
#[derive(Clone, Debug, PartialEq, Eq)]
pub struct Response {
    pub success: bool,
    pub last_modified: String,
    pub text: String,
}

/// What a `Response` says.
pub struct ResponseView {
    pub success: bool,
    pub last_modified: Seq<char>,
    pub text: Seq<char>,
}

impl View for Response {
    type V = ResponseView;

    open spec fn view(&self) -> ResponseView {
        ResponseView {
            success: self.success,
            last_modified: self.last_modified@,
            text: self.text@,
        }
    }
}

/// What the answer `response` says, if there is one.
pub open spec fn response_view(response: Option<&Response>) -> Option<ResponseView> {
    match response {
        Some(answer) => Some(answer@),
        None => None,
    }
}

/// What the day `known` says, if there is one.
pub open spec fn known_view(known: Option<VDay>) -> Option<VDayView> {
    match known {
        Some(day) => Some(day@),
        None => None,
    }
}

/// What each of the days `known` says, where there is one.
pub open spec fn known_views(known: Seq<Option<VDay>>) -> Seq<Option<VDayView>> {
    Seq::new(known.len(), |k: int| known_view(known[k]))
}

/// What the check of one source leaves: what it found, the mark kept for
/// the source, the last day seen at it and the day known of it.
pub struct Checked {
    pub change: ChangeOption<VDayView>,
    pub last_time: Seq<char>,
    pub last_date: Date,
    pub known: Option<VDayView>,
}

/// What a page means that has changed, was extracted to `found` and
/// carries the mark `marker`, when `last_time` is the mark kept for its
/// source and `known` the day known of it: what it gives, the mark kept
/// and the day known afterwards. A day makes the source changed: the day is
/// known from now on, and the mark of the page is kept. A page without a
/// day gives nothing and leaves mark and known day as they are.
pub open spec fn taken(
    found: Result<Option<VDayView>, ParseFailure>,
    marker: Seq<char>,
    last_time: Seq<char>,
    known: Option<VDayView>,
) -> (ChangeOption<VDayView>, Seq<char>, Option<VDayView>) {
    match found {
        Ok(Some(day)) => (ChangeOption::Changed(day), marker, Some(day)),
        _ => (ChangeOption::Nothing, last_time, known),
    }
}

/// What the answer `response` of a source means when `last_time` is the
/// mark kept for the source, `last_date` the last day seen at it and
/// `known` the day known of it.
///
/// A source that did not answer, or not with success, is at its end. A page
/// that carries the mark kept has not changed: the day known of the source
/// is its day still, and nothing is extracted. Any other page is extracted;
/// what it gives is what `taken` says.
pub open spec fn checked(
    response: Option<ResponseView>,
    last_time: Seq<char>,
    last_date: Date,
    known: Option<VDayView>,
    weeks: Seq<WeekZyklus>,
) -> Checked {
    match response {
        Some(answer) => if !answer.success {
            Checked { change: ChangeOption::End, last_time, last_date, known }
        } else if answer.last_modified == last_time && known is Some {
            Checked { change: ChangeOption::Same(known->0), last_time, last_date, known }
        } else {
            let found = extracted(answer.text, last_date, weeks);
            let (change, mark, day) = taken(found.outcome(), answer.last_modified, last_time, known);
            Checked {
                change,
                last_time: mark,
                last_date: found.last_date(last_date),
                known: day,
            }
        },
        None => Checked { change: ChangeOption::End, last_time, last_date, known },
    }
}

/// What a page means that has changed, was extracted to `found` and
/// carries the mark `marker`. A day makes the source changed: `known`
/// holds the day from now on, and `last_time` the mark of the page. A page
/// without a day gives nothing and leaves both as they are.
pub fn take(
    found: Result<Option<VDay>, ParseFailure>,
    marker: &String,
    last_time: &mut String,
    known: &mut Option<VDay>,
) -> (r: ChangeOption<VDay>)
    ensures
        (r@, final(last_time)@, known_view(*final(known))) == taken(
            outcome_view(found),
            marker@,
            old(last_time)@,
            known_view(*old(known)),
        ),
        r matches ChangeOption::Changed(day) ==> found == Ok::<Option<VDay>, ParseFailure>(
            Some(day),
        ),
{
    match found {
        Ok(Some(day)) => {
            *last_time = marker.clone();
            *known = Some(day.clone());
            ChangeOption::Changed(day)
        },
        _ => ChangeOption::Nothing,
    }
}

/// What the answer `response` of a source means. A source that did not
/// answer, or not with success, is at its end. A page with the mark kept in
/// `last_time` has not changed: the day in `known` is handed out as the
/// same. Any other page is read: if it gives a day later than `last_date`,
/// that day is handed out as changed and kept in `known`, `last_time`
/// takes the mark of the page and `last_date` moves on to the day; if not,
/// the source gives nothing.
pub fn check_change(
    response: Option<&Response>,
    last_time: &mut String,
    last_date: &mut Date,
    known: &mut Option<VDay>,
    weeks: &WeekZyklusList,
) -> (r: ChangeOption<VDay>)
    ensures
        (Checked {
            change: r@,
            last_time: final(last_time)@,
            last_date: *final(last_date),
            known: known_view(*final(known)),
        }) == checked(
            response_view(response),
            old(last_time)@,
            *old(last_date),
            known_view(*old(known)),
            weeks@,
        ),
        r matches ChangeOption::Changed(day) ==> day.wf(),
{
    let answer = match response {
        Some(answer) => answer,
        None => {
            return ChangeOption::End;
        },
    };
    if !answer.success {
        return ChangeOption::End;
    }
    if *last_time == answer.last_modified {
        match known {
            Some(day) => {
                return ChangeOption::Same(day.clone());
            },
            None => {},
        }
    }
    let found = get_vday(&answer.text, last_date, weeks);
    take(found, &answer.last_modified, last_time, known)
}

/// Where the loop stands.
#[derive(Clone, Copy, Debug, PartialEq, Eq, Structural)]
pub enum Phase {
    /// Before the first round.
    Idle,
    /// In a round, waiting for the answer of the source with this index.
    Fetching(usize),
    /// At the end of a round, waiting for the days to be published.
    Publishing,
    /// Between two rounds.
    Sleeping,
    /// Stopped for good.
    Cancelled,
}

/// What happened outside the loop.
#[derive(Debug, PartialEq, Eq)]
pub enum Event {
    /// A round is due; the day before today is given.
    Tick(Date),
    /// The source asked has been checked.
    Checked(ChangeOption<VDay>),
    /// The days have been published, or could not be.
    Published,
    /// The loop is to stop.
    Cancel,
}

/// What an `Event` says.
pub enum EventView {
    Tick(Date),
    Checked(ChangeOption<VDayView>),
    Published,
    Cancel,
}

impl View for Event {
    type V = EventView;

    open spec fn view(&self) -> EventView {
        match *self {
            Event::Tick(yesterday) => EventView::Tick(yesterday),
            Event::Checked(change) => EventView::Checked(change@),
            Event::Published => EventView::Published,
            Event::Cancel => EventView::Cancel,
        }
    }
}

/// What the loop asks for.
#[derive(Debug, PartialEq, Eq)]
pub enum Action {
    /// Ask the source with this number, counted from 1.
    Fetch(i64),
    /// Replace the days that are served by these, if any are given, and
    /// forget who knows the days served, if the flag is set.
    Publish(Option<Vec<VDay>>, bool),
    /// Sleep for so many seconds, unless told to stop.
    Sleep(u64),
    /// End the loop.
    Stop,
}

/// What an `Action` says.
pub enum ActionView {
    Fetch(i64),
    Publish(Option<Seq<VDayView>>, bool),
    Sleep(u64),
    Stop,
}

impl View for Action {
    type V = ActionView;

    open spec fn view(&self) -> ActionView {
        match *self {
            Action::Fetch(number) => ActionView::Fetch(number),
            Action::Publish(Some(days), clear) => ActionView::Publish(
                Some(vday_views(days@)),
                clear,
            ),
            Action::Publish(None, clear) => ActionView::Publish(None, clear),
            Action::Sleep(seconds) => ActionView::Sleep(seconds),
            Action::Stop => ActionView::Stop,
        }
    }
}

/// The loop's own state: for each source the mark of its last change, the
/// last day seen at it and the day known of it, and what the round under
/// way has found.
#[derive(Debug)]
pub struct CheckLoop {
    pub phase: Phase,
    pub times: Vec<String>,
    pub dates: Vec<Date>,
    pub known: Vec<Option<VDay>>,
    pub vdays_local: Vec<VDay>,
    pub updated: bool,
}

/// What a `CheckLoop` holds.
pub struct LoopView {
    pub phase: Phase,
    pub times: Seq<Seq<char>>,
    pub dates: Seq<Date>,
    pub known: Seq<Option<VDayView>>,
    pub vdays_local: Seq<VDayView>,
    pub updated: bool,
}

impl View for CheckLoop {
    type V = LoopView;

    open spec fn view(&self) -> LoopView {
        LoopView {
            phase: self.phase,
            times: texts(self.times@),
            dates: self.dates@,
            known: known_views(self.known@),
            vdays_local: vday_views(self.vdays_local@),
            updated: self.updated,
        }
    }
}

/// The days of a round and its flag of change after one more source.
pub open spec fn recorded(days: Seq<VDayView>, updated: bool, change: ChangeOption<VDayView>) -> (
    Seq<VDayView>,
    bool,
) {
    match change {
        ChangeOption::Changed(day) => (days.push(day), true),
        ChangeOption::Same(day) => (days.push(day), updated),
        ChangeOption::Nothing => (days, updated),
        ChangeOption::End => (days, updated),
    }
}

impl LoopView {
    /// Whether the loop keeps a mark, a date and a known day for each
    /// source, and asks no source beyond them.
    pub open spec fn wf(self) -> bool {
        &&& self.times.len() == SOURCES
        &&& self.dates.len() == SOURCES
        &&& self.known.len() == SOURCES
        &&& self.phase matches Phase::Fetching(i) ==> i < SOURCES
    }

    /// The loop before its first round: no source has a mark or a known
    /// day yet.
    pub open spec fn initial() -> LoopView {
        LoopView {
            phase: Phase::Idle,
            times: Seq::new(SOURCES as nat, |i: int| Seq::empty()),
            dates: Seq::new(SOURCES as nat, |i: int| Date { year: 0, month: 1, day: 1 }),
            known: Seq::new(SOURCES as nat, |i: int| None),
            vdays_local: Seq::empty(),
            updated: false,
        }
    }

    /// The loop with the phase `phase`, all else as it is.
    pub open spec fn at(self, phase: Phase) -> LoopView {
        LoopView {
            phase,
            times: self.times,
            dates: self.dates,
            known: self.known,
            vdays_local: self.vdays_local,
            updated: self.updated,
        }
    }

    /// The loop after the event `event` and what it asks for then, or
    /// `None` where the loop does not take the event up.
    ///
    /// A round begins, from rest or from sleep, with the first source; it
    /// starts with no days, no change, and the day given as the last one
    /// seen at every source. Each source checked adds what it gave, and the
    /// next source is asked, whatever the one before gave. After the last
    /// source the days of the round are handed out to be published, if
    /// there are any, with the flag of change. Once that is done the loop
    /// sleeps; from sleep alone it can be stopped.
    pub open spec fn next(self, event: EventView) -> Option<(LoopView, ActionView)> {
        if !self.wf() {
            None
        } else {
            match (self.phase, event) {
                (Phase::Idle, EventView::Tick(yesterday)) => Some(self.begun(yesterday)),
                (Phase::Sleeping, EventView::Tick(yesterday)) => Some(self.begun(yesterday)),
                (Phase::Fetching(i), EventView::Checked(change)) => {
                    let (days, updated) = recorded(self.vdays_local, self.updated, change);
                    if i + 1 < SOURCES {
                        Some(
                            (
                                LoopView {
                                    phase: Phase::Fetching((i + 1) as usize),
                                    times: self.times,
                                    dates: self.dates,
                                    known: self.known,
                                    vdays_local: days,
                                    updated,
                                },
                                ActionView::Fetch((i + 2) as i64),
                            ),
                        )
                    } else {
                        Some(
                            (
                                LoopView {
                                    phase: Phase::Publishing,
                                    times: self.times,
                                    dates: self.dates,
                                    known: self.known,
                                    vdays_local: Seq::empty(),
                                    updated: false,
                                },
                                ActionView::Publish(
                                    if days.len() > 0 {
                                        Some(days)
                                    } else {
                                        None
                                    },
                                    updated,
                                ),
                            ),
                        )
                    }
                },
                (Phase::Publishing, EventView::Published) => Some(
                    (self.at(Phase::Sleeping), ActionView::Sleep(PAUSE)),
                ),
                (Phase::Sleeping, EventView::Cancel) => Some(
                    (self.at(Phase::Cancelled), ActionView::Stop),
                ),
                _ => None,
            }
        }
    }

    /// The loop at the begin of a round, and the request for the first source.
    pub open spec fn begun(self, yesterday: Date) -> (LoopView, ActionView) {
        (
            LoopView {
                phase: Phase::Fetching(0),
                times: self.times,
                dates: Seq::new(SOURCES as nat, |i: int| yesterday),
                known: self.known,
                vdays_local: Seq::empty(),
                updated: false,
            },
            ActionView::Fetch(1),
        )
    }

    /// The loop after the answer `response` of the source under way, and
    /// what the answer means. The mark, the last day and the known day of
    /// that source are those that `checked` leaves; no other source is
    /// touched. Where no source is under way the loop stays as it is, and
    /// the source counts as at its end.
    pub open spec fn probed(self, response: Option<ResponseView>, weeks: Seq<WeekZyklus>) -> (
        LoopView,
        ChangeOption<VDayView>,
    ) {
        match self.phase {
            Phase::Fetching(i) => if self.wf() {
                let found = checked(
                    response,
                    self.times[i as int],
                    self.dates[i as int],
                    self.known[i as int],
                    weeks,
                );
                (
                    LoopView {
                        phase: self.phase,
                        times: self.times.update(i as int, found.last_time),
                        dates: self.dates.update(i as int, found.last_date),
                        known: self.known.update(i as int, found.known),
                        vdays_local: self.vdays_local,
                        updated: self.updated,
                    },
                    found.change,
                )
            } else {
                (self, ChangeOption::End)
            },
            _ => (self, ChangeOption::End),
        }
    }
}

/// The loop begins well formed, and no step and no answer makes it ill formed.
pub proof fn lemma_loop_stays_wf(
    state: LoopView,
    event: EventView,
    response: Option<ResponseView>,
    weeks: Seq<WeekZyklus>,
)
    requires
        state.wf(),
    ensures
        LoopView::initial().wf(),
        state.next(event) matches Some((after, _)) ==> after.wf(),
        state.probed(response, weeks).0.wf(),
{
}

/// A loop that sleeps takes up a round that is due, and the order to stop;
/// a loop that has stopped takes up nothing.
pub proof fn lemma_loop_stops_from_sleep(state: LoopView, event: EventView)
    requires
        state.wf(),
    ensures
        state.phase is Sleeping && event is Cancel ==> state.next(event) == Some(
            (state.at(Phase::Cancelled), ActionView::Stop),
        ),
        !(state.phase is Sleeping) ==> !(state.next(event) matches Some((_, ActionView::Stop))),
        state.phase is Cancelled ==> state.next(event) is None,
{
}

/// A source whose page carries the mark kept keeps its known day: the day
/// is handed out as the same, nothing changes, and no change is flagged.
pub proof fn lemma_same_mark_keeps_known(
    answer: ResponseView,
    last_date: Date,
    known: VDayView,
    weeks: Seq<WeekZyklus>,
)
    requires
        answer.success,
    ensures
        checked(Some(answer), answer.last_modified, last_date, Some(known), weeks) == (Checked {
            change: ChangeOption::Same(known),
            last_time: answer.last_modified,
            last_date,
            known: Some(known),
        }),
{
}

/// As many dates as there are sources, each of them `date`.
fn dates_for_all(date: Date) -> (r: Vec<Date>)
    ensures
        r@ == Seq::new(SOURCES as nat, |i: int| date),
{
    let mut r: Vec<Date> = Vec::new();
    while r.len() < SOURCES
        invariant
            r@.len() <= SOURCES,
            forall|i: int| 0 <= i < r@.len() ==> r@[i] == date,
        decreases SOURCES - r@.len(),
    {
        r.push(date);
    }
    assert(r@ =~= Seq::new(SOURCES as nat, |i: int| date));
    r
}

impl CheckLoop {
    /// The loop before its first round: no source has a mark or a known
    /// day yet.
    pub fn new() -> (r: Self)
        ensures
            r@ == LoopView::initial(),
            r@.wf(),
    {
        let mut times: Vec<String> = Vec::new();
        let mut known: Vec<Option<VDay>> = Vec::new();
        while times.len() < SOURCES
            invariant
                times@.len() <= SOURCES,
                known@.len() == times@.len(),
                forall|i: int| 0 <= i < times@.len() ==> (#[trigger] times@[i])@.len() == 0,
                forall|i: int| 0 <= i < known@.len() ==> (#[trigger] known@[i]) is None,
            decreases SOURCES - times@.len(),
        {
            times.push(String::new());
            known.push(None);
        }
        let r = CheckLoop {
            phase: Phase::Idle,
            times,
            dates: dates_for_all(Date { year: 0, month: 1, day: 1 }),
            known,
            vdays_local: Vec::new(),
            updated: false,
        };
        assert(r@.times =~= LoopView::initial().times) by {
            assert forall|i: int| 0 <= i < SOURCES implies #[trigger] r@.times[i]
                =~= Seq::<char>::empty() by {
                assert(r.times@[i]@.len() == 0);
            }
        }
        assert(r@.known =~= LoopView::initial().known) by {
            assert forall|i: int| 0 <= i < SOURCES implies #[trigger] r@.known[i] is None by {
                assert(r.known@[i] is None);
            }
        }
        assert(r@.vdays_local =~= Seq::<VDayView>::empty());
        r
    }

    /// What the answer of the source under way means, by `check_change`
    /// with the mark, the last day and the known day of that source.
    pub fn probe(&mut self, response: Option<&Response>, weeks: &WeekZyklusList) -> (r:
        ChangeOption<VDay>)
        ensures
            (final(self)@, r@) == old(self)@.probed(response_view(response), weeks@),
            r matches ChangeOption::Changed(day) ==> day.wf(),
    {
        match self.phase {
            Phase::Fetching(i) => {
                if i < SOURCES && self.times.len() == SOURCES && self.dates.len() == SOURCES
                    && self.known.len() == SOURCES {
                    let mut marker = self.times[i].clone();
                    let mut date = self.dates[i];
                    let mut known = match &self.known[i] {
                        Some(day) => Some(day.clone()),
                        None => None,
                    };
                    let r = check_change(response, &mut marker, &mut date, &mut known, weeks);
                    let ghost kept = known_view(known);
                    self.times.set(i, marker);
                    self.dates.set(i, date);
                    self.known.set(i, known);
                    assert(self@.times =~= old(self)@.times.update(i as int, marker@));
                    assert(self@.known =~= old(self)@.known.update(i as int, kept));
                    r
                } else {
                    ChangeOption::End
                }
            },
            _ => ChangeOption::End,
        }
    }

    /// Takes the loop one step on: to the state, and with the request,
    /// that `next` gives for the event. An event that the loop does not
    /// take up where it stands leaves it as it is and asks for nothing.
    pub fn step(&mut self, event: Event) -> (r: Option<Action>)
        ensures
            match old(self)@.next(event@) {
                Some((state, action)) => {
                    &&& final(self)@ == state
                    &&& r matches Some(a)
                    &&& a@ == action
                },
                None => r is None && *final(self) == *old(self),
            },
    {
        if self.times.len() != SOURCES || self.dates.len() != SOURCES || self.known.len()
            != SOURCES {
            return None;
        }
        match (self.phase, event) {
            (Phase::Idle, Event::Tick(yesterday)) | (Phase::Sleeping, Event::Tick(yesterday)) => {
                self.phase = Phase::Fetching(0);
                self.dates = dates_for_all(yesterday);
                self.vdays_local = Vec::new();
                self.updated = false;
                assert(self@.vdays_local =~= Seq::<VDayView>::empty());
                Some(Action::Fetch(1))
            },
            (Phase::Fetching(i), Event::Checked(change)) => {
                if i >= SOURCES {
                    return None;
                }
                let ghost before = self@.vdays_local;
                match change {
                    ChangeOption::Changed(day) => {
                        self.vdays_local.push(day);
                        self.updated = true;
                        assert(self@.vdays_local =~= before.push(day@));
                    },
                    ChangeOption::Same(day) => {
                        self.vdays_local.push(day);
                        assert(self@.vdays_local =~= before.push(day@));
                    },
                    ChangeOption::Nothing => {},
                    ChangeOption::End => {},
                }
                if i + 1 < SOURCES {
                    self.phase = Phase::Fetching(i + 1);
                    Some(Action::Fetch(i as i64 + 2))
                } else {
                    self.phase = Phase::Publishing;
                    let clear = self.updated;
                    self.updated = false;
                    let mut days: Vec<VDay> = Vec::new();
                    std::mem::swap(&mut days, &mut self.vdays_local);
                    assert(self@.vdays_local =~= Seq::<VDayView>::empty());
                    if days.len() > 0 {
                        Some(Action::Publish(Some(days), clear))
                    } else {
                        Some(Action::Publish(None, clear))
                    }
                }
            },
            (Phase::Publishing, Event::Published) => {
                self.phase = Phase::Sleeping;
                Some(Action::Sleep(PAUSE))
            },
            (Phase::Sleeping, Event::Cancel) => {
                self.phase = Phase::Cancelled;
                Some(Action::Stop)
            },
            _ => None,
        }
    }
}

} // verus!
