use vertretung::cache::{UpdatedList, VdayCache};
use vertretung::check_loop::{
    check_change, take, Action, ChangeOption, CheckLoop, Event, Phase, Response,
};
use vertretung::date::Date;
use vertretung::extract::VDay;
use vertretung::failure::ParseFailure;
use vertretung::lesson::Lesson;
use vertretung::weeks::{WeekZyklusList, Zyklus};

fn page(heading: &str) -> String {
    format!(
        "<h1 class=\"list-table-caption\">{}</h1><table><tbody>\
         <tr><td>10a</td><td>3.</td><td>Ma</td><td>A1</td><td>Mue</td><td>Ausfall</td><td></td></tr>\
         </tbody></table>",
        heading
    )
}

fn day(label: &str) -> VDay {
    VDay(
        label.to_string(),
        Zyklus::I,
        vec![Lesson {
            class: "10a".to_string(),
            time: 3,
            subject: "Ma".to_string(),
            room: "A1".to_string(),
            teacher: "Mue".to_string(),
            vtype: "Ausfall".to_string(),
            message: String::new(),
        }],
    )
}

fn answer(marker: &str, heading: &str) -> Response {
    Response { success: true, last_modified: marker.to_string(), text: page(heading) }
}

fn september(day: u32) -> Date {
    Date { year: 2024, month: 9, day }
}

#[test]
fn a_day_of_a_changed_page_is_known_from_then_on() {
    let mut kept = "Mon, 02 Sep".to_string();
    let mut known = None;
    assert_eq!(
        take(Ok(Some(day("Montag"))), &"Tue, 03 Sep".to_string(), &mut kept, &mut known),
        ChangeOption::Changed(day("Montag"))
    );
    assert_eq!(kept, "Tue, 03 Sep");
    assert_eq!(known, Some(day("Montag")));
    assert_eq!(take(Ok(None), &"Wed".to_string(), &mut kept, &mut known), ChangeOption::Nothing);
    assert_eq!(
        take(Err(ParseFailure), &"Wed".to_string(), &mut kept, &mut known),
        ChangeOption::Nothing
    );
    assert_eq!(kept, "Tue, 03 Sep");
    assert_eq!(known, Some(day("Montag")));
}

#[test]
fn a_source_that_does_not_answer_is_at_its_end() {
    let weeks = WeekZyklusList::empty();
    let mut kept = "a".to_string();
    let mut last = september(1);
    let mut known = Some(day("Freitag 30.08.2024"));
    assert_eq!(check_change(None, &mut kept, &mut last, &mut known, &weeks), ChangeOption::End);
    let refused =
        Response { success: false, last_modified: "a".to_string(), text: page("Montag 02.09.2024") };
    assert_eq!(
        check_change(Some(&refused), &mut kept, &mut last, &mut known, &weeks),
        ChangeOption::End
    );
    assert_eq!((kept.as_str(), last), ("a", september(1)));
    assert_eq!(known, Some(day("Freitag 30.08.2024")));
}

#[test]
fn a_page_with_another_mark_gives_its_day_as_changed() {
    let weeks = WeekZyklusList::empty();
    let mut kept = String::new();
    let mut last = september(1);
    let mut known = None;
    assert_eq!(
        check_change(
            Some(&answer("a", "Montag 02.09.2024")),
            &mut kept,
            &mut last,
            &mut known,
            &weeks
        ),
        ChangeOption::Changed(day("Montag 02.09.2024"))
    );
    assert_eq!((kept.as_str(), last), ("a", september(2)));
    assert_eq!(known, Some(day("Montag 02.09.2024")));
}

#[test]
fn a_page_with_the_mark_kept_keeps_the_known_day() {
    let weeks = WeekZyklusList::empty();
    let pages = [
        answer("a", "Dienstag 03.09.2024"),
        answer("a", "Montag 02.09.2024"),
        answer("a", "Freitag 30.08.2024"),
        Response { success: true, last_modified: "a".to_string(), text: "no page".to_string() },
    ];
    for page in pages {
        let mut kept = "a".to_string();
        let mut last = september(2);
        let mut known = Some(day("Montag 02.09.2024"));
        assert_eq!(
            check_change(Some(&page), &mut kept, &mut last, &mut known, &weeks),
            ChangeOption::Same(day("Montag 02.09.2024"))
        );
        assert_eq!((kept.as_str(), last), ("a", september(2)));
        assert_eq!(known, Some(day("Montag 02.09.2024")));
    }
}

#[test]
fn a_page_with_the_mark_kept_is_read_where_no_day_is_known() {
    let weeks = WeekZyklusList::empty();
    let mut kept = "a".to_string();
    let mut last = september(1);
    let mut known = None;
    assert_eq!(
        check_change(
            Some(&answer("a", "Montag 02.09.2024")),
            &mut kept,
            &mut last,
            &mut known,
            &weeks
        ),
        ChangeOption::Changed(day("Montag 02.09.2024"))
    );
    assert_eq!(known, Some(day("Montag 02.09.2024")));
}

#[test]
fn a_changed_page_that_gives_no_day_leaves_mark_and_known_day() {
    let weeks = WeekZyklusList::empty();
    let mut kept = "a".to_string();
    let mut last = september(2);
    let mut known = Some(day("Montag 02.09.2024"));
    assert_eq!(
        check_change(
            Some(&answer("b", "Montag 02.09.2024")),
            &mut kept,
            &mut last,
            &mut known,
            &weeks
        ),
        ChangeOption::Nothing
    );
    assert_eq!((kept.as_str(), last), ("a", september(2)));
    let broken =
        Response { success: true, last_modified: "b".to_string(), text: "<p>closed</p>".to_string() };
    assert_eq!(
        check_change(Some(&broken), &mut kept, &mut last, &mut known, &weeks),
        ChangeOption::Nothing
    );
    assert_eq!((kept.as_str(), last), ("a", september(2)));
    let cut = Response {
        success: true,
        last_modified: "b".to_string(),
        text: "<h1 class=\"list-table-caption\">Dienstag 03.09.2024</h1>".to_string(),
    };
    assert_eq!(
        check_change(Some(&cut), &mut kept, &mut last, &mut known, &weeks),
        ChangeOption::Nothing
    );
    assert_eq!((kept.as_str(), last), ("a", september(3)));
    assert_eq!(known, Some(day("Montag 02.09.2024")));
}

#[test]
fn the_loop_begins_idle_with_ten_empty_marks() {
    let state = CheckLoop::new();
    assert_eq!(state.phase, Phase::Idle);
    assert_eq!(state.times, vec![String::new(); 10]);
    assert_eq!(state.dates, vec![Date { year: 0, month: 1, day: 1 }; 10]);
    assert_eq!(state.known, vec![None; 10]);
    assert!(state.vdays_local.is_empty());
    assert!(!state.updated);
}

#[test]
fn a_round_asks_every_source_and_publishes_what_it_found() {
    let weeks = WeekZyklusList::empty();
    let mut state = CheckLoop::new();
    assert_eq!(state.step(Event::Tick(september(1))), Some(Action::Fetch(1)));
    assert_eq!(state.phase, Phase::Fetching(0));
    assert_eq!(state.dates, vec![september(1); 10]);
    let answers = [
        Some(answer("a", "Montag 02.09.2024")),
        Some(answer("b", "Montag 02.09.2024")),
        None,
        Some(answer("c", "Mittwoch 04.09.2024")),
        Some(Response { success: false, last_modified: "x".to_string(), text: String::new() }),
        Some(Response { success: true, last_modified: "y".to_string(), text: "no page".to_string() }),
        Some(answer("d", "Sonntag 01.09.2024")),
        Some(answer("e", "Donnerstag 05.09.2024")),
        None,
        None,
    ];
    for (i, response) in answers.iter().enumerate() {
        let change = state.probe(response.as_ref(), &weeks);
        let action = state.step(Event::Checked(change)).unwrap();
        if i < 9 {
            assert_eq!(action, Action::Fetch(i as i64 + 2));
            assert_eq!(state.phase, Phase::Fetching(i + 1));
        } else {
            assert_eq!(
                action,
                Action::Publish(
                    Some(vec![
                        day("Montag 02.09.2024"),
                        day("Montag 02.09.2024"),
                        day("Mittwoch 04.09.2024"),
                        day("Donnerstag 05.09.2024"),
                    ]),
                    true
                )
            );
            assert_eq!(state.phase, Phase::Publishing);
        }
    }
    assert_eq!(state.times, vec!["a", "b", "", "c", "", "", "", "e", "", ""]);
    let mut dates = vec![september(1); 10];
    dates[0] = september(2);
    dates[1] = september(2);
    dates[3] = september(4);
    dates[7] = september(5);
    assert_eq!(state.dates, dates);
    let mut known = vec![None; 10];
    known[0] = Some(day("Montag 02.09.2024"));
    known[1] = Some(day("Montag 02.09.2024"));
    known[3] = Some(day("Mittwoch 04.09.2024"));
    known[7] = Some(day("Donnerstag 05.09.2024"));
    assert_eq!(state.known, known);
    assert_eq!(state.step(Event::Published), Some(Action::Sleep(900)));
    assert_eq!(state.phase, Phase::Sleeping);
}

#[test]
fn a_round_without_change_publishes_the_known_days_and_clears_nothing() {
    let weeks = WeekZyklusList::empty();
    let mut state = CheckLoop::new();
    for round in 0..3 {
        assert_eq!(state.step(Event::Tick(september(1 + round))), Some(Action::Fetch(1)));
        for i in 0..10 {
            let response = if i == 4 { Some(answer("a", "Montag 02.09.2024")) } else { None };
            let change = state.probe(response.as_ref(), &weeks);
            let action = state.step(Event::Checked(change)).unwrap();
            if i == 9 {
                assert_eq!(
                    action,
                    Action::Publish(Some(vec![day("Montag 02.09.2024")]), round == 0)
                );
            }
        }
        assert_eq!(state.step(Event::Published), Some(Action::Sleep(900)));
    }
}

#[test]
fn a_page_written_anew_for_the_same_day_is_a_change() {
    let weeks = WeekZyklusList::empty();
    let mut state = CheckLoop::new();
    for (round, marker) in ["a", "b"].iter().enumerate() {
        state.step(Event::Tick(september(1)));
        for i in 0..10 {
            let response = if i == 0 { Some(answer(marker, "Montag 02.09.2024")) } else { None };
            let change = state.probe(response.as_ref(), &weeks);
            let action = state.step(Event::Checked(change)).unwrap();
            if i == 9 {
                assert_eq!(action, Action::Publish(Some(vec![day("Montag 02.09.2024")]), true));
            }
        }
        state.step(Event::Published);
        assert_eq!(state.times[0], *marker, "round {}", round);
    }
}

#[test]
fn a_round_that_finds_nothing_publishes_nothing() {
    let mut state = CheckLoop::new();
    state.step(Event::Tick(september(1)));
    for i in 0..10 {
        let change = if i % 2 == 0 { ChangeOption::End } else { ChangeOption::Nothing };
        let action = state.step(Event::Checked(change)).unwrap();
        if i == 9 {
            assert_eq!(action, Action::Publish(None, false));
        }
    }
}

#[test]
fn the_loop_stops_only_while_it_sleeps() {
    let mut state = CheckLoop::new();
    assert_eq!(state.step(Event::Cancel), None);
    assert_eq!(state.step(Event::Published), None);
    assert_eq!(state.step(Event::Checked(ChangeOption::End)), None);
    assert_eq!(state.phase, Phase::Idle);
    state.step(Event::Tick(september(1)));
    assert_eq!(state.step(Event::Cancel), None);
    assert_eq!(state.step(Event::Tick(september(2))), None);
    assert_eq!(state.phase, Phase::Fetching(0));
    assert_eq!(state.dates, vec![september(1); 10]);
    for _ in 0..10 {
        state.step(Event::Checked(ChangeOption::Nothing));
    }
    assert_eq!(state.step(Event::Cancel), None);
    assert_eq!(state.step(Event::Published), Some(Action::Sleep(900)));
    assert_eq!(state.step(Event::Cancel), Some(Action::Stop));
    assert_eq!(state.phase, Phase::Cancelled);
    assert_eq!(state.step(Event::Tick(september(2))), None);
    assert_eq!(state.step(Event::Cancel), None);
}

#[test]
fn a_loop_with_too_few_marks_takes_no_step() {
    let mut state = CheckLoop::new();
    state.times.pop();
    assert_eq!(state.step(Event::Tick(september(1))), None);
    let mut state = CheckLoop::new();
    state.known.pop();
    assert_eq!(state.step(Event::Tick(september(1))), None);
    let mut state = CheckLoop::new();
    state.phase = Phase::Fetching(10);
    assert_eq!(state.step(Event::Checked(ChangeOption::Nothing)), None);
    assert_eq!(state.probe(None, &WeekZyklusList::empty()), ChangeOption::End);
    let mut idle = CheckLoop::new();
    let weeks = WeekZyklusList::empty();
    assert_eq!(idle.probe(Some(&answer("a", "Montag 02.09.2024")), &weeks), ChangeOption::End);
    assert_eq!(idle.times, vec![String::new(); 10]);
}

#[test]
fn a_client_is_told_once_until_the_list_is_cleared() {
    let mut list = UpdatedList::new();
    assert!(list.updated(7));
    assert!(!list.updated(7));
    assert!(list.updated(u128::MAX));
    assert!(!list.updated(7));
    assert!(!list.updated(u128::MAX));
    assert_eq!(list.0, vec![7, u128::MAX]);
    list.clear();
    assert!(list.updated(7));
    assert!(!list.updated(7));
}

#[test]
fn the_cache_serves_what_was_put_in_last() {
    let mut cache = VdayCache::new();
    assert!(cache.vdays().is_empty());
    cache.replace(vec![day("Montag 02.09.2024"), day("Dienstag 03.09.2024")]);
    assert_eq!(cache.vdays(), &vec![day("Montag 02.09.2024"), day("Dienstag 03.09.2024")]);
    cache.replace(vec![day("Mittwoch 04.09.2024")]);
    assert_eq!(cache.vdays(), &vec![day("Mittwoch 04.09.2024")]);
}
