//! The calendar of week cycles: built from the text of the yearly
//! documents, asked for the cycle of a date.

use crate::date::{parsed_date, Date, DATE_FORMAT};
use crate::failure::ParseFailure;
use crate::html::texts;
use crate::pdf::extract_page;
use crate::text::{
    chars_of, is_i32_literal, line_bounds, lines, parses_as_i32, pieces, strip_trailing,
    trailing_run,
};
use vstd::pervasive::cloned;
use vstd::prelude::*;

verus! {

/// The two-week rotation that selects between alternating lessons.
#[derive(Clone, Copy, Debug, PartialEq, Eq, Structural)]
pub enum Zyklus {
    I,
    II,
}

impl Default for Zyklus {
    fn default() -> (r: Self)
        ensures
            r == Zyklus::I,
    {
        Zyklus::I
    }
}

impl Zyklus {
    /// The cycle that the marker `s` names.
    pub open spec fn named(s: Seq<char>) -> Option<Zyklus> {
        if s == seq!['I'] {
            Some(Zyklus::I)
        } else if s == seq!['I', 'I'] {
            Some(Zyklus::II)
        } else {
            None
        }
    }

    /// The cycle that the marker `s` names: `I` or `II`.
    pub fn from_chars(s: &Vec<char>) -> (r: Option<Self>)
        ensures
            r == Zyklus::named(s@),
    {
        if s.len() == 1 && s[0] == 'I' {
            assert(s@ == seq!['I']);
            Some(Zyklus::I)
        } else if s.len() == 2 && s[0] == 'I' && s[1] == 'I' {
            assert(s@ == seq!['I', 'I']);
            Some(Zyklus::II)
        } else {
            assert(seq!['I'][0] == 'I' && seq!['I'].len() == 1);
            assert(seq!['I', 'I'][0] == 'I' && seq!['I', 'I'][1] == 'I' && seq!['I', 'I'].len()
                == 2);
            None
        }
    }

    /// The cycle that the marker `s` names: `I` or `II`.
    pub fn from_str(s: &str) -> (r: Option<Self>)
        ensures
            r == Zyklus::named(s@),
    {
        let v = chars_of(s);
        Zyklus::from_chars(&v)
    }
}

/// The first and the latest of the values pushed since the last `clear`.
#[derive(Debug)]
pub struct FirstAndLast<T> {
    pub first: Option<T>,
    pub last: Option<T>,
}

impl<T: Clone> FirstAndLast<T> {
    pub fn new() -> (r: Self)
        ensures
            r.first is None,
            r.last is None,
    {
        Self { first: None, last: None }
    }

    /// Records `value` as the latest, and as the first if none is held.
    pub fn push(&mut self, value: T)
        ensures
            final(self).last == Some(value),
            old(self).first is Some ==> final(self).first == old(self).first,
            old(self).first is None ==> final(self).first is Some && cloned(
                value,
                final(self).first->0,
            ),
    {
        if self.first.is_none() {
            self.first = Some(value.clone());
        }
        self.last = Some(value);
    }

    pub fn clear(&mut self)
        ensures
            final(self).first is None,
            final(self).last is None,
    {
        self.first = None;
        self.last = None;
    }
}

/// What one line of a calendar document says.
#[derive(Clone, Copy, Debug, PartialEq, Eq, Structural)]
pub enum ConvertedOption {
    /// A day.
    Date(Date),
    /// The cycle of the days named before it.
    Zyklus(Zyklus),
    /// Nothing the calendar needs.
    Nothing,
    /// Another number: the days named before it belong to no cycle.
    Reset,
}

impl ConvertedOption {
    /// What a line says whose text, without trailing blanks, is `t` and in
    /// which `date` was read.
    pub open spec fn of(t: Seq<char>, date: Option<Date>) -> ConvertedOption {
        match date {
            Some(d) => ConvertedOption::Date(d),
            None => match Zyklus::named(t) {
                Some(z) => ConvertedOption::Zyklus(z),
                None => if is_i32_literal(t) {
                    ConvertedOption::Reset
                } else {
                    ConvertedOption::Nothing
                },
            },
        }
    }

    /// What the line `s` says.
    pub open spec fn read(s: Seq<char>) -> ConvertedOption {
        let t = strip_trailing(s, ' ');
        ConvertedOption::of(t, parsed_date(t, DATE_FORMAT@))
    }

    /// What a line says whose text, without trailing blanks, is `t` and in
    /// which `date` was read.
    pub fn classify(t: &Vec<char>, date: Option<Date>) -> (r: Self)
        ensures
            r == ConvertedOption::of(t@, date),
    {
        if let Some(d) = date {
            return ConvertedOption::Date(d);
        }
        if let Some(z) = Zyklus::from_chars(t) {
            return ConvertedOption::Zyklus(z);
        }
        if parses_as_i32(t) {
            return ConvertedOption::Reset;
        }
        ConvertedOption::Nothing
    }

    /// What the line `s` says.
    pub fn convert(s: &str) -> (r: Self)
        ensures
            r == ConvertedOption::read(s@),
    {
        let v = chars_of(s);
        let end = trailing_run(&v, ' ');
        let t = s.substring_char(0, end);
        let date = Date::parse(t);
        let w = chars_of(t);
        ConvertedOption::classify(&w, date)
    }
}

/// Where a date lies with respect to a range of days.
#[derive(Debug, PartialEq, Eq)]
pub enum Compared<T> {
    Bigger,
    Smaller,
    Right(T),
}

/// A range of days, both ends included, and the cycle they belong to.
#[derive(Clone, Copy, Debug, PartialEq, Eq, Structural)]
pub struct WeekZyklus {
    pub start: Date,
    pub end: Date,
    pub zyklus: Zyklus,
}

impl WeekZyklus {
    /// Whether `date` lies in the range.
    pub open spec fn holds(self, date: Date) -> bool {
        self.start.at_most(date) && date.at_most(self.end)
    }

    /// On which side of the range `date` lies, or the cycle if it lies in it.
    pub open spec fn side(self, date: Date) -> Compared<Zyklus> {
        if date.before(self.start) {
            Compared::Smaller
        } else if self.end.before(date) {
            Compared::Bigger
        } else {
            Compared::Right(self.zyklus)
        }
    }

    /// The entry that pads a calendar.
    pub open spec fn filler() -> WeekZyklus {
        WeekZyklus { start: Date::far_future(), end: Date::far_future(), zyklus: Zyklus::I }
    }

    pub fn compare(&self, date: &Date) -> (r: Compared<Zyklus>)
        ensures
            r == self.side(*date),
    {
        if date.is_before(&self.start) {
            return Compared::Smaller;
        }
        if self.end.is_before(date) {
            return Compared::Bigger;
        }
        Compared::Right(self.zyklus)
    }
}

/// What a scan of a document holds after some of its lines.
pub struct Scan {
    pub first: Option<Date>,
    pub last: Option<Date>,
    pub found: Seq<WeekZyklus>,
}

/// The scan `scan` after one more line that says `token`. A date is the
/// latest of the pending days, and the first if none is pending. A cycle
/// marker turns the pending days into an entry, from the first to the
/// latest, and leaves none pending; without pending days it counts for
/// nothing. Another number drops the pending days.
pub open spec fn scan_step(scan: Scan, token: ConvertedOption) -> Scan {
    match token {
        ConvertedOption::Nothing => scan,
        ConvertedOption::Date(d) => Scan {
            first: if scan.first is None {
                Some(d)
            } else {
                scan.first
            },
            last: Some(d),
            found: scan.found,
        },
        ConvertedOption::Zyklus(z) => match (scan.first, scan.last) {
            (Some(start), Some(end)) => Scan {
                first: None,
                last: None,
                found: scan.found.push(WeekZyklus { start, end, zyklus: z }),
            },
            _ => scan,
        },
        ConvertedOption::Reset => Scan { first: None, last: None, found: scan.found },
    }
}

/// The scan of a document whose lines say `tokens`.
pub open spec fn scan_of(tokens: Seq<ConvertedOption>) -> Scan
    decreases tokens.len(),
{
    if tokens.len() == 0 {
        Scan { first: None, last: None, found: Seq::empty() }
    } else {
        scan_step(scan_of(tokens.drop_last()), tokens.last())
    }
}

/// What the lines of `text` say, in their order.
pub open spec fn tokens_of(text: Seq<char>) -> Seq<ConvertedOption> {
    Seq::new(lines(text).len(), |k: int| ConvertedOption::read(lines(text)[k]))
}

/// The entries that the document `text` gives.
pub open spec fn entries_of(text: Seq<char>) -> Seq<WeekZyklus> {
    scan_of(tokens_of(text)).found
}

/// What the lines of `text` say, in their order.
pub fn read_tokens(text: &str) -> (r: Vec<ConvertedOption>)
    ensures
        r@ == tokens_of(text@),
{
    let v = chars_of(text);
    let bounds = line_bounds(&v);
    let mut r: Vec<ConvertedOption> = Vec::new();
    let mut k: usize = 0;
    while k < bounds.len()
        invariant
            k <= bounds.len(),
            v@ == text@,
            forall|j: int| 0 <= j < bounds.len() ==> (#[trigger] bounds[j]).0 <= bounds[j].1 <= v.len(),
            pieces(v@, bounds@) == lines(v@),
            r@.len() == k,
            forall|j: int| 0 <= j < k ==> r@[j] == ConvertedOption::read(lines(text@)[j]),
        decreases bounds.len() - k,
    {
        let (from, to) = bounds[k];
        assert(pieces(v@, bounds@)[k as int] == v@.subrange(from as int, to as int));
        let token = ConvertedOption::convert(text.substring_char(from, to));
        r.push(token);
        k += 1;
    }
    assert(pieces(v@, bounds@).len() == bounds.len());
    r
}

/// The page of a calendar document on which the calendar stands.
pub const CALENDAR_PAGE: u32 = 1;

/// The entries that the documents `documents` give, in order.
pub open spec fn entries_of_all(documents: Seq<Seq<char>>) -> Seq<WeekZyklus>
    decreases documents.len(),
{
    if documents.len() == 0 {
        Seq::empty()
    } else {
        entries_of_all(documents.drop_last()) + entries_of(documents.last())
    }
}

/// Whether `n` is a power of two.
pub open spec fn is_pow2(n: int) -> bool
    decreases n,
{
    n == 1 || (n > 1 && n % 2 == 0 && is_pow2(n / 2))
}

/// The least power of two that is at least `n`.
pub open spec fn next_pow2(n: nat) -> nat
    decreases n,
{
    if n <= 1 {
        1
    } else {
        2 * next_pow2((n + 1) / 2)
    }
}

/// `entries`, filled up with the padding entry to the next power-of-two length.
pub open spec fn padded(entries: Seq<WeekZyklus>) -> Seq<WeekZyklus> {
    entries + Seq::new(
        (next_pow2(entries.len()) - entries.len()) as nat,
        |k: int| WeekZyklus::filler(),
    )
}

/// Whether the ranges of `entries` ascend without overlap: each begins no
/// later than it ends and ends before the next begins. Only equal entries
/// may follow one another, as the padding does.
pub open spec fn ordered(entries: Seq<WeekZyklus>) -> bool {
    &&& forall|i: int| 0 <= i < entries.len() ==> (#[trigger] entries[i]).start.at_most(entries[i].end)
    &&& forall|i: int, j: int|
        0 <= i < j < entries.len() ==> (#[trigger] entries[i]).end.before(
            (#[trigger] entries[j]).start,
        ) || entries[i] == entries[j]
}

/// What bisecting `entries` between `lo` and `hi` finds for `date`.
pub open spec fn search(entries: Seq<WeekZyklus>, lo: int, hi: int, date: Date) -> Option<Zyklus>
    decreases hi - lo,
{
    if lo >= hi {
        None
    } else {
        let mid = lo + (hi - lo) / 2;
        match entries[mid].side(date) {
            Compared::Smaller => search(entries, lo, mid, date),
            Compared::Bigger => search(entries, mid + 1, hi, date),
            Compared::Right(z) => Some(z),
        }
    }
}

/// What bisecting the whole of `entries` finds for `date`.
pub open spec fn found_in(entries: Seq<WeekZyklus>, date: Date) -> Option<Zyklus> {
    search(entries, 0, entries.len() as int, date)
}

/// A power of two is its own next power of two.
pub proof fn lemma_pow2_fixed(n: nat)
    requires
        is_pow2(n as int),
    ensures
        next_pow2(n) == n,
    decreases n,
{
    if n > 1 {
        lemma_pow2_fixed((n / 2) as nat);
    }
}

/// Between a number that is no power of two and its successor lies no power of two.
pub proof fn lemma_pow2_gap(n: nat)
    requires
        !is_pow2(n as int),
    ensures
        next_pow2(n + 1) == next_pow2(n),
    decreases n,
{
    if n >= 2 && n % 2 == 0 {
        lemma_pow2_gap(n / 2);
    }
}

/// Whether `n` is a power of two.
pub fn is_power_of_two(n: usize) -> (r: bool)
    ensures
        r == is_pow2(n as int),
{
    if n == 0 {
        return false;
    }
    let mut m: usize = n;
    while m > 1 && m % 2 == 0
        invariant
            m >= 1,
            is_pow2(n as int) == is_pow2(m as int),
        decreases m,
    {
        m = m / 2;
    }
    m == 1
}

/// The calendar: ranges of days with their cycle, in the order in which the
/// documents gave them, padded at the end.
#[derive(Clone, Debug, PartialEq, Eq)]
pub struct WeekZyklusList(pub Vec<WeekZyklus>);

impl View for WeekZyklusList {
    type V = Seq<WeekZyklus>;

    open spec fn view(&self) -> Seq<WeekZyklus> {
        self.0@
    }
}

impl WeekZyklusList {
    /// The cycle that a bisection of the calendar finds for `date`. On an
    /// ordered calendar this is the cycle of the range that holds `date`.
    pub open spec fn lookup(&self, date: Date) -> Option<Zyklus> {
        found_in(self@, date)
    }

    /// A calendar without entries.
    pub fn empty() -> (r: Self)
        ensures
            r@ == Seq::<WeekZyklus>::empty(),
    {
        WeekZyklusList(Vec::new())
    }

    /// Appends the entries of a document whose lines say `tokens`.
    pub fn add_tokens(&mut self, tokens: &Vec<ConvertedOption>)
        ensures
            final(self)@ == old(self)@ + scan_of(tokens@).found,
    {
        let mut days: FirstAndLast<Date> = FirstAndLast::new();
        let mut k: usize = 0;
        assert(tokens@.take(0) == Seq::<ConvertedOption>::empty());
        while k < tokens.len()
            invariant
                k <= tokens.len(),
                days.first == scan_of(tokens@.take(k as int)).first,
                days.last == scan_of(tokens@.take(k as int)).last,
                self@ == old(self)@ + scan_of(tokens@.take(k as int)).found,
            decreases tokens.len() - k,
        {
            assert(tokens@.take(k + 1).drop_last() == tokens@.take(k as int));
            match tokens[k] {
                ConvertedOption::Nothing => (),
                ConvertedOption::Date(d) => days.push(d),
                ConvertedOption::Zyklus(zyklus) => {
                    if let (Some(start), Some(end)) = (days.first, days.last) {
                        self.0.push(WeekZyklus { start, end, zyklus });
                        days.clear();
                    }
                },
                ConvertedOption::Reset => days.clear(),
            }
            k += 1;
        }
        assert(tokens@.take(k as int) == tokens@);
    }

    /// Appends the entries that the document `text` gives.
    pub fn add_text(&mut self, text: &str)
        ensures
            final(self)@ == old(self)@ + entries_of(text@),
    {
        let tokens = read_tokens(text);
        self.add_tokens(&tokens);
    }

    /// Appends the entries that the PDF document `pdf` gives on its first
    /// page, as `add_text` does for the text that `lopdf` extracts from it.
    /// A document that `lopdf` cannot read leaves the calendar as it is.
    pub fn add(&mut self, pdf: &[u8]) -> (r: Result<(), ParseFailure>)
        ensures
            r is Err ==> final(self)@ == old(self)@,
            r is Ok ==> exists|text: Seq<char>| final(self)@ == old(self)@ + entries_of(text),
    {
        match extract_page(pdf, CALENDAR_PAGE) {
            Some(text) => {
                self.add_text(text.as_str());
                Ok(())
            },
            None => Err(ParseFailure),
        }
    }

    /// The calendar of the documents whose texts are `documents`: their
    /// entries in order, padded.
    pub fn from_texts(documents: &Vec<String>) -> (r: Self)
        ensures
            r@ == padded(entries_of_all(texts(documents@))),
            is_pow2(r@.len() as int),
    {
        let mut list = WeekZyklusList::empty();
        let mut k: usize = 0;
        assert(texts(documents@).take(0) == Seq::<Seq<char>>::empty());
        while k < documents.len()
            invariant
                k <= documents.len(),
                list@ == entries_of_all(texts(documents@).take(k as int)),
            decreases documents.len() - k,
        {
            assert(texts(documents@).take(k + 1).drop_last() == texts(documents@).take(k as int));
            list.add_text(documents[k].as_str());
            k += 1;
        }
        assert(texts(documents@).take(k as int) == texts(documents@));
        list.pad();
        list
    }

    /// The calendar of the PDF documents `pdfs`: the entries that the
    /// texts of their first pages give, in order, padded, as `from_texts`
    /// builds it from those texts. It fails if `lopdf` cannot read one of
    /// the documents.
    pub fn new(pdfs: &Vec<Vec<u8>>) -> (r: Result<Self, ParseFailure>)
        ensures
            r matches Ok(list) ==> is_pow2(list@.len() as int) && exists|pages: Seq<Seq<char>>|
                pages.len() == pdfs@.len() && list@ == padded(entries_of_all(pages)),
            pdfs@.len() == 0 ==> (r matches Ok(list) && list@ == padded(
                Seq::<WeekZyklus>::empty(),
            )),
    {
        let mut list = WeekZyklusList::empty();
        let ghost mut pages: Seq<Seq<char>> = Seq::empty();
        let mut k: usize = 0;
        while k < pdfs.len()
            invariant
                k <= pdfs.len(),
                pages.len() == k,
                list@ == entries_of_all(pages),
            decreases pdfs.len() - k,
        {
            let ghost before = list@;
            match list.add(pdfs[k].as_slice()) {
                Ok(()) => {
                    proof {
                        let text = choose|text: Seq<char>| list@ == before + entries_of(text);
                        assert(pages.push(text).drop_last() == pages);
                        pages = pages.push(text);
                    }
                },
                Err(e) => {
                    return Err(e);
                },
            }
            k += 1;
        }
        list.pad();
        Ok(list)
    }

    /// Fills the calendar up with the padding entry to a power-of-two length.
    pub fn pad(&mut self)
        ensures
            final(self)@ == padded(old(self)@),
            is_pow2(final(self)@.len() as int),
    {
        let ghost before = self@;
        assert(self@ == before + Seq::new(0, |k: int| WeekZyklus::filler()));
        while !is_power_of_two(self.0.len())
            invariant
                before.len() <= self@.len(),
                next_pow2(self@.len()) == next_pow2(before.len()),
                self@ == before + Seq::new(
                    (self@.len() - before.len()) as nat,
                    |k: int| WeekZyklus::filler(),
                ),
            decreases usize::MAX - self.0.len(),
        {
            proof {
                lemma_pow2_gap(self@.len());
            }
            let ghost so_far = self@;
            self.0.push(
                WeekZyklus {
                    start: Date::far_future(),
                    end: Date::far_future(),
                    zyklus: Zyklus::I,
                },
            );
            assert(self@ == before + Seq::new(
                (so_far.len() + 1 - before.len()) as nat,
                |k: int| WeekZyklus::filler(),
            ));
        }
        proof {
            lemma_pow2_fixed(self@.len());
        }
    }

    /// The cycle of the range that a bisection of the calendar finds for `date`.
    pub fn get(&self, date: &Date) -> (r: Option<Zyklus>)
        ensures
            r == self.lookup(*date),
            r matches Some(z) ==> exists|i: int|
                0 <= i < self@.len() && (#[trigger] self@[i]).holds(*date) && self@[i].zyklus == z,
            ordered(self@) ==> forall|i: int|
                0 <= i < self@.len() && (#[trigger] self@[i]).holds(*date) ==> r == Some(
                    self@[i].zyklus,
                ),
    {
        let mut lo: usize = 0;
        let mut hi: usize = self.0.len();
        proof {
            lemma_search_sound(self@, 0, self@.len() as int, *date);
            if ordered(self@) {
                assert forall|i: int| 0 <= i < self@.len() && (#[trigger] self@[i]).holds(
                    *date,
                ) implies self.lookup(*date) == Some(self@[i].zyklus) by {
                    lemma_search_complete(self@, 0, self@.len() as int, *date, i);
                }
            }
        }
        while lo < hi
            invariant
                lo <= hi <= self.0.len(),
                self.lookup(*date) == search(self@, lo as int, hi as int, *date),
            decreases hi - lo,
        {
            let mid: usize = lo + (hi - lo) / 2;
            match self.0[mid].compare(date) {
                Compared::Smaller => {
                    hi = mid;
                },
                Compared::Bigger => {
                    lo = mid + 1;
                },
                Compared::Right(z) => {
                    return Some(z);
                },
            }
        }
        None
    }
}

/// What a bisection finds is the cycle of a range that holds the date.
pub proof fn lemma_search_sound(entries: Seq<WeekZyklus>, lo: int, hi: int, date: Date)
    requires
        0 <= lo <= hi <= entries.len(),
    ensures
        search(entries, lo, hi, date) matches Some(z) ==> exists|i: int|
            lo <= i < hi && (#[trigger] entries[i]).holds(date) && entries[i].zyklus == z,
    decreases hi - lo,
{
    if lo < hi {
        let mid = lo + (hi - lo) / 2;
        match entries[mid].side(date) {
            Compared::Smaller => {
                lemma_search_sound(entries, lo, mid, date);
            },
            Compared::Bigger => {
                lemma_search_sound(entries, mid + 1, hi, date);
            },
            Compared::Right(z) => {
                assert(entries[mid].holds(date));
            },
        }
    }
}

/// On an ordered calendar a bisection finds the range that holds the date.
pub proof fn lemma_search_complete(
    entries: Seq<WeekZyklus>,
    lo: int,
    hi: int,
    date: Date,
    i: int,
)
    requires
        ordered(entries),
        0 <= lo <= i < hi <= entries.len(),
        entries[i].holds(date),
    ensures
        search(entries, lo, hi, date) == Some(entries[i].zyklus),
    decreases hi - lo,
{
    let mid = lo + (hi - lo) / 2;
    assert(entries[mid].start.at_most(entries[mid].end));
    assert(entries[i].start.at_most(entries[i].end));
    if i < mid {
        assert(entries[i].end.before(entries[mid].start) || entries[i] == entries[mid]);
    } else if mid < i {
        assert(entries[mid].end.before(entries[i].start) || entries[mid] == entries[i]);
    }
    match entries[mid].side(date) {
        Compared::Smaller => {
            lemma_search_complete(entries, lo, mid, date, i);
        },
        Compared::Bigger => {
            lemma_search_complete(entries, mid + 1, hi, date, i);
        },
        Compared::Right(z) => {},
    }
}

/// On an ordered calendar, a date that lies in the range of an entry is
/// found, and with the cycle of that entry.
pub proof fn lemma_lookup_in_range(list: WeekZyklusList, date: Date, i: int)
    requires
        ordered(list@),
        0 <= i < list@.len(),
        list@[i].holds(date),
    ensures
        list.lookup(date) == Some(list@[i].zyklus),
{
    lemma_search_complete(list@, 0, list@.len() as int, date, i);
}

/// A date that lies in no range of the calendar is not found.
pub proof fn lemma_lookup_out_of_range(list: WeekZyklusList, date: Date)
    requires
        forall|i: int| 0 <= i < list@.len() ==> !(#[trigger] list@[i]).holds(date),
    ensures
        list.lookup(date) is None,
{
    lemma_search_sound(list@, 0, list@.len() as int, date);
}

/// On an ordered calendar no date lies in two different ranges.
pub proof fn lemma_ranges_apart(entries: Seq<WeekZyklus>, date: Date, i: int, j: int)
    requires
        ordered(entries),
        0 <= i < entries.len(),
        0 <= j < entries.len(),
        entries[i].holds(date),
        entries[j].holds(date),
    ensures
        entries[i] == entries[j],
{
    if i < j {
        assert(entries[i].end.before(entries[j].start) || entries[i] == entries[j]);
    } else if j < i {
        assert(entries[j].end.before(entries[i].start) || entries[j] == entries[i]);
    }
}

/// Padding keeps a calendar ordered whose ranges all end before the
/// padding date.
pub proof fn lemma_padding_keeps_order(entries: Seq<WeekZyklus>)
    requires
        ordered(entries),
        forall|i: int|
            0 <= i < entries.len() ==> (#[trigger] entries[i]).end.before(Date::far_future()),
    ensures
        ordered(padded(entries)),
{
    let p = padded(entries);
    assert forall|i: int| 0 <= i < p.len() implies (#[trigger] p[i]).start.at_most(p[i].end) by {
        if i < entries.len() {
            assert(p[i] == entries[i]);
        }
    }
    assert forall|i: int, j: int| 0 <= i < j < p.len() implies (#[trigger] p[i]).end.before(
        (#[trigger] p[j]).start,
    ) || p[i] == p[j] by {
        if j < entries.len() {
            assert(p[i] == entries[i] && p[j] == entries[j]);
        } else if i < entries.len() {
            assert(p[i] == entries[i]);
        }
    }
}

/// The days that the lines `tokens` name, in their order.
pub open spec fn dates_of(tokens: Seq<ConvertedOption>) -> Seq<Date>
    decreases tokens.len(),
{
    if tokens.len() == 0 {
        Seq::empty()
    } else {
        match tokens.last() {
            ConvertedOption::Date(d) => dates_of(tokens.drop_last()).push(d),
            _ => dates_of(tokens.drop_last()),
        }
    }
}

/// Whether each of `dates` is an earlier day than the next.
pub open spec fn ascending(dates: Seq<Date>) -> bool {
    forall|i: int, j: int| 0 <= i < j < dates.len() ==> (#[trigger] dates[i]).before(#[trigger] dates[j])
}

/// Whether each of `entries` ends before each of `dates`.
pub open spec fn all_before(entries: Seq<WeekZyklus>, dates: Seq<Date>) -> bool {
    forall|i: int, k: int|
        0 <= i < entries.len() && 0 <= k < dates.len() ==> (#[trigger] entries[i]).end.before(
            #[trigger] dates[k],
        )
}

/// Whether the ranges of `entries` ascend and never overlap: each begins
/// no later than it ends, and ends before the next begins.
pub open spec fn apart(entries: Seq<WeekZyklus>) -> bool {
    &&& forall|i: int| 0 <= i < entries.len() ==> (#[trigger] entries[i]).start.at_most(entries[i].end)
    &&& forall|i: int, j: int|
        0 <= i < j < entries.len() ==> (#[trigger] entries[i]).end.before(
            (#[trigger] entries[j]).start,
        )
}

/// What holds of the scan of a document with ascending dates, read after
/// the entries `before`: what was found is ordered behind `before` and ends
/// no later than the latest date read, and before the first pending day;
/// the latest pending day is the latest date read.
pub open spec fn scan_in_order(before: Seq<WeekZyklus>, tokens: Seq<ConvertedOption>) -> bool {
    let scan = scan_of(tokens);
    let dates = dates_of(tokens);
    &&& ordered(before + scan.found)
    &&& apart(before) ==> apart(before + scan.found)
    &&& dates.len() == 0 ==> scan.found.len() == 0
    &&& dates.len() > 0 ==> forall|j: int|
        0 <= j < scan.found.len() ==> (#[trigger] scan.found[j]).end.at_most(dates.last())
    &&& scan.first is None ==> scan.last is None
    &&& scan.first matches Some(first) ==> {
        &&& dates.len() > 0
        &&& scan.last == Some(dates.last())
        &&& first.at_most(dates.last())
        &&& forall|i: int| 0 <= i < before.len() ==> (#[trigger] before[i]).end.before(first)
        &&& forall|j: int| 0 <= j < scan.found.len() ==> (#[trigger] scan.found[j]).end.before(first)
    }
}

/// The scan of a document whose dates ascend, read after entries that end
/// before all of them, is in order after every line.
pub proof fn lemma_scan_in_order(before: Seq<WeekZyklus>, tokens: Seq<ConvertedOption>)
    requires
        ordered(before),
        all_before(before, dates_of(tokens)),
        ascending(dates_of(tokens)),
    ensures
        scan_in_order(before, tokens),
    decreases tokens.len(),
{
    if tokens.len() == 0 {
        assert(before + scan_of(tokens).found == before);
    } else {
        let init = tokens.drop_last();
        let earlier = dates_of(init);
        let dates = dates_of(tokens);
        assert(earlier.len() <= dates.len());
        assert forall|k: int| 0 <= k < earlier.len() implies earlier[k] == dates[k] by {}
        lemma_scan_in_order(before, init);
        let old_scan = scan_of(init);
        let scan = scan_of(tokens);
        match tokens.last() {
            ConvertedOption::Date(d) => {
                assert(dates.last() == d);
                assert(dates[dates.len() - 1] == d);
                if earlier.len() > 0 {
                    assert(earlier.last() == dates[earlier.len() - 1]);
                    assert(dates[earlier.len() - 1].before(dates[dates.len() - 1]));
                }
                assert forall|j: int| 0 <= j < scan.found.len() implies (#[trigger] scan.found[j]).end.at_most(
                    d,
                ) by {
                    assert(old_scan.found[j].end.at_most(earlier.last()));
                }
                if old_scan.first is None {
                    assert forall|i: int| 0 <= i < before.len() implies (#[trigger] before[i]).end.before(
                        d,
                    ) by {
                        assert(before[i].end.before(dates[dates.len() - 1]));
                    }
                    assert forall|j: int| 0 <= j < scan.found.len() implies (#[trigger] scan.found[j]).end.before(
                        d,
                    ) by {
                        assert(old_scan.found[j].end.at_most(earlier.last()));
                    }
                }
            },
            ConvertedOption::Zyklus(z) => {
                if let (Some(start), Some(end)) = (old_scan.first, old_scan.last) {
                    let entry = WeekZyklus { start, end, zyklus: z };
                    let all = before + old_scan.found;
                    let more = before + scan.found;
                    assert(more == all.push(entry));
                    assert forall|i: int| 0 <= i < more.len() implies (#[trigger] more[i]).start.at_most(
                        more[i].end,
                    ) by {
                        if i < all.len() {
                            assert(more[i] == all[i]);
                        }
                    }
                    assert forall|i: int, j: int| 0 <= i < j < more.len() implies (#[trigger] more[i]).end.before(
                        (#[trigger] more[j]).start,
                    ) || more[i] == more[j] by {
                        if j < all.len() {
                            assert(more[i] == all[i] && more[j] == all[j]);
                        } else if i < before.len() {
                            assert(more[i] == before[i]);
                        } else {
                            assert(more[i] == old_scan.found[i - before.len()]);
                        }
                    }
                    assert forall|j: int| 0 <= j < scan.found.len() implies (#[trigger] scan.found[j]).end.at_most(
                        dates.last(),
                    ) by {
                        if j < old_scan.found.len() {
                            assert(scan.found[j] == old_scan.found[j]);
                        }
                    }
                    if apart(before) {
                        assert forall|i: int, j: int| 0 <= i < j < more.len() implies (#[trigger] more[i]).end.before(
                            (#[trigger] more[j]).start,
                        ) by {
                            if j < all.len() {
                                assert(more[i] == all[i] && more[j] == all[j]);
                            } else if i < before.len() {
                                assert(more[i] == before[i]);
                            } else {
                                assert(more[i] == old_scan.found[i - before.len()]);
                            }
                        }
                    }
                }
            },
            ConvertedOption::Reset => {},
            ConvertedOption::Nothing => {},
        }
    }
}

/// A document whose dates ascend, read after an ordered calendar whose
/// entries end before all of them, leaves the calendar ordered: each new
/// range begins no later than it ends and after the range before it ends.
pub proof fn lemma_ascending_document_is_ordered(
    before: Seq<WeekZyklus>,
    tokens: Seq<ConvertedOption>,
)
    requires
        ordered(before),
        all_before(before, dates_of(tokens)),
        ascending(dates_of(tokens)),
    ensures
        ordered(before + scan_of(tokens).found),
{
    lemma_scan_in_order(before, tokens);
}

/// The days that the documents `documents` name, in their order.
pub open spec fn all_dates(documents: Seq<Seq<char>>) -> Seq<Date>
    decreases documents.len(),
{
    if documents.len() == 0 {
        Seq::empty()
    } else {
        all_dates(documents.drop_last()) + dates_of(tokens_of(documents.last()))
    }
}

/// The entries of documents whose dates ascend, one document after the
/// other, are ordered, and none ends later than the latest date named.
pub proof fn lemma_documents_in_order(documents: Seq<Seq<char>>)
    requires
        ascending(all_dates(documents)),
    ensures
        ordered(entries_of_all(documents)),
        all_dates(documents).len() == 0 ==> entries_of_all(documents).len() == 0,
        all_dates(documents).len() > 0 ==> forall|j: int|
            0 <= j < entries_of_all(documents).len() ==> (#[trigger] entries_of_all(
                documents,
            )[j]).end.at_most(all_dates(documents).last()),
    decreases documents.len(),
{
    if documents.len() > 0 {
        let earlier = documents.drop_last();
        let tokens = tokens_of(documents.last());
        let d0 = all_dates(earlier);
        let d1 = dates_of(tokens);
        let d = all_dates(documents);
        let e0 = entries_of_all(earlier);
        let found = scan_of(tokens).found;
        assert forall|i: int, j: int| 0 <= i < j < d0.len() implies (#[trigger] d0[i]).before(
            #[trigger] d0[j],
        ) by {
            assert(d[i] == d0[i] && d[j] == d0[j]);
        }
        assert forall|i: int, j: int| 0 <= i < j < d1.len() implies (#[trigger] d1[i]).before(
            #[trigger] d1[j],
        ) by {
            assert(d[d0.len() + i] == d1[i] && d[d0.len() + j] == d1[j]);
        }
        lemma_documents_in_order(earlier);
        assert forall|i: int, k: int| 0 <= i < e0.len() && 0 <= k < d1.len() implies (#[trigger] e0[i]).end.before(
            #[trigger] d1[k],
        ) by {
            assert(e0[i].end.at_most(d0.last()));
            assert(d[d0.len() - 1] == d0.last() && d[d0.len() + k] == d1[k]);
            assert(d[d0.len() - 1].before(d[d0.len() + k]));
        }
        lemma_scan_in_order(e0, tokens);
        let all = entries_of_all(documents);
        assert(all == e0 + found);
        if d1.len() > 0 {
            assert(d.last() == d1.last());
            assert forall|j: int| 0 <= j < all.len() implies (#[trigger] all[j]).end.at_most(
                d.last(),
            ) by {
                if j < e0.len() {
                    assert(all[j] == e0[j]);
                    assert(e0[j].end.before(d1[d1.len() - 1]));
                } else {
                    assert(all[j] == found[j - e0.len()]);
                }
            }
        } else {
            assert(d == d0);
            assert(all == e0);
        }
    }
}

/// A calendar built from documents whose dates ascend, one document after
/// the other, and lie before the padding date is ordered: a date that lies
/// in one of its ranges is found with the cycle of that range.
pub proof fn lemma_ascending_documents_are_ordered(documents: Seq<Seq<char>>)
    requires
        ascending(all_dates(documents)),
        forall|k: int|
            0 <= k < all_dates(documents).len() ==> (#[trigger] all_dates(documents)[k]).before(
                Date::far_future(),
            ),
    ensures
        ordered(padded(entries_of_all(documents))),
{
    lemma_documents_in_order(documents);
    let entries = entries_of_all(documents);
    let dates = all_dates(documents);
    assert forall|i: int| 0 <= i < entries.len() implies (#[trigger] entries[i]).end.before(
        Date::far_future(),
    ) by {
        assert(entries[i].end.at_most(dates.last()));
        assert(dates[dates.len() - 1].before(Date::far_future()));
    }
    lemma_padding_keeps_order(entries);
}

/// Ranges that ascend and never overlap are an ordered calendar, and no
/// date lies in two of them.
pub proof fn lemma_apart_is_ordered(entries: Seq<WeekZyklus>, date: Date, i: int, j: int)
    requires
        apart(entries),
        0 <= i < entries.len(),
        0 <= j < entries.len(),
        entries[i].holds(date),
        entries[j].holds(date),
    ensures
        ordered(entries),
        i == j,
{
    if i < j {
        assert(entries[i].end.before(entries[j].start));
    } else if j < i {
        assert(entries[j].end.before(entries[i].start));
    }
}

/// The ranges that a document with ascending dates adds never overlap,
/// neither one another nor the ranges read before, if those end before all
/// dates of the document and never overlap themselves.
pub proof fn lemma_ascending_document_never_overlaps(
    before: Seq<WeekZyklus>,
    tokens: Seq<ConvertedOption>,
)
    requires
        apart(before),
        all_before(before, dates_of(tokens)),
        ascending(dates_of(tokens)),
    ensures
        apart(before + scan_of(tokens).found),
{
    assert(ordered(before));
    lemma_scan_in_order(before, tokens);
}

/// The ranges of documents whose dates ascend, one document after the
/// other, never overlap.
pub proof fn lemma_ascending_documents_never_overlap(documents: Seq<Seq<char>>)
    requires
        ascending(all_dates(documents)),
    ensures
        apart(entries_of_all(documents)),
        all_dates(documents).len() == 0 ==> entries_of_all(documents).len() == 0,
        all_dates(documents).len() > 0 ==> forall|j: int|
            0 <= j < entries_of_all(documents).len() ==> (#[trigger] entries_of_all(
                documents,
            )[j]).end.at_most(all_dates(documents).last()),
    decreases documents.len(),
{
    lemma_documents_in_order(documents);
    if documents.len() > 0 {
        let earlier = documents.drop_last();
        let tokens = tokens_of(documents.last());
        let d0 = all_dates(earlier);
        let d1 = dates_of(tokens);
        let d = all_dates(documents);
        let e0 = entries_of_all(earlier);
        assert forall|i: int, j: int| 0 <= i < j < d0.len() implies (#[trigger] d0[i]).before(
            #[trigger] d0[j],
        ) by {
            assert(d[i] == d0[i] && d[j] == d0[j]);
        }
        assert forall|i: int, j: int| 0 <= i < j < d1.len() implies (#[trigger] d1[i]).before(
            #[trigger] d1[j],
        ) by {
            assert(d[d0.len() + i] == d1[i] && d[d0.len() + j] == d1[j]);
        }
        lemma_ascending_documents_never_overlap(earlier);
        assert forall|i: int, k: int| 0 <= i < e0.len() && 0 <= k < d1.len() implies (#[trigger] e0[i]).end.before(
            #[trigger] d1[k],
        ) by {
            assert(e0[i].end.at_most(d0.last()));
            assert(d[d0.len() - 1] == d0.last() && d[d0.len() + k] == d1[k]);
            assert(d[d0.len() - 1].before(d[d0.len() + k]));
        }
        lemma_ascending_document_never_overlaps(e0, tokens);
    }
}

} // verus!
