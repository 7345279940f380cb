//! Starting points: the named origins of the directions queries, and the
//! configuration text `place_id:label,place_id:label,...` that lists them.

use crate::text::{
    join, lemma_split_join, lemma_split_once_at, split, split_once, split_text, split_text_once,
    views,
};
use std::str::FromStr;
use vstd::pervasive::unreached;
use vstd::prelude::*;
use vstd::std_specs::cmp::PartialEqSpecImpl;
use vstd::std_specs::convert::FromSpecImpl;
use vstd::string::*;

verus! {

/// The starting points that are used when none are configured.
pub const DEFAULT_STARTING_POINTS: &'static str =
    "ChIJz85LumxtkFQRhW-lYWwmRpM:Microsoft,ChIJRe_JoxEBkFQRbaakkmkDFk0:Boeing";

/// Separates the entries of a configuration text.
pub const ENTRY_SEPARATOR: char = ',';

/// Separates the place identifier of an entry from its label.
pub const LABEL_SEPARATOR: char = ':';

/// A named geographic anchor used as the origin of a directions query.
#[derive(Debug)]
pub struct StartingPoint {
    /// A place identifier as the mapping service knows it.
    pub place_id: String,
    /// The display name to show in the output.
    pub display_name: String,
}

/// What a starting point holds, as mathematical text.
pub struct StartingPointView {
    pub place_id: Seq<char>,
    pub display_name: Seq<char>,
}

impl View for StartingPoint {
    type V = StartingPointView;

    open spec fn view(&self) -> StartingPointView {
        StartingPointView { place_id: self.place_id@, display_name: self.display_name@ }
    }
}

impl StartingPointView {
    /// A starting point is well formed when its place identifier is not
    /// empty. Every starting point that is read from a text is well formed.
    pub open spec fn wf(self) -> bool {
        self.place_id.len() > 0
    }
}

/// Why an entry of the configuration text is not a starting point.
#[derive(Debug, Clone, Copy, PartialEq, Eq, Structural)]
pub enum EntryFault {
    /// The entry holds no `:`.
    MissingDelimiter,
    /// Nothing stands before the first `:` of the entry.
    EmptyPlaceId,
}

/// The starting point that an entry denotes, or the reason why it denotes
/// none: the place identifier is the text before the first `:` and must not
/// be empty, the label is all the text after that `:`.
pub open spec fn parse_entry(entry: Seq<char>) -> Result<StartingPointView, EntryFault> {
    match split_once(entry, LABEL_SEPARATOR) {
        None => Err(EntryFault::MissingDelimiter),
        Some((place_id, display_name)) => if place_id.len() == 0 {
            Err(EntryFault::EmptyPlaceId)
        } else {
            Ok(StartingPointView { place_id, display_name })
        },
    }
}

/// An entry that is not a starting point, with the reason.
#[derive(Debug)]
pub struct EntryError {
    /// The entry as it stands in the configuration text.
    pub entry: String,
    pub fault: EntryFault,
}

pub struct EntryErrorView {
    pub entry: Seq<char>,
    pub fault: EntryFault,
}

impl View for EntryError {
    type V = EntryErrorView;

    open spec fn view(&self) -> EntryErrorView {
        EntryErrorView { entry: self.entry@, fault: self.fault }
    }
}

impl EntryErrorView {
    /// The sentence that reports this error.
    pub open spec fn message(self) -> Seq<char> {
        match self.fault {
            EntryFault::MissingDelimiter => "Error splitting \""@ + self.entry
                + "\" exactly once on the delimiter ':'."@,
            EntryFault::EmptyPlaceId => "The entry \""@ + self.entry
                + "\" has an empty place id."@,
        }
    }
}

impl EntryError {
    /// The sentence that reports this error.
    pub fn message(&self) -> (text: String)
        ensures
            text@ == self@.message(),
    {
        match self.fault {
            EntryFault::MissingDelimiter => {
                let mut text = "Error splitting \"".to_owned();
                text.append(self.entry.as_str());
                text.append("\" exactly once on the delimiter ':'.");
                text
            },
            EntryFault::EmptyPlaceId => {
                let mut text = "The entry \"".to_owned();
                text.append(self.entry.as_str());
                text.append("\" has an empty place id.");
                text
            },
        }
    }
}

impl Clone for StartingPoint {
    fn clone(&self) -> (copy: Self)
        ensures
            copy == *self,
    {
        StartingPoint { place_id: self.place_id.clone(), display_name: self.display_name.clone() }
    }
}

impl PartialEq for StartingPoint {
    fn eq(&self, other: &Self) -> (same: bool) {
        self.place_id == other.place_id && self.display_name == other.display_name
    }
}

impl Eq for StartingPoint {

}

impl PartialEqSpecImpl for StartingPoint {
    open spec fn obeys_eq_spec() -> bool {
        true
    }

    /// Two starting points are equal when they hold the same texts.
    open spec fn eq_spec(&self, other: &Self) -> bool {
        self@ == other@
    }
}

impl StartingPoint {
    /// A starting point with the given place identifier and label. It is
    /// well formed when the place identifier is not empty.
    pub fn new(place_id: &str, display_name: &str) -> (point: Self)
        ensures
            point@ == (StartingPointView { place_id: place_id@, display_name: display_name@ }),
            point@.wf() <==> place_id@.len() > 0,
    {
        StartingPoint { place_id: place_id.to_owned(), display_name: display_name.to_owned() }
    }

    /// Reads one entry `place_id:label`. The entry is split at its first `:`;
    /// an entry without `:` or with nothing before it is an error that holds
    /// the entry.
    pub fn from_str(s: &str) -> (parsed: Result<Self, EntryError>)
        ensures
            match parsed {
                Ok(point) => parse_entry(s@) == Ok::<StartingPointView, EntryFault>(point@)
                    && point@.wf(),
                Err(error) => parse_entry(s@) == Err::<StartingPointView, EntryFault>(error.fault)
                    && error.entry@ == s@,
            },
    {
        match split_text_once(s, LABEL_SEPARATOR) {
            None => Err(EntryError { entry: s.to_owned(), fault: EntryFault::MissingDelimiter }),
            Some((place_id, display_name)) => {
                if place_id.as_str().is_empty() {
                    Err(EntryError { entry: s.to_owned(), fault: EntryFault::EmptyPlaceId })
                } else {
                    Ok(StartingPoint { place_id, display_name })
                }
            },
        }
    }
}

impl FromStr for StartingPoint {
    type Err = EntryError;

    /// Reads one entry `place_id:label`, as `StartingPoint::from_str` does,
    /// for `str::parse`.
    fn from_str(s: &str) -> (parsed: Result<Self, EntryError>)
        ensures
            match parsed {
                Ok(point) => parse_entry(s@) == Ok::<StartingPointView, EntryFault>(point@)
                    && point@.wf(),
                Err(error) => parse_entry(s@) == Err::<StartingPointView, EntryFault>(error.fault)
                    && error.entry@ == s@,
            },
    {
        StartingPoint::from_str(s)
    }
}

/// An ordered list of starting points, as a configuration text names them.
#[derive(Debug)]
pub struct StartingPoints(pub Vec<StartingPoint>);

/// The views of a vector of starting points.
pub open spec fn point_views(points: Seq<StartingPoint>) -> Seq<StartingPointView> {
    points.map_values(|point: StartingPoint| point@)
}

/// The views of a vector of entry errors.
pub open spec fn error_views(errors: Seq<EntryError>) -> Seq<EntryErrorView> {
    errors.map_values(|error: EntryError| error@)
}

impl View for StartingPoints {
    type V = Seq<StartingPointView>;

    open spec fn view(&self) -> Seq<StartingPointView> {
        point_views(self.0@)
    }
}

/// The starting points that the well-formed entries denote, in the order of
/// the entries.
pub open spec fn points_of(entries: Seq<Seq<char>>) -> Seq<StartingPointView>
    decreases entries.len(),
{
    if entries.len() == 0 {
        Seq::empty()
    } else {
        let before = points_of(entries.drop_last());
        match parse_entry(entries.last()) {
            Ok(point) => before.push(point),
            Err(_) => before,
        }
    }
}

/// The errors of the malformed entries, in the order of the entries.
pub open spec fn faults_of(entries: Seq<Seq<char>>) -> Seq<EntryErrorView>
    decreases entries.len(),
{
    if entries.len() == 0 {
        Seq::empty()
    } else {
        let before = faults_of(entries.drop_last());
        match parse_entry(entries.last()) {
            Ok(_) => before,
            Err(fault) => before.push(EntryErrorView { entry: entries.last(), fault }),
        }
    }
}

/// What a configuration text denotes: the starting points of its entries
/// when every entry is well formed, and otherwise the errors of all the
/// entries that are not.
pub open spec fn parse_points(s: Seq<char>) -> Result<Seq<StartingPointView>, Seq<EntryErrorView>> {
    let entries = split(s, ENTRY_SEPARATOR);
    if faults_of(entries).len() == 0 {
        Ok(points_of(entries))
    } else {
        Err(faults_of(entries))
    }
}

/// All the entries of a configuration text that are not starting points.
#[derive(Debug)]
pub struct ParseError {
    /// One error for each malformed entry, in the order of the entries.
    pub causes: Vec<EntryError>,
}

impl View for ParseError {
    type V = Seq<EntryErrorView>;

    open spec fn view(&self) -> Seq<EntryErrorView> {
        error_views(self.causes@)
    }
}

/// The first line of the report of a parse error.
pub const PARSE_ERROR_HEADLINE: &'static str = "These entries are not starting points:";

/// The sentences of the given errors, in order.
pub open spec fn messages_of(causes: Seq<EntryErrorView>) -> Seq<Seq<char>> {
    causes.map_values(|cause: EntryErrorView| cause.message())
}

/// The report of the given errors: the headline, then one line for each.
pub open spec fn report_of(causes: Seq<EntryErrorView>) -> Seq<char> {
    join(seq![PARSE_ERROR_HEADLINE@] + messages_of(causes), '\n')
}

impl ParseError {
    /// The sentence of each cause, in order.
    pub fn messages(&self) -> (lines: Vec<String>)
        ensures
            views(lines@) == messages_of(self@),
    {
        let mut lines: Vec<String> = Vec::new();
        let mut i: usize = 0;
        while i < self.causes.len()
            invariant
                i <= self.causes.len(),
                views(lines@) == messages_of(self@.take(i as int)),
            decreases self.causes.len() - i,
        {
            let line = self.causes[i].message();
            assert(self@.take(i + 1) == self@.take(i as int).push(self.causes[i as int]@));
            assert(views(lines@.push(line)) == views(lines@).push(line@));
            assert(messages_of(self@.take(i as int).push(self.causes[i as int]@)) == messages_of(
                self@.take(i as int),
            ).push(self.causes[i as int]@.message()));
            lines.push(line);
            i += 1;
        }
        assert(self@.take(i as int) == self@);
        lines
    }

    /// The whole report: the headline, then the sentence of each cause on a
    /// line of its own.
    pub fn message(&self) -> (text: String)
        ensures
            text@ == report_of(self@),
    {
        let mut text = PARSE_ERROR_HEADLINE.to_owned();
        let mut i: usize = 0;
        while i < self.causes.len()
            invariant
                i <= self.causes.len(),
                text@ == report_of(self@.take(i as int)),
            decreases self.causes.len() - i,
        {
            let line = self.causes[i].message();
            proof {
                let head = seq![PARSE_ERROR_HEADLINE@];
                let before = self@.take(i as int);
                let after = self@.take(i + 1);
                assert(after == before.push(self.causes[i as int]@));
                assert(messages_of(after) == messages_of(before).push(line@));
                assert((head + messages_of(after)).drop_last() == head + messages_of(before));
            }
            text.push('\n');
            text.append(line.as_str());
            i += 1;
        }
        assert(self@.take(i as int) == self@);
        text
    }
}

impl StartingPoints {
    /// Reads a configuration text `place_id:label,place_id:label,...`. Every
    /// entry is read, also after a malformed one: the result is the list of
    /// all starting points, or the errors of all malformed entries.
    pub fn from_str(s: &str) -> (parsed: Result<Self, ParseError>)
        ensures
            match parsed {
                Ok(points) => parse_points(s@) == Ok::<
                    Seq<StartingPointView>,
                    Seq<EntryErrorView>,
                >(points@),
                Err(error) => parse_points(s@) == Err::<
                    Seq<StartingPointView>,
                    Seq<EntryErrorView>,
                >(error@),
            },
    {
        let entries = split_text(s, ENTRY_SEPARATOR);
        let mut points: Vec<StartingPoint> = Vec::new();
        let mut causes: Vec<EntryError> = Vec::new();
        let mut i: usize = 0;
        while i < entries.len()
            invariant
                i <= entries.len(),
                views(entries@) == split(s@, ENTRY_SEPARATOR),
                point_views(points@) == points_of(views(entries@).take(i as int)),
                error_views(causes@) == faults_of(views(entries@).take(i as int)),
            decreases entries.len() - i,
        {
            proof {
                let all = views(entries@);
                assert(all.take(i + 1).drop_last() == all.take(i as int));
                assert(all.take(i + 1).last() == entries[i as int]@);
            }
            match StartingPoint::from_str(entries[i].as_str()) {
                Ok(point) => {
                    assert(point_views(points@.push(point)) == point_views(points@).push(point@));
                    points.push(point);
                },
                Err(error) => {
                    assert(error_views(causes@.push(error)) == error_views(causes@).push(error@));
                    causes.push(error);
                },
            }
            i += 1;
        }
        assert(views(entries@).take(i as int) == views(entries@));
        if causes.is_empty() {
            Ok(StartingPoints(points))
        } else {
            Err(ParseError { causes })
        }
    }
}

impl FromStr for StartingPoints {
    type Err = ParseError;

    /// Reads a configuration text, as `StartingPoints::from_str` does, for
    /// `str::parse`.
    fn from_str(s: &str) -> (parsed: Result<Self, ParseError>)
        ensures
            match parsed {
                Ok(points) => parse_points(s@) == Ok::<
                    Seq<StartingPointView>,
                    Seq<EntryErrorView>,
                >(points@),
                Err(error) => parse_points(s@) == Err::<
                    Seq<StartingPointView>,
                    Seq<EntryErrorView>,
                >(error@),
            },
    {
        StartingPoints::from_str(s)
    }
}

/// Every entry gives either a starting point or an error: none is counted
/// twice and none is dropped.
pub proof fn lemma_every_entry_accounted(entries: Seq<Seq<char>>)
    ensures
        points_of(entries).len() + faults_of(entries).len() == entries.len(),
    decreases entries.len(),
{
    if entries.len() > 0 {
        lemma_every_entry_accounted(entries.drop_last());
    }
}

/// Where every entry is well formed there is no error, and the starting
/// points stand in the order of their entries. Where one is malformed there
/// is an error.
pub proof fn lemma_points_in_order(entries: Seq<Seq<char>>)
    ensures
        faults_of(entries).len() == 0 <==> forall|i: int|
            0 <= i < entries.len() ==> (#[trigger] parse_entry(entries[i])) is Ok,
        faults_of(entries).len() == 0 ==> points_of(entries).len() == entries.len()
            && forall|i: int|
            0 <= i < entries.len() ==> #[trigger] parse_entry(entries[i]) == Ok::<
                StartingPointView,
                EntryFault,
            >(points_of(entries)[i]),
    decreases entries.len(),
{
    if entries.len() > 0 {
        let shorter = entries.drop_last();
        lemma_points_in_order(shorter);
        assert(forall|i: int| 0 <= i < shorter.len() ==> shorter[i] == entries[i]);
        if faults_of(entries).len() == 0 {
            assert forall|i: int| 0 <= i < entries.len() implies (#[trigger] parse_entry(
                entries[i],
            )) is Ok && parse_entry(entries[i]) == Ok::<StartingPointView, EntryFault>(
                points_of(entries)[i],
            ) by {
                if i < shorter.len() {
                    assert(parse_entry(shorter[i]) is Ok);
                }
            }
        } else if faults_of(shorter).len() == 0 {
            assert(parse_entry(entries[entries.len() - 1]) is Err);
        } else {
            let i = choose|i: int| 0 <= i < shorter.len() && !((#[trigger] parse_entry(
                shorter[i],
            )) is Ok);
            assert(!(parse_entry(entries[i]) is Ok));
        }
    }
}

/// The errors are those of the malformed entries and of no others: each
/// error holds an entry of the text with the fault of that entry, and each
/// malformed entry has its error.
pub proof fn lemma_faults_are_the_malformed(entries: Seq<Seq<char>>)
    ensures
        forall|k: int|
            0 <= k < faults_of(entries).len() ==> entries.contains(
                (#[trigger] faults_of(entries)[k]).entry,
            ) && parse_entry(faults_of(entries)[k].entry) == Err::<StartingPointView, EntryFault>(
                faults_of(entries)[k].fault,
            ),
        forall|i: int|
            0 <= i < entries.len() && (#[trigger] parse_entry(entries[i])) is Err
                ==> faults_of(entries).contains(
                EntryErrorView { entry: entries[i], fault: parse_entry(entries[i])->Err_0 },
            ),
    decreases entries.len(),
{
    if entries.len() > 0 {
        let shorter = entries.drop_last();
        let last = entries.len() - 1;
        lemma_faults_are_the_malformed(shorter);
        assert(forall|i: int| 0 <= i < shorter.len() ==> shorter[i] == entries[i]);
        let faults = faults_of(entries);
        let before = faults_of(shorter);
        assert forall|k: int| 0 <= k < faults.len() implies entries.contains(
            (#[trigger] faults[k]).entry,
        ) && parse_entry(faults[k].entry) == Err::<StartingPointView, EntryFault>(
            faults[k].fault,
        ) by {
            if k < before.len() {
                assert(faults[k] == before[k]);
                let i = choose|i: int| 0 <= i < shorter.len() && shorter[i] == before[k].entry;
                assert(entries[i] == faults[k].entry);
            } else {
                assert(entries[last] == faults[k].entry);
            }
        }
        assert forall|i: int|
            0 <= i < entries.len() && (#[trigger] parse_entry(entries[i])) is Err implies faults.contains(
            EntryErrorView { entry: entries[i], fault: parse_entry(entries[i])->Err_0 },
        ) by {
            let wanted = EntryErrorView { entry: entries[i], fault: parse_entry(entries[i])->Err_0 };
            if i < last {
                assert(parse_entry(shorter[i]) is Err);
                let k = choose|k: int| 0 <= k < before.len() && before[k] == wanted;
                assert(faults[k] == wanted);
            } else {
                assert(faults[faults.len() - 1] == wanted);
            }
        }
    }
}

/// Every starting point that parsing yields has a place identifier.
pub proof fn lemma_points_well_formed(entries: Seq<Seq<char>>)
    ensures
        forall|k: int| 0 <= k < points_of(entries).len() ==> (#[trigger] points_of(entries)[k]).wf(),
    decreases entries.len(),
{
    if entries.len() > 0 {
        let before = points_of(entries.drop_last());
        lemma_points_well_formed(entries.drop_last());
        assert forall|k: int| 0 <= k < points_of(entries).len() implies (#[trigger] points_of(
            entries,
        )[k]).wf() by {
            if k < before.len() {
                assert(points_of(entries)[k] == before[k]);
            }
        }
    }
}

/// The two starting points of `DEFAULT_STARTING_POINTS`.
pub open spec fn default_points() -> Seq<StartingPointView> {
    seq![
        StartingPointView {
            place_id: "ChIJz85LumxtkFQRhW-lYWwmRpM"@,
            display_name: "Microsoft"@,
        },
        StartingPointView { place_id: "ChIJRe_JoxEBkFQRbaakkmkDFk0"@, display_name: "Boeing"@ },
    ]
}

/// `DEFAULT_STARTING_POINTS` is a well-formed configuration text, and it
/// denotes `default_points`.
pub proof fn lemma_default_points()
    ensures
        parse_points(DEFAULT_STARTING_POINTS@) == Ok::<
            Seq<StartingPointView>,
            Seq<EntryErrorView>,
        >(default_points()),
{
    reveal_strlit("ChIJz85LumxtkFQRhW-lYWwmRpM:Microsoft,ChIJRe_JoxEBkFQRbaakkmkDFk0:Boeing");
    reveal_strlit("ChIJz85LumxtkFQRhW-lYWwmRpM");
    reveal_strlit("Microsoft");
    reveal_strlit("ChIJRe_JoxEBkFQRbaakkmkDFk0");
    reveal_strlit("Boeing");
    let first = "ChIJz85LumxtkFQRhW-lYWwmRpM"@.push(':') + "Microsoft"@;
    let second = "ChIJRe_JoxEBkFQRbaakkmkDFk0"@.push(':') + "Boeing"@;
    let entries = seq![first, second];
    assert(entries.drop_last() == seq![first]);
    assert(join(seq![first], ENTRY_SEPARATOR) == first);
    assert(DEFAULT_STARTING_POINTS@ == first.push(',') + second);
    lemma_split_join(entries, ENTRY_SEPARATOR);
    lemma_split_once_at(first, LABEL_SEPARATOR, 27);
    assert(first.take(27) == "ChIJz85LumxtkFQRhW-lYWwmRpM"@);
    assert(first.skip(28) == "Microsoft"@);
    lemma_split_once_at(second, LABEL_SEPARATOR, 27);
    assert(second.take(27) == "ChIJRe_JoxEBkFQRbaakkmkDFk0"@);
    assert(second.skip(28) == "Boeing"@);
    assert(parse_entry(first) == Ok::<StartingPointView, EntryFault>(default_points()[0]));
    assert(parse_entry(second) == Ok::<StartingPointView, EntryFault>(default_points()[1]));
    reveal_with_fuel(points_of, 3);
    reveal_with_fuel(faults_of, 3);
    assert(seq![first].drop_last() == Seq::<Seq<char>>::empty());
    assert(points_of(entries) == default_points());
}

impl Default for StartingPoints {
    /// The starting points of `DEFAULT_STARTING_POINTS`.
    fn default() -> (points: Self)
        ensures
            points@ == default_points(),
    {
        proof {
            lemma_default_points();
        }
        match StartingPoints::from_str(DEFAULT_STARTING_POINTS) {
            Ok(points) => points,
            Err(_) => unreached(),
        }
    }
}

impl StartingPoints {
    /// The starting points of a run: those of the configuration text, or the
    /// default ones when no text is supplied.
    pub fn configured(text: Option<&str>) -> (parsed: Result<Self, ParseError>)
        ensures
            match text {
                Some(text) => match parsed {
                    Ok(points) => parse_points(text@) == Ok::<
                        Seq<StartingPointView>,
                        Seq<EntryErrorView>,
                    >(points@),
                    Err(error) => parse_points(text@) == Err::<
                        Seq<StartingPointView>,
                        Seq<EntryErrorView>,
                    >(error@),
                },
                None => parsed is Ok && parsed->Ok_0@ == default_points(),
            },
    {
        match text {
            Some(text) => StartingPoints::from_str(text),
            None => Ok(StartingPoints::default()),
        }
    }
}

impl Clone for StartingPoints {
    fn clone(&self) -> (copy: Self)
        ensures
            copy@ == self@,
    {
        let mut points: Vec<StartingPoint> = Vec::new();
        let mut i: usize = 0;
        while i < self.0.len()
            invariant
                i <= self.0.len(),
                point_views(points@) == self@.take(i as int),
            decreases self.0.len() - i,
        {
            let point = self.0[i].clone();
            assert(point_views(points@.push(point)) == point_views(points@).push(point@));
            assert(self@.take(i + 1) == self@.take(i as int).push(self.0[i as int]@));
            points.push(point);
            i += 1;
        }
        assert(self@.take(i as int) == self@);
        StartingPoints(points)
    }
}

impl PartialEq for StartingPoints {
    fn eq(&self, other: &Self) -> (same: bool) {
        if self.0.len() != other.0.len() {
            assert(self@.len() != other@.len());
            return false;
        }
        let mut i: usize = 0;
        while i < self.0.len()
            invariant
                i <= self.0.len(),
                self.0.len() == other.0.len(),
                self@.take(i as int) == other@.take(i as int),
            decreases self.0.len() - i,
        {
            if self.0[i] != other.0[i] {
                assert(self@[i as int] != other@[i as int]);
                return false;
            }
            assert(self@.take(i + 1) == self@.take(i as int).push(self@[i as int]));
            assert(other@.take(i + 1) == other@.take(i as int).push(other@[i as int]));
            i += 1;
        }
        assert(self@.take(i as int) == self@);
        assert(other@.take(i as int) == other@);
        true
    }
}

impl Eq for StartingPoints {

}

impl PartialEqSpecImpl for StartingPoints {
    open spec fn obeys_eq_spec() -> bool {
        true
    }

    /// Two lists are equal when they hold equal starting points in the same order.
    open spec fn eq_spec(&self, other: &Self) -> bool {
        self@ == other@
    }
}

impl From<Vec<StartingPoint>> for StartingPoints {
    fn from(points: Vec<StartingPoint>) -> (list: Self) {
        StartingPoints(points)
    }
}

impl FromSpecImpl<Vec<StartingPoint>> for StartingPoints {
    open spec fn obeys_from_spec() -> bool {
        true
    }

    open spec fn from_spec(points: Vec<StartingPoint>) -> Self {
        StartingPoints(points)
    }
}

impl From<StartingPoints> for Vec<StartingPoint> {
    fn from(list: StartingPoints) -> (points: Self) {
        list.0
    }
}

impl FromSpecImpl<StartingPoints> for Vec<StartingPoint> {
    open spec fn obeys_from_spec() -> bool {
        true
    }

    open spec fn from_spec(list: StartingPoints) -> Self {
        list.0
    }
}

} // verus!
