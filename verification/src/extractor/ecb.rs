//! The XML source: quarterly series in the generic-data format of SDMX.
//! Each observation is an empty element for the period and one for the
//! value, both with the attribute `value`.

use vstd::prelude::*;
use vstd::string::StringExecFns;
use vstd::string::StringSliceAdditionalSpecFns;
use quick_xml::events::Event;
use quick_xml::Reader;
use crate::error::Fault;
use crate::error::PipelineError;
use crate::numeric::is_number;
use crate::numeric::is_numeric;
use crate::text::ends_with;
use crate::text::has_suffix;
use crate::text::same_bytes;
use crate::text::same_text;
use crate::text::text_of;
use crate::extractor::extractor_manager::check_status;
use crate::extractor::extractor_manager::is_success;
use crate::frame::amount::Amount;
use crate::frame::amount::Formula;
use crate::frame::column::CellsView;
use crate::frame::column::Column;
use crate::frame::column::ColumnView;
use crate::frame::table::Table;
use crate::transformer::normalize::outcome;
use crate::transformer::normalize::QUARTER;

verus! {

/// The reader of `quick_xml`.
#[verifier::external_type_specification]
#[verifier::external_body]
#[verifier::reject_recursive_types(R)]
pub struct ExReader<R>(Reader<R>);

/// An attribute of an element, as the document wrote it.
pub struct Attribute {
    pub key: Vec<u8>,
    pub value: Vec<u8>,
}

/// What an `Attribute` stands for in contracts.
pub struct AttributeView {
    pub key: Seq<u8>,
    pub value: Seq<u8>,
}

impl View for Attribute {
    type V = AttributeView;

    open spec fn view(&self) -> AttributeView {
        AttributeView { key: self.key@, value: self.value@ }
    }
}

impl DeepView for Attribute {
    type V = AttributeView;

    open spec fn deep_view(&self) -> AttributeView {
        self@
    }
}

/// What the reader finds next in a document.
pub enum ScanEvent {
    /// An empty element, with its name and its attributes in order. An
    /// attribute that is not well formed is given as none.
    Empty { name: Vec<u8>, attributes: Vec<Option<Attribute>> },
    /// Anything else that is well formed.
    Other,
    /// The end of the document.
    Eof,
    /// Something that the reader cannot read.
    Failure,
}

/// What a `ScanEvent` stands for in contracts.
pub enum ScanEventView {
    Empty { name: Seq<u8>, attributes: Seq<Option<AttributeView>> },
    Other,
    Eof,
    Failure,
}

impl View for ScanEvent {
    type V = ScanEventView;

    open spec fn view(&self) -> ScanEventView {
        match self {
            ScanEvent::Empty { name, attributes } => ScanEventView::Empty {
                name: name@,
                attributes: attributes.deep_view(),
            },
            ScanEvent::Other => ScanEventView::Other,
            ScanEvent::Eof => ScanEventView::Eof,
            ScanEvent::Failure => ScanEventView::Failure,
        }
    }
}

impl ScanEventView {
    /// Whether reading ends with this event.
    pub open spec fn is_last(self) -> bool {
        self is Eof || self is Failure
    }
}

/// The events that `quick_xml` reads from a document, one after the other,
/// up to the first that ends the reading.
pub uninterp spec fn document_events(xml: Seq<char>) -> Seq<ScanEventView>;

/// The events that a reader has yet to give, up to the first that ends the
/// reading.
pub uninterp spec fn pending_events(reader: Reader<&[u8]>) -> Seq<ScanEventView>;

/// `Reader::from_str` of `quick_xml`. The contract claims, without proof,
/// that the reader has the events of the document yet to give.
#[verifier::external_body]
fn open_reader<'a>(xml: &'a str) -> (reader: Reader<&'a [u8]>)
    ensures
        pending_events(reader) == document_events(xml@),
{
    Reader::from_str(xml)
}

/// `Reader::read_event` of `quick_xml`, with the event turned into a
/// `ScanEvent`. The contract claims, without proof, that a reader always has
/// an event to give, that the event given is the first of them, and that the
/// others stay unless the reading ends.
#[verifier::external_body]
fn next_event<'a>(reader: &mut Reader<&'a [u8]>) -> (event: ScanEvent)
    ensures
        pending_events(*old(reader)).len() > 0,
        event@ == pending_events(*old(reader))[0],
        !event@.is_last() ==> pending_events(*final(reader)) == pending_events(
            *old(reader),
        ).skip(1),
{
    match reader.read_event() {
        Ok(Event::Empty(element)) => ScanEvent::Empty {
            name: element.name().as_ref().to_vec(),
            attributes: element.attributes().map(
                |attribute|
                    attribute.ok().map(
                        |a| Attribute { key: a.key.as_ref().to_vec(), value: a.value.into_owned() },
                    ),
            ).collect(),
        },
        Ok(Event::Eof) => ScanEvent::Eof,
        Ok(_) => ScanEvent::Other,
        Err(_) => ScanEvent::Failure,
    }
}

/// The end of the name of an element that gives the period of an
/// observation.
pub const DIMENSION: &'static str = "generic:ObsDimension";

/// The end of the name of an element that gives the value of an
/// observation.
pub const VALUE: &'static str = "generic:ObsValue";

/// The key of the attribute that is read.
pub const KEY: &'static str = "value";

/// The periods and the values read so far, each in the order of the
/// document.
pub struct Readings {
    pub quarters: Seq<Seq<char>>,
    pub values: Seq<Seq<char>>,
}

/// What is wrong with an attribute that is not well formed.
pub const BAD_ATTRIBUTE: &'static str = "an attribute is not well formed";

/// What stands for a value whose bytes are no text.
pub const NO_TEXT: &'static str = "bytes that are no text";

/// What is wrong with a document that the reader cannot read to its end.
pub const UNREADABLE: &'static str = "the document cannot be read to its end";

/// What is wrong where the periods are not as many as the values.
pub const UNEVEN_COUNTS: &'static str = "the periods and the values are not the same in number";

/// The texts of the attributes `value` among the first `n` attributes. It
/// fails on the format at an attribute that is not well formed, and on the
/// text, naming the attribute and the value, at a value that is not UTF-8 or,
/// where numbers are asked for, is no number. The first such attribute
/// decides.
pub open spec fn value_texts(attributes: Seq<Option<AttributeView>>, numbers: bool, n: nat)
    -> Result<Seq<Seq<char>>, Fault>
    decreases n,
{
    if n == 0 {
        Ok(Seq::empty())
    } else {
        match value_texts(attributes, numbers, (n - 1) as nat) {
            Err(fault) => Err(fault),
            Ok(texts) => match attributes[n - 1] {
                None => Err(Fault::Format { description: BAD_ATTRIBUTE@ }),
                Some(attribute) => if attribute.key != KEY.spec_bytes() {
                    Ok(texts)
                } else if !vstd::utf8::valid_utf8(attribute.value) {
                    Err(Fault::Parse { field: KEY@, raw_value: NO_TEXT@ })
                } else if numbers && !is_numeric(vstd::utf8::decode_utf8(attribute.value)) {
                    Err(
                        Fault::Parse {
                            field: KEY@,
                            raw_value: vstd::utf8::decode_utf8(attribute.value),
                        },
                    )
                } else {
                    Ok(texts.push(vstd::utf8::decode_utf8(attribute.value)))
                },
            },
        }
    }
}

/// The readings after an event that does not end the reading.
pub open spec fn after_event(readings: Readings, event: ScanEventView) -> Result<
    Readings,
    Fault,
> {
    match event {
        ScanEventView::Empty { name, attributes } => if ends_with(name, DIMENSION.spec_bytes()) {
            match value_texts(attributes, false, attributes.len()) {
                Ok(texts) => Ok(
                    Readings { quarters: readings.quarters + texts, values: readings.values },
                ),
                Err(fault) => Err(fault),
            }
        } else if ends_with(name, VALUE.spec_bytes()) {
            match value_texts(attributes, true, attributes.len()) {
                Ok(texts) => Ok(
                    Readings { quarters: readings.quarters, values: readings.values + texts },
                ),
                Err(fault) => Err(fault),
            }
        } else {
            Ok(readings)
        },
        _ => Ok(readings),
    }
}

/// The readings after the events, which are read up to the end of the
/// document; or the first failure. An event that the reader cannot read is a
/// failure of the format: no part of a document is taken for the whole.
pub open spec fn scanned(events: Seq<ScanEventView>, readings: Readings) -> Result<
    Readings,
    Fault,
>
    decreases events.len(),
{
    if events.len() == 0 || events[0] is Eof {
        Ok(readings)
    } else if events[0] is Failure {
        Err(Fault::Format { description: UNREADABLE@ })
    } else {
        match after_event(readings, events[0]) {
            Err(fault) => Err(fault),
            Ok(next) => scanned(events.skip(1), next),
        }
    }
}

/// One observation: a period and the value read for it.
#[derive(Debug, PartialEq)]
pub struct Reading {
    pub quarter: String,
    pub value: String,
}

/// What a `Reading` stands for in contracts.
pub struct ReadingView {
    pub quarter: Seq<char>,
    pub value: Seq<char>,
}

impl View for Reading {
    type V = ReadingView;

    open spec fn view(&self) -> ReadingView {
        ReadingView { quarter: self.quarter@, value: self.value@ }
    }
}

impl DeepView for Reading {
    type V = ReadingView;

    open spec fn deep_view(&self) -> ReadingView {
        self@
    }
}

/// The place of the first reading of the given period among the first `n`.
pub open spec fn place_of(readings: Seq<ReadingView>, quarter: Seq<char>, n: nat) -> Option<int>
    decreases n,
{
    if n == 0 {
        None
    } else {
        match place_of(readings, quarter, (n - 1) as nat) {
            Some(place) => Some(place),
            None => if readings[n - 1].quarter == quarter {
                Some(n - 1)
            } else {
                None
            },
        }
    }
}

/// The first `n` periods paired with their values, one reading for each
/// period: in the order in which the periods first appear, each with the
/// value that came last for it.
pub open spec fn merged(quarters: Seq<Seq<char>>, values: Seq<Seq<char>>, n: nat) -> Seq<
    ReadingView,
>
    decreases n,
{
    if n == 0 {
        Seq::empty()
    } else {
        let before = merged(quarters, values, (n - 1) as nat);
        let reading = ReadingView { quarter: quarters[n - 1], value: values[n - 1] };
        match place_of(before, quarters[n - 1], before.len()) {
            Some(place) => before.update(place, reading),
            None => before.push(reading),
        }
    }
}

/// No period has two readings, and the periods that have one are those
/// among the first `n`.
pub proof fn merged_has_each_period_once(
    quarters: Seq<Seq<char>>,
    values: Seq<Seq<char>>,
    n: nat,
)
    requires
        n <= quarters.len(),
    ensures
        forall|a: int, b: int|
            0 <= a < b < merged(quarters, values, n).len() ==> merged(quarters, values, n)[a].quarter
                != merged(quarters, values, n)[b].quarter,
        forall|k: int|
            0 <= k < merged(quarters, values, n).len() ==> exists|i: int|
                0 <= i < n && quarters[i] == (#[trigger] merged(quarters, values, n)[k]).quarter,
        forall|i: int|
            0 <= i < n ==> exists|k: int|
                0 <= k < merged(quarters, values, n).len() && merged(quarters, values, n)[k].quarter
                    == #[trigger] quarters[i],
    decreases n,
{
    if n > 0 {
        let before = merged(quarters, values, (n - 1) as nat);
        let now = merged(quarters, values, n);
        let quarter = quarters[n - 1];
        merged_has_each_period_once(quarters, values, (n - 1) as nat);
        place_of_is_exact(before, quarter, before.len());
        match place_of(before, quarter, before.len()) {
            Some(place) => {
                assert forall|k: int| 0 <= k < now.len() implies exists|i: int|
                    0 <= i < n && quarters[i] == (#[trigger] now[k]).quarter by {
                    if k == place {
                        assert(quarters[n - 1] == now[k].quarter);
                    } else {
                        let i = choose|i: int| 0 <= i < n - 1 && quarters[i] == before[k].quarter;
                        assert(quarters[i] == now[k].quarter);
                    }
                }
                assert forall|i: int| 0 <= i < n implies exists|k: int|
                    0 <= k < now.len() && now[k].quarter == #[trigger] quarters[i] by {
                    if i == n - 1 {
                        assert(now[place].quarter == quarters[i]);
                    } else {
                        let k = choose|k: int|
                            0 <= k < before.len() && before[k].quarter == quarters[i];
                        assert(now[k].quarter == quarters[i]);
                    }
                }
            },
            None => {
                assert forall|k: int| 0 <= k < now.len() implies exists|i: int|
                    0 <= i < n && quarters[i] == (#[trigger] now[k]).quarter by {
                    if k == before.len() {
                        assert(quarters[n - 1] == now[k].quarter);
                    } else {
                        let i = choose|i: int| 0 <= i < n - 1 && quarters[i] == before[k].quarter;
                        assert(quarters[i] == now[k].quarter);
                    }
                }
                assert forall|i: int| 0 <= i < n implies exists|k: int|
                    0 <= k < now.len() && now[k].quarter == #[trigger] quarters[i] by {
                    if i == n - 1 {
                        assert(now[before.len() as int].quarter == quarters[i]);
                    } else {
                        let k = choose|k: int|
                            0 <= k < before.len() && before[k].quarter == quarters[i];
                        assert(now[k].quarter == quarters[i]);
                    }
                }
            },
        }
    }
}

/// `place_of` gives the first place of a reading of the period, and none
/// only where there is no such reading.
pub proof fn place_of_is_exact(readings: Seq<ReadingView>, quarter: Seq<char>, n: nat)
    requires
        n <= readings.len(),
    ensures
        match place_of(readings, quarter, n) {
            Some(place) => 0 <= place < n && readings[place].quarter == quarter,
            None => forall|k: int| 0 <= k < n ==> (#[trigger] readings[k]).quarter != quarter,
        },
    decreases n,
{
    if n > 0 {
        place_of_is_exact(readings, quarter, (n - 1) as nat);
    }
}

/// What `parse_xml` returns: the observations of the document, or a
/// failure: the first of the reading, else one of the format where the
/// periods are not as many as the values.
pub open spec fn observations(xml: Seq<char>) -> Result<Seq<ReadingView>, Fault> {
    match scanned(document_events(xml), Readings { quarters: Seq::empty(), values: Seq::empty() }) {
        Err(fault) => Err(fault),
        Ok(readings) => if readings.quarters.len() != readings.values.len() {
            Err(Fault::Format { description: UNEVEN_COUNTS@ })
        } else {
            Ok(merged(readings.quarters, readings.values, readings.quarters.len()))
        },
    }
}

/// Observations or a failure, as contracts speak of it.
pub open spec fn readings_outcome(result: Result<Vec<Reading>, PipelineError>) -> Result<
    Seq<ReadingView>,
    Fault,
> {
    match result {
        Ok(readings) => Ok(readings.deep_view()),
        Err(error) => Err(error@),
    }
}

/// The texts of the attributes `value`, in order.
fn read_values(attributes: Vec<Option<Attribute>>, numbers: bool) -> (result: Result<
    Vec<String>,
    PipelineError,
>)
    ensures
        match result {
            Ok(texts) => value_texts(attributes.deep_view(), numbers, attributes.len() as nat)
                == Ok::<Seq<Seq<char>>, Fault>(texts.deep_view()),
            Err(error) => value_texts(attributes.deep_view(), numbers, attributes.len() as nat)
                == Err::<Seq<Seq<char>>, Fault>(error@),
        },
{
    let ghost all = attributes.deep_view();
    let ghost total = attributes.len();
    let mut rest = attributes;
    let mut texts: Vec<String> = Vec::new();
    assert(texts.deep_view() =~= Seq::<Seq<char>>::empty());
    let mut i: usize = 0;
    while rest.len() > 0
        invariant
            all.len() == total,
            all == attributes.deep_view(),
            total == attributes.len(),
            i + rest.len() == total,
            rest.deep_view() == all.skip(i as int),
            value_texts(all, numbers, i as nat) == Ok::<Seq<Seq<char>>, Fault>(
                texts.deep_view(),
            ),
        decreases rest.len(),
    {
        let ghost before = texts.deep_view();
        let ghost rest_before = rest.deep_view();
        let ghost items_before = rest@;
        let next = rest.remove(0);
        proof {
            assert(next.deep_view() == rest_before[0]);
            assert forall|k: int| 0 <= k < rest.len() implies rest.deep_view()[k] == all.skip(
                i + 1,
            )[k] by {
                assert(rest@[k] == items_before[k + 1]);
                assert(rest_before[k + 1] == items_before[k + 1].deep_view());
            }
            assert(rest.deep_view() =~= all.skip(i + 1));
        }
        match next {
            None => {
                proof {
                    assert(all[i as int] is None);
                    assert(value_texts(all, numbers, (i + 1) as nat) is Err);
                    value_texts_keeps_failure(all, numbers, (i + 1) as nat, total as nat);
                }
                return Err(PipelineError::format(BAD_ATTRIBUTE));
            },
            Some(attribute) => {
                assert(all[i as int] == Some(attribute@));
                if same_bytes(attribute.key.as_slice(), KEY.as_bytes()) {
                    match text_of(attribute.value) {
                        None => {
                            proof {
                                value_texts_keeps_failure(
                                    all,
                                    numbers,
                                    (i + 1) as nat,
                                    total as nat,
                                );
                            }
                            return Err(PipelineError::parse(KEY, NO_TEXT));
                        },
                        Some(text) => {
                            if numbers && !is_number(text.as_str()) {
                                proof {
                                    value_texts_keeps_failure(
                                        all,
                                        numbers,
                                        (i + 1) as nat,
                                        total as nat,
                                    );
                                }
                                return Err(PipelineError::parse(KEY, text.as_str()));
                            }
                            texts.push(text);
                            assert(texts.deep_view() =~= before.push(text@));
                        },
                    }
                }
            },
        }
        i = i + 1;
    }
    Ok(texts)
}

/// A failure among the first `n` attributes is the failure of any longer
/// run.
pub proof fn value_texts_keeps_failure(
    attributes: Seq<Option<AttributeView>>,
    numbers: bool,
    n: nat,
    m: nat,
)
    requires
        n <= m,
        value_texts(attributes, numbers, n) is Err,
    ensures
        value_texts(attributes, numbers, m) == value_texts(attributes, numbers, n),
    decreases m,
{
    if n < m {
        value_texts_keeps_failure(attributes, numbers, n, (m - 1) as nat);
    }
}

/// Whether the periods are as many as the values.
pub fn validate_quarters_and_values(quarters: &Vec<String>, values: &Vec<String>) -> (result:
    Result<(), PipelineError>)
    ensures
        result is Ok <==> quarters.len() == values.len(),
        result matches Err(error) ==> error@ == (Fault::Format { description: UNEVEN_COUNTS@ }),
{
    if quarters.len() != values.len() {
        Err(PipelineError::format(UNEVEN_COUNTS))
    } else {
        Ok(())
    }
}

/// The place of the first reading of the given period.
fn find_reading(readings: &Vec<Reading>, quarter: &str) -> (place: Option<usize>)
    ensures
        match place {
            Some(p) => place_of(readings.deep_view(), quarter@, readings.len() as nat) == Some(
                p as int,
            ) && p < readings.len(),
            None => place_of(readings.deep_view(), quarter@, readings.len() as nat) is None,
        },
{
    let mut i: usize = 0;
    while i < readings.len()
        invariant
            i <= readings.len(),
            place_of(readings.deep_view(), quarter@, i as nat) is None,
        decreases readings.len() - i,
    {
        assert(readings.deep_view()[i as int] == readings[i as int]@);
        if same_text(readings[i].quarter.as_str(), quarter) {
            proof {
                place_of_stays(readings.deep_view(), quarter@, (i + 1) as nat, readings.len() as nat);
            }
            return Some(i);
        }
        i = i + 1;
    }
    None
}

/// A reading found among the first `n` is the one found in any longer run.
pub proof fn place_of_stays(readings: Seq<ReadingView>, quarter: Seq<char>, n: nat, m: nat)
    requires
        n <= m,
        place_of(readings, quarter, n) is Some,
    ensures
        place_of(readings, quarter, m) == place_of(readings, quarter, n),
    decreases m,
{
    if n < m {
        place_of_stays(readings, quarter, n, (m - 1) as nat);
    }
}

/// The periods paired with their values, one reading for each period.
fn merge(quarters: &Vec<String>, values: &Vec<String>) -> (readings: Vec<Reading>)
    requires
        quarters.len() == values.len(),
    ensures
        readings.deep_view() == merged(
            quarters.deep_view(),
            values.deep_view(),
            quarters.len() as nat,
        ),
{
    let mut readings: Vec<Reading> = Vec::new();
    assert(readings.deep_view() =~= Seq::<ReadingView>::empty());
    let mut i: usize = 0;
    while i < quarters.len()
        invariant
            i <= quarters.len(),
            quarters.len() == values.len(),
            readings.deep_view() == merged(quarters.deep_view(), values.deep_view(), i as nat),
        decreases quarters.len() - i,
    {
        let ghost before = readings.deep_view();
        assert(quarters.deep_view()[i as int] == quarters[i as int]@);
        assert(values.deep_view()[i as int] == values[i as int]@);
        let reading = Reading { quarter: quarters[i].clone(), value: values[i].clone() };
        match find_reading(&readings, quarters[i].as_str()) {
            Some(place) => {
                readings.set(place, reading);
                assert(readings.deep_view() =~= before.update(place as int, reading@));
            },
            None => {
                readings.push(reading);
                assert(readings.deep_view() =~= before.push(reading@));
            },
        }
        i = i + 1;
    }
    readings
}

/// Reads the observations of a document: the attribute `value` of each
/// empty element whose name ends with `generic:ObsDimension` is a period, and
/// that of each whose name ends with `generic:ObsValue` is a value, which
/// must be a number. The periods are paired with the values in order. A
/// document that cannot be read to its end gives no observations.
pub fn parse_xml(xml: &str) -> (result: Result<Vec<Reading>, PipelineError>)
    ensures
        readings_outcome(result) == observations(xml@),
{
    let mut reader = open_reader(xml);
    let mut quarters: Vec<String> = Vec::new();
    let mut values: Vec<String> = Vec::new();
    assert(quarters.deep_view() =~= Seq::<Seq<char>>::empty());
    assert(values.deep_view() =~= Seq::<Seq<char>>::empty());
    let ghost start = Readings { quarters: Seq::empty(), values: Seq::empty() };
    loop
        invariant_except_break
            start == (Readings { quarters: Seq::empty(), values: Seq::empty() }),
            scanned(document_events(xml@), start) == scanned(
                pending_events(reader),
                Readings { quarters: quarters.deep_view(), values: values.deep_view() },
            ),
        ensures
            scanned(document_events(xml@), start) == Ok::<Readings, Fault>(
                Readings { quarters: quarters.deep_view(), values: values.deep_view() },
            ),
        decreases pending_events(reader).len(),
    {
        let ghost pending = pending_events(reader);
        let ghost so_far = Readings { quarters: quarters.deep_view(), values: values.deep_view() };
        let event = next_event(&mut reader);
        assert(event@ == pending[0]);
        match event {
            ScanEvent::Eof => {
                break ;
            },
            ScanEvent::Failure => {
                return Err(PipelineError::format(UNREADABLE));
            },
            ScanEvent::Other => {},
            ScanEvent::Empty { name, attributes } => {
                let ghost view = attributes.deep_view();
                if has_suffix(name.as_slice(), DIMENSION.as_bytes()) {
                    match read_values(attributes, false) {
                        Ok(mut texts) => {
                            let ghost q0 = quarters.deep_view();
                            let ghost q1 = texts.deep_view();
                            let ghost a0 = quarters@;
                            let ghost a1 = texts@;
                            quarters.append(&mut texts);
                            assert(quarters@ =~= a0 + a1);
                            assert(quarters.deep_view() =~= q0 + q1);
                        },
                        Err(error) => {
                            return Err(error);
                        },
                    }
                } else if has_suffix(name.as_slice(), VALUE.as_bytes()) {
                    match read_values(attributes, true) {
                        Ok(mut texts) => {
                            let ghost v0 = values.deep_view();
                            let ghost v1 = texts.deep_view();
                            let ghost a0 = values@;
                            let ghost a1 = texts@;
                            values.append(&mut texts);
                            assert(values@ =~= a0 + a1);
                            assert(values.deep_view() =~= v0 + v1);
                        },
                        Err(error) => {
                            return Err(error);
                        },
                    }
                }
            },
        }
    }
    match validate_quarters_and_values(&quarters, &values) {
        Ok(()) => Ok(merge(&quarters, &values)),
        Err(error) => Err(error),
    }
}

/// Where the series are asked for, unless the caller names another place.
pub const DEFAULT_BASE_URL: &'static str = "https://data-api.ecb.europa.eu/service/data/";

/// The media type that is asked for.
pub const ACCEPT: &'static str = "application/vnd.sdmx.genericdata+xml;version=2.1";

/// The name of the column of values.
pub const VALUE_COLUMN: &'static str = "value";

/// The address of a series: the base, which is the default one where none
/// is given, and the series behind it.
pub open spec fn address(endpoint: Seq<char>, input_base_url: Option<Seq<char>>) -> Seq<char> {
    match input_base_url {
        Some(base) => base + endpoint,
        None => DEFAULT_BASE_URL@ + endpoint,
    }
}

/// The address of a series.
pub fn request_url(endpoint: &str, input_base_url: Option<&str>) -> (url: String)
    ensures
        url@ == address(
            endpoint@,
            match input_base_url {
                Some(base) => Some(base@),
                None => None,
            },
        ),
{
    let base_url = match input_base_url {
        Some(base) => base,
        None => DEFAULT_BASE_URL,
    };
    String::from_str(base_url).concat(endpoint)
}

/// The table of observations: the text column `quarter` and the column of
/// amounts `value`, with one row for each reading in order.
pub open spec fn table_of(readings: Seq<ReadingView>) -> Seq<ColumnView> {
    seq![
        ColumnView {
            name: QUARTER@,
            cells: CellsView::Text(Seq::new(readings.len(), |i: int| Some(readings[i].quarter))),
        },
        ColumnView {
            name: VALUE_COLUMN@,
            cells: CellsView::Number(
                Seq::new(readings.len(), |i: int| Some(Formula::Reading(readings[i].value))),
            ),
        },
    ]
}

/// The table of observations.
pub fn readings_table(readings: &Vec<Reading>) -> (table: Table)
    ensures
        table@ == table_of(readings.deep_view()),
{
    let mut quarters: Vec<Option<String>> = Vec::new();
    let mut values: Vec<Option<Amount>> = Vec::new();
    let mut i: usize = 0;
    while i < readings.len()
        invariant
            i <= readings.len(),
            quarters.len() == i,
            values.len() == i,
            forall|k: int| 0 <= k < i ==> quarters[k].deep_view() == Some(readings[k]@.quarter),
            forall|k: int|
                0 <= k < i ==> values[k].deep_view() == Some(Formula::Reading(readings[k]@.value)),
        decreases readings.len() - i,
    {
        quarters.push(Some(readings[i].quarter.clone()));
        values.push(Some(Amount::Reading(readings[i].value.clone())));
        i = i + 1;
    }
    let mut columns: Vec<Column> = Vec::new();
    columns.push(Column::text(QUARTER, quarters));
    columns.push(Column::number(VALUE_COLUMN, values));
    proof {
        reveal_strlit("quarter");
        reveal_strlit("value");
        assert(QUARTER@ == "quarter"@);
        assert(VALUE_COLUMN@ == "value"@);
        let all = table_of(readings.deep_view());
        assert(columns.deep_view()[0].cells->Text_0 =~= all[0].cells->Text_0);
        assert(columns.deep_view()[1].cells->Number_0 =~= all[1].cells->Number_0);
        assert(columns.deep_view() =~= all);
        assert(all[0].name.len() == 7 && all[1].name.len() == 5);
        assert(all[0].cells.len() == all[1].cells.len());
    }
    Table::assemble(columns)
}

/// What `table_from_response` returns: a failure of the network with the
/// status and the address where the status is no success, else the table of
/// the observations of the body, or the failure of reading them.
pub open spec fn response_table(status: u16, url: Seq<char>, body: Seq<char>) -> Result<
    Seq<ColumnView>,
    Fault,
> {
    if !is_success(status) {
        Err(Fault::Network { status, url })
    } else {
        match observations(body) {
            Ok(readings) => Ok(table_of(readings)),
            Err(fault) => Err(fault),
        }
    }
}

/// The table of a reply of the source, which has the status and the body
/// given and came from the address `url`.
pub fn table_from_response(status: u16, url: &str, body: &str) -> (result: Result<
    Table,
    PipelineError,
>)
    ensures
        outcome(result) == response_table(status, url@, body@),
{
    match check_status(status, url) {
        Ok(()) => {},
        Err(error) => {
            return Err(error);
        },
    }
    match parse_xml(body) {
        Ok(readings) => Ok(readings_table(&readings)),
        Err(error) => Err(error),
    }
}

} // verus!
