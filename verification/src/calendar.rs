//! The calendar side: what a to-do item of a remote calendar has to say, which
//! items are left out, and how the others become tasks.

use crate::date::{digit_value, is_digit, parse_ical_date, parsed, Moment, Offset};
use vstd::prelude::*;
use vstd::string::*;

verus! {

/// The properties of a to-do item as they are reasoned about: pairs of key
/// and value, in the order in which the item lists them.
pub type PropertyList = Seq<(Seq<char>, Seq<char>)>;

/// The properties of a to-do item as they come from a calendar.
pub type RawItem = Vec<(String, String)>;

/// What a refresh fetched: for every address the sub-calendars that it
/// listed, and for every sub-calendar the items that it gave. `None` stands
/// for a request that failed.
pub type Fetched = Vec<Option<Vec<Option<Vec<RawItem>>>>>;

/// `Fetched` as it is reasoned about.
pub type FetchedView = Seq<Option<Seq<Option<Seq<PropertyList>>>>>;

/// The lower-case form of a text, as `str::to_lowercase` gives it.
pub uninterp spec fn lowercase(text: Seq<char>) -> Seq<char>;

/// Calls `str::to_lowercase` of the standard library.
///
/// Trusted, not proved: the result is the text that `lowercase` names.
#[verifier::external_body]
fn to_lowercase(text: &str) -> (lowered: String)
    ensures
        lowered@ == lowercase(text@),
{
    text.to_lowercase()
}

/// The same properties with every key in lower case.
pub open spec fn lowered(raw: PropertyList) -> PropertyList {
    Seq::new(raw.len(), |i: int| (lowercase(raw[i].0), raw[i].1))
}

/// The value that `key` has in `props`. Where a key stands more than once,
/// the last one counts.
pub open spec fn value_of(props: PropertyList, key: Seq<char>) -> Option<Seq<char>>
    decreases props.len(),
{
    if props.len() == 0 {
        None
    } else if props.last().0 == key {
        Some(props.last().1)
    } else {
        value_of(props.drop_last(), key)
    }
}

/// A key has the value of the last pair that bears it, and none where no
/// pair bears it.
pub proof fn law_last_value_counts(props: PropertyList, key: Seq<char>)
    ensures
        match value_of(props, key) {
            Some(value) => exists|i: int|
                0 <= i < props.len() && (#[trigger] props[i]) == (key, value) && forall|j: int|
                    i < j < props.len() ==> (#[trigger] props[j]).0 != key,
            None => forall|i: int| 0 <= i < props.len() ==> (#[trigger] props[i]).0 != key,
        },
    decreases props.len(),
{
    if props.len() > 0 {
        let before = props.drop_last();
        let last = props.len() - 1;
        if props.last().0 == key {
            assert(props[last] == (key, props.last().1));
        } else {
            law_last_value_counts(before, key);
            match value_of(before, key) {
                Some(value) => {
                    let i = choose|i: int|
                        0 <= i < before.len() && (#[trigger] before[i]) == (key, value)
                            && forall|j: int|
                            i < j < before.len() ==> (#[trigger] before[j]).0 != key;
                    assert(props[i] == before[i]);
                    assert forall|j: int| i < j < props.len() implies (#[trigger] props[j]).0
                        != key by {
                        if j < last {
                            assert(props[j] == before[j]);
                        }
                    }
                },
                None => {
                    assert forall|i: int| 0 <= i < props.len() implies (#[trigger] props[i]).0
                        != key by {
                        if i < last {
                            assert(props[i] == before[i]);
                        }
                    }
                },
            }
        }
    }
}

/// Puts every key of `raw` in lower case and leaves the values and the
/// order as they are.
pub fn lower_keys(raw: &RawItem) -> (props: RawItem)
    ensures
        props.deep_view() == lowered(raw.deep_view()),
{
    let mut props: RawItem = Vec::new();
    let mut i: usize = 0;
    while i < raw.len()
        invariant
            i <= raw.len(),
            props.len() == i,
            forall|j: int|
                0 <= j < i ==> (#[trigger] props@[j]).0@ == lowercase(raw@[j].0@) && props@[j].1@
                    == raw@[j].1@,
        decreases raw.len() - i,
    {
        let key = to_lowercase(raw[i].0.as_str());
        let value = raw[i].1.clone();
        props.push((key, value));
        i += 1;
    }
    assert(props.deep_view() =~= lowered(raw.deep_view()));
    props
}

/// Looks up the value that `key` has in `props`.
pub fn get<'a>(props: &'a RawItem, key: &str) -> (value: Option<&'a String>)
    ensures
        value.deep_view() == value_of(props.deep_view(), key@),
{
    let wanted = String::from_str(key);
    let ghost all = props.deep_view();
    let mut i: usize = props.len();
    assert(all.take(i as int) =~= all);
    while i > 0
        invariant
            i <= props.len(),
            all == props.deep_view(),
            wanted@ == key@,
            value_of(all, key@) == value_of(all.take(i as int), key@),
        decreases i,
    {
        proof {
            let head = all.take(i as int);
            assert(head.last() == all[i - 1]);
            assert(head.drop_last() =~= all.take(i - 1));
        }
        if props[i - 1].0 == wanted {
            return Some(&props[i - 1].1);
        }
        i -= 1;
    }
    None
}

/// The number that a text of decimal digits writes; leading zeros count for
/// nothing.
pub open spec fn decimal(digits: Seq<char>) -> int
    decreases digits.len(),
{
    if digits.len() == 0 {
        0
    } else {
        decimal(digits.drop_last()) * 10 + digit_value(digits.last())
    }
}

pub open spec fn all_digits(text: Seq<char>) -> bool {
    forall|i: int| 0 <= i < text.len() ==> is_digit(#[trigger] text[i])
}

/// Whether `text` opens with a sign that has something behind it.
pub open spec fn has_sign(text: Seq<char>) -> bool {
    text.len() > 1 && (text[0] == '+' || text[0] == '-')
}

/// The integer that `text` writes: one or more decimal digits, with `+` or
/// `-` before them if wanted, and nothing else.
pub open spec fn signed_decimal(text: Seq<char>) -> Option<int> {
    let digits = if has_sign(text) {
        text.skip(1)
    } else {
        text
    };
    if digits.len() == 0 || !all_digits(digits) {
        None
    } else if has_sign(text) && text[0] == '-' {
        Some(-decimal(digits))
    } else {
        Some(decimal(digits))
    }
}

/// The priority that `text` writes, if it writes an integer that an `i8`
/// holds.
pub open spec fn priority_of(text: Seq<char>) -> Option<i8> {
    match signed_decimal(text) {
        Some(v) => if -128 <= v <= 127 {
            Some(v as i8)
        } else {
            None
        },
        None => None,
    }
}

/// A number does not get smaller when more digits are written behind it.
proof fn lemma_decimal_grows(digits: Seq<char>, k: int)
    requires
        all_digits(digits),
        0 <= k <= digits.len(),
    ensures
        0 <= decimal(digits.take(k)) <= decimal(digits),
    decreases digits.len(),
{
    if k == digits.len() {
        assert(digits.take(k) =~= digits);
        if digits.len() > 0 {
            lemma_decimal_grows(digits.drop_last(), k - 1);
        }
    } else {
        assert(digits.drop_last().take(k) =~= digits.take(k));
        lemma_decimal_grows(digits.drop_last(), k);
    }
}

/// Reads a priority: an integer in decimal digits, with or without a
/// sign, that an `i8` holds. Anything else is `None`.
pub fn parse_priority(text: &str) -> (priority: Option<i8>)
    ensures
        priority == priority_of(text@),
{
    broadcast use is_ascii_spec_bytes;

    if !text.is_ascii() {
        proof {
            let at = choose|i: int|
                0 <= i < text@.len() && !('\0' <= #[trigger] text@[i] <= '\u{7f}');
            assert(!is_digit(text@[at]));
            if has_sign(text@) {
                assert(text@.skip(1)[at - 1] == text@[at]);
            }
        }
        return None;
    }
    let bytes = text.as_bytes();
    let len = bytes.len();
    if len == 0 {
        return None;
    }
    let first = bytes[0];
    let signed = len > 1 && (first == 43 || first == 45);
    let negative = signed && first == 45;
    let start: usize = if signed {
        1
    } else {
        0
    };
    let ghost digits = text@.skip(start as int);
    assert(!signed ==> digits =~= text@);
    let mut value: i16 = 0;
    let mut i: usize = start;
    while i < len
        invariant
            start <= i <= len,
            len == text@.len(),
            text.is_ascii(),
            bytes@ == text.spec_bytes(),
            digits == text@.skip(start as int),
            digits == (if has_sign(text@) {
                text@.skip(1)
            } else {
                text@
            }),
            all_digits(digits.take(i - start)),
            value == decimal(digits.take(i - start)),
            0 <= value <= 128,
        decreases len - i,
    {
        let byte = bytes[i];
        let ghost seen = digits.take(i - start + 1);
        proof {
            assert(seen.drop_last() =~= digits.take(i - start));
            assert(seen.last() == text@[i as int]);
        }
        if byte < 48 || byte > 57 {
            assert(!is_digit(digits[i - start]));
            return None;
        }
        let next: i16 = value * 10 + (byte - 48) as i16;
        proof {
            assert(all_digits(seen)) by {
                assert forall|j: int| 0 <= j < seen.len() implies is_digit(#[trigger] seen[j]) by {
                    if j < i - start {
                        assert(seen[j] == digits.take(i - start)[j]);
                    }
                }
            }
            assert(next == decimal(seen));
        }
        if next > 128 {
            proof {
                if all_digits(digits) {
                    lemma_decimal_grows(digits, i - start + 1);
                }
            }
            return None;
        }
        value = next;
        i += 1;
    }
    assert(digits.take(len - start) =~= digits);
    if negative {
        Some((-value) as i8)
    } else if value <= 127 {
        Some(value as i8)
    } else {
        None
    }
}

/// The properties that keep an item off the task list: a status of
/// `COMPLETED`, a `completed` property whatever it says, a
/// `percent-complete` of `100`, or a recurrence rule. Where an item bears a
/// key more than once, the last value is the one that is looked at.
pub open spec fn excluded(props: PropertyList) -> bool {
    ||| value_of(props, "status"@) == Some("COMPLETED"@)
    ||| value_of(props, "completed"@) is Some
    ||| value_of(props, "percent-complete"@) == Some("100"@)
    ||| value_of(props, "rrule"@) is Some
}

fn says(value: Option<&String>, text: &str) -> (same: bool)
    ensures
        same == (value.deep_view() == Some(text@)),
{
    match value {
        Some(found) => *found == String::from_str(text),
        None => false,
    }
}

/// Whether an item with these properties, keys in lower case, is kept off
/// the task list.
pub fn is_excluded(props: &RawItem) -> (out: bool)
    ensures
        out == excluded(props.deep_view()),
{
    says(get(props, "status"), "COMPLETED") || get(props, "completed").is_some() || says(
        get(props, "percent-complete"),
        "100",
    ) || get(props, "rrule").is_some()
}

/// An outstanding to-do item.
#[derive(Debug)]
pub struct Event {
    /// The item's identifier. Two items may share one.
    pub uid: String,
    /// When the calendar recorded the item.
    pub date_stamp: Moment,
    /// The text shown to the user.
    pub summary: String,
    /// The item is not put forward before this instant.
    pub starts: Option<Moment>,
    /// The item weighs more once this instant has passed.
    pub due: Option<Moment>,
    /// 1 is most urgent; 11 stands for an item that names no priority.
    pub priority: i8,
}

/// An `Event` with its texts as sequences of characters.
pub struct EventView {
    pub uid: Seq<char>,
    pub date_stamp: Moment,
    pub summary: Seq<char>,
    pub starts: Option<Moment>,
    pub due: Option<Moment>,
    pub priority: i8,
}

impl View for Event {
    type V = EventView;

    open spec fn view(&self) -> EventView {
        EventView {
            uid: self.uid@,
            date_stamp: self.date_stamp,
            summary: self.summary@,
            starts: self.starts,
            due: self.due,
            priority: self.priority,
        }
    }
}

impl DeepView for Event {
    type V = EventView;

    open spec fn deep_view(&self) -> EventView {
        self@
    }
}

impl Clone for Event {
    fn clone(&self) -> (copy: Event)
        ensures
            copy@ == self@,
    {
        Event {
            uid: self.uid.clone(),
            date_stamp: self.date_stamp,
            summary: self.summary.clone(),
            starts: self.starts,
            due: self.due,
            priority: self.priority,
        }
    }
}

/// The stamp of an item that names none: the Unix epoch, shown at the
/// local offset.
pub open spec fn epoch() -> Moment {
    Moment { timestamp: 0, offset: Offset::Local }
}

/// The text of a property, or `???` where the item has none.
pub open spec fn text_or_unknown(value: Option<Seq<char>>) -> Seq<char> {
    match value {
        Some(text) => text,
        None => "???"@,
    }
}

/// The instant that a property names, if the item has the property and its
/// value is a date of the grammar.
pub open spec fn moment_in(value: Option<Seq<char>>) -> Option<Moment> {
    match value {
        Some(text) => match parsed(text) {
            Ok(moment) => Some(moment),
            Err(_) => None,
        },
        None => None,
    }
}

/// The priority that a property names; 11 where the item has none or its
/// value is no priority.
pub open spec fn priority_in(value: Option<Seq<char>>) -> i8 {
    match value {
        Some(text) => match priority_of(text) {
            Some(priority) => priority,
            None => 11,
        },
        None => 11,
    }
}

/// The task that an item with these properties, keys in lower case, stands
/// for.
pub open spec fn event_of(props: PropertyList) -> EventView {
    EventView {
        uid: text_or_unknown(value_of(props, "uid"@)),
        date_stamp: match moment_in(value_of(props, "dtstamp"@)) {
            Some(moment) => moment,
            None => epoch(),
        },
        summary: text_or_unknown(value_of(props, "summary"@)),
        starts: moment_in(value_of(props, "dtstart"@)),
        due: moment_in(value_of(props, "due"@)),
        priority: priority_in(value_of(props, "priority"@)),
    }
}

fn text_of(value: Option<&String>) -> (text: String)
    ensures
        text@ == text_or_unknown(value.deep_view()),
{
    match value {
        Some(found) => found.clone(),
        None => String::from_str("???"),
    }
}

fn moment_of(value: Option<&String>) -> (moment: Option<Moment>)
    ensures
        moment == moment_in(value.deep_view()),
{
    match value {
        Some(found) => match parse_ical_date(found.as_str()) {
            Ok(moment) => Some(moment),
            Err(_) => None,
        },
        None => None,
    }
}

impl Event {
    /// Builds the task that an item with these properties, keys in lower
    /// case, stands for. A property that is missing, or that cannot be
    /// read, gets its default.
    pub fn from_properties(props: &RawItem) -> (event: Event)
        ensures
            event@ == event_of(props.deep_view()),
    {
        let date_stamp = match moment_of(get(props, "dtstamp")) {
            Some(moment) => moment,
            None => Moment { timestamp: 0, offset: Offset::Local },
        };
        let priority = match get(props, "priority") {
            Some(found) => match parse_priority(found.as_str()) {
                Some(priority) => priority,
                None => 11,
            },
            None => 11,
        };
        Event {
            uid: text_of(get(props, "uid")),
            date_stamp,
            summary: text_of(get(props, "summary")),
            starts: moment_of(get(props, "dtstart")),
            due: moment_of(get(props, "due")),
            priority,
        }
    }
}

/// The task that a raw item stands for, or `None` where the item is kept
/// off the list. The keys are put in lower case first.
pub open spec fn task_of(raw: PropertyList) -> Option<EventView> {
    let props = lowered(raw);
    if excluded(props) {
        None
    } else {
        Some(event_of(props))
    }
}

/// The tasks that a list of raw items stands for, in the order of the
/// items.
pub open spec fn tasks_of_items(items: Seq<PropertyList>) -> Seq<EventView>
    decreases items.len(),
{
    if items.len() == 0 {
        Seq::empty()
    } else {
        let before = tasks_of_items(items.drop_last());
        match task_of(items.last()) {
            Some(task) => before.push(task),
            None => before,
        }
    }
}

/// The tasks of the sub-calendars of one address. `None` stands for a
/// sub-calendar whose items could not be fetched: it adds nothing.
pub open spec fn tasks_of_calendars(calendars: Seq<Option<Seq<PropertyList>>>) -> Seq<EventView>
    decreases calendars.len(),
{
    if calendars.len() == 0 {
        Seq::empty()
    } else {
        tasks_of_calendars(calendars.drop_last()) + match calendars.last() {
            Some(items) => tasks_of_items(items),
            None => Seq::empty(),
        }
    }
}

/// The tasks of all addresses. `None` stands for an address whose
/// sub-calendars could not be listed: it adds nothing.
pub open spec fn tasks_of_addresses(addresses: FetchedView) -> Seq<EventView>
    decreases addresses.len(),
{
    if addresses.len() == 0 {
        Seq::empty()
    } else {
        tasks_of_addresses(addresses.drop_last()) + match addresses.last() {
            Some(calendars) => tasks_of_calendars(calendars),
            None => Seq::empty(),
        }
    }
}

impl Event {
    /// Builds the task that a raw item stands for, unless the item is one
    /// of those kept off the list.
    pub fn from_raw(raw: &RawItem) -> (task: Option<Event>)
        ensures
            task.deep_view() == task_of(raw.deep_view()),
    {
        let props = lower_keys(raw);
        if is_excluded(&props) {
            None
        } else {
            Some(Event::from_properties(&props))
        }
    }
}

fn add_items(items: &Vec<RawItem>, tasks: &mut Vec<Event>)
    ensures
        final(tasks).deep_view() == old(tasks).deep_view() + tasks_of_items(items.deep_view()),
{
    let ghost start = tasks.deep_view();
    let ghost all = items.deep_view();
    let mut i: usize = 0;
    assert(all.take(0) =~= Seq::empty());
    assert(start + tasks_of_items(all.take(0)) =~= start);
    while i < items.len()
        invariant
            i <= items.len(),
            all == items.deep_view(),
            tasks.deep_view() == start + tasks_of_items(all.take(i as int)),
        decreases items.len() - i,
    {
        let ghost before = tasks.deep_view();
        proof {
            let head = all.take(i + 1);
            assert(head.drop_last() =~= all.take(i as int));
            assert(head.last() == items@[i as int].deep_view());
        }
        match Event::from_raw(&items[i]) {
            Some(task) => {
                tasks.push(task);
                assert(tasks.deep_view() =~= before.push(task@));
                assert(before.push(task@) =~= start + tasks_of_items(all.take(i + 1)));
            },
            None => {},
        }
        i += 1;
    }
    assert(all.take(i as int) =~= all);
}

fn add_calendars(calendars: &Vec<Option<Vec<RawItem>>>, tasks: &mut Vec<Event>)
    ensures
        final(tasks).deep_view() == old(tasks).deep_view() + tasks_of_calendars(
            calendars.deep_view(),
        ),
{
    let ghost start = tasks.deep_view();
    let ghost all = calendars.deep_view();
    let mut i: usize = 0;
    assert(all.take(0) =~= Seq::empty());
    assert(start + tasks_of_calendars(all.take(0)) =~= start);
    while i < calendars.len()
        invariant
            i <= calendars.len(),
            all == calendars.deep_view(),
            tasks.deep_view() == start + tasks_of_calendars(all.take(i as int)),
        decreases calendars.len() - i,
    {
        let ghost before = tasks.deep_view();
        proof {
            let head = all.take(i + 1);
            assert(head.drop_last() =~= all.take(i as int));
            assert(head.last() == calendars@[i as int].deep_view());
        }
        match &calendars[i] {
            Some(items) => {
                add_items(items, tasks);
                assert(tasks.deep_view() =~= start + tasks_of_calendars(all.take(i + 1)));
            },
            None => {
                assert(before =~= start + tasks_of_calendars(all.take(i + 1)));
            },
        }
        i += 1;
    }
    assert(all.take(i as int) =~= all);
}

/// Makes the task list out of what was fetched: for every address the
/// sub-calendars that it listed, and for every sub-calendar the raw items
/// that it gave. A request that failed is `None` and adds nothing; the rest
/// comes in the order in which it was fetched, without the items that are
/// kept off the list.
pub fn gather(addresses: &Fetched) -> (tasks: Vec<Event>)
    ensures
        tasks.deep_view() == tasks_of_addresses(addresses.deep_view()),
{
    let mut tasks: Vec<Event> = Vec::new();
    let ghost all = addresses.deep_view();
    let mut i: usize = 0;
    assert(all.take(0) =~= Seq::empty());
    assert(tasks.deep_view() =~= tasks_of_addresses(all.take(0)));
    while i < addresses.len()
        invariant
            i <= addresses.len(),
            all == addresses.deep_view(),
            tasks.deep_view() == tasks_of_addresses(all.take(i as int)),
        decreases addresses.len() - i,
    {
        let ghost before = tasks.deep_view();
        proof {
            let head = all.take(i + 1);
            assert(head.drop_last() =~= all.take(i as int));
            assert(head.last() == addresses@[i as int].deep_view());
        }
        match &addresses[i] {
            Some(calendars) => {
                add_calendars(calendars, &mut tasks);
            },
            None => {
                assert(before =~= tasks_of_addresses(all.take(i + 1)));
            },
        }
        i += 1;
    }
    assert(all.take(i as int) =~= all);
    tasks
}

/// An item is kept off the list as soon as one of the four grounds holds,
/// whatever else it says.
pub proof fn law_excluded_item_gives_no_task(raw: PropertyList)
    requires
        ({
            let props = lowered(raw);
            ||| value_of(props, "status"@) == Some("COMPLETED"@)
            ||| value_of(props, "completed"@) is Some
            ||| value_of(props, "percent-complete"@) == Some("100"@)
            ||| value_of(props, "rrule"@) is Some
        }),
    ensures
        task_of(raw) is None,
        tasks_of_items(seq![raw]) == Seq::<EventView>::empty(),
{
    assert(seq![raw].drop_last() =~= Seq::<PropertyList>::empty());
    assert(seq![raw].last() == raw);
    assert(tasks_of_items(Seq::<PropertyList>::empty()) =~= Seq::<EventView>::empty());
}

/// Every task on the list made from `items` is the task of one of them
/// that is not kept off the list.
pub proof fn law_listed_tasks_come_from_kept_items(items: Seq<PropertyList>, k: int)
    requires
        0 <= k < tasks_of_items(items).len(),
    ensures
        exists|i: int|
            0 <= i < items.len() && task_of(#[trigger] items[i]) == Some(tasks_of_items(items)[k]),
    decreases items.len(),
{
    let before = tasks_of_items(items.drop_last());
    if k < before.len() {
        law_listed_tasks_come_from_kept_items(items.drop_last(), k);
        let i = choose|i: int|
            0 <= i < items.drop_last().len() && task_of(#[trigger] items.drop_last()[i]) == Some(
                before[k],
            );
        assert(items[i] == items.drop_last()[i]);
    } else {
        assert(task_of(items[items.len() - 1]) == Some(tasks_of_items(items)[k]));
    }
}

/// The list made from `items` has one task for each item that is not kept
/// off the list, and none for the others.
pub proof fn law_task_count(items: Seq<PropertyList>)
    ensures
        tasks_of_items(items).len() == items.filter(|raw: PropertyList| task_of(raw) is Some).len(),
        tasks_of_items(items).len() <= items.len(),
    decreases items.len(),
{
    let kept = |raw: PropertyList| task_of(raw) is Some;
    if items.len() == 0 {
        assert(items.filter(kept).len() == 0) by {
            reveal(Seq::filter);
        }
    } else {
        law_task_count(items.drop_last());
        assert(items.filter(kept) == if kept(items.last()) {
            items.drop_last().filter(kept).push(items.last())
        } else {
            items.drop_last().filter(kept)
        }) by {
            reveal(Seq::filter);
        }
    }
}

/// Item `i` of sub-calendar `c`, where the sub-calendar answered and has
/// such an item.
pub open spec fn item_in(calendars: Seq<Option<Seq<PropertyList>>>, c: int, i: int) -> Option<
    PropertyList,
> {
    if 0 <= c < calendars.len() {
        match calendars[c] {
            Some(items) => if 0 <= i < items.len() {
                Some(items[i])
            } else {
                None
            },
            None => None,
        }
    } else {
        None
    }
}

/// Item `i` of sub-calendar `c` of address `a`, where address and
/// sub-calendar answered and there is such an item.
pub open spec fn item_at(
    addresses: FetchedView,
    a: int,
    c: int,
    i: int,
) -> Option<PropertyList> {
    if 0 <= a < addresses.len() {
        match addresses[a] {
            Some(calendars) => item_in(calendars, c, i),
            None => None,
        }
    } else {
        None
    }
}

proof fn lemma_calendar_tasks_come_from_kept_items(
    calendars: Seq<Option<Seq<PropertyList>>>,
    k: int,
)
    requires
        0 <= k < tasks_of_calendars(calendars).len(),
    ensures
        exists|c: int, i: int|
            (#[trigger] item_in(calendars, c, i)) matches Some(raw) && task_of(raw) == Some(
                tasks_of_calendars(calendars)[k],
            ),
    decreases calendars.len(),
{
    let before = calendars.drop_last();
    let head = tasks_of_calendars(before);
    if k < head.len() {
        lemma_calendar_tasks_come_from_kept_items(before, k);
        let (c, i) = choose|c: int, i: int|
            (#[trigger] item_in(before, c, i)) matches Some(raw) && task_of(raw) == Some(head[k]);
        assert(item_in(calendars, c, i) == item_in(before, c, i));
    } else {
        let items = calendars.last()->0;
        law_listed_tasks_come_from_kept_items(items, k - head.len());
        let i = choose|i: int|
            0 <= i < items.len() && task_of(#[trigger] items[i]) == Some(
                tasks_of_items(items)[k - head.len()],
            );
        assert(item_in(calendars, calendars.len() - 1, i) == Some(items[i]));
    }
}

/// Every task that is gathered is the task of an item that a sub-calendar
/// gave and that is not kept off the list. So no item with one of the four
/// grounds ever shows on the task list, wherever it was fetched from.
pub proof fn law_gathered_tasks_come_from_kept_items(
    addresses: FetchedView,
    k: int,
)
    requires
        0 <= k < tasks_of_addresses(addresses).len(),
    ensures
        exists|a: int, c: int, i: int|
            (#[trigger] item_at(addresses, a, c, i)) matches Some(raw) && !excluded(lowered(raw))
                && task_of(raw) == Some(tasks_of_addresses(addresses)[k]),
    decreases addresses.len(),
{
    let before = addresses.drop_last();
    let head = tasks_of_addresses(before);
    if k < head.len() {
        law_gathered_tasks_come_from_kept_items(before, k);
        let (a, c, i) = choose|a: int, c: int, i: int|
            (#[trigger] item_at(before, a, c, i)) matches Some(raw) && !excluded(lowered(raw))
                && task_of(raw) == Some(head[k]);
        assert(item_at(addresses, a, c, i) == item_at(before, a, c, i));
    } else {
        let calendars = addresses.last()->0;
        lemma_calendar_tasks_come_from_kept_items(calendars, k - head.len());
        let (c, i) = choose|c: int, i: int|
            (#[trigger] item_in(calendars, c, i)) matches Some(raw) && task_of(raw) == Some(
                tasks_of_calendars(calendars)[k - head.len()],
            );
        assert(item_at(addresses, addresses.len() - 1, c, i) == item_in(calendars, c, i));
    }
}

/// How the calendars are fetched.
#[derive(Debug)]
pub struct CalendarSettings {
    /// The addresses of the calendar servers.
    pub urls: Vec<String>,
    pub username: Option<String>,
    pub password: Option<String>,
    /// A bearer token, used where user name and password are not both
    /// there.
    pub token: Option<String>,
}

/// What a request shows to the server.
#[derive(Debug)]
pub enum Credentials {
    /// User name and password.
    Basic(String, String),
    /// A bearer token; the empty token stands for no credentials at all.
    Bearer(String),
}

/// `Credentials` with its texts as sequences of characters.
pub enum CredentialsView {
    Basic(Seq<char>, Seq<char>),
    Bearer(Seq<char>),
}

impl View for Credentials {
    type V = CredentialsView;

    open spec fn view(&self) -> CredentialsView {
        match self {
            Credentials::Basic(username, password) => CredentialsView::Basic(username@, password@),
            Credentials::Bearer(token) => CredentialsView::Bearer(token@),
        }
    }
}

/// User name and password where both are configured; else the token where
/// one is configured; else the empty token.
pub open spec fn credentials_of(
    username: Option<Seq<char>>,
    password: Option<Seq<char>>,
    token: Option<Seq<char>>,
) -> CredentialsView {
    match (username, password, token) {
        (Some(name), Some(word), _) => CredentialsView::Basic(name, word),
        (_, _, Some(bearer)) => CredentialsView::Bearer(bearer),
        _ => CredentialsView::Bearer(Seq::empty()),
    }
}

fn copy_texts(texts: &Vec<String>) -> (copy: Vec<String>)
    ensures
        copy.deep_view() == texts.deep_view(),
{
    let mut copy: Vec<String> = Vec::new();
    let mut i: usize = 0;
    while i < texts.len()
        invariant
            i <= texts.len(),
            copy.len() == i,
            forall|j: int| 0 <= j < i ==> (#[trigger] copy@[j])@ == texts@[j]@,
        decreases texts.len() - i,
    {
        copy.push(texts[i].clone());
        i += 1;
    }
    assert(copy.deep_view() =~= texts.deep_view());
    copy
}

impl CalendarSettings {
    /// The credentials that these settings ask for.
    pub fn credentials(&self) -> (chosen: Credentials)
        ensures
            chosen@ == credentials_of(
                self.username.deep_view(),
                self.password.deep_view(),
                self.token.deep_view(),
            ),
    {
        match (&self.username, &self.password, &self.token) {
            (Some(name), Some(word), _) => Credentials::Basic(name.clone(), word.clone()),
            (_, _, Some(bearer)) => Credentials::Bearer(bearer.clone()),
            _ => Credentials::Bearer(String::new()),
        }
    }
}

/// The order to fetch the calendars afresh. It is carried out away from
/// the state that gave it, and answered with a `Refreshed` of the same
/// generation.
#[derive(Debug)]
pub struct Refresh {
    /// Tells this refresh from those ordered before it.
    pub generation: u64,
    /// The addresses to ask, in order.
    pub urls: Vec<String>,
    pub credentials: Credentials,
}

/// What a refresh brought, whole.
#[derive(Debug)]
pub struct Refreshed {
    /// The generation of the order that this answers.
    pub generation: u64,
    pub events: Vec<Event>,
}

impl Refresh {
    /// Makes the answer to this order out of what was fetched for its
    /// addresses.
    pub fn complete(
        &self,
        addresses: &Fetched,
    ) -> (answer: Refreshed)
        ensures
            answer.generation == self.generation,
            answer.events.deep_view() == tasks_of_addresses(addresses.deep_view()),
    {
        Refreshed { generation: self.generation, events: gather(addresses) }
    }
}

/// The state of the synchronisation with the calendars.
#[derive(Debug)]
pub enum Calendar {
    /// The refresh of this generation is under way and has not been
    /// answered.
    Working(u64),
    /// The task list, and the generation of the refresh that brought it.
    Ready(u64, Vec<Event>),
}

/// A `Calendar` with its task list as a sequence.
pub enum CalendarView {
    Working(u64),
    Ready(u64, Seq<EventView>),
}

impl View for Calendar {
    type V = CalendarView;

    open spec fn view(&self) -> CalendarView {
        match self {
            Calendar::Working(generation) => CalendarView::Working(*generation),
            Calendar::Ready(generation, events) => CalendarView::Ready(
                *generation,
                events.deep_view(),
            ),
        }
    }
}

impl CalendarView {
    /// The generation of the last refresh that was ordered.
    pub open spec fn generation(self) -> u64 {
        match self {
            CalendarView::Working(generation) => generation,
            CalendarView::Ready(generation, _) => generation,
        }
    }

    /// The generation that the next refresh gets. It differs from the one
    /// before it.
    pub open spec fn next_generation(self) -> u64 {
        if self.generation() == u64::MAX {
            0
        } else {
            (self.generation() + 1) as u64
        }
    }

    /// The state after a refresh has been ordered: whatever was there, list
    /// or unanswered refresh, gives way to the new refresh.
    pub open spec fn after_reset(self) -> CalendarView {
        CalendarView::Working(self.next_generation())
    }

    /// The state after the answer of generation `generation` has come in
    /// with `events`. Only the answer to the refresh that is under way is
    /// taken; any other is dropped.
    pub open spec fn after_answer(self, generation: u64, events: Seq<EventView>) -> CalendarView {
        if self == CalendarView::Working(generation) {
            CalendarView::Ready(generation, events)
        } else {
            self
        }
    }
}

impl Default for Calendar {
    /// An empty task list, with no refresh under way.
    fn default() -> (calendar: Calendar)
        ensures
            calendar@ == CalendarView::Ready(0, Seq::empty()),
    {
        Calendar::new()
    }
}

impl Calendar {
    /// An empty task list, with no refresh under way.
    pub fn new() -> (calendar: Calendar)
        ensures
            calendar@ == CalendarView::Ready(0, Seq::empty()),
    {
        let events: Vec<Event> = Vec::new();
        assert(events.deep_view() =~= Seq::<EventView>::empty());
        Calendar::Ready(0, events)
    }

    /// Orders a refresh. A refresh that is still under way is left to run,
    /// and its answer will be dropped. The order that is returned is for
    /// the caller to carry out.
    pub fn reset(&mut self, settings: &CalendarSettings) -> (order: Refresh)
        ensures
            final(self)@ == old(self)@.after_reset(),
            order.generation == old(self)@.next_generation(),
            order.urls.deep_view() == settings.urls.deep_view(),
            order.credentials@ == credentials_of(
                settings.username.deep_view(),
                settings.password.deep_view(),
                settings.token.deep_view(),
            ),
    {
        let last = match self {
            Calendar::Working(generation) => *generation,
            Calendar::Ready(generation, _) => *generation,
        };
        let generation = last.wrapping_add(1);
        *self = Calendar::Working(generation);
        Refresh { generation, urls: copy_texts(&settings.urls), credentials: settings.credentials() }
    }

    /// Takes note of an answer, if one has come in. The answer to the
    /// refresh under way makes its list the task list; an answer of another
    /// generation is dropped, and without an answer nothing changes.
    pub fn tick(&mut self, finished: Option<Refreshed>)
        ensures
            final(self)@ == (match finished {
                Some(answer) => old(self)@.after_answer(
                    answer.generation,
                    answer.events.deep_view(),
                ),
                None => old(self)@,
            }),
    {
        if let Some(answer) = finished {
            let awaited = match self {
                Calendar::Working(generation) => *generation == answer.generation,
                Calendar::Ready(_, _) => false,
            };
            if awaited {
                *self = Calendar::Ready(answer.generation, answer.events);
            }
        }
    }

    /// Whether a refresh is under way.
    pub fn refreshing(&self) -> (under_way: bool)
        ensures
            under_way == (self@ is Working),
    {
        matches!(self, Calendar::Working(_))
    }
}

/// Of two refreshes ordered one after the other, only the second is
/// answered: once both answers have come in, in whichever order, the task
/// list is that of the second.
pub proof fn law_second_refresh_wins(
    state: CalendarView,
    first: Seq<EventView>,
    second: Seq<EventView>,
)
    ensures
        ({
            let one = state.after_reset();
            let two = one.after_reset();
            let generation1 = one.generation();
            let generation2 = two.generation();
            &&& generation1 != generation2
            &&& two.after_answer(generation1, first).after_answer(generation2, second)
                == CalendarView::Ready(generation2, second)
            &&& two.after_answer(generation2, second).after_answer(generation1, first)
                == CalendarView::Ready(generation2, second)
            &&& two.after_answer(generation1, first) == two
        }),
{
}

/// An answer changes nothing unless it is the one awaited: a list that
/// stands is never replaced without a new refresh being ordered first.
pub proof fn law_ready_list_stays(state: CalendarView, generation: u64, events: Seq<EventView>)
    requires
        state is Ready,
    ensures
        state.after_answer(generation, events) == state,
{
}

} // verus!
