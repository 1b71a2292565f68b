use vstd::prelude::*;
use vstd::string::StrSliceExecFns;
use vstd::string::StringExecFns;
use crate::passing::{Passing, PassingView, WsMessage, status_view};
use crate::text::{signed_decimal, signed_decimal_spec, zero_padded, zero_padded_spec};

verus! {

/// A time of day as whole seconds since midnight and the millisecond
/// remainder, truncated.
pub struct SecondsOfDay {
    pub seconds: u32,
    pub millis: u32,
}

/// The attributes of one JSON passing, as the reader of the JSON line found
/// them. Non-integer numbers arrive already written out as text.
pub struct JsonPassing {
    pub transponder: String,
    pub hits: Option<i64>,
    pub rssi: Option<i64>,
    pub battery: Option<String>,
    pub temperature: Option<String>,
    pub loop_id: Option<i64>,
    pub channel: Option<i64>,
    pub internal_data: Option<String>,
    pub passing_no: Option<i64>,
    /// A timestamp such as `2024-01-12T09:06:35.944Z`.
    pub utc_time: String,
    /// Seconds since midnight, which take priority over the timestamp's time.
    pub time: Option<SecondsOfDay>,
}

/// The index of the first `c` in `s`, or -1.
pub open spec fn first_index(s: Seq<char>, c: char) -> int
    decreases s.len(),
{
    if s.len() == 0 {
        -1
    } else if s[0] == c {
        0
    } else {
        let k = first_index(s.drop_first(), c);
        if k < 0 { -1 } else { k + 1 }
    }
}

/// `s` without any run of `Z` at its end.
pub open spec fn trim_end_z(s: Seq<char>) -> Seq<char>
    decreases s.len(),
{
    if s.len() > 0 && s.last() == 'Z' {
        trim_end_z(s.drop_last())
    } else {
        s
    }
}

/// The date sentinel that stands for "no date".
pub open spec fn zero_date() -> Seq<char> {
    seq!['0', '0', '0', '1', '-', '0', '1', '-', '0', '1']
}

/// `HH:MM:SS.mmm` for a time of day, each part zero-padded.
pub open spec fn clock_spec(seconds: nat, millis: nat) -> Seq<char> {
    zero_padded_spec(seconds / 3600, 2) + seq![':'] + zero_padded_spec((seconds % 3600) / 60, 2)
        + seq![':'] + zero_padded_spec(seconds % 60, 2) + seq!['.'] + zero_padded_spec(millis, 3)
}

/// The date part of the timestamp: what precedes its first `T`, or empty.
pub open spec fn stamp_date(utc: Seq<char>) -> Seq<char> {
    let k = first_index(utc, 'T');
    if k >= 0 { utc.subrange(0, k) } else { Seq::<char>::empty() }
}

/// The time part of the timestamp: what follows its first `T`, without a
/// trailing `Z`, or empty.
pub open spec fn stamp_time(utc: Seq<char>) -> Seq<char> {
    let k = first_index(utc, 'T');
    if k >= 0 { trim_end_z(utc.subrange(k + 1, utc.len() as int)) } else { Seq::<char>::empty() }
}

/// Whether normalizing `raw` takes today's date: a time in seconds is given
/// and the timestamp carries no usable date.
pub open spec fn needs_today(raw: &JsonPassing) -> bool {
    raw.time is Some && (stamp_date(raw.utc_time@) == zero_date() || stamp_date(raw.utc_time@).len() == 0)
}

pub open spec fn passing_date(raw: &JsonPassing, today: Seq<char>) -> Seq<char> {
    if needs_today(raw) { today } else { stamp_date(raw.utc_time@) }
}

pub open spec fn passing_time(raw: &JsonPassing) -> Seq<char> {
    match raw.time {
        Some(t) => clock_spec(t.seconds as nat, t.millis as nat),
        None => stamp_time(raw.utc_time@),
    }
}

pub open spec fn opt_int_text(v: Option<i64>) -> Seq<char> {
    match v {
        Some(x) => signed_decimal_spec(x as int),
        None => Seq::<char>::empty(),
    }
}

pub open spec fn opt_text(v: Option<String>) -> Seq<char> {
    match v {
        Some(x) => x@,
        None => Seq::<char>::empty(),
    }
}

/// The canonical passing for a JSON passing, given today's local date.
pub open spec fn normalize_spec(raw: &JsonPassing, today: Seq<char>) -> PassingView {
    let d = passing_date(raw, today);
    let t = passing_time(raw);
    PassingView {
        passing_number: opt_int_text(raw.passing_no),
        transponder: raw.transponder@,
        date: if d.len() > 0 && t.len() > 0 { d + seq!['T'] + t } else { raw.utc_time@ },
        time: t,
        event_id: Seq::<char>::empty(),
        hits: opt_int_text(raw.hits),
        max_rssi: opt_int_text(raw.rssi),
        internal_data: opt_text(raw.internal_data),
        is_active: seq!['1'],
        channel: opt_int_text(raw.channel),
        loop_id: opt_int_text(raw.loop_id),
        loop_id_wakeup: Seq::<char>::empty(),
        battery: opt_text(raw.battery),
        temperature: opt_text(raw.temperature),
        internal_active_data: Seq::<char>::empty(),
        box_temp: Seq::<char>::empty(),
        box_reader_id: Seq::<char>::empty(),
    }
}

proof fn lemma_first_index(s: Seq<char>, c: char, i: int)
    requires
        0 <= i <= s.len(),
        forall|j: int| 0 <= j < i ==> s[j] != c,
        i == s.len() || s[i] == c,
    ensures
        first_index(s, c) == if i < s.len() { i } else { -1 },
    decreases i,
{
    if i > 0 {
        lemma_first_index(s.drop_first(), c, i - 1);
    }
}

/// Splits a timestamp at its first `T` into date and time, dropping a
/// trailing `Z` from the time; both are empty when there is no `T`.
pub fn split_stamp(utc: &str) -> (r: (String, String))
    ensures
        r.0@ == stamp_date(utc@),
        r.1@ == stamp_time(utc@),
{
    let n = utc.unicode_len();
    let mut k: usize = 0;
    while k < n && utc.get_char(k) != 'T'
        invariant
            n == utc@.len(),
            k <= n,
            forall|j: int| 0 <= j < k ==> utc@[j] != 'T',
        decreases n - k,
    {
        k = k + 1;
    }
    proof {
        lemma_first_index(utc@, 'T', k as int);
    }
    if k == n {
        return (String::new(), String::new());
    }
    let mut end = n;
    while end > k + 1 && utc.get_char(end - 1) == 'Z'
        invariant
            n == utc@.len(),
            k < n,
            k + 1 <= end <= n,
            trim_end_z(utc@.subrange(k + 1, end as int)) == trim_end_z(utc@.subrange(k + 1, n as int)),
        decreases end,
    {
        assert(utc@.subrange(k + 1, end as int).drop_last() =~= utc@.subrange(k + 1, end - 1));
        end = end - 1;
    }
    let date = String::from_str(utc.substring_char(0, k));
    let time = String::from_str(utc.substring_char(k + 1, end));
    assert(end == k + 1 || utc@.subrange(k + 1, end as int).last() != 'Z');
    (date, time)
}

/// Writes a time of day as `HH:MM:SS.mmm`.
pub fn clock_text(seconds: u32, millis: u32) -> (r: String)
    ensures
        r@ == clock_spec(seconds as nat, millis as nat),
{
    let s = seconds as u64;
    let mut out = zero_padded(s / 3600, 2);
    out.append(":");
    let m = zero_padded((s % 3600) / 60, 2);
    out.append(m.as_str());
    out.append(":");
    let sec = zero_padded(s % 60, 2);
    out.append(sec.as_str());
    out.append(".");
    let ms = zero_padded(millis as u64, 3);
    out.append(ms.as_str());
    proof {
        reveal_strlit(":");
        reveal_strlit(".");
    }
    assert(out@ =~= clock_spec(seconds as nat, millis as nat));
    out
}

fn opt_int(v: Option<i64>) -> (r: String)
    ensures
        r@ == opt_int_text(v),
{
    match v {
        Some(x) => signed_decimal(x),
        None => String::new(),
    }
}

fn opt_string(v: &Option<String>) -> (r: String)
    ensures
        r@ == opt_text(*v),
{
    match v {
        Some(x) => x.clone(),
        None => String::new(),
    }
}

fn is_zero_date(d: &String) -> (r: bool)
    ensures
        r == (d@ == zero_date()),
{
    let z = String::from_str("0001-01-01");
    proof {
        reveal_strlit("0001-01-01");
    }
    assert(z@ =~= zero_date());
    d.eq(&z)
}

/// Whether normalizing `raw` takes today's date.
pub fn uses_today(raw: &JsonPassing) -> (r: bool)
    ensures
        r == needs_today(raw),
{
    if raw.time.is_none() {
        return false;
    }
    let (date, _time) = split_stamp(raw.utc_time.as_str());
    is_zero_date(&date) || date.as_str().unicode_len() == 0
}

/// Normalizes a JSON passing into the canonical record, taking `today` as
/// the local date where the timestamp carries none.
pub fn normalize_json(raw: &JsonPassing, today: &str) -> (r: Passing)
    ensures
        r@ == normalize_spec(raw, today@),
{
    let (stamp_d, stamp_t) = split_stamp(raw.utc_time.as_str());
    let time = match &raw.time {
        Some(t) => clock_text(t.seconds, t.millis),
        None => stamp_t,
    };
    let need = uses_today(raw);
    let date = if need { String::from_str(today) } else { stamp_d };
    let full = if date.as_str().unicode_len() > 0 && time.as_str().unicode_len() > 0 {
        let mut f = date;
        f.append("T");
        f.append(time.as_str());
        proof {
            reveal_strlit("T");
        }
        f
    } else {
        raw.utc_time.clone()
    };
    let active = String::from_str("1");
    proof {
        reveal_strlit("1");
    }
    assert(active@ =~= seq!['1']);
    let p = Passing {
        passing_number: opt_int(raw.passing_no),
        transponder: raw.transponder.clone(),
        date: full,
        time,
        event_id: String::new(),
        hits: opt_int(raw.hits),
        max_rssi: opt_int(raw.rssi),
        internal_data: opt_string(&raw.internal_data),
        is_active: active,
        channel: opt_int(raw.channel),
        loop_id: opt_int(raw.loop_id),
        loop_id_wakeup: String::new(),
        battery: opt_string(&raw.battery),
        temperature: opt_string(&raw.temperature),
        internal_active_data: String::new(),
        box_temp: String::new(),
        box_reader_id: String::new(),
    };
    assert(p@.date =~= normalize_spec(raw, today@).date);
    p
}

/// Relies on chrono's `Local::now` and its `%Y-%m-%d` formatting for today's
/// date in the machine's time zone. The value depends on the clock; only its
/// shape is stated: a year of at least four digits and a zero-padded month
/// and day make at least ten characters.
#[verifier::external_body]
fn local_date_today() -> (r: String)
    ensures
        r@.len() >= 10,
{
    chrono::Local::now().format("%Y-%m-%d").to_string()
}

/// Normalizes a JSON passing, reading the local date from the clock only
/// when the record needs it.
pub fn normalize_json_now(raw: &JsonPassing) -> (r: Passing)
    ensures
        !needs_today(raw) ==> r@ == normalize_spec(raw, Seq::<char>::empty()),
        exists|today: Seq<char>| r@ == normalize_spec(raw, today),
        needs_today(raw) ==> exists|today: Seq<char>|
            today.len() >= 10 && r@ == normalize_spec(raw, today)
            && #[trigger] r.date@ == today + seq!['T'] + r.time@,
{
    if uses_today(raw) {
        let today = local_date_today();
        let r = normalize_json(raw, today.as_str());
        assert(r.time@.len() > 0) by {
            let t = raw.time->Some_0;
            assert(r.time@ == clock_spec(t.seconds as nat, t.millis as nat));
        };
        r
    } else {
        normalize_json(raw, "")
    }
}

/// Whether an upstream source is attached, as the active ingestion mode
/// reports it.
pub struct Connectivity {
    pub connected: bool,
}

impl Connectivity {
    /// No source is attached at start.
    pub fn new() -> (r: Connectivity)
        ensures
            !r.connected,
    {
        Connectivity { connected: false }
    }

    /// A JSON client connected: the source counts as attached at once.
    pub fn attach(&mut self) -> (r: WsMessage)
        ensures
            final(self).connected,
            r@ == status_view(true),
    {
        self.connected = true;
        WsMessage::status(true)
    }

    /// A JSON client went away: the source counts as detached, whatever it
    /// was before.
    pub fn detach(&mut self) -> (r: WsMessage)
        ensures
            !final(self).connected,
            r@ == status_view(false),
    {
        self.connected = false;
        WsMessage::status(false)
    }
}

} // verus!
