use vstd::prelude::*;
use vstd::string::StringExecFns;
use crate::passing::{Passing, PassingView};
use crate::text::{split_on, split_spec, views, lemma_split_nonempty};

verus! {

/// The field at index `i` of a split line, or empty text past its end.
pub open spec fn field_at(fs: Seq<Seq<char>>, i: int) -> Seq<char> {
    if 0 <= i < fs.len() {
        fs[i]
    } else {
        Seq::<char>::empty()
    }
}

/// The leading field of a passing line.
pub open spec fn passing_tag() -> Seq<char> {
    seq!['#', 'P']
}

/// The fewest fields a passing line must have: the tag and four data fields.
pub const MIN_PASSING_FIELDS: usize = 5;

/// The passing that the fields of a `#P` line describe, by position.
pub open spec fn passing_from_fields(fs: Seq<Seq<char>>) -> PassingView {
    PassingView {
        passing_number: field_at(fs, 1),
        transponder: field_at(fs, 2),
        date: field_at(fs, 3) + seq!['T'] + field_at(fs, 4),
        time: field_at(fs, 4),
        event_id: field_at(fs, 5),
        hits: field_at(fs, 6),
        max_rssi: field_at(fs, 7),
        internal_data: field_at(fs, 8),
        is_active: field_at(fs, 9),
        channel: field_at(fs, 10),
        loop_id: field_at(fs, 11),
        loop_id_wakeup: field_at(fs, 12),
        battery: field_at(fs, 13),
        temperature: field_at(fs, 14),
        internal_active_data: field_at(fs, 15),
        box_temp: field_at(fs, 16),
        box_reader_id: field_at(fs, 17),
    }
}

/// The outcome of decoding one line of the decoder protocol.
pub enum DecodedLine {
    /// A `#P` line with enough fields.
    Passing(Passing),
    /// A `#P` line with too few fields.
    Rejected,
    /// Any other line, `PING` included.
    Ignored,
}

pub ghost enum LineView {
    Passing(PassingView),
    Rejected,
    Ignored,
}

impl View for DecodedLine {
    type V = LineView;

    open spec fn view(&self) -> LineView {
        match self {
            DecodedLine::Passing(p) => LineView::Passing(p@),
            DecodedLine::Rejected => LineView::Rejected,
            DecodedLine::Ignored => LineView::Ignored,
        }
    }
}

/// What a line of the decoder protocol means.
pub open spec fn decode_spec(line: Seq<char>) -> LineView {
    let fs = split_spec(line, ';');
    if fs[0] == passing_tag() {
        if fs.len() >= MIN_PASSING_FIELDS {
            LineView::Passing(passing_from_fields(fs))
        } else {
            LineView::Rejected
        }
    } else {
        LineView::Ignored
    }
}

fn field(parts: &Vec<String>, i: usize) -> (r: String)
    ensures
        r@ == field_at(views(parts@), i as int),
{
    if i < parts.len() {
        parts[i].clone()
    } else {
        String::new()
    }
}

/// Decodes one line (without its line break) of the decoder protocol.
pub fn decode_line(line: &str) -> (r: DecodedLine)
    ensures
        r@ == decode_spec(line@),
{
    let parts = split_on(line, ';');
    proof {
        lemma_split_nonempty(line@, ';');
    }
    let tag = String::from_str("#P");
    proof {
        reveal_strlit("#P");
    }
    assert(tag@ =~= passing_tag());
    assert(views(parts@)[0] == parts@[0]@);
    if !parts[0].eq(&tag) {
        return DecodedLine::Ignored;
    }
    if parts.len() < MIN_PASSING_FIELDS {
        return DecodedLine::Rejected;
    }
    let time = field(&parts, 4);
    let mut date = field(&parts, 3);
    date.append("T");
    date.append(time.as_str());
    proof {
        reveal_strlit("T");
    }
    assert(date@ =~= field_at(views(parts@), 3) + seq!['T'] + field_at(views(parts@), 4));
    let p = Passing {
            passing_number: field(&parts, 1),
            transponder: field(&parts, 2),
            date,
            time,
            event_id: field(&parts, 5),
            hits: field(&parts, 6),
            max_rssi: field(&parts, 7),
            internal_data: field(&parts, 8),
            is_active: field(&parts, 9),
            channel: field(&parts, 10),
            loop_id: field(&parts, 11),
            loop_id_wakeup: field(&parts, 12),
            battery: field(&parts, 13),
            temperature: field(&parts, 14),
            internal_active_data: field(&parts, 15),
            box_temp: field(&parts, 16),
            box_reader_id: field(&parts, 17),
    };
    assert(p@ == passing_from_fields(views(parts@)));
    DecodedLine::Passing(p)
}

/// Field `k` (counted as in the line, the tag being field zero) of a decoded
/// passing, for the fields that are copied as they stand.
pub open spec fn copied_field(p: PassingView, k: int) -> Seq<char> {
    if k == 1 {
        p.passing_number
    }
    else if k == 2 {
        p.transponder
    }
    else if k == 5 {
        p.event_id
    }
    else if k == 6 {
        p.hits
    }
    else if k == 7 {
        p.max_rssi
    }
    else if k == 8 {
        p.internal_data
    }
    else if k == 9 {
        p.is_active
    }
    else if k == 10 {
        p.channel
    }
    else if k == 11 {
        p.loop_id
    }
    else if k == 12 {
        p.loop_id_wakeup
    }
    else if k == 13 {
        p.battery
    }
    else if k == 14 {
        p.temperature
    }
    else if k == 15 {
        p.internal_active_data
    }
    else if k == 16 {
        p.box_temp
    }
    else if k == 17 {
        p.box_reader_id
    }
    else {
        Seq::<char>::empty()
    }
}

/// Decoding a `#P` line with at least five fields always yields a passing:
/// each field present in the line is copied by position, every field past
/// the end of the line is empty, and the date joins the date and time
/// fields with a `T`.
pub proof fn lemma_passing_line_total(line: Seq<char>)
    requires
        split_spec(line, ';')[0] == passing_tag(),
        split_spec(line, ';').len() >= 5,
    ensures
        decode_spec(line) is Passing,
        ({
            let fs = split_spec(line, ';');
            let p = decode_spec(line)->Passing_0;
            &&& forall|k: int| 1 <= k <= 17 && k != 3 && k != 4 && k < fs.len()
                ==> #[trigger] copied_field(p, k) == fs[k]
            &&& forall|k: int| 5 <= k <= 17 && k >= fs.len()
                ==> #[trigger] copied_field(p, k) == Seq::<char>::empty()
            &&& p.date == fs[3] + seq!['T'] + fs[4]
            &&& p.time == fs[4]
        }),
{
}

/// A `#P` line with fewer than five fields yields no passing.
pub proof fn lemma_short_passing_line_rejected(line: Seq<char>)
    requires
        split_spec(line, ';')[0] == passing_tag(),
        split_spec(line, ';').len() < 5,
    ensures
        decode_spec(line) == LineView::Rejected,
{
}

} // verus!
