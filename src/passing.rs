use vstd::prelude::*;
use vstd::string::StringExecFns;

verus! {

/// One timing detection event. Every field is text and always present,
/// possibly empty.
pub struct Passing {
    pub passing_number: String,
    pub transponder: String,
    pub date: String,
    pub time: String,
    pub event_id: String,
    pub hits: String,
    pub max_rssi: String,
    pub internal_data: String,
    pub is_active: String,
    pub channel: String,
    pub loop_id: String,
    pub loop_id_wakeup: String,
    pub battery: String,
    pub temperature: String,
    pub internal_active_data: String,
    pub box_temp: String,
    pub box_reader_id: String,
}

/// What a `Passing` holds, as character sequences.
pub ghost struct PassingView {
    pub passing_number: Seq<char>,
    pub transponder: Seq<char>,
    pub date: Seq<char>,
    pub time: Seq<char>,
    pub event_id: Seq<char>,
    pub hits: Seq<char>,
    pub max_rssi: Seq<char>,
    pub internal_data: Seq<char>,
    pub is_active: Seq<char>,
    pub channel: Seq<char>,
    pub loop_id: Seq<char>,
    pub loop_id_wakeup: Seq<char>,
    pub battery: Seq<char>,
    pub temperature: Seq<char>,
    pub internal_active_data: Seq<char>,
    pub box_temp: Seq<char>,
    pub box_reader_id: Seq<char>,
}

impl View for Passing {
    type V = PassingView;

    open spec fn view(&self) -> PassingView {
        PassingView {
            passing_number: self.passing_number@,
            transponder: self.transponder@,
            date: self.date@,
            time: self.time@,
            event_id: self.event_id@,
            hits: self.hits@,
            max_rssi: self.max_rssi@,
            internal_data: self.internal_data@,
            is_active: self.is_active@,
            channel: self.channel@,
            loop_id: self.loop_id@,
            loop_id_wakeup: self.loop_id_wakeup@,
            battery: self.battery@,
            temperature: self.temperature@,
            internal_active_data: self.internal_active_data@,
            box_temp: self.box_temp@,
            box_reader_id: self.box_reader_id@,
        }
    }
}

impl Passing {
    /// An independent copy holding the same text in every field.
    pub fn duplicate(&self) -> (r: Passing)
        ensures
            r == *self,
    {
        Passing {
            passing_number: self.passing_number.clone(),
            transponder: self.transponder.clone(),
            date: self.date.clone(),
            time: self.time.clone(),
            event_id: self.event_id.clone(),
            hits: self.hits.clone(),
            max_rssi: self.max_rssi.clone(),
            internal_data: self.internal_data.clone(),
            is_active: self.is_active.clone(),
            channel: self.channel.clone(),
            loop_id: self.loop_id.clone(),
            loop_id_wakeup: self.loop_id_wakeup.clone(),
            battery: self.battery.clone(),
            temperature: self.temperature.clone(),
            internal_active_data: self.internal_active_data.clone(),
            box_temp: self.box_temp.clone(),
            box_reader_id: self.box_reader_id.clone(),
        }
    }
}

/// What the hub distributes: a passing, or a change of connectivity.
pub enum WsMessage {
    Passing(Passing),
    Status { event: String },
}

/// The view of a distributed message.
pub ghost enum MessageView {
    Passing(PassingView),
    Status(Seq<char>),
}

impl View for WsMessage {
    type V = MessageView;

    open spec fn view(&self) -> MessageView {
        match self {
            WsMessage::Passing(p) => MessageView::Passing(p@),
            WsMessage::Status { event } => MessageView::Status(event@),
        }
    }
}

pub open spec fn connected_text() -> Seq<char> {
    seq!['c', 'o', 'n', 'n', 'e', 'c', 't', 'e', 'd']
}

pub open spec fn disconnected_text() -> Seq<char> {
    seq!['d', 'i', 's', 'c', 'o', 'n', 'n', 'e', 'c', 't', 'e', 'd']
}

/// The status message for a connectivity state.
pub open spec fn status_view(connected: bool) -> MessageView {
    MessageView::Status(if connected { connected_text() } else { disconnected_text() })
}

impl WsMessage {
    /// An independent copy of this message.
    pub fn duplicate(&self) -> (r: WsMessage)
        ensures
            r == *self,
    {
        match self {
            WsMessage::Passing(p) => WsMessage::Passing(p.duplicate()),
            WsMessage::Status { event } => WsMessage::Status { event: event.clone() },
        }
    }

    /// The status message announcing that a source is attached (`true`)
    /// or detached (`false`).
    pub fn status(connected: bool) -> (r: WsMessage)
        ensures
            r@ == status_view(connected),
    {
        let event = if connected {
            String::from_str("connected")
        } else {
            String::from_str("disconnected")
        };
        proof {
            reveal_strlit("connected");
            reveal_strlit("disconnected");
        }
        assert(event@ =~= (if connected { connected_text() } else { disconnected_text() }));
        WsMessage::Status { event }
    }
}

} // verus!
