//! FIX session state machine.
//!
//! Manages the session lifecycle: logon, sequence numbers, heartbeats,
//! test requests, resend requests, and logout.
use vstd::prelude::*;

use crate::fix::error::Error;
use crate::fix::message::{build_message, field_value, FieldView, Message};
use crate::fix::tags;
use crate::fix::types::{msg_kind_of, MsgKind, MsgType};
use crate::text::{all_digits, chars_of, decimal, is_digit, parse_u64, parse_unsigned, u64_to_string};

verus! {

/// Current state of a FIX session.
#[derive(Clone, Copy, Debug, PartialEq, Eq, Structural)]
pub enum SessionState {
    Disconnected,
    LogonSent,
    LogonReceived,
    Active,
    LogoutSent,
    LogoutReceived,
}

/// Configuration for a FIX session.
#[derive(Clone, Debug)]
pub struct SessionConfig {
    pub begin_string: String,
    pub sender_comp_id: String,
    pub target_comp_id: String,
    pub heart_bt_int: u32,
    pub default_appl_ver_id: String,
}

/// Tracks session-level sequence numbers and state.
#[derive(Clone, Debug)]
pub struct Session {
    pub state: SessionState,
    pub config: SessionConfig,
    /// Outgoing message sequence number (MsgSeqNum).
    pub outgoing_seq: u64,
    /// Incoming message sequence number (expected from peer).
    pub incoming_seq: u64,
    /// True if we initiated the connection.
    pub is_initiator: bool,
}

/// Actions the session layer may need to take in response to an incoming message.
#[derive(Clone, Debug)]
pub enum SessionEvent {
    LogonReceived,
    HeartbeatReceived,
    RespondHeartbeat,
    LogoutReceived,
    SequenceReset,
    ResendRequested,
    MessageRejected,
    ApplicationMessage(Message),
}

/// The standard header every session message starts with.
pub open spec fn header_fields(c: SessionConfig, msg_type: char, seq: u64, time: Seq<char>) -> Seq<FieldView> {
    seq![
        (tags::BEGIN_STRING, c.begin_string@),
        (tags::MSG_TYPE, seq![msg_type]),
        (tags::SENDER_COMP_ID, c.sender_comp_id@),
        (tags::TARGET_COMP_ID, c.target_comp_id@),
        (tags::MSG_SEQ_NUM, decimal(seq as nat)),
        (tags::SENDING_TIME, time),
    ]
}

/// Fields of a Logon (MsgType `A`).
pub open spec fn logon_fields(c: SessionConfig, seq: u64, time: Seq<char>) -> Seq<FieldView> {
    header_fields(c, 'A', seq, time) + seq![
        (tags::ENCRYPT_METHOD, seq!['0']),
        (tags::HEART_BT_INT, decimal(c.heart_bt_int as nat)),
        (tags::DEFAULT_APPL_VER_ID, c.default_appl_ver_id@),
    ]
}

/// Fields of a Heartbeat (MsgType `0`).
pub open spec fn heartbeat_fields(c: SessionConfig, seq: u64, time: Seq<char>) -> Seq<FieldView> {
    header_fields(c, '0', seq, time)
}

/// Fields of a TestRequest (MsgType `1`).
pub open spec fn test_request_fields(c: SessionConfig, seq: u64, time: Seq<char>, id: Seq<char>) -> Seq<FieldView> {
    header_fields(c, '1', seq, time).push((tags::TEST_REQ_ID, id))
}

/// Fields of a Logout (MsgType `5`).
pub open spec fn logout_fields(c: SessionConfig, seq: u64, time: Seq<char>) -> Seq<FieldView> {
    header_fields(c, '5', seq, time)
}

/// The message type a message carries in tag 35, if any.
pub open spec fn message_kind(m: Message) -> Option<MsgKind> {
    match field_value(m.field_seq(), tags::MSG_TYPE) {
        Some(v) => Some(msg_kind_of(v)),
        None => None,
    }
}

/// The sequence number a SequenceReset carries in tag 369, when it reads as a number.
pub open spec fn reset_target(m: Message) -> Option<nat> {
    match field_value(m.field_seq(), tags::LAST_MSG_SEQ_NUM) {
        Some(v) => parse_unsigned(v, u64::MAX as nat),
        None => None,
    }
}

/// A UTC timestamp in the shape `%Y%m%d-%H:%M:%S` gives: the year as four
/// digits, or, outside `0..=9999`, as a sign and at least four digits; then
/// month, day, hour, minute and second as two digits each, with `-` between
/// day and hour and `:` between hour, minute and second.
pub open spec fn is_sending_time(s: Seq<char>) -> bool {
    let n = s.len() as int;
    let year = s.subrange(0, n - 13);
    let rest = s.subrange(n - 13, n);
    &&& n >= 17
    &&& (year.len() == 4 && all_digits(year)) || (year.len() >= 5 && (year[0] == '+' || year[0] == '-')
        && all_digits(year.drop_first()))
    &&& rest[4] == '-' && rest[7] == ':' && rest[10] == ':'
    &&& forall|i: int| 0 <= i < 13 && i != 4 && i != 7 && i != 10 ==> is_digit(#[trigger] rest[i])
}

/// The current UTC time as `YYYYMMDD-HH:MM:SS`, from chrono's `Utc::now()`
/// formatted with `format("%Y%m%d-%H:%M:%S")`. Claimed: the text has the shape
/// that chrono documents for these specifiers (zero-padded fields, a sign on
/// years outside `0..=9999`); which time it shows depends on the clock and is
/// not claimed.
#[verifier::external_body]
fn sending_time_now() -> (t: String)
    ensures
        is_sending_time(t@),
{
    chrono::Utc::now().format("%Y%m%d-%H:%M:%S").to_string()
}

fn owned(s: &str) -> (r: String)
    ensures
        r@ == s@,
{
    s.to_owned()
}

impl Session {
    pub fn new(config: SessionConfig, is_initiator: bool) -> (s: Self)
        ensures
            s.state == SessionState::Disconnected,
            s.config == config,
            s.outgoing_seq == 1,
            s.incoming_seq == 1,
            s.is_initiator == is_initiator,
    {
        Self { state: SessionState::Disconnected, config, outgoing_seq: 1, incoming_seq: 1, is_initiator }
    }

    fn header(&self, msg_type: &str, sending_time: &str) -> (v: Vec<(u32, String)>)
        requires
            msg_type@.len() == 1,
        ensures
            crate::fix::message::fields_view(v@) == header_fields(self.config, msg_type@[0], self.outgoing_seq, sending_time@),
    {
        let mut v: Vec<(u32, String)> = Vec::new();
        v.push((tags::BEGIN_STRING, self.config.begin_string.clone()));
        v.push((tags::MSG_TYPE, owned(msg_type)));
        v.push((tags::SENDER_COMP_ID, self.config.sender_comp_id.clone()));
        v.push((tags::TARGET_COMP_ID, self.config.target_comp_id.clone()));
        v.push((tags::MSG_SEQ_NUM, u64_to_string(self.outgoing_seq)));
        v.push((tags::SENDING_TIME, owned(sending_time)));
        assert(msg_type@ =~= seq![msg_type@[0]]);
        assert(crate::fix::message::fields_view(v@) =~= header_fields(self.config, msg_type@[0], self.outgoing_seq, sending_time@));
        v
    }

    /// Build a Logon message (MsgType "A") sent at `sending_time`.
    pub fn build_logon_at(&mut self, sending_time: &str) -> (m: Message)
        requires
            old(self).outgoing_seq < u64::MAX,
        ensures
            m.field_seq() == logon_fields(old(self).config, old(self).outgoing_seq, sending_time@),
            m.wf(),
            final(self).outgoing_seq == old(self).outgoing_seq + 1,
            final(self).state == SessionState::LogonSent,
            final(self).incoming_seq == old(self).incoming_seq,
            final(self).config == old(self).config,
            final(self).is_initiator == old(self).is_initiator,
    {
        proof {
            reveal_strlit("A");
            reveal_strlit("0");
            assert("A"@ =~= seq!['A']);
            assert("0"@ =~= seq!['0']);
        }
        let mut fields = self.header("A", sending_time);
        let ghost h = crate::fix::message::fields_view(fields@);
        fields.push((tags::ENCRYPT_METHOD, owned("0")));
        fields.push((tags::HEART_BT_INT, u64_to_string(self.config.heart_bt_int as u64)));
        fields.push((tags::DEFAULT_APPL_VER_ID, self.config.default_appl_ver_id.clone()));
        assert(crate::fix::message::fields_view(fields@) =~= h + seq![
            (tags::ENCRYPT_METHOD, seq!['0']),
            (tags::HEART_BT_INT, decimal(self.config.heart_bt_int as nat)),
            (tags::DEFAULT_APPL_VER_ID, self.config.default_appl_ver_id@),
        ]);
        assert(crate::fix::message::fields_view(fields@) =~= logon_fields(self.config, self.outgoing_seq, sending_time@));
        self.outgoing_seq = self.outgoing_seq + 1;
        self.state = SessionState::LogonSent;
        build_message(fields)
    }

    /// Build a Logon message (MsgType "A") stamped with the current time.
    pub fn build_logon(&mut self) -> (m: Message)
        requires
            old(self).outgoing_seq < u64::MAX,
        ensures
            m.field_seq() == logon_fields(old(self).config, old(self).outgoing_seq, m.field_seq()[5].1),
            is_sending_time(m.field_seq()[5].1),
            m.wf(),
            final(self).outgoing_seq == old(self).outgoing_seq + 1,
            final(self).state == SessionState::LogonSent,
            final(self).incoming_seq == old(self).incoming_seq,
            final(self).config == old(self).config,
    {
        let t = sending_time_now();
        self.build_logon_at(t.as_str())
    }

    /// Build a Heartbeat message (MsgType "0") sent at `sending_time`.
    pub fn build_heartbeat_at(&mut self, sending_time: &str) -> (m: Message)
        requires
            old(self).outgoing_seq < u64::MAX,
        ensures
            m.field_seq() == heartbeat_fields(old(self).config, old(self).outgoing_seq, sending_time@),
            m.wf(),
            final(self).outgoing_seq == old(self).outgoing_seq + 1,
            final(self).state == old(self).state,
            final(self).incoming_seq == old(self).incoming_seq,
            final(self).config == old(self).config,
            final(self).is_initiator == old(self).is_initiator,
    {
        proof {
            reveal_strlit("0");
        }
        let fields = self.header("0", sending_time);
        self.outgoing_seq = self.outgoing_seq + 1;
        build_message(fields)
    }

    /// Build a Heartbeat message (MsgType "0") stamped with the current time.
    pub fn build_heartbeat(&mut self) -> (m: Message)
        requires
            old(self).outgoing_seq < u64::MAX,
        ensures
            m.field_seq() == heartbeat_fields(old(self).config, old(self).outgoing_seq, m.field_seq()[5].1),
            is_sending_time(m.field_seq()[5].1),
            m.wf(),
            final(self).outgoing_seq == old(self).outgoing_seq + 1,
            final(self).state == old(self).state,
            final(self).incoming_seq == old(self).incoming_seq,
            final(self).config == old(self).config,
    {
        let t = sending_time_now();
        self.build_heartbeat_at(t.as_str())
    }

    /// Build a TestRequest message (MsgType "1") sent at `sending_time`.
    pub fn build_test_request_at(&mut self, test_req_id: &str, sending_time: &str) -> (m: Message)
        requires
            old(self).outgoing_seq < u64::MAX,
        ensures
            m.field_seq() == test_request_fields(old(self).config, old(self).outgoing_seq, sending_time@, test_req_id@),
            m.wf(),
            final(self).outgoing_seq == old(self).outgoing_seq + 1,
            final(self).state == old(self).state,
            final(self).incoming_seq == old(self).incoming_seq,
            final(self).config == old(self).config,
            final(self).is_initiator == old(self).is_initiator,
    {
        proof {
            reveal_strlit("1");
        }
        let mut fields = self.header("1", sending_time);
        fields.push((tags::TEST_REQ_ID, owned(test_req_id)));
        assert(crate::fix::message::fields_view(fields@) =~= test_request_fields(self.config, self.outgoing_seq, sending_time@, test_req_id@));
        self.outgoing_seq = self.outgoing_seq + 1;
        build_message(fields)
    }

    /// Build a TestRequest message (MsgType "1") stamped with the current time.
    pub fn build_test_request(&mut self, test_req_id: &str) -> (m: Message)
        requires
            old(self).outgoing_seq < u64::MAX,
        ensures
            m.field_seq() == test_request_fields(old(self).config, old(self).outgoing_seq, m.field_seq()[5].1, test_req_id@),
            is_sending_time(m.field_seq()[5].1),
            m.wf(),
            final(self).outgoing_seq == old(self).outgoing_seq + 1,
            final(self).state == old(self).state,
            final(self).incoming_seq == old(self).incoming_seq,
            final(self).config == old(self).config,
    {
        let t = sending_time_now();
        self.build_test_request_at(test_req_id, t.as_str())
    }

    /// Build a Logout message (MsgType "5") sent at `sending_time`.
    pub fn build_logout_at(&mut self, sending_time: &str) -> (m: Message)
        requires
            old(self).outgoing_seq < u64::MAX,
        ensures
            m.field_seq() == logout_fields(old(self).config, old(self).outgoing_seq, sending_time@),
            m.wf(),
            final(self).outgoing_seq == old(self).outgoing_seq + 1,
            final(self).state == SessionState::LogoutSent,
            final(self).incoming_seq == old(self).incoming_seq,
            final(self).config == old(self).config,
            final(self).is_initiator == old(self).is_initiator,
    {
        proof {
            reveal_strlit("5");
        }
        let fields = self.header("5", sending_time);
        self.outgoing_seq = self.outgoing_seq + 1;
        self.state = SessionState::LogoutSent;
        build_message(fields)
    }

    /// Build a Logout message (MsgType "5") stamped with the current time.
    pub fn build_logout(&mut self) -> (m: Message)
        requires
            old(self).outgoing_seq < u64::MAX,
        ensures
            m.field_seq() == logout_fields(old(self).config, old(self).outgoing_seq, m.field_seq()[5].1),
            is_sending_time(m.field_seq()[5].1),
            m.wf(),
            final(self).outgoing_seq == old(self).outgoing_seq + 1,
            final(self).state == SessionState::LogoutSent,
            final(self).incoming_seq == old(self).incoming_seq,
            final(self).config == old(self).config,
    {
        let t = sending_time_now();
        self.build_logout_at(t.as_str())
    }

    /// Process an incoming message and update session state.
    ///
    /// Returns the action the caller should take (e.g. send heartbeat).
    pub fn receive(&mut self, msg: &Message) -> (r: Result<SessionEvent, Error>)
        requires
            msg.wf(),
            old(self).incoming_seq < u64::MAX,
            message_kind(*msg) == Some(MsgKind::SequenceReset) ==> reset_target(*msg) != Some(
                u64::MAX as nat,
            ),
        ensures
            final(self).outgoing_seq == old(self).outgoing_seq,
            final(self).config == old(self).config,
            final(self).is_initiator == old(self).is_initiator,
            final(self).incoming_seq == (match (message_kind(*msg), reset_target(*msg)) {
                (Some(MsgKind::SequenceReset), Some(n)) => n + 1int,
                _ => old(self).incoming_seq + 1,
            }),
            final(self).state == (match message_kind(*msg) {
                Some(MsgKind::Logon) => SessionState::Active,
                Some(MsgKind::Logout) => if old(self).state == SessionState::LogoutSent {
                    SessionState::Disconnected
                } else {
                    SessionState::LogoutReceived
                },
                _ => old(self).state,
            }),
            match r {
                Ok(e) => match message_kind(*msg) {
                    Some(MsgKind::Logon) => e is LogonReceived,
                    Some(MsgKind::Heartbeat) => e is HeartbeatReceived,
                    Some(MsgKind::TestRequest) => e is RespondHeartbeat,
                    Some(MsgKind::Logout) => e is LogoutReceived,
                    Some(MsgKind::SequenceReset) => e is SequenceReset,
                    Some(MsgKind::ResendRequest) => e is ResendRequested,
                    Some(MsgKind::Reject) => e is MessageRejected,
                    _ => e matches SessionEvent::ApplicationMessage(m) && m.field_seq() == msg.field_seq()
                        && m.index@ == msg.index@ && m.raw@ == msg.raw@,
                },
                Err(_) => false,
            },
    {
        self.incoming_seq = self.incoming_seq + 1;
        match msg.msg_type() {
            Some(MsgType::Logon) => {
                self.state = SessionState::Active;
                Ok(SessionEvent::LogonReceived)
            },
            Some(MsgType::Heartbeat) => Ok(SessionEvent::HeartbeatReceived),
            Some(MsgType::TestRequest) => {
                // Must respond with Heartbeat containing the TestReqID
                Ok(SessionEvent::RespondHeartbeat)
            },
            Some(MsgType::Logout) => {
                // A Logout answering ours ends the session.
                self.state = if self.state == SessionState::LogoutSent {
                    SessionState::Disconnected
                } else {
                    SessionState::LogoutReceived
                };
                Ok(SessionEvent::LogoutReceived)
            },
            Some(MsgType::SequenceReset) => {
                // Gap fill / sequence reset
                if let Some(new_seq) = msg.get(tags::LAST_MSG_SEQ_NUM) {
                    let c = chars_of(new_seq);
                    if let Some(n) = parse_u64(c.as_slice()) {
                        self.incoming_seq = n + 1;
                    }
                }
                Ok(SessionEvent::SequenceReset)
            },
            Some(MsgType::ResendRequest) => Ok(SessionEvent::ResendRequested),
            Some(MsgType::Reject) => Ok(SessionEvent::MessageRejected),
            // Application messages pass through
            _ => Ok(SessionEvent::ApplicationMessage(msg.copy())),
        }
    }
}

/// The last field of `fs` tagged `tag` gives that tag's value.
proof fn lemma_value_at(fs: Seq<FieldView>, tag: u32, k: int)
    requires
        0 <= k < fs.len(),
        fs[k].0 == tag,
        forall|j: int| k < j < fs.len() ==> fs[j].0 != tag,
    ensures
        field_value(fs, tag) == Some(fs[k].1),
{
    assert(crate::fix::message::is_last_index(fs, tag, k));
    let w = choose|i: int| crate::fix::message::is_last_index(fs, tag, i);
    assert(w == k) by {
        if w < k {
            assert(fs[k].0 == tag);
        } else if w > k {
            assert(fs[w].0 == tag);
        }
    }
}

/// The standard header, followed by fields with none of its tags, carries
/// each value under its own tag.
proof fn lemma_header_values(c: SessionConfig, msg_type: char, seq: u64, time: Seq<char>, extra: Seq<FieldView>)
    requires
        forall|i: int| 0 <= i < extra.len() ==> {
            let t = #[trigger] extra[i].0;
            t != 8 && t != 35 && t != 49 && t != 56 && t != 34 && t != 52
        },
    ensures
        field_value(header_fields(c, msg_type, seq, time) + extra, 8) == Some(c.begin_string@),
        field_value(header_fields(c, msg_type, seq, time) + extra, 35) == Some(seq![msg_type]),
        field_value(header_fields(c, msg_type, seq, time) + extra, 49) == Some(c.sender_comp_id@),
        field_value(header_fields(c, msg_type, seq, time) + extra, 56) == Some(c.target_comp_id@),
        field_value(header_fields(c, msg_type, seq, time) + extra, 34) == Some(decimal(seq as nat)),
        field_value(header_fields(c, msg_type, seq, time) + extra, 52) == Some(time),
{
    let fs = header_fields(c, msg_type, seq, time) + extra;
    assert forall|j: int| 6 <= j < fs.len() implies fs[j] == extra[j - 6] by {}
    lemma_value_at(fs, 8, 0);
    lemma_value_at(fs, 35, 1);
    lemma_value_at(fs, 49, 2);
    lemma_value_at(fs, 56, 3);
    lemma_value_at(fs, 34, 4);
    lemma_value_at(fs, 52, 5);
}

/// A Logon carries each setting of its configuration under that setting's own
/// tag: BeginString (8), SenderCompID (49), TargetCompID (56), HeartBtInt
/// (108) and DefaultApplVerID (1137); with MsgType `A` (35), the sequence
/// number (34) and sending time (52) it was built with, and EncryptMethod
/// `0` (98).
pub proof fn law_logon_carries_config(c: SessionConfig, seq: u64, time: Seq<char>)
    ensures
        field_value(logon_fields(c, seq, time), 8) == Some(c.begin_string@),
        field_value(logon_fields(c, seq, time), 35) == Some(seq!['A']),
        field_value(logon_fields(c, seq, time), 49) == Some(c.sender_comp_id@),
        field_value(logon_fields(c, seq, time), 56) == Some(c.target_comp_id@),
        field_value(logon_fields(c, seq, time), 34) == Some(decimal(seq as nat)),
        field_value(logon_fields(c, seq, time), 52) == Some(time),
        field_value(logon_fields(c, seq, time), 98) == Some(seq!['0']),
        field_value(logon_fields(c, seq, time), 108) == Some(decimal(c.heart_bt_int as nat)),
        field_value(logon_fields(c, seq, time), 1137) == Some(c.default_appl_ver_id@),
{
    let extra = seq![
        (98u32, seq!['0']),
        (108u32, decimal(c.heart_bt_int as nat)),
        (1137u32, c.default_appl_ver_id@),
    ];
    assert(logon_fields(c, seq, time) =~= header_fields(c, 'A', seq, time) + extra);
    lemma_header_values(c, 'A', seq, time, extra);
    let fs = logon_fields(c, seq, time);
    lemma_value_at(fs, 98, 6);
    lemma_value_at(fs, 108, 7);
    lemma_value_at(fs, 1137, 8);
}

/// Heartbeat (`0`), TestRequest (`1`) and Logout (`5`) messages carry the
/// configuration's BeginString (8), SenderCompID (49) and TargetCompID (56),
/// their MsgType (35), and the sequence number (34) and sending time (52)
/// they were built with; a TestRequest also carries its TestReqID (112).
pub proof fn law_session_messages_carry_header(c: SessionConfig, seq: u64, time: Seq<char>, id: Seq<char>)
    ensures
        field_value(heartbeat_fields(c, seq, time), 35) == Some(seq!['0']),
        field_value(test_request_fields(c, seq, time, id), 35) == Some(seq!['1']),
        field_value(logout_fields(c, seq, time), 35) == Some(seq!['5']),
        field_value(test_request_fields(c, seq, time, id), 112) == Some(id),
        forall|fs: Seq<FieldView>|
            fs == heartbeat_fields(c, seq, time) || fs == test_request_fields(c, seq, time, id) || fs == logout_fields(c, seq, time)
                ==> {
                &&& field_value(fs, 8) == Some(c.begin_string@)
                &&& field_value(fs, 49) == Some(c.sender_comp_id@)
                &&& field_value(fs, 56) == Some(c.target_comp_id@)
                &&& field_value(fs, 34) == Some(decimal(seq as nat))
                &&& field_value(fs, 52) == Some(time)
            },
{
    let none = Seq::<FieldView>::empty();
    let req = seq![(112u32, id)];
    assert(heartbeat_fields(c, seq, time) =~= header_fields(c, '0', seq, time) + none);
    assert(logout_fields(c, seq, time) =~= header_fields(c, '5', seq, time) + none);
    assert(test_request_fields(c, seq, time, id) =~= header_fields(c, '1', seq, time) + req);
    lemma_header_values(c, '0', seq, time, none);
    lemma_header_values(c, '5', seq, time, none);
    lemma_header_values(c, '1', seq, time, req);
    lemma_value_at(test_request_fields(c, seq, time, id), 112, 6);
}

/// The MsgSeqNum written into a session message reads back as the sequence
/// number it was built with, for every configuration, time and message kind.
pub proof fn law_built_seq_num_reads_back(c: SessionConfig, msg_type: char, seq: u64, time: Seq<char>, extra: Seq<FieldView>)
    requires
        forall|i: int| 0 <= i < extra.len() ==> #[trigger] extra[i].0 != tags::MSG_SEQ_NUM,
    ensures
        field_value(header_fields(c, msg_type, seq, time) + extra, tags::MSG_SEQ_NUM) == Some(decimal(seq as nat)),
        parse_unsigned(decimal(seq as nat), u64::MAX as nat) == Some(seq as nat),
{
    let fs = header_fields(c, msg_type, seq, time) + extra;
    assert(crate::fix::message::is_last_index(fs, tags::MSG_SEQ_NUM, 4)) by {
        assert forall|j: int| 4 < j < fs.len() implies fs[j].0 != tags::MSG_SEQ_NUM by {
            if j >= 6 {
                assert(fs[j] == extra[j - 6]);
            }
        }
    }
    let w = choose|i: int| crate::fix::message::is_last_index(fs, tags::MSG_SEQ_NUM, i);
    assert(w == 4) by {
        if w < 4 {
            assert(fs[4].0 == tags::MSG_SEQ_NUM);
        } else if w > 4 {
            assert(fs[w].0 == tags::MSG_SEQ_NUM);
            if w >= 6 {
                assert(fs[w] == extra[w - 6]);
            }
        }
    }
    crate::text::lemma_parse_decimal(seq as nat, u64::MAX as nat);
}

} // verus!
