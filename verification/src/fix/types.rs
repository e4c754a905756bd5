//! FIX data types and enumerations.
use vstd::prelude::*;
use crate::text::chars_of;

verus! {

/// Order side (tag 54).
#[derive(Clone, Copy, Debug, PartialEq, Eq, Structural)]
pub enum Side {
    Buy,
    Sell,
    SellShort,
}

/// The side a FIX code denotes.
pub open spec fn side_of(val: char) -> Option<Side> {
    if val == '1' {
        Some(Side::Buy)
    } else if val == '2' {
        Some(Side::Sell)
    } else if val == '5' {
        Some(Side::SellShort)
    } else {
        None
    }
}

/// The FIX code of a side.
pub open spec fn side_code(s: Side) -> char {
    match s {
        Side::Buy => '1',
        Side::Sell => '2',
        Side::SellShort => '5',
    }
}

impl Side {
    pub fn from_fix(val: char) -> (r: Option<Self>)
        ensures
            r == side_of(val),
    {
        match val {
            '1' => Some(Self::Buy),
            '2' => Some(Self::Sell),
            '5' => Some(Self::SellShort),
            _ => None,
        }
    }

    pub fn to_fix(&self) -> (c: char)
        ensures
            c == side_code(*self),
    {
        match self {
            Self::Buy => '1',
            Self::Sell => '2',
            Self::SellShort => '5',
        }
    }
}

/// Reading back the code of a side gives the side.
pub proof fn law_side_code_roundtrip(s: Side)
    ensures
        side_of(side_code(s)) == Some(s),
{
}

/// Order type (tag 40).
#[derive(Clone, Copy, Debug, PartialEq, Eq, Structural)]
pub enum OrdType {
    Market,
    Limit,
    Stop,
    StopLimit,
    MarketIfTouched,
}

/// The order type a FIX code denotes.
pub open spec fn ord_type_of(val: char) -> Option<OrdType> {
    if val == '1' {
        Some(OrdType::Market)
    } else if val == '2' {
        Some(OrdType::Limit)
    } else if val == '3' {
        Some(OrdType::Stop)
    } else if val == '4' {
        Some(OrdType::StopLimit)
    } else if val == 'K' {
        Some(OrdType::MarketIfTouched)
    } else {
        None
    }
}

impl OrdType {
    pub fn from_fix(val: char) -> (r: Option<Self>)
        ensures
            r == ord_type_of(val),
    {
        match val {
            '1' => Some(Self::Market),
            '2' => Some(Self::Limit),
            '3' => Some(Self::Stop),
            '4' => Some(Self::StopLimit),
            'K' => Some(Self::MarketIfTouched),
            _ => None,
        }
    }
}

/// The code the FIX standard assigns to each order type (tag 40).
pub open spec fn ord_type_code(t: OrdType) -> char {
    match t {
        OrdType::Market => '1',
        OrdType::Limit => '2',
        OrdType::Stop => '3',
        OrdType::StopLimit => '4',
        OrdType::MarketIfTouched => 'K',
    }
}

/// A code decodes to an order type exactly when the FIX standard assigns
/// that code to it: decoding is the inverse of the standard's code table, and
/// every other character decodes to nothing.
pub proof fn law_ord_type_code_table(c: char, t: OrdType)
    ensures
        (ord_type_of(c) == Some(t)) == (ord_type_code(t) == c),
        ord_type_of(c) is None <==> forall|u: OrdType| ord_type_code(u) != c,
{
    if ord_type_of(c) is None {
        assert forall|u: OrdType| ord_type_code(u) != c by {
            match u {
                OrdType::Market => {},
                OrdType::Limit => {},
                OrdType::Stop => {},
                OrdType::StopLimit => {},
                OrdType::MarketIfTouched => {},
            }
        }
    } else {
        assert(ord_type_code(ord_type_of(c)->0) == c);
    }
}

/// Time in force (tag 59).
#[derive(Clone, Copy, Debug, PartialEq, Eq, Structural)]
pub enum TimeInForce {
    Day,
    GoodTillCancel,
    ImmediateOrCancel,
    FillOrKill,
}

/// The time in force a FIX code denotes.
pub open spec fn time_in_force_of(val: char) -> Option<TimeInForce> {
    if val == '0' {
        Some(TimeInForce::Day)
    } else if val == '1' {
        Some(TimeInForce::GoodTillCancel)
    } else if val == '3' {
        Some(TimeInForce::ImmediateOrCancel)
    } else if val == '4' {
        Some(TimeInForce::FillOrKill)
    } else {
        None
    }
}

impl TimeInForce {
    pub fn from_fix(val: char) -> (r: Option<Self>)
        ensures
            r == time_in_force_of(val),
    {
        match val {
            '0' => Some(Self::Day),
            '1' => Some(Self::GoodTillCancel),
            '3' => Some(Self::ImmediateOrCancel),
            '4' => Some(Self::FillOrKill),
            _ => None,
        }
    }
}

/// The code the FIX standard assigns to each time in force (tag 59).
pub open spec fn time_in_force_code(t: TimeInForce) -> char {
    match t {
        TimeInForce::Day => '0',
        TimeInForce::GoodTillCancel => '1',
        TimeInForce::ImmediateOrCancel => '3',
        TimeInForce::FillOrKill => '4',
    }
}

/// A code decodes to a time in force exactly when the FIX standard assigns
/// that code to it: decoding is the inverse of the standard's code table, and
/// every other character decodes to nothing.
pub proof fn law_time_in_force_code_table(c: char, t: TimeInForce)
    ensures
        (time_in_force_of(c) == Some(t)) == (time_in_force_code(t) == c),
        time_in_force_of(c) is None <==> forall|u: TimeInForce| time_in_force_code(u) != c,
{
    if time_in_force_of(c) is None {
        assert forall|u: TimeInForce| time_in_force_code(u) != c by {
            match u {
                TimeInForce::Day => {},
                TimeInForce::GoodTillCancel => {},
                TimeInForce::ImmediateOrCancel => {},
                TimeInForce::FillOrKill => {},
            }
        }
    } else {
        assert(time_in_force_code(time_in_force_of(c)->0) == c);
    }
}

/// Execution type (tag 150).
#[derive(Clone, Copy, Debug, PartialEq, Eq, Structural)]
pub enum ExecType {
    New,
    PartialFill,
    Fill,
    DoneForDay,
    Cancelled,
    Replaced,
    PendingCancel,
    Rejected,
    Suspended,
    PendingNew,
    Expired,
    Trade,
    OrderStatus,
}

/// The execution type a FIX code denotes.
pub open spec fn exec_type_of(val: char) -> Option<ExecType> {
    if val == '0' {
        Some(ExecType::New)
    } else if val == '1' {
        Some(ExecType::PartialFill)
    } else if val == '2' {
        Some(ExecType::Fill)
    } else if val == '3' {
        Some(ExecType::DoneForDay)
    } else if val == '4' {
        Some(ExecType::Cancelled)
    } else if val == '5' {
        Some(ExecType::Replaced)
    } else if val == '6' {
        Some(ExecType::PendingCancel)
    } else if val == '8' {
        Some(ExecType::Rejected)
    } else if val == '9' {
        Some(ExecType::Suspended)
    } else if val == 'A' {
        Some(ExecType::PendingNew)
    } else if val == 'C' {
        Some(ExecType::Expired)
    } else if val == 'F' {
        Some(ExecType::Trade)
    } else if val == 'I' {
        Some(ExecType::OrderStatus)
    } else {
        None
    }
}

impl ExecType {
    pub fn from_fix(val: char) -> (r: Option<Self>)
        ensures
            r == exec_type_of(val),
    {
        match val {
            '0' => Some(Self::New),
            '1' => Some(Self::PartialFill),
            '2' => Some(Self::Fill),
            '3' => Some(Self::DoneForDay),
            '4' => Some(Self::Cancelled),
            '5' => Some(Self::Replaced),
            '6' => Some(Self::PendingCancel),
            '8' => Some(Self::Rejected),
            '9' => Some(Self::Suspended),
            'A' => Some(Self::PendingNew),
            'C' => Some(Self::Expired),
            'F' => Some(Self::Trade),
            'I' => Some(Self::OrderStatus),
            _ => None,
        }
    }
}

/// The code the FIX standard assigns to each execution type (tag 150).
pub open spec fn exec_type_code(t: ExecType) -> char {
    match t {
        ExecType::New => '0',
        ExecType::PartialFill => '1',
        ExecType::Fill => '2',
        ExecType::DoneForDay => '3',
        ExecType::Cancelled => '4',
        ExecType::Replaced => '5',
        ExecType::PendingCancel => '6',
        ExecType::Rejected => '8',
        ExecType::Suspended => '9',
        ExecType::PendingNew => 'A',
        ExecType::Expired => 'C',
        ExecType::Trade => 'F',
        ExecType::OrderStatus => 'I',
    }
}

/// A code decodes to an execution type exactly when the FIX standard assigns
/// that code to it: decoding is the inverse of the standard's code table, and
/// every other character decodes to nothing.
pub proof fn law_exec_type_code_table(c: char, t: ExecType)
    ensures
        (exec_type_of(c) == Some(t)) == (exec_type_code(t) == c),
        exec_type_of(c) is None <==> forall|u: ExecType| exec_type_code(u) != c,
{
    if exec_type_of(c) is None {
        assert forall|u: ExecType| exec_type_code(u) != c by {
            match u {
                ExecType::New => {},
                ExecType::PartialFill => {},
                ExecType::Fill => {},
                ExecType::DoneForDay => {},
                ExecType::Cancelled => {},
                ExecType::Replaced => {},
                ExecType::PendingCancel => {},
                ExecType::Rejected => {},
                ExecType::Suspended => {},
                ExecType::PendingNew => {},
                ExecType::Expired => {},
                ExecType::Trade => {},
                ExecType::OrderStatus => {},
            }
        }
    } else {
        assert(exec_type_code(exec_type_of(c)->0) == c);
    }
}

/// Order status (tag 39).
#[derive(Clone, Copy, Debug, PartialEq, Eq, Structural)]
pub enum OrdStatus {
    New,
    PartiallyFilled,
    Filled,
    DoneForDay,
    Cancelled,
    Replaced,
    PendingCancel,
    Stopped,
    Rejected,
    Suspended,
    PendingNew,
    Expired,
    PendingReplace,
}

/// The order status a FIX code denotes.
pub open spec fn ord_status_of(val: char) -> Option<OrdStatus> {
    if val == '0' {
        Some(OrdStatus::New)
    } else if val == '1' {
        Some(OrdStatus::PartiallyFilled)
    } else if val == '2' {
        Some(OrdStatus::Filled)
    } else if val == '3' {
        Some(OrdStatus::DoneForDay)
    } else if val == '4' {
        Some(OrdStatus::Cancelled)
    } else if val == '5' {
        Some(OrdStatus::Replaced)
    } else if val == '6' {
        Some(OrdStatus::PendingCancel)
    } else if val == '7' {
        Some(OrdStatus::Stopped)
    } else if val == '8' {
        Some(OrdStatus::Rejected)
    } else if val == '9' {
        Some(OrdStatus::Suspended)
    } else if val == 'A' {
        Some(OrdStatus::PendingNew)
    } else if val == 'C' {
        Some(OrdStatus::Expired)
    } else if val == 'D' {
        Some(OrdStatus::PendingReplace)
    } else {
        None
    }
}

impl OrdStatus {
    pub fn from_fix(val: char) -> (r: Option<Self>)
        ensures
            r == ord_status_of(val),
    {
        match val {
            '0' => Some(Self::New),
            '1' => Some(Self::PartiallyFilled),
            '2' => Some(Self::Filled),
            '3' => Some(Self::DoneForDay),
            '4' => Some(Self::Cancelled),
            '5' => Some(Self::Replaced),
            '6' => Some(Self::PendingCancel),
            '7' => Some(Self::Stopped),
            '8' => Some(Self::Rejected),
            '9' => Some(Self::Suspended),
            'A' => Some(Self::PendingNew),
            'C' => Some(Self::Expired),
            'D' => Some(Self::PendingReplace),
            _ => None,
        }
    }
}

/// The code the FIX standard assigns to each order status (tag 39).
pub open spec fn ord_status_code(t: OrdStatus) -> char {
    match t {
        OrdStatus::New => '0',
        OrdStatus::PartiallyFilled => '1',
        OrdStatus::Filled => '2',
        OrdStatus::DoneForDay => '3',
        OrdStatus::Cancelled => '4',
        OrdStatus::Replaced => '5',
        OrdStatus::PendingCancel => '6',
        OrdStatus::Stopped => '7',
        OrdStatus::Rejected => '8',
        OrdStatus::Suspended => '9',
        OrdStatus::PendingNew => 'A',
        OrdStatus::Expired => 'C',
        OrdStatus::PendingReplace => 'D',
    }
}

/// A code decodes to an order status exactly when the FIX standard assigns
/// that code to it: decoding is the inverse of the standard's code table, and
/// every other character decodes to nothing.
pub proof fn law_ord_status_code_table(c: char, t: OrdStatus)
    ensures
        (ord_status_of(c) == Some(t)) == (ord_status_code(t) == c),
        ord_status_of(c) is None <==> forall|u: OrdStatus| ord_status_code(u) != c,
{
    if ord_status_of(c) is None {
        assert forall|u: OrdStatus| ord_status_code(u) != c by {
            match u {
                OrdStatus::New => {},
                OrdStatus::PartiallyFilled => {},
                OrdStatus::Filled => {},
                OrdStatus::DoneForDay => {},
                OrdStatus::Cancelled => {},
                OrdStatus::Replaced => {},
                OrdStatus::PendingCancel => {},
                OrdStatus::Stopped => {},
                OrdStatus::Rejected => {},
                OrdStatus::Suspended => {},
                OrdStatus::PendingNew => {},
                OrdStatus::Expired => {},
                OrdStatus::PendingReplace => {},
            }
        }
    } else {
        assert(ord_status_code(ord_status_of(c)->0) == c);
    }
}

/// Market data entry type (tag 269).
#[derive(Clone, Copy, Debug, PartialEq, Eq, Structural)]
pub enum MDEntryType {
    Bid,
    Offer,
    Trade,
    OpeningPrice,
    ClosingPrice,
}

/// The market data entry type a FIX code denotes.
pub open spec fn md_entry_type_of(val: char) -> Option<MDEntryType> {
    if val == '0' {
        Some(MDEntryType::Bid)
    } else if val == '1' {
        Some(MDEntryType::Offer)
    } else if val == '2' {
        Some(MDEntryType::Trade)
    } else if val == '4' {
        Some(MDEntryType::OpeningPrice)
    } else if val == '5' {
        Some(MDEntryType::ClosingPrice)
    } else {
        None
    }
}

impl MDEntryType {
    pub fn from_fix(val: char) -> (r: Option<Self>)
        ensures
            r == md_entry_type_of(val),
    {
        match val {
            '0' => Some(Self::Bid),
            '1' => Some(Self::Offer),
            '2' => Some(Self::Trade),
            '4' => Some(Self::OpeningPrice),
            '5' => Some(Self::ClosingPrice),
            _ => None,
        }
    }
}

/// The code the FIX standard assigns to each market data entry type (tag 269).
pub open spec fn md_entry_type_code(t: MDEntryType) -> char {
    match t {
        MDEntryType::Bid => '0',
        MDEntryType::Offer => '1',
        MDEntryType::Trade => '2',
        MDEntryType::OpeningPrice => '4',
        MDEntryType::ClosingPrice => '5',
    }
}

/// A code decodes to a market data entry type exactly when the FIX standard assigns
/// that code to it: decoding is the inverse of the standard's code table, and
/// every other character decodes to nothing.
pub proof fn law_md_entry_type_code_table(c: char, t: MDEntryType)
    ensures
        (md_entry_type_of(c) == Some(t)) == (md_entry_type_code(t) == c),
        md_entry_type_of(c) is None <==> forall|u: MDEntryType| md_entry_type_code(u) != c,
{
    if md_entry_type_of(c) is None {
        assert forall|u: MDEntryType| md_entry_type_code(u) != c by {
            match u {
                MDEntryType::Bid => {},
                MDEntryType::Offer => {},
                MDEntryType::Trade => {},
                MDEntryType::OpeningPrice => {},
                MDEntryType::ClosingPrice => {},
            }
        }
    } else {
        assert(md_entry_type_code(md_entry_type_of(c)->0) == c);
    }
}

/// Message type (tag 35).
#[derive(Clone, Debug, PartialEq)]
pub enum MsgType {
    Heartbeat,
    TestRequest,
    ResendRequest,
    Reject,
    SequenceReset,
    Logout,
    Logon,
    NewOrderSingle,
    ExecutionReport,
    OrderCancelRequest,
    OrderCancelReject,
    MarketDataRequest,
    MarketDataSnapshot,
    MarketDataIncremental,
    Unknown(String),
}

/// Abstract message type: `Unknown` carries the code's characters.
pub enum MsgKind {
    Heartbeat,
    TestRequest,
    ResendRequest,
    Reject,
    SequenceReset,
    Logout,
    Logon,
    NewOrderSingle,
    ExecutionReport,
    OrderCancelRequest,
    OrderCancelReject,
    MarketDataRequest,
    MarketDataSnapshot,
    MarketDataIncremental,
    Unknown(Seq<char>),
}

impl View for MsgType {
    type V = MsgKind;

    open spec fn view(&self) -> MsgKind {
        match self {
            MsgType::Heartbeat => MsgKind::Heartbeat,
            MsgType::TestRequest => MsgKind::TestRequest,
            MsgType::ResendRequest => MsgKind::ResendRequest,
            MsgType::Reject => MsgKind::Reject,
            MsgType::SequenceReset => MsgKind::SequenceReset,
            MsgType::Logout => MsgKind::Logout,
            MsgType::Logon => MsgKind::Logon,
            MsgType::NewOrderSingle => MsgKind::NewOrderSingle,
            MsgType::ExecutionReport => MsgKind::ExecutionReport,
            MsgType::OrderCancelRequest => MsgKind::OrderCancelRequest,
            MsgType::OrderCancelReject => MsgKind::OrderCancelReject,
            MsgType::MarketDataRequest => MsgKind::MarketDataRequest,
            MsgType::MarketDataSnapshot => MsgKind::MarketDataSnapshot,
            MsgType::MarketDataIncremental => MsgKind::MarketDataIncremental,
            MsgType::Unknown(s) => MsgKind::Unknown(s@),
        }
    }
}

/// The named message type whose one-character FIX code is `c`, if any.
pub open spec fn msg_kind_of_char(c: char) -> Option<MsgKind> {
    if c == '0' {
        Some(MsgKind::Heartbeat)
    } else if c == '1' {
        Some(MsgKind::TestRequest)
    } else if c == '2' {
        Some(MsgKind::ResendRequest)
    } else if c == '3' {
        Some(MsgKind::Reject)
    } else if c == '4' {
        Some(MsgKind::SequenceReset)
    } else if c == '5' {
        Some(MsgKind::Logout)
    } else if c == 'A' {
        Some(MsgKind::Logon)
    } else if c == 'D' {
        Some(MsgKind::NewOrderSingle)
    } else if c == '8' {
        Some(MsgKind::ExecutionReport)
    } else if c == 'F' {
        Some(MsgKind::OrderCancelRequest)
    } else if c == '9' {
        Some(MsgKind::OrderCancelReject)
    } else if c == 'V' {
        Some(MsgKind::MarketDataRequest)
    } else if c == 'W' {
        Some(MsgKind::MarketDataSnapshot)
    } else if c == 'X' {
        Some(MsgKind::MarketDataIncremental)
    } else {
        None
    }
}

/// The message type a FIX code denotes.
pub open spec fn msg_kind_of(val: Seq<char>) -> MsgKind {
    if val.len() == 1 && msg_kind_of_char(val[0]) is Some {
        msg_kind_of_char(val[0])->0
    } else {
        MsgKind::Unknown(val)
    }
}

/// The FIX code of a message type.
pub open spec fn msg_kind_code(k: MsgKind) -> Seq<char> {
    match k {
        MsgKind::Heartbeat => seq!['0'],
        MsgKind::TestRequest => seq!['1'],
        MsgKind::ResendRequest => seq!['2'],
        MsgKind::Reject => seq!['3'],
        MsgKind::SequenceReset => seq!['4'],
        MsgKind::Logout => seq!['5'],
        MsgKind::Logon => seq!['A'],
        MsgKind::NewOrderSingle => seq!['D'],
        MsgKind::ExecutionReport => seq!['8'],
        MsgKind::OrderCancelRequest => seq!['F'],
        MsgKind::OrderCancelReject => seq!['9'],
        MsgKind::MarketDataRequest => seq!['V'],
        MsgKind::MarketDataSnapshot => seq!['W'],
        MsgKind::MarketDataIncremental => seq!['X'],
        MsgKind::Unknown(s) => s,
    }
}

/// Whether `val` is the code of one of the named message types.
pub open spec fn is_known_msg_code(val: Seq<char>) -> bool {
    !(msg_kind_of(val) is Unknown)
}

fn single_char(s: &[char]) -> (r: Option<char>)
    ensures
        r matches Some(c) ==> s@ == seq![c],
        r is None ==> s@.len() != 1,
{
    if s.len() == 1 {
        assert(s@ =~= seq![s@[0]]);
        Some(s[0])
    } else {
        None
    }
}

impl MsgType {
    pub fn from_fix(val: &str) -> (r: Self)
        ensures
            r@ == msg_kind_of(val@),
    {
        let v = chars_of(val);
        match single_char(v.as_slice()) {
            Some(c) => {
                match c {
                    '0' => Self::Heartbeat,
                    '1' => Self::TestRequest,
                    '2' => Self::ResendRequest,
                    '3' => Self::Reject,
                    '4' => Self::SequenceReset,
                    '5' => Self::Logout,
                    'A' => Self::Logon,
                    'D' => Self::NewOrderSingle,
                    '8' => Self::ExecutionReport,
                    'F' => Self::OrderCancelRequest,
                    '9' => Self::OrderCancelReject,
                    'V' => Self::MarketDataRequest,
                    'W' => Self::MarketDataSnapshot,
                    'X' => Self::MarketDataIncremental,
                    _ => Self::Unknown(val.to_owned()),
                }
            },
            None => Self::Unknown(val.to_owned()),
        }
    }

    pub fn to_fix(&self) -> (r: std::borrow::Cow<'static, str>)
        ensures
            r@ == msg_kind_code(self@),
    {
        let code: &'static str = match self {
            Self::Heartbeat => "0",
            Self::TestRequest => "1",
            Self::ResendRequest => "2",
            Self::Reject => "3",
            Self::SequenceReset => "4",
            Self::Logout => "5",
            Self::Logon => "A",
            Self::NewOrderSingle => "D",
            Self::ExecutionReport => "8",
            Self::OrderCancelRequest => "F",
            Self::OrderCancelReject => "9",
            Self::MarketDataRequest => "V",
            Self::MarketDataSnapshot => "W",
            Self::MarketDataIncremental => "X",
            Self::Unknown(s) => {
                return std::borrow::Cow::Owned(s.clone());
            },
        };
        proof {
            reveal_strlit("0");
            reveal_strlit("1");
            reveal_strlit("2");
            reveal_strlit("3");
            reveal_strlit("4");
            reveal_strlit("5");
            reveal_strlit("A");
            reveal_strlit("D");
            reveal_strlit("8");
            reveal_strlit("F");
            reveal_strlit("9");
            reveal_strlit("V");
            reveal_strlit("W");
            reveal_strlit("X");
        }
        std::borrow::Cow::Borrowed(code)
    }
}

/// Reading back the code of a message type gives the message type, for every
/// named type and for every unknown code that is not one of the named codes.
pub proof fn law_msg_type_code_roundtrip(k: MsgKind)
    requires
        k matches MsgKind::Unknown(s) ==> !is_known_msg_code(s),
    ensures
        msg_kind_of(msg_kind_code(k)) == k,
{
    match k {
        MsgKind::Unknown(s) => {},
        _ => {
            let c = msg_kind_code(k);
            assert(c.len() == 1);
        },
    }
}

} // verus!
