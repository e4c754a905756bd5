//! FIX message parsing and serialization.
//!
//! A FIX message is a sequence of tag=value fields delimited by SOH (`\x01`).
//! The last field is always tag 10 (CheckSum).
use std::collections::HashMap;
use vstd::prelude::*;

use crate::fix::error::Error;
use crate::fix::tags;
use crate::fix::types::{msg_kind_of, MsgType};
use crate::text::{
    chars_of, decimal, find_char, first_index_of, last_index_of, pad3, pad3_chars, parse_u32, parse_u64,
    parse_unsigned, push_all, push_decimal, rfind_char, starts_with, string_from_chars, sub_chars,
};
use vstd::utf8::encode_utf8;

verus! {

broadcast use vstd::std_specs::hash::group_hash_axioms;

/// The field delimiter, SOH.
pub const SOH: char = '\x01';

/// A field as the specifications see it: its tag and the characters of its value.
pub type FieldView = (u32, Seq<char>);

/// The fields of a message, with each value taken by its characters.
pub open spec fn fields_view(f: Seq<(u32, String)>) -> Seq<FieldView> {
    Seq::new(f.len(), |i: int| (f[i].0, f[i].1@))
}

/// `i` is the position of the last field tagged `tag`.
pub open spec fn is_last_index(fs: Seq<FieldView>, tag: u32, i: int) -> bool {
    &&& 0 <= i < fs.len()
    &&& fs[i].0 == tag
    &&& forall|j: int| i < j < fs.len() ==> fs[j].0 != tag
}

/// `index` maps every tag present in `fs` to the position of its last field,
/// and nothing else.
pub open spec fn indexes_last(index: Map<u32, usize>, fs: Seq<FieldView>) -> bool {
    &&& forall|t: u32| #[trigger] index.contains_key(t) ==> is_last_index(fs, t, index[t] as int)
    &&& forall|i: int| 0 <= i < fs.len() ==> index.contains_key(#[trigger] fs[i].0)
}

/// The value of the last field tagged `tag`, if any.
pub open spec fn field_value(fs: Seq<FieldView>, tag: u32) -> Option<Seq<char>> {
    if exists|i: int| is_last_index(fs, tag, i) {
        Some(fs[choose|i: int| is_last_index(fs, tag, i)].1)
    } else {
        None
    }
}

/// `raw` without its trailing SOH characters (`trim_end_matches('\x01')`).
pub open spec fn trim_end_soh(raw: Seq<char>) -> Seq<char>
    decreases raw.len(),
{
    if raw.len() > 0 && raw.last() == SOH {
        trim_end_soh(raw.drop_last())
    } else {
        raw
    }
}

/// The pieces of `s` between SOH characters (`split('\x01')`): always at least one.
pub open spec fn split_soh(s: Seq<char>) -> Seq<Seq<char>>
    decreases s.len(),
{
    if s.len() == 0 {
        seq![Seq::<char>::empty()]
    } else {
        let p = split_soh(s.drop_last());
        if s.last() == SOH {
            p.push(Seq::<char>::empty())
        } else {
            p.update(p.len() - 1, p.last().push(s.last()))
        }
    }
}

/// One `tag=value` piece read as a field, or the text of the parse error.
pub open spec fn parse_field(pair: Seq<char>) -> Result<FieldView, Seq<char>> {
    let eq = first_index_of(pair, '=');
    let tag_text = match eq {
        Some(k) => pair.subrange(0, k),
        None => pair,
    };
    match parse_unsigned(tag_text, u32::MAX as nat) {
        None => Err("invalid tag: "@ + pair),
        Some(t) => match eq {
            None => Err("missing value for tag "@ + decimal(t)),
            Some(k) => Ok((t as u32, pair.subrange(k + 1, pair.len() as int))),
        },
    }
}

/// The pieces read as fields, stopping at the first piece that fails.
pub open spec fn parse_fields(pairs: Seq<Seq<char>>) -> Result<Seq<FieldView>, Seq<char>>
    decreases pairs.len(),
{
    if pairs.len() == 0 {
        Ok(Seq::<FieldView>::empty())
    } else {
        match parse_fields(pairs.drop_last()) {
            Err(e) => Err(e),
            Ok(fs) => match parse_field(pairs.last()) {
                Err(e) => Err(e),
                Ok(f) => Ok(fs.push(f)),
            },
        }
    }
}

/// The fields a raw FIX string holds, or the text of the parse error.
pub open spec fn parse_message(raw: Seq<char>) -> Result<Seq<FieldView>, Seq<char>> {
    parse_fields(split_soh(trim_end_soh(raw)))
}

/// Sum of the byte values.
pub open spec fn byte_sum(b: Seq<u8>) -> nat
    decreases b.len(),
{
    if b.len() == 0 {
        0
    } else {
        byte_sum(b.drop_last()) + b.last() as nat
    }
}

/// The FIX checksum of some bytes: their sum modulo 256.
pub open spec fn checksum(b: Seq<u8>) -> nat {
    byte_sum(b) % 256
}

pub proof fn lemma_split_nonempty(s: Seq<char>)
    ensures
        split_soh(s).len() >= 1,
    decreases s.len(),
{
    if s.len() > 0 {
        lemma_split_nonempty(s.drop_last());
    }
}

/// The text of one field: `tag=value` followed by SOH.
pub open spec fn field_text(f: FieldView) -> Seq<char> {
    decimal(f.0 as nat) + seq!['='] + f.1 + seq![SOH]
}

/// The text of a field list: the fields' texts in order.
pub open spec fn serialize_fields(fs: Seq<FieldView>) -> Seq<char>
    decreases fs.len(),
{
    if fs.len() == 0 {
        Seq::<char>::empty()
    } else {
        serialize_fields(fs.drop_last()) + field_text(fs.last())
    }
}

/// Whether some field of `fs` has tag `tag`.
pub open spec fn has_tag(fs: Seq<FieldView>, tag: u32) -> bool {
    exists|i: int| 0 <= i < fs.len() && fs[i].0 == tag
}

/// The fields that BodyLength counts: those after the first BodyLength (9)
/// field and before the trailer, that is, all that follow the first tag 9
/// other than BodyLength and CheckSum (10).
pub open spec fn body_fields(fs: Seq<FieldView>) -> Seq<FieldView>
    decreases fs.len(),
{
    if fs.len() == 0 {
        Seq::<FieldView>::empty()
    } else {
        let p = body_fields(fs.drop_last());
        if fs.last().0 == 9 || fs.last().0 == 10 || !has_tag(fs.drop_last(), 9) {
            p
        } else {
            p.push(fs.last())
        }
    }
}

/// The fields before the trailer: CheckSum dropped, BodyLength's value replaced by `len`.
pub open spec fn head_fields(fs: Seq<FieldView>, len: Seq<char>) -> Seq<FieldView>
    decreases fs.len(),
{
    if fs.len() == 0 {
        Seq::<FieldView>::empty()
    } else {
        let p = head_fields(fs.drop_last(), len);
        if fs.last().0 == 10 {
            p
        } else if fs.last().0 == 9 {
            p.push((9u32, len))
        } else {
            p.push(fs.last())
        }
    }
}

/// The field list that encoding writes: the head fields, with BodyLength set to
/// the byte length of the body, followed by CheckSum over the head's bytes.
pub open spec fn encoded_fields(fs: Seq<FieldView>) -> Seq<FieldView> {
    let body = serialize_fields(body_fields(fs));
    let head = head_fields(fs, decimal(encode_utf8(body).len()));
    head.push((10u32, pad3(checksum(encode_utf8(serialize_fields(head))))))
}

/// The text that encoding writes.
pub open spec fn encode_message(fs: Seq<FieldView>) -> Seq<char> {
    serialize_fields(encoded_fields(fs))
}

/// What checksum validation answers for a raw string: whether the value of the
/// trailing tag 10 equals the checksum of what precedes its SOH, or the text of
/// the parse error.
pub open spec fn validate_message(raw: Seq<char>) -> Result<bool, Seq<char>> {
    let msg = trim_end_soh(raw);
    let last = match last_index_of(msg, SOH) {
        Some(i) => i,
        None => 0,
    };
    let field = msg.subrange(last, msg.len() as int);
    let with_soh = starts_with(field, seq![SOH, '1', '0', '=']);
    if !with_soh && !starts_with(field, seq!['1', '0', '=']) {
        Err("missing checksum field"@)
    } else {
        let body = if with_soh { msg.subrange(0, last) } else { Seq::<char>::empty() };
        let eq = last_index_of(field, '=')->0;
        match parse_unsigned(field.subrange(eq + 1, field.len() as int), u32::MAX as nat) {
            None => Err("invalid checksum value"@),
            Some(actual) => Ok(checksum(encode_utf8(body)) == actual),
        }
    }
}

/// An error in some prefix of the pieces is the error of the whole.
pub proof fn lemma_parse_fields_err_prefix(all: Seq<Seq<char>>, j: int)
    requires
        0 <= j <= all.len(),
        parse_fields(all.take(j)) is Err,
    ensures
        parse_fields(all) == parse_fields(all.take(j)),
    decreases all.len() - j,
{
    if j < all.len() {
        assert(all.take(j + 1).drop_last() =~= all.take(j));
        lemma_parse_fields_err_prefix(all, j + 1);
    } else {
        assert(all.take(j) =~= all);
    }
}

/// Recording one more field keeps the index pointing at the last occurrences.
pub proof fn lemma_indexes_last_push(idx: Map<u32, usize>, fs: Seq<FieldView>, tag: u32, v: Seq<char>)
    requires
        indexes_last(idx, fs),
        fs.len() <= usize::MAX,
    ensures
        indexes_last(idx.insert(tag, fs.len() as usize), fs.push((tag, v))),
{
    let nfs = fs.push((tag, v));
    let nidx = idx.insert(tag, fs.len() as usize);
    assert forall|t: u32| #[trigger] nidx.contains_key(t) implies is_last_index(nfs, t, nidx[t] as int) by {
        if t != tag {
            assert(is_last_index(fs, t, idx[t] as int));
        }
    }
    assert forall|i: int| 0 <= i < nfs.len() implies nidx.contains_key(#[trigger] nfs[i].0) by {
        if i < fs.len() {
            assert(nfs[i] == fs[i]);
            assert(idx.contains_key(fs[i].0));
        }
    }
}

fn push_field(out: &mut Vec<char>, tag: u32, value: &[char])
    ensures
        final(out)@ == old(out)@ + field_text((tag, value@)),
{
    push_decimal(out, tag as u64);
    out.push('=');
    push_all(out, value);
    out.push(SOH);
    assert(final(out)@ =~= old(out)@ + field_text((tag, value@)));
}

fn has_prefix(s: &[char], p: &[char]) -> (b: bool)
    ensures
        b == starts_with(s@, p@),
{
    if p.len() > s.len() {
        return false;
    }
    let mut i: usize = 0;
    while i < p.len()
        invariant
            p.len() <= s.len(),
            i <= p.len(),
            forall|k: int| 0 <= k < i ==> s@[k] == p@[k],
        decreases p.len() - i,
    {
        if s[i] != p[i] {
            assert(s@.subrange(0, p@.len() as int)[i as int] != p@[i as int]);
            return false;
        }
        i = i + 1;
    }
    assert(s@.subrange(0, p@.len() as int) =~= p@);
    true
}

proof fn lemma_last_index_unique(fs: Seq<FieldView>, tag: u32, i: int, j: int)
    requires
        is_last_index(fs, tag, i),
        is_last_index(fs, tag, j),
    ensures
        i == j,
{
    if i < j {
        assert(fs[j].0 != tag);
    } else if j < i {
        assert(fs[i].0 != tag);
    }
}

/// Compute the FIX checksum: sum of all bytes modulo 256.
pub fn compute_checksum(body: &[u8]) -> (r: u32)
    ensures
        r as nat == checksum(body@),
        r < 256,
{
    let mut acc: u32 = 0;
    let mut i: usize = 0;
    while i < body.len()
        invariant
            i <= body.len(),
            acc as nat == byte_sum(body@.take(i as int)) % 256,
            acc < 256,
        decreases body.len() - i,
    {
        assert(body@.take(i + 1).drop_last() =~= body@.take(i as int));
        acc = (acc + body[i] as u32) % 256;
        i = i + 1;
    }
    assert(body@.take(i as int) =~= body@);
    acc
}

/// Build a new FIX message from a list of tag-value pairs.
/// BodyLength and CheckSum are computed when the message is encoded.
pub fn build_message(fields: Vec<(u32, String)>) -> (m: Message)
    ensures
        m.field_seq() == fields_view(fields@),
        m.wf(),
        m.raw@ == Seq::<char>::empty(),
{
    let mut index: HashMap<u32, usize> = HashMap::new();
    let mut i: usize = 0;
    assert(fields_view(fields@).take(0) =~= Seq::<FieldView>::empty());
    while i < fields.len()
        invariant
            i <= fields.len(),
            indexes_last(index@, fields_view(fields@).take(i as int)),
        decreases fields.len() - i,
    {
        let ghost old_index = index@;
        proof {
            lemma_indexes_last_push(old_index, fields_view(fields@).take(i as int), fields@[i as int].0, fields@[i as int].1@);
            assert(fields_view(fields@).take(i + 1) =~= fields_view(fields@).take(i as int).push((fields@[i as int].0, fields@[i as int].1@)));
        }
        index.insert(fields[i].0, i);
        i = i + 1;
    }
    assert(fields_view(fields@).take(i as int) =~= fields_view(fields@));
    Message { fields, index, raw: String::new() }
}

/// Validate that the tag 10 checksum matches the message body.
pub fn validate_checksum(raw: &str) -> (r: Result<bool, Error>)
    ensures
        match r {
            Ok(b) => validate_message(raw@) == Ok::<bool, Seq<char>>(b),
            Err(e) => validate_message(raw@) matches Err(text) && e matches Error::Parse(s) && s@ == text,
        },
{
    let chars = chars_of(raw);
    let mut n = chars.len();
    assert(chars@.take(n as int) =~= chars@);
    while n > 0 && chars[n - 1] == SOH
        invariant
            n <= chars.len(),
            trim_end_soh(chars@) == trim_end_soh(chars@.take(n as int)),
        decreases n,
    {
        assert(chars@.take(n as int).drop_last() =~= chars@.take(n - 1));
        n = n - 1;
    }
    let msg = sub_chars(chars.as_slice(), 0, n);
    assert(msg@ =~= chars@.take(n as int));
    assert(trim_end_soh(msg@) == msg@);
    let last = match rfind_char(msg.as_slice(), SOH) {
        Some(i) => i,
        None => 0,
    };
    let field = sub_chars(msg.as_slice(), last, msg.len());
    let p1 = chars_of("\x0110=");
    let p2 = chars_of("10=");
    proof {
        reveal_strlit("\x0110=");
        reveal_strlit("10=");
        assert(p1@ =~= seq![SOH, '1', '0', '=']);
        assert(p2@ =~= seq!['1', '0', '=']);
    }
    let with_soh = has_prefix(field.as_slice(), p1.as_slice());
    if !with_soh && !has_prefix(field.as_slice(), p2.as_slice()) {
        return Err(Error::Parse(error_text("missing checksum field", &[])));
    }
    let body = if with_soh { sub_chars(msg.as_slice(), 0, last) } else { Vec::new() };
    let body_text = string_from_chars(body.as_slice());
    let expected = compute_checksum(body_text.as_str().as_bytes());
    proof {
        if with_soh {
            assert(field@.subrange(0, 4)[3] == '=');
        } else {
            assert(field@.subrange(0, 3)[2] == '=');
        }
    }
    let eq = match rfind_char(field.as_slice(), '=') {
        Some(i) => i,
        None => {
            proof {
                if with_soh {
                    assert(field@[3] == '=');
                } else {
                    assert(field@[2] == '=');
                }
            }
            return Err(Error::Parse(error_text("missing checksum field", &[])));
        },
    };
    let digits = sub_chars(field.as_slice(), eq + 1, field.len());
    match parse_u32(digits.as_slice()) {
        None => Err(Error::Parse(error_text("invalid checksum value", &[]))),
        Some(actual) => Ok(expected == actual),
    }
}

/// A parsed FIX message.
#[derive(Clone, Debug)]
pub struct Message {
    /// Raw tag-value pairs in order of appearance.
    pub fields: Vec<(u32, String)>,
    /// Position of the last field with each tag, for constant-time lookup.
    pub index: HashMap<u32, usize>,
    /// The raw text the message was parsed from (empty for built messages).
    pub raw: String,
}

spec fn pieces_view(p: Seq<Vec<char>>) -> Seq<Seq<char>> {
    Seq::new(p.len(), |i: int| p[i]@)
}

fn error_text(prefix: &str, tail: &[char]) -> (s: String)
    ensures
        s@ == prefix@ + tail@,
{
    let mut v = chars_of(prefix);
    push_all(&mut v, tail);
    string_from_chars(v.as_slice())
}

#[verifier::rlimit(40)]
fn parse_field_exec(pair: &[char]) -> (r: Result<(u32, String), String>)
    ensures
        match r {
            Ok(f) => parse_field(pair@) == Ok::<FieldView, Seq<char>>((f.0, f.1@)),
            Err(e) => parse_field(pair@) == Err::<FieldView, Seq<char>>(e@),
        },
{
    let eq = find_char(pair, '=');
    let ghost eqs = first_index_of(pair@, '=');
    let tag_text = match eq {
        Some(k) => sub_chars(pair, 0, k),
        None => sub_chars(pair, 0, pair.len()),
    };
    assert(pair@.subrange(0, pair@.len() as int) =~= pair@);
    match parse_u32(tag_text.as_slice()) {
        None => Err(error_text("invalid tag: ", pair)),
        Some(t) => match eq {
            None => {
                let mut v = chars_of("missing value for tag ");
                push_decimal(&mut v, t as u64);
                Err(string_from_chars(v.as_slice()))
            },
            Some(k) => {
                let value = sub_chars(pair, k + 1, pair.len());
                Ok((t, string_from_chars(value.as_slice())))
            },
        },
    }
}

impl Message {
    /// The fields, each value taken by its characters.
    pub open spec fn field_seq(&self) -> Seq<FieldView> {
        fields_view(self.fields@)
    }

    /// The lookup index is consistent with the fields.
    pub open spec fn wf(&self) -> bool {
        indexes_last(self.index@, self.field_seq())
    }

    /// Get a field value by tag number: the value of the last field with that tag.
    pub fn get(&self, tag: u32) -> (r: Option<&str>)
        requires
            self.wf(),
        ensures
            match r {
                Some(v) => field_value(self.field_seq(), tag) == Some(v@),
                None => field_value(self.field_seq(), tag) is None,
            },
    {
        match self.index.get(&tag) {
            Some(i) => {
                let i = *i;
                proof {
                    assert(is_last_index(self.field_seq(), tag, i as int));
                    let w = choose|j: int| is_last_index(self.field_seq(), tag, j);
                    lemma_last_index_unique(self.field_seq(), tag, i as int, w);
                }
                Some(self.fields[i].1.as_str())
            },
            None => {
                proof {
                    assert forall|j: int| !is_last_index(self.field_seq(), tag, j) by {
                        if is_last_index(self.field_seq(), tag, j) {
                            assert(self.index@.contains_key(self.field_seq()[j].0));
                        }
                    }
                }
                None
            },
        }
    }

    /// Get the MsgType (tag 35).
    pub fn msg_type(&self) -> (r: Option<MsgType>)
        requires
            self.wf(),
        ensures
            match r {
                Some(t) => field_value(self.field_seq(), tags::MSG_TYPE) matches Some(v) && t@ == msg_kind_of(v),
                None => field_value(self.field_seq(), tags::MSG_TYPE) is None,
            },
    {
        match self.get(tags::MSG_TYPE) {
            Some(v) => Some(MsgType::from_fix(v)),
            None => None,
        }
    }

    /// Get the MsgSeqNum (tag 34).
    pub fn seq_num(&self) -> (r: Option<u64>)
        requires
            self.wf(),
        ensures
            match r {
                Some(n) => field_value(self.field_seq(), tags::MSG_SEQ_NUM) matches Some(v)
                    && parse_unsigned(v, u64::MAX as nat) == Some(n as nat),
                None => match field_value(self.field_seq(), tags::MSG_SEQ_NUM) {
                    Some(v) => parse_unsigned(v, u64::MAX as nat) is None,
                    None => true,
                },
            },
    {
        match self.get(tags::MSG_SEQ_NUM) {
            Some(v) => {
                let c = chars_of(v);
                parse_u64(c.as_slice())
            },
            None => None,
        }
    }

    /// Get SenderCompID (tag 49).
    pub fn sender(&self) -> (r: Option<&str>)
        requires
            self.wf(),
        ensures
            match r {
                Some(v) => field_value(self.field_seq(), tags::SENDER_COMP_ID) == Some(v@),
                None => field_value(self.field_seq(), tags::SENDER_COMP_ID) is None,
            },
    {
        self.get(tags::SENDER_COMP_ID)
    }

    /// Get TargetCompID (tag 56).
    pub fn target(&self) -> (r: Option<&str>)
        requires
            self.wf(),
        ensures
            match r {
                Some(v) => field_value(self.field_seq(), tags::TARGET_COMP_ID) == Some(v@),
                None => field_value(self.field_seq(), tags::TARGET_COMP_ID) is None,
            },
    {
        self.get(tags::TARGET_COMP_ID)
    }

    /// BeginString (tag 8).
    pub fn begin_string(&self) -> (r: Option<&str>)
        requires
            self.wf(),
        ensures
            match r {
                Some(v) => field_value(self.field_seq(), tags::BEGIN_STRING) == Some(v@),
                None => field_value(self.field_seq(), tags::BEGIN_STRING) is None,
            },
    {
        self.get(tags::BEGIN_STRING)
    }

    /// Serialize this message back to a raw FIX string.
    ///
    /// Recalculates BodyLength (tag 9): the number of bytes after the
    /// BodyLength field and before CheckSum; and CheckSum (tag 10): the byte
    /// sum modulo 256 of everything before it.
    pub fn encode(&self) -> (s: String)
        ensures
            s@ == encode_message(self.field_seq()),
    {
        let ghost fs = self.field_seq();
        let mut buf: Vec<char> = Vec::new();
        let mut seen_length = false;
        let mut i: usize = 0;
        assert(fs.take(0) =~= Seq::<FieldView>::empty());
        while i < self.fields.len()
            invariant
                i <= self.fields.len(),
                fs == self.field_seq(),
                buf@ == serialize_fields(body_fields(fs.take(i as int))),
                seen_length == has_tag(fs.take(i as int), 9),
            decreases self.fields.len() - i,
        {
            assert(fs.take(i + 1).drop_last() =~= fs.take(i as int));
            let tag = self.fields[i].0;
            assert(fs.take(i + 1).last() == fs[i as int]);
            assert(fs[i as int] == (tag, self.fields@[i as int].1@));
            let ghost prev = body_fields(fs.take(i as int));
            if tag != tags::BODY_LENGTH && tag != tags::CHECK_SUM && seen_length {
                let value = chars_of(self.fields[i].1.as_str());
                push_field(&mut buf, tag, value.as_slice());
                assert(prev.push(fs[i as int]).drop_last() =~= prev);
            }
            proof {
                let t0 = fs.take(i as int);
                let t1 = fs.take(i + 1);
                if has_tag(t1, 9) && !has_tag(t0, 9) {
                    let w = choose|w: int| 0 <= w < t1.len() && #[trigger] t1[w].0 == 9;
                    if w < i {
                        assert(t0[w].0 == 9);
                    }
                }
                if has_tag(t0, 9) {
                    let w = choose|w: int| 0 <= w < t0.len() && #[trigger] t0[w].0 == 9;
                    assert(t1[w].0 == 9);
                }
                if tag == tags::BODY_LENGTH {
                    assert(t1[i as int].0 == 9);
                }
            }
            if tag == tags::BODY_LENGTH {
                seen_length = true;
            }
            i = i + 1;
        }
        assert(fs.take(i as int) =~= fs);
        let body_text = string_from_chars(buf.as_slice());
        let body_len = body_text.as_str().as_bytes().len();
        let mut len_chars: Vec<char> = Vec::new();
        push_decimal(&mut len_chars, body_len as u64);
        assert(len_chars@ =~= decimal(encode_utf8(serialize_fields(body_fields(fs))).len()));
        let ghost len = len_chars@;
        let mut msg: Vec<char> = Vec::new();
        let mut j: usize = 0;
        while j < self.fields.len()
            invariant
                j <= self.fields.len(),
                fs == self.field_seq(),
                len_chars@ == len,
                msg@ == serialize_fields(head_fields(fs.take(j as int), len)),
            decreases self.fields.len() - j,
        {
            assert(fs.take(j + 1).drop_last() =~= fs.take(j as int));
            let tag = self.fields[j].0;
            assert(fs.take(j + 1).last() == fs[j as int]);
            assert(fs[j as int] == (tag, self.fields@[j as int].1@));
            let ghost prev = head_fields(fs.take(j as int), len);
            if tag == tags::CHECK_SUM {
            } else if tag == tags::BODY_LENGTH {
                push_field(&mut msg, tags::BODY_LENGTH, len_chars.as_slice());
                assert(prev.push((9u32, len)).drop_last() =~= prev);
            } else {
                let value = chars_of(self.fields[j].1.as_str());
                push_field(&mut msg, tag, value.as_slice());
                assert(prev.push(fs[j as int]).drop_last() =~= prev);
            }
            j = j + 1;
        }
        assert(fs.take(j as int) =~= fs);
        let head_text = string_from_chars(msg.as_slice());
        let check_sum = compute_checksum(head_text.as_str().as_bytes());
        let cs = pad3_chars(check_sum);
        let ghost head = head_fields(fs, len);
        push_field(&mut msg, tags::CHECK_SUM, cs.as_slice());
        assert(head.push((10u32, pad3(checksum(encode_utf8(serialize_fields(head)))))).drop_last() =~= head);
        string_from_chars(msg.as_slice())
    }

    /// A copy of this message with the same fields, index and raw text.
    pub fn copy(&self) -> (m: Message)
        ensures
            m.field_seq() == self.field_seq(),
            m.index@ == self.index@,
            m.raw@ == self.raw@,
    {
        let mut fields: Vec<(u32, String)> = Vec::new();
        let mut i: usize = 0;
        while i < self.fields.len()
            invariant
                i <= self.fields.len(),
                fields_view(fields@) == fields_view(self.fields@).take(i as int),
            decreases self.fields.len() - i,
        {
            let v = self.fields[i].1.clone();
            assert(v@ == self.fields@[i as int].1@);
            let f = (self.fields[i].0, v);
            let ghost old = fields_view(fields@);
            fields.push(f);
            assert(fields_view(fields@) =~= old.push((self.fields@[i as int].0, self.fields@[i as int].1@)));
            assert(fields_view(self.fields@).take(i + 1) =~= fields_view(self.fields@).take(i as int).push((self.fields@[i as int].0, self.fields@[i as int].1@)));
            i = i + 1;
        }
        assert(fields_view(self.fields@).take(i as int) =~= fields_view(self.fields@));
        Message { fields, index: self.index.clone(), raw: self.raw.clone() }
    }

    /// Parse a raw FIX string (with trailing SOH) into a `Message`.
    pub fn parse(raw: &str) -> (r: Result<Self, Error>)
        ensures
            match r {
                Ok(m) => {
                    &&& parse_message(raw@) == Ok::<Seq<FieldView>, Seq<char>>(m.field_seq())
                    &&& m.wf()
                    &&& m.raw@ == raw@
                },
                Err(e) => parse_message(raw@) matches Err(text) && e matches Error::Parse(s)
                    && s@ == text,
            },
    {
        let chars = chars_of(raw);
        // Trailing SOH characters are dropped.
        let mut n = chars.len();
        assert(chars@.take(n as int) =~= chars@);
        while n > 0 && chars[n - 1] == SOH
            invariant
                n <= chars.len(),
                trim_end_soh(chars@) == trim_end_soh(chars@.take(n as int)),
            decreases n,
        {
            assert(chars@.take(n as int).drop_last() =~= chars@.take(n - 1));
            n = n - 1;
        }
        let ghost t = chars@.take(n as int);
        assert(trim_end_soh(t) == t);
        // Split on SOH.
        let mut pieces: Vec<Vec<char>> = Vec::new();
        let mut cur: Vec<char> = Vec::new();
        let mut i: usize = 0;
        while i < n
            invariant
                i <= n <= chars.len(),
                t == chars@.take(n as int),
                pieces_view(pieces@).push(cur@) == split_soh(t.take(i as int)),
            decreases n - i,
        {
            let c = chars[i];
            proof {
                assert(t.take(i + 1).drop_last() =~= t.take(i as int));
                assert(t.take(i + 1).last() == c);
                lemma_split_nonempty(t.take(i as int));
            }
            if c == SOH {
                let ghost old_pv = pieces_view(pieces@);
                pieces.push(cur);
                cur = Vec::new();
                assert(pieces_view(pieces@) =~= old_pv.push(pieces@.last()@));
                assert(pieces_view(pieces@).push(cur@) =~= split_soh(t.take(i + 1)));
            } else {
                let ghost old_cur = cur@;
                cur.push(c);
                assert(pieces_view(pieces@).push(cur@) =~= split_soh(t.take(i + 1)));
            }
            i = i + 1;
        }
        pieces.push(cur);
        assert(t.take(n as int) =~= t);
        let ghost all = split_soh(t);
        assert(pieces_view(pieces@) =~= all);
        // Read each piece as a field.
        let mut fields: Vec<(u32, String)> = Vec::new();
        let mut index: HashMap<u32, usize> = HashMap::new();
        let mut k: usize = 0;
        assert(all.take(0) =~= Seq::<Seq<char>>::empty());
        assert(fields_view(fields@) =~= Seq::<FieldView>::empty());
        while k < pieces.len()
            invariant
                k <= pieces.len(),
                chars@ == raw@,
                trim_end_soh(raw@) == t,
                pieces_view(pieces@) == all,
                all == split_soh(t),
                parse_fields(all.take(k as int)) == Ok::<Seq<FieldView>, Seq<char>>(fields_view(fields@)),
                fields@.len() == k,
                indexes_last(index@, fields_view(fields@)),
            decreases pieces.len() - k,
        {
            assert(all.take(k + 1).drop_last() =~= all.take(k as int));
            assert(all.take(k + 1).last() == pieces@[k as int]@);
            match parse_field_exec(pieces[k].as_slice()) {
                Err(e) => {
                    proof {
                        lemma_parse_fields_err_prefix(all, k + 1);
                    }
                    return Err(Error::Parse(e));
                },
                Ok(f) => {
                    let ghost old_fields = fields_view(fields@);
                    let ghost old_index = index@;
                    let tag = f.0;
                    fields.push(f);
                    index.insert(tag, k);
                    proof {
                        assert(fields_view(fields@) =~= old_fields.push((tag, fields@[k as int].1@)));
                        lemma_indexes_last_push(old_index, old_fields, tag, fields@[k as int].1@);
                    }
                },
            }
            k = k + 1;
        }
        assert(all.take(k as int) =~= all);
        Ok(Message { fields, index, raw: raw.to_owned() })
    }
}

} // verus!

verus! {

/// Whether no value of the fields contains SOH.
pub open spec fn values_free_of_soh(fs: Seq<FieldView>) -> bool {
    forall|i: int, j: int| 0 <= i < fs.len() && 0 <= j < fs[i].1.len() ==> fs[i].1[j] != SOH
}

/// The `tag=value` piece of each field.
pub open spec fn field_pieces(fs: Seq<FieldView>) -> Seq<Seq<char>> {
    Seq::new(fs.len(), |i: int| decimal(fs[i].0 as nat) + seq!['='] + fs[i].1)
}

proof fn lemma_split_append_plain(p: Seq<char>, b: Seq<char>)
    requires
        forall|j: int| 0 <= j < b.len() ==> b[j] != SOH,
    ensures
        split_soh(p + b) == split_soh(p).update(split_soh(p).len() - 1, split_soh(p).last() + b),
    decreases b.len(),
{
    lemma_split_nonempty(p);
    if b.len() == 0 {
        assert(p + b =~= p);
        assert(split_soh(p).last() + b =~= split_soh(p).last());
        assert(split_soh(p).update(split_soh(p).len() - 1, split_soh(p).last()) =~= split_soh(p));
    } else {
        let b0 = b.drop_last();
        lemma_split_append_plain(p, b0);
        assert((p + b).drop_last() =~= p + b0);
        assert((p + b).last() == b.last());
        let q = split_soh(p + b0);
        lemma_split_nonempty(p + b0);
        assert(split_soh(p + b) == q.update(q.len() - 1, q.last().push(b.last())));
        assert(q.last() =~= split_soh(p).last() + b0);
        assert(split_soh(p).last() + b0 + seq![b.last()] =~= split_soh(p).last() + b);
        assert(q.len() == split_soh(p).len());
        assert(q.last().push(b.last()) =~= split_soh(p).last() + b);
        assert(q.update(q.len() - 1, q.last().push(b.last())) =~= split_soh(p).update(
            split_soh(p).len() - 1,
            split_soh(p).last() + b,
        ));
    }
}

proof fn lemma_digits_not_eq(n: nat)
    ensures
        forall|j: int| 0 <= j < decimal(n).len() ==> decimal(n)[j] != '=' && decimal(n)[j] != SOH,
    decreases n,
{
    crate::text::lemma_digit_char(n % 10);
    if n >= 10 {
        lemma_digits_not_eq(n / 10);
        assert forall|j: int| 0 <= j < decimal(n).len() implies decimal(n)[j] != '=' && decimal(n)[j] != SOH by {
            if j < decimal(n / 10).len() {
                assert(decimal(n)[j] == decimal(n / 10)[j]);
            } else {
                assert(decimal(n)[j] == digit_char_of(n % 10));
            }
        }
    } else {
        assert(decimal(n) =~= seq![crate::text::digit_char(n)]);
    }
}

spec fn digit_char_of(d: nat) -> char {
    crate::text::digit_char(d)
}

proof fn lemma_parse_piece(f: FieldView)
    requires
        forall|j: int| 0 <= j < f.1.len() ==> f.1[j] != SOH,
    ensures
        parse_field(decimal(f.0 as nat) + seq!['='] + f.1) == Ok::<FieldView, Seq<char>>(f),
{
    let d = decimal(f.0 as nat);
    let pair = d + seq!['='] + f.1;
    lemma_digits_not_eq(f.0 as nat);
    crate::text::lemma_parse_decimal(f.0 as nat, u32::MAX as nat);
    assert(pair[d.len() as int] == '=');
    assert forall|j: int| 0 <= j < d.len() implies pair[j] != '=' by {
        assert(pair[j] == d[j]);
    }
    crate::text::lemma_first_index_of(pair, '=', d.len() as int);
    assert(first_index_of(pair, '=') == Some(d.len() as int));
    assert(pair.subrange(0, d.len() as int) =~= d);
    assert(pair.subrange(d.len() as int + 1, pair.len() as int) =~= f.1);
}

proof fn lemma_serialize_split(gs: Seq<FieldView>, k: int)
    requires
        0 <= k <= gs.len(),
        values_free_of_soh(gs),
    ensures
        split_soh(serialize_fields(gs.take(k))) == field_pieces(gs.take(k)).push(Seq::<char>::empty()),
        k > 0 ==> split_soh(serialize_fields(gs.take(k)).drop_last()) == field_pieces(gs.take(k)),
        k > 0 ==> serialize_fields(gs.take(k)).len() > 0 && serialize_fields(gs.take(k)).last() == SOH,
        k > 0 ==> serialize_fields(gs.take(k)).drop_last().len() > 0
            && serialize_fields(gs.take(k)).drop_last().last() != SOH,
    decreases k,
{
    if k == 0 {
        assert(gs.take(0) =~= Seq::<FieldView>::empty());
        assert(field_pieces(gs.take(0)).push(Seq::<char>::empty()) =~= seq![Seq::<char>::empty()]);
    } else {
        lemma_serialize_split(gs, k - 1);
        let prev = gs.take(k - 1);
        let g = gs[k - 1];
        assert(gs.take(k).drop_last() =~= prev);
        assert(gs.take(k).last() == g);
        let sp = serialize_fields(prev);
        let piece = decimal(g.0 as nat) + seq!['='] + g.1;
        lemma_digits_not_eq(g.0 as nat);
        assert forall|j: int| 0 <= j < piece.len() implies piece[j] != SOH by {
            if j < decimal(g.0 as nat).len() {
            } else if j > decimal(g.0 as nat).len() {
                assert(piece[j] == g.1[j - decimal(g.0 as nat).len() - 1]);
            }
        }
        assert(field_text(g) =~= piece.push(SOH));
        let s = serialize_fields(gs.take(k));
        assert(s == sp + field_text(g));
        assert(s.drop_last() =~= sp + piece);
        lemma_split_append_plain(sp, piece);
        lemma_split_nonempty(sp);
        assert(split_soh(sp).last() =~= Seq::<char>::empty());
        assert(split_soh(sp + piece) =~= field_pieces(gs.take(k))) by {
            assert(field_pieces(gs.take(k)) =~= field_pieces(prev).push(piece));
        }
        assert(s =~= s.drop_last().push(SOH));
        assert(s.drop_last().last() == piece.last());
    }
}

#[verifier::rlimit(60)]
proof fn lemma_parse_pieces(gs: Seq<FieldView>, k: int)
    requires
        0 <= k <= gs.len(),
        values_free_of_soh(gs),
    ensures
        parse_fields(field_pieces(gs.take(k))) == Ok::<Seq<FieldView>, Seq<char>>(gs.take(k)),
    decreases k,
{
    if k == 0 {
        assert(field_pieces(gs.take(0)) =~= Seq::<Seq<char>>::empty());
        assert(gs.take(0) =~= Seq::<FieldView>::empty());
    } else {
        lemma_parse_pieces(gs, k - 1);
        let ps = field_pieces(gs.take(k));
        let g = gs[k - 1];
        assert(ps.drop_last() =~= field_pieces(gs.take(k - 1)));
        assert(ps.last() == decimal(g.0 as nat) + seq!['='] + g.1);
        assert forall|j: int| 0 <= j < g.1.len() implies #[trigger] g.1[j] != SOH by {}
        lemma_parse_piece(g);
        assert(gs.take(k - 1).push(g) =~= gs.take(k));
        assert(parse_fields(ps) == Ok::<Seq<FieldView>, Seq<char>>(gs.take(k - 1).push(g)));
    }
}

/// Parsing the text of a non-empty field list whose values hold no SOH gives
/// the field list back.
pub proof fn law_parse_inverts_serialize(gs: Seq<FieldView>)
    requires
        gs.len() > 0,
        values_free_of_soh(gs),
    ensures
        parse_message(serialize_fields(gs)) == Ok::<Seq<FieldView>, Seq<char>>(gs),
{
    let n = gs.len() as int;
    assert(gs.take(n) =~= gs);
    lemma_serialize_split(gs, n);
    lemma_parse_pieces(gs, n);
    let s = serialize_fields(gs);
    assert(trim_end_soh(s.drop_last()) == s.drop_last());
    assert(trim_end_soh(s) == trim_end_soh(s.drop_last()));
}

proof fn lemma_head_fields_free(fs: Seq<FieldView>, len: Seq<char>)
    requires
        values_free_of_soh(fs),
        forall|j: int| 0 <= j < len.len() ==> len[j] != SOH,
    ensures
        values_free_of_soh(head_fields(fs, len)),
    decreases fs.len(),
{
    if fs.len() > 0 {
        let p = fs.drop_last();
        assert(values_free_of_soh(p)) by {
            assert forall|i: int, j: int| 0 <= i < p.len() && 0 <= j < p[i].1.len() implies p[i].1[j] != SOH by {
                assert(p[i] == fs[i]);
            }
        }
        lemma_head_fields_free(p, len);
        assert(fs.last() == fs[fs.len() - 1]);
    }
}

/// Parsing what `encode` writes gives back the encoded field list: the fields
/// with CheckSum dropped, BodyLength set to the body's byte length, and a
/// trailing CheckSum field; for every message whose values hold no SOH.
pub proof fn law_parse_inverts_encode(fs: Seq<FieldView>)
    requires
        values_free_of_soh(fs),
    ensures
        parse_message(encode_message(fs)) == Ok::<Seq<FieldView>, Seq<char>>(encoded_fields(fs)),
{
    let body = serialize_fields(body_fields(fs));
    let len = decimal(encode_utf8(body).len());
    lemma_digits_not_eq(encode_utf8(body).len());
    lemma_head_fields_free(fs, len);
    let head = head_fields(fs, len);
    let cs = checksum(encode_utf8(serialize_fields(head)));
    crate::text::lemma_pad3(cs);
    let all = head.push((10u32, pad3(cs)));
    assert(values_free_of_soh(all)) by {
        assert forall|i: int, j: int| 0 <= i < all.len() && 0 <= j < all[i].1.len() implies all[i].1[j] != SOH by {
            if i < head.len() {
                assert(all[i] == head[i]);
            }
        }
    }
    law_parse_inverts_serialize(all);
}

/// A message followed by SOH, `10=` and the three-digit checksum of its bytes
/// passes checksum validation, for every message text.
#[verifier::rlimit(100)]
pub proof fn law_validate_accepts_appended_checksum(body: Seq<char>)
    ensures
        validate_message(
            body + seq![SOH, '1', '0', '='] + pad3(checksum(encode_utf8(body))) + seq![SOH],
        ) == Ok::<bool, Seq<char>>(true),
{
    let cs = checksum(encode_utf8(body));
    crate::text::lemma_pad3(cs);
    let p = pad3(cs);
    let raw = body + seq![SOH, '1', '0', '='] + p + seq![SOH];
    let m = body + seq![SOH, '1', '0', '='] + p;
    let b = body.len() as int;
    assert(raw.drop_last() =~= m);
    assert(m.last() == p[2]);
    assert(trim_end_soh(m) == m);
    assert(trim_end_soh(raw) == m);
    assert forall|j: int| b < j < m.len() implies m[j] != SOH by {
        if j < b + 4 {
        } else {
            assert(m[j] == p[j - b - 4]);
        }
    }
    crate::text::lemma_last_index_of(m, SOH, b);
    let field = m.subrange(b, m.len() as int);
    assert(field =~= seq![SOH, '1', '0', '='] + p);
    assert(field.subrange(0, 4) =~= seq![SOH, '1', '0', '=']);
    assert(starts_with(field, seq![SOH, '1', '0', '=']));
    assert(m.subrange(0, b) =~= body);
    assert forall|j: int| 3 < j < field.len() implies field[j] != '=' by {
        assert(field[j] == p[j - 4]);
    }
    crate::text::lemma_last_index_of(field, '=', 3);
    assert(field.subrange(4, field.len() as int) =~= p);
}

} // verus!
