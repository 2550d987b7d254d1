//! Wire records exchanged between the broker and its child: a 16-bit opcode
//! and a 128-byte payload, laid out as a C struct (tag, six bytes of padding,
//! payload), little-endian.
use vstd::prelude::*;

use crate::priority::as_u64;

verus! {

/// Size of the payload overlay of every record.
pub const DATA_LEN: usize = 128;

/// Offset of the payload within a record: the tag takes two bytes and the
/// payload is aligned to eight.
pub const DATA_OFFSET: usize = 8;

/// Size of one record on the wire.
pub const RECORD_LEN: usize = 136;

/// Index of the byte that a receiver forces to NUL before reading a path.
pub const TEXT_END: usize = 127;

/// `n` zero bytes.
pub open spec fn zeros(n: nat) -> Seq<u8> {
    Seq::new(n, |i: int| 0u8)
}

/// The eight little-endian bytes of `n`.
pub open spec fn le_bytes(n: u64) -> Seq<u8> {
    seq![
        n as u8,
        (n >> 8u64) as u8,
        (n >> 16u64) as u8,
        (n >> 24u64) as u8,
        (n >> 32u64) as u8,
        (n >> 40u64) as u8,
        (n >> 48u64) as u8,
        (n >> 56u64) as u8,
    ]
}

/// The integer whose little-endian bytes start `s`.
pub open spec fn le_value(s: Seq<u8>) -> u64
    recommends
        s.len() >= 8,
{
    (s[0] as u64) | ((s[1] as u64) << 8u64) | ((s[2] as u64) << 16u64) | ((s[3] as u64)
        << 24u64) | ((s[4] as u64) << 32u64) | ((s[5] as u64) << 40u64) | ((s[6] as u64)
        << 48u64) | ((s[7] as u64) << 56u64)
}

/// The payload that carries the unsigned integer `n`.
pub open spec fn u64_payload(n: u64) -> Seq<u8> {
    le_bytes(n) + zeros((DATA_LEN - 8) as nat)
}

/// The payload that carries `text`: as much of it as fits, then zeros.
pub open spec fn text_payload(text: Seq<u8>) -> Seq<u8> {
    if text.len() >= DATA_LEN {
        text.take(DATA_LEN as int)
    } else {
        text + zeros((DATA_LEN - text.len()) as nat)
    }
}

/// Index of the first NUL of `s` at or after `i`, or `s.len()` if there is none.
pub open spec fn nul_from(s: Seq<u8>, i: int) -> int
    decreases s.len() - i,
{
    if i < 0 || i >= s.len() {
        s.len() as int
    } else if s[i] == 0 {
        i
    } else {
        nul_from(s, i + 1)
    }
}

/// The NUL-terminated text at the start of a payload, with its last byte
/// read as NUL whatever it holds.
pub open spec fn payload_text(d: Seq<u8>) -> Seq<u8> {
    let head = d.take(TEXT_END as int);
    head.take(nul_from(head, 0))
}

/// A record's bytes: the tag, little-endian, six zero bytes, the payload.
pub open spec fn record_bytes(code: u16, data: Seq<u8>) -> Seq<u8> {
    seq![code as u8, (code >> 8u16) as u8] + zeros(6) + data
}

/// The tag of a record.
pub open spec fn record_code(b: Seq<u8>) -> u16
    recommends
        b.len() >= 2,
{
    ((b[0] as u16) | ((b[1] as u16) << 8u16)) as u16
}

/// The payload of a record.
pub open spec fn record_data(b: Seq<u8>) -> Seq<u8> {
    b.subrange(DATA_OFFSET as int, RECORD_LEN as int)
}

/// The 128-byte overlay carried by every record. It is read as a
/// NUL-terminated path, a 64-bit unsigned integer, or a boolean, according
/// to the record's type.
#[derive(Clone, Debug, PartialEq, Eq)]
pub struct LoginwData {
    pub bytes: Vec<u8>,
}

impl View for LoginwData {
    type V = Seq<u8>;

    open spec fn view(&self) -> Seq<u8> {
        self.bytes@
    }
}

impl Default for LoginwData {
    fn default() -> (r: LoginwData)
        ensures
            r@ == zeros(DATA_LEN as nat),
    {
        LoginwData { bytes: vec![0u8; DATA_LEN] }
    }
}

impl LoginwData {
    /// A payload holds exactly `DATA_LEN` bytes.
    pub open spec fn wf(&self) -> bool {
        self@.len() == DATA_LEN
    }

    /// The payload that carries `n` in its first eight bytes.
    pub fn from_u64(n: u64) -> (r: LoginwData)
        ensures
            r@ == u64_payload(n),
    {
        let mut bytes: Vec<u8> = vec![
            n as u8,
            (n >> 8u64) as u8,
            (n >> 16u64) as u8,
            (n >> 24u64) as u8,
            (n >> 32u64) as u8,
            (n >> 40u64) as u8,
            (n >> 48u64) as u8,
            (n >> 56u64) as u8,
        ];
        let mut i: usize = 8;
        while i < DATA_LEN
            invariant
                8 <= i <= DATA_LEN,
                bytes@ == le_bytes(n) + zeros((i - 8) as nat),
            decreases DATA_LEN - i,
        {
            bytes.push(0u8);
            i = i + 1;
            assert(bytes@ =~= le_bytes(n) + zeros((i - 8) as nat));
        }
        LoginwData { bytes }
    }

    /// The payload that carries `text`, cut to `DATA_LEN` bytes and padded
    /// with zeros.
    pub fn from_text(text: &[u8]) -> (r: LoginwData)
        ensures
            r@ == text_payload(text@),
    {
        let n: usize = if text.len() < DATA_LEN {
            text.len()
        } else {
            DATA_LEN
        };
        let mut bytes: Vec<u8> = Vec::new();
        let mut i: usize = 0;
        while i < n
            invariant
                n <= text@.len(),
                n <= DATA_LEN,
                n == text@.len() || n == DATA_LEN,
                i <= n,
                bytes@ == text@.take(i as int),
            decreases n - i,
        {
            bytes.push(text[i]);
            i = i + 1;
            assert(bytes@ =~= text@.take(i as int));
        }
        while i < DATA_LEN
            invariant
                n <= i <= DATA_LEN,
                n <= text@.len(),
                n == text@.len() || n == DATA_LEN,
                bytes@ == text@.take(n as int) + zeros((i - n) as nat),
            decreases DATA_LEN - i,
        {
            bytes.push(0u8);
            i = i + 1;
            assert(bytes@ =~= text@.take(n as int) + zeros((i - n) as nat));
        }
        proof {
            if text@.len() >= DATA_LEN {
                assert(bytes@ =~= text_payload(text@));
            } else {
                assert(text@.take(n as int) =~= text@);
            }
        }
        LoginwData { bytes }
    }

    /// The unsigned integer held in the first eight bytes.
    pub fn get_u64(&self) -> (r: u64)
        requires
            self.wf(),
        ensures
            r == le_value(self@),
    {
        let b = &self.bytes;
        as_u64(b[0]) | (as_u64(b[1]) << 8u64) | (as_u64(b[2]) << 16u64) | (as_u64(b[3]) << 24u64)
            | (as_u64(b[4]) << 32u64) | (as_u64(b[5]) << 40u64) | (as_u64(b[6]) << 48u64) | (
        as_u64(b[7]) << 56u64)
    }

    /// The boolean held in the first byte.
    pub fn get_bool(&self) -> (r: bool)
        requires
            self.wf(),
        ensures
            r == (self@[0] != 0),
    {
        self.bytes[0] != 0
    }

    /// The NUL-terminated text at the start of the payload. The last byte is
    /// read as NUL, so the text never runs past it.
    pub fn text(&self) -> (r: Vec<u8>)
        requires
            self.wf(),
        ensures
            r@ == payload_text(self@),
    {
        let ghost head = self@.take(TEXT_END as int);
        let mut r: Vec<u8> = Vec::new();
        let mut i: usize = 0;
        while i < TEXT_END && self.bytes[i] != 0
            invariant
                self.wf(),
                head == self@.take(TEXT_END as int),
                i <= TEXT_END,
                nul_from(head, i as int) == nul_from(head, 0),
                r@ == head.take(i as int),
            decreases TEXT_END - i,
        {
            r.push(self.bytes[i]);
            i = i + 1;
            assert(r@ =~= head.take(i as int));
        }
        proof {
            assert(nul_from(head, i as int) == i as int);
        }
        r
    }
}

/// Opcode of a request from the child.
#[derive(Clone, Copy, Debug, PartialEq, Eq, Structural)]
pub enum LoginwRequestType {
    /// Open an input (evdev) device by full path; answered with its fd.
    LoginwOpenInput,
    /// Open a DRM device by full path; answered with its fd.
    LoginwOpenDrm,
    /// Take a virtual terminal; answered with its number and the tty fd.
    LoginwAcquireVt,
    /// Switch to the virtual terminal whose number the payload holds.
    LoginwSwitchVt,
    /// Shut the machine down.
    LoginwPowerOff,
    /// Reboot the machine.
    LoginwReboot,
    /// Suspend the machine.
    LoginwSuspend,
    /// Hibernate the machine.
    LoginwHibernate,
    /// Ask whether suspending is possible.
    LoginwCanSuspend,
    /// Ask whether hibernating is possible.
    LoginwCanHibernate,
}

impl LoginwRequestType {
    /// The opcode's number on the wire.
    pub open spec fn spec_code(self) -> u16 {
        match self {
            LoginwRequestType::LoginwOpenInput => 0,
            LoginwRequestType::LoginwOpenDrm => 1,
            LoginwRequestType::LoginwAcquireVt => 100,
            LoginwRequestType::LoginwSwitchVt => 101,
            LoginwRequestType::LoginwPowerOff => 200,
            LoginwRequestType::LoginwReboot => 201,
            LoginwRequestType::LoginwSuspend => 202,
            LoginwRequestType::LoginwHibernate => 203,
            LoginwRequestType::LoginwCanSuspend => 302,
            LoginwRequestType::LoginwCanHibernate => 303,
        }
    }

    /// The opcode with number `c`, if there is one.
    pub open spec fn spec_from_code(c: u16) -> Option<LoginwRequestType> {
        if c == 0 {
            Some(LoginwRequestType::LoginwOpenInput)
        } else if c == 1 {
            Some(LoginwRequestType::LoginwOpenDrm)
        } else if c == 100 {
            Some(LoginwRequestType::LoginwAcquireVt)
        } else if c == 101 {
            Some(LoginwRequestType::LoginwSwitchVt)
        } else if c == 200 {
            Some(LoginwRequestType::LoginwPowerOff)
        } else if c == 201 {
            Some(LoginwRequestType::LoginwReboot)
        } else if c == 202 {
            Some(LoginwRequestType::LoginwSuspend)
        } else if c == 203 {
            Some(LoginwRequestType::LoginwHibernate)
        } else if c == 302 {
            Some(LoginwRequestType::LoginwCanSuspend)
        } else if c == 303 {
            Some(LoginwRequestType::LoginwCanHibernate)
        } else {
            None
        }
    }

    pub fn code(self) -> (r: u16)
        ensures
            r == self.spec_code(),
    {
        match self {
            LoginwRequestType::LoginwOpenInput => 0,
            LoginwRequestType::LoginwOpenDrm => 1,
            LoginwRequestType::LoginwAcquireVt => 100,
            LoginwRequestType::LoginwSwitchVt => 101,
            LoginwRequestType::LoginwPowerOff => 200,
            LoginwRequestType::LoginwReboot => 201,
            LoginwRequestType::LoginwSuspend => 202,
            LoginwRequestType::LoginwHibernate => 203,
            LoginwRequestType::LoginwCanSuspend => 302,
            LoginwRequestType::LoginwCanHibernate => 303,
        }
    }

    pub fn from_code(c: u16) -> (r: Option<LoginwRequestType>)
        ensures
            r == Self::spec_from_code(c),
    {
        match c {
            0 => Some(LoginwRequestType::LoginwOpenInput),
            1 => Some(LoginwRequestType::LoginwOpenDrm),
            100 => Some(LoginwRequestType::LoginwAcquireVt),
            101 => Some(LoginwRequestType::LoginwSwitchVt),
            200 => Some(LoginwRequestType::LoginwPowerOff),
            201 => Some(LoginwRequestType::LoginwReboot),
            202 => Some(LoginwRequestType::LoginwSuspend),
            203 => Some(LoginwRequestType::LoginwHibernate),
            302 => Some(LoginwRequestType::LoginwCanSuspend),
            303 => Some(LoginwRequestType::LoginwCanHibernate),
            _ => None,
        }
    }
}

/// Type of a message from the broker: a reply, or an unsolicited notification.
#[derive(Clone, Copy, Debug, PartialEq, Eq, Structural)]
pub enum LoginwResponseType {
    /// The request failed; the payload holds a human-readable reason.
    LoginwError,
    /// The request was carried out.
    LoginwDone,
    /// A file descriptor travels with the message.
    LoginwPassedFd,
    /// Notification: the session owns the display again.
    LoginwActivated,
    /// Notification: the session has lost the display.
    LoginwDeactivated,
}

impl LoginwResponseType {
    /// The type's number on the wire.
    pub open spec fn spec_code(self) -> u16 {
        match self {
            LoginwResponseType::LoginwError => 0,
            LoginwResponseType::LoginwDone => 1,
            LoginwResponseType::LoginwPassedFd => 2,
            LoginwResponseType::LoginwActivated => 100,
            LoginwResponseType::LoginwDeactivated => 101,
        }
    }

    /// The type with number `c`, if there is one.
    pub open spec fn spec_from_code(c: u16) -> Option<LoginwResponseType> {
        if c == 0 {
            Some(LoginwResponseType::LoginwError)
        } else if c == 1 {
            Some(LoginwResponseType::LoginwDone)
        } else if c == 2 {
            Some(LoginwResponseType::LoginwPassedFd)
        } else if c == 100 {
            Some(LoginwResponseType::LoginwActivated)
        } else if c == 101 {
            Some(LoginwResponseType::LoginwDeactivated)
        } else {
            None
        }
    }

    pub fn code(self) -> (r: u16)
        ensures
            r == self.spec_code(),
    {
        match self {
            LoginwResponseType::LoginwError => 0,
            LoginwResponseType::LoginwDone => 1,
            LoginwResponseType::LoginwPassedFd => 2,
            LoginwResponseType::LoginwActivated => 100,
            LoginwResponseType::LoginwDeactivated => 101,
        }
    }

    pub fn from_code(c: u16) -> (r: Option<LoginwResponseType>)
        ensures
            r == Self::spec_from_code(c),
    {
        match c {
            0 => Some(LoginwResponseType::LoginwError),
            1 => Some(LoginwResponseType::LoginwDone),
            2 => Some(LoginwResponseType::LoginwPassedFd),
            100 => Some(LoginwResponseType::LoginwActivated),
            101 => Some(LoginwResponseType::LoginwDeactivated),
            _ => None,
        }
    }
}

/// Writes the record with tag `code` and payload `data` to the wire layout.
fn encode_record(code: u16, data: &LoginwData) -> (r: Vec<u8>)
    requires
        data.wf(),
    ensures
        r@ == record_bytes(code, data@),
{
    let mut r: Vec<u8> = vec![code as u8, (code >> 8u16) as u8, 0u8, 0u8, 0u8, 0u8, 0u8, 0u8];
    assert(r@ =~= seq![code as u8, (code >> 8u16) as u8] + zeros(6));
    let ghost head = r@;
    let mut i: usize = 0;
    while i < DATA_LEN
        invariant
            data.wf(),
            i <= DATA_LEN,
            r@ == head + data@.take(i as int),
        decreases DATA_LEN - i,
    {
        r.push(data.bytes[i]);
        i = i + 1;
        assert(r@ =~= head + data@.take(i as int));
    }
    assert(data@.take(DATA_LEN as int) =~= data@);
    r
}

/// The tag of a record of `RECORD_LEN` bytes.
fn decode_code(b: &[u8]) -> (r: u16)
    requires
        b@.len() == RECORD_LEN,
    ensures
        r == record_code(b@),
{
    ((b[0] as u16) | ((b[1] as u16) << 8u16)) as u16
}

/// The payload of a record of `RECORD_LEN` bytes.
fn decode_data(b: &[u8]) -> (r: LoginwData)
    requires
        b@.len() == RECORD_LEN,
    ensures
        r@ == record_data(b@),
        r.wf(),
{
    let mut bytes: Vec<u8> = Vec::new();
    let mut i: usize = DATA_OFFSET;
    while i < RECORD_LEN
        invariant
            b@.len() == RECORD_LEN,
            DATA_OFFSET <= i <= RECORD_LEN,
            bytes@ == b@.subrange(DATA_OFFSET as int, i as int),
        decreases RECORD_LEN - i,
    {
        bytes.push(b[i]);
        i = i + 1;
        assert(bytes@ =~= b@.subrange(DATA_OFFSET as int, i as int));
    }
    LoginwData { bytes }
}

/// What a received datagram holds, read as a request.
pub open spec fn parse_request(b: Seq<u8>) -> Option<(LoginwRequestType, Seq<u8>)> {
    if b.len() != RECORD_LEN {
        None
    } else {
        match LoginwRequestType::spec_from_code(record_code(b)) {
            Some(t) => Some((t, record_data(b))),
            None => None,
        }
    }
}

/// What a received datagram holds, read as a response.
pub open spec fn parse_response(b: Seq<u8>) -> Option<(LoginwResponseType, Seq<u8>)> {
    if b.len() != RECORD_LEN {
        None
    } else {
        match LoginwResponseType::spec_from_code(record_code(b)) {
            Some(t) => Some((t, record_data(b))),
            None => None,
        }
    }
}

/// A request from the child.
#[derive(Clone, Debug, PartialEq, Eq)]
pub struct LoginwRequest {
    pub typ: LoginwRequestType,
    pub dat: LoginwData,
}

impl View for LoginwRequest {
    type V = (LoginwRequestType, Seq<u8>);

    open spec fn view(&self) -> (LoginwRequestType, Seq<u8>) {
        (self.typ, self.dat@)
    }
}

impl LoginwRequest {
    /// A request of type `typ` with an all-zero payload.
    pub fn new(typ: LoginwRequestType) -> (r: LoginwRequest)
        ensures
            r@ == (typ, zeros(DATA_LEN as nat)),
            r.wf(),
    {
        LoginwRequest { typ, dat: LoginwData::default() }
    }

    pub open spec fn wf(&self) -> bool {
        self.dat.wf()
    }

    /// The request in its wire layout.
    pub fn to_bytes(&self) -> (r: Vec<u8>)
        requires
            self.wf(),
        ensures
            r@ == record_bytes(self.typ.spec_code(), self.dat@),
    {
        encode_record(self.typ.code(), &self.dat)
    }

    /// The request that a datagram holds: `None` where its length is not
    /// `RECORD_LEN` or its tag names no opcode.
    pub fn from_bytes(b: &[u8]) -> (r: Option<LoginwRequest>)
        ensures
            r is None <==> parse_request(b@) is None,
            r matches Some(q) ==> q.wf() && parse_request(b@) == Some(q@),
    {
        if b.len() != RECORD_LEN {
            return None;
        }
        match LoginwRequestType::from_code(decode_code(b)) {
            Some(typ) => Some(LoginwRequest { typ, dat: decode_data(b) }),
            None => None,
        }
    }
}

/// A reply or notification from the broker.
#[derive(Clone, Debug, PartialEq, Eq)]
pub struct LoginwResponse {
    pub typ: LoginwResponseType,
    pub dat: LoginwData,
}

impl View for LoginwResponse {
    type V = (LoginwResponseType, Seq<u8>);

    open spec fn view(&self) -> (LoginwResponseType, Seq<u8>) {
        (self.typ, self.dat@)
    }
}

impl LoginwResponse {
    /// A response of type `typ` with an all-zero payload.
    pub fn new(typ: LoginwResponseType) -> (r: LoginwResponse)
        ensures
            r@ == (typ, zeros(DATA_LEN as nat)),
            r.wf(),
    {
        LoginwResponse { typ, dat: LoginwData::default() }
    }

    pub open spec fn wf(&self) -> bool {
        self.dat.wf()
    }

    /// The response in its wire layout.
    pub fn to_bytes(&self) -> (r: Vec<u8>)
        requires
            self.wf(),
        ensures
            r@ == record_bytes(self.typ.spec_code(), self.dat@),
    {
        encode_record(self.typ.code(), &self.dat)
    }

    /// The response that a datagram holds: `None` where its length is not
    /// `RECORD_LEN` or its tag names no type.
    pub fn from_bytes(b: &[u8]) -> (r: Option<LoginwResponse>)
        ensures
            r is None <==> parse_response(b@) is None,
            r matches Some(q) ==> q.wf() && parse_response(b@) == Some(q@),
    {
        if b.len() != RECORD_LEN {
            return None;
        }
        match LoginwResponseType::from_code(decode_code(b)) {
            Some(typ) => Some(LoginwResponse { typ, dat: decode_data(b) }),
            None => None,
        }
    }
}

proof fn lemma_code_bytes(c: u16)
    ensures
        record_code(record_bytes(c, Seq::empty())) == c,
{
    assert(((c as u8) as u16) | ((((c >> 8u16) as u8) as u16) << 8u16) == c) by (bit_vector);
}

proof fn lemma_bytes_code(b0: u8, b1: u8)
    ensures
        ({
            let c = ((b0 as u16) | ((b1 as u16) << 8u16)) as u16;
            c as u8 == b0 && (c >> 8u16) as u8 == b1
        }),
{
    assert((((b0 as u16) | ((b1 as u16) << 8u16)) as u16) as u8 == b0) by (bit_vector);
    assert(((((b0 as u16) | ((b1 as u16) << 8u16)) as u16) >> 8u16) as u8 == b1) by (bit_vector);
}

/// A request written in its wire layout and read back is the same request:
/// the same opcode and the same payload.
pub proof fn lemma_request_round_trip(typ: LoginwRequestType, data: Seq<u8>)
    requires
        data.len() == DATA_LEN,
    ensures
        parse_request(record_bytes(typ.spec_code(), data)) == Some((typ, data)),
{
    let b = record_bytes(typ.spec_code(), data);
    lemma_code_bytes(typ.spec_code());
    assert(record_code(b) == record_code(record_bytes(typ.spec_code(), Seq::empty())));
    assert(record_data(b) =~= data);
}

/// A request datagram whose padding is zero, read and written back, gives the
/// same bytes.
pub proof fn lemma_request_bytes_round_trip(b: Seq<u8>)
    requires
        parse_request(b) is Some,
        b.subrange(2, DATA_OFFSET as int) == zeros(6),
    ensures
        ({
            let (typ, data) = parse_request(b)->0;
            record_bytes(typ.spec_code(), data) == b
        }),
{
    let (typ, data) = parse_request(b)->0;
    assert(typ.spec_code() == record_code(b));
    lemma_bytes_code(b[0], b[1]);
    let r = record_bytes(typ.spec_code(), data);
    assert(r.subrange(2, DATA_OFFSET as int) =~= b.subrange(2, DATA_OFFSET as int));
    assert forall|i: int| 0 <= i < b.len() implies r[i] == b[i] by {
        if 2 <= i < DATA_OFFSET {
            assert(r[i] == r.subrange(2, DATA_OFFSET as int)[i - 2]);
            assert(b[i] == b.subrange(2, DATA_OFFSET as int)[i - 2]);
        }
    }
    assert(r =~= b);
}

} // verus!
