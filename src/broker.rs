//! The broker's decisions. Every event that reaches the broker (a request
//! from the child, the result of opening a device, a signal, shutdown) is
//! turned here into the reply to send and the ordered list of effects to
//! carry out; the caller performs the system calls.
use vstd::prelude::*;

use crate::bytes::{
    append_bytes, ascii, basename, has_prefix, last_component, literal_bytes, starts_with,
};
use crate::protocol::{
    parse_request, payload_text, text_payload, u64_payload, zeros, LoginwData, LoginwRequest,
    LoginwRequestType, LoginwResponse, LoginwResponseType, DATA_LEN, RECORD_LEN,
};

verus! {

/// Paths of input devices start with this.
pub open spec fn input_prefix() -> Seq<u8> {
    ascii("/dev/input/"@)
}

/// Paths of DRM devices start with this.
pub open spec fn drm_prefix() -> Seq<u8> {
    ascii("/dev/dri/"@)
}

/// Directory of input devices, relative to `/dev`.
pub open spec fn input_dir() -> Seq<u8> {
    ascii("input/"@)
}

/// Directory of DRM devices, relative to `/dev`.
pub open spec fn drm_dir() -> Seq<u8> {
    ascii("dri/"@)
}

/// Start of the error text for a path that names no input device.
pub open spec fn not_input_text() -> Seq<u8> {
    ascii("Not an input device path: "@)
}

/// Start of the error text for a path that names no DRM device.
pub open spec fn not_drm_text() -> Seq<u8> {
    ascii("Not a DRM device path: "@)
}

/// The kinds of device node that the child may ask for.
#[derive(Clone, Copy, Debug, PartialEq, Eq, Structural)]
pub enum DeviceKind {
    Input,
    Drm,
}

impl DeviceKind {
    /// The prefix that a requested path must have.
    pub open spec fn prefix(self) -> Seq<u8> {
        match self {
            DeviceKind::Input => input_prefix(),
            DeviceKind::Drm => drm_prefix(),
        }
    }

    /// The directory, relative to `/dev`, in which the node is opened.
    pub open spec fn dir(self) -> Seq<u8> {
        match self {
            DeviceKind::Input => input_dir(),
            DeviceKind::Drm => drm_dir(),
        }
    }

    /// The start of the error text for a path without the prefix.
    pub open spec fn refusal(self) -> Seq<u8> {
        match self {
            DeviceKind::Input => not_input_text(),
            DeviceKind::Drm => not_drm_text(),
        }
    }

    pub fn prefix_bytes(self) -> (r: &'static [u8])
        ensures
            r@ == self.prefix(),
    {
        proof {
            reveal_strlit("/dev/input/");
            reveal_strlit("/dev/dri/");
        }
        match self {
            DeviceKind::Input => literal_bytes("/dev/input/"),
            DeviceKind::Drm => literal_bytes("/dev/dri/"),
        }
    }

    pub fn dir_bytes(self) -> (r: &'static [u8])
        ensures
            r@ == self.dir(),
    {
        proof {
            reveal_strlit("input/");
            reveal_strlit("dri/");
        }
        match self {
            DeviceKind::Input => literal_bytes("input/"),
            DeviceKind::Drm => literal_bytes("dri/"),
        }
    }

    pub fn refusal_bytes(self) -> (r: &'static [u8])
        ensures
            r@ == self.refusal(),
    {
        proof {
            reveal_strlit("Not an input device path: ");
            reveal_strlit("Not a DRM device path: ");
        }
        match self {
            DeviceKind::Input => literal_bytes("Not an input device path: "),
            DeviceKind::Drm => literal_bytes("Not a DRM device path: "),
        }
    }
}

/// The virtual terminal that the broker controls: the descriptor of its tty
/// and its 1-based number.
#[derive(Clone, Copy, Debug, PartialEq, Eq, Structural)]
pub struct VtHandle {
    pub tty_fd: i32,
    pub vt_num: i32,
}

/// The signals that the broker watches.
#[derive(Clone, Copy, Debug, PartialEq, Eq, Structural)]
pub enum BrokerSignal {
    /// SIGINT: passed on to the child.
    Interrupt,
    /// SIGTERM: passed on to the child.
    Terminate,
    /// SIGUSR1: the kernel asks to release the VT, or announces that it is
    /// back, depending on whether the session is active.
    User1,
    /// Any other signal: ignored.
    Other,
}

/// One thing that the broker does to the system, in the order given.
#[derive(Clone, Copy, Debug, PartialEq, Eq, Structural)]
pub enum Effect {
    /// Revoke the input device descriptor, so that no copy of it works.
    Revoke(i32),
    /// Close the descriptor.
    Close(i32),
    /// Send the child a notification of this type with an empty payload.
    Notify(LoginwResponseType),
    /// Give up DRM master on the descriptor.
    DropMaster(i32),
    /// Take DRM master on the descriptor.
    SetMaster(i32),
    /// Let the kernel switch away from the VT of this tty.
    AckRelease(i32),
    /// Confirm to the kernel that the VT of this tty is back.
    AckAcquire(i32),
    /// Pass the signal on to the child.
    Forward(BrokerSignal),
    /// Give the VT of this tty back its original modes and foreground VT,
    /// then close it.
    RestoreVt(i32),
}

/// A reply's type, payload and the descriptor that travels with it.
pub type ReplyView = (LoginwResponseType, Seq<u8>, Option<i32>);

/// A message for the child, with the descriptor to attach, if any.
#[derive(Clone, Debug, PartialEq, Eq)]
pub struct Reply {
    pub resp: LoginwResponse,
    pub fd: Option<i32>,
}

impl View for Reply {
    type V = ReplyView;

    open spec fn view(&self) -> ReplyView {
        (self.resp.typ, self.resp.dat@, self.fd)
    }
}

impl Reply {
    pub open spec fn wf(&self) -> bool {
        self.resp.wf()
    }
}

/// The reply that hands over the descriptor `fd`.
pub open spec fn passed_fd_reply(fd: i32) -> ReplyView {
    (LoginwResponseType::LoginwPassedFd, zeros(DATA_LEN as nat), Some(fd))
}

/// The reply that reports a failure with the text `text`.
pub open spec fn error_reply(text: Seq<u8>) -> ReplyView {
    (LoginwResponseType::LoginwError, text_payload(text), None)
}

/// The reply that hands over the tty of `h`, with its VT number.
pub open spec fn vt_reply(h: VtHandle) -> ReplyView {
    (LoginwResponseType::LoginwPassedFd, u64_payload(h.vt_num as u64), Some(h.tty_fd))
}

/// What to do about a request.
pub enum PlanView {
    Send(ReplyView),
    Open(DeviceKind, Seq<u8>),
    SetUpVt,
    Unsupported,
    Stop,
}

/// What to do about a request or a datagram.
#[derive(Clone, Debug, PartialEq, Eq)]
pub enum Plan {
    /// Send this reply.
    Send(Reply),
    /// Open the device node at this path, relative to `/dev`, read-write,
    /// close-on-exec and non-blocking, then report the result through
    /// `Broker::device_opened`.
    Open(DeviceKind, Vec<u8>),
    /// Find a free VT, open its tty and take control of it, then report it
    /// through `Broker::vt_acquired`.
    SetUpVt,
    /// The request is not implemented: nothing is sent.
    Unsupported,
    /// The peer is gone: leave the event loop.
    Stop,
}

impl View for Plan {
    type V = PlanView;

    open spec fn view(&self) -> PlanView {
        match self {
            Plan::Send(r) => PlanView::Send(r@),
            Plan::Open(k, p) => PlanView::Open(*k, p@),
            Plan::SetUpVt => PlanView::SetUpVt,
            Plan::Unsupported => PlanView::Unsupported,
            Plan::Stop => PlanView::Stop,
        }
    }
}

impl Plan {
    pub open spec fn wf(&self) -> bool {
        self matches Plan::Send(r) ==> r.wf()
    }
}

/// The broker's state: the descriptors it owns for the child and whether the
/// session holds the display.
pub struct BrokerModel {
    pub input_devs: Seq<i32>,
    pub drm_dev: Option<i32>,
    pub vt: Option<VtHandle>,
    pub is_active: bool,
}

/// The state that a broker starts in.
pub open spec fn initial_model() -> BrokerModel {
    BrokerModel { input_devs: seq![], drm_dev: None, vt: None, is_active: false }
}

/// The plan for a request for a device node of kind `kind`.
pub open spec fn device_plan(kind: DeviceKind, data: Seq<u8>) -> PlanView {
    let path = payload_text(data);
    if starts_with(path, kind.prefix()) {
        PlanView::Open(kind, kind.dir() + basename(path))
    } else {
        PlanView::Send(error_reply(kind.refusal() + path))
    }
}

/// The plan for a request of type `typ` with payload `data` in state `m`.
pub open spec fn request_plan(m: BrokerModel, typ: LoginwRequestType, data: Seq<u8>) -> PlanView {
    match typ {
        LoginwRequestType::LoginwOpenInput => device_plan(DeviceKind::Input, data),
        LoginwRequestType::LoginwOpenDrm => device_plan(DeviceKind::Drm, data),
        LoginwRequestType::LoginwAcquireVt => match m.vt {
            Some(h) => PlanView::Send(vt_reply(h)),
            None => PlanView::SetUpVt,
        },
        _ => PlanView::Unsupported,
    }
}

/// The plan for a received datagram: a datagram of the wrong length means
/// that the peer is gone.
pub open spec fn datagram_plan(m: BrokerModel, b: Seq<u8>) -> PlanView {
    if b.len() != RECORD_LEN {
        PlanView::Stop
    } else {
        match parse_request(b) {
            Some((typ, data)) => request_plan(m, typ, data),
            None => PlanView::Unsupported,
        }
    }
}

/// The state after the device node `fd` of kind `kind` was opened.
pub open spec fn after_open(m: BrokerModel, kind: DeviceKind, fd: i32) -> BrokerModel {
    match kind {
        DeviceKind::Input => BrokerModel { input_devs: m.input_devs.push(fd), ..m },
        DeviceKind::Drm => BrokerModel { drm_dev: Some(fd), ..m },
    }
}

/// The state after the VT `h` was taken.
pub open spec fn after_vt_acquired(m: BrokerModel, h: VtHandle) -> BrokerModel {
    BrokerModel { vt: Some(h), is_active: true, ..m }
}

/// Revoke, then close, each of `fds` in turn.
pub open spec fn revoke_all(fds: Seq<i32>) -> Seq<Effect>
    decreases fds.len(),
{
    if fds.len() == 0 {
        seq![]
    } else {
        revoke_all(fds.drop_last()) + seq![Effect::Revoke(fds.last()), Effect::Close(fds.last())]
    }
}

/// Close each of `fds` in turn.
pub open spec fn close_all(fds: Seq<i32>) -> Seq<Effect>
    decreases fds.len(),
{
    if fds.len() == 0 {
        seq![]
    } else {
        close_all(fds.drop_last()).push(Effect::Close(fds.last()))
    }
}

/// Acknowledge a release of the VT, if there is one.
pub open spec fn release_ack(vt: Option<VtHandle>) -> Seq<Effect> {
    match vt {
        Some(h) => seq![Effect::AckRelease(h.tty_fd)],
        None => seq![],
    }
}

/// Acknowledge the return of the VT, if there is one.
pub open spec fn acquire_ack(vt: Option<VtHandle>) -> Seq<Effect> {
    match vt {
        Some(h) => seq![Effect::AckAcquire(h.tty_fd)],
        None => seq![],
    }
}

/// What the broker does on signal `sig` in state `m`.
pub open spec fn signal_effects(m: BrokerModel, sig: BrokerSignal) -> Seq<Effect> {
    match sig {
        BrokerSignal::Interrupt => seq![Effect::Forward(sig)],
        BrokerSignal::Terminate => seq![Effect::Forward(sig)],
        BrokerSignal::User1 => match m.drm_dev {
            Some(d) => if m.is_active {
                revoke_all(m.input_devs) + seq![
                    Effect::Notify(LoginwResponseType::LoginwDeactivated),
                    Effect::DropMaster(d),
                ] + release_ack(m.vt)
            } else {
                acquire_ack(m.vt) + seq![
                    Effect::SetMaster(d),
                    Effect::Notify(LoginwResponseType::LoginwActivated),
                ]
            },
            None => seq![],
        },
        BrokerSignal::Other => seq![],
    }
}

/// The state after signal `sig` in state `m`.
pub open spec fn after_signal(m: BrokerModel, sig: BrokerSignal) -> BrokerModel {
    if sig == BrokerSignal::User1 && m.drm_dev is Some {
        if m.is_active {
            BrokerModel { input_devs: seq![], is_active: false, ..m }
        } else {
            BrokerModel { is_active: true, ..m }
        }
    } else {
        m
    }
}

/// What the broker does when it shuts down in state `m`.
pub open spec fn shutdown_effects(m: BrokerModel) -> Seq<Effect> {
    let drm = match m.drm_dev {
        Some(d) => seq![Effect::DropMaster(d), Effect::Close(d)],
        None => seq![],
    };
    let vt = match m.vt {
        Some(h) => seq![Effect::RestoreVt(h.tty_fd)],
        None => seq![],
    };
    drm + close_all(m.input_devs) + vt
}

/// The broker's state. It owns the descriptors that it has opened for the
/// child, and hands out duplicates of them.
#[derive(Debug)]
pub struct Broker {
    /// Open input devices, in the order they were opened.
    pub input_devs: Vec<i32>,
    /// The DRM device, once one was opened.
    pub drm_dev: Option<i32>,
    /// The VT, once one was taken.
    pub vt: Option<VtHandle>,
    /// Whether the session holds the foreground VT and DRM master.
    pub is_active: bool,
}

impl View for Broker {
    type V = BrokerModel;

    open spec fn view(&self) -> BrokerModel {
        BrokerModel {
            input_devs: self.input_devs@,
            drm_dev: self.drm_dev,
            vt: self.vt,
            is_active: self.is_active,
        }
    }
}

/// The plan for a request for a device node of kind `kind` with payload `dat`.
fn plan_device(kind: DeviceKind, dat: &LoginwData) -> (r: Plan)
    requires
        dat.wf(),
    ensures
        r@ == device_plan(kind, dat@),
        r.wf(),
{
    let path = dat.text();
    if has_prefix(path.as_slice(), kind.prefix_bytes()) {
        let mut rel: Vec<u8> = Vec::new();
        append_bytes(&mut rel, kind.dir_bytes());
        let base = last_component(path.as_slice());
        append_bytes(&mut rel, base.as_slice());
        assert(rel@ =~= kind.dir() + basename(path@));
        Plan::Open(kind, rel)
    } else {
        let mut text: Vec<u8> = Vec::new();
        append_bytes(&mut text, kind.refusal_bytes());
        append_bytes(&mut text, path.as_slice());
        assert(text@ =~= kind.refusal() + path@);
        Plan::Send(error(text.as_slice()))
    }
}

/// The error reply with text `text`.
fn error(text: &[u8]) -> (r: Reply)
    ensures
        r@ == error_reply(text@),
        r.wf(),
{
    Reply {
        resp: LoginwResponse {
            typ: LoginwResponseType::LoginwError,
            dat: LoginwData::from_text(text),
        },
        fd: None,
    }
}

/// The reply that hands over the tty of `h`.
fn vt_message(h: VtHandle) -> (r: Reply)
    ensures
        r@ == vt_reply(h),
        r.wf(),
{
    Reply {
        resp: LoginwResponse {
            typ: LoginwResponseType::LoginwPassedFd,
            dat: LoginwData::from_u64(h.vt_num as u64),
        },
        fd: Some(h.tty_fd),
    }
}

impl Broker {
    /// A broker that owns nothing yet and whose session is inactive.
    pub fn new() -> (r: Broker)
        ensures
            r@ == initial_model(),
    {
        Broker { input_devs: Vec::new(), drm_dev: None, vt: None, is_active: false }
    }

    /// What to do about the request `req`.
    pub fn plan_request(&self, req: &LoginwRequest) -> (r: Plan)
        requires
            req.wf(),
        ensures
            r@ == request_plan(self@, req.typ, req.dat@),
            r.wf(),
    {
        match req.typ {
            LoginwRequestType::LoginwOpenInput => plan_device(DeviceKind::Input, &req.dat),
            LoginwRequestType::LoginwOpenDrm => plan_device(DeviceKind::Drm, &req.dat),
            LoginwRequestType::LoginwAcquireVt => match self.vt {
                Some(h) => Plan::Send(vt_message(h)),
                None => Plan::SetUpVt,
            },
            _ => Plan::Unsupported,
        }
    }

    /// What to do about a datagram received from the child.
    pub fn plan_datagram(&self, b: &[u8]) -> (r: Plan)
        ensures
            r@ == datagram_plan(self@, b@),
            r.wf(),
    {
        if b.len() != RECORD_LEN {
            return Plan::Stop;
        }
        match LoginwRequest::from_bytes(b) {
            Some(req) => self.plan_request(&req),
            None => Plan::Unsupported,
        }
    }

    /// Records the outcome of opening a device node of kind `kind`: the new
    /// descriptor, or the text of the error. Returns the reply for the child.
    pub fn device_opened(&mut self, kind: DeviceKind, opened: Result<i32, Vec<u8>>) -> (r: Reply)
        ensures
            r.wf(),
            match opened {
                Ok(fd) => final(self)@ == after_open(old(self)@, kind, fd) && r@ == passed_fd_reply(
                    fd,
                ),
                Err(text) => final(self)@ == old(self)@ && r@ == error_reply(text@),
            },
    {
        match opened {
            Ok(fd) => {
                match kind {
                    DeviceKind::Input => self.input_devs.push(fd),
                    DeviceKind::Drm => self.drm_dev = Some(fd),
                }
                Reply {
                    resp: LoginwResponse::new(LoginwResponseType::LoginwPassedFd),
                    fd: Some(fd),
                }
            },
            Err(text) => error(text.as_slice()),
        }
    }

    /// Records the VT that was taken, with its tty descriptor and number, and
    /// makes the session active. Returns the reply for the child.
    pub fn vt_acquired(&mut self, tty_fd: i32, vt_num: i32) -> (r: Reply)
        ensures
            final(self)@ == after_vt_acquired(old(self)@, VtHandle { tty_fd, vt_num }),
            r@ == vt_reply(VtHandle { tty_fd, vt_num }),
            r.wf(),
    {
        let h = VtHandle { tty_fd, vt_num };
        self.vt = Some(h);
        self.is_active = true;
        vt_message(h)
    }

    /// Handles the signal `sig`: returns what to do, in order.
    pub fn on_signal(&mut self, sig: BrokerSignal) -> (r: Vec<Effect>)
        ensures
            final(self)@ == after_signal(old(self)@, sig),
            r@ == signal_effects(old(self)@, sig),
    {
        let mut effects: Vec<Effect> = Vec::new();
        match sig {
            BrokerSignal::Interrupt | BrokerSignal::Terminate => {
                effects.push(Effect::Forward(sig));
            },
            BrokerSignal::User1 => {
                match self.drm_dev {
                    Some(d) => {
                        if self.is_active {
                            self.is_active = false;
                            let mut i: usize = 0;
                            while i < self.input_devs.len()
                                invariant
                                    i <= self.input_devs@.len(),
                                    effects@ == revoke_all(self.input_devs@.take(i as int)),
                                decreases self.input_devs.len() - i,
                            {
                                let fd = self.input_devs[i];
                                effects.push(Effect::Revoke(fd));
                                effects.push(Effect::Close(fd));
                                assert(self.input_devs@.take(i + 1).drop_last() =~= self.input_devs@.take(i as int));
                                i = i + 1;
                            }
                            assert(self.input_devs@.take(i as int) =~= self.input_devs@);
                            self.input_devs = Vec::new();
                            effects.push(Effect::Notify(LoginwResponseType::LoginwDeactivated));
                            effects.push(Effect::DropMaster(d));
                            match self.vt {
                                Some(h) => effects.push(Effect::AckRelease(h.tty_fd)),
                                None => {},
                            }
                        } else {
                            match self.vt {
                                Some(h) => effects.push(Effect::AckAcquire(h.tty_fd)),
                                None => {},
                            }
                            effects.push(Effect::SetMaster(d));
                            self.is_active = true;
                            effects.push(Effect::Notify(LoginwResponseType::LoginwActivated));
                        }
                    },
                    None => {},
                }
            },
            BrokerSignal::Other => {},
        }
        effects
    }

    /// Gives up everything the broker owns: returns what to do, in order,
    /// and leaves the broker as it started.
    pub fn shutdown(&mut self) -> (r: Vec<Effect>)
        ensures
            r@ == shutdown_effects(old(self)@),
            final(self)@ == initial_model(),
    {
        let mut effects: Vec<Effect> = Vec::new();
        match self.drm_dev {
            Some(d) => {
                effects.push(Effect::DropMaster(d));
                effects.push(Effect::Close(d));
            },
            None => {},
        }
        let ghost drm = effects@;
        let mut i: usize = 0;
        while i < self.input_devs.len()
            invariant
                i <= self.input_devs@.len(),
                effects@ == drm + close_all(self.input_devs@.take(i as int)),
            decreases self.input_devs.len() - i,
        {
            effects.push(Effect::Close(self.input_devs[i]));
            assert(self.input_devs@.take(i + 1).drop_last() =~= self.input_devs@.take(i as int));
            i = i + 1;
            assert(effects@ =~= drm + close_all(self.input_devs@.take(i as int)));
        }
        assert(self.input_devs@.take(i as int) =~= self.input_devs@);
        match self.vt {
            Some(h) => effects.push(Effect::RestoreVt(h.tty_fd)),
            None => {},
        }
        self.input_devs = Vec::new();
        self.drm_dev = None;
        self.vt = None;
        self.is_active = false;
        effects
    }
}

/// A request for a device node whose path lacks the kind's prefix is answered
/// with an error and no descriptor, and opens nothing.
pub proof fn lemma_foreign_path_refused(m: BrokerModel, typ: LoginwRequestType, data: Seq<u8>)
    requires
        typ == LoginwRequestType::LoginwOpenInput || typ == LoginwRequestType::LoginwOpenDrm,
        !starts_with(
            payload_text(data),
            if typ == LoginwRequestType::LoginwOpenInput {
                input_prefix()
            } else {
                drm_prefix()
            },
        ),
    ensures
        request_plan(m, typ, data) matches PlanView::Send(reply) && reply.0
            == LoginwResponseType::LoginwError && reply.2 is None,
{
}

/// A descriptor handed over for an input request stays among the broker's
/// input devices.
pub proof fn lemma_passed_input_retained(m: BrokerModel, fd: i32)
    ensures
        passed_fd_reply(fd).2 == Some(fd),
        after_open(m, DeviceKind::Input, fd).input_devs.contains(fd),
        after_open(m, DeviceKind::Input, fd).input_devs.drop_last() == m.input_devs,
{
    assert(after_open(m, DeviceKind::Input, fd).input_devs.last() == fd);
    assert(after_open(m, DeviceKind::Input, fd).input_devs.drop_last() =~= m.input_devs);
}

proof fn lemma_revoke_all_shape(fds: Seq<i32>)
    ensures
        revoke_all(fds).len() == 2 * fds.len(),
        forall|i: int|
            0 <= i < fds.len() ==> revoke_all(fds)[2 * i] == Effect::Revoke(fds[i])
                && revoke_all(fds)[2 * i + 1] == Effect::Close(fds[i]),
        forall|i: int|
            0 <= i < revoke_all(fds).len() ==> !(#[trigger] revoke_all(fds)[i] is Notify),
    decreases fds.len(),
{
    if fds.len() > 0 {
        let p = fds.drop_last();
        lemma_revoke_all_shape(p);
        let e = revoke_all(fds);
        let tail = seq![Effect::Revoke(fds.last()), Effect::Close(fds.last())];
        assert(e == revoke_all(p) + tail);
        assert forall|i: int| 0 <= i < fds.len() implies e[2 * i] == Effect::Revoke(fds[i]) && e[2
            * i + 1] == Effect::Close(fds[i]) by {
            if i < p.len() {
                assert(fds[i] == p[i]);
            }
        }
        assert forall|i: int| 0 <= i < e.len() implies !(#[trigger] e[i] is Notify) by {
            if i < revoke_all(p).len() {
                assert(e[i] == revoke_all(p)[i]);
            } else {
                assert(e[i] == tail[i - revoke_all(p).len()]);
            }
        }
    }
}

/// SIGUSR1 while the session is active and a DRM device is open deactivates
/// it: every input device is revoked and closed, the broker keeps none, the
/// child is told, DRM master is dropped, and only then is the VT released.
pub proof fn lemma_deactivation(m: BrokerModel)
    requires
        m.is_active,
        m.drm_dev is Some,
    ensures
        ({
            let e = signal_effects(m, BrokerSignal::User1);
            let after = after_signal(m, BrokerSignal::User1);
            let k = 2 * m.input_devs.len() as int;
            &&& !after.is_active
            &&& after.input_devs.len() == 0
            &&& after.drm_dev == m.drm_dev
            &&& forall|i: int|
                0 <= i < m.input_devs.len() ==> e[2 * i] == Effect::Revoke(m.input_devs[i])
                    && e[2 * i + 1] == Effect::Close(m.input_devs[i])
            &&& e[k] == Effect::Notify(LoginwResponseType::LoginwDeactivated)
            &&& e[k + 1] == Effect::DropMaster(m.drm_dev->0)
            &&& m.vt matches Some(h) ==> e.len() == k + 3 && e[k + 2] == Effect::AckRelease(
                h.tty_fd,
            )
            &&& m.vt is None ==> e.len() == k + 2
        }),
{
    lemma_revoke_all_shape(m.input_devs);
}

/// SIGUSR1 while the session is inactive and a DRM device is open activates
/// it: the VT's return is confirmed first, then DRM master is taken, and only
/// then is the child told.
pub proof fn lemma_activation(m: BrokerModel)
    requires
        !m.is_active,
        m.drm_dev is Some,
    ensures
        ({
            let e = signal_effects(m, BrokerSignal::User1);
            let after = after_signal(m, BrokerSignal::User1);
            &&& after.is_active
            &&& after.drm_dev == m.drm_dev
            &&& after.input_devs == m.input_devs
            &&& m.vt matches Some(h) ==> e == seq![
                Effect::AckAcquire(h.tty_fd),
                Effect::SetMaster(m.drm_dev->0),
                Effect::Notify(LoginwResponseType::LoginwActivated),
            ]
            &&& m.vt is None ==> e == seq![
                Effect::SetMaster(m.drm_dev->0),
                Effect::Notify(LoginwResponseType::LoginwActivated),
            ]
        }),
{
    if let Some(h) = m.vt {
        assert(signal_effects(m, BrokerSignal::User1) =~= seq![
            Effect::AckAcquire(h.tty_fd),
            Effect::SetMaster(m.drm_dev->0),
            Effect::Notify(LoginwResponseType::LoginwActivated),
        ]);
    } else {
        assert(signal_effects(m, BrokerSignal::User1) =~= seq![
            Effect::SetMaster(m.drm_dev->0),
            Effect::Notify(LoginwResponseType::LoginwActivated),
        ]);
    }
}

/// SIGINT and SIGTERM are passed on to the child at once, and change nothing
/// else.
pub proof fn lemma_termination_forwarded(m: BrokerModel, sig: BrokerSignal)
    requires
        sig == BrokerSignal::Interrupt || sig == BrokerSignal::Terminate,
    ensures
        signal_effects(m, sig) == seq![Effect::Forward(sig)],
        after_signal(m, sig) == m,
{
}

/// The notifications among `e`, in order.
pub open spec fn notifications(e: Seq<Effect>) -> Seq<LoginwResponseType>
    decreases e.len(),
{
    if e.len() == 0 {
        seq![]
    } else {
        match e.last() {
            Effect::Notify(t) => notifications(e.drop_last()).push(t),
            _ => notifications(e.drop_last()),
        }
    }
}

/// The effects of the signals `sigs`, handled in order from state `m`.
pub open spec fn run_signals(m: BrokerModel, sigs: Seq<BrokerSignal>) -> Seq<Effect>
    decreases sigs.len(),
{
    if sigs.len() == 0 {
        seq![]
    } else {
        signal_effects(m, sigs[0]) + run_signals(after_signal(m, sigs[0]), sigs.drop_first())
    }
}

/// The state after the signals `sigs`, handled in order from state `m`.
pub open spec fn state_after_signals(m: BrokerModel, sigs: Seq<BrokerSignal>) -> BrokerModel
    decreases sigs.len(),
{
    if sigs.len() == 0 {
        m
    } else {
        state_after_signals(after_signal(m, sigs[0]), sigs.drop_first())
    }
}

/// `n` alternates between the two notifications, starting with the one that
/// ends a session if `active`, and with the one that starts it otherwise.
pub open spec fn alternating(n: Seq<LoginwResponseType>, active: bool) -> bool {
    forall|i: int|
        0 <= i < n.len() ==> #[trigger] n[i] == if (i % 2 == 0) == active {
            LoginwResponseType::LoginwDeactivated
        } else {
            LoginwResponseType::LoginwActivated
        }
}

proof fn lemma_notifications_concat(a: Seq<Effect>, b: Seq<Effect>)
    ensures
        notifications(a + b) == notifications(a) + notifications(b),
    decreases b.len(),
{
    if b.len() == 0 {
        assert(a + b =~= a);
        assert(notifications(b) =~= seq![]);
        assert(notifications(a) + notifications(b) =~= notifications(a));
    } else {
        assert((a + b).drop_last() =~= a + b.drop_last());
        assert((a + b).last() == b.last());
        lemma_notifications_concat(a, b.drop_last());
        match b.last() {
            Effect::Notify(t) => {
                assert(notifications(a) + notifications(b.drop_last()).push(t) =~= (
                notifications(a) + notifications(b.drop_last())).push(t));
            },
            _ => {},
        }
    }
}

proof fn lemma_silent(s: Seq<Effect>)
    requires
        forall|i: int| 0 <= i < s.len() ==> !(#[trigger] s[i] is Notify),
    ensures
        notifications(s) == Seq::<LoginwResponseType>::empty(),
    decreases s.len(),
{
    if s.len() > 0 {
        assert(!(s[s.len() - 1] is Notify));
        lemma_silent(s.drop_last());
    } else {
        assert(notifications(s) =~= Seq::<LoginwResponseType>::empty());
    }
}

proof fn lemma_single(t: LoginwResponseType)
    ensures
        notifications(seq![Effect::Notify(t)]) == seq![t],
{
    let one = seq![Effect::Notify(t)];
    assert(one.drop_last() =~= Seq::<Effect>::empty());
    assert(notifications(Seq::<Effect>::empty()) =~= Seq::<LoginwResponseType>::empty());
    assert(notifications(one) =~= seq![t]);
}

proof fn lemma_revoke_all_silent(fds: Seq<i32>)
    ensures
        notifications(revoke_all(fds)) == Seq::<LoginwResponseType>::empty(),
{
    lemma_revoke_all_shape(fds);
    lemma_silent(revoke_all(fds));
}

/// One signal sends at most one notification: the one that matches the
/// change of the session's state.
proof fn lemma_one_signal(m: BrokerModel, sig: BrokerSignal)
    ensures
        ({
            let n = notifications(signal_effects(m, sig));
            let after = after_signal(m, sig);
            if after.is_active == m.is_active {
                n == Seq::<LoginwResponseType>::empty()
            } else {
                n == seq![
                    if m.is_active {
                        LoginwResponseType::LoginwDeactivated
                    } else {
                        LoginwResponseType::LoginwActivated
                    },
                ]
            }
        }),
{
    let e = signal_effects(m, sig);
    lemma_silent(seq![Effect::Forward(sig)]);
    lemma_silent(Seq::<Effect>::empty());
    if sig == BrokerSignal::User1 && m.drm_dev is Some {
        let d = m.drm_dev->0;
        if m.is_active {
            let t = LoginwResponseType::LoginwDeactivated;
            let a = revoke_all(m.input_devs);
            let mid = seq![Effect::Notify(t), Effect::DropMaster(d)];
            let b = release_ack(m.vt);
            lemma_revoke_all_silent(m.input_devs);
            lemma_notifications_concat(a, mid);
            lemma_notifications_concat(a + mid, b);
            lemma_silent(b);
            lemma_single(t);
            lemma_silent(seq![Effect::DropMaster(d)]);
            lemma_notifications_concat(seq![Effect::Notify(t)], seq![Effect::DropMaster(d)]);
            assert(seq![Effect::Notify(t)] + seq![Effect::DropMaster(d)] =~= mid);
            assert(notifications(mid) =~= seq![t]);
            assert(Seq::<LoginwResponseType>::empty() + seq![t] + Seq::<LoginwResponseType>::empty()
                =~= seq![t]);
        } else {
            let t = LoginwResponseType::LoginwActivated;
            let a = acquire_ack(m.vt);
            let tail = seq![Effect::SetMaster(d), Effect::Notify(t)];
            lemma_silent(a);
            lemma_notifications_concat(a, tail);
            lemma_single(t);
            lemma_silent(seq![Effect::SetMaster(d)]);
            lemma_notifications_concat(seq![Effect::SetMaster(d)], seq![Effect::Notify(t)]);
            assert(seq![Effect::SetMaster(d)] + seq![Effect::Notify(t)] =~= tail);
            assert(notifications(tail) =~= seq![t]);
            assert(Seq::<LoginwResponseType>::empty() + seq![t] =~= seq![t]);
        }
    }
}

/// Over any run of signals, the notifications sent to the child alternate
/// strictly between deactivation and activation, the first one ending the
/// session if it was active and starting it otherwise.
pub proof fn lemma_notifications_alternate(m: BrokerModel, sigs: Seq<BrokerSignal>)
    ensures
        alternating(notifications(run_signals(m, sigs)), m.is_active),
    decreases sigs.len(),
{
    if sigs.len() > 0 {
        let first = signal_effects(m, sigs[0]);
        let m1 = after_signal(m, sigs[0]);
        let rest = run_signals(m1, sigs.drop_first());
        lemma_notifications_alternate(m1, sigs.drop_first());
        lemma_notifications_concat(first, rest);
        lemma_one_signal(m, sigs[0]);
        let n = notifications(run_signals(m, sigs));
        let nr = notifications(rest);
        if m1.is_active == m.is_active {
            assert(n =~= nr);
        } else {
            assert forall|i: int| 0 <= i < n.len() implies #[trigger] n[i] == if (i % 2 == 0)
                == m.is_active {
                LoginwResponseType::LoginwDeactivated
            } else {
                LoginwResponseType::LoginwActivated
            } by {
                if i > 0 {
                    assert(n[i] == nr[i - 1]);
                }
            }
        }
    }
}

/// Shutting down closes every descriptor the broker owns for the child and
/// gives back the VT.
pub proof fn lemma_shutdown_closes_all(m: BrokerModel)
    ensures
        forall|fd: i32| m.input_devs.contains(fd) ==> shutdown_effects(m).contains(Effect::Close(fd)),
        m.drm_dev matches Some(d) ==> shutdown_effects(m).contains(Effect::Close(d)),
        m.vt matches Some(h) ==> shutdown_effects(m).contains(Effect::RestoreVt(h.tty_fd)),
{
    lemma_close_all_shape(m.input_devs);
    let drm = match m.drm_dev {
        Some(d) => seq![Effect::DropMaster(d), Effect::Close(d)],
        None => seq![],
    };
    let vt = match m.vt {
        Some(h) => seq![Effect::RestoreVt(h.tty_fd)],
        None => seq![],
    };
    let e = shutdown_effects(m);
    assert(e == drm + close_all(m.input_devs) + vt);
    assert forall|fd: i32| m.input_devs.contains(fd) implies e.contains(Effect::Close(fd)) by {
        let j = choose|j: int| 0 <= j < m.input_devs.len() && m.input_devs[j] == fd;
        assert(e[drm.len() + j] == Effect::Close(fd));
    }
    if let Some(d) = m.drm_dev {
        assert(e[1] == Effect::Close(d));
    }
    if let Some(h) = m.vt {
        assert(e[e.len() - 1] == Effect::RestoreVt(h.tty_fd));
    }
}

proof fn lemma_close_all_shape(fds: Seq<i32>)
    ensures
        close_all(fds).len() == fds.len(),
        forall|i: int| 0 <= i < fds.len() ==> close_all(fds)[i] == Effect::Close(fds[i]),
    decreases fds.len(),
{
    if fds.len() > 0 {
        lemma_close_all_shape(fds.drop_last());
    }
}

/// Once a VT is taken, a later request for it hands over the same tty
/// descriptor and VT number as the first reply, whatever signals came in
/// between.
pub proof fn lemma_acquire_vt_repeats(
    m: BrokerModel,
    h: VtHandle,
    sigs: Seq<BrokerSignal>,
    data: Seq<u8>,
)
    ensures
        request_plan(
            state_after_signals(after_vt_acquired(m, h), sigs),
            LoginwRequestType::LoginwAcquireVt,
            data,
        ) == PlanView::Send(vt_reply(h)),
{
    lemma_signals_keep_vt(after_vt_acquired(m, h), sigs);
}

proof fn lemma_signals_keep_vt(m: BrokerModel, sigs: Seq<BrokerSignal>)
    ensures
        state_after_signals(m, sigs).vt == m.vt,
    decreases sigs.len(),
{
    if sigs.len() > 0 {
        lemma_signals_keep_vt(after_signal(m, sigs[0]), sigs.drop_first());
    }
}

} // verus!
