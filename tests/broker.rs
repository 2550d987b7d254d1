use loginw::broker::{Broker, BrokerSignal, DeviceKind, Effect, Plan, Reply};
use loginw::bytes::{has_prefix, last_component};
use loginw::protocol::{LoginwData, LoginwRequest, LoginwRequestType, LoginwResponseType};

fn request(typ: LoginwRequestType, text: &[u8]) -> LoginwRequest {
    let mut req = LoginwRequest::new(typ);
    req.dat = LoginwData::from_text(text);
    req
}

fn sent(plan: Plan) -> Reply {
    match plan {
        Plan::Send(r) => r,
        other => panic!("expected a reply, got {:?}", other),
    }
}

/// A broker with a VT (tty 5, VT 3), a DRM device (fd 4) and one input
/// device (fd 9).
fn active_broker() -> Broker {
    let mut b = Broker::new();
    assert_eq!(b.plan_request(&request(LoginwRequestType::LoginwAcquireVt, b"")), Plan::SetUpVt);
    b.vt_acquired(5, 3);
    b.device_opened(DeviceKind::Drm, Ok(4));
    b.device_opened(DeviceKind::Input, Ok(9));
    b
}

#[test]
fn input_path_outside_dev_input_is_refused() {
    let b = Broker::new();
    let reply = sent(b.plan_request(&request(LoginwRequestType::LoginwOpenInput, b"/etc/passwd")));
    assert_eq!(reply.resp.typ, LoginwResponseType::LoginwError);
    assert_eq!(reply.fd, None);
    assert!(reply.resp.dat.bytes.starts_with(b"Not an input device path"));
    assert_eq!(reply.resp.dat.text(), b"Not an input device path: /etc/passwd".to_vec());
    assert!(b.input_devs.is_empty());
}

#[test]
fn input_prefix_needs_trailing_slash() {
    let b = Broker::new();
    let reply = sent(b.plan_request(&request(LoginwRequestType::LoginwOpenInput, b"/dev/inputx/e")));
    assert_eq!(reply.resp.typ, LoginwResponseType::LoginwError);
    assert_eq!(reply.fd, None);
}

#[test]
fn drm_path_outside_dev_dri_is_refused() {
    let b = Broker::new();
    let reply = sent(b.plan_request(&request(LoginwRequestType::LoginwOpenDrm, b"/dev/input/event0")));
    assert_eq!(reply.resp.typ, LoginwResponseType::LoginwError);
    assert_eq!(reply.fd, None);
    assert_eq!(reply.resp.dat.text(), b"Not a DRM device path: /dev/input/event0".to_vec());
}

#[test]
fn input_device_is_opened_relative_to_dev() {
    let mut b = Broker::new();
    let plan = b.plan_request(&request(LoginwRequestType::LoginwOpenInput, b"/dev/input/event0"));
    assert_eq!(plan, Plan::Open(DeviceKind::Input, b"input/event0".to_vec()));
    let before = b.input_devs.len();
    let reply = b.device_opened(DeviceKind::Input, Ok(11));
    assert_eq!(reply.resp.typ, LoginwResponseType::LoginwPassedFd);
    assert_eq!(reply.fd, Some(11));
    assert_eq!(b.input_devs.len(), before + 1);
    assert_eq!(b.input_devs, vec![11]);
}

#[test]
fn nested_input_path_keeps_last_component() {
    let b = Broker::new();
    let plan = b.plan_request(&request(LoginwRequestType::LoginwOpenInput, b"/dev/input/by-id/kbd"));
    assert_eq!(plan, Plan::Open(DeviceKind::Input, b"input/kbd".to_vec()));
}

#[test]
fn drm_device_is_opened_relative_to_dev() {
    let mut b = Broker::new();
    let plan = b.plan_request(&request(LoginwRequestType::LoginwOpenDrm, b"/dev/dri/card0"));
    assert_eq!(plan, Plan::Open(DeviceKind::Drm, b"dri/card0".to_vec()));
    let reply = b.device_opened(DeviceKind::Drm, Ok(6));
    assert_eq!(reply.fd, Some(6));
    assert_eq!(b.drm_dev, Some(6));
}

#[test]
fn failed_open_reports_error_text() {
    let mut b = Broker::new();
    let reply = b.device_opened(DeviceKind::Input, Err(b"ENOENT".to_vec()));
    assert_eq!(reply.resp.typ, LoginwResponseType::LoginwError);
    assert_eq!(reply.fd, None);
    assert_eq!(reply.resp.dat.text(), b"ENOENT".to_vec());
    assert!(b.input_devs.is_empty());
}

#[test]
fn acquire_vt_twice_gives_same_tty_and_number() {
    let mut b = Broker::new();
    assert_eq!(b.plan_request(&request(LoginwRequestType::LoginwAcquireVt, b"")), Plan::SetUpVt);
    let first = b.vt_acquired(5, 3);
    assert!(b.is_active);
    assert_eq!(first.resp.typ, LoginwResponseType::LoginwPassedFd);
    assert_eq!(first.fd, Some(5));
    assert_eq!(first.resp.dat.get_u64(), 3);
    let second = sent(b.plan_request(&request(LoginwRequestType::LoginwAcquireVt, b"")));
    assert_eq!(second, first);
}

#[test]
fn unimplemented_requests_get_no_reply() {
    let b = Broker::new();
    for typ in [
        LoginwRequestType::LoginwSwitchVt,
        LoginwRequestType::LoginwPowerOff,
        LoginwRequestType::LoginwReboot,
        LoginwRequestType::LoginwSuspend,
        LoginwRequestType::LoginwHibernate,
        LoginwRequestType::LoginwCanSuspend,
        LoginwRequestType::LoginwCanHibernate,
    ] {
        assert_eq!(b.plan_request(&request(typ, b"")), Plan::Unsupported);
    }
}

#[test]
fn short_datagram_means_peer_gone() {
    let b = Broker::new();
    assert_eq!(b.plan_datagram(&[]), Plan::Stop);
    assert_eq!(b.plan_datagram(&[0u8; 135]), Plan::Stop);
    let mut unknown = request(LoginwRequestType::LoginwOpenInput, b"").to_bytes();
    unknown[0] = 42;
    assert_eq!(b.plan_datagram(&unknown), Plan::Unsupported);
    let bytes = request(LoginwRequestType::LoginwOpenInput, b"/dev/input/event1").to_bytes();
    assert_eq!(b.plan_datagram(&bytes), Plan::Open(DeviceKind::Input, b"input/event1".to_vec()));
}

#[test]
fn release_signal_deactivates() {
    let mut b = active_broker();
    let effects = b.on_signal(BrokerSignal::User1);
    assert_eq!(
        effects,
        vec![
            Effect::Revoke(9),
            Effect::Close(9),
            Effect::Notify(LoginwResponseType::LoginwDeactivated),
            Effect::DropMaster(4),
            Effect::AckRelease(5),
        ]
    );
    assert!(!b.is_active);
    assert!(b.input_devs.is_empty());
    assert_eq!(b.drm_dev, Some(4));
}

#[test]
fn acquire_signal_reactivates() {
    let mut b = active_broker();
    b.on_signal(BrokerSignal::User1);
    let effects = b.on_signal(BrokerSignal::User1);
    assert_eq!(
        effects,
        vec![
            Effect::AckAcquire(5),
            Effect::SetMaster(4),
            Effect::Notify(LoginwResponseType::LoginwActivated),
        ]
    );
    assert!(b.is_active);
}

#[test]
fn notifications_alternate_over_many_signals() {
    let mut b = active_broker();
    let mut seen = Vec::new();
    for sig in [
        BrokerSignal::User1,
        BrokerSignal::Other,
        BrokerSignal::User1,
        BrokerSignal::Interrupt,
        BrokerSignal::User1,
        BrokerSignal::User1,
    ] {
        for e in b.on_signal(sig) {
            if let Effect::Notify(t) = e {
                seen.push(t);
            }
        }
    }
    assert_eq!(
        seen,
        vec![
            LoginwResponseType::LoginwDeactivated,
            LoginwResponseType::LoginwActivated,
            LoginwResponseType::LoginwDeactivated,
            LoginwResponseType::LoginwActivated,
        ]
    );
}

#[test]
fn release_without_drm_does_nothing() {
    let mut b = Broker::new();
    b.vt_acquired(5, 3);
    b.device_opened(DeviceKind::Input, Ok(9));
    assert!(b.on_signal(BrokerSignal::User1).is_empty());
    assert!(b.is_active);
    assert_eq!(b.input_devs, vec![9]);
}

#[test]
fn termination_signals_are_forwarded() {
    let mut b = active_broker();
    assert_eq!(b.on_signal(BrokerSignal::Terminate), vec![Effect::Forward(BrokerSignal::Terminate)]);
    assert_eq!(b.on_signal(BrokerSignal::Interrupt), vec![Effect::Forward(BrokerSignal::Interrupt)]);
    assert!(b.on_signal(BrokerSignal::Other).is_empty());
    assert!(b.is_active);
    assert_eq!(b.input_devs, vec![9]);
}

#[test]
fn shutdown_releases_everything() {
    let mut b = active_broker();
    b.device_opened(DeviceKind::Input, Ok(12));
    let effects = b.shutdown();
    assert_eq!(
        effects,
        vec![
            Effect::DropMaster(4),
            Effect::Close(4),
            Effect::Close(9),
            Effect::Close(12),
            Effect::RestoreVt(5),
        ]
    );
    assert!(b.input_devs.is_empty());
    assert_eq!(b.drm_dev, None);
    assert_eq!(b.vt, None);
    assert!(!b.is_active);
}

#[test]
fn path_helpers() {
    assert!(has_prefix(b"/dev/dri/card0", b"/dev/dri/"));
    assert!(!has_prefix(b"/dev/dr", b"/dev/dri/"));
    assert!(has_prefix(b"abc", b""));
    assert_eq!(last_component(b"/dev/input/event7"), b"event7".to_vec());
    assert_eq!(last_component(b"plain"), b"plain".to_vec());
    assert_eq!(last_component(b"/dev/input/"), Vec::<u8>::new());
}
