use loginw::priority::{as_u64, make_normal, make_realtime, priority_applied, Priority, PriorityClass};
use loginw::protocol::{
    LoginwData, LoginwRequest, LoginwRequestType, LoginwResponse, LoginwResponseType, DATA_LEN,
    RECORD_LEN,
};
use loginw::vt::{tty_name, tty_of_vt};

fn request_with_text(typ: LoginwRequestType, text: &[u8]) -> LoginwRequest {
    let mut req = LoginwRequest::new(typ);
    req.dat = LoginwData::from_text(text);
    req
}

#[test]
fn new_request_has_zero_payload() {
    let req = LoginwRequest::new(LoginwRequestType::LoginwAcquireVt);
    assert_eq!(req.typ, LoginwRequestType::LoginwAcquireVt);
    assert_eq!(req.dat.bytes, vec![0u8; 128]);
}

#[test]
fn new_response_has_zero_payload() {
    let resp = LoginwResponse::new(LoginwResponseType::LoginwDone);
    assert_eq!(resp.typ, LoginwResponseType::LoginwDone);
    assert_eq!(resp.dat.bytes.len(), DATA_LEN);
    assert!(resp.dat.bytes.iter().all(|b| *b == 0));
}

#[test]
fn request_layout_is_tag_padding_payload() {
    let req = request_with_text(LoginwRequestType::LoginwCanSuspend, b"ab");
    let b = req.to_bytes();
    assert_eq!(b.len(), RECORD_LEN);
    // 302 = 0x012e, little-endian
    assert_eq!(&b[0..8], &[0x2e, 0x01, 0, 0, 0, 0, 0, 0]);
    assert_eq!(&b[8..10], b"ab");
    assert!(b[10..].iter().all(|x| *x == 0));
}

#[test]
fn request_round_trip_every_opcode() {
    let all = [
        LoginwRequestType::LoginwOpenInput,
        LoginwRequestType::LoginwOpenDrm,
        LoginwRequestType::LoginwAcquireVt,
        LoginwRequestType::LoginwSwitchVt,
        LoginwRequestType::LoginwPowerOff,
        LoginwRequestType::LoginwReboot,
        LoginwRequestType::LoginwSuspend,
        LoginwRequestType::LoginwHibernate,
        LoginwRequestType::LoginwCanSuspend,
        LoginwRequestType::LoginwCanHibernate,
    ];
    for typ in all.iter() {
        let req = request_with_text(*typ, b"/dev/input/event3");
        let bytes = req.to_bytes();
        let back = LoginwRequest::from_bytes(&bytes).expect("parses");
        assert_eq!(back, req);
        assert_eq!(back.to_bytes(), bytes);
        assert_eq!(LoginwRequestType::from_code(typ.code()), Some(*typ));
    }
}

#[test]
fn response_round_trip() {
    let mut resp = LoginwResponse::new(LoginwResponseType::LoginwPassedFd);
    resp.dat = LoginwData::from_u64(7);
    let bytes = resp.to_bytes();
    assert_eq!(&bytes[0..2], &[2, 0]);
    let back = LoginwResponse::from_bytes(&bytes).expect("parses");
    assert_eq!(back, resp);
    assert_eq!(back.dat.get_u64(), 7);
}

#[test]
fn from_bytes_rejects_wrong_length_and_unknown_tag() {
    let req = LoginwRequest::new(LoginwRequestType::LoginwOpenDrm);
    let bytes = req.to_bytes();
    assert!(LoginwRequest::from_bytes(&bytes[..RECORD_LEN - 1]).is_none());
    let mut longer = bytes.clone();
    longer.push(0);
    assert!(LoginwRequest::from_bytes(&longer).is_none());
    let mut unknown = bytes.clone();
    unknown[0] = 99;
    assert!(LoginwRequest::from_bytes(&unknown).is_none());
    assert!(LoginwResponse::from_bytes(&unknown).is_none());
    assert_eq!(LoginwResponseType::from_code(101), Some(LoginwResponseType::LoginwDeactivated));
    assert_eq!(LoginwResponseType::from_code(3), None);
}

#[test]
fn u64_payload_is_little_endian() {
    let d = LoginwData::from_u64(0x0102_0304_0506_0708);
    assert_eq!(&d.bytes[0..8], &[8, 7, 6, 5, 4, 3, 2, 1]);
    assert_eq!(d.bytes.len(), DATA_LEN);
    assert!(d.bytes[8..].iter().all(|b| *b == 0));
    assert_eq!(d.get_u64(), 0x0102_0304_0506_0708);
    assert_eq!(LoginwData::from_u64(u64::MAX).get_u64(), u64::MAX);
}

#[test]
fn bool_payload_reads_first_byte() {
    assert!(!LoginwData::default().get_bool());
    assert!(LoginwData::from_u64(1).get_bool());
    assert!(LoginwData::from_text(b"x").get_bool());
}

#[test]
fn text_stops_at_first_nul() {
    let d = LoginwData::from_text(b"/dev/dri/card0\0junk");
    assert_eq!(d.text(), b"/dev/dri/card0".to_vec());
}

#[test]
fn text_never_reads_last_byte() {
    let d = LoginwData::from_text(&[b'a'; 200]);
    assert_eq!(d.bytes.len(), DATA_LEN);
    assert_eq!(d.text(), vec![b'a'; 127]);
}

#[test]
fn long_text_is_cut_to_payload() {
    let long: Vec<u8> = (0..300u32).map(|i| (i % 251) as u8 + 1).collect();
    let d = LoginwData::from_text(&long);
    assert_eq!(d.bytes, long[..128].to_vec());
}

#[test]
fn widening_keeps_value() {
    assert_eq!(as_u64(0), 0);
    assert_eq!(as_u64(255), 255);
}

#[test]
fn realtime_and_normal_settings() {
    assert_eq!(make_realtime(), Priority { class: PriorityClass::Realtime, level: 1 });
    assert_eq!(make_normal(), Priority { class: PriorityClass::Normal, level: 0 });
    assert!(priority_applied(0));
    assert!(!priority_applied(-1));
}

#[test]
fn tty_names() {
    assert_eq!(tty_name(0), b"ttyv0".to_vec());
    assert_eq!(tty_name(9), b"ttyv9".to_vec());
    assert_eq!(tty_name(12), b"ttyv12".to_vec());
    assert_eq!(tty_name(4_000_000_000), b"ttyv4000000000".to_vec());
}

#[test]
fn free_vt_maps_to_previous_tty() {
    assert_eq!(tty_of_vt(1), Some(0));
    assert_eq!(tty_of_vt(3), Some(2));
    assert_eq!(tty_of_vt(0), None);
    assert_eq!(tty_of_vt(-5), None);
    assert_eq!(tty_of_vt(i32::MAX), Some(i32::MAX as u32 - 1));
}
