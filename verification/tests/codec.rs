use scsock::msg::{DecodeError, Message};

fn round_trips(m: Message) {
    let bytes = m.as_raw_bytes();
    let decoded = Message::read(&bytes);
    assert_eq!(decoded, Ok(Some(m)));
}

#[test]
fn round_trip_get_status() {
    round_trips(Message::GetStatus);
}

#[test]
fn round_trip_set_id() {
    round_trips(Message::SetID(0));
    round_trips(Message::SetID(7));
    round_trips(Message::SetID(255));
}

#[test]
fn round_trip_next_id() {
    round_trips(Message::NextID);
}

#[test]
fn round_trip_re_status() {
    round_trips(Message::ReStatus(vec![]));
    round_trips(Message::ReStatus(vec![104, 105]));
    round_trips(Message::ReStatus(vec![0; 255]));
}

#[test]
fn round_trip_error_replies() {
    round_trips(Message::ReErrNoID);
    round_trips(Message::ReErrIdiot);
    round_trips(Message::ReErrUnkwn);
}

#[test]
fn encode_exact_bytes() {
    assert_eq!(Message::GetStatus.as_raw_bytes(), vec![0x00]);
    assert_eq!(Message::SetID(5).as_raw_bytes(), vec![0x01, 0x05]);
    assert_eq!(Message::NextID.as_raw_bytes(), vec![0x02]);
    assert_eq!(
        Message::ReStatus(vec![0x68, 0x69]).as_raw_bytes(),
        vec![0x80, 0x02, 0x68, 0x69]
    );
    assert_eq!(Message::ReErrNoID.as_raw_bytes(), vec![0x81]);
    assert_eq!(Message::ReErrIdiot.as_raw_bytes(), vec![0x82]);
    assert_eq!(Message::ReErrUnkwn.as_raw_bytes(), vec![0x83]);
}

#[test]
fn truncated_input_is_an_error_not_unrecognized() {
    assert_eq!(Message::read(&[]), Err(DecodeError::Truncated));
    assert_eq!(Message::read(&[0x01]), Err(DecodeError::Truncated));
    assert_eq!(Message::read(&[0x80]), Err(DecodeError::Truncated));
    assert_eq!(Message::read(&[0x80, 0x03, 0x00, 0x00]), Err(DecodeError::Truncated));
}

#[test]
fn unrecognized_discriminant_is_a_sentinel_not_an_error() {
    assert_eq!(Message::read(&[0x55]), Ok(None));
    assert_eq!(Message::read(&[0x03]), Ok(None));
    assert_eq!(Message::read(&[0xff]), Ok(None));
}

#[test]
fn raw_reply_discriminant_decodes_as_that_reply() {
    // 0x83 is a recognized discriminant (the ErrUnknown reply), so decoding
    // yields the message, not the unrecognized sentinel and not an error.
    assert_eq!(Message::read(&[0x83]), Ok(Some(Message::ReErrUnkwn)));
}

#[test]
fn trailing_bytes_are_ignored() {
    assert_eq!(Message::read(&[0x00, 0x63]), Ok(Some(Message::GetStatus)));
    assert_eq!(
        Message::read(&[0x80, 0x01, 0x68, 0x69, 0x6a]),
        Ok(Some(Message::ReStatus(vec![0x68])))
    );
}

#[test]
fn frame_completion_follows_the_announced_length() {
    assert!(!scsock::msg::is_frame_complete(&[]));
    assert!(scsock::msg::is_frame_complete(&[0x00]));
    assert!(!scsock::msg::is_frame_complete(&[0x01]));
    assert!(scsock::msg::is_frame_complete(&[0x01, 0x04]));
    assert!(!scsock::msg::is_frame_complete(&[0x80]));
    assert!(scsock::msg::is_frame_complete(&[0x80, 0x00]));
    assert!(!scsock::msg::is_frame_complete(&[0x80, 0x02, 0x68]));
    assert!(scsock::msg::is_frame_complete(&[0x80, 0x02, 0x68, 0x69]));
    // an unrecognized discriminant is a whole one-byte frame
    assert!(scsock::msg::is_frame_complete(&[0x55]));
}
