use scr_axum_cranker_router::net::{IpAddr, SocketAddr};
use scr_axum_cranker_router::text;

#[test]
fn test_from_vec_v8_to_i32() {
    let mut i: Vec<u8> = Vec::new();
    i.push(0);
    i.push(0);
    i.push(0);
    i.push(1);
    let j = i32::from_be_bytes(i[0..4].try_into().unwrap());
    assert_eq!(j, 1);
}

#[test]
fn test_from_u8_slice_to_socket_addr() {
    let into = SocketAddr { ip: IpAddr::V4(u32::from_be_bytes([u8::MAX, u8::MAX, u8::MAX, u8::MAX])), port: u16::MAX };
    let direct = SocketAddr { ip: IpAddr::V4(u32::MAX), port: u16::MAX };
    assert_eq!(into, direct)
}

#[test]
fn substring_test() {
    let ascii_string = "This is a normal sentence.";
    let non_ascii_string = "Ｔｈｉｓ　ｉｓ　ａ　ｓｅｎｔｅｎｃｅ　ｗｉｔｈ　ｆｕｌｌ　ｗｉｄｔｈ　ｃｈａｒａｃｔｅｒｓ．";
    let char_vec = text::chars_of(non_ascii_string);
    let ascii_slice_ok = &ascii_string[0..4];
    for i in char_vec.iter() {
        println!("{}", i)
    }
    println!("{:?}", &char_vec[0..8]);
    println!("{}", &char_vec[0..8].iter().collect::<String>());
    println!("{}", ascii_slice_ok);
    assert_eq!(char_vec[0..8].iter().collect::<String>(), "Ｔｈｉｓ　ｉｓ　");
    assert_eq!(ascii_slice_ok, "This");
}

use bytes::Bytes;
use scr_axum_cranker_router::frames::{
    data_messages, get_error_code, get_error_message, header_message, header_messages,
    judge_is_header_end_from_flags, judge_is_stream_end_from_flags, read_frame, rst_message,
    window_update_message,
};

#[test]
fn frames_are_laid_out_in_bytes() {
    assert_eq!(
        window_update_message(1, 258).to_vec(),
        vec![8, 0, 0, 0, 0, 1, 0, 0, 1, 2]
    );
    assert_eq!(
        rst_message(-1, 1, "no".to_string()).to_vec(),
        vec![3, 0, 255, 255, 255, 255, 0, 0, 0, 1, b'n', b'o']
    );
    assert_eq!(
        data_messages(2, true, Some(Bytes::from_static(b"ab"))).to_vec(),
        vec![0, 1, 0, 0, 0, 2, b'a', b'b']
    );
    assert_eq!(data_messages(2, false, None).to_vec(), vec![0, 0, 0, 0, 0, 2]);
    assert_eq!(
        header_message(3, true, true, "x").to_vec(),
        vec![1, 5, 0, 0, 0, 3, b'x']
    );
    assert_eq!(header_message(3, true, false, "x").to_vec()[1], 4);
    assert_eq!(header_message(3, false, true, "x").to_vec()[1], 1);
    assert_eq!(header_message(3, false, false, "x").to_vec()[1], 0);
}

#[test]
fn flags_are_read() {
    assert!(judge_is_stream_end_from_flags(1));
    assert!(judge_is_stream_end_from_flags(5));
    assert!(!judge_is_stream_end_from_flags(4));
    assert!(judge_is_header_end_from_flags(4));
    assert!(judge_is_header_end_from_flags(0xff));
    assert!(!judge_is_header_end_from_flags(3));
}

#[test]
fn frame_is_read_back() {
    let f = read_frame(data_messages(-7, true, Some(Bytes::from_static(b"ab")))).unwrap();
    assert_eq!((f.msg_type, f.flags, f.req_id), (0, 1, -7));
    assert_eq!(f.payload.to_vec(), b"ab".to_vec());
    assert!(read_frame(Bytes::from_static(b"12345")).is_none());
    assert_eq!(read_frame(Bytes::from_static(b"\x01\x02\0\0\0\0")).unwrap().payload.len(), 0);
}

#[test]
fn long_header_goes_out_in_pieces() {
    let line = "é".repeat(16001);
    let frames = header_messages(9, true, true, line.clone());
    assert_eq!(frames.len(), 2);
    let mut text: Vec<u8> = Vec::new();
    for (i, f) in frames.iter().enumerate() {
        let f = read_frame(f.clone()).unwrap();
        assert_eq!(f.req_id, 9);
        assert_eq!(judge_is_header_end_from_flags(f.flags), i == 1);
        assert!(judge_is_stream_end_from_flags(f.flags));
        text.extend_from_slice(&f.payload);
    }
    assert_eq!(String::from_utf8(text).unwrap(), line);
    assert_eq!(header_messages(9, true, false, "a".to_string()).len(), 1);
    assert_eq!(header_messages(9, true, false, "a".repeat(16000)).len(), 1);
}

#[test]
fn error_of_a_reset_is_read() {
    let mut payload = Bytes::from_static(b"\0\0\x01\0gone");
    assert_eq!(get_error_code(&mut payload), 256);
    assert_eq!(get_error_message(&payload), "gone");
    let mut short = Bytes::from_static(b"\0\0");
    assert_eq!(get_error_code(&mut short), -1);
    assert_eq!(get_error_message(&Bytes::new()), "");
}
