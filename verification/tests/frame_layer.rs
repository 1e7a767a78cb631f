use httimple::frame::data::Data;
use httimple::frame::head::Head;
use httimple::frame::headers::Headers;
use httimple::frame::settings::{read_settings, Settings};
use httimple::frame::util::{bin_to_vec, get_type, pad, pow};
use httimple::frame::Frame;

#[test]
fn head_has_flag() {
    let head = Head { length: 0, kind: 0, flags: 128, stream_id: 0 };
    assert_eq!(head.has_flag(0), true);
    assert_eq!(head.has_flag(1), false);
    let head = Head { length: 0, kind: 0, flags: 64, stream_id: 0 };
    assert_eq!(head.has_flag(1), true);
    assert_eq!(head.has_flag(2), false);
    let head = Head { length: 0, kind: 0, flags: 32, stream_id: 0 };
    assert_eq!(head.has_flag(2), true);
    assert_eq!(head.has_flag(3), false);
    let head = Head { length: 0, kind: 0, flags: 1, stream_id: 0 };
    assert_eq!(head.has_flag(7), true);
    assert_eq!(head.has_flag(6), false);
}

#[test]
fn head_to_bytes() {
    let head = Head { length: 0, kind: 0, flags: 0, stream_id: 0 };
    assert_eq!(9, head.as_bytes().len());
}

#[test]
fn do_pow() {
    assert_eq!(1, pow(4, 0));
    assert_eq!(4, pow(4, 1));
    assert_eq!(16, pow(4, 2));
    assert_eq!(64, pow(4, 3));
}

#[test]
fn do_pad() {
    let s = String::from("1");
    let t = String::from("0001");
    assert_eq!(t, pad(s, 4));
    let s = String::from("1111");
    let t = String::from("1111");
    assert_eq!(t, pad(s, 4));
}

#[test]
fn do_bin_to_vec() {
    let t = String::from("00000001");
    let v = bin_to_vec(t);
    assert_eq!(1, v[0]);
    let t = String::from("11111111");
    let v = bin_to_vec(t);
    assert_eq!(255, v[0]);
}

#[test]
fn layer_head_has_flag_beyond_eight() {
    let head = Head { length: 0, kind: 0, flags: 255, stream_id: 0 };
    assert!(!head.has_flag(8));
    assert!(!head.has_flag(200));
}

#[test]
fn layer_head_bytes_are_big_endian() {
    let head = Head { length: 0x010203, kind: 4, flags: 1, stream_id: 0x05060708 };
    assert_eq!(head.as_bytes(), vec![1, 2, 3, 4, 1, 5, 6, 7, 8]);
    let same = httimple::proto::frame::head::Head { length: 0x010203, kind: 4, flags: 1, stream_id: 0x05060708 };
    assert_eq!(head.as_bytes(), same.as_bytes());
}

#[test]
fn layer_head_bytes_with_long_fields() {
    // A length of 32 binary digits and a stream identifier below 2^31 make
    // 80 digits: ten bytes.
    let head = Head { length: 0x8000_0000, kind: 0, flags: 0, stream_id: 1 };
    let bytes = head.as_bytes();
    assert_eq!(bytes.len(), 10);
    assert_eq!(bytes[0], 0x80);
    assert_eq!(bytes[9], 1);
}

#[test]
fn layer_head_from_bytes() {
    let head = Head::from(vec![0, 0, 5, 1, 0x25, 0, 0, 0, 3, 99]);
    assert_eq!(head.length, 5);
    assert_eq!(head.kind, 1);
    assert_eq!(head.flags, 0x25);
    assert_eq!(head.stream_id, 3);
    // The reserved bit is skipped.
    let reserved = Head::from(vec![0, 0, 0, 0, 0, 0x80, 0, 1, 2]);
    assert_eq!(reserved.stream_id, 0x102);
    let short = Head::from(vec![1, 2, 3]);
    assert_eq!(short.length, 0);
    assert_eq!(short.stream_id, 0);
}

#[test]
fn layer_pad_keeps_long_strings() {
    assert_eq!(pad(String::from("101"), 2), "101");
    assert_eq!(pad(String::new(), 3), "000");
}

#[test]
fn layer_bin_to_vec_several_bytes() {
    assert_eq!(bin_to_vec(String::from("0000001010000000")), vec![2, 128]);
    assert_eq!(bin_to_vec(String::new()), Vec::<u8>::new());
}

#[test]
fn layer_get_type_names() {
    assert_eq!(get_type(0), "DATA");
    assert_eq!(get_type(4), "SETTINGS");
    assert_eq!(get_type(5), "PING");
    assert_eq!(get_type(8), "CONTINUATION");
    assert_eq!(get_type(9), "UNKNOWN");
}

#[test]
fn layer_settings_new() {
    let s = Settings::new(3);
    let text = format!("{:?}", s);
    assert!(text.contains("length: 18"));
    assert!(text.contains("kind: 4"));
    assert!(text.contains("stream_id: 3"));
    assert!(text.contains("id: 1, value: 4096"));
    assert!(text.contains("id: 4, value: 65535"));
    assert!(text.contains("id: 5, value: 16384"));
}

#[test]
fn layer_settings_read_six_bytes_each() {
    // Eighteen bytes: three settings.
    let buf = [0u8, 1, 0, 0, 16, 0, 0, 4, 0, 0, 255, 255, 0, 5, 0, 0, 64, 0];
    let settings = read_settings(&buf);
    assert_eq!(settings.len(), 3);
    assert_eq!(format!("{:?}", settings[0]), "Setting { id: 1, value: 4096 }");
    assert_eq!(format!("{:?}", settings[1]), "Setting { id: 4, value: 65535 }");
    assert_eq!(format!("{:?}", settings[2]), "Setting { id: 5, value: 16384 }");
    // Twelve bytes: two settings.
    assert_eq!(read_settings(&buf[..12]).len(), 2);
    // A length that is not a multiple of six gives none.
    assert_eq!(read_settings(&[1, 2, 3]).len(), 0);
    assert_eq!(read_settings(&[1, 2, 3, 4]).len(), 0);
    assert_eq!(read_settings(&[]).len(), 0);
}

#[test]
fn layer_frame_parse_settings_and_unknown() {
    let mut buf = vec![0, 0, 6, 4, 0, 0, 0, 0, 0];
    buf.extend_from_slice(&[0, 3, 0, 0, 0, 100]);
    let (frame, len) = Frame::parse(buf);
    assert_eq!(len, 15);
    match frame {
        Frame::Settings(s) => assert!(format!("{:?}", s).contains("id: 3, value: 100")),
        _ => panic!("not a settings frame"),
    }
    let (frame, len) = Frame::parse(vec![0, 0, 2, 6, 0, 0, 0, 0, 0, 7, 8]);
    assert_eq!(len, 11);
    match frame {
        Frame::Unknown(v) => assert_eq!(v, vec![7, 8]),
        _ => panic!("not an unknown frame"),
    }
    let (frame, _) = Frame::parse(vec![0, 0, 1, 1, 0, 0, 0, 0, 2, 9]);
    match frame {
        Frame::Headers(h) => assert!(format!("{:?}", h).contains("kind: 1")),
        _ => panic!("not a headers frame"),
    }
}

#[test]
fn layer_data_frames() {
    let d = Data::new();
    let text = format!("{:?}", d);
    assert!(text.contains("stream_id: 7"));
    assert!(text.contains("[24, 23, 23, 23, 23, 26, 45, 45, 23, 12, 11, 12, 23]"));
    // Flag 3 counted from the most significant bit is 0x10: the data lies
    // between the pad length and the padding.
    let head = Head { length: 4, kind: 0, flags: 0x10, stream_id: 1 };
    let d = Data::from(head, vec![1, 9, 8, 0]);
    assert!(format!("{:?}", d).contains("inner: [9, 8]"));
    // Without it the whole payload is the data.
    let head = Head { length: 3, kind: 0, flags: 0, stream_id: 1 };
    let d = Data::from(head, vec![4, 5, 6]);
    assert!(format!("{:?}", d).contains("inner: [4, 5, 6]"));
}

#[test]
fn layer_headers_frames() {
    let mut h = Headers::new(5);
    h.insert(String::from(":status"), String::from("200"));
    h.insert(String::from(":status"), String::from("404"));
    let text = format!("{:?}", h);
    assert!(text.contains("404"));
    assert!(!text.contains("\"200\""));
    let head = Head { length: 6, kind: 1, flags: 0x10 | 0x04, stream_id: 1 };
    let h = Headers::from(head, vec![0, 0, 0, 0, 0, 0]);
    assert!(format!("{:?}", h).contains("entries: []"));
}

#[test]
fn layer_byte_written_in_binary_reads_back() {
    for n in [0u8, 1, 7, 128, 200, 255] {
        let digits = pad(format!("{:b}", n), 8);
        assert_eq!(bin_to_vec(digits), vec![n]);
    }
}
