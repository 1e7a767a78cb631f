use hpack_codec::field::{HeaderField, LiteralHeaderField as Field};
use hpack_codec::table::{Index, StaticEntry};
use hpack_codec::{Decoder, Encoder};
use httimple::fields::HeaderFields;
use httimple::proto::codec::{parse_frames_from_buffer, try_parse_frames_from_buffer};
use httimple::proto::frame::block_scan::block_is_accepted;
use httimple::proto::frame::continuation::Continuation;
use httimple::proto::frame::data::Data;
use httimple::proto::frame::head::Head;
use httimple::proto::frame::headers::{
    create_header_block_fragment, parse_header_block_fragment, try_parse_header_block_fragment,
    Headers,
};
use httimple::proto::frame::priority::Priority;
use httimple::proto::frame::window_update::WindowUpdate;
use httimple::proto::frame::Frame;
use httimple::proto::util::{bin_to_vec, get_type, pad, pow};
use httimple::proto::{handshake, preface};

fn sample_block() -> Vec<u8> {
    let mut encoder = Encoder::new(4096);
    let mut header = encoder.enter_header_block(Vec::new()).unwrap();
    header.encode_field(StaticEntry::MethodGet).unwrap();
    header.encode_field(Field::with_indexed_name(StaticEntry::Path, b"/hello")).unwrap();
    header.encode_field(Field::new(b"foo", b"bar").with_indexing()).unwrap();
    header.encode_field(Index::dynamic_table_offset() + 0).unwrap();
    header.finish()
}

#[test]
fn head_head_has_flag() {
    let head = Head { length: 0, kind: 0, flags: 1, stream_id: 0 };
    assert_eq!(head.has_flag(0), true);
    assert_eq!(head.has_flag(1), false);
    let head = Head { length: 0, kind: 0, flags: 2, stream_id: 0 };
    assert_eq!(head.has_flag(1), true);
    assert_eq!(head.has_flag(2), false);
    let head = Head { length: 0, kind: 0, flags: 4, stream_id: 0 };
    assert_eq!(head.has_flag(2), true);
    assert_eq!(head.has_flag(3), false);
    let head = Head { length: 0, kind: 0, flags: 128, stream_id: 0 };
    assert_eq!(head.has_flag(7), true);
    assert_eq!(head.has_flag(6), false);
}

#[test]
fn head_head_to_bytes() {
    let head = Head { length: 0, kind: 0, flags: 0, stream_id: 0 };
    assert_eq!(9, head.as_bytes().len());
}

#[test]
fn head_set_flag() {
    let mut head = Head { length: 0, kind: 0, flags: 0, stream_id: 0 };
    head.set_flag(0);
    assert_eq!(head.has_flag(0), true);
    assert_eq!(head.has_flag(1), false);
}

#[test]
fn util_do_pow() {
    assert_eq!(1, pow(4, 0));
    assert_eq!(4, pow(4, 1));
    assert_eq!(16, pow(4, 2));
    assert_eq!(64, pow(4, 3));
}

#[test]
fn util_do_pad() {
    let s = String::from("1");
    let t = String::from("0001");
    assert_eq!(t, pad(s, 4));
    let s = String::from("1111");
    let t = String::from("1111");
    assert_eq!(t, pad(s, 4));
}

#[test]
fn util_do_bin_to_vec() {
    let t = String::from("00000001");
    let v = bin_to_vec(t);
    assert_eq!(1, v[0]);
    let t = String::from("11111111");
    let v = bin_to_vec(t);
    assert_eq!(255, v[0]);
}

#[test]
fn headers_do_hpack() {
    let encoded_data = sample_block();
    let mut decoder = Decoder::new(4096);
    let mut header = decoder.enter_header_block(&encoded_data[..]).unwrap();
    assert_eq!(header.decode_field().unwrap(), HeaderField::new(b":method", b"GET").ok());
    assert_eq!(header.decode_field().unwrap(), HeaderField::new(b":path", b"/hello").ok());
    assert_eq!(header.decode_field().unwrap(), HeaderField::new(b"foo", b"bar").ok());
    assert_eq!(header.decode_field().unwrap(), HeaderField::new(b"foo", b"bar").ok());
}

#[test]
fn util_do_hpack() {
    let mut encoder = Encoder::new(4096);
    let mut header = encoder.enter_header_block(Vec::new()).unwrap();
    header.encode_field(StaticEntry::MethodGet).unwrap();
    header.encode_field(Field::with_indexed_name(StaticEntry::Path, b"/hello")).unwrap();
    header.encode_field(Field::new(b"foo", b"bar").with_indexing()).unwrap();
    header.encode_field(Index::dynamic_table_offset() + 0).unwrap();
    let encoded_data = header.finish();
    let mut decoder = Decoder::new(4096);
    let mut header = decoder.enter_header_block(&encoded_data[..]).unwrap();
    assert_eq!(header.decode_field().unwrap(), HeaderField::new(b":method", b"GET").ok());
    assert_eq!(header.decode_field().unwrap(), HeaderField::new(b":path", b"/hello").ok());
    assert_eq!(header.decode_field().unwrap(), HeaderField::new(b"foo", b"bar").ok());
    assert_eq!(header.decode_field().unwrap(), HeaderField::new(b"foo", b"bar").ok());
}

#[test]
fn proto_head_bytes_and_read_back() {
    let head = Head { length: 0x0a0b0c, kind: 1, flags: 5, stream_id: 6 };
    let bytes = head.as_bytes();
    assert_eq!(bytes, vec![0x0a, 0x0b, 0x0c, 1, 5, 0, 0, 0, 6]);
    let back = Head::from(bytes);
    assert_eq!(back.length, 0x0a0b0c);
    assert_eq!(back.kind, 1);
    assert_eq!(back.flags, 5);
    assert_eq!(back.stream_id, 6);
    // The reserved bit is not part of the identifier.
    let high = Head { length: 1, kind: 0, flags: 0, stream_id: 0x8000_0006 };
    let back = Head::from(high.as_bytes());
    assert_eq!(back.stream_id, 6);
    let zero = Head { length: 7, kind: 0, flags: 0, stream_id: 0 };
    let back = Head::from(zero.as_bytes());
    assert_eq!((back.length, back.kind, back.flags, back.stream_id), (7, 0, 0, 0));
}

#[test]
fn proto_head_clone_and_setters() {
    let mut head = Head { length: 1, kind: 2, flags: 4, stream_id: 9 };
    let c = head.clone();
    assert_eq!((c.length, c.kind, c.flags, c.stream_id), (1, 2, 4, 9));
    head.set_length(300);
    head.set_flag(3);
    assert_eq!(head.length, 300);
    assert_eq!(head.flags, 12);
    assert!(head.has_flag(3));
    assert!(head.has_flag(2));
    assert!(!head.has_flag(9));
}

#[test]
fn proto_get_type_names() {
    assert_eq!(get_type(0), "DATA");
    assert_eq!(get_type(5), "UNKNOWN");
    assert_eq!(get_type(6), "PING");
    assert_eq!(get_type(8), "WINDOW_UPDATE");
    assert_eq!(get_type(9), "CONTINUATION");
    assert_eq!(get_type(10), "UNKNOWN");
}

#[test]
fn proto_handshake() {
    let mut buf = preface();
    assert_eq!(buf, b"PRI * HTTP/2.0\r\n\r\nSM\r\n\r\n".to_vec());
    buf.extend_from_slice(&[0, 0, 0, 4, 0, 0, 0, 0, 0]);
    assert!(handshake(&buf));
    let mut other = buf.clone();
    other[3] = b'X';
    assert!(!handshake(&other));
}

#[test]
fn proto_header_blocks() {
    let fields = parse_header_block_fragment(&sample_block());
    assert_eq!(fields.get(&b":method".to_vec()), Some(&b"GET".to_vec()));
    assert_eq!(fields.get(&b":path".to_vec()), Some(&b"/hello".to_vec()));
    assert_eq!(fields.get(&b"foo".to_vec()), Some(&b"bar".to_vec()));
    assert_eq!(fields.get(&b"bar".to_vec()), None);
    assert!(try_parse_header_block_fragment(&[]).is_none());
    // An integer of more than two continuation octets is refused before decoding.
    assert!(try_parse_header_block_fragment(&[0xFF, 0x80, 0x80, 0x80, 0x00]).is_none());
    assert!(try_parse_header_block_fragment(&[0x82, 0xFF, 0x80, 0x80, 0x80, 0x01]).is_none());
    // A third continuation octet is read; the failing field is passed over.
    let get = try_parse_header_block_fragment(&[0x82, 0xFF, 0x81, 0x81, 0x01, 0x82]).unwrap();
    assert_eq!(get.get(&b":method".to_vec()), Some(&b"GET".to_vec()));
    let get = try_parse_header_block_fragment(&[0x82, 0x0F, 0xFF, 0xFF, 0x01]).unwrap();
    assert_eq!(get.get(&b":method".to_vec()), Some(&b"GET".to_vec()));
    // A block that is only a size update is not entered.
    assert!(try_parse_header_block_fragment(&[0xFF, 0x81, 0x01]).is_none());
    // A field that fails to decode (index 0) is passed over.
    let get = try_parse_header_block_fragment(&[0x82, 0x80]).unwrap();
    assert_eq!(get.get(&b":method".to_vec()), Some(&b"GET".to_vec()));
    let get = try_parse_header_block_fragment(&[0x80, 0x84]).unwrap();
    assert_eq!(get.get(&b":path".to_vec()), Some(&b"/".to_vec()));
    let get = try_parse_header_block_fragment(&[0x82]).unwrap();
    assert_eq!(get.get(&b":method".to_vec()), Some(&b"GET".to_vec()));
    assert!(try_parse_header_block_fragment(&sample_block()).is_some());
    assert_eq!(create_header_block_fragment(HeaderFields::new()), vec![0x88]);
    assert_eq!(httimple::proto::util::create_header_block_fragment(httimple::fields::TextFields::new()), vec![0x88]);
}

#[test]
fn proto_headers_frame() {
    let block = sample_block();
    let mut payload = vec![2u8];
    payload.extend_from_slice(&[0, 0, 0, 1, 16]);
    payload.extend_from_slice(&block);
    let head = Head { length: payload.len() as u32, kind: 1, flags: 0x08 | 0x20 | 0x01 | 0x04, stream_id: 1 };
    let h = Headers::from(head, payload);
    assert!(h.is_end_stream());
    assert!(h.is_end_headers());
    assert_eq!(h.get_headers().get(&b":path".to_vec()), Some(&b"/hello".to_vec()));
    let bad = Headers::try_from(Head { length: 0, kind: 1, flags: 0x20, stream_id: 1 }, vec![1, 2]);
    assert!(bad.is_none());
    let mut out = Headers::new(3);
    out.insert(b":status".to_vec(), b"200".to_vec());
    assert_eq!(out.as_bytes(), vec![0, 0, 1, 1, 4, 0, 0, 0, 3, 0x88]);
}

#[test]
fn proto_data_frame() {
    let head = Head { length: 6, kind: 0, flags: 0x08 | 0x01, stream_id: 1 };
    let d = Data::from(head, vec![2, 10, 11, 12, 0, 0]);
    assert_eq!(d.get_payload(), vec![10, 11, 12]);
    assert!(d.is_end_stream());
    // Without PADDED the whole payload is the data.
    let plain = Data::from(Head { length: 2, kind: 0, flags: 0, stream_id: 1 }, vec![5, 6]);
    assert_eq!(plain.get_payload(), vec![5, 6]);
    assert!(!plain.is_end_stream());
    assert!(Data::try_from(Head { length: 2, kind: 0, flags: 0x08, stream_id: 1 }, vec![5, 6]).is_none());
    let mut out = Data::new(7, vec![1, 2]);
    assert!(!out.is_end_stream());
    assert_eq!(out.as_bytes(), vec![0, 0, 2, 0, 1, 0, 0, 0, 7, 1, 2]);
    assert!(out.is_end_stream());
    assert_eq!(out.get_payload(), Vec::<u8>::new());
}

#[test]
fn proto_other_frames() {
    let p = Priority::from(Head { length: 5, kind: 2, flags: 0, stream_id: 1 }, vec![0x80, 0, 0, 3, 200]);
    let text = format!("{:?}", p);
    assert!(text.contains("stream_dependency: 3"));
    assert!(text.contains("weigth: 200"));
    assert!(Priority::try_from(Head { length: 4, kind: 2, flags: 0, stream_id: 1 }, vec![0, 0, 0, 1]).is_none());
    let w = WindowUpdate::from(Head { length: 4, kind: 8, flags: 0, stream_id: 0 }, vec![0x80, 0, 1, 0]);
    assert!(format!("{:?}", w).contains("window_size_increment: 256"));
    let c = Continuation::from(Head { length: 0, kind: 9, flags: 4, stream_id: 1 }, sample_block());
    assert!(c.is_end_headers());
    assert_eq!(c.get_headers().get(&b"foo".to_vec()), Some(&b"bar".to_vec()));
}

#[test]
fn proto_frames_in_a_buffer() {
    let mut buf = vec![0, 0, 0, 4, 0, 0, 0, 0, 0];
    buf.extend_from_slice(&[0, 0, 4, 8, 0, 0, 0, 0, 2, 0, 0, 0, 9]);
    buf.extend_from_slice(&[0, 0, 1, 3, 0, 0, 0, 0, 2, 7]);
    let (frame, len, stream) = Frame::parse(&buf);
    assert_eq!(len, 9);
    assert_eq!(stream, 0);
    assert!(!frame.is_call());
    let frames = parse_frames_from_buffer(&buf);
    assert_eq!(frames.len(), 3);
    assert!(matches!(frames[0], Frame::Settings(_)));
    assert!(matches!(frames[1], Frame::WindowUpdate(_)));
    match &frames[2] {
        Frame::Unknown(v) => assert_eq!(v, &vec![7]),
        _ => panic!("not an unknown frame"),
    }
    // A frame that runs past the buffer cannot be read.
    let mut cut = buf.clone();
    cut.truncate(buf.len() - 1);
    assert!(try_parse_frames_from_buffer(&cut).is_none());
    // A SETTINGS payload whose length is not a multiple of six holds no settings.
    match Frame::try_parse(&[0, 0, 3, 4, 0, 0, 0, 0, 0, 1, 2, 3]) {
        Some((Frame::Settings(s), 12, 0)) => assert!(format!("{:?}", s).contains("inner: []")),
        _ => panic!("not a settings frame"),
    }
    assert_eq!(try_parse_frames_from_buffer(&[]).map(|v| v.len()), Some(0));
}

#[test]
fn proto_frames_of_joined_buffers() {
    let a = vec![0u8, 0, 0, 4, 0, 0, 0, 0, 0, 0, 0, 1, 3, 0, 0, 0, 0, 2, 5];
    let b = vec![0u8, 0, 4, 8, 0, 0, 0, 0, 4, 0, 0, 1, 0];
    let mut joined = a.clone();
    joined.extend_from_slice(&b);
    let all: Vec<String> = parse_frames_from_buffer(&joined).iter().map(|f| format!("{:?}", f)).collect();
    let mut parts: Vec<String> = parse_frames_from_buffer(&a).iter().map(|f| format!("{:?}", f)).collect();
    parts.extend(parse_frames_from_buffer(&b).iter().map(|f| format!("{:?}", f)));
    assert_eq!(all, parts);
    assert_eq!(all.len(), 3);
}

#[test]
fn proto_data_frame_reads_back() {
    let mut out = Data::new(7, vec![1, 2, 3]);
    let bytes = out.as_bytes();
    match Frame::try_parse(&bytes) {
        Some((Frame::Data(d), len, stream)) => {
            assert_eq!(len, bytes.len());
            assert_eq!(stream, 7);
            assert_eq!(d.get_payload(), vec![1, 2, 3]);
            assert!(d.is_end_stream());
        }
        _ => panic!("not a data frame"),
    }
}

#[test]
fn proto_block_check() {
    assert!(block_is_accepted(&[0x82]));
    assert!(block_is_accepted(&[0x82, 0x80]));
    // An empty block is not entered, nor one that ends after its size updates.
    assert!(!block_is_accepted(&[]));
    assert!(!block_is_accepted(&[0xFF, 0x81, 0x01]));
    // Up to three continuation octets are read, a fourth is not.
    assert!(block_is_accepted(&[0xFF, 0x81, 0x01, 0x82]));
    assert!(block_is_accepted(&[0x82, 0xFF, 0x81, 0x81, 0x01, 0x82]));
    assert!(!block_is_accepted(&[0x3F, 0x80, 0x80, 0x80, 0x00]));
    assert!(!block_is_accepted(&[0x82, 0xFF, 0x80, 0x80, 0x80, 0x01]));
    // A fourth that is not there fails the read, at the end of the block.
    assert!(block_is_accepted(&[0x82, 0xFF, 0x80, 0x80, 0x80]));
    // A size update above 4096 is refused: here 31 + 1 + 128 + 16384.
    assert!(!block_is_accepted(&[0xFF, 0x81, 0x81, 0x01, 0x82]));
    // A third octet that takes the integer past 16 bits fails the read.
    assert!(block_is_accepted(&[0x82, 0xFF, 0xFF, 0xFF, 0x03, 0x82]));
    // A size update of at most 4096 is taken.
    assert!(block_is_accepted(&[0x3F, 0xE1, 0x1F, 0x82]));
    assert!(!block_is_accepted(&[0x3F, 0xE2, 0x1F, 0x82]));
    // A value length of 16511 that runs past the block fails the read.
    assert!(block_is_accepted(&[0x04, 0x7F, 0x80, 0x80, 0x01]));
    // A literal with a new name, then an index cut short.
    assert!(block_is_accepted(&[0x00, 0x01, b'a', 0x01, b'b', 0xFF, 0xFF, 0xFF]));
    // A size update among the fields stops the reader for good.
    assert!(!block_is_accepted(&[0x82, 0x20]));
    // A string that runs past the end fails, and reading goes on after its
    // length: here to the end of the block.
    assert!(block_is_accepted(&[0x00, 0x05, b'a']));
}

fn plain_literal(name_len: usize, name_len_octets: &[u8], value_len: usize, value_len_octets: &[u8]) -> Vec<u8> {
    let mut block = vec![0x00];
    block.extend_from_slice(name_len_octets);
    block.extend(std::iter::repeat(b'n').take(name_len));
    block.extend_from_slice(value_len_octets);
    block.extend(std::iter::repeat(b'v').take(value_len));
    block
}

#[test]
fn proto_long_fields() {
    // 20000 and 20000 octets, each length in three continuation octets.
    let block = plain_literal(20000, &[0x7F, 0xA1, 0x9B, 0x01], 20000, &[0x7F, 0xA1, 0x9B, 0x01]);
    assert!(block_is_accepted(&block));
    let fields = try_parse_header_block_fragment(&block).unwrap();
    assert_eq!(fields.get(&vec![b'n'; 20000]), Some(&vec![b'v'; 20000]));
    // 40000 and 30000 octets make a field the decoder cannot hold.
    let block = plain_literal(40000, &[0x7F, 0xC1, 0xB7, 0x02], 30000, &[0x7F, 0xB1, 0xE9, 0x01]);
    assert!(!block_is_accepted(&block));
    assert!(try_parse_header_block_fragment(&block).is_none());
}
