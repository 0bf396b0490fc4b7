use pakv::client::{classify_reply, match_msg_from_client, reply_fail_str, reply_succ_str, ClientCmd, ReplyKind};
use pakv::msg_gen::{append_headlen, genmsg_delrpl, genmsg_getrpl, genmsg_setrpl, headlen_bytes};
use pakv::msg_parse::MsgParser;

fn frame(body: &[u8]) -> Vec<u8> {
    append_headlen(body.to_vec())
}

#[test]
fn append_headlen_prefixes_big_endian_length() {
    assert_eq!(append_headlen(vec![1, 2, 3]), vec![0, 0, 0, 3, 1, 2, 3]);
    assert_eq!(append_headlen(vec![]), vec![0, 0, 0, 0]);
    let long = vec![7u8; 300];
    let f = append_headlen(long.clone());
    assert_eq!(&f[0..4], &[0, 0, 1, 44]);
    assert_eq!(&f[4..], &long[..]);
}

#[test]
fn headlen_bytes_counts_utf8_bytes() {
    assert_eq!(headlen_bytes(&"abcd".to_string()), [0, 0, 0, 4]);
    assert_eq!(headlen_bytes(&"é".to_string()), [0, 0, 0, 2]);
}

#[test]
fn replies_are_framed_texts() {
    let mut exp = vec![0, 0, 0, 13];
    exp.extend_from_slice(b"s:del success");
    assert_eq!(genmsg_delrpl(true), exp);
    let mut exp = vec![0, 0, 0, 13];
    exp.extend_from_slice(b"f:k not found");
    assert_eq!(genmsg_delrpl(false), exp);
    let mut exp = vec![0, 0, 0, 13];
    exp.extend_from_slice(b"s:set success");
    assert_eq!(genmsg_setrpl(true), exp);
    let mut exp = vec![0, 0, 0, 12];
    exp.extend_from_slice(b"f:set failed");
    assert_eq!(genmsg_setrpl(false), exp);
    let mut exp = vec![0, 0, 0, 16];
    exp.extend_from_slice(b"s:get value: abc");
    assert_eq!(genmsg_getrpl(Some("abc".to_string())), exp);
    let mut exp = vec![0, 0, 0, 13];
    exp.extend_from_slice(b"f:k not found");
    assert_eq!(genmsg_getrpl(None), exp);
}

#[test]
fn parser_yields_a_whole_message() {
    let mut p = MsgParser::create();
    let buf = frame(b"hello");
    p.before_handle();
    assert_eq!(p.handle_a_buffset(&buf, buf.len()), Some(&b"hello"[..]));
    assert_eq!(p.handle_a_buffset(&buf, buf.len()), None);
}

#[test]
fn parser_yields_back_to_back_messages_in_order() {
    let mut p = MsgParser::create();
    let mut buf = frame(b"get a");
    buf.extend(frame(b"set a b"));
    buf.extend(frame(b""));
    let n = buf.len();
    p.before_handle();
    let mut got: Vec<Vec<u8>> = Vec::new();
    loop {
        match p.handle_a_buffset(&buf, n) {
            None => break,
            Some(b) => got.push(b.to_vec()),
        }
    }
    assert_eq!(got, vec![b"get a".to_vec(), b"set a b".to_vec(), Vec::new()]);
}

#[test]
fn parser_reuses_its_buffer_across_reads() {
    let mut p = MsgParser::create();
    let first = frame(b"a longer message");
    p.before_handle();
    assert_eq!(p.handle_a_buffset(&first, first.len()), Some(&b"a longer message"[..]));
    let second = frame(b"short");
    p.before_handle();
    assert_eq!(p.handle_a_buffset(&second, second.len()), Some(&b"short"[..]));
}

#[test]
fn parser_keeps_a_partial_header_for_the_next_read() {
    let mut p = MsgParser::create();
    let buf = [0u8, 0u8, 9u8, 9u8];
    p.before_handle();
    assert_eq!(p.handle_a_buffset(&buf, 2), None);
    let rest = [0u8, 2u8, b'h', b'i'];
    p.before_handle();
    assert_eq!(p.handle_a_buffset(&rest, rest.len()), Some(&b"hi"[..]));
}

#[test]
fn parser_reassembles_frames_cut_anywhere() {
    let mut stream = frame(b"get a");
    stream.extend(frame(b"set key value"));
    stream.extend(frame(b""));
    stream.extend(frame(b"del a"));
    for cut in 1..stream.len() {
        let mut p = MsgParser::create();
        let mut got: Vec<Vec<u8>> = Vec::new();
        for chunk in stream.chunks(cut) {
            got.extend(p.take_messages(chunk, chunk.len()));
        }
        assert_eq!(
            got,
            vec![b"get a".to_vec(), b"set key value".to_vec(), Vec::new(), b"del a".to_vec()],
            "chunks of {}",
            cut
        );
    }
}

#[test]
fn parser_holds_an_unfinished_frame() {
    let mut p = MsgParser::create();
    let mut buf = frame(b"one");
    buf.extend_from_slice(&[0, 0, 0, 5, b'a', b'b']);
    assert_eq!(p.take_messages(&buf, buf.len()), vec![b"one".to_vec()]);
    assert_eq!(p.take_messages(&[b'c', b'd', b'e', 0, 0], 5), vec![b"abcde".to_vec()]);
    assert_eq!(p.take_messages(&[0, 1, b'z', 99], 3), vec![b"z".to_vec()]);
}

#[test]
fn client_reads_replies() {
    assert!(matches!(classify_reply("s:set success"), ReplyKind::Succ));
    assert!(matches!(classify_reply("f:k not found"), ReplyKind::Fail));
    assert!(matches!(classify_reply("xx s:"), ReplyKind::Invalid));
    assert!(matches!(classify_reply("f:no s:"), ReplyKind::Fail));
    assert!(matches!(classify_reply("nothing"), ReplyKind::Invalid));
    assert!(matches!(classify_reply(""), ReplyKind::Invalid));
}

#[test]
fn server_reply_strings() {
    assert_eq!(reply_succ_str("ok".to_string()), "s:ok");
    assert_eq!(reply_fail_str("no".to_string()), "f:no");
}

#[test]
fn commands_are_parsed_from_words() {
    match match_msg_from_client(b"get  key1\n") {
        Some(ClientCmd::GetK { k }) => assert_eq!(k, "key1"),
        _ => panic!("expected get"),
    }
    match match_msg_from_client(b" set k v ") {
        Some(ClientCmd::SetKv { k, v }) => {
            assert_eq!(k, "k");
            assert_eq!(v, "v");
        },
        _ => panic!("expected set"),
    }
    match match_msg_from_client(b"del\tk") {
        Some(ClientCmd::DelK { k }) => assert_eq!(k, "k"),
        _ => panic!("expected del"),
    }
    assert!(match_msg_from_client(b"get").is_none());
    assert!(match_msg_from_client(b"set k").is_none());
    assert!(match_msg_from_client(b"put k v").is_none());
    assert!(match_msg_from_client(b"get \xff").is_none());
    assert!(match_msg_from_client(b"").is_none());
}

#[test]
fn commands_split_on_unicode_white_space() {
    match match_msg_from_client("get\u{3000}key".as_bytes()) {
        Some(ClientCmd::GetK { k }) => assert_eq!(k, "key"),
        _ => panic!("expected get"),
    }
    match match_msg_from_client(b"\x0bset\x0bk\x0bv") {
        Some(ClientCmd::SetKv { k, v }) => {
            assert_eq!(k, "k");
            assert_eq!(v, "v");
        }
        _ => panic!("expected set"),
    }
    match match_msg_from_client("del\u{a0}é".as_bytes()) {
        Some(ClientCmd::DelK { k }) => assert_eq!(k, "é"),
        _ => panic!("expected del"),
    }
    assert!(match_msg_from_client("get a\u{2003}b".as_bytes()).is_none());
}
