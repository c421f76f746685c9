use scr_axum_cranker_router::forwarded::{
    append_string_for_forwarded_header, is_ows, is_t_char, is_v_char, quote_if_needed,
    ForwardedHeader,
};

fn read(s: &str) -> Vec<ForwardedHeader> {
    ForwardedHeader::from_string(s).unwrap()
}

fn extensions(h: &ForwardedHeader) -> Vec<(String, String)> {
    match &h.extensions {
        Some(m) => m.iter().map(|(k, v)| (k.clone(), v.clone())).collect(),
        None => vec![],
    }
}

#[test]
fn header_is_read() {
    let v = read("for=192.0.2.60;proto=http;by=203.0.113.43;host=\"a.b:80\"");
    assert_eq!(v.len(), 1);
    assert_eq!(v[0].for_value.as_deref(), Some("192.0.2.60"));
    assert_eq!(v[0].proto.as_deref(), Some("http"));
    assert_eq!(v[0].by.as_deref(), Some("203.0.113.43"));
    assert_eq!(v[0].host.as_deref(), Some("a.b:80"));
    assert!(v[0].extensions.is_none());
}

#[test]
fn header_lists_proxies() {
    let v = read("for=1.2.3.4, for=\"[2001:db8:cafe::17]:4711\" ,FOR=unknown;Secret=\"a \\\"b\\\"\";x=");
    assert_eq!(v.len(), 3);
    assert_eq!(v[0].for_value.as_deref(), Some("1.2.3.4"));
    assert_eq!(v[1].for_value.as_deref(), Some("[2001:db8:cafe::17]:4711"));
    assert_eq!(v[2].for_value.as_deref(), Some("unknown"));
    assert_eq!(
        extensions(&v[2]),
        vec![
            ("secret".to_string(), "a \"b\"".to_string()),
            ("x".to_string(), String::new())
        ]
    );
}

#[test]
fn extension_that_comes_again_moves_to_the_end() {
    let v = read("a=1;b=2;a=3");
    assert_eq!(
        extensions(&v[0]),
        vec![("b".to_string(), "2".to_string()), ("a".to_string(), "3".to_string())]
    );
}

#[test]
fn empty_header_lists_nothing() {
    assert!(read("").is_empty());
    assert!(read(" \t").is_empty());
    let v = read(",");
    assert_eq!(v.len(), 1);
    assert_eq!(v[0].to_string(), "");
}

#[test]
fn headers_that_are_refused() {
    for (s, reason) in [
        ("fo r=1", "Got whitespace in parameter name while in ParamName - header was fo"),
        ("for=1;host", "Unexpected ending point at state ParamName for for=1;host"),
        ("f(=1", "Got ascii 40 while in ParamName"),
        ("for=é", "Got character code 233 (é) while parsing param value"),
    ] {
        let e = ForwardedHeader::from_string(s).err().unwrap();
        assert_eq!(e.reason, reason);
        assert_eq!(e.opt_err_kind.unwrap().as_str(), "ForwardedHeaderParserError_0008");
    }
}

#[test]
fn header_is_written() {
    let mut v = read("proto=https;host=\"a b\";by=x;for=y;z=1;w=2");
    assert_eq!(v.remove(0).to_string(), "by=x;for=y;host=\"a b\";proto=https;z=1;w=2");
}

#[test]
fn what_is_written_is_read_back() {
    let s = "by=x;for=\"[::1]:80\";host=\"a \\\"b\\\"\";proto=https;z=\"\";w=2";
    let h = read("for=\"[::1]:80\";host=\"a \\\"b\\\"\";by=x;proto=https;w=2").remove(0);
    assert_eq!(h.to_string(), "by=x;for=\"[::1]:80\";host=\"a \\\"b\\\"\";proto=https;w=2");
    let again = read(&h.to_string()).remove(0);
    assert_eq!(again.to_string(), h.to_string());
    assert_eq!(again.host.as_deref(), Some("a \"b\""));
    assert_eq!(extensions(&read(s)[0])[0], ("z".to_string(), String::new()));
}

#[test]
fn list_that_is_written_is_read_back() {
    let mut hs = read("for=\"a,b;c\\\"d\";host=h, by=x, proto=https;z=\"1 2\";w=");
    assert_eq!(hs.len(), 3);
    assert!(hs[0].extensions.is_none() && hs[1].extensions.is_none());
    let texts: Vec<String> = hs.iter().map(|h| h.to_string()).collect();
    assert_eq!(texts.join(", "), "for=\"a,b;c\\\"d\";host=h, by=x, proto=https;z=\"1 2\";w=");
    let again = read(&texts.join(", "));
    assert_eq!(again.len(), 3);
    for (h, a) in hs.drain(..).zip(again) {
        assert_eq!((&h.by, &h.for_value, &h.host, &h.proto), (&a.by, &a.for_value, &a.host, &a.proto));
        assert_eq!(h.extensions.is_none(), a.extensions.is_none());
        assert_eq!(extensions(&h), extensions(&a));
    }
}

#[test]
fn host_keeps_its_port() {
    let v = read("for=1.2.3.4;host=example.com:8080;proto=https");
    assert_eq!(v.len(), 1);
    assert_eq!(v[0].host.as_deref(), Some("example.com:8080"));
    assert!(v[0].by.is_none() && v[0].extensions.is_none());
}

#[test]
fn values_are_quoted_where_they_must_be() {
    assert_eq!(quote_if_needed("abc"), "abc");
    assert_eq!(quote_if_needed(""), "");
    assert_eq!(quote_if_needed("a:b"), "\"a:b\"");
    assert_eq!(quote_if_needed("a\"b"), "\"a\\\"b\"");
    let mut sb = String::new();
    append_string_for_forwarded_header(&mut sb, "a", None);
    append_string_for_forwarded_header(&mut sb, "b", Some(&"1".to_string()));
    append_string_for_forwarded_header(&mut sb, "c", Some(&"2 3".to_string()));
    assert_eq!(sb, "b=1;c=\"2 3\"");
}

#[test]
fn characters() {
    assert!(is_t_char('a') && is_t_char('Z') && is_t_char('0') && is_t_char('~') && is_t_char('\''));
    assert!(!is_t_char('"') && !is_t_char(',') && !is_t_char(' ') && !is_t_char('é'));
    assert!(is_ows(' ') && is_ows('\t') && !is_ows('\n'));
    assert!(is_v_char('!') && is_v_char('~') && !is_v_char(' ') && !is_v_char('\u{7f}'));
}
