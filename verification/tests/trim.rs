use envparse::parse::trim_ws;

fn check(s: &str, r: core::ops::Range<usize>) {
    assert_eq!(trim_ws(s.as_bytes()), Some((r.start, r.end)), "trim {:?}", (s, r.clone()));
    let (sr, se) = trim_ws(s.as_bytes()).unwrap();
    assert_eq!(s.get(sr..se), Some(s.trim()), "trim smoke {:?}", (s, r.clone(), sr..se),);
}

#[test]
fn test_trim_empty() {
    assert_eq!(trim_ws(b""), None);
    assert_eq!(trim_ws(b" \t\n\r"), None);
    assert_eq!(trim_ws(b" \t\n\r"), None);
    for i in 0..15 {
        for c in [" ", "\t", "\n", "\r"] {
            let s = c.repeat(i);
            assert_eq!(trim_ws(s.as_bytes()), None, "string of {} spaces (type = {:?}): {:?}", s.len(), c, s,);
            for c2 in [" ", "\t", "\n", "\r"] {
                let cc = format!("{}{}", c, c2);
                let s2 = cc.repeat(i);
                assert_eq!(
                    trim_ws(s.as_bytes()),
                    None,
                    "string of {} spaces (type = {:?}): {:?}",
                    s2.len(),
                    cc,
                    s2,
                );
            }
        }
    }
}

#[test]
fn test_trim() {
    for i in 1..10 {
        let s = "a".repeat(i);
        let r = 0..s.len();
        check(&s, r.clone());
        for i in 0..15 {
            for p1 in [" ", "\t", "\r", "\n"] {
                for p2 in [" ", "\t", "\r", "\n"] {
                    let pad = format!("{}{}", p1, p2).repeat(i);
                    check(&format!("{}{}", s, pad), r.clone());
                    let padded_r = r.start + pad.len()..r.end + pad.len();
                    check(&format!("{}{}", pad, s), padded_r.clone());
                    check(&format!("{}{}{}", pad, s, pad), padded_r.clone());
                }
            }
        }
    }
}
