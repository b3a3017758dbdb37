use game_client::mp::cookie::{cookie_values, display_name_candidates, display_name_cookie, urlencoding_decode, urlencoding_encode, NAME_COOKIE};

#[test]
fn url_encode_keeps_unreserved() {
    assert_eq!(urlencoding_encode("Az09-_.~"), "Az09-_.~");
    assert_eq!(urlencoding_encode("a b/c"), "a%20b%2Fc");
    assert_eq!(urlencoding_encode("é"), "%C3%A9");
    assert_eq!(urlencoding_encode(""), "");
}

#[test]
fn url_decode_cases() {
    assert_eq!(urlencoding_decode("a%20b"), "a b");
    assert_eq!(urlencoding_decode("a+b"), "a b");
    assert_eq!(urlencoding_decode("%41"), "A");
    assert_eq!(urlencoding_decode("%4"), "%4");
    assert_eq!(urlencoding_decode("%zz"), "%zz");
    assert_eq!(urlencoding_decode("%c3%a9"), "é");
    assert_eq!(urlencoding_decode("%FF"), "\u{FFFD}");
}

#[test]
fn url_roundtrip_on_names() {
    for s in ["Ace", "Bee Two", "x/y?z", "naïve", "日本", ""] {
        assert_eq!(urlencoding_decode(&urlencoding_encode(s)), s);
    }
}

#[test]
fn cookie_pieces() {
    let c = "a=1; sg_display_name=Ace%20B; b=2;sg_display_name=Z";
    assert_eq!(cookie_values(c, "sg_display_name"), vec!["Ace%20B".to_string(), "Z".to_string()]);
    assert_eq!(cookie_values(c, "a"), vec!["1".to_string()]);
    assert!(cookie_values("", "a").is_empty());
    assert_eq!(display_name_candidates(c), vec!["Ace B".to_string(), "Z".to_string()]);
    assert_eq!(NAME_COOKIE, "sg_display_name");
}

#[test]
fn cookie_written_for_a_year() {
    assert_eq!(
        display_name_cookie("Ace B"),
        "sg_display_name=Ace%20B; path=/; max-age=31536000; SameSite=Lax"
    );
}

#[test]
fn stored_name_reads_back() {
    for name in ["Ace B", "naïve;=x", "  spaced  ", ""] {
        let stored = display_name_cookie(name);
        let piece = stored.split(';').next().unwrap();
        assert_eq!(display_name_candidates(piece), vec![name.to_string()]);
    }
}

#[test]
fn encoded_alphabet_and_examples() {
    assert_eq!(urlencoding_encode("a b+c"), "a%20b%2Bc");
    assert_eq!(urlencoding_decode("a+b%41%zz"), "a bA%zz");
    for s in ["a b+c", "naïve ~ 100%", "日本/x?y=z&w", "\u{0}\u{7f}"] {
        let e = urlencoding_encode(s);
        let b = e.as_bytes();
        let mut i = 0;
        while i < b.len() {
            let c = b[i];
            if c == b'%' {
                assert!(i + 2 < b.len());
                for d in [b[i + 1], b[i + 2]] {
                    assert!(d.is_ascii_digit() || (b'A'..=b'F').contains(&d), "{e}");
                }
                i += 3;
            } else {
                assert!(c.is_ascii_alphanumeric() || b"-_.~".contains(&c), "{e}");
                i += 1;
            }
        }
    }
}
